//! Secrets and guesses, and how a guess is scored against a secret.

use crate::colour::{lemma_all_colours_once, FigureColour};
use crate::feedback::{lemma_count_in_four_slots, HitColour, HitOutput};
use crate::random::{choose_multiple, is_selection, shuffle};
use rand::rngs::StdRng;
use vstd::multiset::Multiset;
use vstd::prelude::*;

verus! {

/// A secret or a guess: four colours in order.
#[derive(Clone, Copy, Debug)]
pub struct FigureInput {
    figures: [FigureColour; 4],
}

impl View for FigureInput {
    type V = Seq<FigureColour>;

    closed spec fn view(&self) -> Seq<FigureColour> {
        self.figures@
    }
}

impl PartialEq for FigureInput {
    /// Two secrets or guesses are equal when they hold the same colours in
    /// the same order.
    fn eq(&self, other: &FigureInput) -> (r: bool) {
        let same = self.figures[0] == other.figures[0] && self.figures[1] == other.figures[1]
            && self.figures[2] == other.figures[2] && self.figures[3] == other.figures[3];
        assert(same <==> self@ =~= other@);
        same
    }
}

impl Eq for FigureInput {}

impl vstd::std_specs::cmp::PartialEqSpecImpl for FigureInput {
    open spec fn obeys_eq_spec() -> bool {
        true
    }

    open spec fn eq_spec(&self, other: &FigureInput) -> bool {
        self@ == other@
    }
}

/// The marker that position `i` of `guess` earns against `secret`.
///
/// A colour that occurs anywhere in the secret earns `White`, whether or not
/// that occurrence is already matched by another position of the guess.
pub open spec fn mark_at(
    guess: Seq<FigureColour>,
    secret: Seq<FigureColour>,
    i: int,
) -> HitColour {
    if guess[i] == secret[i] {
        HitColour::Black
    } else if secret.contains(guess[i]) {
        HitColour::White
    } else {
        HitColour::Empty
    }
}

/// The markers that `guess` earns against `secret`, position by position.
pub open spec fn marks(guess: Seq<FigureColour>, secret: Seq<FigureColour>) -> Seq<HitColour> {
    Seq::new(guess.len(), |i: int| mark_at(guess, secret, i))
}

/// The feedback for `guess` against `secret`: the markers that its
/// positions earn, without the positions.
pub open spec fn feedback(
    guess: Seq<FigureColour>,
    secret: Seq<FigureColour>,
) -> Multiset<HitColour> {
    marks(guess, secret).to_multiset()
}

/// How many of the four positions of `guess` hold the colour that `secret`
/// holds there.
pub open spec fn exact_matches(guess: Seq<FigureColour>, secret: Seq<FigureColour>) -> nat {
    let hit = |i: int| if guess[i] == secret[i] { 1nat } else { 0nat };
    hit(0) + hit(1) + hit(2) + hit(3)
}

/// How many of the four positions of `guess` hold a colour that `secret`
/// does not hold anywhere.
pub open spec fn foreign_colours(guess: Seq<FigureColour>, secret: Seq<FigureColour>) -> nat {
    let miss = |i: int| if secret.contains(guess[i]) { 0nat } else { 1nat };
    miss(0) + miss(1) + miss(2) + miss(3)
}

/// Whether `colour` is one of `figures`.
fn contains(figures: &[FigureColour; 4], colour: FigureColour) -> (found: bool)
    ensures
        found == figures@.contains(colour),
{
    for i in 0..4
        invariant
            forall|j: int| 0 <= j < i ==> figures@[j] != colour,
    {
        if figures[i] == colour {
            return true;
        }
    }
    false
}

impl FigureInput {
    /// Builds a secret or a guess from exactly four colours.
    pub fn new(colors: &[FigureColour]) -> (r: FigureInput)
        requires
            colors@.len() == 4,
        ensures
            r@ == colors@,
    {
        let mut buffer = [FigureColour::Blue; 4];
        for i in 0..4
            invariant
                colors@.len() == 4,
                forall|j: int| 0 <= j < i ==> buffer@[j] == colors@[j],
        {
            buffer[i] = colors[i];
        }
        FigureInput { figures: buffer }
    }

    /// Builds a secret or a guess from `colors` if they are exactly four.
    pub fn try_new(colors: &[FigureColour]) -> (r: Option<FigureInput>)
        ensures
            r is Some <==> colors@.len() == 4,
            r matches Some(figure) ==> figure@ == colors@,
    {
        if colors.len() == 4 {
            Some(FigureInput::new(colors))
        } else {
            None
        }
    }

    /// Draws a secret: four different colours, chosen from the six by `rng`.
    pub fn new_random(rng: &mut StdRng) -> (r: FigureInput)
        ensures
            r@.no_duplicates(),
    {
        let values = FigureColour::all();
        let selected = choose_multiple(values.as_slice(), rng, 4);
        proof {
            lemma_all_colours_once();
            let picks = choose|picks: Seq<int>| is_selection(picks, values@, selected@);
            assert forall|i: int, j: int|
                0 <= i < selected@.len() && 0 <= j < selected@.len() && i != j implies selected@[i]
                != selected@[j] by {
                assert(picks[i] != picks[j]);
            }
        }
        FigureInput::new(selected.as_slice())
    }

    /// The four colours in order.
    pub fn figures(&self) -> (r: [FigureColour; 4])
        ensures
            r@ == self@,
    {
        self.figures
    }

    /// A secret or a guess always has four positions.
    pub proof fn lemma_length_is_four(self)
        ensures
            self@.len() == 4,
    {
    }

    /// Scores `self`, the guess, against `other`, the secret.
    ///
    /// The four markers come back in an order drawn from `rng`, so that a
    /// marker's slot does not tell which position earned it.
    pub fn cmp(&self, other: &FigureInput, rng: &mut StdRng) -> (r: HitOutput)
        ensures
            r@ == feedback(self@, other@),
            r@.count(HitColour::Black) == exact_matches(self@, other@),
            r@.count(HitColour::Empty) == foreign_colours(self@, other@),
            r@.count(HitColour::Black) + r@.count(HitColour::White) + r@.count(HitColour::Empty)
                == 4,
            r.is_win() <==> self@ == other@,
    {
        let mut hits = [HitColour::Empty; 4];
        for i in 0..4
            invariant
                forall|j: int|
                    0 <= j < i ==> hits@[j] == if self@[j] == other@[j] {
                        HitColour::Black
                    } else {
                        HitColour::Empty
                    },
                forall|j: int| i <= j < 4 ==> hits@[j] == HitColour::Empty,
        {
            if self.figures[i] == other.figures[i] {
                hits[i] = HitColour::Black;
            }
        }
        for i in 0..4
            invariant
                forall|j: int| 0 <= j < i ==> hits@[j] == mark_at(self@, other@, j),
                forall|j: int|
                    i <= j < 4 ==> hits@[j] == if self@[j] == other@[j] {
                        HitColour::Black
                    } else {
                        HitColour::Empty
                    },
        {
            if hits[i] == HitColour::Empty && contains(&other.figures, self.figures[i]) {
                hits[i] = HitColour::White;
            }
        }
        assert(hits@ =~= marks(self@, other@));
        shuffle(&mut hits, rng);
        proof {
            lemma_feedback_totals_four(*self, *other);
            lemma_feedback_counts(*self, *other);
            lemma_win_iff_guess_is_secret(*self, *other);
        }
        HitOutput::new(hits)
    }
}

/// Every position earns one marker, so the counts of the three markers in
/// a feedback add up to four.
pub proof fn lemma_feedback_totals_four(guess: FigureInput, secret: FigureInput)
    ensures
        feedback(guess@, secret@).len() == 4,
        feedback(guess@, secret@).count(HitColour::Black) + feedback(guess@, secret@).count(
            HitColour::White,
        ) + feedback(guess@, secret@).count(HitColour::Empty) == 4,
{
    let earned = marks(guess@, secret@);
    earned.to_multiset_ensures();
    lemma_count_in_four_slots(earned, HitColour::Black);
    lemma_count_in_four_slots(earned, HitColour::White);
    lemma_count_in_four_slots(earned, HitColour::Empty);
}

/// A position at which guess and secret hold the same colour earns `Black`,
/// never `White` or `Empty`, and no other position earns `Black`.
pub proof fn lemma_exact_match_is_black(guess: FigureInput, secret: FigureInput, i: int)
    requires
        0 <= i < 4,
    ensures
        guess@[i] == secret@[i] <==> marks(guess@, secret@)[i] == HitColour::Black,
{
}

/// What a feedback counts: `Black` for each position at which guess and
/// secret agree, `Empty` for each position whose colour the secret lacks,
/// `White` for the rest.
pub proof fn lemma_feedback_counts(guess: FigureInput, secret: FigureInput)
    ensures
        feedback(guess@, secret@).count(HitColour::Black) == exact_matches(guess@, secret@),
        feedback(guess@, secret@).count(HitColour::Empty) == foreign_colours(guess@, secret@),
        feedback(guess@, secret@).count(HitColour::White) == 4 - exact_matches(guess@, secret@)
            - foreign_colours(guess@, secret@),
{
    let earned = marks(guess@, secret@);
    lemma_count_in_four_slots(earned, HitColour::Black);
    lemma_count_in_four_slots(earned, HitColour::White);
    lemma_count_in_four_slots(earned, HitColour::Empty);
    assert forall|i: int| 0 <= i < 4 && guess@[i] == secret@[i] implies secret@.contains(
        guess@[i],
    ) by {
        assert(secret@[i] == guess@[i]);
    }
}

/// A guess earns four `Black` markers exactly when it is the secret.
pub proof fn lemma_win_iff_guess_is_secret(guess: FigureInput, secret: FigureInput)
    ensures
        feedback(guess@, secret@).count(HitColour::Black) == 4 <==> guess@ == secret@,
{
    lemma_feedback_counts(guess, secret);
    if guess@ == secret@ {
        assert(exact_matches(guess@, secret@) == 4);
    }
    if feedback(guess@, secret@).count(HitColour::Black) == 4 {
        assert(guess@ =~= secret@);
    }
}

/// The feedback depends on guess and secret alone: two feedbacks for the
/// same guess and secret hold every marker equally often, in whatever order
/// each stores them.
pub proof fn lemma_feedback_ignores_order(
    guess: FigureInput,
    secret: FigureInput,
    first: HitOutput,
    second: HitOutput,
)
    requires
        first@ == feedback(guess@, secret@),
        second@ == feedback(guess@, secret@),
    ensures
        first@ == second@,
        forall|marker: HitColour| first@.count(marker) == second@.count(marker),
        first.is_win() == second.is_win(),
{
}

} // verus!
