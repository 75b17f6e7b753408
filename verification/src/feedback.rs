//! The feedback for one guess: four markers whose order carries no meaning.

use vstd::multiset::Multiset;
use vstd::prelude::*;
use vstd::seq_lib::to_multiset_build;

verus! {

/// What one position of a guess earned.
#[derive(Clone, Copy, PartialEq, Eq, Debug, Structural)]
pub enum HitColour {
    /// The guessed colour stands at this very position of the secret.
    Black,
    /// The guessed colour occurs in the secret, though not at this position.
    White,
    /// The guessed colour does not occur in the secret.
    Empty,
}

impl HitColour {
    /// The display name of a marker.
    pub open spec fn name(self) -> Seq<char> {
        match self {
            HitColour::Black => "Black"@,
            HitColour::White => "White"@,
            HitColour::Empty => "Empty"@,
        }
    }
}

impl ToString for HitColour {
    /// The display name of the marker.
    fn to_string(&self) -> (s: String)
        ensures
            s@ == self.name(),
    {
        match self {
            HitColour::Black => "Black".to_string(),
            HitColour::White => "White".to_string(),
            HitColour::Empty => "Empty".to_string(),
        }
    }
}

/// The feedback for one guess.
///
/// Its view is the multiset of its four markers: the slot in which a marker
/// is stored says nothing about the position that earned it.
#[derive(Clone, Copy, Debug)]
pub struct HitOutput {
    hits: [HitColour; 4],
}

impl View for HitOutput {
    type V = Multiset<HitColour>;

    open spec fn view(&self) -> Multiset<HitColour> {
        self.slots().to_multiset()
    }
}

/// 1 if the two markers are the same, else 0.
pub open spec fn tally(found: HitColour, wanted: HitColour) -> nat {
    if found == wanted {
        1
    } else {
        0
    }
}

/// How often a marker occurs among four slots, slot by slot.
pub proof fn lemma_count_in_four_slots(slots: Seq<HitColour>, marker: HitColour)
    requires
        slots.len() == 4,
    ensures
        slots.to_multiset().count(marker) == tally(slots[0], marker) + tally(slots[1], marker)
            + tally(slots[2], marker) + tally(slots[3], marker),
{
    let s0 = Seq::<HitColour>::empty();
    let s1 = s0.push(slots[0]);
    let s2 = s1.push(slots[1]);
    let s3 = s2.push(slots[2]);
    let s4 = s3.push(slots[3]);
    assert(s4 =~= slots);
    s0.to_multiset_ensures();
    assert(s0.to_multiset() =~= Multiset::<HitColour>::empty());
    to_multiset_build(s0, slots[0]);
    to_multiset_build(s1, slots[1]);
    to_multiset_build(s2, slots[2]);
    to_multiset_build(s3, slots[3]);
}

impl HitOutput {
    /// The four markers in the order in which they are stored.
    pub closed spec fn slots(self) -> Seq<HitColour> {
        self.hits@
    }

    /// Whether the feedback reports a solved game: four `Black` markers.
    pub open spec fn is_win(self) -> bool {
        self@.count(HitColour::Black) == 4
    }

    /// A feedback always has four slots.
    pub proof fn lemma_four_slots(self)
        ensures
            self.slots().len() == 4,
            self@.len() == 4,
    {
        self.slots().to_multiset_ensures();
    }

    /// Every marker is `Black`, `White` or `Empty`, so the three counts add
    /// up to the four slots.
    pub proof fn lemma_counts_total(self)
        ensures
            self@.count(HitColour::Black) + self@.count(HitColour::White) + self@.count(
                HitColour::Empty,
            ) == 4,
    {
        lemma_count_in_four_slots(self.slots(), HitColour::Black);
        lemma_count_in_four_slots(self.slots(), HitColour::White);
        lemma_count_in_four_slots(self.slots(), HitColour::Empty);
    }

    /// A feedback is a win exactly when every slot holds `Black`.
    pub proof fn lemma_win_is_all_black(self)
        ensures
            self.is_win() <==> forall|i: int|
                0 <= i < 4 ==> self.slots()[i] == HitColour::Black,
    {
        lemma_count_in_four_slots(self.slots(), HitColour::Black);
    }

    /// Wraps four markers as a feedback.
    pub fn new(hits: [HitColour; 4]) -> (r: HitOutput)
        ensures
            r.slots() == hits@,
    {
        HitOutput { hits }
    }

    /// The four markers as they are stored.
    pub fn hits(&self) -> (r: [HitColour; 4])
        ensures
            r@ == self.slots(),
    {
        self.hits
    }

    /// How many of the four markers are `marker`.
    pub fn count(&self, marker: HitColour) -> (n: usize)
        ensures
            n == self@.count(marker),
    {
        let mut n: usize = 0;
        proof {
            self.hits@.take(0).to_multiset_ensures();
        }
        for i in 0..4
            invariant
                n <= i,
                n == self.hits@.take(i as int).to_multiset().count(marker),
        {
            proof {
                let seen = self.hits@.take(i as int);
                assert(self.hits@.take(i + 1) =~= seen.push(self.hits@[i as int]));
                to_multiset_build(seen, self.hits@[i as int]);
            }
            if self.hits[i] == marker {
                n = n + 1;
            }
        }
        assert(self.hits@.take(4) =~= self.hits@);
        n
    }

    /// Whether the guess that earned this feedback solved the game.
    pub fn is_all_black(&self) -> (b: bool)
        ensures
            b <==> self@.count(HitColour::Black) == 4,
    {
        proof {
            self.lemma_win_is_all_black();
        }
        for i in 0..4
            invariant
                self.is_win() <==> forall|j: int|
                    0 <= j < 4 ==> self.slots()[j] == HitColour::Black,
                forall|j: int| 0 <= j < i ==> self.slots()[j] == HitColour::Black,
        {
            if self.hits[i] != HitColour::Black {
                return false;
            }
        }
        true
    }
}

/// `order` names each of the four slots once.
pub open spec fn is_reordering(order: Seq<int>) -> bool {
    &&& order.len() == 4
    &&& order.no_duplicates()
    &&& forall|i: int| 0 <= i < 4 ==> 0 <= #[trigger] order[i] < 4
}

/// Moving the markers to other slots changes no count: a feedback whose
/// slots hold the markers of another in a different order is the same
/// feedback.
pub proof fn lemma_reordering_keeps_markers(before: HitOutput, after: HitOutput, order: Seq<int>)
    requires
        is_reordering(order),
        forall|i: int| 0 <= i < 4 ==> after.slots()[i] == before.slots()[order[i]],
    ensures
        after@ == before@,
{
    assert forall|marker: HitColour| after@.count(marker) == before@.count(marker) by {
        lemma_count_in_four_slots(before.slots(), marker);
        lemma_count_in_four_slots(after.slots(), marker);
        assert(order[0] != order[1] && order[0] != order[2] && order[0] != order[3]);
        assert(order[1] != order[2] && order[1] != order[3] && order[2] != order[3]);
    }
    assert(after@ =~= before@);
}

} // verus!
