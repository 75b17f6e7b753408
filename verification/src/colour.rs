//! The six peg colours, their one-letter codes and their display names.

use vstd::prelude::*;

verus! {

/// One of the six peg colours.
#[derive(Clone, Copy, PartialEq, Eq, Debug, Structural)]
pub enum FigureColour {
    Red,
    Orange,
    Yellow,
    Blue,
    Purple,
    Green,
}

/// A text that is not the code of any colour.
#[derive(Clone, Copy, PartialEq, Eq, Debug, Structural)]
pub struct ParseError;

impl ParseError {
    /// What to tell the player.
    pub fn message(&self) -> (text: &'static str)
        ensures
            text@ == "Incorrect character colour FigureColour."@,
    {
        "Incorrect character colour FigureColour."
    }
}

/// The six colours, in the order in which they are declared.
pub open spec fn all_colours() -> Seq<FigureColour> {
    seq![
        FigureColour::Red,
        FigureColour::Orange,
        FigureColour::Yellow,
        FigureColour::Blue,
        FigureColour::Purple,
        FigureColour::Green,
    ]
}

/// Every colour is listed in `all_colours`, and none twice.
pub proof fn lemma_all_colours_once()
    ensures
        all_colours().len() == 6,
        all_colours().no_duplicates(),
        forall|colour: FigureColour| all_colours().contains(colour),
{
    let all = all_colours();
    assert forall|colour: FigureColour| all.contains(colour) by {
        match colour {
            FigureColour::Red => assert(all[0] == colour),
            FigureColour::Orange => assert(all[1] == colour),
            FigureColour::Yellow => assert(all[2] == colour),
            FigureColour::Blue => assert(all[3] == colour),
            FigureColour::Purple => assert(all[4] == colour),
            FigureColour::Green => assert(all[5] == colour),
        }
    }
}

/// The colour that a one-letter code stands for, if any.
pub open spec fn colour_of_code(c: char) -> Option<FigureColour> {
    if c == 'R' {
        Some(FigureColour::Red)
    } else if c == 'O' {
        Some(FigureColour::Orange)
    } else if c == 'Y' {
        Some(FigureColour::Yellow)
    } else if c == 'B' {
        Some(FigureColour::Blue)
    } else if c == 'P' {
        Some(FigureColour::Purple)
    } else if c == 'G' {
        Some(FigureColour::Green)
    } else {
        None
    }
}

impl FigureColour {
    /// The one-letter code of a colour: the first letter of its name.
    pub open spec fn code(self) -> char {
        match self {
            FigureColour::Red => 'R',
            FigureColour::Orange => 'O',
            FigureColour::Yellow => 'Y',
            FigureColour::Blue => 'B',
            FigureColour::Purple => 'P',
            FigureColour::Green => 'G',
        }
    }

    /// The display name of a colour.
    pub open spec fn name(self) -> Seq<char> {
        match self {
            FigureColour::Red => "Red"@,
            FigureColour::Orange => "Orange"@,
            FigureColour::Yellow => "Yellow"@,
            FigureColour::Blue => "Blue"@,
            FigureColour::Purple => "Purple"@,
            FigureColour::Green => "Green"@,
        }
    }

    /// All six colours, in the order in which they are declared.
    pub fn all() -> (r: [FigureColour; 6])
        ensures
            r@ == all_colours(),
    {
        let r = [
            FigureColour::Red,
            FigureColour::Orange,
            FigureColour::Yellow,
            FigureColour::Blue,
            FigureColour::Purple,
            FigureColour::Green,
        ];
        assert(r@ =~= all_colours());
        r
    }

    /// Reads one character as a colour code.
    pub fn from_char(c: char) -> (r: Result<FigureColour, ParseError>)
        ensures
            match colour_of_code(c) {
                Some(colour) => r == Ok::<FigureColour, ParseError>(colour),
                None => r is Err,
            },
    {
        match c {
            'R' => Ok(FigureColour::Red),
            'O' => Ok(FigureColour::Orange),
            'Y' => Ok(FigureColour::Yellow),
            'B' => Ok(FigureColour::Blue),
            'P' => Ok(FigureColour::Purple),
            'G' => Ok(FigureColour::Green),
            _ => Err(ParseError),
        }
    }
}

/// Each colour has a code of its own, the first letter of its name, and
/// the code is read back as that colour.
pub proof fn lemma_code_is_first_letter(colour: FigureColour)
    ensures
        colour.name().len() > 0,
        colour.name()[0] == colour.code(),
        colour_of_code(colour.code()) == Some(colour),
{
    reveal_strlit("Red");
    reveal_strlit("Orange");
    reveal_strlit("Yellow");
    reveal_strlit("Blue");
    reveal_strlit("Purple");
    reveal_strlit("Green");
}

/// A character is a code exactly when it is the code of some colour, and
/// then of one colour only.
pub proof fn lemma_codes_are_the_colours(c: char)
    ensures
        colour_of_code(c) matches Some(colour) ==> colour.code() == c,
        colour_of_code(c) is None ==> forall|colour: FigureColour| colour.code() != c,
{
}

impl std::str::FromStr for FigureColour {
    type Err = ParseError;

    /// Reads a text as a colour code: one letter, the first of the colour's name.
    fn from_str(s: &str) -> (r: Result<FigureColour, ParseError>)
        ensures
            r is Ok <==> s@.len() == 1 && colour_of_code(s@[0]) is Some,
            r matches Ok(colour) ==> colour_of_code(s@[0]) == Some(colour),
    {
        if s.unicode_len() == 1 {
            FigureColour::from_char(s.get_char(0))
        } else {
            Err(ParseError)
        }
    }
}

impl ToString for FigureColour {
    /// The display name of the colour.
    fn to_string(&self) -> (s: String)
        ensures
            s@ == self.name(),
    {
        match self {
            FigureColour::Red => "Red".to_string(),
            FigureColour::Orange => "Orange".to_string(),
            FigureColour::Yellow => "Yellow".to_string(),
            FigureColour::Blue => "Blue".to_string(),
            FigureColour::Purple => "Purple".to_string(),
            FigureColour::Green => "Green".to_string(),
        }
    }
}

} // verus!
