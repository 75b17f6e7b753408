use mastermind::{decode_colours, parse_colours, FigureColour, FigureInput, ParseError};

const R: FigureColour = FigureColour::Red;
const O: FigureColour = FigureColour::Orange;
const Y: FigureColour = FigureColour::Yellow;
const B: FigureColour = FigureColour::Blue;
const P: FigureColour = FigureColour::Purple;
const G: FigureColour = FigureColour::Green;

#[test]
fn a_line_of_four_codes_is_read_in_order() {
    assert_eq!(parse_colours("RGBY"), Ok(vec![R, G, B, Y]));
    assert_eq!(parse_colours("OPPO"), Ok(vec![O, P, P, O]));
}

#[test]
fn the_line_break_is_ignored() {
    assert_eq!(parse_colours("RGBY\n"), Ok(vec![R, G, B, Y]));
    assert_eq!(parse_colours("RGBY\r\n"), Ok(vec![R, G, B, Y]));
}

#[test]
fn any_whitespace_at_the_end_is_ignored() {
    assert_eq!(parse_colours("RGBY  \t \n"), Ok(vec![R, G, B, Y]));
    assert_eq!(parse_colours("RGBY\u{3000}\u{a0}"), Ok(vec![R, G, B, Y]));
}

#[test]
fn whitespace_before_or_between_the_codes_is_an_error() {
    assert_eq!(parse_colours(" RGBY"), Err(ParseError));
    assert_eq!(parse_colours("RG BY"), Err(ParseError));
    assert_eq!(parse_colours("R\nGBY"), Err(ParseError));
}

#[test]
fn an_unknown_code_is_an_error() {
    assert_eq!(parse_colours("X"), Err(ParseError));
    assert_eq!(parse_colours("RGXY"), Err(ParseError));
    assert_eq!(parse_colours("RGBX\n"), Err(ParseError));
    assert_eq!(parse_colours("rgby"), Err(ParseError));
    assert_eq!(parse_colours("RGBé"), Err(ParseError));
}

#[test]
fn a_line_of_any_length_is_read() {
    assert_eq!(parse_colours(""), Ok(vec![]));
    assert_eq!(parse_colours("\n"), Ok(vec![]));
    assert_eq!(parse_colours("Y"), Ok(vec![Y]));
    assert_eq!(parse_colours("RGB\n"), Ok(vec![R, G, B]));
    assert_eq!(parse_colours("ROYBPG\n"), Ok(vec![R, O, Y, B, P, G]));
}

#[test]
fn a_line_of_four_codes_makes_a_guess() {
    let colours = parse_colours("RGBY\n").unwrap();
    let guess = FigureInput::try_new(&colours);
    assert_eq!(guess, Some(FigureInput::new(&[R, G, B, Y])));
}

#[test]
fn a_line_of_another_length_makes_no_guess() {
    let short = parse_colours("RGB\n").unwrap();
    assert_eq!(FigureInput::try_new(&short), None);
    let long = parse_colours("RGBYP\n").unwrap();
    assert_eq!(FigureInput::try_new(&long), None);
}

#[test]
fn codes_are_decoded_one_by_one() {
    assert_eq!(decode_colours("RGBY"), Ok(vec![R, G, B, Y]));
    assert_eq!(decode_colours("GGGG"), Ok(vec![G, G, G, G]));
    assert_eq!(decode_colours("BYROGP"), Ok(vec![B, Y, R, O, G, P]));
    assert_eq!(decode_colours(""), Ok(vec![]));
}

#[test]
fn decoding_ignores_nothing() {
    assert_eq!(decode_colours("RGBY\n"), Err(ParseError));
    assert_eq!(decode_colours("RGBY "), Err(ParseError));
    assert_eq!(decode_colours("RGXY"), Err(ParseError));
    assert_eq!(decode_colours("X"), Err(ParseError));
}

#[test]
fn parsing_a_line_is_decoding_it_without_its_end() {
    for line in ["RGBY\n", "PO \t", "RX\n", "\n\n", "  R\n", "OOOOOOOO\r\n"] {
        assert_eq!(parse_colours(line), decode_colours(line.trim_end()));
    }
}
