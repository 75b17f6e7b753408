use mastermind::{HitColour, HitOutput};

const B: HitColour = HitColour::Black;
const W: HitColour = HitColour::White;
const E: HitColour = HitColour::Empty;

fn every_feedback() -> Vec<HitOutput> {
    let markers = [B, W, E];
    let mut all = Vec::new();
    for a in markers {
        for b in markers {
            for c in markers {
                for d in markers {
                    all.push(HitOutput::new([a, b, c, d]));
                }
            }
        }
    }
    all
}

#[test]
fn markers_are_named_in_full() {
    assert_eq!(B.to_string(), "Black");
    assert_eq!(W.to_string(), "White");
    assert_eq!(E.to_string(), "Empty");
}

#[test]
fn a_feedback_keeps_its_four_markers() {
    let output = HitOutput::new([B, W, E, W]);
    assert_eq!(output.hits(), [B, W, E, W]);
}

#[test]
fn count_tells_how_often_a_marker_occurs() {
    let output = HitOutput::new([B, W, E, W]);
    assert_eq!(output.count(B), 1);
    assert_eq!(output.count(W), 2);
    assert_eq!(output.count(E), 1);

    let blank = HitOutput::new([E, E, E, E]);
    assert_eq!(blank.count(B), 0);
    assert_eq!(blank.count(W), 0);
    assert_eq!(blank.count(E), 4);
}

#[test]
fn the_three_counts_add_up_to_four() {
    let all = every_feedback();
    assert_eq!(all.len(), 81);
    for output in all {
        assert_eq!(output.count(B) + output.count(W) + output.count(E), 4);
    }
}

#[test]
fn four_black_markers_are_a_win() {
    assert!(HitOutput::new([B, B, B, B]).is_all_black());
}

#[test]
fn anything_but_four_black_markers_is_no_win() {
    assert!(!HitOutput::new([B, B, B, W]).is_all_black());
    assert!(!HitOutput::new([E, B, B, B]).is_all_black());
    assert!(!HitOutput::new([B, W, B, B]).is_all_black());
    assert!(!HitOutput::new([B, B, E, B]).is_all_black());
    assert!(!HitOutput::new([W, W, W, W]).is_all_black());
    assert!(!HitOutput::new([E, E, E, E]).is_all_black());
}

#[test]
fn a_win_is_a_count_of_four_black_markers() {
    for output in every_feedback() {
        assert_eq!(output.is_all_black(), output.count(B) == 4);
    }
}

#[test]
fn the_order_of_the_markers_does_not_change_the_counts() {
    let first = HitOutput::new([B, W, E, E]);
    let second = HitOutput::new([E, E, W, B]);
    for marker in [B, W, E] {
        assert_eq!(first.count(marker), second.count(marker));
    }
    assert_eq!(first.is_all_black(), second.is_all_black());
}

#[test]
fn a_feedback_prints_its_markers() {
    let output = HitOutput::new([B, W, E, E]);
    assert_eq!(format!("{:?}", output), "HitOutput { hits: [Black, White, Empty, Empty] }");
}
