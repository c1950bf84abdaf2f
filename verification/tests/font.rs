use avionics::font::{find, FontChoice, CANDIDATES};

#[test]
fn a_font_asked_for_wins_over_every_candidate() {
    assert_eq!(find(Some(true), &[true, true, true, true, true]), FontChoice::Override);
}

#[test]
fn a_font_asked_for_and_missing_is_not_quietly_replaced() {
    assert_eq!(find(Some(false), &[true, true, true, true, true]), FontChoice::MissingOverride);
}

#[test]
fn the_first_font_present_is_taken() {
    assert_eq!(find(None, &[false, true, false, true, false]), FontChoice::Candidate(1));
    assert_eq!(CANDIDATES[1], "/usr/share/fonts/truetype/dejavu/DejaVuSansMono.ttf");
}

#[test]
fn no_font_at_all_is_said_so() {
    assert_eq!(find(None, &[false; 5]), FontChoice::NoFont);
    assert_eq!(find(None, &[]), FontChoice::NoFont);
}
