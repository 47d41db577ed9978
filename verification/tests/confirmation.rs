use purgit::confirm::{affirmative, confirm_decision};

#[test]
fn default_yes_confirms_without_reading() {
    assert!(confirm_decision(true, ""));
    assert!(confirm_decision(true, "n"));
    assert!(confirm_decision(true, "anything at all"));
}

#[test]
fn only_y_confirms() {
    assert!(confirm_decision(false, "y"));
    assert!(confirm_decision(false, "Y"));
    assert!(confirm_decision(false, "y\n"));
    assert!(confirm_decision(false, " y \n"));
    assert!(confirm_decision(false, "\tY\r\n"));
}

#[test]
fn anything_else_declines() {
    assert!(!confirm_decision(false, ""));
    assert!(!confirm_decision(false, "\n"));
    assert!(!confirm_decision(false, "n"));
    assert!(!confirm_decision(false, "no"));
    assert!(!confirm_decision(false, "yes"));
    assert!(!confirm_decision(false, "yy"));
    assert!(!confirm_decision(false, "y n"));
    assert!(!confirm_decision(false, "q"));
}

#[test]
fn affirmative_trims_and_ignores_case() {
    assert!(affirmative("y"));
    assert!(affirmative("   Y   "));
    assert!(!affirmative("x y"));
    assert!(!affirmative("  "));
}
