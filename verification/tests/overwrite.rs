use flac2alac::overwrite::{affirmative, resolve, OverwritePolicy, Resolution};

#[test]
fn the_accepted_spellings_of_yes() {
    for answer in ["y", "Y", "o", "O", "oui", "Oui", "OUI", "oUi", "ouI"] {
        assert!(affirmative(answer), "{:?}", answer);
    }
}

#[test]
fn yes_with_white_space_around_it() {
    for answer in ["y\n", "Y\r\n", "  oui  ", "\to\n", " O", "\u{a0}y\u{2003}"] {
        assert!(affirmative(answer), "{:?}", answer);
    }
}

#[test]
fn anything_else_is_no() {
    for answer in [
        "", "\n", "   ", "n", "N", "no", "non", "yes", "ye", "ou", "ouii", "oui!", "y y", "o ui",
        "0", "ø", "ｙ", "yo", "oy",
    ] {
        assert!(!affirmative(answer), "{:?}", answer);
    }
}

#[test]
fn a_missing_destination_never_stands_in_the_way() {
    for policy in [OverwritePolicy::Skip, OverwritePolicy::Prompt, OverwritePolicy::Replace] {
        for may_ask in [false, true] {
            assert_eq!(resolve(policy, false, may_ask), Resolution::Proceed);
        }
    }
}

#[test]
fn an_existing_destination_goes_by_the_policy() {
    assert_eq!(resolve(OverwritePolicy::Skip, true, false), Resolution::Skip);
    assert_eq!(resolve(OverwritePolicy::Skip, true, true), Resolution::Skip);
    assert_eq!(resolve(OverwritePolicy::Replace, true, false), Resolution::Proceed);
    assert_eq!(resolve(OverwritePolicy::Replace, true, true), Resolution::Proceed);
    assert_eq!(resolve(OverwritePolicy::Prompt, true, true), Resolution::Ask);
    assert_eq!(resolve(OverwritePolicy::Prompt, true, false), Resolution::Skip);
}
