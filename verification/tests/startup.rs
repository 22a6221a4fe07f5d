use tantivy_eml_dump::startup::{
    choose_mode, fallback_confirmed, is_yes, validate_dir, DirProblem, Mode, F_ACCOUNT_ID, F_EML,
    F_ID, F_MAILBOX_ID,
};

#[test]
fn directories_are_checked_in_order() {
    assert_eq!(validate_dir(true, true, true), Ok(()));
    assert_eq!(validate_dir(false, false, false), Err(DirProblem::Missing));
    assert_eq!(validate_dir(false, false, true), Err(DirProblem::Missing));
    assert_eq!(validate_dir(true, false, false), Err(DirProblem::NotADirectory));
    assert_eq!(validate_dir(true, true, false), Err(DirProblem::NotAbsolute));
}

#[test]
fn problems_are_explained() {
    assert_eq!(
        DirProblem::Missing.message("Output directory", "/x"),
        "Error: Output directory '/x' does not exist."
    );
    assert_eq!(
        DirProblem::NotADirectory.message("Bichon Data directory", "/x"),
        "Error: Bichon Data directory '/x' is not a directory."
    );
    assert_eq!(
        DirProblem::NotAbsolute.message("Bichon root directory", "x"),
        "Error: Bichon root directory 'x' must be an absolute path."
    );
}

#[test]
fn mode_follows_from_the_databases_and_the_root_directory() {
    assert_eq!(choose_mode(true, true), Mode::Native);
    assert_eq!(choose_mode(true, false), Mode::Native);
    assert_eq!(choose_mode(false, true), Mode::AskFallback);
    assert_eq!(choose_mode(false, false), Mode::Fallback);
}

#[test]
fn yes_agrees_and_everything_else_declines() {
    for input in ["y", "Y", "yes", "YES", "yEs", " y \n", "\tYes\r\n"] {
        assert!(fallback_confirmed(input), "{input}");
    }
    for input in ["", "\n", "n", "no", "ye", "yess", "y es", "yes!", "ÿ", "ja"] {
        assert!(!fallback_confirmed(input), "{input}");
    }
    assert!(is_yes("y") && is_yes("yes"));
    assert!(!is_yes("Y") && !is_yes(" y"));
}

#[test]
fn index_fields() {
    assert_eq!(
        [F_ID, F_ACCOUNT_ID, F_MAILBOX_ID, F_EML],
        ["id", "account_id", "mailbox_id", "eml"]
    );
}
