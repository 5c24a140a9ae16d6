use backend_supervisor::cleanup::is_extraction_artifact;

#[test]
fn prefixed_directory_is_an_artifact() {
    assert!(is_extraction_artifact("_MEI123456", true));
    assert!(is_extraction_artifact("_MEI", true));
}

#[test]
fn files_are_never_artifacts() {
    assert!(!is_extraction_artifact("_MEI123456", false));
}

#[test]
fn other_directories_are_left_alone() {
    assert!(!is_extraction_artifact("systemd-private", true));
    assert!(!is_extraction_artifact("_ME", true));
    assert!(!is_extraction_artifact("MEI123456", true));
    assert!(!is_extraction_artifact("", true));
}
