use riscv_mutator::causes::{cause_from_filename, CausesList, TestCaseData};

#[test]
fn cause_names_from_artifact_files() {
    assert_eq!(
        cause_from_filename("bad_decoder_state%0042"),
        "bad decoder state"
    );
    assert_eq!(cause_from_filename("plain%"), "plain");
    assert_eq!(cause_from_filename("no_separator_at_all"), "no separator at all");
    assert_eq!(cause_from_filename(""), "");
}

#[test]
fn causes_list_holds_findings() {
    let found = vec![TestCaseData {
        cause: cause_from_filename("stuck_pipeline%7"),
        time_to_exposure: 42,
    }];
    let list = CausesList {
        found,
        still_missing: vec!["lost interrupt".to_string()],
    };
    assert_eq!(list.found.len(), 1);
    assert_eq!(list.found[0].cause, "stuck pipeline");
    assert_eq!(list.found[0].time_to_exposure, 42);
    assert_eq!(list.still_missing[0], "lost interrupt");
}
