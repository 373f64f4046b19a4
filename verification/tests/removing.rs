use cleaner::removal::{
    collect_outcomes, failure_count, removal_paths, trash_all, FailureReason, RemovalOutcome,
};
use std::cell::RefCell;

fn entry(path: &str) -> (String, String) {
    (path.to_string(), "label".to_string())
}

fn denied() -> FailureReason {
    FailureReason::from_platform_error("NSCocoaErrorDomain", 513)
}

#[test]
fn trash_all_goes_on_after_a_failure() {
    let entries = vec![entry("/a"), entry("/b")];
    let asked: RefCell<Vec<String>> = RefCell::new(Vec::new());
    let trash = |p: &str| -> Result<(), FailureReason> {
        asked.borrow_mut().push(p.to_string());
        if p == "/a" {
            Err(denied())
        } else {
            Ok(())
        }
    };
    let outcomes = trash_all(&entries, "/Applications/Foo.app", &trash);
    assert_eq!(asked.into_inner(), vec!["/a", "/b", "/Applications/Foo.app"]);
    assert_eq!(outcomes.len(), 3);
    assert_eq!(outcomes[0].path, "/a");
    assert!(matches!(outcomes[0].failure, Some(FailureReason::PermissionDenied)));
    assert!(!outcomes[0].succeeded());
    assert_eq!(outcomes[1].path, "/b");
    assert!(outcomes[1].succeeded());
    assert_eq!(outcomes[2].path, "/Applications/Foo.app");
    assert!(outcomes[2].succeeded());
    assert_eq!(failure_count(&outcomes), 1);
}

#[test]
fn trash_all_denied_for_one_of_three() {
    let entries = vec![entry("/x/one"), entry("/x/two")];
    let trash = |p: &str| -> Result<(), FailureReason> {
        if p == "/x/two" {
            Err(FailureReason::from_platform_error("NSCocoaErrorDomain", 513))
        } else {
            Ok(())
        }
    };
    let outcomes = trash_all(&entries, "/Applications/Foo.app", &trash);
    assert_eq!(outcomes.len(), 3);
    let failed: Vec<&RemovalOutcome> = outcomes.iter().filter(|o| !o.succeeded()).collect();
    assert_eq!(failed.len(), 1);
    assert_eq!(failed[0].path, "/x/two");
    assert!(failed[0].failure.as_ref().unwrap().is_permission_denied());
    assert_eq!(failure_count(&outcomes), 1);
}

#[test]
fn trash_all_counts_every_failure() {
    let entries: Vec<(String, String)> = (0..7).map(|i| entry(&format!("/item{i}"))).collect();
    let trash = |p: &str| -> Result<(), FailureReason> {
        if p == "/item1" || p == "/item4" || p == "/app" {
            Err(FailureReason::Unknown)
        } else {
            Ok(())
        }
    };
    let outcomes = trash_all(&entries, "/app", &trash);
    assert_eq!(outcomes.len(), 8);
    assert_eq!(failure_count(&outcomes), 3);
    assert_eq!(outcomes.iter().filter(|o| o.succeeded()).count(), 5);
    for (i, outcome) in outcomes.iter().take(7).enumerate() {
        assert_eq!(outcome.path, format!("/item{i}"));
    }
}

#[test]
fn trash_all_treats_a_missing_path_as_failed() {
    let trash = |_: &str| -> Result<(), FailureReason> {
        Err(FailureReason::from_platform_error("NSCocoaErrorDomain", 4))
    };
    let outcomes = trash_all(&Vec::new(), "/gone.app", &trash);
    assert_eq!(outcomes.len(), 1);
    assert!(!outcomes[0].succeeded());
    assert!(!outcomes[0].failure.as_ref().unwrap().is_permission_denied());
}

#[test]
fn removal_paths_end_with_the_application() {
    let entries = vec![entry("/a"), entry("/b")];
    assert_eq!(removal_paths(&entries, "/Applications/Foo.app"), vec!["/a", "/b", "/Applications/Foo.app"]);
    assert_eq!(removal_paths(&Vec::new(), "/Applications/Foo.app"), vec!["/Applications/Foo.app"]);
}

#[test]
fn removal_paths_name_no_path_twice() {
    let entries = vec![entry("/a"), entry("/Applications/Foo.app"), entry("/a"), entry("/b")];
    assert_eq!(removal_paths(&entries, "/Applications/Foo.app"), vec!["/a", "/Applications/Foo.app", "/b"]);
}

#[test]
fn collect_outcomes_pairs_paths_and_answers() {
    let paths = vec!["/a".to_string(), "/b".to_string(), "/c".to_string()];
    let answers = vec![Ok(()), Err(denied()), Ok(())];
    let outcomes = collect_outcomes(paths, answers);
    assert_eq!(outcomes.len(), 3);
    assert!(outcomes[0].succeeded());
    assert_eq!(outcomes[1].path, "/b");
    assert!(outcomes[1].failure.as_ref().unwrap().is_permission_denied());
    assert!(outcomes[2].succeeded());
    assert_eq!(failure_count(&outcomes), 1);
}

#[test]
fn collect_outcomes_leaves_no_path_without_outcome() {
    let paths = vec!["/a".to_string(), "/b".to_string(), "/c".to_string()];
    let outcomes = collect_outcomes(paths, vec![Ok(())]);
    assert_eq!(outcomes.len(), 3);
    assert!(outcomes[0].succeeded());
    assert!(matches!(outcomes[1].failure, Some(FailureReason::Unknown)));
    assert!(matches!(outcomes[2].failure, Some(FailureReason::Unknown)));
    let outcomes = collect_outcomes(vec!["/a".to_string()], vec![Ok(()), Err(denied())]);
    assert_eq!(outcomes.len(), 1);
    assert!(outcomes[0].succeeded());
    assert!(collect_outcomes(Vec::new(), Vec::new()).is_empty());
}

#[test]
fn platform_errors_are_classified() {
    assert!(matches!(
        FailureReason::from_platform_error("NSCocoaErrorDomain", 513),
        FailureReason::PermissionDenied
    ));
    match FailureReason::from_platform_error("NSCocoaErrorDomain", 512) {
        FailureReason::Platform { domain, code } => {
            assert_eq!(domain, "NSCocoaErrorDomain");
            assert_eq!(code, 512);
        }
        other => panic!("{other:?}"),
    }
    match FailureReason::from_platform_error("NSPOSIXErrorDomain", 513) {
        FailureReason::Platform { domain, code } => {
            assert_eq!(domain, "NSPOSIXErrorDomain");
            assert_eq!(code, 513);
        }
        other => panic!("{other:?}"),
    }
}

#[test]
fn reasons_describe_themselves() {
    assert_eq!(
        FailureReason::PermissionDenied.describe(),
        "Permission not allowed by macOS privacy protection (TCC)"
    );
    assert_eq!(FailureReason::Unknown.describe(), "unknown reason");
    assert_eq!(
        FailureReason::from_platform_error("NSCocoaErrorDomain", 4).describe(),
        "Failed with NSCocoaErrorDomain (4)"
    );
    assert_eq!(
        FailureReason::from_platform_error("NSPOSIXErrorDomain", -13).describe(),
        "Failed with NSPOSIXErrorDomain (-13)"
    );
    assert_eq!(
        FailureReason::from_platform_error("", i64::MIN).describe(),
        format!("Failed with  ({})", i64::MIN)
    );
    assert_eq!(
        FailureReason::from_platform_error("d", i64::MAX).describe(),
        format!("Failed with d ({})", i64::MAX)
    );
    assert_eq!(FailureReason::from_platform_error("d", 0).describe(), "Failed with d (0)");
}

#[test]
fn outcome_records_the_answer() {
    let ok = RemovalOutcome::new("/a".to_string(), Ok(()));
    assert_eq!(ok.path, "/a");
    assert!(ok.failure.is_none());
    assert!(ok.succeeded());
    let failed = RemovalOutcome::new("/b".to_string(), Err(FailureReason::Unknown));
    assert_eq!(failed.path, "/b");
    assert!(matches!(failed.failure, Some(FailureReason::Unknown)));
    assert!(!failed.succeeded());
    let copy = failed.failure.clone().unwrap();
    assert!(matches!(copy, FailureReason::Unknown));
}

fn reference_number(message: &str) -> Option<i64> {
    let open = message.rfind('(')?;
    let close = message[open..].find(')')? + open;
    message[open + 1..close].trim().parse().ok()
}

#[test]
fn script_errors_are_classified() {
    assert!(matches!(
        FailureReason::from_script_error(
            "execution error: Finder got an error: A privilege violation occurred. (-10004)\n"
        ),
        FailureReason::PermissionDenied
    ));
    assert!(matches!(
        FailureReason::from_script_error("31:70: execution error: not allowed ( -5000 )"),
        FailureReason::PermissionDenied
    ));
    match FailureReason::from_script_error(
        "execution error: Finder got an error: Can\u{2019}t get POSIX file \"/x\". (-1728)\n",
    ) {
        FailureReason::Platform { domain, code } => {
            assert_eq!(domain, "NSOSStatusErrorDomain");
            assert_eq!(code, -1728);
        }
        other => panic!("{other:?}"),
    }
    match FailureReason::from_script_error("first (1) then (+42) and text") {
        FailureReason::Platform { domain, code } => {
            assert_eq!(domain, "NSOSStatusErrorDomain");
            assert_eq!(code, 42);
        }
        other => panic!("{other:?}"),
    }
    for message in [
        "", "no number", "(", ")", "()", "( )", "(x)", "(12", "12)", "(1)(", "(-)", "(+)",
        "(1 2)", "(--1)",
    ] {
        assert!(
            matches!(FailureReason::from_script_error(message), FailureReason::Unknown),
            "{message:?}"
        );
    }
}

#[test]
fn script_error_numbers_agree_with_the_platform_parser() {
    let samples = [
        "(0)",
        "(-0)",
        "(007)",
        "a (1) b (2) c",
        "a (1) b (2",
        "a )( 3 )",
        "((4))",
        "(5))",
        "(\u{a0}6\u{2003})",
        "(9223372036854775807)",
        "(9223372036854775808)",
        "(-9223372036854775808)",
        "(-9223372036854775809)",
        "(+9223372036854775807)",
        "(99999999999999999999999999999)",
        "(1_000)",
        "(0x10)",
        "( -10004 )\n",
    ];
    for message in samples {
        let got = match FailureReason::from_script_error(message) {
            FailureReason::Unknown => None,
            FailureReason::PermissionDenied => reference_number(message),
            FailureReason::Platform { code, .. } => Some(code),
        };
        assert_eq!(got, reference_number(message), "{message:?}");
    }
}
