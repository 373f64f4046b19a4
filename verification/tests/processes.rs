use cleaner::app_info::AppInfo;
use cleaner::app_process::{confirm_and_kill, confirmation_prompt, AppProcess};
use std::cell::{Cell, RefCell};

fn identity() -> AppInfo {
    AppInfo {
        path: "/Applications/NonExistent.app".to_string(),
        name: "NonExistent".to_string(),
        bundle_id: "com.example.test".to_string(),
        bundle_name: "NonExistent".to_string(),
        organization: "example".to_string(),
    }
}

fn process(pid: i32, command: &str) -> AppProcess {
    AppProcess { pid, command: command.to_string() }
}

fn pids(processes: &[AppProcess]) -> Vec<i32> {
    processes.iter().map(|p| p.pid).collect()
}

#[test]
fn find_app_processes_reads_the_whole_command_line() {
    let listing = vec![
        process(1, "/sbin/launchd"),
        process(40, "/Applications/NonExistent.app/Contents/MacOS/NonExistent"),
        process(41, "/usr/bin/helper --for com.EXAMPLE.test"),
        process(42, "/usr/bin/vim notes.txt"),
        process(43, "/usr/libexec/agent --owner=Example"),
    ];
    let found = AppProcess::find_app_processes(&identity(), &listing);
    assert_eq!(pids(&found), vec![40, 41, 43]);
    assert_eq!(found[1].command, "/usr/bin/helper --for com.EXAMPLE.test");
}

#[test]
fn find_app_processes_passes_over_ids_that_name_no_process() {
    let listing = vec![process(0, "NonExistent"), process(-1, "NonExistent"), process(7, "NonExistent")];
    assert_eq!(pids(&AppProcess::find_app_processes(&identity(), &listing)), vec![7]);
}

#[test]
fn find_app_processes_of_nothing() {
    assert!(AppProcess::find_app_processes(&identity(), &Vec::new()).is_empty());
    let listing = vec![process(5, "NonExistent")];
    assert!(AppProcess::find_app_processes(&AppInfo::default(), &listing).is_empty());
}

#[test]
fn find_asks_for_the_listing_once() {
    let asked = Cell::new(0);
    let list = || -> Result<Vec<AppProcess>, String> {
        asked.set(asked.get() + 1);
        Ok(vec![process(3, "/bin/sh"), process(4, "NonExistent --run"), process(0, "NonExistent")])
    };
    let (found, failure) = AppProcess::find(&identity(), list);
    assert_eq!(asked.get(), 1);
    assert_eq!(pids(&found), vec![4]);
    assert_eq!(failure, None);
}

#[test]
fn find_hands_a_failed_listing_on() {
    let list = || -> Result<Vec<AppProcess>, String> { Err("permission denied".to_string()) };
    let (found, failure) = AppProcess::find(&identity(), list);
    assert!(found.is_empty());
    assert_eq!(failure.as_deref(), Some("permission denied"));
}

#[test]
fn confirm_and_kill_without_processes_asks_nobody() {
    let confirm = |_: &str| -> bool { panic!("nobody is to be asked") };
    let terminate = |_: i32| -> Result<(), String> { panic!("nothing is to be signalled") };
    let report = confirm_and_kill("NonExistent", &Vec::new(), confirm, &terminate);
    assert!(!report.asked);
    assert!(!report.confirmed);
    assert!(report.terminations.is_empty());
    assert_eq!(report.terminated(), 0);
}

#[test]
fn confirm_and_kill_asks_once_and_signals_each() {
    let asked: RefCell<Vec<String>> = RefCell::new(Vec::new());
    let signalled: RefCell<Vec<i32>> = RefCell::new(Vec::new());
    let confirm = |prompt: &str| -> bool {
        asked.borrow_mut().push(prompt.to_string());
        true
    };
    let terminate = |pid: i32| -> Result<(), String> {
        signalled.borrow_mut().push(pid);
        if pid == 11 {
            Err("operation not permitted".to_string())
        } else {
            Ok(())
        }
    };
    let processes = vec![process(10, "a"), process(11, "b"), process(12, "c")];
    let report = confirm_and_kill("Foo", &processes, confirm, &terminate);
    assert!(report.asked);
    assert!(report.confirmed);
    assert_eq!(
        asked.into_inner(),
        vec!["The app 'Foo' is still running.\nDo you want to kill its running process?\nBe careful to save your work first!"]
    );
    assert_eq!(signalled.into_inner(), vec![10, 11, 12]);
    assert_eq!(report.terminations.len(), 3);
    assert_eq!(report.terminations[0].pid, 10);
    assert_eq!(report.terminations[0].failure, None);
    assert_eq!(report.terminations[1].pid, 11);
    assert_eq!(report.terminations[1].failure.as_deref(), Some("operation not permitted"));
    assert_eq!(report.terminations[2].failure, None);
    assert_eq!(report.terminated(), 2);
}

#[test]
fn confirm_and_kill_declined_signals_nothing() {
    let asked = Cell::new(0);
    let confirm = |_: &str| -> bool {
        asked.set(asked.get() + 1);
        false
    };
    let terminate = |_: i32| -> Result<(), String> { panic!("the user declined") };
    let processes = vec![process(10, "a"), process(11, "b")];
    let report = confirm_and_kill("Foo", &processes, confirm, &terminate);
    assert_eq!(asked.get(), 1);
    assert!(report.asked);
    assert!(!report.confirmed);
    assert!(report.terminations.is_empty());
    assert_eq!(report.terminated(), 0);
}

#[test]
fn kill_app_processes_never_signals_a_group() {
    let signalled: RefCell<Vec<i32>> = RefCell::new(Vec::new());
    let terminate = |pid: i32| -> Result<(), String> {
        signalled.borrow_mut().push(pid);
        Ok(())
    };
    let processes = vec![process(0, "a"), process(-1, "b"), process(9, "c"), process(i32::MIN, "d")];
    let terminations = AppProcess::kill_app_processes(&processes, &terminate);
    assert_eq!(signalled.into_inner(), vec![9]);
    assert_eq!(terminations.len(), 4);
    assert_eq!(terminations[0].pid, 0);
    assert_eq!(terminations[0].failure.as_deref(), Some("not a process id"));
    assert_eq!(terminations[1].failure.as_deref(), Some("not a process id"));
    assert_eq!(terminations[2].pid, 9);
    assert_eq!(terminations[2].failure, None);
    assert_eq!(terminations[3].failure.as_deref(), Some("not a process id"));
}

#[test]
fn test_kill_processes_safe() {
    let app_info = AppInfo {
        path: "/Applications/NonExistent.app".to_string(),
        name: "NonExistent.app".to_string(),
        bundle_id: "com.example.test".to_string(),
        bundle_name: "NonExistent".to_string(),
        organization: "example".to_string(),
    };
    let processes = AppProcess::find_app_processes(&app_info, &Vec::new());
    let terminate = |_: i32| -> Result<(), String> { Ok(()) };
    let terminations = AppProcess::kill_app_processes(&processes, &terminate);
    assert!(terminations.is_empty());
}

#[test]
fn confirmation_prompt_names_the_application() {
    assert_eq!(
        confirmation_prompt("Caf\u{e9}"),
        "The app 'Caf\u{e9}' is still running.\nDo you want to kill its running process?\nBe careful to save your work first!"
    );
    assert_eq!(
        confirmation_prompt(""),
        "The app '' is still running.\nDo you want to kill its running process?\nBe careful to save your work first!"
    );
}

#[test]
fn process_clone_copies() {
    let p = process(3, "cmd --flag");
    let q = p.clone();
    assert_eq!(q.pid, 3);
    assert_eq!(q.command, "cmd --flag");
}
