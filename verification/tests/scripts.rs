use cleaner::script::{confirm_script, is_yes, kill_script, quote, trash_script};
use cleaner::text::blank;
use cleaner::{AppData, AppInfo, AppProcess, Cleaner};

#[test]
fn quote_wraps_plain_text() {
    assert_eq!(quote(""), "\"\"");
    assert_eq!(quote("/tmp/Foo.log"), "\"/tmp/Foo.log\"");
    assert_eq!(quote("caf\u{e9} notes"), "\"caf\u{e9} notes\"");
}

#[test]
fn quote_escapes_quotes_and_backslashes() {
    assert_eq!(quote("a\"b"), "\"a\\\"b\"");
    assert_eq!(quote("a\\b"), "\"a\\\\b\"");
    assert_eq!(quote("\\\""), "\"\\\\\\\"\"");
    assert_eq!(quote("\""), "\"\\\"\"");
    // A name that tries to leave its literal stays inside it.
    assert_eq!(
        quote("x\" & (do shell script \"id\") & \""),
        "\"x\\\" & (do shell script \\\"id\\\") & \\\"\""
    );
}

#[test]
fn trash_script_lists_every_path() {
    assert_eq!(trash_script(&Vec::new()), None);
    assert_eq!(
        trash_script(&vec!["/tmp/a".to_string()]).as_deref(),
        Some("tell application \"Finder\" to move {POSIX file \"/tmp/a\"} to trash")
    );
    assert_eq!(
        trash_script(&vec!["/tmp/a".to_string(), "/tmp/b c".to_string(), "/q\"".to_string()])
            .as_deref(),
        Some(
            "tell application \"Finder\" to move {POSIX file \"/tmp/a\", POSIX file \"/tmp/b c\", POSIX file \"/q\\\"\"} to trash"
        )
    );
}

#[test]
fn confirm_script_asks_with_no_as_default() {
    assert_eq!(
        confirm_script("Quit 'Foo'?"),
        "display dialog \"Quit 'Foo'?\" buttons {\"No\", \"Yes\"} default button \"No\"\nif button returned of result is \"Yes\" then\n    return \"YES\"\nelse\n    return \"NO\"\nend if\n"
    );
    assert!(confirm_script("say \"hi\"").starts_with("display dialog \"say \\\"hi\\\"\" buttons"));
}

#[test]
fn is_yes_reads_the_answer() {
    assert!(is_yes("YES"));
    assert!(is_yes("YES\n"));
    assert!(is_yes("  YES \r\n"));
    assert!(is_yes("\tYES\t"));
    assert!(!is_yes("NO\n"));
    assert!(!is_yes("yes"));
    assert!(!is_yes("YES!"));
    assert!(!is_yes("Y ES"));
    assert!(!is_yes(""));
    assert!(!is_yes("   \n"));
    assert!(!is_yes("YES YES"));
}

#[test]
fn is_yes_passes_over_every_kind_of_white_space() {
    assert!(is_yes("\u{a0}YES\u{2003}"));
    assert!(is_yes("\u{3000}\u{85}YES\u{2028}\u{b}\u{c}"));
    assert!(!is_yes("\u{200b}YES"));
    for answer in
        ["YES", " YES", "YES\u{1680}", "\u{feff}YES", "Y\u{a0}ES", "\u{205f}YES\u{202f}"]
    {
        assert_eq!(is_yes(answer), answer.trim() == "YES", "{answer:?}");
    }
}

#[test]
fn blank_is_unicode_white_space() {
    for n in 0..=0x10ffffu32 {
        if let Some(c) = char::from_u32(n) {
            assert_eq!(blank(c), c.is_whitespace(), "{n:#x}");
        }
    }
}

#[test]
fn kill_script_names_only_processes() {
    assert_eq!(kill_script(&Vec::new()), None);
    assert_eq!(kill_script(&vec![0, -1, i32::MIN]), None);
    assert_eq!(
        kill_script(&vec![42]).as_deref(),
        Some("do shell script \"kill 42 2>/dev/null\" with administrator privileges")
    );
    assert_eq!(
        kill_script(&vec![-1, 10, 0, 11, i32::MAX]).as_deref(),
        Some("do shell script \"kill 10 11 2147483647 2>/dev/null\" with administrator privileges")
    );
}

#[test]
fn listing_line_gives_id_and_command() {
    let p = AppProcess::from_listing_line("  123 /sbin/launchd --flag  value \n").unwrap();
    assert_eq!(p.pid, 123);
    assert_eq!(p.command, "/sbin/launchd --flag  value");
    let p = AppProcess::from_listing_line("7\t/Applications/Foo Bar.app/Contents/MacOS/Foo").unwrap();
    assert_eq!(p.pid, 7);
    assert_eq!(p.command, "/Applications/Foo Bar.app/Contents/MacOS/Foo");
    let p = AppProcess::from_listing_line("2147483647 x").unwrap();
    assert_eq!(p.pid, i32::MAX);
    let p = AppProcess::from_listing_line("15").unwrap();
    assert_eq!(p.pid, 15);
    assert_eq!(p.command, "");
    let p = AppProcess::from_listing_line("0015   caf\u{e9}").unwrap();
    assert_eq!(p.pid, 15);
    assert_eq!(p.command, "caf\u{e9}");
}

#[test]
fn listing_line_without_an_id_names_no_process() {
    for line in [
        "",
        "   ",
        "PID COMMAND",
        "0 kernel",
        "-5 x",
        "+5 x",
        "12a x",
        "2147483648 x",
        "99999999999999999999999999 x",
        "1.5 x",
        "/sbin/launchd 1",
    ] {
        assert!(AppProcess::from_listing_line(line).is_none(), "{line:?}");
    }
}

#[test]
fn summary_lists_what_was_found() {
    let app = AppInfo {
        path: "/Applications/Foo.app".to_string(),
        name: "Foo".to_string(),
        bundle_id: "com.acme.foo".to_string(),
        bundle_name: "FooBin".to_string(),
        organization: "acme".to_string(),
    };
    let mut data = AppData::new(app);
    data.app_process = vec![
        AppProcess { pid: 20, command: "Foo --run".to_string() },
        AppProcess { pid: 21, command: "acme-agent".to_string() },
    ];
    data.log.bom_file = vec!["/r/com.acme.foo.bom".to_string()];
    data.associate_files = vec![
        ("/h/Foo.log".to_string(), "Foo.log".to_string()),
        ("/h/acme".to_string(), "acme".to_string()),
    ];
    let cleaner = Cleaner { app_data: data };
    assert_eq!(
        cleaner.summary(),
        "App Name: Foo\nBundle ID: com.acme.foo\nBundle Name: FooBin\n\
         \nRunning processes:\nPID 20: Foo --run\nPID 21: acme-agent\n\
         \nLog BOM files:\n/r/com.acme.foo.bom\n\
         \nAssociated files:\nFoo.log -> /h/Foo.log\nacme -> /h/acme\nFoo -> /Applications/Foo.app\n"
    );
    assert_eq!(
        Cleaner::new().summary(),
        "App Name: \nBundle ID: \nBundle Name: \n\nRunning processes:\n\nLog BOM files:\n\nAssociated files:\n -> \n"
    );
}
