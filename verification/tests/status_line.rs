use cleaner::app_status::{Status, StatusMessage};
use cleaner::common_debug::init_dev_logger;
use cleaner::status_event::StatusEvent;
use cleaner::text::{decimal_string, same_text};

fn percent(part: usize, whole: usize) -> String {
    format!("{:.1}", (part as f32 / whole as f32) * 100.0)
}

fn never(_: usize, _: usize) -> String {
    panic!("no percentage is shown")
}

#[test]
fn status_shows_the_rendered_event() {
    let mut status = Status::new(false);
    assert!(status.message.is_none());
    assert!(status.event.is_none());
    let event = StatusEvent::new().with_stage("Searching").with_current(512);
    status.update(StatusMessage::Event(event), &never);
    assert_eq!(status.message.as_deref(), Some("Searching 512"));
    assert_eq!(status.event.as_ref().unwrap().render(), "Searching 512");
    let event = StatusEvent::new().with_current(1).with_total(4);
    status.update(StatusMessage::Event(event), &never);
    assert_eq!(status.message.as_deref(), Some("1 4"));
}

#[test]
fn status_appends_the_percentage() {
    let mut status = Status::new(true);
    let event = StatusEvent::new().with_stage("Trashing").with_current(1).with_total(8);
    status.update(StatusMessage::Event(event), &percent);
    assert_eq!(status.message.as_deref(), Some("Trashing 1 8 (12.5%)"));
    // More than the total counts as the total.
    let event = StatusEvent::new().with_current(9).with_total(3);
    status.update(StatusMessage::Event(event), &percent);
    assert_eq!(status.message.as_deref(), Some("9 3 (100.0%)"));
}

#[test]
fn status_shows_no_percentage_without_both_counts() {
    let mut status = Status::new(true);
    status.update(StatusMessage::Event(StatusEvent::new().with_current(3)), &never);
    assert_eq!(status.message.as_deref(), Some("3"));
    status.update(StatusMessage::Event(StatusEvent::new().with_total(3)), &never);
    assert_eq!(status.message.as_deref(), Some("3"));
    status.update(
        StatusMessage::Event(StatusEvent::new().with_current(0).with_total(0)),
        &never,
    );
    assert_eq!(status.message.as_deref(), Some("0 0"));
}

#[test]
fn status_hands_the_capped_part_to_the_writer() {
    let mut status = Status::new(true);
    let seen = std::cell::Cell::new((0usize, 0usize));
    let writer = |part: usize, whole: usize| -> String {
        seen.set((part, whole));
        "x".to_string()
    };
    status.update(
        StatusMessage::Event(StatusEvent::new().with_total(10).with_current(25)),
        &writer,
    );
    assert_eq!(seen.get(), (10, 10));
    assert_eq!(status.message.as_deref(), Some("10 25 (x%)"));
}

#[test]
fn status_reset_clears_event_and_text() {
    let mut status = Status::new(true);
    status.update(StatusMessage::Event(StatusEvent::new().with_message("m")), &never);
    status.reset();
    assert!(status.message.is_none());
    assert!(status.event.is_none());
    assert!(status.show_percentage);
    status.update_status_message(&never);
    assert!(status.message.is_none());
}

#[test]
fn update_status_message_rewrites_the_text() {
    let mut status = Status::new(false);
    status.event = Some(StatusEvent::new().with_current(1).with_total(2));
    status.message = Some("stale".to_string());
    status.update_status_message(&never);
    assert_eq!(status.message.as_deref(), Some("1 2"));
    status.show_percentage = true;
    status.update_status_message(&percent);
    assert_eq!(status.message.as_deref(), Some("1 2 (50.0%)"));
}

#[test]
fn decimal_string_writes_numerals() {
    for n in [0usize, 1, 9, 10, 11, 99, 100, 101, 256, 1000, 65535, usize::MAX] {
        assert_eq!(decimal_string(n), n.to_string());
    }
}

#[test]
fn same_text_compares_characters() {
    assert!(same_text("", ""));
    assert!(same_text("NSCocoaErrorDomain", "NSCocoaErrorDomain"));
    assert!(!same_text("NSCocoaErrorDomain", "nscocoaerrordomain"));
    assert!(!same_text("caf\u{e9}", "cafe\u{301}"));
}

#[test]
fn init_dev_logger_returns() {
    init_dev_logger();
    init_dev_logger();
}
