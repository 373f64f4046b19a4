use cleaner::app_info::AppInfo;
use cleaner::matcher::IdentityMatcher;
use cleaner::scanner::{
    is_looked_at, merge, progress_due, scan, scan_root, visit, EntryKind, VisitedEntry,
    PROGRESS_INTERVAL,
};
use std::cell::RefCell;
use std::collections::BTreeSet;

fn identity() -> AppInfo {
    AppInfo {
        path: "/Applications/Foo.app".to_string(),
        name: "Foo".to_string(),
        bundle_id: "com.acme.foo".to_string(),
        bundle_name: "Foo".to_string(),
        organization: "acme".to_string(),
    }
}

fn file(path: &str) -> VisitedEntry {
    VisitedEntry { path: path.to_string(), kind: EntryKind::File }
}

fn dir(path: &str) -> VisitedEntry {
    VisitedEntry { path: path.to_string(), kind: EntryKind::Directory }
}

fn link(path: &str) -> VisitedEntry {
    VisitedEntry { path: path.to_string(), kind: EntryKind::Other }
}

fn quiet(_: usize, _: &str) {}

fn paths(found: &[(String, String)]) -> BTreeSet<String> {
    found.iter().map(|(p, _)| p.clone()).collect()
}

#[test]
fn scan_finds_matches_under_two_roots() {
    // root1 holds "Foo.log"; root2 holds a link that loops back and
    // "com.acme.foo.cache".
    let listings = vec![
        vec![dir("/tmp/root1"), file("/tmp/root1/Foo.log"), file("/tmp/root1/notes.txt")],
        vec![
            dir("/tmp/root2"),
            link("/tmp/root2/loop"),
            dir("/tmp/root2/com.acme.foo.cache"),
        ],
    ];
    let found = scan(&identity(), &listings, &quiet);
    assert_eq!(
        found,
        vec![
            ("/tmp/root1/Foo.log".to_string(), "Foo.log".to_string()),
            ("/tmp/root2/com.acme.foo.cache".to_string(), "com.acme.foo.cache".to_string()),
        ]
    );
}

#[test]
fn scan_never_matches_a_link() {
    let listings = vec![vec![link("/tmp/root2/Foo-link"), link("/tmp/root2/acme")]];
    assert!(scan(&identity(), &listings, &quiet).is_empty());
}

#[test]
fn scan_keeps_each_path_once_when_roots_overlap() {
    // Root A holds root B: what lies under B is met twice.
    let listings = vec![
        vec![
            dir("/a"),
            dir("/a/b"),
            file("/a/b/Foo.log"),
            file("/a/foo.txt"),
            dir("/a/b/acme"),
        ],
        vec![dir("/a/b"), file("/a/b/Foo.log"), dir("/a/b/acme")],
    ];
    let found = scan(&identity(), &listings, &quiet);
    assert_eq!(
        found,
        vec![
            ("/a/b/Foo.log".to_string(), "Foo.log".to_string()),
            ("/a/foo.txt".to_string(), "foo.txt".to_string()),
            ("/a/b/acme".to_string(), "acme".to_string()),
        ]
    );
    assert_eq!(paths(&found).len(), found.len());
}

#[test]
fn scan_twice_gives_the_same_set() {
    let first = vec![
        vec![file("/r1/Foo.log"), file("/r1/x")],
        vec![file("/r2/acme.db"), file("/r1/Foo.log")],
    ];
    // The same entries, met under the roots in another order.
    let second = vec![
        vec![file("/r1/Foo.log"), file("/r2/acme.db")],
        vec![file("/r1/x"), file("/r1/Foo.log")],
    ];
    let a = scan(&identity(), &first, &quiet);
    let b = scan(&identity(), &first, &quiet);
    let c = scan(&identity(), &second, &quiet);
    assert_eq!(a, b);
    assert_eq!(paths(&a), paths(&c));
    assert_eq!(paths(&a).len(), 2);
}

#[test]
fn scan_of_nothing_finds_nothing() {
    assert!(scan(&identity(), &Vec::new(), &quiet).is_empty());
    assert!(scan(&identity(), &vec![Vec::new(), Vec::new()], &quiet).is_empty());
    let blank = AppInfo::default();
    assert!(scan(&blank, &vec![vec![file("/r/Foo.log")]], &quiet).is_empty());
}

#[test]
fn scan_reports_progress_every_interval() {
    assert_eq!(PROGRESS_INTERVAL, 256);
    let mut listing = Vec::new();
    for i in 0..600 {
        listing.push(file(&format!("/r/file{i}")));
    }
    // Links are not looked at and do not count.
    listing.insert(10, link("/r/link"));
    let told: RefCell<Vec<(usize, String)>> = RefCell::new(Vec::new());
    let progress = |count: usize, path: &str| told.borrow_mut().push((count, path.to_string()));
    let found = scan(&identity(), &vec![listing, vec![file("/s/other")]], &progress);
    assert!(found.is_empty());
    assert_eq!(
        told.into_inner(),
        vec![(256, "/r/file255".to_string()), (512, "/r/file511".to_string())]
    );
}

#[test]
fn scan_counts_across_roots() {
    let mut first = Vec::new();
    for i in 0..200 {
        first.push(file(&format!("/r/file{i}")));
    }
    let mut second = Vec::new();
    for i in 0..100 {
        second.push(dir(&format!("/s/dir{i}")));
    }
    let told: RefCell<Vec<(usize, String)>> = RefCell::new(Vec::new());
    let progress = |count: usize, path: &str| told.borrow_mut().push((count, path.to_string()));
    scan(&identity(), &vec![first, second], &progress);
    assert_eq!(told.into_inner(), vec![(256, "/s/dir55".to_string())]);
}

#[test]
fn progress_due_on_multiples_of_the_interval() {
    assert!(!progress_due(1));
    assert!(!progress_due(255));
    assert!(progress_due(256));
    assert!(!progress_due(257));
    assert!(progress_due(512));
    assert!(progress_due(0));
}

#[test]
fn visit_labels_a_match_with_its_name() {
    let matcher = IdentityMatcher::new(&identity());
    assert_eq!(
        visit(&matcher, &file("/tmp/x/FOO Helper.plist")),
        Some(("/tmp/x/FOO Helper.plist".to_string(), "FOO Helper.plist".to_string()))
    );
    assert_eq!(
        visit(&matcher, &dir("/tmp/Acme/")),
        Some(("/tmp/Acme/".to_string(), "Acme".to_string()))
    );
    // The name decides, not the directories above it.
    assert_eq!(visit(&matcher, &file("/tmp/Foo/readme.txt")), None);
    assert_eq!(visit(&matcher, &link("/tmp/Foo")), None);
    assert_eq!(visit(&matcher, &dir("/")), None);
}

#[test]
fn is_looked_at_wants_a_name_and_a_kind() {
    assert!(is_looked_at(&file("/tmp/a")));
    assert!(is_looked_at(&dir("/tmp/a/")));
    assert!(!is_looked_at(&link("/tmp/a")));
    assert!(!is_looked_at(&dir("/")));
    assert!(!is_looked_at(&dir("/tmp/..")));
}

#[test]
fn scan_root_keeps_the_order_of_the_listing() {
    let matcher = IdentityMatcher::new(&identity());
    let listing = vec![file("/r/z-foo"), file("/r/skip"), file("/r/a-foo"), file("/r/z-foo")];
    assert_eq!(
        scan_root(&matcher, &listing),
        vec![
            ("/r/z-foo".to_string(), "z-foo".to_string()),
            ("/r/a-foo".to_string(), "a-foo".to_string()),
            ("/r/z-foo".to_string(), "z-foo".to_string()),
        ]
    );
}

#[test]
fn merge_lets_the_first_sighting_win() {
    let lists = vec![
        vec![("/p".to_string(), "first".to_string()), ("/q".to_string(), "q".to_string())],
        Vec::new(),
        vec![("/p".to_string(), "second".to_string()), ("/r".to_string(), "q".to_string())],
    ];
    assert_eq!(
        merge(&lists),
        vec![
            ("/p".to_string(), "first".to_string()),
            ("/q".to_string(), "q".to_string()),
            ("/r".to_string(), "q".to_string()),
        ]
    );
    assert!(merge(&Vec::new()).is_empty());
}

#[test]
fn merging_scanned_roots_agrees_with_scan() {
    let listings = vec![
        vec![file("/a/Foo.log"), file("/a/b/acme")],
        vec![file("/a/b/acme"), file("/c/none"), file("/c/com.acme.foo")],
    ];
    let matcher = IdentityMatcher::new(&identity());
    let per_root: Vec<Vec<(String, String)>> =
        listings.iter().map(|l| scan_root(&matcher, l)).collect();
    assert_eq!(merge(&per_root), scan(&identity(), &listings, &quiet));
}

#[test]
fn scan_finds_a_name_in_another_spelling() {
    let id = AppInfo {
        path: "/Applications/Cafe.app".to_string(),
        name: "cafe\u{301}".to_string(),
        bundle_id: "zzz.qqq.xxx".to_string(),
        bundle_name: "zzzbin".to_string(),
        organization: "qqq".to_string(),
    };
    let listings =
        vec![vec![file("/r/Caf\u{e9}.log"), file("/r/CAFE\u{301} notes"), file("/r/cafe.log")]];
    assert_eq!(
        scan(&id, &listings, &quiet),
        vec![
            ("/r/Caf\u{e9}.log".to_string(), "Caf\u{e9}.log".to_string()),
            ("/r/CAFE\u{301} notes".to_string(), "CAFE\u{301} notes".to_string()),
        ]
    );
}

#[test]
fn scan_tells_progress_at_no_other_count() {
    let mut listing = Vec::new();
    for i in 0..1000 {
        listing.push(file(&format!("/r/file{i}")));
    }
    let calls = RefCell::new(Vec::new());
    let progress = |count: usize, _: &str| {
        assert_eq!(count % PROGRESS_INTERVAL, 0);
        calls.borrow_mut().push(count);
    };
    scan(&identity(), &vec![listing], &progress);
    assert_eq!(calls.into_inner(), vec![256, 512, 768]);
}
