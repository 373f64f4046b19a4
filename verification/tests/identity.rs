use cleaner::app_info::{organization, AppInfo, IdentityError};

const PLIST: &str = r#"<?xml version="1.0" encoding="UTF-8"?>
<!DOCTYPE plist PUBLIC "-//Apple//DTD PLIST 1.0//EN" "http://www.apple.com/DTDs/PropertyList-1.0.dtd">
<plist version="1.0">
<dict>
    <key>CFBundleIdentifier</key>
    <string>com.example.test</string>
    <key>CFBundleExecutable</key>
    <string>TestBinary</string>
    <key>LSMinimumSystemVersion</key>
    <integer>11</integer>
</dict>
</plist>
"#;

const PLIST_WITHOUT_EXECUTABLE: &str = r#"<?xml version="1.0" encoding="UTF-8"?>
<plist version="1.0">
<dict>
    <key>CFBundleIdentifier</key>
    <string>com.example.test</string>
</dict>
</plist>
"#;

const PLIST_WITHOUT_IDENTIFIER: &str = r#"<?xml version="1.0" encoding="UTF-8"?>
<plist version="1.0">
<dict>
    <key>CFBundleExecutable</key>
    <string>TestBinary</string>
    <key>CFBundleIdentifier</key>
    <integer>7</integer>
</dict>
</plist>
"#;

#[test]
fn from_plist_reads_the_two_entries() {
    let info = AppInfo::from_plist("/tmp/TestApp.app", PLIST.as_bytes()).unwrap();
    assert_eq!(info.path, "/tmp/TestApp.app");
    assert_eq!(info.name, "TestApp");
    assert_eq!(info.bundle_id, "com.example.test");
    assert_eq!(info.bundle_name, "TestBinary");
    assert_eq!(info.organization, "example");
}

#[test]
fn from_plist_rejects_what_is_no_property_list() {
    let r = AppInfo::from_plist("/tmp/TestApp.app", b"this is not a property list");
    assert_eq!(r.unwrap_err(), IdentityError::MetadataUnreadable);
    let r = AppInfo::from_plist("/tmp/TestApp.app", b"");
    assert_eq!(r.unwrap_err(), IdentityError::MetadataUnreadable);
}

#[test]
fn from_plist_wants_both_entries_as_strings() {
    let r = AppInfo::from_plist("/tmp/TestApp.app", PLIST_WITHOUT_EXECUTABLE.as_bytes());
    assert_eq!(r.unwrap_err(), IdentityError::MissingExecutable);
    let r = AppInfo::from_plist("/tmp/TestApp.app", PLIST_WITHOUT_IDENTIFIER.as_bytes());
    assert_eq!(r.unwrap_err(), IdentityError::MissingBundleIdentifier);
}

#[test]
fn from_plist_of_a_list_has_no_entries() {
    let plist = r#"<?xml version="1.0" encoding="UTF-8"?>
<plist version="1.0"><array><string>CFBundleIdentifier</string></array></plist>"#;
    let r = AppInfo::from_plist("/tmp/TestApp.app", plist.as_bytes());
    assert_eq!(r.unwrap_err(), IdentityError::MissingBundleIdentifier);
}

#[test]
fn from_metadata_derives_name_and_organization() {
    let info = AppInfo::from_metadata(
        "/Applications/Foo Bar.app/",
        Some("com.acme.foo".to_string()),
        Some("foo".to_string()),
    )
    .unwrap();
    assert_eq!(info.path, "/Applications/Foo Bar.app/");
    assert_eq!(info.name, "Foo Bar");
    assert_eq!(info.bundle_id, "com.acme.foo");
    assert_eq!(info.bundle_name, "foo");
    assert_eq!(info.organization, "acme");
}

#[test]
fn from_metadata_reports_each_failure() {
    let id = || Some("com.acme.foo".to_string());
    let exe = || Some("foo".to_string());
    assert_eq!(
        AppInfo::from_metadata("/Applications/Foo.app", None, exe()).unwrap_err(),
        IdentityError::MissingBundleIdentifier
    );
    assert_eq!(
        AppInfo::from_metadata("/Applications/Foo.app", id(), None).unwrap_err(),
        IdentityError::MissingExecutable
    );
    assert_eq!(
        AppInfo::from_metadata("/", id(), exe()).unwrap_err(),
        IdentityError::MissingName
    );
    assert_eq!(
        AppInfo::from_metadata("/Applications/..", id(), exe()).unwrap_err(),
        IdentityError::MissingName
    );
    // The missing identifier is reported before the missing name.
    assert_eq!(
        AppInfo::from_metadata("/", None, None).unwrap_err(),
        IdentityError::MissingBundleIdentifier
    );
    // The missing name is reported before the missing executable.
    assert_eq!(
        AppInfo::from_metadata("/", id(), None).unwrap_err(),
        IdentityError::MissingName
    );
}

#[test]
fn from_metadata_refuses_empty_fields() {
    let r = AppInfo::from_metadata(
        "/Applications/Foo.app",
        Some("foo".to_string()),
        Some("foo".to_string()),
    );
    assert_eq!(r.unwrap_err(), IdentityError::EmptyField);
    let r = AppInfo::from_metadata(
        "/Applications/Foo.app",
        Some("com..foo".to_string()),
        Some("foo".to_string()),
    );
    assert_eq!(r.unwrap_err(), IdentityError::EmptyField);
    let r = AppInfo::from_metadata(
        "/Applications/Foo.app",
        Some("com.acme.foo".to_string()),
        Some(String::new()),
    );
    assert_eq!(r.unwrap_err(), IdentityError::EmptyField);
    let r = AppInfo::from_metadata(
        "/Applications/Foo.app",
        Some(String::new()),
        Some("foo".to_string()),
    );
    assert_eq!(r.unwrap_err(), IdentityError::EmptyField);
}

#[test]
fn organization_is_the_second_segment() {
    assert_eq!(organization("com.acme.foo"), "acme");
    assert_eq!(organization("com.acme"), "acme");
    assert_eq!(organization("com"), "");
    assert_eq!(organization(""), "");
    assert_eq!(organization("com."), "");
    assert_eq!(organization(".acme"), "acme");
    assert_eq!(organization("com..foo"), "");
    for id in ["com.acme.foo", "a.b", "a", "", "..", "x.y.z.w"] {
        assert_eq!(organization(id), id.split('.').nth(1).unwrap_or(""), "{id}");
    }
}

#[test]
fn default_identity_is_empty_and_clone_copies() {
    let blank = AppInfo::default();
    assert_eq!(blank.path, "");
    assert_eq!(blank.name, "");
    assert_eq!(blank.bundle_id, "");
    assert_eq!(blank.bundle_name, "");
    assert_eq!(blank.organization, "");
    let info = AppInfo::from_plist("/tmp/TestApp.app", PLIST.as_bytes()).unwrap();
    let copy = info.clone();
    assert_eq!(copy.path, info.path);
    assert_eq!(copy.name, info.name);
    assert_eq!(copy.bundle_id, info.bundle_id);
    assert_eq!(copy.bundle_name, info.bundle_name);
    assert_eq!(copy.organization, info.organization);
}
