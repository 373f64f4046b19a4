use cleaner::app_info::AppInfo;
use cleaner::locations_scan::LocationsScan;
use cleaner::log_receipt::LogReceipt;

fn identity() -> AppInfo {
    AppInfo {
        path: "/Applications/Foo.app".to_string(),
        name: "Foo".to_string(),
        bundle_id: "com.acme.foo".to_string(),
        bundle_name: "FooBin".to_string(),
        organization: "acme".to_string(),
    }
}

fn listing(names: &[&str]) -> Option<Vec<String>> {
    Some(names.iter().map(|n| format!("/private/var/db/receipts/{n}")).collect())
}

#[test]
fn find_bom_files_keeps_matching_receipts() {
    let listings = vec![listing(&[
        "com.acme.foo.pkg.bom",
        "com.acme.foo.pkg.plist",
        "com.other.tool.bom",
        "COM.ACME.updater.bom",
        "foo.bom.bak",
        ".bom",
    ])];
    let found = LogReceipt::find_bom_files(&identity(), &listings);
    assert_eq!(
        found.bom_file,
        vec![
            "/private/var/db/receipts/com.acme.foo.pkg.bom",
            "/private/var/db/receipts/COM.ACME.updater.bom",
        ]
    );
}

#[test]
fn find_bom_files_passes_over_missing_directories() {
    let listings = vec![
        None,
        Some(vec!["/a/foo.bom".to_string()]),
        None,
        Some(vec!["/b/none.bom".to_string(), "/b/acme.bom".to_string()]),
    ];
    let found = LogReceipt::find_bom_files(&identity(), &listings);
    assert_eq!(found.bom_file, vec!["/a/foo.bom", "/b/acme.bom"]);
    assert!(LogReceipt::find_bom_files(&identity(), &vec![None]).bom_file.is_empty());
    assert!(LogReceipt::find_bom_files(&identity(), &Vec::new()).bom_file.is_empty());
}

#[test]
fn find_bom_files_goes_by_the_name_not_the_directory() {
    let listings = vec![Some(vec!["/foo/other.bom".to_string(), "/x/acme.bom/".to_string()])];
    let found = LogReceipt::find_bom_files(&identity(), &listings);
    assert_eq!(found.bom_file, vec!["/x/acme.bom/"]);
}

#[test]
fn log_file_name_swaps_the_extension() {
    assert_eq!(
        LogReceipt::log_file_name("/private/var/db/receipts/com.acme.foo.pkg.bom").as_deref(),
        Some("com.acme.foo.pkg.log")
    );
    assert_eq!(LogReceipt::log_file_name("plain").as_deref(), Some("plain.log"));
    assert_eq!(LogReceipt::log_file_name(".hidden").as_deref(), Some(".hidden.log"));
    assert_eq!(LogReceipt::log_file_name("/"), None);
    for p in ["/r/a.bom", "b", "/r/c.d.bom", "/r/.e"] {
        let std = std::path::Path::new(p)
            .file_name()
            .map(|n| std::path::Path::new(n).with_extension("log").to_string_lossy().into_owned());
        assert_eq!(LogReceipt::log_file_name(p), std, "{p}");
    }
}

#[test]
fn receipts_default_and_clone() {
    assert!(LogReceipt::default().bom_file.is_empty());
    let r = LogReceipt { bom_file: vec!["/a.bom".to_string(), "/b.bom".to_string()] };
    assert_eq!(r.clone().bom_file, r.bom_file);
}

#[test]
fn locations_hold_each_root_once() {
    assert!(LocationsScan::new().paths.is_empty());
    assert_eq!(LocationsScan::new().len(), 0);
    let roots = vec![
        "/Library".to_string(),
        "/Users/x/Library".to_string(),
        "/Library".to_string(),
        "/private/var".to_string(),
        "/Users/x/Library".to_string(),
    ];
    let locations = LocationsScan::from_roots(&roots);
    assert_eq!(locations.paths, vec!["/Library", "/Users/x/Library", "/private/var"]);
    assert_eq!(locations.len(), 3);
}
