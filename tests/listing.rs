use ls_pretty::listing::{format_permissions, is_hidden_name, listing_order, parent_entry, FileItem, Listing};

fn file(name: &str, ext: Option<&str>) -> FileItem {
    FileItem::new(
        name.to_string(),
        false,
        10,
        Some(0),
        "-rw-r--r--".to_string(),
        ext.map(|e| e.to_string()),
    )
}

fn dir(name: &str) -> FileItem {
    FileItem::new(name.to_string(), true, 0, Some(0), "drwxr-xr-x".to_string(), None)
}

#[test]
fn icons_follow_the_extension() {
    assert_eq!(file("main.rs", Some("rs")).get_icon(), "🦀");
    assert_eq!(file("MAIN.RS", Some("RS")).get_icon(), "🦀");
    assert_eq!(file("a.ts", Some("ts")).get_icon(), "📜");
    assert_eq!(file("a.jpeg", Some("jpeg")).get_icon(), "🖼️");
    assert_eq!(file("a.mkv", Some("mkv")).get_icon(), "🎬");
    assert_eq!(file("a.zip", Some("zip")).get_icon(), "📄");
    assert_eq!(file("Makefile", None).get_icon(), "📄");
    assert_eq!(dir("src").get_icon(), "📁");
}

#[test]
fn text_files_by_extension_or_name() {
    assert!(file("notes.TXT", Some("TXT")).is_text_file());
    assert!(file("x.yaml", Some("yaml")).is_text_file());
    assert!(!file("x.png", Some("png")).is_text_file());
    assert!(file("README", None).is_text_file());
    assert!(file("Dockerfile", None).is_text_file());
    assert!(!file("binary", None).is_text_file());
    assert!(!dir("docs.md").is_text_file());
}

#[test]
fn permissions_column() {
    assert_eq!(format_permissions(true, 0o755), "drwxr-xr-x");
    assert_eq!(format_permissions(false, 0o640), "-rw-r-----");
    assert_eq!(format_permissions(false, 0), "----------");
}

#[test]
fn dates_are_utc_minutes() {
    let mut item = file("a.txt", Some("txt"));
    item.modified_secs = Some(86_400 + 3_600 + 120);
    assert_eq!(item.format_date(), "1970-01-02 01:02");
    item.modified_secs = None;
    assert_eq!(item.format_date(), "Unknown");
}

#[test]
fn hidden_names_start_with_a_dot() {
    assert!(is_hidden_name(".git"));
    assert!(!is_hidden_name("git"));
    assert!(!is_hidden_name(""));
    assert!(FileItem::new(".env".to_string(), false, 0, None, String::new(), None).is_hidden);
}

#[test]
fn listing_puts_directories_first_then_names() {
    let items = vec![
        file("b.txt", Some("txt")),
        dir("zeta"),
        file(".hidden", None),
        file("A.txt", Some("txt")),
        dir("Alpha"),
    ];
    assert_eq!(listing_order(&items, false), vec![4, 1, 3, 0]);
    assert_eq!(listing_order(&items, true), vec![4, 1, 2, 3, 0]);
    assert!(listing_order(&Vec::new(), true).is_empty());
}

#[test]
fn listing_keeps_ties_in_order() {
    let items = vec![file("readme", None), file("README", None), file("Readme", None)];
    assert_eq!(listing_order(&items, true), vec![0, 1, 2]);
}

#[test]
fn selection_stays_within_the_listing() {
    let mut listing = Listing::new(vec![parent_entry(), dir("a"), file("b", None)]);
    assert_eq!(listing.selected().unwrap().name, "..");
    listing.navigate_up();
    assert_eq!(listing.selected_index(), 0);
    listing.navigate_down();
    listing.navigate_down();
    listing.navigate_down();
    assert_eq!(listing.selected_index(), 2);
    listing.navigate_up();
    assert_eq!(listing.selected().unwrap().name, "a");
    let mut empty = Listing::new(Vec::new());
    empty.navigate_down();
    assert!(empty.selected().is_none());
}
