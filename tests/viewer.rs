use ls_pretty::viewer::FileViewer;

#[test]
fn closing_a_clean_document_closes_it() {
    let mut viewer = FileViewer::new();
    viewer.open("text");
    assert!(viewer.is_open());
    viewer.close_file();
    assert!(!viewer.is_open());
    assert!(!viewer.shows_unsaved_alert());
}

#[test]
fn closing_an_edited_document_raises_the_alert() {
    let mut viewer = FileViewer::new();
    viewer.open("text");
    viewer.toggle_edit_mode();
    assert!(viewer.is_editing());
    viewer.document_mut().unwrap().insert_char('x');
    viewer.close_file();
    assert!(viewer.is_open());
    assert!(viewer.shows_unsaved_alert());
    viewer.dismiss_alert();
    assert!(!viewer.shows_unsaved_alert());
    assert_eq!(viewer.document().unwrap().content(), "xtext");
    viewer.close_file();
    viewer.discard_changes();
    assert!(!viewer.is_open());
}

#[test]
fn saving_hands_out_the_text_then_commits() {
    let mut viewer = FileViewer::new();
    viewer.open("a");
    assert_eq!(viewer.text_to_save(), None);
    viewer.document_mut().unwrap().insert_char('b');
    assert_eq!(viewer.text_to_save(), Some("ba".to_string()));
    viewer.commit_save();
    assert!(!viewer.has_unsaved_changes());
    assert_eq!(viewer.text_to_save(), None);
    viewer.close_file();
    assert!(!viewer.is_open());
}
