use ls_pretty::tabs::{Tab, TabError, TabManager};

fn open(manager: &mut TabManager, name: &str, content: &str) -> usize {
    manager.add_tab(name.to_string(), name.to_string(), content.to_string())
}

#[test]
fn test_tab_creation() {
    let tab = Tab::new(
        1,
        "test.rs".to_string(),
        "test.rs".to_string(),
        "content".to_string(),
    );
    assert_eq!(tab.id, 1);
    assert_eq!(tab.name, "test.rs");
    assert!(!tab.is_dirty());
}

#[test]
fn test_tab_manager_add_tab() {
    let mut manager = TabManager::new();
    let index = manager.add_tab(
        "test.rs".to_string(),
        "test.rs".to_string(),
        "content".to_string(),
    );
    assert_eq!(index, 0);
    assert_eq!(manager.tab_count(), 1);
    assert_eq!(manager.get_active_tab_index(), 0);
}

#[test]
fn test_tab_manager_close_tab() {
    let mut manager = TabManager::new();
    manager.add_tab(
        "test1.rs".to_string(),
        "test1.rs".to_string(),
        "content1".to_string(),
    );
    manager.add_tab(
        "test2.rs".to_string(),
        "test2.rs".to_string(),
        "content2".to_string(),
    );

    assert!(manager.close_tab(0).is_ok());
    assert_eq!(manager.tab_count(), 1);
    assert_eq!(manager.get_active_tab_index(), 0);
}

#[test]
fn test_tab_manager_navigation() {
    let mut manager = TabManager::new();
    manager.add_tab(
        "test1.rs".to_string(),
        "test1.rs".to_string(),
        "content1".to_string(),
    );
    manager.add_tab(
        "test2.rs".to_string(),
        "test2.rs".to_string(),
        "content2".to_string(),
    );
    manager.add_tab(
        "test3.rs".to_string(),
        "test3.rs".to_string(),
        "content3".to_string(),
    );

    assert_eq!(manager.get_active_tab_index(), 2);

    manager.next_tab();
    assert_eq!(manager.get_active_tab_index(), 0);

    manager.previous_tab();
    assert_eq!(manager.get_active_tab_index(), 2);
}

#[test]
fn three_tabs_cycle_round() {
    let mut manager = TabManager::new();
    open(&mut manager, "a.txt", "A");
    open(&mut manager, "b.txt", "B");
    open(&mut manager, "c.txt", "C");
    assert_eq!(manager.get_active_tab_index(), 2);
    manager.next_tab();
    assert_eq!(manager.get_active_tab_index(), 0);
    manager.previous_tab();
    assert_eq!(manager.get_active_tab_index(), 2);
}

#[test]
fn reopening_a_file_focuses_its_tab() {
    let mut manager = TabManager::new();
    let first = open(&mut manager, "a.txt", "A");
    open(&mut manager, "b.txt", "B");
    assert_eq!(manager.get_active_tab_index(), 1);
    let again = open(&mut manager, "a.txt", "other text");
    assert_eq!(first, again);
    assert_eq!(manager.tab_count(), 2);
    assert_eq!(manager.get_active_tab_index(), 0);
    assert_eq!(manager.get_tab(0).unwrap().buffer.content(), "A");
    assert_eq!(manager.find_tab_by_path(&"b.txt".to_string()), Some(1));
    assert_eq!(manager.find_tab_by_path(&"c.txt".to_string()), None);
}

#[test]
fn identifiers_increase_and_survive_closing() {
    let mut manager = TabManager::new();
    open(&mut manager, "a.txt", "A");
    open(&mut manager, "b.txt", "B");
    assert!(manager.close_tab(0).is_ok());
    open(&mut manager, "c.txt", "C");
    assert_eq!(manager.get_tab(0).unwrap().id, 2);
    assert_eq!(manager.get_tab(1).unwrap().id, 3);
}

#[test]
fn closing_a_clean_tab_removes_it_at_once() {
    let mut manager = TabManager::new();
    open(&mut manager, "a.txt", "A");
    open(&mut manager, "b.txt", "B");
    assert_eq!(manager.close_tab(1), Ok(()));
    assert_eq!(manager.tab_count(), 1);
    assert!(manager.pending_close().is_none());
}

#[test]
fn closing_a_dirty_tab_waits_for_confirmation() {
    let mut manager = TabManager::new();
    open(&mut manager, "a.txt", "A");
    open(&mut manager, "b.txt", "B");
    manager.get_tab_mut(0).unwrap().insert_char('x');
    assert_eq!(manager.close_tab(0), Err(TabError::UnsavedChanges));
    assert_eq!(manager.tab_count(), 2);
    assert_eq!(manager.pending_close(), Some(0));
    manager.cancel_close_tab();
    assert_eq!(manager.tab_count(), 2);
    assert!(manager.pending_close().is_none());
}

#[test]
fn confirming_a_close_removes_only_that_tab() {
    let mut manager = TabManager::new();
    open(&mut manager, "a.txt", "A");
    open(&mut manager, "b.txt", "B");
    open(&mut manager, "c.txt", "C");
    manager.get_tab_mut(1).unwrap().insert_char('x');
    assert_eq!(manager.close_tab(1), Err(TabError::UnsavedChanges));
    manager.confirm_close_tab();
    assert_eq!(manager.tab_count(), 2);
    let first = manager.get_tab(0).unwrap();
    let second = manager.get_tab(1).unwrap();
    assert_eq!((first.id, first.buffer.content()), (1, "A".to_string()));
    assert_eq!((second.id, second.buffer.content()), (3, "C".to_string()));
    assert!(manager.pending_close().is_none());
}

#[test]
fn force_close_ignores_unsaved_changes() {
    let mut manager = TabManager::new();
    open(&mut manager, "a.txt", "A");
    manager.get_active_tab_mut().unwrap().insert_char('x');
    assert_eq!(manager.force_close_tab(0), Ok(()));
    assert!(!manager.has_tabs());
    assert_eq!(manager.get_active_tab_index(), 0);
}

#[test]
fn out_of_range_and_empty_errors() {
    let mut manager = TabManager::new();
    assert_eq!(manager.close_active_tab(), Err(TabError::NoActiveTab));
    assert_eq!(manager.save_active_tab(), Err(TabError::NoActiveTab));
    open(&mut manager, "a.txt", "A");
    assert_eq!(manager.close_tab(3), Err(TabError::OutOfRange));
    assert_eq!(manager.force_close_tab(1), Err(TabError::OutOfRange));
    assert_eq!(manager.switch_to_tab(1), Err(TabError::OutOfRange));
    assert_eq!(TabError::OutOfRange.message(), "Tab index out of bounds");
    assert_eq!(TabError::NoActiveTab.message(), "No active tab");
    assert_eq!(TabError::UnsavedChanges.message(), "Tab has unsaved changes");
}

#[test]
fn removing_before_the_active_tab_keeps_it_focused() {
    let mut manager = TabManager::new();
    open(&mut manager, "a.txt", "A");
    open(&mut manager, "b.txt", "B");
    open(&mut manager, "c.txt", "C");
    assert_eq!(manager.switch_to_tab(1), Ok(()));
    assert!(manager.close_tab(0).is_ok());
    assert_eq!(manager.get_active_tab_index(), 0);
    assert_eq!(manager.get_active_tab().unwrap().name, "b.txt");
}

#[test]
fn removing_the_last_active_tab_clamps() {
    let mut manager = TabManager::new();
    open(&mut manager, "a.txt", "A");
    open(&mut manager, "b.txt", "B");
    assert!(manager.close_tab(1).is_ok());
    assert_eq!(manager.get_active_tab_index(), 0);
    assert!(manager.close_active_tab().is_ok());
    assert_eq!(manager.tab_count(), 0);
    assert!(manager.get_active_tab().is_none());
}

#[test]
fn navigation_on_no_tabs_does_nothing() {
    let mut manager = TabManager::new();
    manager.next_tab();
    manager.previous_tab();
    assert_eq!(manager.get_active_tab_index(), 0);
    assert!(manager.get_tab(0).is_none());
}

#[test]
fn saving_commits_and_returns_the_text() {
    let mut manager = TabManager::new();
    open(&mut manager, "a.txt", "A");
    manager.get_active_tab_mut().unwrap().insert_char('x');
    assert!(manager.has_unsaved_changes());
    assert_eq!(manager.save_active_tab(), Ok("xA".to_string()));
    assert!(!manager.has_unsaved_changes());
    assert_eq!(manager.get_tab(0).unwrap().buffer.original(), "xA");
}

#[test]
fn saving_all_returns_each_dirty_file() {
    let mut manager = TabManager::new();
    open(&mut manager, "a.txt", "A");
    open(&mut manager, "b.txt", "B");
    open(&mut manager, "c.txt", "C");
    manager.get_tab_mut(0).unwrap().insert_char('1');
    manager.get_tab_mut(2).unwrap().insert_char('3');
    let unsaved: Vec<String> = manager.get_unsaved_tabs().iter().map(|t| t.name.clone()).collect();
    assert_eq!(unsaved, vec!["a.txt".to_string(), "c.txt".to_string()]);
    let saved = manager.save_all_tabs();
    assert_eq!(
        saved,
        vec![
            ("a.txt".to_string(), "1A".to_string()),
            ("c.txt".to_string(), "3C".to_string()),
        ]
    );
    assert!(manager.get_unsaved_tabs().is_empty());
    assert!(manager.save_all_tabs().is_empty());
}

#[test]
fn summary_counts_tabs_and_unsaved_ones() {
    let mut manager = TabManager::new();
    assert_eq!(manager.get_tabs_info(), "No tabs open");
    for i in 0..12 {
        open(&mut manager, &format!("f{}.txt", i), "x");
    }
    assert_eq!(manager.get_tabs_info(), "12 tabs");
    manager.get_tab_mut(3).unwrap().insert_char('y');
    assert_eq!(manager.get_tabs_info(), "12 tabs (1 unsaved)");
}

#[test]
fn display_name_marks_unsaved_changes() {
    let mut tab = Tab::new(7, "notes.md".to_string(), "/tmp/notes.md".to_string(), "hi".to_string());
    assert_eq!(tab.get_display_name(), "notes.md");
    tab.mark_dirty();
    assert!(!tab.is_dirty());
    tab.buffer.insert_char('?');
    tab.mark_dirty();
    assert!(tab.is_dirty());
    assert_eq!(tab.get_display_name(), "notes.md*");
    tab.mark_clean();
    assert_eq!(tab.get_display_name(), "notes.md");
    tab.buffer.insert_char('!');
    assert_eq!(tab.buffer.content(), "?!hi");
    tab.revert_changes();
    assert_eq!(tab.buffer.content(), "?hi");
    assert!(!tab.is_dirty());
    assert_eq!(tab.file_version, 1);
}
