use manbo::settings::{
    api_key_change, edit_phrases, shortcut_free, PhraseEdit, dictionary_switch, full_width_choice, page_size_value, shuangpin_choice,
    text_field_change, ListEdit,
};

#[test]
fn text_fields_write_only_real_changes() {
    assert_eq!(text_field_change("https://a", " https://b "), Some("https://b".to_owned()));
    assert_eq!(text_field_change("https://a", "https://a"), None);
    assert_eq!(text_field_change("https://a", "   "), None);
    assert_eq!(api_key_change(" sk-1 "), Some("sk-1".to_owned()));
    assert_eq!(api_key_change("  "), None);
}

#[test]
fn pop_up_menus_map_to_values() {
    assert_eq!(page_size_value(0), 1);
    assert_eq!(page_size_value(8), 9);
    assert!(full_width_choice(0));
    assert!(!full_width_choice(1));
    assert_eq!(shuangpin_choice(0, 6), None);
    assert_eq!(shuangpin_choice(1, 6), Some(0));
    assert_eq!(shuangpin_choice(7, 6), None);
}

#[test]
fn dictionary_switches_edit_the_right_list() {
    let domains = vec!["med".to_owned()];
    let disabled = vec!["mine".to_owned()];
    assert_eq!(
        dictionary_switch(true, "law", true, domains.clone(), disabled.clone()),
        Some(ListEdit::Domains(vec!["med".to_owned(), "law".to_owned()]))
    );
    assert_eq!(dictionary_switch(true, "med", true, domains.clone(), disabled.clone()), None);
    assert_eq!(
        dictionary_switch(false, "mine", true, domains.clone(), disabled.clone()),
        Some(ListEdit::Disabled(Vec::new()))
    );
    assert_eq!(
        dictionary_switch(false, "other", false, domains, disabled),
        Some(ListEdit::Disabled(vec!["mine".to_owned(), "other".to_owned()]))
    );
}

#[test]
fn phrase_edits_delete_replace_and_add() {
    let phrases = vec!["a", "b", "c"];
    assert_eq!(edit_phrases(phrases.clone(), PhraseEdit::Delete(1)), Some((vec!["a", "c"], 3)));
    assert_eq!(edit_phrases(phrases.clone(), PhraseEdit::Delete(3)), None);
    assert_eq!(edit_phrases(phrases.clone(), PhraseEdit::Replace(2, "z")), Some((vec!["a", "b", "z"], 2)));
    assert_eq!(edit_phrases(phrases.clone(), PhraseEdit::Replace(5, "z")), None);
    assert_eq!(edit_phrases(phrases, PhraseEdit::Add("d")), Some((vec!["a", "b", "c", "d"], 3)));
}

#[test]
fn conflicting_shortcuts_are_refused() {
    // Expression key `v` against question key `v`; then `u`.
    assert!(!shortcut_free('v' as u64, &vec!['v' as u64]));
    assert!(shortcut_free('u' as u64, &vec!['v' as u64]));
    // The delete shortcut against both translation shortcuts.
    assert!(!shortcut_free(3, &vec![1, 3]));
    assert!(shortcut_free(4, &vec![1, 3]));
    assert!(shortcut_free(4, &Vec::new()));
}
