use manbo::menu::{MenuAction, FUZZY_TAG_BASE};

/// The number of fuzzy-pinyin rules the menu lists in these tests.
const RULES: usize = 10;

#[test]
fn tags_round_trip() {
    let all = [
        MenuAction::ToggleCloud,
        MenuAction::OpenPreferences,
        MenuAction::OpenLogs,
        MenuAction::SyncNow,
        MenuAction::ToggleFuzzy(0),
        MenuAction::ToggleFuzzy(RULES - 1),
    ];
    for action in all {
        assert_eq!(MenuAction::from_tag(action.tag(), RULES), Some(action));
    }
    assert_eq!(MenuAction::from_tag(0, RULES), None);
    assert_eq!(MenuAction::from_tag(FUZZY_TAG_BASE + RULES as isize, RULES), None);
    assert_eq!(MenuAction::from_tag(-1, RULES), None);
}

#[test]
fn fixed_actions_have_small_tags() {
    assert_eq!(MenuAction::ToggleCloud.tag(), 1);
    assert_eq!(MenuAction::SyncNow.tag(), 4);
    assert_eq!(MenuAction::ToggleFuzzy(3).tag(), FUZZY_TAG_BASE + 3);
    assert_eq!(MenuAction::from_tag(isize::MIN, RULES), None);
    assert_eq!(MenuAction::from_tag(FUZZY_TAG_BASE - 1, RULES), None);
}
