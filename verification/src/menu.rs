//! Menu actions, encoded in a menu item's integer tag and decoded when the item fires.

use vstd::prelude::*;

verus! {

/// Tags of the fuzzy-pinyin items start here; the rule's index is added.
pub const FUZZY_TAG_BASE: isize = 100;

/// What a menu item does.
#[derive(Debug, Clone, Copy, PartialEq, Eq, Structural)]
pub enum MenuAction {
    /// Switch cloud prediction on or off (`[predict] enabled`).
    ToggleCloud,
    /// Switch one fuzzy-pinyin rule; the value is the rule's index.
    ToggleFuzzy(usize),
    /// Open the preferences window.
    OpenPreferences,
    /// Show the log directory.
    OpenLogs,
    /// Synchronise learning data now.
    SyncNow,
}

/// The tag of an action.
pub open spec fn tag_of(action: MenuAction) -> int {
    match action {
        MenuAction::ToggleCloud => 1,
        MenuAction::OpenPreferences => 2,
        MenuAction::OpenLogs => 3,
        MenuAction::SyncNow => 4,
        MenuAction::ToggleFuzzy(index) => FUZZY_TAG_BASE + index,
    }
}

/// The action a tag stands for, with `rules` fuzzy-pinyin rules on the menu.
pub open spec fn action_of(tag: int, rules: nat) -> Option<MenuAction> {
    if tag == 1 {
        Some(MenuAction::ToggleCloud)
    } else if tag == 2 {
        Some(MenuAction::OpenPreferences)
    } else if tag == 3 {
        Some(MenuAction::OpenLogs)
    } else if tag == 4 {
        Some(MenuAction::SyncNow)
    } else if FUZZY_TAG_BASE <= tag < FUZZY_TAG_BASE + rules {
        Some(MenuAction::ToggleFuzzy((tag - FUZZY_TAG_BASE) as usize))
    } else {
        None
    }
}

/// An action that a menu with `rules` fuzzy-pinyin rules can carry.
pub open spec fn is_menu_action(action: MenuAction, rules: nat) -> bool {
    match action {
        MenuAction::ToggleFuzzy(index) => index < rules && FUZZY_TAG_BASE + index
            <= isize::MAX,
        _ => true,
    }
}

impl MenuAction {
    /// The tag stored on the menu item.
    pub fn tag(self) -> (t: isize)
        requires
            self matches MenuAction::ToggleFuzzy(index) ==> FUZZY_TAG_BASE + index <= isize::MAX,
        ensures
            t == tag_of(self),
    {
        match self {
            MenuAction::ToggleCloud => 1,
            MenuAction::OpenPreferences => 2,
            MenuAction::OpenLogs => 3,
            MenuAction::SyncNow => 4,
            MenuAction::ToggleFuzzy(index) => FUZZY_TAG_BASE + index as isize,
        }
    }

    /// The action behind a tag, when the menu lists `rules` fuzzy-pinyin rules; `None` for
    /// a tag that no item carries.
    pub fn from_tag(tag: isize, rules: usize) -> (a: Option<Self>)
        ensures
            a == action_of(tag as int, rules as nat),
    {
        if tag == 1 {
            Some(MenuAction::ToggleCloud)
        } else if tag == 2 {
            Some(MenuAction::OpenPreferences)
        } else if tag == 3 {
            Some(MenuAction::OpenLogs)
        } else if tag == 4 {
            Some(MenuAction::SyncNow)
        } else {
            match tag.checked_sub(FUZZY_TAG_BASE) {
                Some(offset) => {
                    if offset >= 0 && (offset as usize) < rules {
                        Some(MenuAction::ToggleFuzzy(offset as usize))
                    } else {
                        None
                    }
                },
                None => None,
            }
        }
    }
}

/// Every action decodes from its own tag, and a tag decodes only to the action that
/// carries it: tags are a faithful encoding.
pub proof fn lemma_tags_round_trip(action: MenuAction, tag: isize, rules: usize)
    ensures
        is_menu_action(action, rules as nat) ==> action_of(tag_of(action), rules as nat) == Some(
            action,
        ),
        action_of(tag as int, rules as nat) == Some(action) ==> tag_of(action) == tag,
{
}

} // verus!
