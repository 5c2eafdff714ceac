//! The Chinese / English mode shown in the menu bar while the input method is active:
//! `中` or `英` (Caps Lock switches to English), with a cloud when cloud prediction is on.
//! The status item and its timers are the shell's; this is what it shows and when it
//! redraws.

use vstd::prelude::*;

use crate::text::push_str;

verus! {

/// What the menu bar item shows.
pub struct IndicatorState {
    /// The item is expanded (the input method is active, or was a moment ago).
    pub shown: bool,
    /// The mode last drawn; `None` forces the next update to draw.
    pub english: Option<bool>,
    /// Cloud prediction is on.
    pub cloud: bool,
}

/// The title of the item in a mode.
pub open spec fn title_text(english: bool, cloud: bool) -> Seq<char> {
    (if english {
        "英"@
    } else {
        "中"@
    }) + if cloud {
        " ☁︎"@
    } else {
        ""@
    }
}

impl IndicatorState {
    /// Hidden, nothing drawn, no cloud.
    pub fn new() -> (s: Self)
        ensures
            !s.shown && s.english is None && !s.cloud,
    {
        IndicatorState { shown: false, english: None, cloud: false }
    }

    /// The input method became active: the item expands if it was collapsed (returned
    /// `true`), and the next update redraws.
    pub fn activate(&mut self) -> (expand: bool)
        ensures
            expand == !old(self).shown,
            final(self).shown,
            final(self).english is None,
            final(self).cloud == old(self).cloud,
    {
        let expand = !self.shown;
        self.shown = true;
        self.english = None;
        expand
    }

    /// The collapse delay ran out: the item empties and shrinks if it was shown (returned
    /// `true`).
    pub fn collapse(&mut self) -> (hide: bool)
        ensures
            hide == old(self).shown,
            !final(self).shown,
            hide ==> final(self).english is None,
            !hide ==> final(self).english == old(self).english,
            final(self).cloud == old(self).cloud,
    {
        if !self.shown {
            return false;
        }
        self.shown = false;
        self.english = None;
        true
    }

    /// Cloud prediction was switched: the next update redraws.
    pub fn set_cloud(&mut self, cloud: bool)
        ensures
            final(self).cloud == cloud,
            final(self).english is None,
            final(self).shown == old(self).shown,
    {
        self.cloud = cloud;
        self.english = None;
    }

    /// A poll of the Caps Lock state: the new title when the item is shown and the mode
    /// differs from the one drawn; `None` when nothing needs drawing.
    pub fn update(&mut self, caps_lock: bool) -> (title: Option<String>)
        ensures
            final(self).shown == old(self).shown,
            final(self).cloud == old(self).cloud,
            !old(self).shown ==> title is None && *final(self) == *old(self),
            old(self).shown && old(self).english == Some(caps_lock) ==> title is None
                && *final(self) == *old(self),
            old(self).shown && old(self).english != Some(caps_lock) ==> (title matches Some(t)
                && t@ == title_text(caps_lock, old(self).cloud) && final(self).english == Some(
                caps_lock,
            )),
    {
        if !self.shown {
            return None;
        }
        match self.english {
            Some(e) => {
                if e == caps_lock {
                    return None;
                }
            },
            None => {},
        }
        self.english = Some(caps_lock);
        let mut t = String::new();
        if caps_lock {
            push_str(&mut t, "英");
        } else {
            push_str(&mut t, "中");
        }
        if self.cloud {
            push_str(&mut t, " ☁︎");
        } else {
            push_str(&mut t, "");
        }
        assert(t@ =~= title_text(caps_lock, self.cloud));
        Some(t)
    }
}

} // verus!
