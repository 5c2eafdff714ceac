//! Registering the `.app` as a system input source (`--register`): the decisions of the
//! retry loop. The system calls, the child processes and the waiting are the shell's.
//!
//! Each round registers and enables the source, then a fresh child process reads the
//! state back and selects the source (the system caches the state per process), then a
//! second child confirms a few seconds later that a rescan did not undo it.

use vstd::prelude::*;

use crate::text::chars_of;

verus! {

/// The flag that runs the child: `manbo-macos --finish-register <source id>`.
pub const FINISH_FLAG: &'static str = "--finish-register";

/// Child exit code: enabled and selected.
pub const FINISH_SELECTED: i32 = 0;

/// Child exit code: not enabled yet (wait and try again).
pub const FINISH_NOT_ENABLED: i32 = 1;

/// Child exit code: enabled, but selecting it failed.
pub const FINISH_ENABLED_ONLY: i32 = 2;

/// The child's exit code, from whether every source with the id is enabled and whether
/// selecting them worked.
pub fn finish_code(all_enabled: bool, selected: bool) -> (code: i32)
    ensures
        code == if !all_enabled {
            FINISH_NOT_ENABLED
        } else if selected {
            FINISH_SELECTED
        } else {
            FINISH_ENABLED_ONLY
        },
{
    if !all_enabled {
        FINISH_NOT_ENABLED
    } else if selected {
        FINISH_SELECTED
    } else {
        FINISH_ENABLED_ONLY
    }
}

/// What the registration loop does next.
#[derive(Debug, Clone, Copy, PartialEq, Eq, Structural)]
pub enum RegisterStep {
    /// Wait a moment and run a second child to confirm.
    Confirm,
    /// Finished; whether the source was also made the current one.
    Done(bool),
    /// Start the round again (after the retry interval, unless time is up).
    Retry,
}

/// After the first child: confirm unless the source is not enabled yet.
pub fn after_first_check(code: i32) -> (step: RegisterStep)
    ensures
        step == if code == FINISH_NOT_ENABLED {
            RegisterStep::Retry
        } else {
            RegisterStep::Confirm
        },
{
    if code == FINISH_NOT_ENABLED {
        RegisterStep::Retry
    } else {
        RegisterStep::Confirm
    }
}

/// After the confirming child: done, selected or only enabled; any other answer means a
/// rescan undid the registration and the round starts again.
pub fn after_confirmation(code: i32) -> (step: RegisterStep)
    ensures
        step == if code == FINISH_SELECTED {
            RegisterStep::Done(true)
        } else if code == FINISH_ENABLED_ONLY {
            RegisterStep::Done(false)
        } else {
            RegisterStep::Retry
        },
{
    if code == FINISH_SELECTED {
        RegisterStep::Done(true)
    } else if code == FINISH_ENABLED_ONLY {
        RegisterStep::Done(false)
    } else {
        RegisterStep::Retry
    }
}

/// Whether a path ends with `.app`.
pub open spec fn is_app_path(path: Seq<char>) -> bool {
    path.len() >= 4 && path.skip(path.len() - 4) == ".app"@
}

/// Whether the program runs from inside an `.app` bundle (its bundle path ends with
/// `.app`); registration needs one.
pub fn runs_from_app(bundle_path: &str) -> (b: bool)
    ensures
        b == is_app_path(bundle_path@),
{
    let cs = chars_of(bundle_path);
    let n = cs.len();
    if n < 4 {
        return false;
    }
    let ok = cs[n - 4] == '.' && cs[n - 3] == 'a' && cs[n - 2] == 'p' && cs[n - 1] == 'p';
    proof {
        reveal_strlit(".app");
        let tail = cs@.skip(n - 4);
        if ok {
            assert(tail =~= ".app"@);
        } else {
            if tail == ".app"@ {
                assert(tail[0] == cs@[n - 4]);
                assert(tail[1] == cs@[n - 3]);
                assert(tail[2] == cs@[n - 2]);
                assert(tail[3] == cs@[n - 1]);
            }
        }
    }
    ok
}

} // verus!
