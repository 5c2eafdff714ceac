//! The timing of learning-data sync: a round is due every interval; each failed round
//! doubles the wait up to eight intervals, and a clean one brings it back to one. The sync
//! itself runs in the shell; times are whole seconds on the shell's clock.

use vstd::prelude::*;

use crate::text::{decimal, push_decimal, push_str};

verus! {

/// The largest factor by which failures stretch the interval.
pub const MAX_BACKOFF: u32 = 8;

/// The schedule of automatic sync rounds.
pub struct SyncTimer {
    /// The interval between automatic rounds, in seconds.
    pub interval: u64,
    /// When the next automatic round is due.
    pub next_due: u64,
    /// The factor on the interval: doubled after each failed round, one after a clean one.
    pub backoff: u32,
}

/// The factors the interval is stretched by: one, two, four, eight.
pub open spec fn is_backoff(b: u32) -> bool {
    b == 1 || b == 2 || b == 4 || b == MAX_BACKOFF
}

/// The factor after a round: one after a clean round, doubled up to the cap after a
/// failed one.
pub open spec fn backoff_after(b: u32, clean: bool) -> u32 {
    if clean {
        1
    } else if 2 * b <= MAX_BACKOFF {
        (2 * b) as u32
    } else {
        MAX_BACKOFF
    }
}

/// The factor after `k` failed rounds in a row, starting from one.
pub open spec fn backoff_after_failures(k: nat) -> u32
    decreases k,
{
    if k == 0 {
        1
    } else {
        backoff_after(backoff_after_failures((k - 1) as nat), false)
    }
}

impl SyncTimer {
    /// The timer's invariant: an interval of at least a minute and a factor of one, two,
    /// four or eight.
    pub open spec fn wf(&self) -> bool {
        &&& self.interval >= 60
        &&& is_backoff(self.backoff)
    }

    /// A timer started at `now` with an interval of `interval_minutes` minutes (at least
    /// one); the first round is due one interval later, since a full round ran at start.
    pub fn new(interval_minutes: u64, now: u64) -> (t: Self)
        requires
            interval_minutes * 60 <= u64::MAX,
            now + 60 * (if interval_minutes == 0 { 1 } else { interval_minutes }) <= u64::MAX,
        ensures
            t.wf(),
            t.interval == 60 * (if interval_minutes == 0 { 1 } else { interval_minutes }),
            t.next_due == now + t.interval,
            t.backoff == 1,
    {
        let minutes = if interval_minutes == 0 {
            1
        } else {
            interval_minutes
        };
        let interval = minutes * 60;
        SyncTimer { interval, next_due: now + interval, backoff: 1 }
    }

    /// Notes the report of a round: clean brings the factor back to one, a failure
    /// doubles it up to [`MAX_BACKOFF`].
    pub fn note_report(&mut self, clean: bool)
        requires
            old(self).wf(),
        ensures
            final(self).wf(),
            *final(self) == (SyncTimer { backoff: backoff_after(old(self).backoff, clean), ..*old(self) }),
    {
        if clean {
            self.backoff = 1;
        } else if self.backoff <= MAX_BACKOFF / 2 {
            self.backoff = self.backoff * 2;
        } else {
            self.backoff = MAX_BACKOFF;
        }
    }

    /// Whether an automatic round is due at `now`.
    pub fn is_due(&self, now: u64) -> (due: bool)
        ensures
            due == (now >= self.next_due),
    {
        now >= self.next_due
    }

    /// A round was requested at `now`: the next is due the stretched interval later.
    pub fn reschedule(&mut self, now: u64)
        requires
            old(self).wf(),
            now + old(self).interval * MAX_BACKOFF <= u64::MAX,
        ensures
            final(self).wf(),
            *final(self) == (SyncTimer {
                next_due: (now + old(self).interval * old(self).backoff) as u64,
                ..*old(self)
            }),
    {
        proof {
            assert(self.interval * self.backoff <= self.interval * MAX_BACKOFF) by (nonlinear_arith)
                requires
                    self.backoff <= MAX_BACKOFF,
            ;
        }
        self.next_due = now + self.interval * (self.backoff as u64);
    }
}

/// Whether the sync work of a tick runs: only while sync is on, and never in the middle of
/// a composition or a translation, so that swapping in the merged learning data does not
/// interrupt the user.
pub fn tick_runs(sync_on: bool, translating: bool, composing: bool) -> (r: bool)
    ensures
        r == (sync_on && !translating && !composing),
{
    sync_on && !translating && !composing
}

/// Failures in a row stretch the interval by two, four, then eight, and no further.
pub proof fn lemma_backoff_doubles_to_the_cap(k: nat)
    ensures
        backoff_after_failures(k) == if k >= 3 {
            MAX_BACKOFF
        } else if k == 2 {
            4u32
        } else if k == 1 {
            2u32
        } else {
            1u32
        },
    decreases k,
{
    if k > 0 {
        lemma_backoff_doubles_to_the_cap((k - 1) as nat);
    }
}

/// Whatever the reports, the factor stays one, two, four or eight, and a clean round
/// always brings it back to one.
pub proof fn lemma_backoff_bounded(b: u32, clean: bool)
    requires
        is_backoff(b),
    ensures
        is_backoff(backoff_after(b, clean)),
        clean ==> backoff_after(b, clean) == 1,
        1 <= backoff_after(b, clean) <= MAX_BACKOFF,
{
}

/// The messages of a sync report, each on a line of its own after `  - `.
pub open spec fn message_lines(messages: Seq<String>) -> Seq<char>
    decreases messages.len(),
{
    if messages.len() == 0 {
        Seq::empty()
    } else {
        message_lines(messages.drop_last()) + "\n  - "@ + messages.last()@
    }
}

/// The report of one full sync round, as the command-line tool prints it.
pub open spec fn sync_report_text(
    synced: u64,
    skipped: u64,
    errors: u64,
    messages: Seq<String>,
    data_dir: Seq<char>,
    cloud: Seq<char>,
) -> Seq<char> {
    "同步完成："@ + decimal(synced as nat) + " 个文件有变化，"@ + decimal(skipped as nat)
        + " 个一致，"@ + decimal(errors as nat) + " 个失败"@ + message_lines(messages)
        + "\n设备目录："@ + data_dir + "\n云端目录："@ + cloud + "\n"@
}

/// The text that reports a full sync round: files changed, files alike, failures with
/// their messages, and the two directories.
pub fn sync_report(
    synced: u64,
    skipped: u64,
    errors: u64,
    messages: &Vec<String>,
    data_dir: &str,
    cloud: &str,
) -> (text: String)
    ensures
        text@ == sync_report_text(synced, skipped, errors, messages@, data_dir@, cloud@),
{
    let mut text = String::new();
    push_str(&mut text, "同步完成：");
    push_decimal(&mut text, synced);
    push_str(&mut text, " 个文件有变化，");
    push_decimal(&mut text, skipped);
    push_str(&mut text, " 个一致，");
    push_decimal(&mut text, errors);
    push_str(&mut text, " 个失败");
    let ghost head = text@;
    let mut i: usize = 0;
    while i < messages.len()
        invariant
            i <= messages@.len(),
            text@ == head + message_lines(messages@.take(i as int)),
        decreases messages.len() - i,
    {
        push_str(&mut text, "\n  - ");
        push_str(&mut text, messages[i].as_str());
        proof {
            assert(messages@.take(i + 1).drop_last() =~= messages@.take(i as int));
            assert(messages@.take(i + 1).last() == messages@[i as int]);
            assert(text@ =~= head + message_lines(messages@.take(i + 1)));
        }
        i = i + 1;
    }
    assert(messages@.take(messages@.len() as int) =~= messages@);
    push_str(&mut text, "\n设备目录：");
    push_str(&mut text, data_dir);
    push_str(&mut text, "\n云端目录：");
    push_str(&mut text, cloud);
    push_str(&mut text, "\n");
    assert(text@ =~= sync_report_text(synced, skipped, errors, messages@, data_dir@, cloud@));
    text
}

} // verus!
