//! The reminder scheduler's decision logic. Once per tick the shell hands in
//! the wall-clock date and minute; the scan finds every uncompleted task of
//! the day whose reminder instant — its scheduled time minus its reminder
//! lead, on the 24-hour clock — is exactly the current minute, clears the
//! task's `reminder_minutes` so it can never fire again, and reports what to
//! notify. A malformed stored time simply never matches; it aborts nothing.
use vstd::prelude::*;

use crate::models::Task;
use crate::store::Store;
use crate::strings::str_eq;
use vstd::arithmetic::div_mod::{lemma_fundamental_div_mod, lemma_mod_multiples_vanish};

verus! {

/// A notification the scan asks the shell to deliver.
pub struct Reminder {
    pub task_id: String,
    pub title: String,
    pub scheduled_time: String,
}

/// A decimal digit.
pub open spec fn is_digit(c: char) -> bool {
    ('0' as int) <= (c as int) && (c as int) <= ('9' as int)
}

/// The value of a decimal digit.
pub open spec fn digit_val(c: char) -> int {
    (c as int) - ('0' as int)
}

/// The minute of day a well-formed 24-hour "HH:MM" string denotes, `None`
/// for every other string.
pub open spec fn spec_parse_hhmm(s: Seq<char>) -> Option<int> {
    if s.len() == 5 && s[2] == ':' && is_digit(s[0]) && is_digit(s[1]) && is_digit(s[3]) && is_digit(
        s[4],
    ) {
        let h = digit_val(s[0]) * 10 + digit_val(s[1]);
        let m = digit_val(s[3]) * 10 + digit_val(s[4]);
        if h < 24 && m < 60 {
            Some(h * 60 + m)
        } else {
            None
        }
    } else {
        None
    }
}

/// The minute of day a reminder targets: the scheduled minute less the lead,
/// wrapped on the 24-hour clock.
pub open spec fn reminder_instant(scheduled: int, lead: int) -> int {
    (scheduled - lead) % 1440
}

/// The match predicate: both times parse and the current minute is exactly
/// the reminder instant.
pub open spec fn spec_should_notify(now: Seq<char>, scheduled: Seq<char>, lead: int) -> bool {
    match (spec_parse_hhmm(now), spec_parse_hhmm(scheduled)) {
        (Some(cur), Some(st)) => cur == reminder_instant(st, lead),
        _ => false,
    }
}

/// True when the scan must fire the task's reminder now: scheduled today,
/// not completed, a time and a pending reminder present, and the minute
/// matches.
pub open spec fn due(t: Task, today: Seq<char>, now: Seq<char>) -> bool {
    &&& t.scheduled_date@ == today
    &&& !t.is_completed
    &&& t.scheduled_time is Some
    &&& t.reminder_minutes is Some
    &&& spec_should_notify(now, (t.scheduled_time->Some_0)@, t.reminder_minutes->Some_0 as int)
}

/// The same task with its reminder consumed.
pub open spec fn cleared_reminder(t: Task) -> Task {
    Task {
        id: t.id,
        title: t.title,
        description: t.description,
        scheduled_date: t.scheduled_date,
        scheduled_time: t.scheduled_time,
        duration_minutes: t.duration_minutes,
        priority: t.priority,
        is_completed: t.is_completed,
        reminder_minutes: None,
        created_at: t.created_at,
    }
}

/// The notification a due task yields.
pub open spec fn reminder_of(t: Task) -> Reminder {
    Reminder { task_id: t.id, title: t.title, scheduled_time: t.scheduled_time->Some_0 }
}

/// The notifications of the due tasks, in stored order.
pub open spec fn fired_list(s: Seq<Task>, today: Seq<char>, now: Seq<char>) -> Seq<Reminder>
    decreases s.len(),
{
    if s.len() == 0 {
        Seq::empty()
    } else {
        let rest = fired_list(s.drop_last(), today, now);
        if due(s.last(), today, now) {
            rest.push(reminder_of(s.last()))
        } else {
            rest
        }
    }
}

/// What one scan does to the tasks: exactly the due rows lose their
/// reminder, everything else is untouched, and the report lists exactly the
/// due rows.
pub open spec fn scan_post(
    pre: Seq<Task>,
    post: Seq<Task>,
    fired: Seq<Reminder>,
    today: Seq<char>,
    now: Seq<char>,
) -> bool {
    &&& post.len() == pre.len()
    &&& (forall|i: int|
        0 <= i < pre.len() ==> post[i] == (if due(#[trigger] pre[i], today, now) {
            cleared_reminder(pre[i])
        } else {
            pre[i]
        }))
    &&& fired == fired_list(pre, today, now)
}

/// Parses a strict 24-hour "HH:MM" string to its minute of day.
pub fn parse_hhmm(s: &str) -> (r: Option<u16>)
    ensures
        match r {
            Some(v) => spec_parse_hhmm(s@) == Some(v as int),
            None => spec_parse_hhmm(s@) is None,
        },
{
    if s.unicode_len() != 5 {
        return None;
    }
    if s.get_char(2) != ':' {
        return None;
    }
    let d0 = s.get_char(0) as u32;
    let d1 = s.get_char(1) as u32;
    let d3 = s.get_char(3) as u32;
    let d4 = s.get_char(4) as u32;
    if d0 < 48 || d0 > 57 || d1 < 48 || d1 > 57 || d3 < 48 || d3 > 57 || d4 < 48 || d4 > 57 {
        return None;
    }
    let h = (d0 - 48) * 10 + (d1 - 48);
    let m = (d3 - 48) * 10 + (d4 - 48);
    if h >= 24 || m >= 60 {
        return None;
    }
    Some((h * 60 + m) as u16)
}

/// The target minute is congruent to `scheduled - lead` however the lead was
/// reduced to `[0, 1440)`.
proof fn lemma_instant_congruent(st: int, lead: int, lead_mod: int)
    requires
        0 <= st < 1440,
        0 <= lead_mod < 1440,
        (lead - lead_mod) % 1440 == 0,
    ensures
        (st + 1440 - lead_mod) % 1440 == reminder_instant(st, lead),
{
    let k = (lead - lead_mod) / 1440;
    lemma_fundamental_div_mod(lead - lead_mod, 1440);
    assert(lead - lead_mod == 1440 * k);
    assert(st + 1440 - lead_mod == 1440 * (k + 1) + (st - lead));
    lemma_mod_multiples_vanish(k + 1, st - lead, 1440);
}

/// Executable match predicate, exactly `spec_should_notify`.
pub fn should_notify(current_time: &str, scheduled_time: &str, reminder_minutes: i32) -> (r: bool)
    ensures
        r == spec_should_notify(current_time@, scheduled_time@, reminder_minutes as int),
{
    let cur = match parse_hhmm(current_time) {
        Some(v) => v,
        None => {
            return false;
        },
    };
    let st = match parse_hhmm(scheduled_time) {
        Some(v) => v,
        None => {
            return false;
        },
    };
    let lead = reminder_minutes;
    let lead_mod: u32 = if lead >= 0 {
        (lead as u32) % 1440
    } else {
        let pos = (-(lead as i64)) as u64;
        let pm = (pos % 1440) as u32;
        if pm == 0 {
            0
        } else {
            1440 - pm
        }
    };
    proof {
        if lead >= 0 {
            lemma_fundamental_div_mod(lead as int, 1440);
            lemma_mod_multiples_vanish(lead as int / 1440, 0, 1440);
        } else {
            let pos = -(lead as int);
            lemma_fundamental_div_mod(pos, 1440);
            if pos % 1440 == 0 {
                lemma_mod_multiples_vanish(-(pos / 1440), 0, 1440);
            } else {
                lemma_mod_multiples_vanish(-(pos / 1440) - 1, 0, 1440);
            }
        }
        assert((reminder_minutes as int - lead_mod as int) % 1440 == 0);
        lemma_instant_congruent(st as int, reminder_minutes as int, lead_mod as int);
    }
    let inst: u32 = (st as u32 + 1440 - lead_mod) % 1440;
    (cur as u32) == inst
}

/// A fired reminder is consumed: once a scan has cleared the task's
/// reminder, no scan of any later (or any) moment finds it due again.
pub proof fn lemma_reminder_consumed(
    t: Task,
    today: Seq<char>,
    now: Seq<char>,
    later_day: Seq<char>,
    later_now: Seq<char>,
)
    requires
        due(t, today, now),
    ensures
        !due(cleared_reminder(t), later_day, later_now),
{
}

impl Store {
    /// One scan at the given wall-clock date and minute: clears the reminder
    /// of every due task and returns their notifications, in stored order.
    /// Nothing else changes, and a task with no parseable time never
    /// matches and never stops the scan.
    pub fn scan_due_reminders(&mut self, today: &str, current_time: &str) -> (r: Vec<Reminder>)
        requires
            old(self).wf(),
        ensures
            final(self).wf(),
            final(self).goals@ == old(self).goals@,
            final(self).entries@ == old(self).entries@,
            scan_post(old(self).tasks@, final(self).tasks@, r@, today@, current_time@),
    {
        let ghost pre = self.tasks@;
        let n = self.tasks.len();
        let mut fired: Vec<Reminder> = Vec::new();
        let mut i: usize = 0;
        proof {
            assert(pre.take(0) =~= Seq::<Task>::empty());
        }
        while i < n
            invariant
                i <= n,
                n == pre.len(),
                self.tasks@.len() == n,
                self.goals@ == old(self).goals@,
                self.entries@ == old(self).entries@,
                forall|k: int|
                    0 <= k < i ==> self.tasks@[k] == (if due(
                        #[trigger] pre[k],
                        today@,
                        current_time@,
                    ) {
                        cleared_reminder(pre[k])
                    } else {
                        pre[k]
                    }),
                forall|k: int| i <= k < n ==> self.tasks@[k] == pre[k],
                fired@ == fired_list(pre.take(i as int), today@, current_time@),
            decreases n - i,
        {
            proof {
                assert(pre.take(i as int + 1).drop_last() =~= pre.take(i as int));
                assert(pre.take(i as int + 1).last() == pre[i as int]);
            }
            let t = &self.tasks[i];
            let mut is_due = false;
            if !t.is_completed && str_eq(t.scheduled_date.as_str(), today) {
                match (&t.scheduled_time, &t.reminder_minutes) {
                    (Some(st), Some(rm)) => {
                        is_due = should_notify(current_time, st.as_str(), *rm);
                    },
                    _ => {},
                }
            }
            proof {
                assert(is_due == due(pre[i as int], today@, current_time@));
            }
            if is_due {
                let mut nt = self.tasks[i].clone();
                nt.reminder_minutes = None;
                let rem = match &nt.scheduled_time {
                    Some(s) => Reminder {
                        task_id: nt.id.clone(),
                        title: nt.title.clone(),
                        scheduled_time: s.clone(),
                    },
                    None => {
                        proof {
                            assert(false);
                        }
                        Reminder {
                            task_id: String::new(),
                            title: String::new(),
                            scheduled_time: String::new(),
                        }
                    },
                };
                proof {
                    assert(rem == reminder_of(pre[i as int]));
                    assert(nt == cleared_reminder(pre[i as int]));
                }
                fired.push(rem);
                self.tasks[i] = nt;
            }
            i += 1;
        }
        proof {
            assert(pre.take(n as int) =~= pre);
            assert forall|p: int, q: int|
                0 <= p < q < self.tasks@.len() implies self.tasks@[p].id@ != self.tasks@[q].id@ by {
                assert(pre[p].id@ != pre[q].id@);
                assert(self.tasks@[p].id@ == pre[p].id@);
                assert(self.tasks@[q].id@ == pre[q].id@);
            }
        }
        fired
    }

    /// One tick: reads the wall clock and scans. Whatever moment the clock
    /// reported, the store changed exactly as one scan at that moment
    /// changes it.
    pub fn tick(&mut self) -> (r: Vec<Reminder>)
        requires
            old(self).wf(),
        ensures
            final(self).wf(),
            final(self).goals@ == old(self).goals@,
            final(self).entries@ == old(self).entries@,
            exists|today: Seq<char>, now: Seq<char>|
                scan_post(old(self).tasks@, final(self).tasks@, r@, today, now),
    {
        let (today, now) = crate::clock::local_date_and_minute();
        let r = self.scan_due_reminders(today.as_str(), now.as_str());
        proof {
            assert(scan_post(old(self).tasks@, self.tasks@, r@, today@, now@));
        }
        r
    }
}

} // verus!
