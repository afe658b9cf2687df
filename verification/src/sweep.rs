//! Periodic sweep jobs.
//!
//! Each background job follows one lifecycle: on a timer tick, select the
//! rows that are due *and consume them as part of the selection*, then
//! perform one best-effort platform side effect per row. A side effect that
//! fails is logged and nothing more: the row stays consumed, at-most-once
//! delivery is accepted over exactly-once, and one bad row must not stop
//! the tick or the ticks after it.
//!
//! This module holds the selection and settlement rules and the wall-clock
//! alignment arithmetic. The timers, the store and the platform calls are
//! the caller's.

use vstd::prelude::*;

verus! {

/// Seconds in a civil day.
pub const SECONDS_PER_DAY: u32 = 86400;

/// A stored reminder: where to answer, whom to mention, what to say, and
/// when it falls due (seconds on the store's clock).
#[derive(Clone, PartialEq, Eq, Debug)]
pub struct Reminder {
    pub channel_id: u64,
    pub msg_id: u64,
    pub user_id: u64,
    pub content: String,
    pub time: i64,
}

/// The reminders of `s` that are due at `now`, in stored order.
pub open spec fn due_of(s: Seq<Reminder>, now: i64) -> Seq<Reminder>
    decreases s.len(),
{
    if s.len() == 0 {
        s
    } else if s.last().time <= now {
        due_of(s.drop_last(), now) + seq![s.last()]
    } else {
        due_of(s.drop_last(), now)
    }
}

/// The reminders of `s` not yet due at `now`, in stored order.
pub open spec fn kept_of(s: Seq<Reminder>, now: i64) -> Seq<Reminder>
    decreases s.len(),
{
    if s.len() == 0 {
        s
    } else if s.last().time > now {
        kept_of(s.drop_last(), now) + seq![s.last()]
    } else {
        kept_of(s.drop_last(), now)
    }
}

/// The atomic selection step of the reminder sweep: split the store into
/// the rows due at `now` (consumed by the very act of selection, the
/// `DELETE … RETURNING` discipline) and the rows that stay. Both keep
/// their stored order.
pub fn take_due(rows: Vec<Reminder>, now: i64) -> (r: (Vec<Reminder>, Vec<Reminder>))
    ensures
        r.0@ == due_of(rows@, now),
        r.1@ == kept_of(rows@, now),
{
    let ghost r0 = rows@;
    let n = rows.len();
    let mut rows = rows;
    let mut stack: Vec<Reminder> = Vec::new();
    loop
        invariant
            rows@.len() + stack@.len() == n,
            n == r0.len(),
            rows@ == r0.take(rows@.len() as int),
            forall|j: int| 0 <= j < stack@.len() ==> stack@[j] == r0[n - 1 - j],
        ensures
            rows@.len() == 0,
            stack@.len() == n,
            forall|j: int| 0 <= j < stack@.len() ==> stack@[j] == r0[n - 1 - j],
        decreases rows@.len(),
    {
        let ghost m = rows@.len() as int;
        match rows.pop() {
            None => {
                break;
            },
            Some(x) => {
                proof {
                    assert(rows@ =~= r0.take(m - 1));
                    assert(x == r0[m - 1]);
                }
                stack.push(x);
                proof {
                    assert forall|j: int|
                        0 <= j < stack@.len() implies stack@[j] == r0[n - 1 - j] by {
                        if j == stack@.len() - 1 {
                            assert(stack@[j] == x);
                            assert(n - 1 - j == m - 1);
                        }
                    }
                }
            },
        }
    }
    let mut due: Vec<Reminder> = Vec::new();
    let mut kept: Vec<Reminder> = Vec::new();
    let ghost mut i: int = 0;
    loop
        invariant
            0 <= i <= n,
            n == r0.len(),
            stack@.len() == n - i,
            forall|j: int| 0 <= j < stack@.len() ==> stack@[j] == r0[n - 1 - j],
            due@ == due_of(r0.take(i), now),
            kept@ == kept_of(r0.take(i), now),
        ensures
            i == n,
            due@ == due_of(r0.take(i), now),
            kept@ == kept_of(r0.take(i), now),
        decreases stack@.len(),
    {
        match stack.pop() {
            None => {
                break;
            },
            Some(x) => {
                proof {
                    assert(x == r0[i]);
                    assert(r0.take(i + 1).drop_last() =~= r0.take(i));
                    assert(r0.take(i + 1).last() == r0[i]);
                }
                if x.time <= now {
                    due.push(x);
                    proof {
                        assert(due@ =~= due_of(r0.take(i + 1), now));
                    }
                } else {
                    kept.push(x);
                    proof {
                        assert(kept@ =~= kept_of(r0.take(i + 1), now));
                    }
                }
                proof {
                    i = i + 1;
                }
            },
        }
    }
    proof {
        assert(r0.take(n as int) =~= r0);
    }
    (due, kept)
}

/// How many of the side effects succeeded.
pub open spec fn count_true(s: Seq<bool>) -> int
    decreases s.len(),
{
    if s.len() == 0 {
        0
    } else {
        count_true(s.drop_last()) + (if s.last() {
            1int
        } else {
            0int
        })
    }
}

/// The outcome of one sweep: every selected row counts as processed,
/// delivered or not.
#[derive(Clone, Copy, PartialEq, Eq, Structural, Debug)]
pub struct SweepReport {
    pub processed: usize,
    pub delivered: usize,
    pub failed: usize,
}

/// Settle one sweep from the per-row side-effect results. Rows whose side
/// effect failed are *not* returned to the store: `processed` always equals
/// the number of selected rows, and `failed` only says how many errors were
/// logged.
pub fn settle(results: &Vec<bool>) -> (r: SweepReport)
    ensures
        r.processed == results@.len(),
        r.delivered == count_true(results@),
        r.failed == results@.len() - count_true(results@),
{
    let n = results.len();
    let mut delivered: usize = 0;
    let mut i: usize = 0;
    while i < n
        invariant
            i <= n,
            n == results@.len(),
            delivered == count_true(results@.take(i as int)),
            delivered <= i,
        decreases n - i,
    {
        proof {
            assert(results@.take(i + 1).drop_last() =~= results@.take(i as int));
            assert(results@.take(i + 1).last() == results@[i as int]);
        }
        if results[i] {
            delivered = delivered + 1;
        }
        i = i + 1;
    }
    proof {
        assert(results@.take(n as int) =~= results@);
        lemma_count_true_bound(results@);
    }
    SweepReport { processed: n, delivered, failed: n - delivered }
}

proof fn lemma_count_true_bound(s: Seq<bool>)
    ensures
        0 <= count_true(s) <= s.len(),
    decreases s.len(),
{
    if s.len() > 0 {
        lemma_count_true_bound(s.drop_last());
    }
}

/// An open bet, as the settlement sweep sees it.
#[derive(Clone, PartialEq, Eq, Debug)]
pub struct BetRow {
    pub id: u64,
    pub bet_short_id: u64,
    pub channel_id: u64,
    pub message_id: u64,
    pub author_id: u64,
    pub description: String,
    pub expiry: i64,
}

/// Ids of the bets of `s` expired at `now`, in stored order.
pub open spec fn expired_ids_of(s: Seq<BetRow>, now: i64) -> Seq<u64>
    decreases s.len(),
{
    if s.len() == 0 {
        Seq::empty()
    } else if s.last().expiry <= now {
        expired_ids_of(s.drop_last(), now) + seq![s.last().id]
    } else {
        expired_ids_of(s.drop_last(), now)
    }
}

/// The selection step of the bet-settlement sweep: which bets have
/// expired at `now`. Each is then announced best-effort and deleted
/// regardless of whether the announcement went out.
pub fn expired_bets(rows: &Vec<BetRow>, now: i64) -> (r: Vec<u64>)
    ensures
        r@ == expired_ids_of(rows@, now),
{
    let n = rows.len();
    let mut out: Vec<u64> = Vec::new();
    let mut i: usize = 0;
    while i < n
        invariant
            i <= n,
            n == rows@.len(),
            out@ == expired_ids_of(rows@.take(i as int), now),
        decreases n - i,
    {
        proof {
            assert(rows@.take(i + 1).drop_last() =~= rows@.take(i as int));
            assert(rows@.take(i + 1).last() == rows@[i as int]);
        }
        if rows[i].expiry <= now {
            out.push(rows[i].id);
            proof {
                assert(out@ =~= expired_ids_of(rows@.take(i + 1), now));
            }
        }
        i = i + 1;
    }
    proof {
        assert(rows@.take(n as int) =~= rows@);
    }
    out
}

/// A birthday row: whose birthday, where to congratulate, on which day
/// (a civil day number), and on which day it was last congratulated.
#[derive(Clone, Copy, PartialEq, Eq, Structural, Debug)]
pub struct BirthdayRow {
    pub guild_id: u64,
    pub user_id: u64,
    pub birthday: i64,
    pub last_congratulated: Option<i64>,
}

/// Due today: the stored day is today and no congratulation went out
/// today yet.
pub open spec fn birthday_due(r: BirthdayRow, today: i64) -> bool {
    r.birthday == today && match r.last_congratulated {
        None => true,
        Some(last) => last < today,
    }
}

/// A row once the sweep has consumed it: marked congratulated today.
pub open spec fn congratulated(r: BirthdayRow, today: i64) -> BirthdayRow {
    if birthday_due(r, today) {
        BirthdayRow { last_congratulated: Some(today), ..r }
    } else {
        r
    }
}

/// The `(guild, user)` pairs due today, in stored order.
pub open spec fn due_birthday_pairs(s: Seq<BirthdayRow>, today: i64) -> Seq<(u64, u64)>
    decreases s.len(),
{
    if s.len() == 0 {
        Seq::empty()
    } else if birthday_due(s.last(), today) {
        due_birthday_pairs(s.drop_last(), today) + seq![(s.last().guild_id, s.last().user_id)]
    } else {
        due_birthday_pairs(s.drop_last(), today)
    }
}

/// The selection step of the birthday sweep: pick every row due today and
/// mark it congratulated as part of the selection (the `UPDATE …
/// RETURNING` discipline). Rows are returned updated, in stored order.
pub fn congratulate_due(rows: Vec<BirthdayRow>, today: i64) -> (r: (
    Vec<BirthdayRow>,
    Vec<(u64, u64)>,
))
    ensures
        r.0@.len() == rows@.len(),
        forall|j: int| 0 <= j < rows@.len() ==> r.0@[j] == congratulated(#[trigger] rows@[j], today),
        r.1@ == due_birthday_pairs(rows@, today),
{
    let n = rows.len();
    let mut updated: Vec<BirthdayRow> = Vec::new();
    let mut due: Vec<(u64, u64)> = Vec::new();
    let mut i: usize = 0;
    while i < n
        invariant
            i <= n,
            n == rows@.len(),
            updated@.len() == i,
            forall|j: int| 0 <= j < i ==> updated@[j] == congratulated(#[trigger] rows@[j], today),
            due@ == due_birthday_pairs(rows@.take(i as int), today),
        decreases n - i,
    {
        let r = rows[i];
        proof {
            assert(rows@.take(i + 1).drop_last() =~= rows@.take(i as int));
            assert(rows@.take(i + 1).last() == rows@[i as int]);
        }
        let is_due = r.birthday == today && match r.last_congratulated {
            None => true,
            Some(last) => last < today,
        };
        if is_due {
            updated.push(BirthdayRow { last_congratulated: Some(today), ..r });
            due.push((r.guild_id, r.user_id));
            proof {
                assert(due@ =~= due_birthday_pairs(rows@.take(i + 1), today));
            }
        } else {
            updated.push(r);
        }
        i = i + 1;
    }
    proof {
        assert(rows@.take(n as int) =~= rows@);
    }
    (updated, due)
}

/// The guilds of `s` in order of first appearance.
pub open spec fn guild_order(s: Seq<(u64, u64)>) -> Seq<u64>
    decreases s.len(),
{
    if s.len() == 0 {
        Seq::empty()
    } else {
        let g = guild_order(s.drop_last());
        if g.contains(s.last().0) {
            g
        } else {
            g.push(s.last().0)
        }
    }
}

/// The users of `s` that belong to guild `g`, in stored order.
pub open spec fn users_for(s: Seq<(u64, u64)>, g: u64) -> Seq<u64>
    decreases s.len(),
{
    if s.len() == 0 {
        Seq::empty()
    } else if s.last().0 == g {
        users_for(s.drop_last(), g).push(s.last().1)
    } else {
        users_for(s.drop_last(), g)
    }
}

/// Group the due pairs by guild so one congratulation message per guild
/// mentions all its celebrants: guilds in order of first appearance, each
/// with its users in stored order.
#[verifier::loop_isolation(false)]
pub fn group_by_guild(pairs: &Vec<(u64, u64)>) -> (r: Vec<(u64, Vec<u64>)>)
    ensures
        r@.len() == guild_order(pairs@).len(),
        forall|k: int|
            0 <= k < r@.len() ==> r@[k].0 == guild_order(pairs@)[k] && r@[k].1@ == users_for(
                pairs@,
                guild_order(pairs@)[k],
            ),
{
    let n = pairs.len();
    let mut groups: Vec<(u64, Vec<u64>)> = Vec::new();
    let mut i: usize = 0;
    while i < n
        invariant
            i <= n,
            groups@.len() == guild_order(pairs@.take(i as int)).len(),
            forall|k: int|
                0 <= k < groups@.len() ==> groups@[k].0 == guild_order(pairs@.take(i as int))[k]
                    && groups@[k].1@ == users_for(
                    pairs@.take(i as int),
                    guild_order(pairs@.take(i as int))[k],
                ),
        decreases n - i,
    {
        let (g, u) = pairs[i];
        let ghost taken = pairs@.take(i as int);
        let ghost order0 = guild_order(taken);
        proof {
            assert(pairs@.take(i + 1).drop_last() =~= taken);
            assert(pairs@.take(i + 1).last() == pairs@[i as int]);
        }
        let m = groups.len();
        let mut idx: usize = 0;
        let mut found = false;
        while idx < m && !found
            invariant
                idx <= m,
                m == groups@.len(),
                found ==> idx < m && groups@[idx as int].0 == g,
                !found ==> forall|j: int| 0 <= j < idx ==> groups@[j].0 != g,
            decreases m - idx + (if found {
                0int
            } else {
                1int
            }),
        {
            if groups[idx].0 == g {
                found = true;
            } else {
                idx = idx + 1;
            }
        }
        if found {
            proof {
                assert(order0.contains(g)) by {
                    assert(order0[idx as int] == g);
                }
            }
            let ghost groups0 = groups@;
            let entry = &mut groups[idx];
            entry.1.push(u);
            proof {
                assert(groups@ =~= groups0.update(
                    idx as int,
                    (g, groups@[idx as int].1),
                ));
                assert(groups@[idx as int].1@ =~= groups0[idx as int].1@.push(u));
                assert forall|k: int|
                    0 <= k < groups@.len() implies groups@[k].0 == guild_order(
                    pairs@.take(i + 1),
                )[k] && groups@[k].1@ == users_for(
                    pairs@.take(i + 1),
                    guild_order(pairs@.take(i + 1))[k],
                ) by {
                    assert(guild_order(pairs@.take(i + 1)) == order0);
                    if k == idx {
                        assert(groups0[idx as int].0 == order0[idx as int]);
                        assert(order0[idx as int] == g);
                        assert(groups0[idx as int].1@ == users_for(taken, g));
                        assert(groups@[k].1@ == users_for(taken, g).push(u));
                    } else {
                        assert(groups@[k] == groups0[k]);
                        assert(order0[k] != g) by {
                            lemma_guild_order_distinct(taken);
                            assert(groups0[idx as int].0 == order0[idx as int]);
                            assert(order0[idx as int] == g);
                        }
                    }
                }
            }
        } else {
            proof {
                assert(!order0.contains(g)) by {
                    if order0.contains(g) {
                        let w = choose|w: int| 0 <= w < order0.len() && order0[w] == g;
                        assert(groups@[w].0 == g);
                    }
                }
            }
            let mut users: Vec<u64> = Vec::new();
            users.push(u);
            groups.push((g, users));
            proof {
                let order1 = guild_order(pairs@.take(i + 1));
                assert(order1 == order0.push(g));
                assert forall|k: int|
                    0 <= k < groups@.len() implies groups@[k].0 == order1[k] && groups@[k].1@
                    == users_for(pairs@.take(i + 1), order1[k]) by {
                    if k < order0.len() {
                        assert(order1[k] == order0[k]);
                        assert(order0[k] != g) by {
                            if order0[k] == g {
                                assert(order0.contains(g));
                            }
                        }
                        assert(users_for(pairs@.take(i + 1), order0[k]) == users_for(
                            taken,
                            order0[k],
                        ));
                    } else {
                        assert(groups@[k].0 == g);
                        assert(users_for(taken, g) =~= Seq::<u64>::empty()) by {
                            lemma_users_empty_when_guild_unseen(taken, g);
                        }
                        assert(users_for(pairs@.take(i + 1), g) =~= seq![u]);
                        assert(groups@[k].1@ =~= seq![u]);
                    }
                }
            }
        }
        i = i + 1;
    }
    proof {
        assert(pairs@.take(n as int) =~= pairs@);
    }
    groups
}

proof fn lemma_guild_order_distinct(s: Seq<(u64, u64)>)
    ensures
        forall|a: int, b: int|
            0 <= a < b < guild_order(s).len() ==> guild_order(s)[a] != guild_order(s)[b],
    decreases s.len(),
{
    if s.len() > 0 {
        lemma_guild_order_distinct(s.drop_last());
        let g0 = guild_order(s.drop_last());
        if !g0.contains(s.last().0) {
            assert forall|a: int, b: int|
                0 <= a < b < guild_order(s).len() implies guild_order(s)[a] != guild_order(
                s,
            )[b] by {
                if b == g0.len() {
                    assert(guild_order(s)[a] == g0[a]);
                    if g0[a] == s.last().0 {
                        assert(g0.contains(s.last().0));
                    }
                }
            }
        }
    }
}

proof fn lemma_users_empty_when_guild_unseen(s: Seq<(u64, u64)>, g: u64)
    requires
        !guild_order(s).contains(g),
    ensures
        users_for(s, g) == Seq::<u64>::empty(),
    decreases s.len(),
{
    if s.len() > 0 {
        let g0 = guild_order(s.drop_last());
        if s.last().0 == g {
            if g0.contains(g) {
                assert(guild_order(s) == g0);
                assert(guild_order(s).contains(g));
            } else {
                assert(guild_order(s) == g0.push(g));
                assert(guild_order(s)[g0.len() as int] == g);
                assert(guild_order(s).contains(g));
            }
        } else {
            assert(!g0.contains(g)) by {
                if g0.contains(g) {
                    let w = choose|w: int| 0 <= w < g0.len() && g0[w] == g;
                    if guild_order(s) == g0 {
                        assert(guild_order(s).contains(g));
                    } else {
                        assert(guild_order(s) == g0.push(s.last().0));
                        assert(guild_order(s)[w] == g);
                        assert(guild_order(s).contains(g));
                    }
                }
            }
            lemma_users_empty_when_guild_unseen(s.drop_last(), g);
        }
    }
}

/// Wall-clock alignment for date-boundary jobs: how long to sleep from the
/// given local time of day until the next local midnight. Never zero — a
/// tick exactly at midnight waits a full day — so the job fires shortly
/// after each date change.
pub fn delay_to_next_midnight(local_seconds_of_day: u32) -> (r: u32)
    requires
        local_seconds_of_day < SECONDS_PER_DAY,
    ensures
        r == SECONDS_PER_DAY - local_seconds_of_day,
        0 < r <= SECONDS_PER_DAY,
        local_seconds_of_day + r == SECONDS_PER_DAY,
{
    SECONDS_PER_DAY - local_seconds_of_day
}

} // verus!
