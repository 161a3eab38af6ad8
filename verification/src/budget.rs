//! Budgets: their periods and resets, and which budget a workflow runs under.
//!
//! Amounts of money are carried as the bits of a double, which nothing here reads:
//! whether an amount is over a limit is told from outside.

use crate::error::OrbflowError;
use crate::text;
use crate::time;
use crate::time::Timestamp;
use vstd::prelude::*;

verus! {

/// How often a budget starts anew.
#[derive(Debug, Clone, Copy, PartialEq, Eq, Structural)]
pub enum BudgetPeriod {
    Daily,
    Weekly,
    Monthly,
}

/// A row of the `budgets` table. Amounts are the bits of a double.
#[derive(Debug)]
pub struct BudgetRow {
    pub id: String,
    pub workflow_id: Option<String>,
    pub team: Option<String>,
    pub period: String,
    pub limit_usd: u64,
    pub current_usd: u64,
    pub reset_at: Timestamp,
    pub created_at: Timestamp,
}

/// A budget. Amounts are the bits of a double.
#[derive(Debug)]
pub struct AccountBudget {
    pub id: String,
    pub workflow_id: Option<String>,
    pub team: Option<String>,
    pub period: BudgetPeriod,
    pub limit_usd: u64,
    pub current_usd: u64,
    pub reset_at: Timestamp,
    pub created_at: Timestamp,
}

/// The bits of the amount zero.
pub const ZERO_USD: u64 = 0;

/// The period with the name; any other name stands for a month.
pub open spec fn period_named(s: Seq<char>) -> BudgetPeriod {
    if s == "daily"@ {
        BudgetPeriod::Daily
    } else if s == "weekly"@ {
        BudgetPeriod::Weekly
    } else {
        BudgetPeriod::Monthly
    }
}

/// The name of a period.
pub open spec fn period_name(p: BudgetPeriod) -> Seq<char> {
    match p {
        BudgetPeriod::Daily => "daily"@,
        BudgetPeriod::Weekly => "weekly"@,
        BudgetPeriod::Monthly => "monthly"@,
    }
}

/// The period with the name.
pub fn parse_period(s: &str) -> (r: BudgetPeriod)
    ensures
        r == period_named(s@),
{
    if text::same_text(s, "daily") {
        BudgetPeriod::Daily
    } else if text::same_text(s, "weekly") {
        BudgetPeriod::Weekly
    } else {
        BudgetPeriod::Monthly
    }
}

/// The name of a period.
pub fn period_to_str(p: BudgetPeriod) -> (r: &'static str)
    ensures
        r@ == period_name(p),
{
    match p {
        BudgetPeriod::Daily => "daily",
        BudgetPeriod::Weekly => "weekly",
        BudgetPeriod::Monthly => "monthly",
    }
}

/// The reset one period after another.
pub open spec fn reset_step(t: time::Moment, period: BudgetPeriod) -> time::Moment {
    match period {
        BudgetPeriod::Daily => time::plus_days(t, 1),
        BudgetPeriod::Weekly => time::plus_days(t, 7),
        BudgetPeriod::Monthly => time::plus_month(t),
    }
}

/// The most days that a period has.
pub open spec fn longest(period: BudgetPeriod) -> int {
    match period {
        BudgetPeriod::Daily => 1,
        BudgetPeriod::Weekly => 7,
        BudgetPeriod::Monthly => 31,
    }
}

/// One period on is at least a day and at most the longest period on, at the same
/// time of day.
pub proof fn law_resets_move_on(t: time::Moment, period: BudgetPeriod)
    ensures
        t.secs + 86_400 <= reset_step(t, period).secs <= t.secs + longest(period) * 86_400,
        (reset_step(t, period).secs - t.secs) % 86_400 == 0,
{
    if period == BudgetPeriod::Monthly {
        let day = time::day_of(t.secs);
        time::lemma_month_gap(day);
        let then = reset_step(t, period);
        assert(t.secs == day * 86_400 + t.secs % 86_400);
        assert(then.secs - t.secs == (time::day_one_month_on(day) - day) * 86_400);
        assert(((time::day_one_month_on(day) - day) * 86_400) % 86_400 == 0);
    }
}

/// The first reset after `now` in the row of resets that starts at `t`, one a
/// period.
pub open spec fn next_reset(t: time::Moment, period: BudgetPeriod, now: time::Moment) -> time::Moment
    decreases
            if now.secs >= t.secs {
                now.secs - t.secs + 1
            } else {
                0
            },
{
    if time::is_after(t, now) {
        t
    } else {
        proof {
            law_resets_move_on(t, period);
        }
        next_reset(reset_step(t, period), period, now)
    }
}

/// The next reset is not before the last one, nor, where that has passed, before
/// the one a period on.
proof fn lemma_next_reset_moves_on(t: time::Moment, period: BudgetPeriod, now: time::Moment)
    ensures
        t.secs <= next_reset(t, period, now).secs,
        !time::is_after(t, now) ==> reset_step(t, period).secs <= next_reset(t, period, now).secs,
    decreases
            if now.secs >= t.secs {
                now.secs - t.secs + 1
            } else {
                0
            },
{
    if !time::is_after(t, now) {
        law_resets_move_on(t, period);
        lemma_next_reset_moves_on(reset_step(t, period), period, now);
    }
}

/// The first reset after `now` can be held by a timestamp, as the last one is.
pub open spec fn resets_fit(reset_at: time::Moment, period: BudgetPeriod, now: time::Moment) -> bool {
    time::is_moment(reset_at) && time::is_moment(next_reset(reset_at, period, now))
}

fn step_days(at: Timestamp, days: i64) -> (r: Option<Timestamp>)
    requires
        time::is_moment(at@),
        0 < days <= 7,
    ensures
        match r {
            Some(then) => then@ == time::plus_days(at@, days as int) && time::is_moment(then@),
            None => time::plus_days(at@, days as int).secs > time::MAX_SECS,
        },
{
    if at.secs > time::MAX_SECS - days * time::DAY_SECS {
        return None;
    }
    Some(time::add_days(at, days))
}

fn step_month(at: Timestamp) -> (r: Option<Timestamp>)
    requires
        time::is_moment(at@),
    ensures
        match r {
            Some(then) => then@ == time::plus_month(at@) && time::is_moment(then@),
            None => time::plus_month(at@).secs > time::MAX_SECS,
        },
{
    proof {
        law_resets_move_on(at@, BudgetPeriod::Monthly);
    }
    time::add_month(at)
}

/// The first reset after `now`, where the last one known is `reset_at`; none where
/// no timestamp can hold it.
pub fn checked_next_reset(reset_at: Timestamp, period: BudgetPeriod, now: Timestamp) -> (r: Option<
    Timestamp,
>)
    requires
        time::is_moment(reset_at@),
    ensures
        match r {
            Some(t) => t@ == next_reset(reset_at@, period, now@) && time::is_moment(t@),
            None => !time::is_moment(next_reset(reset_at@, period, now@)),
        },
{
    let mut at = reset_at;
    while !at.after(&now)
        invariant
            time::is_moment(at@),
            next_reset(reset_at@, period, now@) == next_reset(at@, period, now@),
        decreases
                if now.secs >= at.secs {
                    now.secs - at.secs + 1
                } else {
                    0
                },
    {
        proof {
            law_resets_move_on(at@, period);
            lemma_next_reset_moves_on(at@, period, now@);
        }
        let step = match period {
            BudgetPeriod::Daily => step_days(at, 1),
            BudgetPeriod::Weekly => step_days(at, 7),
            BudgetPeriod::Monthly => step_month(at),
        };
        at = match step {
            Some(then) => then,
            None => return None,
        };
    }
    Some(at)
}

/// The first reset after `now`, where the last one known is `reset_at`.
pub fn next_reset_after(reset_at: Timestamp, period: BudgetPeriod, now: Timestamp) -> (r: Timestamp)
    requires
        resets_fit(reset_at@, period, now@),
    ensures
        r@ == next_reset(reset_at@, period, now@),
        time::is_moment(r@),
{
    match checked_next_reset(reset_at, period, now) {
        Some(at) => at,
        // There is one, as it fits.
        None => reset_at,
    }
}

/// The point in time is not later than now.
pub open spec fn has_passed(t: Timestamp, now: Timestamp) -> bool {
    t.secs < now.secs || (t.secs == now.secs && t.nanos <= now.nanos)
}

/// The row, rolled over where its period has ended by `now`: nothing spent, and
/// the next reset after `now`.
pub open spec fn is_rolled_over(before: BudgetRow, after: BudgetRow, now: time::Moment) -> bool {
    &&& after.id == before.id
    &&& after.workflow_id == before.workflow_id
    &&& after.team == before.team
    &&& after.period == before.period
    &&& after.limit_usd == before.limit_usd
    &&& after.created_at == before.created_at
    &&& after.reset_at@ == next_reset(before.reset_at@, period_named(before.period@), now)
    &&& after.current_usd == if time::is_after(before.reset_at@, now) {
        before.current_usd
    } else {
        ZERO_USD
    }
}

/// Rolls the row over where its period has ended by `now`, and tells whether it
/// did, in which case the table is to be told the new reset.
pub fn rollover_if_expired(row: &mut BudgetRow, now: Timestamp) -> (r: bool)
    requires
        resets_fit(old(row).reset_at@, period_named(old(row).period@), now@),
    ensures
        r == !time::is_after(old(row).reset_at@, now@),
        is_rolled_over(*old(row), *final(row), now@),
        has_passed(old(row).reset_at, now) ==> final(row).current_usd == ZERO_USD,
        !has_passed(old(row).reset_at, now) ==> final(row).current_usd == old(row).current_usd
            && final(row).reset_at == old(row).reset_at,
        r <==> has_passed(old(row).reset_at, now),
        !has_passed(final(row).reset_at, now),
        final(row).limit_usd == old(row).limit_usd,
{
    proof {
        law_next_reset_is_due(row.reset_at@, period_named(row.period@), now@);
    }
    if row.reset_at.after(&now) {
        return false;
    }
    let next = next_reset_after(row.reset_at, parse_period(row.period.as_str()), now);
    row.current_usd = ZERO_USD;
    row.reset_at = next;
    true
}

/// The resets of every row can be held by a timestamp.
pub open spec fn all_resets_fit(rows: Seq<BudgetRow>, now: time::Moment) -> bool {
    forall|i: int|
        0 <= i < rows.len() ==> resets_fit(
            (#[trigger] rows[i]).reset_at@,
            period_named(rows[i].period@),
            now,
        )
}

/// Whether the resets of every row can be held by a timestamp.
pub fn resets_can_be_held(rows: &Vec<BudgetRow>, now: Timestamp) -> (r: bool)
    requires
        forall|i: int| 0 <= i < rows@.len() ==> time::is_moment((#[trigger] rows@[i]).reset_at@),
    ensures
        r == all_resets_fit(rows@, now@),
{
    let mut i: usize = 0;
    while i < rows.len()
        invariant
            i <= rows.len(),
            forall|j: int|
                0 <= j < rows@.len() ==> time::is_moment((#[trigger] rows@[j]).reset_at@),
            forall|j: int|
                0 <= j < i ==> resets_fit(
                    (#[trigger] rows@[j]).reset_at@,
                    period_named(rows@[j].period@),
                    now@,
                ),
        decreases rows.len() - i,
    {
        let period = parse_period(rows[i].period.as_str());
        if checked_next_reset(rows[i].reset_at, period, now).is_none() {
            assert(!resets_fit(rows@[i as int].reset_at@, period, now@));
            return false;
        }
        i += 1;
    }
    true
}

/// Rolls over the rows whose period has ended by `now`, and returns their
/// positions.
pub fn rollover_all(rows: &mut Vec<BudgetRow>, now: Timestamp) -> (r: Vec<usize>)
    requires
        all_resets_fit(old(rows)@, now@),
    ensures
        final(rows)@.len() == old(rows)@.len(),
        forall|i: int|
            0 <= i < old(rows)@.len() ==> is_rolled_over(
                old(rows)@[i],
                #[trigger] final(rows)@[i],
                now@,
            ),
        r@ == expired_positions(old(rows)@, now@),
        forall|i: int|
            0 <= i < old(rows)@.len() ==> (has_passed(old(rows)@[i].reset_at, now)
                ==> (#[trigger] final(rows)@[i]).current_usd == ZERO_USD),
        forall|i: int|
            0 <= i < old(rows)@.len() ==> (!has_passed(old(rows)@[i].reset_at, now)
                ==> (#[trigger] final(rows)@[i]).current_usd == old(rows)@[i].current_usd),
{
    let mut rolled: Vec<usize> = Vec::new();
    let mut i: usize = 0;
    assert(rolled@ =~= expired_positions(rows@.take(0), now@));
    while i < rows.len()
        invariant
            i <= rows.len(),
            rows@.len() == old(rows)@.len(),
            all_resets_fit(old(rows)@, now@),
            forall|j: int|
                0 <= j < i ==> is_rolled_over(old(rows)@[j], #[trigger] rows@[j], now@),
            forall|j: int|
                0 <= j < i ==> (has_passed(old(rows)@[j].reset_at, now)
                    ==> (#[trigger] rows@[j]).current_usd == ZERO_USD),
            forall|j: int|
                0 <= j < i ==> (!has_passed(old(rows)@[j].reset_at, now)
                    ==> (#[trigger] rows@[j]).current_usd == old(rows)@[j].current_usd),
            forall|j: int| i <= j < rows@.len() ==> rows@[j] == old(rows)@[j],
            rolled@ == expired_positions(old(rows)@.take(i as int), now@),
        decreases rows.len() - i,
    {
        assert(old(rows)@.take(i + 1).drop_last() =~= old(rows)@.take(i as int));
        assert(rows@[i as int] == old(rows)@[i as int]);
        if rollover_if_expired(&mut rows[i], now) {
            rolled.push(i);
        }
        i += 1;
    }
    assert(old(rows)@.take(old(rows)@.len() as int) =~= old(rows)@);
    rolled
}

/// The positions of the rows whose period has ended by `now`.
pub open spec fn expired_positions(rows: Seq<BudgetRow>, now: time::Moment) -> Seq<usize>
    decreases rows.len(),
{
    if rows.len() == 0 {
        Seq::empty()
    } else {
        let before = expired_positions(rows.drop_last(), now);
        if time::is_after(rows.last().reset_at@, now) {
            before
        } else {
            before.push((rows.len() - 1) as usize)
        }
    }
}

/// The budget is the one in the row.
pub open spec fn is_budget_of(b: AccountBudget, row: BudgetRow) -> bool {
    &&& b.id@ == row.id@
    &&& text::opt_text(b.workflow_id) == text::opt_text(row.workflow_id)
    &&& text::opt_text(b.team) == text::opt_text(row.team)
    &&& b.period == period_named(row.period@)
    &&& b.limit_usd == row.limit_usd
    &&& b.current_usd == row.current_usd
    &&& b.reset_at == row.reset_at
    &&& b.created_at == row.created_at
}

/// The budget in a row.
pub fn row_to_budget(row: &BudgetRow) -> (r: AccountBudget)
    ensures
        is_budget_of(r, *row),
{
    AccountBudget {
        id: row.id.clone(),
        workflow_id: text::copy_opt(&row.workflow_id),
        team: text::copy_opt(&row.team),
        period: parse_period(row.period.as_str()),
        limit_usd: row.limit_usd,
        current_usd: row.current_usd,
        reset_at: row.reset_at,
        created_at: row.created_at,
    }
}

/// What became of a row that was written.
#[derive(Debug)]
pub enum WriteOutcome {
    Done,
    /// A row with that id is there already.
    UniqueViolation,
    Failed(String),
}

fn database_error(what: &str, id: &str, cause: &str) -> (r: OrbflowError)
    ensures
        r matches OrbflowError::Database(e) && e@ == "postgres: "@ + what@ + " '"@ + id@ + "': "@
            + cause@,
{
    let mut e = "postgres: ".to_owned();
    e.append(what);
    e.append(" '");
    e.append(id);
    e.append("': ");
    e.append(cause);
    OrbflowError::Database(e)
}

/// What the creation of a budget returns, given what became of its row.
pub fn create_budget(id: &str, outcome: WriteOutcome) -> (r: Result<(), OrbflowError>)
    ensures
        match outcome {
            WriteOutcome::Done => r is Ok,
            WriteOutcome::UniqueViolation => r matches Err(OrbflowError::AlreadyExists),
            WriteOutcome::Failed(cause) => r matches Err(OrbflowError::Database(e)) && e@
                == "postgres: "@ + "create budget"@ + " '"@ + id@ + "': "@ + cause@,
        },
{
    match outcome {
        WriteOutcome::Done => Ok(()),
        WriteOutcome::UniqueViolation => Err(OrbflowError::AlreadyExists),
        WriteOutcome::Failed(cause) => Err(database_error("create budget", id, cause.as_str())),
    }
}

/// What the read of a budget returns, given its row, if there is one.
pub fn get_budget(id: &str, fetched: Result<Option<BudgetRow>, String>) -> (r: Result<
    AccountBudget,
    OrbflowError,
>)
    ensures
        match fetched {
            Ok(Some(row)) => r matches Ok(b) && is_budget_of(b, row),
            Ok(None) => r matches Err(OrbflowError::NotFound),
            Err(cause) => r matches Err(OrbflowError::Database(e)) && e@ == "postgres: "@
                + "get budget"@ + " '"@ + id@ + "': "@ + cause@,
        },
{
    match fetched {
        Ok(Some(row)) => Ok(row_to_budget(&row)),
        Ok(None) => Err(OrbflowError::NotFound),
        Err(cause) => Err(database_error("get budget", id, cause.as_str())),
    }
}

/// What the list of budgets returns, given the rows.
pub fn list_budgets(fetched: Result<Vec<BudgetRow>, String>) -> (r: Result<
    Vec<AccountBudget>,
    OrbflowError,
>)
    ensures
        match fetched {
            Ok(rows) => r matches Ok(budgets) && budgets@.len() == rows@.len() && forall|i: int|
                0 <= i < rows@.len() ==> is_budget_of(#[trigger] budgets@[i], rows@[i]),
            Err(cause) => r matches Err(OrbflowError::Database(e)) && e@ == "postgres: "@
                + "list budgets: "@ + cause@,
        },
{
    let rows = match fetched {
        Ok(rows) => rows,
        Err(cause) => {
            let mut e = "postgres: ".to_owned();
            e.append("list budgets: ");
            e.append(cause.as_str());
            return Err(OrbflowError::Database(e));
        },
    };
    let mut budgets: Vec<AccountBudget> = Vec::new();
    let mut i: usize = 0;
    while i < rows.len()
        invariant
            i <= rows.len(),
            budgets@.len() == i,
            forall|j: int| 0 <= j < i ==> is_budget_of(#[trigger] budgets@[j], rows@[j]),
        decreases rows.len() - i,
    {
        budgets.push(row_to_budget(&rows[i]));
        i += 1;
    }
    Ok(budgets)
}

/// `r` is what a write of existing rows returns: an error where none was there.
pub open spec fn found_or_error(
    r: Result<(), OrbflowError>,
    what: Seq<char>,
    id: Seq<char>,
    affected: Result<u64, String>,
) -> bool {
    match affected {
        Ok(rows) => if rows == 0 {
            r matches Err(OrbflowError::NotFound)
        } else {
            r is Ok
        },
        Err(cause) => r matches Err(OrbflowError::Database(e)) && e@ == "postgres: "@ + what + " '"@
            + id + "': "@ + cause@,
    }
}

fn found(what: &str, id: &str, affected: Result<u64, String>) -> (r: Result<(), OrbflowError>)
    ensures
        found_or_error(r, what@, id@, affected),
{
    match affected {
        Ok(rows) => if rows == 0 {
            Err(OrbflowError::NotFound)
        } else {
            Ok(())
        },
        Err(cause) => Err(database_error(what, id, cause.as_str())),
    }
}

/// What the update of a budget returns, given how many rows it affected.
pub fn update_budget(id: &str, affected: Result<u64, String>) -> (r: Result<(), OrbflowError>)
    ensures
        found_or_error(r, "update budget"@, id@, affected),
{
    found("update budget", id, affected)
}

/// What the deletion of a budget returns, given how many rows it affected.
pub fn delete_budget(id: &str, affected: Result<u64, String>) -> (r: Result<(), OrbflowError>)
    ensures
        found_or_error(r, "delete budget"@, id@, affected),
{
    found("delete budget", id, affected)
}

/// The row is the workflow's own, and not one for every workflow.
pub open spec fn is_specific(row: BudgetRow, workflow_id: Seq<char>) -> bool {
    text::opt_text(row.workflow_id) == Some(workflow_id)
}

/// The row at `i` goes before that at `j`: one that is exceeded before one that is
/// not; then the workflow's own before one for every workflow; then the older;
/// then the one that stands first.
pub open spec fn goes_before(
    rows: Seq<BudgetRow>,
    exceeded: Seq<bool>,
    workflow_id: Seq<char>,
    i: int,
    j: int,
) -> bool {
    if exceeded[i] != exceeded[j] {
        exceeded[i]
    } else if is_specific(rows[i], workflow_id) != is_specific(rows[j], workflow_id) {
        is_specific(rows[i], workflow_id)
    } else if rows[i].created_at@ != rows[j].created_at@ {
        time::is_after(rows[j].created_at@, rows[i].created_at@)
    } else {
        i < j
    }
}

/// The row at `i` goes before every other.
pub open spec fn is_first(
    rows: Seq<BudgetRow>,
    exceeded: Seq<bool>,
    workflow_id: Seq<char>,
    i: int,
) -> bool {
    &&& 0 <= i < rows.len()
    &&& forall|j: int|
        0 <= j < rows.len() && j != i ==> #[trigger] goes_before(rows, exceeded, workflow_id, i, j)
}

fn specific(row: &BudgetRow, workflow_id: &str) -> (r: bool)
    ensures
        r == is_specific(*row, workflow_id@),
{
    match &row.workflow_id {
        Some(id) => text::same_text(id.as_str(), workflow_id),
        None => false,
    }
}

fn comes_first(
    a: &BudgetRow,
    a_exceeded: bool,
    b: &BudgetRow,
    b_exceeded: bool,
    workflow_id: &str,
) -> (r: bool)
    ensures
        r == if a_exceeded != b_exceeded {
            a_exceeded
        } else if is_specific(*a, workflow_id@) != is_specific(*b, workflow_id@) {
            is_specific(*a, workflow_id@)
        } else {
            time::is_after(b.created_at@, a.created_at@)
        },
{
    if a_exceeded != b_exceeded {
        return a_exceeded;
    }
    let a_specific = specific(a, workflow_id);
    if a_specific != specific(b, workflow_id) {
        return a_specific;
    }
    b.created_at.after(&a.created_at)
}

/// The position of the row that goes before every other, given which rows are
/// exceeded.
pub fn first_budget(rows: &Vec<BudgetRow>, exceeded: &Vec<bool>, workflow_id: &str) -> (r: Option<
    usize,
>)
    requires
        exceeded@.len() == rows@.len(),
    ensures
        match r {
            Some(i) => is_first(rows@, exceeded@, workflow_id@, i as int),
            None => rows@.len() == 0,
        },
{
    if rows.len() == 0 {
        return None;
    }
    let mut first: usize = 0;
    let mut i: usize = 1;
    while i < rows.len()
        invariant
            first < i <= rows.len(),
            exceeded@.len() == rows@.len(),
            forall|j: int|
                0 <= j < i && j != first ==> #[trigger] goes_before(
                    rows@,
                    exceeded@,
                    workflow_id@,
                    first as int,
                    j,
                ),
        decreases rows.len() - i,
    {
        let ghost was = first as int;
        if comes_first(&rows[i], exceeded[i], &rows[first], exceeded[first], workflow_id) {
            first = i;
            assert forall|j: int| 0 <= j < i + 1 && j != first implies #[trigger] goes_before(
                rows@,
                exceeded@,
                workflow_id@,
                first as int,
                j,
            ) by {
                assert(j != was ==> goes_before(rows@, exceeded@, workflow_id@, was, j));
            }
        }
        i += 1;
    }
    Some(first)
}

/// The budget that a workflow runs under, out of those that apply to it and were
/// rolled over, given which of them are exceeded: the first of them.
pub fn check_budget(rows: &Vec<BudgetRow>, exceeded: &Vec<bool>, workflow_id: &str) -> (r: Option<
    AccountBudget,
>)
    requires
        exceeded@.len() == rows@.len(),
    ensures
        match r {
            Some(b) => exists|i: int|
                #[trigger] is_first(rows@, exceeded@, workflow_id@, i) && is_budget_of(b, rows@[i]),
            None => rows@.len() == 0,
        },
{
    match first_budget(rows, exceeded, workflow_id) {
        Some(i) => {
            assert(is_first(rows@, exceeded@, workflow_id@, i as int));
            Some(row_to_budget(&rows[i]))
        },
        None => None,
    }
}

/// What adding a cost to a budget comes to. The total is the bits of a double, and
/// the texts are the amounts before, as they are shown.
#[derive(Debug)]
pub struct RowCost {
    /// The budget would go over its limit.
    pub would_exceed: bool,
    pub total_usd: u64,
    pub current_text: String,
    pub limit_text: String,
}

/// A change of a row: what is spent, and the next reset.
#[derive(Debug)]
pub struct BudgetUpdate {
    pub id: String,
    pub current_usd: u64,
    pub reset_at: Timestamp,
}

/// The update gives the row the total that the cost comes to.
pub open spec fn is_update_of(update: BudgetUpdate, row: BudgetRow, cost: RowCost) -> bool {
    &&& update.id@ == row.id@
    &&& update.current_usd == cost.total_usd
    &&& update.reset_at == row.reset_at
}

/// The budget at `i` is the first that would go over its limit.
pub open spec fn first_refusing(costs: Seq<RowCost>, i: int) -> bool {
    &&& 0 <= i < costs.len()
    &&& costs[i].would_exceed
    &&& forall|j: int| 0 <= j < i ==> !(#[trigger] costs[j]).would_exceed
}

/// What is said of a cost that a budget refuses.
pub open spec fn exceeded_text(
    workflow_id: Seq<char>,
    budget_id: Seq<char>,
    cost: Seq<char>,
    current: Seq<char>,
    limit: Seq<char>,
) -> Seq<char> {
    "Budget exceeded for workflow "@ + workflow_id + " by budget "@ + budget_id
        + " (attempted to add $"@ + cost + ": $"@ + current + " / $"@ + limit + ")"@
}

fn budget_exceeded(
    workflow_id: &str,
    budget_id: &str,
    cost: &str,
    current: &str,
    limit: &str,
) -> (r: OrbflowError)
    ensures
        r matches OrbflowError::BudgetExceeded(e) && e@ == exceeded_text(
            workflow_id@,
            budget_id@,
            cost@,
            current@,
            limit@,
        ),
{
    let mut e = "Budget exceeded for workflow ".to_owned();
    e.append(workflow_id);
    e.append(" by budget ");
    e.append(budget_id);
    e.append(" (attempted to add $");
    e.append(cost);
    e.append(": $");
    e.append(current);
    e.append(" / $");
    e.append(limit);
    e.append(")");
    OrbflowError::BudgetExceeded(e)
}

/// The updates that add a cost to the budgets of a workflow, which were rolled
/// over, given what adding it comes to for each: one for every budget, or none and
/// an error where one of them would go over its limit.
pub fn increment_cost(
    rows: &Vec<BudgetRow>,
    costs: &Vec<RowCost>,
    workflow_id: &str,
    cost_text: &str,
) -> (r: Result<Vec<BudgetUpdate>, OrbflowError>)
    requires
        costs@.len() == rows@.len(),
    ensures
        match r {
            Ok(updates) => {
                &&& forall|j: int| 0 <= j < costs@.len() ==> !(#[trigger] costs@[j]).would_exceed
                &&& updates@.len() == rows@.len()
                &&& forall|j: int|
                    0 <= j < rows@.len() ==> is_update_of(
                        #[trigger] updates@[j],
                        rows@[j],
                        costs@[j],
                    )
            },
            Err(OrbflowError::BudgetExceeded(e)) => exists|i: int|
                {
                    &&& #[trigger] first_refusing(costs@, i)
                    &&& e@ == exceeded_text(
                        workflow_id@,
                        rows@[i].id@,
                        cost_text@,
                        costs@[i].current_text@,
                        costs@[i].limit_text@,
                    )
                },
            Err(_) => false,
        },
{
    let mut updates: Vec<BudgetUpdate> = Vec::new();
    let mut i: usize = 0;
    while i < rows.len()
        invariant
            i <= rows.len(),
            costs@.len() == rows@.len(),
            forall|j: int| 0 <= j < i ==> !(#[trigger] costs@[j]).would_exceed,
            updates@.len() == i,
            forall|j: int|
                0 <= j < i ==> is_update_of(#[trigger] updates@[j], rows@[j], costs@[j]),
        decreases rows.len() - i,
    {
        if costs[i].would_exceed {
            assert(first_refusing(costs@, i as int));
            return Err(
                budget_exceeded(
                    workflow_id,
                    rows[i].id.as_str(),
                    cost_text,
                    costs[i].current_text.as_str(),
                    costs[i].limit_text.as_str(),
                ),
            );
        }
        updates.push(
            BudgetUpdate {
                id: rows[i].id.clone(),
                current_usd: costs[i].total_usd,
                reset_at: rows[i].reset_at,
            },
        );
        i += 1;
    }
    Ok(updates)
}

/// Work on the table that can fail.
#[derive(Debug)]
pub enum BudgetWork {
    /// Beginning a transaction.
    Begin,
    /// Locking the budgets of a workflow.
    Lock { workflow_id: String },
    /// Rolling over a budget.
    RollOver { id: String },
    /// Adding a cost to a budget on behalf of a workflow.
    Increment { id: String, workflow_id: String },
    /// Committing a transaction.
    Commit,
}

/// What the work is called.
pub open spec fn work_text(work: BudgetWork) -> Seq<char> {
    match work {
        BudgetWork::Begin => "begin budget tx"@,
        BudgetWork::Lock { workflow_id } => "lock budgets for workflow '"@ + workflow_id@ + "'"@,
        BudgetWork::RollOver { id } => "roll over budget '"@ + id@ + "'"@,
        BudgetWork::Increment { id, workflow_id } => "increment cost for budget '"@ + id@
            + "' on workflow '"@ + workflow_id@ + "'"@,
        BudgetWork::Commit => "commit budget tx"@,
    }
}

/// The error of work that failed for this cause.
pub fn work_error(work: &BudgetWork, cause: &str) -> (r: OrbflowError)
    ensures
        r matches OrbflowError::Database(e) && e@ == "postgres: "@ + work_text(*work) + ": "@
            + cause@,
{
    let mut e = "postgres: ".to_owned();
    match work {
        BudgetWork::Begin => {
            e.append("begin budget tx");
        },
        BudgetWork::Lock { workflow_id } => {
            e.append("lock budgets for workflow '");
            e.append(workflow_id.as_str());
            e.append("'");
        },
        BudgetWork::RollOver { id } => {
            e.append("roll over budget '");
            e.append(id.as_str());
            e.append("'");
        },
        BudgetWork::Increment { id, workflow_id } => {
            e.append("increment cost for budget '");
            e.append(id.as_str());
            e.append("' on workflow '");
            e.append(workflow_id.as_str());
            e.append("'");
        },
        BudgetWork::Commit => {
            e.append("commit budget tx");
        },
    }
    assert(e@ =~= "postgres: "@ + work_text(*work));
    e.append(": ");
    e.append(cause);
    OrbflowError::Database(e)
}

/// A period reads back from its name.
pub proof fn law_period_name_reads_back(p: BudgetPeriod)
    ensures
        period_named(period_name(p)) == p,
{
    reveal_strlit("daily");
    reveal_strlit("weekly");
    reveal_strlit("monthly");
    assert("daily"@.len() != "weekly"@.len());
    assert("daily"@.len() != "monthly"@.len());
    assert("weekly"@.len() != "monthly"@.len());
}

/// The next reset is always after now, at the time of day of the last one, and
/// not more than the longest period after now where the last one had passed.
pub proof fn law_next_reset_is_due(t: time::Moment, period: BudgetPeriod, now: time::Moment)
    ensures
        time::is_after(next_reset(t, period, now), now),
        (next_reset(t, period, now).secs - t.secs) % 86_400 == 0,
        !time::is_after(t, now) ==> next_reset(t, period, now).secs <= now.secs + longest(period)
            * 86_400,
        time::is_after(t, now) ==> next_reset(t, period, now) == t,
    decreases
            if now.secs >= t.secs {
                now.secs - t.secs + 1
            } else {
                0
            },
{
    if !time::is_after(t, now) {
        law_resets_move_on(t, period);
        law_next_reset_is_due(reset_step(t, period), period, now);
    }
}

/// A row that was rolled over is not rolled over again at the same time.
pub proof fn law_rollover_happens_once(a: BudgetRow, b: BudgetRow, c: BudgetRow, now: time::Moment)
    requires
        is_rolled_over(a, b, now),
        is_rolled_over(b, c, now),
    ensures
        c.reset_at@ == b.reset_at@,
        c.current_usd == b.current_usd,
{
    law_next_reset_is_due(a.reset_at@, period_named(a.period@), now);
}

/// An exceeded budget is never hidden by one that is not: the budget that a
/// workflow runs under is exceeded where any of its budgets is.
pub proof fn law_exceeded_budget_prevails(
    rows: Seq<BudgetRow>,
    exceeded: Seq<bool>,
    workflow_id: Seq<char>,
    i: int,
    j: int,
)
    requires
        exceeded.len() == rows.len(),
        is_first(rows, exceeded, workflow_id, i),
        0 <= j < rows.len(),
        exceeded[j],
    ensures
        exceeded[i],
{
    if i != j {
        assert(goes_before(rows, exceeded, workflow_id, i, j));
    }
}

/// Only one row goes before every other.
pub proof fn law_first_budget_is_unique(
    rows: Seq<BudgetRow>,
    exceeded: Seq<bool>,
    workflow_id: Seq<char>,
    i: int,
    j: int,
)
    requires
        exceeded.len() == rows.len(),
        is_first(rows, exceeded, workflow_id, i),
        is_first(rows, exceeded, workflow_id, j),
    ensures
        i == j,
{
    if i != j {
        assert(goes_before(rows, exceeded, workflow_id, i, j));
        assert(goes_before(rows, exceeded, workflow_id, j, i));
    }
}

/// Whatever its period, a budget whose reset has passed goes on with nothing spent
/// and a reset that is yet to come; one whose reset has not passed is left alone.
/// The limit, the period and whom the budget is for stay as they are.
pub proof fn law_rollover_starts_with_nothing_spent(
    before: BudgetRow,
    after: BudgetRow,
    now: Timestamp,
)
    requires
        is_rolled_over(before, after, now@),
    ensures
        has_passed(before.reset_at, now) ==> after.current_usd == 0,
        !has_passed(before.reset_at, now) ==> after.current_usd == before.current_usd
            && after.reset_at == before.reset_at,
        !has_passed(after.reset_at, now),
        after.limit_usd == before.limit_usd,
        after.id == before.id,
        after.workflow_id == before.workflow_id,
        after.team == before.team,
        after.period == before.period,
        after.created_at == before.created_at,
{
    law_next_reset_is_due(before.reset_at@, period_named(before.period@), now@);
}

/// A day is a day on, a week is seven days on, and a month is the same day of the
/// next month, or its last where it has no such day; each at the same time of day.
pub proof fn law_periods_have_their_length(t: time::Moment)
    requires
        0 <= t.nanos < 1_000_000_000,
    ensures
        reset_step(t, BudgetPeriod::Daily).secs == t.secs + 86_400,
        reset_step(t, BudgetPeriod::Weekly).secs == t.secs + 604_800,
        time::date_of(time::day_of(reset_step(t, BudgetPeriod::Monthly).secs)) == time::next_month(
            time::date_of(time::day_of(t.secs)),
        ),
        reset_step(t, BudgetPeriod::Monthly).secs % 86_400 == t.secs % 86_400,
        reset_step(t, BudgetPeriod::Daily).nanos == t.nanos,
        reset_step(t, BudgetPeriod::Weekly).nanos == t.nanos,
        reset_step(t, BudgetPeriod::Monthly).nanos == t.nanos,
{
    let day = time::day_of(t.secs);
    time::lemma_day_has_date(day);
    time::law_month_on_keeps_the_day(time::date_of(day));
    let on = time::day_one_month_on(day);
    assert((on * 86_400 + t.secs % 86_400) / 86_400 == on);
    assert((on * 86_400 + t.secs % 86_400) % 86_400 == t.secs % 86_400);
}

/// The next reset is the first, period by period, that has not passed.
pub proof fn law_next_reset_goes_period_by_period(
    t: time::Moment,
    period: BudgetPeriod,
    now: time::Moment,
)
    ensures
        t.secs > now.secs || (t.secs == now.secs && t.nanos > now.nanos) ==> next_reset(
            t,
            period,
            now,
        ) == t,
        t.secs < now.secs || (t.secs == now.secs && t.nanos <= now.nanos) ==> next_reset(
            t,
            period,
            now,
        ) == next_reset(reset_step(t, period), period, now),
{
    law_resets_move_on(t, period);
}

/// Periods go by their names, and any other name stands for a month.
pub proof fn law_periods_go_by_their_names(name: Seq<char>)
    ensures
        period_named("daily"@) == BudgetPeriod::Daily,
        period_named("weekly"@) == BudgetPeriod::Weekly,
        name != "daily"@ && name != "weekly"@ ==> period_named(name) == BudgetPeriod::Monthly,
        period_name(BudgetPeriod::Daily) == "daily"@,
        period_name(BudgetPeriod::Weekly) == "weekly"@,
        period_name(BudgetPeriod::Monthly) == "monthly"@,
{
    reveal_strlit("daily");
    reveal_strlit("weekly");
    assert("daily"@.len() != "weekly"@.len());
}

/// One more row adds its position exactly where its reset has passed.
pub proof fn law_expired_rows_are_listed(rows: Seq<BudgetRow>, row: BudgetRow, now: Timestamp)
    ensures
        expired_positions(Seq::<BudgetRow>::empty(), now@).len() == 0,
        has_passed(row.reset_at, now) ==> expired_positions(rows.push(row), now@)
            == expired_positions(rows, now@).push(rows.len() as usize),
        !has_passed(row.reset_at, now) ==> expired_positions(rows.push(row), now@)
            == expired_positions(rows, now@),
{
    assert(rows.push(row).drop_last() =~= rows);
}

/// The resets of rows can be held exactly where that of each row can.
pub proof fn law_resets_fit_row_by_row(rows: Seq<BudgetRow>, i: int, now: time::Moment)
    requires
        all_resets_fit(rows, now),
        0 <= i < rows.len(),
    ensures
        time::is_moment(rows[i].reset_at@),
        time::is_moment(next_reset(rows[i].reset_at@, period_named(rows[i].period@), now)),
{
}

/// A budget is what its row holds.
pub proof fn law_budget_is_what_its_row_holds(b: AccountBudget, row: BudgetRow)
    requires
        is_budget_of(b, row),
    ensures
        b.id@ == row.id@,
        b.workflow_id is Some <==> row.workflow_id is Some,
        b.workflow_id is Some ==> b.workflow_id->0@ == row.workflow_id->0@,
        b.team is Some <==> row.team is Some,
        b.team is Some ==> b.team->0@ == row.team->0@,
        b.limit_usd == row.limit_usd,
        b.current_usd == row.current_usd,
        b.reset_at == row.reset_at,
        b.created_at == row.created_at,
        row.period@ == "daily"@ ==> b.period == BudgetPeriod::Daily,
        row.period@ == "weekly"@ ==> b.period == BudgetPeriod::Weekly,
        row.period@ == "monthly"@ ==> b.period == BudgetPeriod::Monthly,
{
    law_periods_go_by_their_names(row.period@);
    law_period_name_reads_back(BudgetPeriod::Monthly);
}

/// A write is good where it touched a row, says that there is none where it touched
/// none, and else why it failed.
pub proof fn law_writes_need_a_row(
    r: Result<(), OrbflowError>,
    what: Seq<char>,
    id: Seq<char>,
    affected: Result<u64, String>,
)
    requires
        found_or_error(r, what, id, affected),
    ensures
        affected matches Ok(n) ==> (n > 0 <==> r is Ok),
        affected matches Ok(n) ==> (n == 0 ==> r is Err && r->Err_0 is NotFound),
        affected matches Err(cause) ==> r is Err && r->Err_0 is Database && r->Err_0->Database_0@
            == "postgres: "@ + what + " '"@ + id + "': "@ + cause@,
{
}

/// The row is for this workflow alone.
pub open spec fn is_own(row: BudgetRow, workflow_id: Seq<char>) -> bool {
    row.workflow_id matches Some(id) && id@ == workflow_id
}

/// The budget that a workflow runs under is exceeded where any is; among those that
/// are alike in that it is the workflow's own where any is; among those that are
/// alike in that too it is the oldest; and else the one that stands first.
pub proof fn law_first_budget_is_the_strictest(
    rows: Seq<BudgetRow>,
    exceeded: Seq<bool>,
    workflow_id: Seq<char>,
    i: int,
    j: int,
)
    requires
        exceeded.len() == rows.len(),
        is_first(rows, exceeded, workflow_id, i),
        0 <= j < rows.len(),
    ensures
        exceeded[j] ==> exceeded[i],
        exceeded[i] == exceeded[j] && is_own(rows[j], workflow_id) ==> is_own(rows[i], workflow_id),
        exceeded[i] == exceeded[j] && is_own(rows[i], workflow_id) == is_own(rows[j], workflow_id)
            ==> has_passed(rows[i].created_at, rows[j].created_at),
        exceeded[i] == exceeded[j] && is_own(rows[i], workflow_id) == is_own(rows[j], workflow_id)
            && rows[i].created_at == rows[j].created_at ==> i <= j,
{
    if i != j {
        assert(goes_before(rows, exceeded, workflow_id, i, j));
    }
}

/// A cost is added to each budget alike: what is spent is the new total, and the
/// reset stays.
pub proof fn law_costs_are_added_to_their_budget(
    update: BudgetUpdate,
    row: BudgetRow,
    cost: RowCost,
)
    requires
        is_update_of(update, row, cost),
    ensures
        update.id@ == row.id@,
        update.current_usd == cost.total_usd,
        update.reset_at == row.reset_at,
{
}

/// The budget that refuses a cost would go over its limit, and none before it would.
pub proof fn law_first_exceeded_budget_refuses(costs: Seq<RowCost>, i: int, j: int)
    requires
        first_refusing(costs, i),
        0 <= j < i,
    ensures
        i < costs.len(),
        costs[i].would_exceed,
        !costs[j].would_exceed,
{
    assert(!costs[j].would_exceed);
}

/// A refusal names the workflow, the budget, the cost, what was spent and the limit.
pub proof fn law_refusal_names_the_budget(
    workflow_id: Seq<char>,
    budget_id: Seq<char>,
    cost: Seq<char>,
    current: Seq<char>,
    limit: Seq<char>,
)
    ensures
        exceeded_text(workflow_id, budget_id, cost, current, limit)
            == "Budget exceeded for workflow "@ + workflow_id + " by budget "@ + budget_id
            + " (attempted to add $"@ + cost + ": $"@ + current + " / $"@ + limit + ")"@,
{
}

/// What is said of work that failed: what was to be done, with the budget and the
/// workflow that it was done for.
pub proof fn law_failed_work_is_named(id: String, workflow_id: String)
    ensures
        work_text(BudgetWork::Begin) == "begin budget tx"@,
        work_text(BudgetWork::Lock { workflow_id }) == "lock budgets for workflow '"@ + workflow_id@
            + "'"@,
        work_text(BudgetWork::RollOver { id }) == "roll over budget '"@ + id@ + "'"@,
        work_text(BudgetWork::Increment { id, workflow_id }) == "increment cost for budget '"@ + id@
            + "' on workflow '"@ + workflow_id@ + "'"@,
        work_text(BudgetWork::Commit) == "commit budget tx"@,
{
}

/// A row that is before each other in this order is the first: exceeded before not
/// exceeded, the workflow's own before one for every workflow, the older before the
/// younger, and else by place.
pub proof fn law_strictest_budget_is_the_first(
    rows: Seq<BudgetRow>,
    exceeded: Seq<bool>,
    workflow_id: Seq<char>,
    i: int,
)
    requires
        exceeded.len() == rows.len(),
        0 <= i < rows.len(),
        forall|j: int|
            #![trigger rows[j]]
            0 <= j < rows.len() && j != i ==> {
                let own = is_own(rows[j], workflow_id);
                ||| exceeded[i] && !exceeded[j]
                ||| exceeded[i] == exceeded[j] && is_own(rows[i], workflow_id) && !own
                ||| exceeded[i] == exceeded[j] && is_own(rows[i], workflow_id) == own && has_passed(
                    rows[i].created_at,
                    rows[j].created_at,
                ) && (i < j || rows[i].created_at@ != rows[j].created_at@)
            },
    ensures
        is_first(rows, exceeded, workflow_id, i),
{
    assert forall|j: int| 0 <= j < rows.len() && j != i implies #[trigger] goes_before(
        rows,
        exceeded,
        workflow_id,
        i,
        j,
    ) by {
        let other = rows[j];
    }
}

/// The first cost that would exceed its budget is the one that refuses.
pub proof fn law_budget_before_all_that_exceed_refuses(costs: Seq<RowCost>, i: int)
    requires
        0 <= i < costs.len(),
        costs[i].would_exceed,
        forall|j: int| 0 <= j < i ==> !(#[trigger] costs[j]).would_exceed,
    ensures
        first_refusing(costs, i),
{
}

} // verus!
