use orbflow::budget::{
    check_budget, checked_next_reset, create_budget, delete_budget, first_budget, get_budget, increment_cost,
    list_budgets, next_reset_after, parse_period, period_to_str, resets_can_be_held, rollover_all,
    rollover_if_expired, update_budget, work_error, BudgetPeriod, BudgetRow, BudgetWork, RowCost, WriteOutcome,
    ZERO_USD,
};
use orbflow::error::OrbflowError;
use orbflow::time::{Timestamp, MAX_DAY, MAX_SECS, MIN_SECS};

fn at(secs: i64) -> Timestamp {
    Timestamp { secs, nanos: 5 }
}

/// Midnight of a date.
fn date(y: i32, m: u32, d: u32) -> Timestamp {
    let day = chrono::NaiveDate::from_ymd_opt(y, m, d).unwrap();
    at(day.and_hms_opt(0, 0, 0).unwrap().and_utc().timestamp())
}

fn row(id: &str, workflow_id: Option<&str>, period: &str, reset_at: Timestamp) -> BudgetRow {
    BudgetRow {
        id: id.to_owned(),
        workflow_id: workflow_id.map(str::to_owned),
        team: None,
        period: period.to_owned(),
        limit_usd: 10f64.to_bits(),
        current_usd: 7f64.to_bits(),
        reset_at,
        created_at: at(0),
    }
}

fn database_error<T: std::fmt::Debug>(r: Result<T, OrbflowError>) -> String {
    match r {
        Err(OrbflowError::Database(e)) => e,
        other => panic!("expected a database error, got {other:?}"),
    }
}

#[test]
fn periods_read_back() {
    for p in [BudgetPeriod::Daily, BudgetPeriod::Weekly, BudgetPeriod::Monthly] {
        assert_eq!(parse_period(period_to_str(p)), p);
    }
    assert_eq!(parse_period("yearly"), BudgetPeriod::Monthly);
}

#[test]
fn the_range_of_timestamps_is_that_of_the_calendar() {
    assert_eq!(chrono::DateTime::<chrono::Utc>::MAX_UTC.timestamp(), MAX_SECS);
    assert_eq!(chrono::DateTime::<chrono::Utc>::MIN_UTC.timestamp(), MIN_SECS);
    assert_eq!(MAX_SECS / 86_400, MAX_DAY);
}

#[test]
fn resets_move_on_by_periods() {
    let next = |t: Timestamp, p: BudgetPeriod, now: Timestamp| next_reset_after(t, p, now);
    let now = date(2024, 3, 10);
    assert_eq!(next(date(2024, 3, 11), BudgetPeriod::Daily, now), date(2024, 3, 11));
    assert_eq!(next(date(2024, 3, 1), BudgetPeriod::Daily, now), date(2024, 3, 11));
    assert_eq!(next(date(2024, 3, 1), BudgetPeriod::Weekly, now), date(2024, 3, 15));
    assert_eq!(next(date(2024, 1, 15), BudgetPeriod::Monthly, now), date(2024, 3, 15));
    // The last day of a short month sticks.
    assert_eq!(next(date(2024, 1, 31), BudgetPeriod::Monthly, date(2024, 2, 1)), date(2024, 2, 29));
    assert_eq!(next(date(2024, 1, 31), BudgetPeriod::Monthly, now), date(2024, 3, 29));
    assert_eq!(next(date(2023, 1, 31), BudgetPeriod::Monthly, date(2023, 2, 1)), date(2023, 2, 28));
    assert_eq!(next(date(2023, 12, 5), BudgetPeriod::Monthly, date(2023, 12, 5)), date(2024, 1, 5));
    assert_eq!(next(date(1969, 12, 31), BudgetPeriod::Daily, date(1969, 12, 31)), date(1970, 1, 1));
    // A day on from a leap second is in the second before it.
    let leap = Timestamp { secs: 59, nanos: 1_500_000_000 };
    let later = Timestamp { secs: 86_459, nanos: 500_000_000 };
    assert_eq!(next(leap, BudgetPeriod::Daily, leap), later);
}

#[test]
fn resets_end_with_the_calendar() {
    let day: i64 = 86_400;
    let last = at(MAX_SECS);
    assert_eq!(checked_next_reset(at(MAX_SECS - day), BudgetPeriod::Daily, at(0)), Some(at(MAX_SECS - day)));
    assert_eq!(checked_next_reset(at(MAX_SECS - day), BudgetPeriod::Daily, at(MAX_SECS - day)), Some(last));
    assert_eq!(checked_next_reset(last, BudgetPeriod::Daily, last), None);
    assert_eq!(checked_next_reset(at(MAX_SECS - day), BudgetPeriod::Weekly, at(MAX_SECS - day)), None);
    assert_eq!(
        // From the end of November to the day before the last.
        checked_next_reset(at(MAX_SECS - 31 * day), BudgetPeriod::Monthly, at(MAX_SECS - 31 * day)),
        Some(at(MAX_SECS - day))
    );
    assert_eq!(
        checked_next_reset(at(MAX_SECS - 30 * day), BudgetPeriod::Monthly, at(MAX_SECS - 30 * day)),
        None
    );
    let rows = vec![
        row("a", None, "daily", at(MAX_SECS - day)),
        row("b", None, "daily", last),
    ];
    assert!(resets_can_be_held(&rows, at(MAX_SECS - day)));
    assert!(!resets_can_be_held(&rows, last));
}

#[test]
fn expired_rows_roll_over_once() {
    let now = date(2024, 3, 10);
    let mut expired = row("b", None, "weekly", date(2024, 3, 1));
    assert!(rollover_if_expired(&mut expired, now));
    assert_eq!(expired.current_usd, ZERO_USD);
    assert_eq!(f64::from_bits(ZERO_USD), 0.0);
    assert_eq!(expired.reset_at, date(2024, 3, 15));
    assert!(!rollover_if_expired(&mut expired, now));
    let mut rows = vec![
        row("a", None, "daily", date(2024, 4, 1)),
        row("b", None, "daily", now),
        row("c", None, "daily", date(2024, 3, 9)),
    ];
    assert_eq!(rollover_all(&mut rows, now), [1, 2]);
    assert_eq!(rows[0].current_usd, 7f64.to_bits());
    assert_eq!(rows[1].reset_at, date(2024, 3, 11));
}

#[test]
fn exceeded_then_specific_then_older_comes_first() {
    let later = date(2030, 1, 1);
    let mut rows = vec![
        row("global-old", None, "daily", later),
        row("own-new", Some("wf"), "daily", later),
        row("own-old", Some("wf"), "daily", later),
        row("own-old-too", Some("wf"), "daily", later),
    ];
    rows[1].created_at = at(9);
    let first = |rows: &Vec<BudgetRow>, e: [bool; 4]| {
        check_budget(rows, &e.to_vec(), "wf").unwrap().id
    };
    assert_eq!(first(&rows, [false; 4]), "own-old");
    assert_eq!(first(&rows, [true, false, false, false]), "global-old");
    assert_eq!(first(&rows, [true, true, false, false]), "own-new");
    assert_eq!(first_budget(&rows, &vec![true; 4], "other"), Some(0));
    assert!(check_budget(&vec![], &vec![], "wf").is_none());
    let budget = check_budget(&rows, &vec![false; 4], "wf").unwrap();
    assert_eq!(budget.period, BudgetPeriod::Daily);
    assert_eq!(f64::from_bits(budget.limit_usd), 10.0);
}

#[test]
fn costs_are_added_to_all_or_none() {
    let cost = |would_exceed: bool, total: f64| RowCost {
        would_exceed,
        total_usd: total.to_bits(),
        current_text: "9.00".into(),
        limit_text: "10.00".into(),
    };
    assert_eq!(increment_cost(&vec![], &vec![], "wf", "2.50").unwrap().len(), 0);
    let reset = date(2030, 1, 1);
    let rows = vec![
        row("b0", Some("wf"), "daily", reset),
        row("b1", None, "daily", reset),
        row("b2", None, "daily", reset),
    ];
    let fits = vec![cost(false, 1.5), cost(false, 2.5), cost(false, 3.5)];
    let updates = increment_cost(&rows, &fits, "wf", "2.50").unwrap();
    let written: Vec<(&str, f64)> = updates
        .iter()
        .map(|u| (u.id.as_str(), f64::from_bits(u.current_usd)))
        .collect();
    assert_eq!(written, [("b0", 1.5), ("b1", 2.5), ("b2", 3.5)]);
    assert!(updates.iter().all(|u| u.reset_at == reset));
    let over = vec![cost(false, 1.5), cost(true, 11.5), cost(true, 12.5)];
    assert!(matches!(
        increment_cost(&rows, &over, "wf", "2.50"),
        Err(OrbflowError::BudgetExceeded(m))
            if m == "Budget exceeded for workflow wf by budget b1 (attempted to add $2.50: $9.00 / $10.00)"
    ));
}

#[test]
fn failed_table_work_is_named() {
    let told = |work: BudgetWork| database_error::<()>(Err(work_error(&work, "e")));
    assert_eq!(told(BudgetWork::Begin), "postgres: begin budget tx: e");
    let lock = BudgetWork::Lock {
        workflow_id: "wf".into(),
    };
    assert_eq!(told(lock), "postgres: lock budgets for workflow 'wf': e");
    let roll_over = BudgetWork::RollOver { id: "b".into() };
    assert_eq!(told(roll_over), "postgres: roll over budget 'b': e");
    let increment = BudgetWork::Increment {
        id: "b".into(),
        workflow_id: "wf".into(),
    };
    assert_eq!(
        told(increment),
        "postgres: increment cost for budget 'b' on workflow 'wf': e"
    );
    assert_eq!(told(BudgetWork::Commit), "postgres: commit budget tx: e");
}

#[test]
fn store_outcomes_become_results() {
    let later = date(2030, 1, 1);
    assert!(create_budget("b", WriteOutcome::Done).is_ok());
    assert!(matches!(
        create_budget("b", WriteOutcome::UniqueViolation),
        Err(OrbflowError::AlreadyExists)
    ));
    assert_eq!(
        database_error(create_budget("b", WriteOutcome::Failed("e".into()))),
        "postgres: create budget 'b': e"
    );
    let found = get_budget("b", Ok(Some(row("b", Some("wf"), "weekly", later)))).unwrap();
    assert_eq!(found.period, BudgetPeriod::Weekly);
    assert_eq!(found.workflow_id.as_deref(), Some("wf"));
    assert!(matches!(get_budget("b", Ok(None)), Err(OrbflowError::NotFound)));
    assert_eq!(
        database_error(get_budget("b", Err("e".into()))),
        "postgres: get budget 'b': e"
    );
    let rows = vec![row("a", None, "daily", later), row("b", None, "daily", later)];
    let ids: Vec<String> = list_budgets(Ok(rows)).unwrap().into_iter().map(|b| b.id).collect();
    assert_eq!(ids, ["a", "b"]);
    assert_eq!(database_error(list_budgets(Err("e".into()))), "postgres: list budgets: e");
    assert!(update_budget("b", Ok(1)).is_ok());
    assert!(matches!(update_budget("b", Ok(0)), Err(OrbflowError::NotFound)));
    assert!(matches!(delete_budget("b", Ok(0)), Err(OrbflowError::NotFound)));
    assert_eq!(
        database_error(delete_budget("b", Err("e".into()))),
        "postgres: delete budget 'b': e"
    );
}
