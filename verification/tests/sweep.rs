use botcore::sweep::{
    congratulate_due, delay_to_next_midnight, expired_bets, group_by_guild, settle, take_due,
    BetRow, BirthdayRow, Reminder,
};

fn reminder(msg_id: u64, content: &str, time: i64) -> Reminder {
    Reminder { channel_id: 5, msg_id, user_id: 9, content: content.to_string(), time }
}

#[test]
fn selection_consumes_exactly_the_due_rows() {
    let rows = vec![
        reminder(1, "due", 100),
        reminder(2, "later", 300),
        reminder(3, "also due", 200),
    ];
    let (due, kept) = take_due(rows, 200);
    assert_eq!(due.len(), 2);
    assert_eq!(due[0].msg_id, 1);
    assert_eq!(due[1].msg_id, 3);
    assert_eq!(kept.len(), 1);
    assert_eq!(kept[0].msg_id, 2);
}

#[test]
fn failed_sends_do_not_return_rows_to_the_store() {
    // two due reminders; sending the first succeeds, the second's channel
    // is gone
    let rows = vec![reminder(1, "first", 10), reminder(2, "second", 20)];
    let (due, kept) = take_due(rows, 50);
    assert_eq!(due.len(), 2);
    assert!(kept.is_empty());

    let send_results = vec![true, false];
    let report = settle(&send_results);
    // both rows are consumed; one error was logged; nothing is left pending
    assert_eq!(report.processed, 2);
    assert_eq!(report.delivered, 1);
    assert_eq!(report.failed, 1);
}

#[test]
fn empty_store_sweeps_cleanly() {
    let (due, kept) = take_due(Vec::new(), 1000);
    assert!(due.is_empty());
    assert!(kept.is_empty());
    let report = settle(&Vec::new());
    assert_eq!(report.processed, 0);
    assert_eq!(report.failed, 0);
}

#[test]
fn expired_bets_are_selected_in_stored_order() {
    let bet = |id: u64, expiry: i64| BetRow {
        id,
        bet_short_id: id,
        channel_id: 1,
        message_id: 2,
        author_id: 3,
        description: "a bet".to_string(),
        expiry,
    };
    let rows = vec![bet(1, 50), bet(2, 500), bet(3, 60)];
    assert_eq!(expired_bets(&rows, 100), vec![1, 3]);
    assert_eq!(expired_bets(&rows, 10), Vec::<u64>::new());
    assert_eq!(expired_bets(&rows, 1000), vec![1, 2, 3]);
}

#[test]
fn birthdays_are_congratulated_once_per_day() {
    let row = |user_id: u64, birthday: i64, last: Option<i64>| BirthdayRow {
        guild_id: 1,
        user_id,
        birthday,
        last_congratulated: last,
    };
    let rows = vec![
        row(1, 100, None),          // due: never congratulated
        row(2, 100, Some(99)),      // due: last time was an earlier day
        row(3, 100, Some(100)),     // not due: already done today
        row(4, 101, None),          // not due: another day
    ];
    let (updated, due) = congratulate_due(rows, 100);
    assert_eq!(due, vec![(1, 1), (1, 2)]);
    assert_eq!(updated[0].last_congratulated, Some(100));
    assert_eq!(updated[1].last_congratulated, Some(100));
    assert_eq!(updated[2].last_congratulated, Some(100));
    assert_eq!(updated[3].last_congratulated, None);

    // sweeping again the same day finds nothing
    let (_, due_again) = congratulate_due(updated, 100);
    assert!(due_again.is_empty());
}

#[test]
fn celebrants_group_per_guild_in_order() {
    let pairs = vec![(7, 1), (9, 2), (7, 3), (9, 4), (8, 5)];
    let groups = group_by_guild(&pairs);
    assert_eq!(
        groups,
        vec![(7, vec![1, 3]), (9, vec![2, 4]), (8, vec![5])]
    );
    assert!(group_by_guild(&Vec::new()).is_empty());
}

#[test]
fn midnight_alignment_sleeps_to_the_date_change() {
    assert_eq!(delay_to_next_midnight(0), 86400);
    assert_eq!(delay_to_next_midnight(86399), 1);
    assert_eq!(delay_to_next_midnight(12 * 3600), 12 * 3600);
}
