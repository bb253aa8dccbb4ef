use remindee::cron::next_occurrence;
use remindee::db::Database;
use remindee::entity::{CronReminder, Reminder};
use remindee::err::Error;
use remindee::generic_reminder::GenericReminder;
use remindee::scheduler::{due_reminders, notice, settle, Delivery, Notice};

/// 2023-11-14 22:13:20 UTC
const T: i64 = 1_700_000_000;
/// 2023-11-14 23:00:00 UTC
const NEXT_HOUR: i64 = 1_700_002_800;

#[test]
fn next_occurrence_of_hourly_rule() {
    assert_eq!(next_occurrence("0 * * * *", T - 60), Ok(NEXT_HOUR));
    assert_eq!(next_occurrence("0 * * * *", NEXT_HOUR - 1), Ok(NEXT_HOUR));
    assert_eq!(next_occurrence("0 * * * *", NEXT_HOUR), Ok(NEXT_HOUR + 3600));
}

#[test]
fn next_occurrence_is_strictly_later() {
    for after in [0, 59, 60, T, T + 1, NEXT_HOUR] {
        let next = next_occurrence("* * * * *", after).unwrap();
        assert!(next > after);
        assert_eq!(next % 60, 0);
        assert!(next - after <= 60);
    }
}

#[test]
fn next_occurrence_of_daily_and_weekday_rules() {
    // 2023-11-15 09:30:00 UTC, a Wednesday
    assert_eq!(next_occurrence("30 9 * * *", T), Ok(1_700_040_600));
    // 2023-11-20 00:00:00 UTC, the next Monday
    assert_eq!(next_occurrence("0 0 * * 1", T), Ok(1_700_438_400));
    // 2024-02-29 12:00:00 UTC
    assert_eq!(next_occurrence("0 12 29 2 *", T), Ok(1_709_208_000));
}

#[test]
fn next_occurrence_before_the_epoch() {
    assert_eq!(next_occurrence("0 0 * * *", -1), Ok(0));
    assert_eq!(next_occurrence("0 0 * * *", -86_400), Ok(0));
    assert_eq!(next_occurrence("0 0 * * *", -86_401), Ok(-86_400));
}

#[test]
fn malformed_rule_is_a_cron_parse_error() {
    assert_eq!(next_occurrence("", T), Err(Error::CronParse));
    assert_eq!(next_occurrence("not a rule", T), Err(Error::CronParse));
    assert_eq!(next_occurrence("* * * *", T), Err(Error::CronParse));
    assert_eq!(next_occurrence("60 * * * *", T), Err(Error::CronParse));
    assert_eq!(next_occurrence("* * 31 2 *", T), Err(Error::CronParse));
}

#[test]
fn instant_outside_the_calendar_is_a_cron_parse_error() {
    assert_eq!(next_occurrence("* * * * *", i64::MAX), Err(Error::CronParse));
    assert_eq!(next_occurrence("* * * * *", i64::MIN), Err(Error::CronParse));
}

#[test]
fn due_reminders_lists_one_shots_then_crons() {
    let mut db = Database::new();
    let c = db
        .insert_cron_reminder(CronReminder::new(1, T - 5, "c".to_string(), "0 * * * *".to_string()))
        .unwrap();
    let a = db.insert_reminder(Reminder::new(1, T - 1, "a".to_string())).unwrap();
    db.insert_reminder(Reminder::new(1, T + 1, "later".to_string())).unwrap();
    let b = db.insert_reminder(Reminder::new(2, T - 9, "b".to_string())).unwrap();
    let due = due_reminders(&db, T);
    let keys: Vec<(bool, i64)> = due.iter().map(|r| (r.is_cron(), r.id())).collect();
    assert_eq!(keys, vec![(false, a), (false, b), (true, c)]);
    assert_eq!(due_reminders(&db, T - 9), vec![]);
}

#[test]
fn notice_carries_what_the_transport_needs() {
    let mut r = Reminder::new(7, T, "buy milk".to_string());
    r.header.msg_id = Some(31);
    r.header.reply_id = Some(32);
    assert_eq!(
        notice(&GenericReminder::OneShot(r)),
        Notice { chat_id: 7, description: "buy milk".to_string(), recurring: false, reply_to: Some(31) }
    );
    let c = CronReminder::new(8, T, "stand up".to_string(), "0 9 * * *".to_string());
    assert_eq!(
        notice(&GenericReminder::Cron(c)),
        Notice { chat_id: 8, description: "stand up".to_string(), recurring: true, reply_to: None }
    );
}

#[test]
fn delivered_one_shot_is_sent_and_failed_one_is_retried() {
    let mut db = Database::new();
    let id = db.insert_reminder(Reminder::new(1, T - 3600, "buy milk".to_string())).unwrap();
    let due = due_reminders(&db, T);
    assert_eq!(due.len(), 1);
    assert_eq!(settle(&mut db, &due[0], Delivery::Failed), Ok(()));
    assert_eq!(due_reminders(&db, T), due);
    assert_eq!(settle(&mut db, &due[0], Delivery::Delivered), Ok(()));
    assert!(db.get_reminder(id).unwrap().header.sent);
    assert_eq!(due_reminders(&db, T), vec![]);
    assert_eq!(due_reminders(&db, i64::MAX), vec![]);
}

#[test]
fn cron_reminder_fires_and_moves_to_the_next_hour() {
    let mut db = Database::new();
    let id = db
        .insert_cron_reminder(CronReminder::new(
            1,
            T - 60,
            "drink water".to_string(),
            "0 * * * *".to_string(),
        ))
        .unwrap();
    let due = due_reminders(&db, T);
    assert_eq!(due.len(), 1);
    assert!(due[0].is_cron());
    assert_eq!(due[0].id(), id);
    assert_eq!(settle(&mut db, &due[0], Delivery::Delivered), Ok(()));
    let row = db.get_cron_reminder(id).unwrap();
    assert_eq!(row.header.time, NEXT_HOUR);
    assert!(!row.header.sent);
    assert_eq!(db.get_active_cron_reminders(T), vec![]);
    let again = db.get_active_cron_reminders(T + 3600);
    assert_eq!(again.len(), 1);
    assert_eq!(again[0].header.id, id);
    assert_eq!(again[0].header.time, NEXT_HOUR);
}

#[test]
fn failed_cron_delivery_changes_nothing() {
    let mut db = Database::new();
    let id = db
        .insert_cron_reminder(CronReminder::new(1, T - 60, "x".to_string(), "0 * * * *".to_string()))
        .unwrap();
    let before = db.get_cron_reminder(id).unwrap();
    let due = due_reminders(&db, T);
    assert_eq!(settle(&mut db, &due[0], Delivery::Failed), Ok(()));
    assert_eq!(db.get_cron_reminder(id).unwrap(), before);
    assert_eq!(due_reminders(&db, T).len(), 1);
}

#[test]
fn malformed_rule_freezes_the_reminder() {
    let mut db = Database::new();
    let bad = db
        .insert_cron_reminder(CronReminder::new(1, T - 60, "bad".to_string(), "every hour".to_string()))
        .unwrap();
    let good = db
        .insert_cron_reminder(CronReminder::new(1, T - 60, "good".to_string(), "0 * * * *".to_string()))
        .unwrap();
    let due = due_reminders(&db, T);
    assert_eq!(due.len(), 2);
    assert_eq!(settle(&mut db, &due[0], Delivery::Delivered), Err(Error::CronParse));
    assert_eq!(settle(&mut db, &due[1], Delivery::Delivered), Ok(()));
    let row = db.get_cron_reminder(bad).unwrap();
    assert!(row.header.sent);
    assert_eq!(row.header.time, T - 60);
    assert_eq!(db.get_cron_reminder(good).unwrap().header.time, NEXT_HOUR);
    assert_eq!(due_reminders(&db, i64::MAX), vec![GenericReminder::Cron(db.get_cron_reminder(good).unwrap())]);
}

#[test]
fn settling_a_deleted_reminder_is_not_found() {
    let mut db = Database::new();
    let a = db.insert_reminder(Reminder::new(1, T - 1, "a".to_string())).unwrap();
    let c = db
        .insert_cron_reminder(CronReminder::new(1, T - 1, "c".to_string(), "0 * * * *".to_string()))
        .unwrap();
    let due = due_reminders(&db, T);
    db.delete_reminder(a);
    db.delete_cron_reminder(c);
    assert_eq!(settle(&mut db, &due[0], Delivery::Delivered), Err(Error::NotFound(a)));
    assert_eq!(settle(&mut db, &due[1], Delivery::Delivered), Err(Error::NotFound(c)));
    assert_eq!(settle(&mut db, &due[0], Delivery::Failed), Ok(()));
}

#[test]
fn reschedule_uses_the_stored_time_and_rule() {
    let mut db = Database::new();
    let id = db
        .insert_cron_reminder(CronReminder::new(1, 0, "x".to_string(), "0 0 * * *".to_string()))
        .unwrap();
    assert_eq!(db.reschedule_cron_reminder(id), Ok(86_400));
    assert_eq!(db.reschedule_cron_reminder(id), Ok(172_800));
    assert_eq!(db.get_cron_reminder(id).unwrap().header.time, 172_800);
    assert_eq!(db.reschedule_cron_reminder(id + 1), Err(Error::NotFound(id + 1)));
}

#[test]
fn advance_takes_the_outcome_as_given() {
    let mut db = Database::new();
    let id = db
        .insert_cron_reminder(CronReminder::new(1, T, "x".to_string(), "0 0 * * *".to_string()))
        .unwrap();
    assert_eq!(db.advance_cron_reminder(id, Some(T + 7)), Ok(T + 7));
    let row = db.get_cron_reminder(id).unwrap();
    assert_eq!(row.header.time, T + 7);
    assert!(!row.header.sent);
    assert_eq!(db.advance_cron_reminder(id, None), Err(Error::CronParse));
    let row = db.get_cron_reminder(id).unwrap();
    assert_eq!(row.header.time, T + 7);
    assert!(row.header.sent);
    assert_eq!(db.advance_cron_reminder(9, Some(1)), Err(Error::NotFound(9)));
    assert_eq!(db.advance_cron_reminder(9, None), Err(Error::NotFound(9)));
}
