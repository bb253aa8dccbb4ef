use remindee::db::{Database, Snapshot};
use remindee::entity::{CronReminder, EditMode, Reminder};
use remindee::err::Error;

const T: i64 = 1_700_000_000;

fn one_shot(db: &mut Database, chat_id: i64, desc: &str) -> i64 {
    db.insert_reminder(Reminder::new(chat_id, T, desc.to_string())).unwrap()
}

fn cron(db: &mut Database, chat_id: i64, desc: &str) -> i64 {
    db.insert_cron_reminder(CronReminder::new(
        chat_id,
        T,
        desc.to_string(),
        "0 * * * *".to_string(),
    ))
    .unwrap()
}

#[test]
fn second_set_edit_takes_the_slot() {
    let mut db = Database::new();
    let rem_a = one_shot(&mut db, 5, "a");
    let rem_b = one_shot(&mut db, 5, "b");
    assert_eq!(db.mark_reminder_as_edit(rem_a, 5), Ok(()));
    db.set_edit_mode_reminder(5, EditMode::Description);
    assert_eq!(db.mark_reminder_as_edit(rem_b, 5), Ok(()));
    let a = db.get_reminder(rem_a).unwrap();
    let b = db.get_reminder(rem_b).unwrap();
    assert!(!a.header.edit);
    assert_eq!(a.header.edit_mode, EditMode::Unset);
    assert!(b.header.edit);
    assert_eq!(db.get_edit_reminder(5).unwrap().header.id, rem_b);
    assert_eq!(db.check_edit_slot(5), Ok(()));
}

#[test]
fn set_edit_releases_the_other_table_too() {
    let mut db = Database::new();
    let rem = one_shot(&mut db, 5, "one-shot");
    let cr = cron(&mut db, 5, "recurring");
    assert_eq!(db.mark_cron_reminder_as_edit(cr, 5), Ok(()));
    db.set_edit_mode_cron_reminder(5, EditMode::Time);
    assert_eq!(db.get_edit_cron_reminder(5).unwrap().header.edit_mode, EditMode::Time);
    assert_eq!(db.mark_reminder_as_edit(rem, 5), Ok(()));
    assert_eq!(db.get_edit_cron_reminder(5), None);
    let c = db.get_cron_reminder(cr).unwrap();
    assert!(!c.header.edit);
    assert_eq!(c.header.edit_mode, EditMode::Unset);
    assert_eq!(db.get_edit_reminder(5).unwrap().header.id, rem);
    assert_eq!(db.check_edit_slot(5), Ok(()));
    assert_eq!(db.mark_cron_reminder_as_edit(cr, 5), Ok(()));
    assert_eq!(db.get_edit_reminder(5), None);
    assert_eq!(db.get_edit_cron_reminder(5).unwrap().header.id, cr);
    assert_eq!(db.check_edit_slot(5), Ok(()));
}

#[test]
fn set_edit_leaves_other_chats_alone() {
    let mut db = Database::new();
    let a = one_shot(&mut db, 1, "a");
    let b = one_shot(&mut db, 2, "b");
    assert_eq!(db.mark_reminder_as_edit(a, 1), Ok(()));
    assert_eq!(db.mark_reminder_as_edit(b, 2), Ok(()));
    assert!(db.get_reminder(a).unwrap().header.edit);
    assert!(db.get_reminder(b).unwrap().header.edit);
    assert_eq!(db.check_edit_slot(1), Ok(()));
    assert_eq!(db.check_edit_slot(2), Ok(()));
}

#[test]
fn set_edit_of_missing_id_is_not_found_and_still_releases() {
    let mut db = Database::new();
    let a = one_shot(&mut db, 1, "a");
    assert_eq!(db.mark_reminder_as_edit(a, 1), Ok(()));
    assert_eq!(db.mark_reminder_as_edit(77, 1), Err(Error::NotFound(77)));
    assert!(!db.get_reminder(a).unwrap().header.edit);
    assert_eq!(db.mark_cron_reminder_as_edit(78, 1), Err(Error::NotFound(78)));
}

#[test]
fn at_most_one_edit_row_after_any_sequence() {
    let mut db = Database::new();
    let chats = [1i64, 2, 3];
    let mut one_shots = Vec::new();
    let mut crons = Vec::new();
    for &c in chats.iter() {
        for k in 0..3 {
            one_shots.push((one_shot(&mut db, c, &format!("o{k}")), c));
            crons.push((cron(&mut db, c, &format!("c{k}")), c));
        }
    }
    // One id more than each table holds, and one chat that owns nothing.
    let ids = one_shots.len() as i64 + 1;
    let named = [1i64, 2, 3, 4];
    let mut seed: u64 = 0x2545_F491_4F6C_DD1D;
    let mut refused = 0;
    let mut missing = 0;
    let mut taken = 0;
    for _ in 0..2000 {
        seed ^= seed << 13;
        seed ^= seed >> 7;
        seed ^= seed << 17;
        let id = 1 + ((seed >> 8) % ids as u64) as i64;
        let chat = named[((seed >> 24) % 4) as usize];
        match seed % 5 {
            0 | 1 => {
                let cron_table = seed % 5 == 1;
                let owner = if cron_table {
                    crons.iter().find(|(i, _)| *i == id).map(|(_, c)| *c)
                } else {
                    one_shots.iter().find(|(i, _)| *i == id).map(|(_, c)| *c)
                };
                let expected = match owner {
                    None => Err(Error::NotFound(id)),
                    Some(c) if c == chat => Ok(()),
                    Some(c) => Err(Error::EditStateViolation(c)),
                };
                let result = if cron_table {
                    db.mark_cron_reminder_as_edit(id, chat)
                } else {
                    db.mark_reminder_as_edit(id, chat)
                };
                assert_eq!(result, expected);
                match result {
                    Ok(()) => taken += 1,
                    Err(Error::NotFound(_)) => missing += 1,
                    Err(_) => refused += 1,
                }
            }
            2 => db.reset_edit(chat),
            3 => db.reset_reminders_edit(chat),
            _ => db.reset_cron_reminders_edit(chat),
        }
        for &c in named.iter() {
            assert_eq!(db.check_edit_slot(c), Ok(()));
            let editing = db.get_pending_chat_reminders(c).iter().filter(|r| r.header.edit).count()
                + db.get_pending_chat_cron_reminders(c).iter().filter(|r| r.header.edit).count();
            assert!(editing <= 1);
        }
    }
    assert!(taken > 0 && missing > 0 && refused > 0);
}

#[test]
fn a_reminder_of_another_chat_is_refused() {
    let mut db = Database::new();
    let a = one_shot(&mut db, 1, "a");
    let b = one_shot(&mut db, 1, "b");
    let c = one_shot(&mut db, 2, "c");
    assert_eq!(db.mark_reminder_as_edit(a, 1), Ok(()));
    assert_eq!(db.mark_reminder_as_edit(c, 2), Ok(()));
    db.set_edit_mode_reminder(1, EditMode::Time);
    let before_a = db.get_reminder(a).unwrap();
    let before_b = db.get_reminder(b).unwrap();
    assert_eq!(db.mark_reminder_as_edit(b, 2), Err(Error::EditStateViolation(1)));
    // The reminder of chat 1 is not taken, and chat 1 keeps its slot.
    assert_eq!(db.get_reminder(b).unwrap(), before_b);
    assert_eq!(db.get_reminder(a).unwrap(), before_a);
    assert_eq!(db.get_edit_reminder(1).unwrap().header.id, a);
    // The slot of the chat that was named is released all the same.
    assert_eq!(db.get_edit_reminder(2), None);
    assert!(!db.get_reminder(c).unwrap().header.edit);
    assert_eq!(db.check_edit_slot(1), Ok(()));
    assert_eq!(db.check_edit_slot(2), Ok(()));
}

#[test]
fn a_recurring_reminder_of_another_chat_is_refused() {
    let mut db = Database::new();
    let a = cron(&mut db, 1, "a");
    let b = cron(&mut db, 1, "b");
    let o = one_shot(&mut db, 2, "o");
    assert_eq!(db.mark_cron_reminder_as_edit(a, 1), Ok(()));
    assert_eq!(db.mark_reminder_as_edit(o, 2), Ok(()));
    assert_eq!(db.mark_cron_reminder_as_edit(b, 2), Err(Error::EditStateViolation(1)));
    assert!(!db.get_cron_reminder(b).unwrap().header.edit);
    assert_eq!(db.get_edit_cron_reminder(1).unwrap().header.id, a);
    assert_eq!(db.get_edit_reminder(2), None);
    assert_eq!(db.check_edit_slot(1), Ok(()));
    assert_eq!(db.check_edit_slot(2), Ok(()));
}

#[test]
fn the_check_tells_a_store_with_two_edit_rows_in_a_chat() {
    let mut first = Reminder::new(1, T, "first".to_string());
    first.header.id = 1;
    first.header.edit = true;
    let mut second = CronReminder::new(1, T, "second".to_string(), "0 * * * *".to_string());
    second.header.id = 1;
    second.header.edit = true;
    let mut third = Reminder::new(2, T, "third".to_string());
    third.header.id = 2;
    third.header.edit = true;
    let mut db = Database::restore(Snapshot {
        reminders: vec![first, third],
        cron_reminders: vec![second],
        timezones: vec![],
        next_reminder_id: 3,
        next_cron_reminder_id: 2,
    })
    .unwrap();
    assert_eq!(db.check_edit_slot(1), Err(Error::EditStateViolation(1)));
    assert_eq!(db.check_edit_slot(2), Ok(()));
    assert_eq!(db.check_edit_slot(3), Ok(()));
    // Taking a reminder into the slot mends it.
    assert_eq!(db.mark_reminder_as_edit(1, 1), Ok(()));
    assert_eq!(db.check_edit_slot(1), Ok(()));
    assert!(!db.get_cron_reminder(1).unwrap().header.edit);
}

#[test]
fn reset_edit_clears_flag_and_mode() {
    let mut db = Database::new();
    let a = one_shot(&mut db, 1, "a");
    let c = cron(&mut db, 1, "c");
    db.mark_reminder_as_edit(a, 1).unwrap();
    db.set_edit_mode_reminder(1, EditMode::Time);
    db.reset_reminders_edit(1);
    let row = db.get_reminder(a).unwrap();
    assert!(!row.header.edit);
    assert_eq!(row.header.edit_mode, EditMode::Unset);
    db.mark_cron_reminder_as_edit(c, 1).unwrap();
    db.reset_reminders_edit(1);
    assert!(db.get_cron_reminder(c).unwrap().header.edit);
    db.reset_cron_reminders_edit(1);
    assert!(!db.get_cron_reminder(c).unwrap().header.edit);
    db.mark_cron_reminder_as_edit(c, 1).unwrap();
    db.reset_edit(1);
    assert_eq!(db.get_edit_cron_reminder(1), None);
    assert_eq!(db.get_edit_reminder(1), None);
}

#[test]
fn set_edit_mode_touches_only_the_edit_row() {
    let mut db = Database::new();
    let a = one_shot(&mut db, 1, "a");
    let b = one_shot(&mut db, 1, "b");
    db.set_edit_mode_reminder(1, EditMode::Description);
    assert_eq!(db.get_reminder(a).unwrap().header.edit_mode, EditMode::Unset);
    assert_eq!(db.get_reminder(b).unwrap().header.edit_mode, EditMode::Unset);
    db.mark_reminder_as_edit(b, 1).unwrap();
    db.set_edit_mode_reminder(1, EditMode::Description);
    assert_eq!(db.get_reminder(a).unwrap().header.edit_mode, EditMode::Unset);
    let row = db.get_reminder(b).unwrap();
    assert_eq!(row.header.edit_mode, EditMode::Description);
    assert!(row.header.edit);
    db.set_edit_mode_cron_reminder(1, EditMode::Time);
    assert_eq!(db.get_reminder(b).unwrap().header.edit_mode, EditMode::Description);
}

#[test]
fn commit_description_finishes_the_edit() {
    let mut db = Database::new();
    let a = one_shot(&mut db, 1, "old text");
    db.mark_reminder_as_edit(a, 1).unwrap();
    db.set_edit_mode_reminder(1, EditMode::Description);
    let mut edited = db.get_edit_reminder(1).unwrap();
    edited.desc = "new text".to_string();
    edited.header.time = 0;
    assert_eq!(db.update_edited_reminder_description(edited), Ok(()));
    let row = db.get_reminder(a).unwrap();
    assert_eq!(row.desc, "new text");
    assert_eq!(row.header.time, T);
    assert!(!row.header.edit);
    assert_eq!(row.header.edit_mode, EditMode::Unset);
    assert_eq!(db.get_edit_reminder(1), None);

    let c = cron(&mut db, 1, "old rule text");
    db.mark_cron_reminder_as_edit(c, 1).unwrap();
    let mut edited = db.get_edit_cron_reminder(1).unwrap();
    edited.desc = "new rule text".to_string();
    edited.cron_expr = "1 1 1 1 1".to_string();
    assert_eq!(db.update_edited_cron_reminder_description(edited), Ok(()));
    let row = db.get_cron_reminder(c).unwrap();
    assert_eq!(row.desc, "new rule text");
    assert_eq!(row.cron_expr, "0 * * * *");
    assert!(!row.header.edit);
}

#[test]
fn commit_description_of_missing_row_is_not_found() {
    let mut db = Database::new();
    let mut ghost = Reminder::new(1, T, "x".to_string());
    ghost.header.id = 4;
    assert_eq!(db.update_edited_reminder_description(ghost), Err(Error::NotFound(4)));
    let mut ghost = CronReminder::new(1, T, "x".to_string(), "* * * * *".to_string());
    ghost.header.id = 5;
    assert_eq!(db.update_edited_cron_reminder_description(ghost), Err(Error::NotFound(5)));
}
