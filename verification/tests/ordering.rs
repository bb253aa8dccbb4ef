use remindee::db::Database;
use remindee::entity::{CronReminder, Reminder};
use remindee::generic_reminder::{insert_sorted, sort, GenericReminder};

const T: i64 = 1_700_000_000;

fn one_shot(id: i64, time: i64) -> GenericReminder {
    let mut r = Reminder::new(1, time, format!("one-shot {id}"));
    r.header.id = id;
    GenericReminder::OneShot(r)
}

fn cron(id: i64, time: i64) -> GenericReminder {
    let mut r = CronReminder::new(1, time, format!("cron {id}"), "* * * * *".to_string());
    r.header.id = id;
    GenericReminder::Cron(r)
}

fn keys(list: &[GenericReminder]) -> Vec<(i64, bool, i64)> {
    list.iter().map(|r| (r.due_time(), r.is_cron(), r.id())).collect()
}

#[test]
fn accessors_read_the_row() {
    let mut r = Reminder::new(4, T, "text".to_string());
    r.header.id = 3;
    let g = GenericReminder::OneShot(r);
    assert_eq!(g.id(), 3);
    assert_eq!(g.chat_id(), 4);
    assert_eq!(g.due_time(), T);
    assert_eq!(g.description(), "text");
    assert!(!g.is_cron());
    let c = cron(8, T + 1);
    assert_eq!(c.id(), 8);
    assert_eq!(c.chat_id(), 1);
    assert_eq!(c.due_time(), T + 1);
    assert_eq!(c.description(), "cron 8");
    assert!(c.is_cron());
}

#[test]
fn precedes_orders_by_time_then_kind_then_id() {
    assert!(one_shot(9, T).precedes(&one_shot(1, T + 1)));
    assert!(!one_shot(1, T + 1).precedes(&one_shot(9, T)));
    assert!(cron(1, T).precedes(&one_shot(1, T + 1)));
    assert!(one_shot(9, T).precedes(&cron(1, T)));
    assert!(!cron(1, T).precedes(&one_shot(9, T)));
    assert!(one_shot(1, T).precedes(&one_shot(2, T)));
    assert!(!one_shot(2, T).precedes(&one_shot(1, T)));
    assert!(cron(1, T).precedes(&cron(2, T)));
    assert!(!one_shot(1, T).precedes(&one_shot(1, T)));
    assert!(!cron(1, T).precedes(&cron(1, T)));
}

#[test]
fn precedes_is_a_strict_weak_order_on_samples() {
    let mut items = Vec::new();
    for time in [T - 1, T, T + 1] {
        for id in [1, 2] {
            items.push(one_shot(id, time));
            items.push(cron(id, time));
        }
    }
    for a in items.iter() {
        assert!(!a.precedes(a));
        for b in items.iter() {
            assert!(!(a.precedes(b) && b.precedes(a)));
            for c in items.iter() {
                if a.precedes(b) && b.precedes(c) {
                    assert!(a.precedes(c));
                }
                let eq = |x: &GenericReminder, y: &GenericReminder| {
                    !x.precedes(y) && !y.precedes(x)
                };
                if eq(a, b) && eq(b, c) {
                    assert!(eq(a, c));
                }
            }
        }
    }
}

#[test]
fn sort_of_distinct_times_is_strictly_ascending() {
    let list = vec![
        cron(1, T + 50),
        one_shot(1, T + 30),
        one_shot(2, T - 10),
        cron(2, T + 10),
        one_shot(3, T + 20),
        cron(3, T - 20),
    ];
    let sorted = sort(list);
    let times: Vec<i64> = sorted.iter().map(|r| r.due_time()).collect();
    assert_eq!(times, vec![T - 20, T - 10, T + 10, T + 20, T + 30, T + 50]);
    assert!(times.windows(2).all(|w| w[0] < w[1]));
}

#[test]
fn sort_puts_one_shot_before_cron_at_equal_times() {
    let list = vec![cron(1, T), one_shot(2, T), cron(2, T), one_shot(1, T), one_shot(3, T - 1)];
    let sorted = sort(list);
    assert_eq!(
        keys(&sorted),
        vec![(T - 1, false, 3), (T, false, 1), (T, false, 2), (T, true, 1), (T, true, 2)]
    );
}

#[test]
fn sort_does_not_depend_on_the_input_order() {
    let make = || vec![cron(1, T), one_shot(2, T), cron(2, T + 5), one_shot(1, T), cron(3, T - 5)];
    let expected = sort(make());
    let mut rotated = make();
    for _ in 0..5 {
        rotated.rotate_left(1);
        assert_eq!(sort(rotated.clone()), expected);
    }
    let mut reversed = make();
    reversed.reverse();
    assert_eq!(sort(reversed), expected);
}

#[test]
fn sort_keeps_every_reminder() {
    assert_eq!(sort(vec![]), vec![]);
    let sorted = sort(vec![one_shot(1, T), one_shot(1, T), cron(1, T)]);
    assert_eq!(sorted, vec![one_shot(1, T), one_shot(1, T), cron(1, T)]);
}

#[test]
fn insert_sorted_keeps_the_order() {
    let mut list = vec![one_shot(1, T), cron(1, T), one_shot(2, T + 10)];
    insert_sorted(&mut list, one_shot(3, T));
    insert_sorted(&mut list, cron(2, T - 1));
    insert_sorted(&mut list, cron(3, T + 10));
    assert_eq!(
        keys(&list),
        vec![
            (T - 1, true, 2),
            (T, false, 1),
            (T, false, 3),
            (T, true, 1),
            (T + 10, false, 2),
            (T + 10, true, 3)
        ]
    );
}

#[test]
fn sorted_listing_merges_both_tables() {
    let mut db = Database::new();
    let o1 = db.insert_reminder(Reminder::new(1, T + 20, "o1".to_string())).unwrap();
    let o2 = db.insert_reminder(Reminder::new(1, T, "o2".to_string())).unwrap();
    db.insert_reminder(Reminder::new(2, T, "other chat".to_string())).unwrap();
    let o4 = db.insert_reminder(Reminder::new(1, T - 5, "sent".to_string())).unwrap();
    db.mark_reminder_sent(o4).unwrap();
    let c1 = db
        .insert_cron_reminder(CronReminder::new(1, T, "c1".to_string(), "* * * * *".to_string()))
        .unwrap();
    let c2 = db
        .insert_cron_reminder(CronReminder::new(1, T + 10, "c2".to_string(), "* * * * *".to_string()))
        .unwrap();
    let all = db.get_sorted_all_reminders(1);
    assert_eq!(
        keys(&all),
        vec![(T, false, o2), (T, true, c1), (T + 10, true, c2), (T + 20, false, o1)]
    );
    assert_eq!(db.get_sorted_reminders(1, false, false), all);
    assert_eq!(keys(&db.get_sorted_reminders(1, true, false)), vec![(T, true, c1), (T + 10, true, c2)]);
    assert_eq!(
        keys(&db.get_sorted_reminders(1, false, true)),
        vec![(T, false, o2), (T + 20, false, o1)]
    );
    assert_eq!(db.get_sorted_reminders(1, true, true), vec![]);
    assert_eq!(db.get_sorted_all_reminders(3), vec![]);
}
