use remindee::migration::{Migrator, Step};

#[test]
fn history_is_linear() {
    assert_eq!(
        Migrator::migrations(),
        vec![
            Step::CreateUserTimezoneTable,
            Step::CreateReminderTable,
            Step::CreateCronReminderTable,
            Step::CreateUserIdColumns,
            Step::SetUserIdToChatId,
            Step::CreatePausedColumns,
        ]
    );
}

#[test]
fn every_step_occurs_once() {
    let steps = Migrator::migrations();
    for (i, a) in steps.iter().enumerate() {
        for b in steps.iter().skip(i + 1) {
            assert_ne!(a, b);
        }
    }
}
