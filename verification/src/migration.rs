//! The history of the persisted schema: which steps there are, and in which
//! order they are applied. The history is linear and only ever grows at its
//! end.

use vstd::prelude::*;

verus! {

/// One step of the schema's history.
#[derive(Clone, Copy, Debug, PartialEq, Eq)]
pub enum Step {
    /// The table of user time zones.
    CreateUserTimezoneTable,
    /// The table of one-shot reminders.
    CreateReminderTable,
    /// The table of recurring reminders.
    CreateCronReminderTable,
    /// An owner column in both tables of reminders.
    CreateUserIdColumns,
    /// The owner columns become the chat columns.
    SetUserIdToChatId,
    /// A paused flag in both tables of reminders.
    CreatePausedColumns,
}

/// The steps of the history, the oldest first.
pub struct Migrator;

impl Migrator {
    /// The history of the schema.
    pub open spec fn history() -> Seq<Step> {
        seq![
            Step::CreateUserTimezoneTable,
            Step::CreateReminderTable,
            Step::CreateCronReminderTable,
            Step::CreateUserIdColumns,
            Step::SetUserIdToChatId,
            Step::CreatePausedColumns,
        ]
    }

    /// The steps in the order in which they are applied.
    pub fn migrations() -> (r: Vec<Step>)
        ensures
            r@ == Migrator::history(),
    {
        let r = vec![
            Step::CreateUserTimezoneTable,
            Step::CreateReminderTable,
            Step::CreateCronReminderTable,
            Step::CreateUserIdColumns,
            Step::SetUserIdToChatId,
            Step::CreatePausedColumns,
        ];
        assert(r@ =~= Migrator::history());
        r
    }
}

} // verus!
