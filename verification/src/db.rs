//! The reminder store: one table of one-shot reminders, one of recurring
//! reminders, and the users' time zones.
//!
//! Every operation is stated over [`DatabaseView`], the mathematical state
//! of the store, with the model of a table that `model` defines.

use vstd::prelude::*;
use vstd::seq_lib::*;
use crate::cron::{cron_next, next_occurrence};
use crate::entity::{CronReminder, EditMode, Reminder, RowView, UserTimezone, shown, views};
use crate::edit_slot::{
    EditOp, lemma_edit_slot_kept, lemma_editing_after, lemma_empty_single_edit_slot,
};
pub use crate::err::Error;
use crate::generic_reminder::{GenericReminder, equivalent, lemma_sorted_unique, sort, sorted};
use crate::model::{
    Change, Filter, Key, amended, described, found_or_missing, ids_ascending,
    lemma_amended_editing, lemma_described_editing, lemma_marked_editing, lemma_marked_one,
    lemma_released_editing,
    lemma_released_for_editing, lemma_released_keeps_ids, lemma_selection_admitted,
    lemma_selection_ascending, lemma_selection_from_table, lemma_sent_twice, lemma_stored_editing,
    lemma_without_editing, lookup, mark_result, marked, released_for, selection, stored, toggle_result, without,
};
use crate::table::Table;
use crate::timezone::{TimezoneTable, one_row_per_user, zones};

verus! {

/// The state of the store.
pub struct DatabaseView {
    /// The one-shot reminders, in ascending order of id.
    pub reminders: Seq<RowView>,
    /// The recurring reminders, in ascending order of id.
    pub cron_reminders: Seq<RowView>,
    /// The zone name of each user who chose one.
    pub timezones: Map<i64, Seq<char>>,
    /// The id that the next one-shot reminder receives.
    pub next_reminder_id: i64,
    /// The id that the next recurring reminder receives.
    pub next_cron_reminder_id: i64,
}

impl DatabaseView {
    /// The state of a store that holds nothing yet.
    pub open spec fn empty() -> DatabaseView {
        DatabaseView {
            reminders: Seq::empty(),
            cron_reminders: Seq::empty(),
            timezones: Map::empty(),
            next_reminder_id: 1,
            next_cron_reminder_id: 1,
        }
    }

    /// What holds of every state of a store: in each table the ids ascend
    /// and lie below the next id, and each table holds rows of its kind.
    pub open spec fn wf(self) -> bool {
        &&& ids_ascending(self.reminders, self.next_reminder_id)
        &&& ids_ascending(self.cron_reminders, self.next_cron_reminder_id)
        &&& forall|i: int| 0 <= i < self.reminders.len() ==> !(#[trigger] self.reminders[i]).is_cron()
        &&& forall|i: int|
            0 <= i < self.cron_reminders.len() ==> (#[trigger] self.cron_reminders[i]).is_cron()
    }

    /// The state with every one-shot reminder of `chat_id` out of edit
    /// state.
    pub open spec fn reminders_released(self, chat_id: i64) -> DatabaseView {
        DatabaseView { reminders: released_for(self.reminders, chat_id), ..self }
    }

    /// The state with every recurring reminder of `chat_id` out of edit
    /// state.
    pub open spec fn cron_reminders_released(self, chat_id: i64) -> DatabaseView {
        DatabaseView { cron_reminders: released_for(self.cron_reminders, chat_id), ..self }
    }

    /// The state with the edit slot of `chat_id` released in both tables.
    pub open spec fn released(self, chat_id: i64) -> DatabaseView {
        self.reminders_released(chat_id).cron_reminders_released(chat_id)
    }

    /// The state after `chat_id` took the one-shot reminder `rem_id` into
    /// its edit slot: the slot is released in both tables, then the
    /// reminder is put into edit state, if there is one with that id and
    /// the chat owns it.
    pub open spec fn reminder_marked(self, rem_id: i64, chat_id: i64) -> DatabaseView {
        DatabaseView {
            reminders: marked(self.reminders, rem_id, chat_id),
            ..self.released(chat_id)
        }
    }

    /// The state after `chat_id` took the recurring reminder `rem_id` into
    /// its edit slot: the slot is released in both tables, then the
    /// reminder is put into edit state, if there is one with that id and
    /// the chat owns it.
    pub open spec fn cron_reminder_marked(self, rem_id: i64, chat_id: i64) -> DatabaseView {
        DatabaseView {
            cron_reminders: marked(self.cron_reminders, rem_id, chat_id),
            ..self.released(chat_id)
        }
    }

    /// How many reminders of `chat_id`, of both kinds, are in edit state.
    pub open spec fn editing(self, chat_id: i64) -> nat {
        selection(self.reminders, Filter::Editing(chat_id)).len() + selection(
            self.cron_reminders,
            Filter::Editing(chat_id),
        ).len()
    }

    /// In every chat at most one reminder is in edit state.
    pub open spec fn single_edit_slot(self) -> bool {
        forall|chat_id: i64|
            #![trigger self.editing(chat_id)]
            #![trigger selection(self.reminders, Filter::Editing(chat_id))]
            #![trigger selection(self.cron_reminders, Filter::Editing(chat_id))]
            self.editing(chat_id) <= 1
    }

    /// The pending reminders of `chat_id` that a listing shows, before they
    /// are put in order: the one-shot ones unless excluded, then the
    /// recurring ones unless excluded.
    pub open spec fn listing(self, chat_id: i64, exclude_reminders: bool, exclude_cron_reminders: bool) -> Seq<
        RowView,
    > {
        let one_shot = if exclude_reminders {
            Seq::empty()
        } else {
            selection(self.reminders, Filter::Pending(chat_id))
        };
        let cron = if exclude_cron_reminders {
            Seq::empty()
        } else {
            selection(self.cron_reminders, Filter::Pending(chat_id))
        };
        one_shot + cron
    }

    /// The next occurrence of the recurring reminder `id` after its current
    /// time, by its own rule; `None` where the rule yields none or no
    /// recurring reminder has the id.
    pub open spec fn next_of(self, id: i64) -> Option<i64> {
        match lookup(self.cron_reminders, Key::Id(id)) {
            Some(row) => cron_next(row.cron_expr->0, row.header.time),
            None => None,
        }
    }

    /// The state after the recurrence computation for the recurring
    /// reminder `id` came out as `outcome`: the reminder moves to the next
    /// occurrence, or is frozen as sent where there is none.
    pub open spec fn rescheduled(self, id: i64, outcome: Option<i64>) -> DatabaseView {
        let change = match outcome {
            Some(t) => Change::Time(t),
            None => Change::Sent,
        };
        DatabaseView { cron_reminders: amended(self.cron_reminders, Key::Id(id), change), ..self }
    }
}

/// What rescheduling a recurring reminder returns.
pub open spec fn reschedule_result(row: Option<RowView>, id: i64, outcome: Option<i64>) -> Result<
    i64,
    Error,
> {
    match row {
        Some(_) => match outcome {
            Some(t) => Ok(t),
            None => Err(Error::CronParse),
        },
        None => Err(Error::NotFound(id)),
    }
}

/// The whole content of a store as plain rows, as it is written to and read
/// from durable storage.
#[derive(Debug, PartialEq, Eq)]
pub struct Snapshot {
    pub reminders: Vec<Reminder>,
    pub cron_reminders: Vec<CronReminder>,
    pub timezones: Vec<UserTimezone>,
    pub next_reminder_id: i64,
    pub next_cron_reminder_id: i64,
}

impl View for Snapshot {
    type V = DatabaseView;

    open spec fn view(&self) -> DatabaseView {
        DatabaseView {
            reminders: views(self.reminders@),
            cron_reminders: views(self.cron_reminders@),
            timezones: zones(self.timezones@),
            next_reminder_id: self.next_reminder_id,
            next_cron_reminder_id: self.next_cron_reminder_id,
        }
    }
}

impl Snapshot {
    /// Whether the rows can be the content of a store: in each table of
    /// reminders the ids are positive, below the table's next id and
    /// strictly ascending, and no user has two time zones.
    pub open spec fn valid(&self) -> bool {
        &&& ids_ascending(views(self.reminders@), self.next_reminder_id)
        &&& ids_ascending(views(self.cron_reminders@), self.next_cron_reminder_id)
        &&& one_row_per_user(self.timezones@)
    }
}

/// The reminder store.
pub struct Database {
    reminders: Table<Reminder>,
    cron_reminders: Table<CronReminder>,
    timezones: TimezoneTable,
}

impl View for Database {
    type V = DatabaseView;

    closed spec fn view(&self) -> DatabaseView {
        DatabaseView {
            reminders: self.reminders.rows(),
            cron_reminders: self.cron_reminders.rows(),
            timezones: self.timezones@,
            next_reminder_id: self.reminders.next_id(),
            next_cron_reminder_id: self.cron_reminders.next_id(),
        }
    }
}

impl Database {
    /// The store's invariant.
    pub closed spec fn wf(&self) -> bool {
        &&& self.reminders.wf()
        &&& self.cron_reminders.wf()
        &&& self.timezones.wf()
    }

    /// The invariant, as far as the state shows it.
    pub proof fn lemma_wf_view(&self)
        requires
            self.wf(),
        ensures
            self@.wf(),
    {
    }

    /// A store that holds nothing yet.
    pub fn new() -> (db: Database)
        ensures
            db.wf(),
            db@ == DatabaseView::empty(),
            db@.single_edit_slot(),
    {
        proof {
            lemma_empty_single_edit_slot();
        }
        Database {
            reminders: Table::new(),
            cron_reminders: Table::new(),
            timezones: TimezoneTable::new(),
        }
    }

    /// The store that holds the rows of `snapshot`. Fails, with a storage
    /// error, exactly where the snapshot is not valid.
    pub fn restore(snapshot: Snapshot) -> (r: Result<Database, Error>)
        ensures
            match r {
                Ok(db) => db.wf() && db@ == snapshot@ && snapshot.valid(),
                Err(e) => e == Error::Storage && !snapshot.valid(),
            },
    {
        let reminders = match Table::restore(snapshot.reminders, snapshot.next_reminder_id) {
            Ok(t) => t,
            Err(e) => {
                return Err(e);
            },
        };
        let cron_reminders = match Table::restore(
            snapshot.cron_reminders,
            snapshot.next_cron_reminder_id,
        ) {
            Ok(t) => t,
            Err(e) => {
                return Err(e);
            },
        };
        let timezones = match TimezoneTable::restore(snapshot.timezones) {
            Ok(t) => t,
            Err(e) => {
                return Err(e);
            },
        };
        Ok(Database { reminders, cron_reminders, timezones })
    }

    /// The content of the store as plain rows.
    pub fn snapshot(&self) -> (s: Snapshot)
        requires
            self.wf(),
        ensures
            s@ == self@,
            s.valid(),
    {
        Snapshot {
            reminders: self.reminders.to_vec(),
            cron_reminders: self.cron_reminders.to_vec(),
            timezones: self.timezones.to_vec(),
            next_reminder_id: self.reminders.next_free_id(),
            next_cron_reminder_id: self.cron_reminders.next_free_id(),
        }
    }

    /// The one-shot reminder with this id.
    pub fn get_reminder(&self, id: i64) -> (r: Option<Reminder>)
        ensures
            shown(r) == lookup(self@.reminders, Key::Id(id)),
    {
        self.reminders.get(&Key::Id(id))
    }

    /// Stores a new one-shot reminder with the chat, time, description and
    /// message references of `rem`, under the next free id and with every
    /// flag down. Returns the id.
    pub fn insert_reminder(&mut self, rem: Reminder) -> (r: Result<i64, Error>)
        requires
            old(self).wf(),
        ensures
            final(self).wf(),
            old(self)@.single_edit_slot() ==> final(self)@.single_edit_slot(),
            match r {
                Ok(id) => {
                    &&& id == old(self)@.next_reminder_id
                    &&& id < i64::MAX
                    &&& final(self)@ == (DatabaseView {
                        reminders: old(self)@.reminders.push(stored(rem@, id)),
                        next_reminder_id: (id + 1) as i64,
                        ..old(self)@
                    })
                },
                Err(e) => {
                    &&& e == Error::Storage
                    &&& old(self)@.next_reminder_id == i64::MAX
                    &&& final(self)@ == old(self)@
                },
            },
    {
        proof {
            lemma_stored_editing(old(self)@.reminders, rem@, old(self)@.next_reminder_id);
        }
        self.reminders.insert(rem)
    }

    /// Removes the one-shot reminder with this id, if there is one.
    pub fn delete_reminder(&mut self, id: i64)
        requires
            old(self).wf(),
        ensures
            final(self).wf(),
            old(self)@.single_edit_slot() ==> final(self)@.single_edit_slot(),
            final(self)@ == (DatabaseView {
                reminders: without(old(self)@.reminders, id),
                ..old(self)@
            }),
    {
        proof {
            lemma_without_editing(old(self)@.reminders, id);
        }
        self.reminders.delete(id);
    }

    /// Releases the edit slot of `chat_id` in both tables.
    pub fn reset_edit(&mut self, chat_id: i64)
        requires
            old(self).wf(),
        ensures
            final(self).wf(),
            old(self)@.single_edit_slot() ==> final(self)@.single_edit_slot(),
            final(self)@ == old(self)@.released(chat_id),
            final(self)@.editing(chat_id) == 0,
            forall|c: i64|
                c != chat_id ==> #[trigger] final(self)@.editing(c) == old(self)@.editing(c),
    {
        proof {
            assert forall|c: i64| c != chat_id implies #[trigger] old(self)@.released(
                chat_id,
            ).editing(c) == old(self)@.editing(c) by {
                lemma_editing_after(old(self)@, EditOp::Reset { chat_id }, c);
            }
            lemma_released_for_editing(old(self)@.reminders, chat_id);
            lemma_released_for_editing(old(self)@.cron_reminders, chat_id);
            lemma_released_editing(old(self)@.reminders, chat_id, chat_id);
            lemma_released_editing(old(self)@.cron_reminders, chat_id, chat_id);
        }
        self.reminders.reset_edit(chat_id);
        self.cron_reminders.reset_edit(chat_id);
    }

    /// Makes the one-shot reminder `rem_id` the one that `chat_id` edits:
    /// first the chat's edit slot is released in both tables, then the
    /// reminder is put into edit state. The slot is released whatever
    /// follows. Where no one-shot reminder has the id, the call fails with
    /// `NotFound`; where the reminder belongs to another chat, it is left as
    /// it is and the call fails with an edit state violation that names the
    /// owner.
    pub fn mark_reminder_as_edit(&mut self, rem_id: i64, chat_id: i64) -> (r: Result<(), Error>)
        requires
            old(self).wf(),
        ensures
            final(self).wf(),
            final(self)@ == old(self)@.reminder_marked(rem_id, chat_id),
            r == mark_result(lookup(old(self)@.reminders, Key::Id(rem_id)), rem_id, chat_id),
            old(self)@.single_edit_slot() ==> final(self)@.single_edit_slot(),
            final(self)@.editing(chat_id) == (if r is Ok {
                1nat
            } else {
                0nat
            }),
            forall|c: i64|
                c != chat_id ==> #[trigger] final(self)@.editing(c) == old(self)@.editing(c),
    {
        proof {
            assert forall|c: i64| c != chat_id implies #[trigger] old(self)@.reminder_marked(
                rem_id,
                chat_id,
            ).editing(c) == old(self)@.editing(c) by {
                lemma_editing_after(old(self)@, EditOp::MarkReminder { rem_id, chat_id }, c);
            }
            lemma_released_keeps_ids(old(self)@.reminders, chat_id, rem_id);
            lemma_editing_after(old(self)@, EditOp::MarkReminder { rem_id, chat_id }, chat_id);
            lemma_marked_one(old(self)@.reminders, rem_id, chat_id);
            lemma_marked_editing(old(self)@.reminders, rem_id, chat_id, chat_id);
            lemma_released_editing(old(self)@.cron_reminders, chat_id, chat_id);
            if old(self)@.single_edit_slot() {
                lemma_edit_slot_kept(old(self)@, EditOp::MarkReminder { rem_id, chat_id });
            }
        }
        self.reset_edit(chat_id);
        let owner = match self.reminders.peek(&Key::Id(rem_id)) {
            Some(row) => row.header.chat_id,
            None => {
                return Err(Error::NotFound(rem_id));
            },
        };
        if owner != chat_id {
            return Err(Error::EditStateViolation(owner));
        }
        let _ = self.reminders.amend(&Key::Id(rem_id), &Change::Edit);
        Ok(())
    }

    /// Takes every one-shot reminder of `chat_id` out of edit state.
    pub fn reset_reminders_edit(&mut self, chat_id: i64)
        requires
            old(self).wf(),
        ensures
            final(self).wf(),
            old(self)@.single_edit_slot() ==> final(self)@.single_edit_slot(),
            final(self)@ == old(self)@.reminders_released(chat_id),
    {
        proof {
            lemma_released_for_editing(old(self)@.reminders, chat_id);
        }
        self.reminders.reset_edit(chat_id);
    }

    /// The one-shot reminder that `chat_id` edits.
    pub fn get_edit_reminder(&self, chat_id: i64) -> (r: Option<Reminder>)
        ensures
            shown(r) == lookup(self@.reminders, Key::Editing(chat_id)),
    {
        self.reminders.get(&Key::Editing(chat_id))
    }

    /// Selects the field that the next input of `chat_id` replaces in the
    /// one-shot reminder that the chat edits; does nothing where it edits
    /// none.
    pub fn set_edit_mode_reminder(&mut self, chat_id: i64, edit_mode: EditMode)
        requires
            old(self).wf(),
        ensures
            final(self).wf(),
            old(self)@.single_edit_slot() ==> final(self)@.single_edit_slot(),
            final(self)@ == (DatabaseView {
                reminders: amended(
                    old(self)@.reminders,
                    Key::Editing(chat_id),
                    Change::Mode(edit_mode),
                ),
                ..old(self)@
            }),
    {
        proof {
            lemma_amended_editing(old(self)@.reminders, Key::Editing(chat_id), Change::Mode(edit_mode));
        }
        let _ = self.reminders.amend(&Key::Editing(chat_id), &Change::Mode(edit_mode));
    }

    /// Selects the field that the next input of `chat_id` replaces in the
    /// recurring reminder that the chat edits; does nothing where it edits
    /// none.
    pub fn set_edit_mode_cron_reminder(&mut self, chat_id: i64, edit_mode: EditMode)
        requires
            old(self).wf(),
        ensures
            final(self).wf(),
            old(self)@.single_edit_slot() ==> final(self)@.single_edit_slot(),
            final(self)@ == (DatabaseView {
                cron_reminders: amended(
                    old(self)@.cron_reminders,
                    Key::Editing(chat_id),
                    Change::Mode(edit_mode),
                ),
                ..old(self)@
            }),
    {
        proof {
            lemma_amended_editing(old(self)@.cron_reminders, Key::Editing(chat_id), Change::Mode(edit_mode));
        }
        let _ = self.cron_reminders.amend(&Key::Editing(chat_id), &Change::Mode(edit_mode));
    }

    /// Finishes an edit: the stored one-shot reminder with the id of `rem`
    /// takes the description of `rem` and leaves edit state.
    pub fn update_edited_reminder_description(&mut self, rem: Reminder) -> (r: Result<(), Error>)
        requires
            old(self).wf(),
        ensures
            final(self).wf(),
            old(self)@.single_edit_slot() ==> final(self)@.single_edit_slot(),
            final(self)@ == (DatabaseView {
                reminders: described(old(self)@.reminders, rem.header.id, rem.desc@),
                ..old(self)@
            }),
            r == found_or_missing(
                lookup(old(self)@.reminders, Key::Id(rem.header.id)),
                rem.header.id,
            ),
    {
        proof {
            lemma_described_editing(old(self)@.reminders, rem.header.id, rem.desc@);
        }
        let id = rem.header.id;
        if self.reminders.describe(id, rem.desc) {
            Ok(())
        } else {
            Err(Error::NotFound(id))
        }
    }

    /// Finishes an edit: the stored recurring reminder with the id of `rem`
    /// takes the description of `rem` and leaves edit state.
    pub fn update_edited_cron_reminder_description(&mut self, rem: CronReminder) -> (r: Result<
        (),
        Error,
    >)
        requires
            old(self).wf(),
        ensures
            final(self).wf(),
            old(self)@.single_edit_slot() ==> final(self)@.single_edit_slot(),
            final(self)@ == (DatabaseView {
                cron_reminders: described(old(self)@.cron_reminders, rem.header.id, rem.desc@),
                ..old(self)@
            }),
            r == found_or_missing(
                lookup(old(self)@.cron_reminders, Key::Id(rem.header.id)),
                rem.header.id,
            ),
    {
        proof {
            lemma_described_editing(old(self)@.cron_reminders, rem.header.id, rem.desc@);
        }
        let id = rem.header.id;
        if self.cron_reminders.describe(id, rem.desc) {
            Ok(())
        } else {
            Err(Error::NotFound(id))
        }
    }

    /// The one-shot reminders that are due at `now`: not sent, not paused,
    /// and with a time before `now`.
    pub fn get_active_reminders(&self, now: i64) -> (r: Vec<Reminder>)
        ensures
            views(r@) == selection(self@.reminders, Filter::Due(now)),
            forall|i: int|
                0 <= i < r@.len() ==> {
                    &&& !(#[trigger] r@[i]).header.sent
                    &&& !r@[i].header.paused
                    &&& r@[i].header.time < now
                },
    {
        let r = self.reminders.select(&Filter::Due(now));
        proof {
            lemma_selection_admitted(self@.reminders, Filter::Due(now));
            assert forall|i: int| 0 <= i < r@.len() implies (#[trigger] r@[i]).header.is_due(now) by {
                assert(views(r@)[i] == r@[i]@);
            }
        }
        r
    }

    /// The one-shot reminders of `chat_id` that have not been sent.
    pub fn get_pending_chat_reminders(&self, chat_id: i64) -> (r: Vec<Reminder>)
        ensures
            views(r@) == selection(self@.reminders, Filter::Pending(chat_id)),
    {
        self.reminders.select(&Filter::Pending(chat_id))
    }

    /// The zone name that `user_id` chose.
    pub fn get_user_timezone_name(&self, user_id: i64) -> (r: Option<String>)
        requires
            self.wf(),
        ensures
            match r {
                Some(name) => self@.timezones.contains_key(user_id) && self@.timezones[user_id]
                    == name@,
                None => !self@.timezones.contains_key(user_id),
            },
    {
        self.timezones.get(user_id)
    }

    /// Records `timezone` as the zone of `user_id`, in place of the one
    /// recorded before, if any.
    pub fn insert_or_update_user_timezone(&mut self, user_id: i64, timezone: &str)
        requires
            old(self).wf(),
        ensures
            final(self).wf(),
            old(self)@.single_edit_slot() ==> final(self)@.single_edit_slot(),
            final(self)@ == (DatabaseView {
                timezones: old(self)@.timezones.insert(user_id, timezone@),
                ..old(self)@
            }),
    {
        self.timezones.upsert(user_id, timezone);
        assert forall|c: i64| #[trigger] self@.editing(c) == old(self)@.editing(c) by {}
    }

    /// How many users have a zone recorded.
    pub fn timezone_count(&self) -> (n: usize)
        requires
            self.wf(),
        ensures
            self@.timezones.dom().finite(),
            n == self@.timezones.dom().len(),
    {
        self.timezones.len()
    }

    /// The recurring reminder with this id.
    pub fn get_cron_reminder(&self, id: i64) -> (r: Option<CronReminder>)
        ensures
            shown(r) == lookup(self@.cron_reminders, Key::Id(id)),
    {
        self.cron_reminders.get(&Key::Id(id))
    }

    /// Stores a new recurring reminder with the chat, time, texts and
    /// message references of `rem`, under the next free id and with every
    /// flag down. Returns the id.
    pub fn insert_cron_reminder(&mut self, rem: CronReminder) -> (r: Result<i64, Error>)
        requires
            old(self).wf(),
        ensures
            final(self).wf(),
            old(self)@.single_edit_slot() ==> final(self)@.single_edit_slot(),
            match r {
                Ok(id) => {
                    &&& id == old(self)@.next_cron_reminder_id
                    &&& id < i64::MAX
                    &&& final(self)@ == (DatabaseView {
                        cron_reminders: old(self)@.cron_reminders.push(stored(rem@, id)),
                        next_cron_reminder_id: (id + 1) as i64,
                        ..old(self)@
                    })
                },
                Err(e) => {
                    &&& e == Error::Storage
                    &&& old(self)@.next_cron_reminder_id == i64::MAX
                    &&& final(self)@ == old(self)@
                },
            },
    {
        proof {
            lemma_stored_editing(old(self)@.cron_reminders, rem@, old(self)@.next_cron_reminder_id);
        }
        self.cron_reminders.insert(rem)
    }

    /// Removes the recurring reminder with this id, if there is one.
    pub fn delete_cron_reminder(&mut self, id: i64)
        requires
            old(self).wf(),
        ensures
            final(self).wf(),
            old(self)@.single_edit_slot() ==> final(self)@.single_edit_slot(),
            final(self)@ == (DatabaseView {
                cron_reminders: without(old(self)@.cron_reminders, id),
                ..old(self)@
            }),
    {
        proof {
            lemma_without_editing(old(self)@.cron_reminders, id);
        }
        self.cron_reminders.delete(id);
    }

    /// Makes the recurring reminder `rem_id` the one that `chat_id` edits:
    /// first the chat's edit slot is released in both tables, then the
    /// reminder is put into edit state. The slot is released whatever
    /// follows. Where no recurring reminder has the id, the call fails with
    /// `NotFound`; where the reminder belongs to another chat, it is left as
    /// it is and the call fails with an edit state violation that names the
    /// owner.
    pub fn mark_cron_reminder_as_edit(&mut self, rem_id: i64, chat_id: i64) -> (r: Result<(), Error>)
        requires
            old(self).wf(),
        ensures
            final(self).wf(),
            final(self)@ == old(self)@.cron_reminder_marked(rem_id, chat_id),
            r == mark_result(lookup(old(self)@.cron_reminders, Key::Id(rem_id)), rem_id, chat_id),
            old(self)@.single_edit_slot() ==> final(self)@.single_edit_slot(),
            final(self)@.editing(chat_id) == (if r is Ok {
                1nat
            } else {
                0nat
            }),
            forall|c: i64|
                c != chat_id ==> #[trigger] final(self)@.editing(c) == old(self)@.editing(c),
    {
        proof {
            assert forall|c: i64| c != chat_id implies #[trigger] old(self)@.cron_reminder_marked(
                rem_id,
                chat_id,
            ).editing(c) == old(self)@.editing(c) by {
                lemma_editing_after(old(self)@, EditOp::MarkCronReminder { rem_id, chat_id }, c);
            }
            lemma_released_keeps_ids(old(self)@.cron_reminders, chat_id, rem_id);
            lemma_editing_after(old(self)@, EditOp::MarkCronReminder { rem_id, chat_id }, chat_id);
            lemma_marked_one(old(self)@.cron_reminders, rem_id, chat_id);
            lemma_marked_editing(old(self)@.cron_reminders, rem_id, chat_id, chat_id);
            lemma_released_editing(old(self)@.reminders, chat_id, chat_id);
            if old(self)@.single_edit_slot() {
                lemma_edit_slot_kept(old(self)@, EditOp::MarkCronReminder { rem_id, chat_id });
            }
        }
        self.reset_edit(chat_id);
        let owner = match self.cron_reminders.peek(&Key::Id(rem_id)) {
            Some(row) => row.header.chat_id,
            None => {
                return Err(Error::NotFound(rem_id));
            },
        };
        if owner != chat_id {
            return Err(Error::EditStateViolation(owner));
        }
        let _ = self.cron_reminders.amend(&Key::Id(rem_id), &Change::Edit);
        Ok(())
    }

    /// Takes every recurring reminder of `chat_id` out of edit state.
    pub fn reset_cron_reminders_edit(&mut self, chat_id: i64)
        requires
            old(self).wf(),
        ensures
            final(self).wf(),
            old(self)@.single_edit_slot() ==> final(self)@.single_edit_slot(),
            final(self)@ == old(self)@.cron_reminders_released(chat_id),
    {
        proof {
            lemma_released_for_editing(old(self)@.cron_reminders, chat_id);
        }
        self.cron_reminders.reset_edit(chat_id);
    }

    /// The recurring reminder that `chat_id` edits.
    pub fn get_edit_cron_reminder(&self, chat_id: i64) -> (r: Option<CronReminder>)
        ensures
            shown(r) == lookup(self@.cron_reminders, Key::Editing(chat_id)),
    {
        self.cron_reminders.get(&Key::Editing(chat_id))
    }

    /// Pauses the one-shot reminder `id` if it runs, resumes it if it is
    /// paused, and returns whether it is paused now.
    pub fn toggle_reminder_paused(&mut self, id: i64) -> (r: Result<bool, Error>)
        requires
            old(self).wf(),
        ensures
            final(self).wf(),
            old(self)@.single_edit_slot() ==> final(self)@.single_edit_slot(),
            final(self)@ == (DatabaseView {
                reminders: amended(old(self)@.reminders, Key::Id(id), Change::TogglePaused),
                ..old(self)@
            }),
            r == toggle_result(lookup(old(self)@.reminders, Key::Id(id)), id),
    {
        proof {
            lemma_amended_editing(old(self)@.reminders, Key::Id(id), Change::TogglePaused);
        }
        match self.reminders.amend(&Key::Id(id), &Change::TogglePaused) {
            Some(h) => Ok(h.paused),
            None => Err(Error::NotFound(id)),
        }
    }

    /// Pauses the recurring reminder `id` if it runs, resumes it if it is
    /// paused, and returns whether it is paused now.
    pub fn toggle_cron_reminder_paused(&mut self, id: i64) -> (r: Result<bool, Error>)
        requires
            old(self).wf(),
        ensures
            final(self).wf(),
            old(self)@.single_edit_slot() ==> final(self)@.single_edit_slot(),
            final(self)@ == (DatabaseView {
                cron_reminders: amended(
                    old(self)@.cron_reminders,
                    Key::Id(id),
                    Change::TogglePaused,
                ),
                ..old(self)@
            }),
            r == toggle_result(lookup(old(self)@.cron_reminders, Key::Id(id)), id),
    {
        proof {
            lemma_amended_editing(old(self)@.cron_reminders, Key::Id(id), Change::TogglePaused);
        }
        match self.cron_reminders.amend(&Key::Id(id), &Change::TogglePaused) {
            Some(h) => Ok(h.paused),
            None => Err(Error::NotFound(id)),
        }
    }

    /// The recurring reminders that are due at `now`: not sent, not paused,
    /// and with a time before `now`.
    pub fn get_active_cron_reminders(&self, now: i64) -> (r: Vec<CronReminder>)
        ensures
            views(r@) == selection(self@.cron_reminders, Filter::Due(now)),
            forall|i: int|
                0 <= i < r@.len() ==> {
                    &&& !(#[trigger] r@[i]).header.sent
                    &&& !r@[i].header.paused
                    &&& r@[i].header.time < now
                },
    {
        let r = self.cron_reminders.select(&Filter::Due(now));
        proof {
            lemma_selection_admitted(self@.cron_reminders, Filter::Due(now));
            assert forall|i: int| 0 <= i < r@.len() implies (#[trigger] r@[i]).header.is_due(now) by {
                assert(views(r@)[i] == r@[i]@);
            }
        }
        r
    }

    /// The recurring reminders of `chat_id` that have not been sent.
    pub fn get_pending_chat_cron_reminders(&self, chat_id: i64) -> (r: Vec<CronReminder>)
        ensures
            views(r@) == selection(self@.cron_reminders, Filter::Pending(chat_id)),
    {
        self.cron_reminders.select(&Filter::Pending(chat_id))
    }

    /// The pending reminders of `chat_id` in the order of display, without
    /// the one-shot or without the recurring ones where the caller excludes
    /// them.
    pub fn get_sorted_reminders(
        &self,
        chat_id: i64,
        exclude_reminders: bool,
        exclude_cron_reminders: bool,
    ) -> (r: Vec<GenericReminder>)
        ensures
            sorted(views(r@)),
            views(r@).to_multiset() == self@.listing(
                chat_id,
                exclude_reminders,
                exclude_cron_reminders,
            ).to_multiset(),
    {
        let mut all: Vec<GenericReminder> = Vec::new();
        let ghost one_shot = Seq::<RowView>::empty();
        let ghost cron = Seq::<RowView>::empty();
        assert(views(all@) =~= one_shot);
        if !exclude_reminders {
            let pending = self.get_pending_chat_reminders(chat_id);
            proof {
                one_shot = views(pending@);
            }
            for rem in it: pending
                invariant
                    it.seq() == pending@,
                    one_shot == views(pending@),
                    views(all@) =~= one_shot.take(it.index() as int),
            {
                let ghost before = views(all@);
                all.push(GenericReminder::OneShot(rem));
                assert(views(all@) =~= before.push(one_shot[it.index() as int]));
            }
            assert(views(all@) =~= one_shot);
        }
        if !exclude_cron_reminders {
            let pending = self.get_pending_chat_cron_reminders(chat_id);
            proof {
                cron = views(pending@);
            }
            for rem in it: pending
                invariant
                    it.seq() == pending@,
                    cron == views(pending@),
                    views(all@) =~= one_shot + cron.take(it.index() as int),
            {
                let ghost before = views(all@);
                all.push(GenericReminder::Cron(rem));
                assert(views(all@) =~= before.push(cron[it.index() as int]));
            }
        }
        assert(views(all@) =~= one_shot + cron);
        assert(self@.listing(chat_id, exclude_reminders, exclude_cron_reminders) == one_shot + cron);
        sort(all)
    }

    /// All pending reminders of `chat_id` in the order of display.
    pub fn get_sorted_all_reminders(&self, chat_id: i64) -> (r: Vec<GenericReminder>)
        ensures
            sorted(views(r@)),
            views(r@).to_multiset() == self@.listing(chat_id, false, false).to_multiset(),
    {
        self.get_sorted_reminders(chat_id, false, false)
    }

    /// The first one-shot reminder that records the message `msg_id`.
    pub fn get_reminder_by_msg_id(&self, msg_id: i32) -> (r: Option<Reminder>)
        ensures
            shown(r) == lookup(self@.reminders, Key::Message(msg_id)),
    {
        self.reminders.get(&Key::Message(msg_id))
    }

    /// The first recurring reminder that records the message `msg_id`.
    pub fn get_cron_reminder_by_msg_id(&self, msg_id: i32) -> (r: Option<CronReminder>)
        ensures
            shown(r) == lookup(self@.cron_reminders, Key::Message(msg_id)),
    {
        self.cron_reminders.get(&Key::Message(msg_id))
    }

    /// The first one-shot reminder that records the reply `reply_id`.
    pub fn get_reminder_by_reply_id(&self, reply_id: i32) -> (r: Option<Reminder>)
        ensures
            shown(r) == lookup(self@.reminders, Key::Reply(reply_id)),
    {
        self.reminders.get(&Key::Reply(reply_id))
    }

    /// The first recurring reminder that records the reply `reply_id`.
    pub fn get_cron_reminder_by_reply_id(&self, reply_id: i32) -> (r: Option<CronReminder>)
        ensures
            shown(r) == lookup(self@.cron_reminders, Key::Reply(reply_id)),
    {
        self.cron_reminders.get(&Key::Reply(reply_id))
    }

    /// Records `msg_id` in the stored one-shot reminder with the id of `rem`.
    pub fn set_reminder_msg_id(&mut self, rem: Reminder, msg_id: i32) -> (r: Result<(), Error>)
        requires
            old(self).wf(),
        ensures
            final(self).wf(),
            old(self)@.single_edit_slot() ==> final(self)@.single_edit_slot(),
            final(self)@ == (DatabaseView {
                reminders: amended(
                    old(self)@.reminders,
                    Key::Id(rem.header.id),
                    Change::Message(msg_id),
                ),
                ..old(self)@
            }),
            r == found_or_missing(
                lookup(old(self)@.reminders, Key::Id(rem.header.id)),
                rem.header.id,
            ),
    {
        proof {
            lemma_amended_editing(
                old(self)@.reminders,
                Key::Id(rem.header.id),
                Change::Message(msg_id),
            );
        }
        let id = rem.header.id;
        match self.reminders.amend(&Key::Id(id), &Change::Message(msg_id)) {
            Some(_) => Ok(()),
            None => Err(Error::NotFound(id)),
        }
    }

    /// Records `msg_id` in the stored recurring reminder with the id of
    /// `cron_rem`.
    pub fn set_cron_reminder_msg_id(&mut self, cron_rem: CronReminder, msg_id: i32) -> (r: Result<
        (),
        Error,
    >)
        requires
            old(self).wf(),
        ensures
            final(self).wf(),
            old(self)@.single_edit_slot() ==> final(self)@.single_edit_slot(),
            final(self)@ == (DatabaseView {
                cron_reminders: amended(
                    old(self)@.cron_reminders,
                    Key::Id(cron_rem.header.id),
                    Change::Message(msg_id),
                ),
                ..old(self)@
            }),
            r == found_or_missing(
                lookup(old(self)@.cron_reminders, Key::Id(cron_rem.header.id)),
                cron_rem.header.id,
            ),
    {
        proof {
            lemma_amended_editing(
                old(self)@.cron_reminders,
                Key::Id(cron_rem.header.id),
                Change::Message(msg_id),
            );
        }
        let id = cron_rem.header.id;
        match self.cron_reminders.amend(&Key::Id(id), &Change::Message(msg_id)) {
            Some(_) => Ok(()),
            None => Err(Error::NotFound(id)),
        }
    }

    /// Records `reply_id` in the stored one-shot reminder with the id of
    /// `rem`.
    pub fn set_reminder_reply_id(&mut self, rem: Reminder, reply_id: i32) -> (r: Result<(), Error>)
        requires
            old(self).wf(),
        ensures
            final(self).wf(),
            old(self)@.single_edit_slot() ==> final(self)@.single_edit_slot(),
            final(self)@ == (DatabaseView {
                reminders: amended(
                    old(self)@.reminders,
                    Key::Id(rem.header.id),
                    Change::Reply(reply_id),
                ),
                ..old(self)@
            }),
            r == found_or_missing(
                lookup(old(self)@.reminders, Key::Id(rem.header.id)),
                rem.header.id,
            ),
    {
        proof {
            lemma_amended_editing(old(self)@.reminders, Key::Id(rem.header.id), Change::Reply(reply_id));
        }
        let id = rem.header.id;
        match self.reminders.amend(&Key::Id(id), &Change::Reply(reply_id)) {
            Some(_) => Ok(()),
            None => Err(Error::NotFound(id)),
        }
    }

    /// Records `reply_id` in the stored recurring reminder with the id of
    /// `cron_rem`.
    pub fn set_cron_reminder_reply_id(&mut self, cron_rem: CronReminder, reply_id: i32) -> (r: Result<
        (),
        Error,
    >)
        requires
            old(self).wf(),
        ensures
            final(self).wf(),
            old(self)@.single_edit_slot() ==> final(self)@.single_edit_slot(),
            final(self)@ == (DatabaseView {
                cron_reminders: amended(
                    old(self)@.cron_reminders,
                    Key::Id(cron_rem.header.id),
                    Change::Reply(reply_id),
                ),
                ..old(self)@
            }),
            r == found_or_missing(
                lookup(old(self)@.cron_reminders, Key::Id(cron_rem.header.id)),
                cron_rem.header.id,
            ),
    {
        proof {
            lemma_amended_editing(old(self)@.cron_reminders, Key::Id(cron_rem.header.id), Change::Reply(reply_id));
        }
        let id = cron_rem.header.id;
        match self.cron_reminders.amend(&Key::Id(id), &Change::Reply(reply_id)) {
            Some(_) => Ok(()),
            None => Err(Error::NotFound(id)),
        }
    }

    /// Records that the one-shot reminder `id` was delivered. A reminder
    /// that is sent already stays as it is: a second call returns what the
    /// first returned and changes nothing.
    pub fn mark_reminder_sent(&mut self, id: i64) -> (r: Result<(), Error>)
        requires
            old(self).wf(),
        ensures
            final(self).wf(),
            old(self)@.single_edit_slot() ==> final(self)@.single_edit_slot(),
            final(self)@ == (DatabaseView {
                reminders: amended(old(self)@.reminders, Key::Id(id), Change::Sent),
                ..old(self)@
            }),
            r == found_or_missing(lookup(old(self)@.reminders, Key::Id(id)), id),
            lookup(final(self)@.reminders, Key::Id(id)) matches Some(v) ==> v.header.sent,
            found_or_missing(lookup(final(self)@.reminders, Key::Id(id)), id) == r,
            amended(final(self)@.reminders, Key::Id(id), Change::Sent) == final(self)@.reminders,
    {
        proof {
            lemma_sent_twice(old(self)@.reminders, id);
            lemma_amended_editing(old(self)@.reminders, Key::Id(id), Change::Sent);
        }
        match self.reminders.amend(&Key::Id(id), &Change::Sent) {
            Some(_) => Ok(()),
            None => Err(Error::NotFound(id)),
        }
    }

    /// Records that the recurring reminder `id` is not to fire again. A
    /// reminder that is sent already stays as it is: a second call returns
    /// what the first returned and changes nothing.
    pub fn mark_cron_reminder_sent(&mut self, id: i64) -> (r: Result<(), Error>)
        requires
            old(self).wf(),
        ensures
            final(self).wf(),
            old(self)@.single_edit_slot() ==> final(self)@.single_edit_slot(),
            final(self)@ == (DatabaseView {
                cron_reminders: amended(old(self)@.cron_reminders, Key::Id(id), Change::Sent),
                ..old(self)@
            }),
            r == found_or_missing(lookup(old(self)@.cron_reminders, Key::Id(id)), id),
            lookup(final(self)@.cron_reminders, Key::Id(id)) matches Some(v) ==> v.header.sent,
            found_or_missing(lookup(final(self)@.cron_reminders, Key::Id(id)), id) == r,
            amended(final(self)@.cron_reminders, Key::Id(id), Change::Sent) == final(self)@.cron_reminders,
    {
        proof {
            lemma_sent_twice(old(self)@.cron_reminders, id);
            lemma_amended_editing(old(self)@.cron_reminders, Key::Id(id), Change::Sent);
        }
        match self.cron_reminders.amend(&Key::Id(id), &Change::Sent) {
            Some(_) => Ok(()),
            None => Err(Error::NotFound(id)),
        }
    }

    /// Takes the outcome of the recurrence computation for the recurring
    /// reminder `id`: with a next occurrence the reminder moves there and
    /// stays unsent; without one it is frozen as sent and the call fails.
    pub fn advance_cron_reminder(&mut self, id: i64, outcome: Option<i64>) -> (r: Result<i64, Error>)
        requires
            old(self).wf(),
        ensures
            final(self).wf(),
            old(self)@.single_edit_slot() ==> final(self)@.single_edit_slot(),
            final(self)@ == old(self)@.rescheduled(id, outcome),
            r == reschedule_result(lookup(old(self)@.cron_reminders, Key::Id(id)), id, outcome),
    {
        proof {
            lemma_amended_editing(old(self)@.cron_reminders, Key::Id(id), Change::Sent);
            if outcome is Some {
                lemma_amended_editing(old(self)@.cron_reminders, Key::Id(id), Change::Time(outcome->0));
            }
        }
        let change = match outcome {
            Some(t) => Change::Time(t),
            None => Change::Sent,
        };
        match self.cron_reminders.amend(&Key::Id(id), &change) {
            Some(_) => match outcome {
                Some(t) => Ok(t),
                None => Err(Error::CronParse),
            },
            None => Err(Error::NotFound(id)),
        }
    }

    /// Moves the recurring reminder `id` from the occurrence that has just
    /// fired to the next one, computed from its rule and its current time.
    /// Where the rule yields none, the reminder is frozen as sent and the
    /// call fails.
    pub fn reschedule_cron_reminder(&mut self, id: i64) -> (r: Result<i64, Error>)
        requires
            old(self).wf(),
        ensures
            final(self).wf(),
            old(self)@.single_edit_slot() ==> final(self)@.single_edit_slot(),
            final(self)@ == old(self)@.rescheduled(id, old(self)@.next_of(id)),
            r == reschedule_result(
                lookup(old(self)@.cron_reminders, Key::Id(id)),
                id,
                old(self)@.next_of(id),
            ),
            r matches Ok(t) ==> lookup(old(self)@.cron_reminders, Key::Id(id))->0.header.time < t,
    {
        let outcome = match self.cron_reminders.peek(&Key::Id(id)) {
            Some(row) => match next_occurrence(row.cron_expr.as_str(), row.header.time) {
                Ok(t) => Some(t),
                Err(_) => None,
            },
            None => {
                return Err(Error::NotFound(id));
            },
        };
        self.advance_cron_reminder(id, outcome)
    }

    /// Checks the edit slot of `chat_id`: fails where more than one of the
    /// chat's reminders, of both kinds together, is in edit state.
    pub fn check_edit_slot(&self, chat_id: i64) -> (r: Result<(), Error>)
        ensures
            r == if self@.editing(chat_id) <= 1 {
                Ok::<(), Error>(())
            } else {
                Err::<(), Error>(Error::EditStateViolation(chat_id))
            },
    {
        let a = self.reminders.count(&Filter::Editing(chat_id));
        if a > 1 {
            return Err(Error::EditStateViolation(chat_id));
        }
        let b = self.cron_reminders.count(&Filter::Editing(chat_id));
        if b > 1 - a {
            Err(Error::EditStateViolation(chat_id))
        } else {
            Ok(())
        }
    }
}

/// What a listing shows is settled by the store alone: whatever sorted list
/// holds the pending reminders of a chat, it is the one list in the order
/// of display.
pub proof fn lemma_listing_order_unique(
    v: DatabaseView,
    chat_id: i64,
    exclude_reminders: bool,
    exclude_cron_reminders: bool,
    s: Seq<RowView>,
    t: Seq<RowView>,
)
    requires
        v.wf(),
        sorted(s),
        sorted(t),
        s.to_multiset() == v.listing(chat_id, exclude_reminders, exclude_cron_reminders).to_multiset(),
        t.to_multiset() == v.listing(chat_id, exclude_reminders, exclude_cron_reminders).to_multiset(),
    ensures
        s == t,
{
    broadcast use group_to_multiset_ensures;

    let listing = v.listing(chat_id, exclude_reminders, exclude_cron_reminders);
    let filter = Filter::Pending(chat_id);
    let one_shot = if exclude_reminders {
        Seq::<RowView>::empty()
    } else {
        selection(v.reminders, filter)
    };
    let cron = if exclude_cron_reminders {
        Seq::<RowView>::empty()
    } else {
        selection(v.cron_reminders, filter)
    };
    lemma_selection_ascending(v.reminders, v.next_reminder_id, filter);
    lemma_selection_ascending(v.cron_reminders, v.next_cron_reminder_id, filter);
    assert forall|i: int| 0 <= i < one_shot.len() implies !(#[trigger] one_shot[i]).is_cron() by {
        lemma_selection_from_table(v.reminders, filter, i);
    }
    assert forall|i: int| 0 <= i < cron.len() implies (#[trigger] cron[i]).is_cron() by {
        lemma_selection_from_table(v.cron_reminders, filter, i);
    }
    assert forall|a: RowView, b: RowView|
        s.contains(a) && s.contains(b) && equivalent(a, b) implies a == b by {
        assert(listing.to_multiset().count(a) > 0 && listing.to_multiset().count(b) > 0);
        assert(listing.contains(a) && listing.contains(b));
        let i = choose|i: int| 0 <= i < listing.len() && listing[i] == a;
        let j = choose|j: int| 0 <= j < listing.len() && listing[j] == b;
        if i < one_shot.len() {
            assert(listing[i] == one_shot[i]);
        } else {
            assert(listing[i] == cron[i - one_shot.len()]);
        }
        if j < one_shot.len() {
            assert(listing[j] == one_shot[j]);
        } else {
            assert(listing[j] == cron[j - one_shot.len()]);
        }
        assert(i == j);
    }
    lemma_no_repeats(listing, s);
    assert forall|i: int, j: int| 0 <= i < j < s.len() implies !equivalent(
        #[trigger] s[i],
        #[trigger] s[j],
    ) by {
        assert(s.contains(s[i]) && s.contains(s[j]));
    }
    lemma_sorted_unique(s, t);
}

/// A list that holds the reminders of a listing holds none of them twice.
proof fn lemma_no_repeats(listing: Seq<RowView>, s: Seq<RowView>)
    requires
        s.to_multiset() == listing.to_multiset(),
        listing.no_duplicates(),
    ensures
        s.no_duplicates(),
{
    listing.lemma_multiset_has_no_duplicates();
    s.lemma_multiset_has_no_duplicates_conv();
}

} // verus!
