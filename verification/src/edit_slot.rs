//! The edit slot: of all the reminders of a chat, in both tables together,
//! at most one is in edit state.
//!
//! The slot is kept by the way a reminder is taken into it: the chat's slot
//! is released first, in both tables, and only then is the reminder put into
//! edit state, and only a reminder of that chat.

use vstd::prelude::*;
use crate::db::DatabaseView;
use crate::entity::RowView;
use crate::model::{
    Filter, lemma_marked_editing, lemma_released_editing, lemma_selection_none,
};

verus! {

/// An operation of the store that takes a reminder into an edit slot or
/// releases one.
pub enum EditOp {
    /// `chat_id` takes the one-shot reminder `rem_id` into its slot.
    MarkReminder { rem_id: i64, chat_id: i64 },
    /// `chat_id` takes the recurring reminder `rem_id` into its slot.
    MarkCronReminder { rem_id: i64, chat_id: i64 },
    /// The slot of `chat_id` is released in both tables.
    Reset { chat_id: i64 },
    /// The one-shot reminders of `chat_id` leave edit state.
    ResetReminders { chat_id: i64 },
    /// The recurring reminders of `chat_id` leave edit state.
    ResetCronReminders { chat_id: i64 },
}

impl EditOp {
    /// The state after the operation.
    pub open spec fn apply(self, v: DatabaseView) -> DatabaseView {
        match self {
            EditOp::MarkReminder { rem_id, chat_id } => v.reminder_marked(rem_id, chat_id),
            EditOp::MarkCronReminder { rem_id, chat_id } => v.cron_reminder_marked(rem_id, chat_id),
            EditOp::Reset { chat_id } => v.released(chat_id),
            EditOp::ResetReminders { chat_id } => v.reminders_released(chat_id),
            EditOp::ResetCronReminders { chat_id } => v.cron_reminders_released(chat_id),
        }
    }
}

/// The state after a sequence of operations, the first one first.
pub open spec fn after(v: DatabaseView, ops: Seq<EditOp>) -> DatabaseView
    decreases ops.len(),
{
    if ops.len() == 0 {
        v
    } else {
        ops.last().apply(after(v, ops.drop_last()))
    }
}

/// How an operation changes the number of reminders that a chat has in edit
/// state: a chat that takes a reminder into its slot has at most one
/// afterwards, whatever it had before; a chat whose slot is released in both
/// tables has none; and no operation gives any chat more than it had, but
/// for the one reminder that a chat takes into its own slot.
pub proof fn lemma_editing_after(v: DatabaseView, op: EditOp, chat: i64)
    ensures
        match op {
            EditOp::MarkReminder { rem_id, chat_id } => if chat == chat_id {
                op.apply(v).editing(chat) <= 1
            } else {
                op.apply(v).editing(chat) == v.editing(chat)
            },
            EditOp::MarkCronReminder { rem_id, chat_id } => if chat == chat_id {
                op.apply(v).editing(chat) <= 1
            } else {
                op.apply(v).editing(chat) == v.editing(chat)
            },
            EditOp::Reset { chat_id } => if chat == chat_id {
                op.apply(v).editing(chat) == 0
            } else {
                op.apply(v).editing(chat) == v.editing(chat)
            },
            _ => op.apply(v).editing(chat) <= v.editing(chat),
        },
{
    match op {
        EditOp::MarkReminder { rem_id, chat_id } => {
            lemma_marked_editing(v.reminders, rem_id, chat_id, chat);
            lemma_released_editing(v.cron_reminders, chat_id, chat);
        },
        EditOp::MarkCronReminder { rem_id, chat_id } => {
            lemma_marked_editing(v.cron_reminders, rem_id, chat_id, chat);
            lemma_released_editing(v.reminders, chat_id, chat);
        },
        EditOp::Reset { chat_id } => {
            lemma_released_editing(v.reminders, chat_id, chat);
            lemma_released_editing(v.cron_reminders, chat_id, chat);
        },
        EditOp::ResetReminders { chat_id } => {
            lemma_released_editing(v.reminders, chat_id, chat);
        },
        EditOp::ResetCronReminders { chat_id } => {
            lemma_released_editing(v.cron_reminders, chat_id, chat);
        },
    }
}

/// Every operation keeps the edit slot of every chat.
pub proof fn lemma_edit_slot_kept(v: DatabaseView, op: EditOp)
    requires
        v.single_edit_slot(),
    ensures
        op.apply(v).single_edit_slot(),
{
    let w = op.apply(v);
    assert forall|c: i64| #[trigger] w.editing(c) <= 1 by {
        assert(v.editing(c) <= 1);
        lemma_editing_after(v, op, c);
    }
}

/// The edit slot is an invariant of the store: from a state in which every
/// chat has at most one reminder in edit state, any sequence of operations
/// that take a reminder into a slot or release a slot leads to such a state
/// again.
pub proof fn lemma_edit_slot_invariant(v: DatabaseView, ops: Seq<EditOp>)
    requires
        v.single_edit_slot(),
    ensures
        after(v, ops).single_edit_slot(),
    decreases ops.len(),
{
    if ops.len() > 0 {
        lemma_edit_slot_invariant(v, ops.drop_last());
        lemma_edit_slot_kept(after(v, ops.drop_last()), ops.last());
    }
}

/// In a store that holds nothing, no chat has a reminder in edit state.
pub proof fn lemma_empty_single_edit_slot()
    ensures
        DatabaseView::empty().single_edit_slot(),
{
    assert forall|c: i64| #[trigger] DatabaseView::empty().editing(c) <= 1 by {
        lemma_selection_none(Seq::<RowView>::empty(), Filter::Editing(c));
    }
}

} // verus!
