//! The decisions of the dispatcher.
//!
//! A polling cycle asks the store which reminders are due, hands each to the
//! transport, and tells the store how the delivery went. The transport and
//! the clock are the caller's; what is decided here is which reminders a
//! cycle takes and what a delivery makes of the store.

use vstd::prelude::*;
use crate::cron::cron_next;
use crate::db::{Database, DatabaseView, reschedule_result};
use crate::entity::{RowView, views};
use crate::err::Error;
use crate::generic_reminder::GenericReminder;
use crate::model::{Change, Filter, Key, amended, found_or_missing, lookup, selection};

verus! {

/// How the transport fared with one reminder.
#[derive(Clone, Copy, Debug, PartialEq, Eq)]
pub enum Delivery {
    /// The notification went out.
    Delivered,
    /// The notification did not go out; the next cycle tries again.
    Failed,
}

/// What the transport is handed for a due reminder.
#[derive(Debug, PartialEq, Eq)]
pub struct Notice {
    pub chat_id: i64,
    pub description: String,
    pub recurring: bool,
    /// The message that the notification answers, if one is recorded.
    pub reply_to: Option<i32>,
}

/// The reminders of both kinds that are due at `now`: the one-shot ones in
/// table order, then the recurring ones in table order.
pub open spec fn due(v: DatabaseView, now: i64) -> Seq<RowView> {
    selection(v.reminders, Filter::Due(now)) + selection(v.cron_reminders, Filter::Due(now))
}

/// The reminders that a polling cycle at `now` takes.
pub fn due_reminders(db: &Database, now: i64) -> (r: Vec<GenericReminder>)
    ensures
        views(r@) == due(db@, now),
        forall|i: int|
            0 <= i < r@.len() ==> {
                &&& !(#[trigger] r@[i])@.header.sent
                &&& !r@[i]@.header.paused
                &&& r@[i]@.header.time < now
            },
{
    let mut out: Vec<GenericReminder> = Vec::new();
    let one_shot = db.get_active_reminders(now);
    let cron = db.get_active_cron_reminders(now);
    let ghost a = views(one_shot@);
    let ghost b = views(cron@);
    for rem in it: one_shot
        invariant
            it.seq() == one_shot@,
            a == views(one_shot@),
            views(out@) =~= a.take(it.index() as int),
            forall|i: int| 0 <= i < out@.len() ==> (#[trigger] out@[i])@.header.is_due(now),
            forall|i: int| 0 <= i < one_shot@.len() ==> (#[trigger] one_shot@[i]).header.is_due(now),
    {
        let ghost before = views(out@);
        out.push(GenericReminder::OneShot(rem));
        assert(views(out@) =~= before.push(a[it.index() as int]));
    }
    assert(views(out@) =~= a);
    for rem in it: cron
        invariant
            it.seq() == cron@,
            b == views(cron@),
            views(out@) =~= a + b.take(it.index() as int),
            forall|i: int| 0 <= i < out@.len() ==> (#[trigger] out@[i])@.header.is_due(now),
            forall|i: int| 0 <= i < cron@.len() ==> (#[trigger] cron@[i]).header.is_due(now),
    {
        let ghost before = views(out@);
        out.push(GenericReminder::Cron(rem));
        assert(views(out@) =~= before.push(b[it.index() as int]));
    }
    assert(views(out@) =~= a + b);
    out
}

/// What the transport is handed for `rem`.
pub fn notice(rem: &GenericReminder) -> (n: Notice)
    ensures
        n.chat_id == rem@.header.chat_id,
        n.description@ == rem@.desc,
        n.recurring == rem@.is_cron(),
        n.reply_to == rem@.header.msg_id,
{
    let reply_to = match rem {
        GenericReminder::OneShot(x) => x.header.msg_id,
        GenericReminder::Cron(x) => x.header.msg_id,
    };
    Notice {
        chat_id: rem.chat_id(),
        description: rem.description().clone(),
        recurring: rem.is_cron(),
        reply_to,
    }
}

/// The store after the delivery of `rem` went as `delivery` says. A failed
/// delivery changes nothing. A delivered one-shot reminder is sent. A
/// delivered recurring reminder moves to its next occurrence, computed from
/// the rule and the time that the store holds for it, or is frozen as sent
/// where there is none.
pub open spec fn settled(v: DatabaseView, rem: RowView, delivery: Delivery) -> DatabaseView {
    match delivery {
        Delivery::Failed => v,
        Delivery::Delivered => if rem.is_cron() {
            v.rescheduled(rem.header.id, v.next_of(rem.header.id))
        } else {
            DatabaseView {
                reminders: amended(v.reminders, Key::Id(rem.header.id), Change::Sent),
                ..v
            }
        },
    }
}

/// What the dispatcher learns of the store's part in a delivery.
pub open spec fn settle_result(v: DatabaseView, rem: RowView, delivery: Delivery) -> Result<
    (),
    Error,
> {
    let id = rem.header.id;
    match delivery {
        Delivery::Failed => Ok(()),
        Delivery::Delivered => if rem.is_cron() {
            match reschedule_result(lookup(v.cron_reminders, Key::Id(id)), id, v.next_of(id)) {
                Ok(_) => Ok(()),
                Err(e) => Err(e),
            }
        } else {
            found_or_missing(lookup(v.reminders, Key::Id(id)), id)
        },
    }
}

/// Records in the store how the delivery of the due reminder `rem` went.
pub fn settle(db: &mut Database, rem: &GenericReminder, delivery: Delivery) -> (r: Result<
    (),
    Error,
>)
    requires
        old(db).wf(),
    ensures
        final(db).wf(),
        final(db)@ == settled(old(db)@, rem@, delivery),
        r == settle_result(old(db)@, rem@, delivery),
        old(db)@.single_edit_slot() ==> final(db)@.single_edit_slot(),
{
    match delivery {
        Delivery::Failed => Ok(()),
        Delivery::Delivered => match rem {
            GenericReminder::OneShot(x) => db.mark_reminder_sent(x.header.id),
            GenericReminder::Cron(x) => match db.reschedule_cron_reminder(x.header.id) {
                Ok(_) => Ok(()),
                Err(e) => Err(e),
            },
        },
    }
}

} // verus!
