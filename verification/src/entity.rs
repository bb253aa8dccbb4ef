//! The rows of the reminder store and their mathematical views.
//!
//! A one-shot reminder and a recurring reminder carry the same [`Header`];
//! the recurring one adds its cron expression. Both are seen by contracts as
//! a [`RowView`], so that one model of a table serves both kinds.

use vstd::prelude::*;

verus! {

/// Which field of the reminder in a chat's edit slot the next user input
/// replaces.
#[derive(Clone, Copy, Debug, PartialEq, Eq, Structural)]
pub enum EditMode {
    /// No field is selected.
    Unset,
    /// The next input replaces the description.
    Description,
    /// The next input replaces the due time.
    Time,
}

/// The keys and flags that every reminder carries.
///
/// `time` is an absolute UTC instant in whole seconds since the Unix epoch.
#[derive(Clone, Copy, Debug, PartialEq, Eq)]
pub struct Header {
    pub id: i64,
    pub chat_id: i64,
    pub time: i64,
    pub sent: bool,
    pub paused: bool,
    pub edit: bool,
    pub edit_mode: EditMode,
    pub msg_id: Option<i32>,
    pub reply_id: Option<i32>,
}

impl Header {
    /// The header of a reminder that has not been stored yet: no identity,
    /// every flag down, no message references.
    pub fn new(chat_id: i64, time: i64) -> (h: Header)
        ensures
            h == Header::fresh(0, chat_id, time, None, None),
    {
        Header {
            id: 0,
            chat_id,
            time,
            sent: false,
            paused: false,
            edit: false,
            edit_mode: EditMode::Unset,
            msg_id: None,
            reply_id: None,
        }
    }

    /// The header a row has right after creation.
    pub open spec fn fresh(
        id: i64,
        chat_id: i64,
        time: i64,
        msg_id: Option<i32>,
        reply_id: Option<i32>,
    ) -> Header {
        Header {
            id,
            chat_id,
            time,
            sent: false,
            paused: false,
            edit: false,
            edit_mode: EditMode::Unset,
            msg_id,
            reply_id,
        }
    }

    /// A reminder is due at `now` when its time has passed and it is neither
    /// sent nor paused.
    pub open spec fn is_due(self, now: i64) -> bool {
        !self.sent && !self.paused && self.time < now
    }

    /// A reminder is pending for `chat_id` when that chat owns it and it has
    /// not been sent.
    pub open spec fn is_pending(self, chat_id: i64) -> bool {
        self.chat_id == chat_id && !self.sent
    }

    /// Whether the reminder occupies the edit slot of `chat_id`.
    pub open spec fn is_editing(self, chat_id: i64) -> bool {
        self.chat_id == chat_id && self.edit
    }

    /// The same header with the edit slot released.
    pub open spec fn released(self) -> Header {
        Header { edit: false, edit_mode: EditMode::Unset, ..self }
    }
}

/// What a contract sees of a reminder of either kind. `cron_expr` is `None`
/// for a one-shot reminder and holds the recurrence rule of a recurring one.
pub struct RowView {
    pub header: Header,
    pub desc: Seq<char>,
    pub cron_expr: Option<Seq<char>>,
}

impl RowView {
    /// Whether the reminder is a recurring one.
    pub open spec fn is_cron(self) -> bool {
        self.cron_expr is Some
    }

    /// The same reminder under another header.
    pub open spec fn with_header(self, header: Header) -> RowView {
        RowView { header, ..self }
    }
}

/// What the store needs of a row, whichever kind of reminder it holds.
pub trait Row: View<V = RowView> + Sized {
    /// Whether rows of this type are recurring reminders.
    spec fn recurring() -> bool;

    /// A row of this type is of the kind that the type says.
    proof fn lemma_kind(&self)
        ensures
            self@.is_cron() == Self::recurring(),
    ;

    /// The row's keys and flags.
    fn header(&self) -> (h: Header)
        ensures
            h == self@.header,
    ;

    /// Replaces the row's keys and flags and leaves its texts.
    fn set_header(&mut self, header: Header)
        ensures
            final(self)@ == old(self)@.with_header(header),
    ;

    /// Replaces the row's description and leaves the rest.
    fn set_desc(&mut self, desc: String)
        ensures
            final(self)@ == (RowView { desc: desc@, ..old(self)@ }),
    ;

    /// A copy of the row.
    fn duplicate(&self) -> (r: Self)
        ensures
            r@ == self@,
    ;
}

/// A reminder that fires exactly once, at `header.time`.
#[derive(Debug, PartialEq, Eq)]
pub struct Reminder {
    pub header: Header,
    pub desc: String,
}

impl View for Reminder {
    type V = RowView;

    open spec fn view(&self) -> RowView {
        RowView { header: self.header, desc: self.desc@, cron_expr: None }
    }
}

impl Clone for Reminder {
    fn clone(&self) -> (r: Self)
        ensures
            r == *self,
    {
        Reminder { header: self.header, desc: self.desc.clone() }
    }
}

impl Reminder {
    /// A reminder for `chat_id`, due at `time`, ready to be stored.
    pub fn new(chat_id: i64, time: i64, desc: String) -> (r: Reminder)
        ensures
            r.header == Header::fresh(0, chat_id, time, None, None),
            r.desc == desc,
    {
        Reminder { header: Header::new(chat_id, time), desc }
    }
}

impl Row for Reminder {
    open spec fn recurring() -> bool {
        false
    }

    proof fn lemma_kind(&self) {
    }

    fn header(&self) -> (h: Header) {
        self.header
    }

    fn set_header(&mut self, header: Header) {
        self.header = header;
    }

    fn set_desc(&mut self, desc: String) {
        self.desc = desc;
    }

    fn duplicate(&self) -> (r: Self) {
        self.clone()
    }
}

/// A recurring reminder: `header.time` is its next occurrence, and
/// `cron_expr` the rule that yields the one after.
#[derive(Debug, PartialEq, Eq)]
pub struct CronReminder {
    pub header: Header,
    pub desc: String,
    pub cron_expr: String,
}

impl View for CronReminder {
    type V = RowView;

    open spec fn view(&self) -> RowView {
        RowView { header: self.header, desc: self.desc@, cron_expr: Some(self.cron_expr@) }
    }
}

impl Clone for CronReminder {
    fn clone(&self) -> (r: Self)
        ensures
            r == *self,
    {
        CronReminder {
            header: self.header,
            desc: self.desc.clone(),
            cron_expr: self.cron_expr.clone(),
        }
    }
}

impl CronReminder {
    /// A recurring reminder for `chat_id` whose next occurrence is `time`,
    /// ready to be stored.
    pub fn new(chat_id: i64, time: i64, desc: String, cron_expr: String) -> (r: CronReminder)
        ensures
            r.header == Header::fresh(0, chat_id, time, None, None),
            r.desc == desc,
            r.cron_expr == cron_expr,
    {
        CronReminder { header: Header::new(chat_id, time), desc, cron_expr }
    }
}

impl Row for CronReminder {
    open spec fn recurring() -> bool {
        true
    }

    proof fn lemma_kind(&self) {
    }

    fn header(&self) -> (h: Header) {
        self.header
    }

    fn set_header(&mut self, header: Header) {
        self.header = header;
    }

    fn set_desc(&mut self, desc: String) {
        self.desc = desc;
    }

    fn duplicate(&self) -> (r: Self) {
        self.clone()
    }
}

/// The time zone a user chose, by IANA name.
#[derive(Debug, PartialEq, Eq)]
pub struct UserTimezone {
    pub user_id: i64,
    pub timezone: String,
}

/// The view of a reminder that may be absent.
pub open spec fn shown<T: View<V = RowView>>(row: Option<T>) -> Option<RowView> {
    match row {
        Some(r) => Some(r@),
        None => None,
    }
}

/// The views of a sequence of reminders, in the same order.
pub open spec fn views<T: View<V = RowView>>(rows: Seq<T>) -> Seq<RowView> {
    Seq::new(rows.len(), |i: int| rows[i]@)
}

} // verus!
