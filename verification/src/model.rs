//! The model of a table of reminders: over a sequence of [`RowView`]s, which
//! row a key selects, which rows a listing takes, and what a change makes of
//! the table; and what follows from these definitions.

use vstd::prelude::*;
use crate::entity::{EditMode, Header, RowView};
use crate::err::Error;

verus! {

/// How a single row is looked up.
#[derive(Clone, Copy, Debug, PartialEq, Eq)]
pub enum Key {
    /// The row with this id.
    Id(i64),
    /// The first row that records this message.
    Message(i32),
    /// The first row that records this reply.
    Reply(i32),
    /// The first row of this chat that is in edit state.
    Editing(i64),
}

impl Key {
    /// Whether the key selects a row with this header.
    pub open spec fn selects(self, h: Header) -> bool {
        match self {
            Key::Id(id) => h.id == id,
            Key::Message(msg_id) => h.msg_id == Some(msg_id),
            Key::Reply(reply_id) => h.reply_id == Some(reply_id),
            Key::Editing(chat_id) => h.is_editing(chat_id),
        }
    }

    /// Decides [`Key::selects`].
    pub fn test(&self, h: &Header) -> (b: bool)
        ensures
            b == self.selects(*h),
    {
        match self {
            Key::Id(id) => h.id == *id,
            Key::Message(msg_id) => match h.msg_id {
                Some(m) => m == *msg_id,
                None => false,
            },
            Key::Reply(reply_id) => match h.reply_id {
                Some(r) => r == *reply_id,
                None => false,
            },
            Key::Editing(chat_id) => h.chat_id == *chat_id && h.edit,
        }
    }
}

/// `i` is the position of the first row that `key` selects.
pub open spec fn is_first(rows: Seq<RowView>, key: Key, i: int) -> bool {
    &&& 0 <= i < rows.len()
    &&& key.selects(rows[i].header)
    &&& forall|j: int| 0 <= j < i ==> !key.selects(#[trigger] rows[j].header)
}

/// Whether `key` selects any row.
pub open spec fn found(rows: Seq<RowView>, key: Key) -> bool {
    exists|i: int| is_first(rows, key, i)
}

/// The position of the first row that `key` selects, where there is one.
pub open spec fn position(rows: Seq<RowView>, key: Key) -> int {
    choose|i: int| is_first(rows, key, i)
}

/// The first row that `key` selects.
pub open spec fn lookup(rows: Seq<RowView>, key: Key) -> Option<RowView> {
    if found(rows, key) {
        Some(rows[position(rows, key)])
    } else {
        None
    }
}

/// A change to the header of one row.
#[derive(Clone, Copy, Debug, PartialEq, Eq)]
pub enum Change {
    /// Put the row into edit state.
    Edit,
    /// Select the field that the next input replaces.
    Mode(EditMode),
    /// Pause a running row, resume a paused one.
    TogglePaused,
    /// Record that the row was delivered.
    Sent,
    /// Record the message that the row answers.
    Message(i32),
    /// Record the reply that belongs to the row.
    Reply(i32),
    /// Move the row to another due time.
    Time(i64),
}

impl Change {
    /// The header after the change.
    pub open spec fn apply(self, h: Header) -> Header {
        match self {
            Change::Edit => Header { edit: true, ..h },
            Change::Mode(edit_mode) => Header { edit_mode, ..h },
            Change::TogglePaused => Header { paused: !h.paused, ..h },
            Change::Sent => Header { sent: true, ..h },
            Change::Message(msg_id) => Header { msg_id: Some(msg_id), ..h },
            Change::Reply(reply_id) => Header { reply_id: Some(reply_id), ..h },
            Change::Time(time) => Header { time, ..h },
        }
    }

    /// Computes [`Change::apply`].
    pub fn apply_to(&self, h: Header) -> (r: Header)
        ensures
            r == self.apply(h),
    {
        match self {
            Change::Edit => Header { edit: true, ..h },
            Change::Mode(edit_mode) => Header { edit_mode: *edit_mode, ..h },
            Change::TogglePaused => Header { paused: !h.paused, ..h },
            Change::Sent => Header { sent: true, ..h },
            Change::Message(msg_id) => Header { msg_id: Some(*msg_id), ..h },
            Change::Reply(reply_id) => Header { reply_id: Some(*reply_id), ..h },
            Change::Time(time) => Header { time: *time, ..h },
        }
    }
}

/// Which rows a listing takes.
#[derive(Clone, Copy, Debug, PartialEq, Eq)]
pub enum Filter {
    /// The rows that are due at this instant.
    Due(i64),
    /// The unsent rows of this chat.
    Pending(i64),
    /// The rows of this chat that are in edit state.
    Editing(i64),
}

impl Filter {
    /// Whether the listing takes a row with this header.
    pub open spec fn admits(self, h: Header) -> bool {
        match self {
            Filter::Due(now) => h.is_due(now),
            Filter::Pending(chat_id) => h.is_pending(chat_id),
            Filter::Editing(chat_id) => h.is_editing(chat_id),
        }
    }

    /// Decides [`Filter::admits`].
    pub fn test(&self, h: &Header) -> (b: bool)
        ensures
            b == self.admits(*h),
    {
        match self {
            Filter::Due(now) => !h.sent && !h.paused && h.time < *now,
            Filter::Pending(chat_id) => h.chat_id == *chat_id && !h.sent,
            Filter::Editing(chat_id) => h.chat_id == *chat_id && h.edit,
        }
    }
}

/// The rows that `filter` takes, in table order.
pub open spec fn selection(rows: Seq<RowView>, filter: Filter) -> Seq<RowView> {
    rows.filter(|v: RowView| filter.admits(v.header))
}

/// 1 where the filter takes a row with this header, 0 where it does not.
pub open spec fn weight(filter: Filter, h: Header) -> nat {
    if filter.admits(h) {
        1
    } else {
        0
    }
}

/// Ids are positive, below `next_id`, and strictly ascending along the table.
pub open spec fn ids_ascending(rows: Seq<RowView>, next_id: i64) -> bool {
    &&& 1 <= next_id
    &&& forall|i: int| 0 <= i < rows.len() ==> 1 <= (#[trigger] rows[i]).header.id < next_id
    &&& forall|i: int, j: int|
        0 <= i < j < rows.len() ==> (#[trigger] rows[i]).header.id < (#[trigger] rows[j]).header.id
}

/// The row that is stored for `row` under `id`: the caller's chat, time,
/// message references and texts, with every flag down.
pub open spec fn stored(row: RowView, id: i64) -> RowView {
    row.with_header(
        Header::fresh(id, row.header.chat_id, row.header.time, row.header.msg_id, row.header.reply_id),
    )
}

/// The table without the row that has this id.
pub open spec fn without(rows: Seq<RowView>, id: i64) -> Seq<RowView> {
    if found(rows, Key::Id(id)) {
        rows.remove(position(rows, Key::Id(id)))
    } else {
        rows
    }
}

/// The table with the edit slot of `chat_id` released: every row of that
/// chat leaves edit state, every other row is as before.
pub open spec fn released_for(rows: Seq<RowView>, chat_id: i64) -> Seq<RowView> {
    Seq::new(
        rows.len(),
        |i: int|
            if rows[i].header.chat_id == chat_id {
                rows[i].with_header(rows[i].header.released())
            } else {
                rows[i]
            },
    )
}

/// The table with `change` made to the first row that `key` selects; the
/// table as it is where `key` selects none.
pub open spec fn amended(rows: Seq<RowView>, key: Key, change: Change) -> Seq<RowView> {
    if found(rows, key) {
        let i = position(rows, key);
        rows.update(i, rows[i].with_header(change.apply(rows[i].header)))
    } else {
        rows
    }
}

/// The table in which the row with this id has the new description and has
/// left edit state; the table as it is where no row has the id.
pub open spec fn described(rows: Seq<RowView>, id: i64, desc: Seq<char>) -> Seq<RowView> {
    if found(rows, Key::Id(id)) {
        let i = position(rows, Key::Id(id));
        rows.update(i, RowView { header: rows[i].header.released(), desc, ..rows[i] })
    } else {
        rows
    }
}

/// Whether the table holds a row with this id that `chat_id` owns.
pub open spec fn owned(rows: Seq<RowView>, id: i64, chat_id: i64) -> bool {
    lookup(rows, Key::Id(id)) matches Some(v) && v.header.chat_id == chat_id
}

/// The table after `chat_id` took the row `id` into its edit slot: the
/// chat's slot is released, and then the row is put into edit state if the
/// chat owns it. A row of another chat is left as it is.
pub open spec fn marked(rows: Seq<RowView>, id: i64, chat_id: i64) -> Seq<RowView> {
    if owned(rows, id, chat_id) {
        amended(released_for(rows, chat_id), Key::Id(id), Change::Edit)
    } else {
        released_for(rows, chat_id)
    }
}

/// What taking the row `id` into the edit slot of `chat_id` returns: `Ok`
/// for a row of that chat, `NotFound` where there is no such row, and an
/// edit state violation, with the owner, for a row of another chat.
pub open spec fn mark_result(row: Option<RowView>, id: i64, chat_id: i64) -> Result<(), Error> {
    match row {
        Some(v) => if v.header.chat_id == chat_id {
            Ok(())
        } else {
            Err(Error::EditStateViolation(v.header.chat_id))
        },
        None => Err(Error::NotFound(id)),
    }
}

/// `Ok` where a row was found, `NotFound` with the id where none was.
pub open spec fn found_or_missing(row: Option<RowView>, id: i64) -> Result<(), Error> {
    match row {
        Some(_) => Ok(()),
        None => Err(Error::NotFound(id)),
    }
}

/// What toggling the pause of a row returns: the new value of its flag.
pub open spec fn toggle_result(row: Option<RowView>, id: i64) -> Result<bool, Error> {
    match row {
        Some(v) => Ok(!v.header.paused),
        None => Err(Error::NotFound(id)),
    }
}

/// A first selected row is the only first selected row.
pub proof fn lemma_first_is_position(rows: Seq<RowView>, key: Key, i: int)
    requires
        is_first(rows, key, i),
    ensures
        found(rows, key),
        position(rows, key) == i,
        lookup(rows, key) == Some(rows[i]),
{
    let p = position(rows, key);
    assert(is_first(rows, key, p));
    if p < i {
        assert(!key.selects(rows[p].header));
    }
    if i < p {
        assert(!key.selects(rows[i].header));
    }
}

/// Releasing an edit slot changes no id: a row is found by id afterwards
/// exactly if it was found before, and at the same position.
pub proof fn lemma_released_keeps_ids(rows: Seq<RowView>, chat_id: i64, id: i64)
    ensures
        found(released_for(rows, chat_id), Key::Id(id)) == found(rows, Key::Id(id)),
        found(rows, Key::Id(id)) ==> position(released_for(rows, chat_id), Key::Id(id)) == position(
            rows,
            Key::Id(id),
        ),
        lookup(released_for(rows, chat_id), Key::Id(id)) is Some == lookup(rows, Key::Id(id)) is Some,
{
    let after = released_for(rows, chat_id);
    let key = Key::Id(id);
    assert forall|i: int| is_first(after, key, i) == is_first(rows, key, i) by {
        if is_first(after, key, i) {
            assert forall|j: int| 0 <= j < i implies !key.selects(#[trigger] rows[j].header) by {
                assert(!key.selects(after[j].header));
            }
        }
        if is_first(rows, key, i) {
            assert forall|j: int| 0 <= j < i implies !key.selects(#[trigger] after[j].header) by {
                assert(!key.selects(rows[j].header));
            }
        }
    }
    if found(rows, key) {
        let p = position(rows, key);
        assert(is_first(after, key, p));
        lemma_first_is_position(after, key, p);
    }
    if found(after, key) {
        let p = position(after, key);
        assert(is_first(rows, key, p));
    }
}

/// A change to one row leaves every row its id and its chat, so that a row
/// is found by id afterwards exactly if it was before, at the same position
/// and in the same chat.
pub proof fn lemma_amended_keeps_ids(rows: Seq<RowView>, key: Key, change: Change, id: i64)
    ensures
        amended(rows, key, change).len() == rows.len(),
        forall|i: int|
            0 <= i < rows.len() ==> {
                &&& (#[trigger] amended(rows, key, change)[i]).header.id == rows[i].header.id
                &&& amended(rows, key, change)[i].header.chat_id == rows[i].header.chat_id
            },
        found(amended(rows, key, change), Key::Id(id)) == found(rows, Key::Id(id)),
        found(rows, Key::Id(id)) ==> position(amended(rows, key, change), Key::Id(id)) == position(
            rows,
            Key::Id(id),
        ),
{
    let after = amended(rows, key, change);
    let by_id = Key::Id(id);
    assert forall|i: int| 0 <= i < rows.len() implies {
        &&& (#[trigger] after[i]).header.id == rows[i].header.id
        &&& after[i].header.chat_id == rows[i].header.chat_id
    } by {}
    assert forall|i: int| is_first(after, by_id, i) == is_first(rows, by_id, i) by {
        if is_first(after, by_id, i) {
            assert forall|j: int| 0 <= j < i implies !by_id.selects(#[trigger] rows[j].header) by {
                assert(!by_id.selects(after[j].header));
            }
        }
        if is_first(rows, by_id, i) {
            assert forall|j: int| 0 <= j < i implies !by_id.selects(#[trigger] after[j].header) by {
                assert(!by_id.selects(rows[j].header));
            }
        }
    }
    if found(rows, by_id) {
        let p = position(rows, by_id);
        assert(is_first(after, by_id, p));
        lemma_first_is_position(after, by_id, p);
    }
    if found(after, by_id) {
        let p = position(after, by_id);
        assert(is_first(rows, by_id, p));
    }
}

/// Every row of a listing is one that the filter takes.
pub proof fn lemma_selection_admitted(rows: Seq<RowView>, filter: Filter)
    ensures
        forall|i: int|
            0 <= i < selection(rows, filter).len() ==> filter.admits(
                (#[trigger] selection(rows, filter)[i]).header,
            ),
{
    let pred = |v: RowView| filter.admits(v.header);
    assert forall|i: int| 0 <= i < selection(rows, filter).len() implies filter.admits(
        (#[trigger] selection(rows, filter)[i]).header,
    ) by {
        rows.lemma_filter_pred(pred, i);
    }
}

/// Every row of a listing is a row of the table.
pub proof fn lemma_selection_from_table(rows: Seq<RowView>, filter: Filter, i: int)
    requires
        0 <= i < selection(rows, filter).len(),
    ensures
        rows.contains(selection(rows, filter)[i]),
{
    let pred = |v: RowView| filter.admits(v.header);
    assert(rows.filter(pred).contains(selection(rows, filter)[i]));
    rows.lemma_filter_contains_rev(pred, selection(rows, filter)[i]);
}

/// A listing is as long as the weights of the rows add up to.
pub proof fn lemma_selection_len_push(rows: Seq<RowView>, row: RowView, filter: Filter)
    ensures
        selection(rows.push(row), filter).len() == selection(rows, filter).len() + weight(
            filter,
            row.header,
        ),
{
    let pred = |v: RowView| filter.admits(v.header);
    rows.lemma_filter_push(row, pred);
}

/// A listing of a table in which the filter takes no row is empty.
pub proof fn lemma_selection_none(rows: Seq<RowView>, filter: Filter)
    requires
        forall|i: int| 0 <= i < rows.len() ==> !filter.admits(#[trigger] rows[i].header),
    ensures
        selection(rows, filter).len() == 0,
    decreases rows.len(),
{
    if rows.len() == 0 {
        reveal(Seq::filter);
    } else {
        let front = rows.drop_last();
        assert forall|i: int| 0 <= i < front.len() implies !filter.admits(
            #[trigger] front[i].header,
        ) by {
            assert(front[i] == rows[i]);
        }
        lemma_selection_none(front, filter);
        assert(rows =~= front.push(rows.last()));
        lemma_selection_len_push(front, rows.last(), filter);
    }
}

/// Two tables of the same length in which the filter takes the rows at the
/// same positions have listings of the same length.
pub proof fn lemma_selection_len_pointwise(a: Seq<RowView>, b: Seq<RowView>, filter: Filter)
    requires
        a.len() == b.len(),
        forall|i: int|
            0 <= i < a.len() ==> filter.admits(#[trigger] a[i].header) == filter.admits(b[i].header),
    ensures
        selection(a, filter).len() == selection(b, filter).len(),
    decreases a.len(),
{
    if a.len() == 0 {
        assert(a =~= b);
    } else {
        let (fa, fb) = (a.drop_last(), b.drop_last());
        assert forall|i: int| 0 <= i < fa.len() implies filter.admits(#[trigger] fa[i].header)
            == filter.admits(fb[i].header) by {
            assert(fa[i] == a[i] && fb[i] == b[i]);
        }
        lemma_selection_len_pointwise(fa, fb, filter);
        assert(a =~= fa.push(a.last()));
        assert(b =~= fb.push(b.last()));
        lemma_selection_len_push(fa, a.last(), filter);
        lemma_selection_len_push(fb, b.last(), filter);
        assert(filter.admits(a[a.len() - 1].header) == filter.admits(b[a.len() - 1].header));
    }
}

/// Replacing one row changes the length of a listing by the difference of
/// the two rows' weights.
pub proof fn lemma_selection_len_update(rows: Seq<RowView>, i: int, row: RowView, filter: Filter)
    requires
        0 <= i < rows.len(),
    ensures
        selection(rows.update(i, row), filter).len() + weight(filter, rows[i].header) == selection(
            rows,
            filter,
        ).len() + weight(filter, row.header),
    decreases rows.len(),
{
    let front = rows.drop_last();
    let after = rows.update(i, row);
    assert(rows =~= front.push(rows.last()));
    lemma_selection_len_push(front, rows.last(), filter);
    if i == rows.len() - 1 {
        assert(after =~= front.push(row));
        lemma_selection_len_push(front, row, filter);
    } else {
        lemma_selection_len_update(front, i, row, filter);
        assert(after =~= front.update(i, row).push(rows.last()));
        lemma_selection_len_push(front.update(i, row), rows.last(), filter);
    }
}

/// Removing one row shortens a listing by that row's weight.
pub proof fn lemma_selection_len_remove(rows: Seq<RowView>, i: int, filter: Filter)
    requires
        0 <= i < rows.len(),
    ensures
        selection(rows.remove(i), filter).len() + weight(filter, rows[i].header) == selection(
            rows,
            filter,
        ).len(),
    decreases rows.len(),
{
    let front = rows.drop_last();
    assert(rows =~= front.push(rows.last()));
    lemma_selection_len_push(front, rows.last(), filter);
    if i == rows.len() - 1 {
        assert(rows.remove(i) =~= front);
    } else {
        lemma_selection_len_remove(front, i, filter);
        assert(rows.remove(i) =~= front.remove(i).push(rows.last()));
        lemma_selection_len_push(front.remove(i), rows.last(), filter);
    }
}

/// A listing keeps the order of the table: its ids strictly ascend as those
/// of the table do.
pub proof fn lemma_selection_ascending(rows: Seq<RowView>, next_id: i64, filter: Filter)
    requires
        ids_ascending(rows, next_id),
    ensures
        ids_ascending(selection(rows, filter), next_id),
    decreases rows.len(),
{
    let pred = |v: RowView| filter.admits(v.header);
    if rows.len() == 0 {
        reveal(Seq::filter);
    } else {
        let front = rows.drop_last();
        let last = rows.last();
        assert(rows =~= front.push(last));
        assert(ids_ascending(front, next_id)) by {
            assert forall|i: int| 0 <= i < front.len() implies front[i] == rows[i] by {}
        }
        lemma_selection_ascending(front, next_id, filter);
        front.lemma_filter_push(last, pred);
        let sel = selection(front, filter);
        if filter.admits(last.header) {
            assert forall|i: int| 0 <= i < sel.len() implies (#[trigger] sel[i]).header.id
                < last.header.id by {
                lemma_selection_from_table(front, filter, i);
                let j = choose|j: int| 0 <= j < front.len() && front[j] == sel[i];
                assert(rows[j].header.id < rows[rows.len() - 1].header.id);
            }
            assert(1 <= rows[rows.len() - 1].header.id < next_id);
        }
    }
}

/// After the edit slot of a chat is released in a table, no row of that
/// chat is in edit state there, and every other chat has as many rows in
/// edit state as before.
pub proof fn lemma_released_editing(rows: Seq<RowView>, chat_id: i64, other: i64)
    ensures
        selection(released_for(rows, chat_id), Filter::Editing(chat_id)).len() == 0,
        other != chat_id ==> selection(released_for(rows, chat_id), Filter::Editing(other)).len()
            == selection(rows, Filter::Editing(other)).len(),
{
    let after = released_for(rows, chat_id);
    lemma_selection_none(after, Filter::Editing(chat_id));
    if other != chat_id {
        lemma_selection_len_pointwise(after, rows, Filter::Editing(other));
    }
}

/// Releasing the edit slot of a chat puts no row into edit state.
pub proof fn lemma_released_for_editing(rows: Seq<RowView>, chat_id: i64)
    ensures
        forall|other: i64|
            (#[trigger] selection(released_for(rows, chat_id), Filter::Editing(other))).len()
                <= selection(rows, Filter::Editing(other)).len(),
{
    assert forall|other: i64|
        (#[trigger] selection(released_for(rows, chat_id), Filter::Editing(other))).len()
            <= selection(rows, Filter::Editing(other)).len() by {
        lemma_released_editing(rows, chat_id, other);
    }
}

/// After a chat took a row into its edit slot, that chat has at most one
/// row of the table in edit state, none if the row is not its own, and
/// every other chat has as many as before.
pub proof fn lemma_marked_editing(rows: Seq<RowView>, id: i64, chat_id: i64, other: i64)
    ensures
        selection(marked(rows, id, chat_id), Filter::Editing(chat_id)).len() <= 1,
        !owned(rows, id, chat_id) ==> selection(
            marked(rows, id, chat_id),
            Filter::Editing(chat_id),
        ).len() == 0,
        other != chat_id ==> selection(marked(rows, id, chat_id), Filter::Editing(other)).len()
            == selection(rows, Filter::Editing(other)).len(),
{
    let released = released_for(rows, chat_id);
    let key = Key::Id(id);
    lemma_released_editing(rows, chat_id, other);
    lemma_released_keeps_ids(rows, chat_id, id);
    if owned(rows, id, chat_id) {
        let p = position(released, key);
        assert(is_first(rows, key, p));
        assert(released[p].header.chat_id == chat_id);
        let row = released[p].with_header(Change::Edit.apply(released[p].header));
        lemma_selection_len_update(released, p, row, Filter::Editing(chat_id));
        lemma_selection_len_update(released, p, row, Filter::Editing(other));
    }
}

/// A chat that took a row of its own into its edit slot has exactly that
/// one row of the table in edit state.
pub proof fn lemma_marked_one(rows: Seq<RowView>, id: i64, chat_id: i64)
    ensures
        owned(rows, id, chat_id) ==> selection(marked(rows, id, chat_id), Filter::Editing(chat_id)).len()
            == 1,
{
    let released = released_for(rows, chat_id);
    let key = Key::Id(id);
    lemma_released_editing(rows, chat_id, chat_id);
    lemma_released_keeps_ids(rows, chat_id, id);
    if owned(rows, id, chat_id) {
        let p = position(released, key);
        assert(is_first(rows, key, p));
        let row = released[p].with_header(Change::Edit.apply(released[p].header));
        lemma_selection_len_update(released, p, row, Filter::Editing(chat_id));
    }
}

/// A new row is stored out of edit state: every chat has as many rows in
/// edit state as before.
pub proof fn lemma_stored_editing(rows: Seq<RowView>, row: RowView, id: i64)
    ensures
        forall|chat_id: i64|
            (#[trigger] selection(rows.push(stored(row, id)), Filter::Editing(chat_id))).len()
                == selection(rows, Filter::Editing(chat_id)).len(),
{
    assert forall|chat_id: i64|
        (#[trigger] selection(rows.push(stored(row, id)), Filter::Editing(chat_id))).len()
            == selection(rows, Filter::Editing(chat_id)).len() by {
        lemma_selection_len_push(rows, stored(row, id), Filter::Editing(chat_id));
    }
}

/// Removing a row puts none into edit state.
pub proof fn lemma_without_editing(rows: Seq<RowView>, id: i64)
    ensures
        forall|chat_id: i64|
            (#[trigger] selection(without(rows, id), Filter::Editing(chat_id))).len() <= selection(
                rows,
                Filter::Editing(chat_id),
            ).len(),
{
    assert forall|chat_id: i64|
        (#[trigger] selection(without(rows, id), Filter::Editing(chat_id))).len() <= selection(
            rows,
            Filter::Editing(chat_id),
        ).len() by {
        if found(rows, Key::Id(id)) {
            lemma_selection_len_remove(rows, position(rows, Key::Id(id)), Filter::Editing(chat_id));
        }
    }
}

/// Only [`Change::Edit`] puts a row into edit state: after any other change
/// every chat has as many rows in edit state as before.
pub proof fn lemma_amended_editing(rows: Seq<RowView>, key: Key, change: Change)
    requires
        change != Change::Edit,
    ensures
        forall|chat_id: i64|
            (#[trigger] selection(amended(rows, key, change), Filter::Editing(chat_id))).len()
                == selection(rows, Filter::Editing(chat_id)).len(),
{
    assert forall|chat_id: i64|
        (#[trigger] selection(amended(rows, key, change), Filter::Editing(chat_id))).len()
            == selection(rows, Filter::Editing(chat_id)).len() by {
        lemma_selection_len_pointwise(amended(rows, key, change), rows, Filter::Editing(chat_id));
    }
}

/// A row that gets its new description leaves edit state, and none enters.
pub proof fn lemma_described_editing(rows: Seq<RowView>, id: i64, desc: Seq<char>)
    ensures
        forall|chat_id: i64|
            (#[trigger] selection(described(rows, id, desc), Filter::Editing(chat_id))).len()
                <= selection(rows, Filter::Editing(chat_id)).len(),
{
    assert forall|chat_id: i64|
        (#[trigger] selection(described(rows, id, desc), Filter::Editing(chat_id))).len()
            <= selection(rows, Filter::Editing(chat_id)).len() by {
        if found(rows, Key::Id(id)) {
            let p = position(rows, Key::Id(id));
            let row = RowView { header: rows[p].header.released(), desc, ..rows[p] };
            lemma_selection_len_update(rows, p, row, Filter::Editing(chat_id));
        }
    }
}

/// Pausing and resuming undo each other: where a reminder is toggled twice
/// in a row, the second toggle returns the value that the flag had at first,
/// and the table is as it was.
pub proof fn lemma_toggle_twice(rows: Seq<RowView>, id: i64)
    ensures
        ({
            let once = amended(rows, Key::Id(id), Change::TogglePaused);
            let twice = amended(once, Key::Id(id), Change::TogglePaused);
            &&& twice == rows
            &&& match lookup(rows, Key::Id(id)) {
                Some(v) => {
                    &&& toggle_result(lookup(rows, Key::Id(id)), id) == Ok::<bool, Error>(
                        !v.header.paused,
                    )
                    &&& toggle_result(lookup(once, Key::Id(id)), id) == Ok::<bool, Error>(
                        v.header.paused,
                    )
                },
                None => toggle_result(lookup(once, Key::Id(id)), id) == Err::<bool, Error>(
                    Error::NotFound(id),
                ),
            }
        }),
{
    let key = Key::Id(id);
    let once = amended(rows, key, Change::TogglePaused);
    lemma_amended_keeps_ids(rows, key, Change::TogglePaused, id);
    lemma_amended_keeps_ids(once, key, Change::TogglePaused, id);
    let twice = amended(once, key, Change::TogglePaused);
    assert(twice =~= rows);
}

/// Marking a reminder as sent is idempotent: where the first marking
/// succeeds, so does the second; the reminder is sent after either, and the
/// second changes nothing.
pub proof fn lemma_sent_twice(rows: Seq<RowView>, id: i64)
    ensures
        ({
            let once = amended(rows, Key::Id(id), Change::Sent);
            &&& amended(once, Key::Id(id), Change::Sent) == once
            &&& found_or_missing(lookup(once, Key::Id(id)), id) == found_or_missing(
                lookup(rows, Key::Id(id)),
                id,
            )
            &&& lookup(once, Key::Id(id)) matches Some(v) ==> v.header.sent
        }),
{
    let key = Key::Id(id);
    let once = amended(rows, key, Change::Sent);
    lemma_amended_keeps_ids(rows, key, Change::Sent, id);
    assert(amended(once, key, Change::Sent) =~= once);
}

/// A reminder that is sent or paused is in no listing of due reminders,
/// whatever the instant.
pub proof fn lemma_due_excludes_sent_and_paused(rows: Seq<RowView>, now: i64)
    ensures
        forall|i: int|
            0 <= i < selection(rows, Filter::Due(now)).len() ==> {
                &&& !(#[trigger] selection(rows, Filter::Due(now))[i]).header.sent
                &&& !selection(rows, Filter::Due(now))[i].header.paused
            },
{
    lemma_selection_admitted(rows, Filter::Due(now));
}

} // verus!
