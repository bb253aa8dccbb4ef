//! One table of reminders: the rows of one kind in ascending order of id,
//! with the queries and changes that the store is built from. What each of
//! them does is said over the model of a table.

use vstd::prelude::*;
use crate::entity::{EditMode, Header, Row, RowView, shown, views};
use crate::err::Error;
use crate::model::{
    Change, Filter, Key, amended, described, found, ids_ascending, is_first,
    lemma_first_is_position, lookup, released_for, selection, stored, without,
};

verus! {

/// A table of reminders of one kind.
pub struct Table<R> {
    rows: Vec<R>,
    next_id: i64,
}

impl<R: Row> Table<R> {
    /// The rows, in table order.
    pub closed spec fn rows(&self) -> Seq<RowView> {
        views(self.rows@)
    }

    /// The id that the next stored row receives.
    pub closed spec fn next_id(&self) -> i64 {
        self.next_id
    }

    /// The table's invariant.
    pub open spec fn wf(&self) -> bool {
        &&& ids_ascending(self.rows(), self.next_id())
        &&& forall|i: int| 0 <= i < self.rows().len() ==> (#[trigger] self.rows()[i]).is_cron() == R::recurring()
    }

    /// An empty table whose first row will have id 1.
    pub fn new() -> (t: Self)
        ensures
            t.wf(),
            t.rows() == Seq::<RowView>::empty(),
            t.next_id() == 1,
    {
        let t = Table { rows: Vec::new(), next_id: 1 };
        assert(t.rows() =~= Seq::<RowView>::empty());
        t
    }

    /// A table of the given rows, whose next row will have id `next_id`.
    /// Fails where the rows cannot be those of a table: where `next_id` is
    /// not positive, or an id is not positive or not below `next_id`, or the
    /// ids do not strictly ascend.
    pub fn restore(rows: Vec<R>, next_id: i64) -> (r: Result<Self, Error>)
        ensures
            match r {
                Ok(t) => {
                    &&& t.wf()
                    &&& t.rows() == views(rows@)
                    &&& t.next_id() == next_id
                    &&& ids_ascending(views(rows@), next_id)
                },
                Err(e) => e == Error::Storage && !ids_ascending(views(rows@), next_id),
            },
    {
        if next_id < 1 {
            return Err(Error::Storage);
        }
        let ghost v = views(rows@);
        let n = rows.len();
        let mut prev: i64 = 0;
        let mut i: usize = 0;
        while i < n
            invariant
                i <= n,
                n == rows.len(),
                v == views(rows@),
                1 <= next_id,
                0 <= prev < next_id,
                i == 0 ==> prev == 0,
                i > 0 ==> prev == v[i - 1].header.id,
                forall|j: int| 0 <= j < i ==> 1 <= (#[trigger] v[j]).header.id <= prev,
                forall|j: int, k: int|
                    0 <= j < k < i ==> (#[trigger] v[j]).header.id < (#[trigger] v[k]).header.id,
                forall|j: int| 0 <= j < i ==> (#[trigger] v[j]).is_cron() == R::recurring(),
            decreases n - i,
        {
            let id = rows[i].header().id;
            if id <= prev || id >= next_id {
                proof {
                    if id >= next_id || i == 0 {
                        assert(!(1 <= v[i as int].header.id < next_id));
                    } else {
                        assert(!(v[i - 1].header.id < v[i as int].header.id));
                    }
                }
                return Err(Error::Storage);
            }
            proof {
                rows[i as int].lemma_kind();
            }
            prev = id;
            i += 1;
        }
        Ok(Table { rows, next_id })
    }

    /// A copy of every row, in table order.
    pub fn to_vec(&self) -> (r: Vec<R>)
        ensures
            views(r@) == self.rows(),
    {
        let mut out: Vec<R> = Vec::new();
        let n = self.rows.len();
        let mut i: usize = 0;
        while i < n
            invariant
                i <= n,
                n == self.rows.len(),
                views(out@) =~= self.rows().take(i as int),
            decreases n - i,
        {
            let ghost before = views(out@);
            out.push(self.rows[i].duplicate());
            assert(views(out@) =~= before.push(self.rows()[i as int]));
            i += 1;
        }
        assert(self.rows().take(n as int) =~= self.rows());
        out
    }

    /// The id that the next stored row receives.
    pub fn next_free_id(&self) -> (id: i64)
        ensures
            id == self.next_id(),
    {
        self.next_id
    }

    /// The position of the first row that `key` selects.
    pub fn find(&self, key: &Key) -> (r: Option<usize>)
        ensures
            match r {
                Some(i) => is_first(self.rows(), *key, i as int),
                None => !found(self.rows(), *key),
            },
    {
        let n = self.rows.len();
        let mut i: usize = 0;
        while i < n
            invariant
                i <= n,
                n == self.rows.len(),
                forall|j: int| 0 <= j < i ==> !key.selects(#[trigger] self.rows()[j].header),
            decreases n - i,
        {
            let h = self.rows[i].header();
            if key.test(&h) {
                return Some(i);
            }
            i += 1;
        }
        None
    }

    /// The first row that `key` selects, as it stands in the table.
    pub fn peek(&self, key: &Key) -> (r: Option<&R>)
        ensures
            shown(r) == lookup(self.rows(), *key),
    {
        match self.find(key) {
            Some(i) => {
                proof {
                    lemma_first_is_position(self.rows(), *key, i as int);
                }
                Some(&self.rows[i])
            },
            None => None,
        }
    }

    /// A copy of the first row that `key` selects.
    pub fn get(&self, key: &Key) -> (r: Option<R>)
        ensures
            shown(r) == lookup(self.rows(), *key),
    {
        match self.peek(key) {
            Some(row) => Some(row.duplicate()),
            None => None,
        }
    }

    /// Stores `row` under the next free id, with every flag down, and
    /// returns that id. Fails only when the ids are used up.
    pub fn insert(&mut self, row: R) -> (r: Result<i64, Error>)
        requires
            old(self).wf(),
        ensures
            final(self).wf(),
            match r {
                Ok(id) => {
                    &&& id == old(self).next_id()
                    &&& final(self).next_id() == id + 1
                    &&& final(self).rows() == old(self).rows().push(stored(row@, id))
                },
                Err(e) => {
                    &&& e == Error::Storage
                    &&& old(self).next_id() == i64::MAX
                    &&& final(self).next_id() == old(self).next_id()
                    &&& final(self).rows() == old(self).rows()
                },
            },
    {
        if self.next_id == i64::MAX {
            return Err(Error::Storage);
        }
        let id = self.next_id;
        let h = row.header();
        let mut row = row;
        let ghost before = row@;
        row.set_header(
            Header {
                id,
                chat_id: h.chat_id,
                time: h.time,
                sent: false,
                paused: false,
                edit: false,
                edit_mode: EditMode::Unset,
                msg_id: h.msg_id,
                reply_id: h.reply_id,
            },
        );
        proof {
            row.lemma_kind();
        }
        self.next_id = id + 1;
        self.rows.push(row);
        assert(self.rows() =~= old(self).rows().push(stored(before, id)));
        Ok(id)
    }

    /// Removes the row with this id; does nothing where there is none.
    pub fn delete(&mut self, id: i64)
        requires
            old(self).wf(),
        ensures
            final(self).wf(),
            final(self).next_id() == old(self).next_id(),
            final(self).rows() == without(old(self).rows(), id),
    {
        match self.find(&Key::Id(id)) {
            Some(i) => {
                proof {
                    lemma_first_is_position(self.rows(), Key::Id(id), i as int);
                }
                self.rows.remove(i);
                assert(self.rows() =~= old(self).rows().remove(i as int));
            },
            None => {},
        }
    }

    /// Releases the edit slot of `chat_id` in this table.
    pub fn reset_edit(&mut self, chat_id: i64)
        requires
            old(self).wf(),
        ensures
            final(self).wf(),
            final(self).next_id() == old(self).next_id(),
            final(self).rows() == released_for(old(self).rows(), chat_id),
    {
        let n = self.rows.len();
        let mut i: usize = 0;
        while i < n
            invariant
                i <= n,
                n == self.rows.len(),
                n == old(self).rows.len(),
                self.next_id == old(self).next_id,
                forall|j: int|
                    0 <= j < i ==> (#[trigger] self.rows[j])@ == released_for(
                        old(self).rows(),
                        chat_id,
                    )[j],
                forall|j: int| i <= j < n ==> (#[trigger] self.rows[j])@ == old(self).rows[j]@,
            decreases n - i,
        {
            let h = self.rows[i].header();
            if h.chat_id == chat_id {
                self.rows[i].set_header(Header { edit: false, edit_mode: EditMode::Unset, ..h });
            }
            i += 1;
        }
        assert(self.rows() =~= released_for(old(self).rows(), chat_id));
    }

    /// Makes `change` to the first row that `key` selects and returns that
    /// row's header as it is afterwards; `None`, and no change, where `key`
    /// selects no row.
    pub fn amend(&mut self, key: &Key, change: &Change) -> (r: Option<Header>)
        requires
            old(self).wf(),
        ensures
            final(self).wf(),
            final(self).next_id() == old(self).next_id(),
            final(self).rows() == amended(old(self).rows(), *key, *change),
            r == match lookup(old(self).rows(), *key) {
                Some(v) => Some(change.apply(v.header)),
                None => None,
            },
    {
        match self.find(key) {
            Some(i) => {
                proof {
                    lemma_first_is_position(self.rows(), *key, i as int);
                }
                let h = change.apply_to(self.rows[i].header());
                self.rows[i].set_header(h);
                assert(self.rows() =~= amended(old(self).rows(), *key, *change));
                Some(h)
            },
            None => None,
        }
    }

    /// Gives the row with this id the description `desc` and takes it out of
    /// edit state. Returns whether there is such a row.
    pub fn describe(&mut self, id: i64, desc: String) -> (r: bool)
        requires
            old(self).wf(),
        ensures
            final(self).wf(),
            final(self).next_id() == old(self).next_id(),
            final(self).rows() == described(old(self).rows(), id, desc@),
            r == found(old(self).rows(), Key::Id(id)),
    {
        match self.find(&Key::Id(id)) {
            Some(i) => {
                proof {
                    lemma_first_is_position(self.rows(), Key::Id(id), i as int);
                }
                let h = self.rows[i].header();
                self.rows[i].set_header(Header { edit: false, edit_mode: EditMode::Unset, ..h });
                self.rows[i].set_desc(desc);
                assert(self.rows() =~= described(old(self).rows(), id, desc@));
                true
            },
            None => false,
        }
    }

    /// The rows that `filter` takes, in table order.
    pub fn select(&self, filter: &Filter) -> (r: Vec<R>)
        ensures
            views(r@) == selection(self.rows(), *filter),
    {
        let mut out: Vec<R> = Vec::new();
        let n = self.rows.len();
        let mut i: usize = 0;
        assert(self.rows().take(0) =~= Seq::<RowView>::empty());
        assert(views(out@) =~= selection(self.rows().take(0), *filter)) by {
            reveal(Seq::filter);
        }
        while i < n
            invariant
                i <= n,
                n == self.rows.len(),
                views(out@) == selection(self.rows().take(i as int), *filter),
            decreases n - i,
        {
            let h = self.rows[i].header();
            proof {
                let pred = |v: RowView| filter.admits(v.header);
                assert(self.rows().take(i + 1) =~= self.rows().take(i as int).push(self.rows()[i as int]));
                self.rows().take(i as int).lemma_filter_push(self.rows()[i as int], pred);
            }
            if filter.test(&h) {
                let ghost before = out@;
                out.push(self.rows[i].duplicate());
                assert(views(out@) =~= views(before).push(self.rows()[i as int]));
            }
            i += 1;
        }
        assert(self.rows().take(n as int) =~= self.rows());
        out
    }

    /// How many rows `filter` takes.
    pub fn count(&self, filter: &Filter) -> (r: usize)
        ensures
            r == selection(self.rows(), *filter).len(),
    {
        let n = self.rows.len();
        let mut c: usize = 0;
        let mut i: usize = 0;
        assert(self.rows().take(0) =~= Seq::<RowView>::empty());
        assert(selection(self.rows().take(0), *filter).len() == 0) by {
            reveal(Seq::filter);
        }
        while i < n
            invariant
                i <= n,
                n == self.rows.len(),
                c <= i,
                c == selection(self.rows().take(i as int), *filter).len(),
            decreases n - i,
        {
            let h = self.rows[i].header();
            proof {
                let pred = |v: RowView| filter.admits(v.header);
                assert(self.rows().take(i + 1) =~= self.rows().take(i as int).push(self.rows()[i as int]));
                self.rows().take(i as int).lemma_filter_push(self.rows()[i as int], pred);
            }
            if filter.test(&h) {
                c += 1;
            }
            i += 1;
        }
        assert(self.rows().take(n as int) =~= self.rows());
        c
    }
}

} // verus!
