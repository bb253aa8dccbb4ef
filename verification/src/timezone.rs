//! The time zone that each user chose: at most one row per user.

use vstd::prelude::*;
use crate::entity::UserTimezone;
use crate::err::Error;

verus! {

/// `i` is the position of the row of `user_id`.
pub open spec fn is_row_of(rows: Seq<UserTimezone>, user_id: i64, i: int) -> bool {
    0 <= i < rows.len() && rows[i].user_id == user_id
}

/// No user has two rows.
pub open spec fn one_row_per_user(rows: Seq<UserTimezone>) -> bool {
    forall|i: int, j: int|
        0 <= i < j < rows.len() ==> (#[trigger] rows[i]).user_id != (#[trigger] rows[j]).user_id
}

/// The zone names by user.
pub open spec fn zones(rows: Seq<UserTimezone>) -> Map<i64, Seq<char>> {
    Map::new(
        |u: i64| exists|i: int| is_row_of(rows, u, i),
        |u: i64| rows[choose|i: int| is_row_of(rows, u, i)].timezone@,
    )
}

/// The table of user time zones.
pub struct TimezoneTable {
    rows: Vec<UserTimezone>,
}

impl View for TimezoneTable {
    type V = Map<i64, Seq<char>>;

    closed spec fn view(&self) -> Map<i64, Seq<char>> {
        zones(self.rows@)
    }
}

impl TimezoneTable {
    /// The table's invariant.
    pub closed spec fn wf(&self) -> bool {
        one_row_per_user(self.rows@)
    }

    /// A table without rows.
    pub fn new() -> (t: Self)
        ensures
            t.wf(),
            t@ == Map::<i64, Seq<char>>::empty(),
    {
        let t = TimezoneTable { rows: Vec::new() };
        assert(t@ =~= Map::<i64, Seq<char>>::empty());
        t
    }

    /// A table of the given rows. Fails where a user has two of them.
    pub fn restore(rows: Vec<UserTimezone>) -> (r: Result<Self, Error>)
        ensures
            match r {
                Ok(t) => t.wf() && t@ == zones(rows@) && one_row_per_user(rows@),
                Err(e) => e == Error::Storage && !one_row_per_user(rows@),
            },
    {
        let n = rows.len();
        let mut j: usize = 0;
        while j < n
            invariant
                j <= n,
                n == rows.len(),
                forall|a: int, b: int|
                    0 <= a < b < j ==> (#[trigger] rows@[a]).user_id != (#[trigger] rows@[b]).user_id,
            decreases n - j,
        {
            let mut i: usize = 0;
            while i < j
                invariant
                    i <= j < n,
                    n == rows.len(),
                    forall|a: int| 0 <= a < i ==> (#[trigger] rows@[a]).user_id != rows@[j as int].user_id,
                decreases j - i,
            {
                if rows[i].user_id == rows[j].user_id {
                    return Err(Error::Storage);
                }
                i += 1;
            }
            j += 1;
        }
        Ok(TimezoneTable { rows })
    }

    /// A copy of every row, in table order.
    pub fn to_vec(&self) -> (r: Vec<UserTimezone>)
        requires
            self.wf(),
        ensures
            one_row_per_user(r@),
            zones(r@) == self@,
    {
        let mut out: Vec<UserTimezone> = Vec::new();
        let n = self.rows.len();
        let mut i: usize = 0;
        while i < n
            invariant
                i <= n,
                n == self.rows.len(),
                out@.len() == i,
                forall|k: int|
                    0 <= k < i ==> (#[trigger] out@[k]).user_id == self.rows@[k].user_id
                        && out@[k].timezone@ == self.rows@[k].timezone@,
            decreases n - i,
        {
            out.push(UserTimezone { user_id: self.rows[i].user_id, timezone: self.rows[i].timezone.clone() });
            i += 1;
        }
        proof {
            lemma_zones_same(self.rows@, out@);
        }
        out
    }

    fn find(&self, user_id: i64) -> (r: Option<usize>)
        ensures
            match r {
                Some(i) => is_row_of(self.rows@, user_id, i as int),
                None => forall|j: int| !is_row_of(self.rows@, user_id, j),
            },
    {
        let n = self.rows.len();
        let mut i: usize = 0;
        while i < n
            invariant
                i <= n,
                n == self.rows.len(),
                forall|j: int| 0 <= j < i ==> !is_row_of(self.rows@, user_id, j),
            decreases n - i,
        {
            if self.rows[i].user_id == user_id {
                return Some(i);
            }
            i += 1;
        }
        None
    }

    /// The zone of `user_id`, where one is recorded.
    pub fn get(&self, user_id: i64) -> (r: Option<String>)
        requires
            self.wf(),
        ensures
            match r {
                Some(name) => self@.contains_key(user_id) && self@[user_id] == name@,
                None => !self@.contains_key(user_id),
            },
    {
        match self.find(user_id) {
            Some(i) => {
                proof {
                    let c = choose|k: int| is_row_of(self.rows@, user_id, k);
                    assert(is_row_of(self.rows@, user_id, i as int));
                    assert(c == i);
                }
                Some(self.rows[i].timezone.clone())
            },
            None => None,
        }
    }

    /// Records `timezone` as the zone of `user_id`: in the user's row where
    /// there is one, in a new row otherwise.
    pub fn upsert(&mut self, user_id: i64, timezone: &str)
        requires
            old(self).wf(),
        ensures
            final(self).wf(),
            final(self)@ == old(self)@.insert(user_id, timezone@),
    {
        let name = timezone.to_owned();
        let ghost before = self.rows@;
        match self.find(user_id) {
            Some(i) => {
                self.rows[i].timezone = name;
                proof {
                    lemma_zones_update(before, self.rows@, i as int);
                }
            },
            None => {
                self.rows.push(UserTimezone { user_id, timezone: name });
                proof {
                    lemma_zones_push(before, self.rows@, user_id);
                }
            },
        }
    }

    /// How many rows the table holds.
    pub fn len(&self) -> (n: usize)
        requires
            self.wf(),
        ensures
            n == self@.dom().len(),
            self@.dom().finite(),
    {
        proof {
            lemma_zones_len(self.rows@);
        }
        self.rows.len()
    }
}

/// Tables that agree row by row in user and zone name record the same
/// zones.
proof fn lemma_zones_same(a: Seq<UserTimezone>, b: Seq<UserTimezone>)
    requires
        one_row_per_user(a),
        a.len() == b.len(),
        forall|k: int|
            0 <= k < a.len() ==> (#[trigger] b[k]).user_id == a[k].user_id && b[k].timezone@
                == a[k].timezone@,
    ensures
        one_row_per_user(b),
        zones(b) == zones(a),
{
    assert forall|i: int, j: int| 0 <= i < j < b.len() implies (#[trigger] b[i]).user_id != (
    #[trigger] b[j]).user_id by {
        assert(a[i].user_id != a[j].user_id);
    }
    assert forall|u: i64, k: int| is_row_of(b, u, k) == is_row_of(a, u, k) by {
        if 0 <= k < a.len() {
            assert(b[k].user_id == a[k].user_id);
        }
    }
    assert forall|u: i64| zones(b).contains_key(u) == zones(a).contains_key(u) by {
        if zones(b).contains_key(u) {
            let c = choose|k: int| is_row_of(b, u, k);
            assert(is_row_of(a, u, c));
        }
        if zones(a).contains_key(u) {
            let c = choose|k: int| is_row_of(a, u, k);
            assert(is_row_of(b, u, c));
        }
    }
    assert forall|u: i64| zones(b).contains_key(u) implies zones(b)[u] == zones(a)[u] by {
        let c = choose|k: int| is_row_of(b, u, k);
        let d = choose|k: int| is_row_of(a, u, k);
        assert(is_row_of(b, u, c));
        assert(is_row_of(a, u, c));
        assert(is_row_of(a, u, d));
        assert(c == d);
        assert(b[c].timezone@ == a[c].timezone@);
    }
    assert(zones(b) =~= zones(a));
}

/// Replacing the zone in a user's row replaces the user's zone.
proof fn lemma_zones_update(before: Seq<UserTimezone>, after: Seq<UserTimezone>, i: int)
    requires
        one_row_per_user(before),
        0 <= i < before.len(),
        after.len() == before.len(),
        after[i].user_id == before[i].user_id,
        forall|k: int| 0 <= k < before.len() && k != i ==> after[k] == before[k],
    ensures
        one_row_per_user(after),
        zones(after) == zones(before).insert(before[i].user_id, after[i].timezone@),
{
    let user_id = before[i].user_id;
    let goal = zones(before).insert(user_id, after[i].timezone@);
    assert forall|u: i64, k: int| is_row_of(after, u, k) == is_row_of(before, u, k) by {}
    assert forall|u: i64| zones(after).contains_key(u) == goal.contains_key(u) by {
        if u == user_id {
            assert(is_row_of(after, u, i));
        }
        if zones(after).contains_key(u) {
            let c = choose|k: int| is_row_of(after, u, k);
            assert(is_row_of(before, u, c));
        }
        if zones(before).contains_key(u) {
            let d = choose|k: int| is_row_of(before, u, k);
            assert(is_row_of(after, u, d));
        }
    }
    assert forall|u: i64| zones(after).contains_key(u) implies zones(after)[u] == goal[u] by {
        let c = choose|k: int| is_row_of(after, u, k);
        assert(is_row_of(after, u, c));
        assert(is_row_of(before, u, c));
        let d = choose|k: int| is_row_of(before, u, k);
        assert(is_row_of(before, u, d));
        assert(c == d);
        if u == user_id {
            assert(is_row_of(before, u, i));
            assert(c == i);
        }
    }
    assert(zones(after) =~= goal);
}

/// A row for a user who had none adds the user's zone.
proof fn lemma_zones_push(before: Seq<UserTimezone>, after: Seq<UserTimezone>, user_id: i64)
    requires
        one_row_per_user(before),
        after.len() == before.len() + 1,
        forall|k: int| 0 <= k < before.len() ==> after[k] == before[k],
        after[before.len() as int].user_id == user_id,
        forall|k: int| !is_row_of(before, user_id, k),
    ensures
        one_row_per_user(after),
        zones(after) == zones(before).insert(user_id, after[before.len() as int].timezone@),
{
    let last = before.len() as int;
    let goal = zones(before).insert(user_id, after[last].timezone@);
    assert forall|k: int| 0 <= k < last implies before[k].user_id != user_id by {
        assert(!is_row_of(before, user_id, k));
    }
    assert forall|u: i64| zones(after).contains_key(u) == goal.contains_key(u) by {
        if u == user_id {
            assert(is_row_of(after, u, last));
        }
        if zones(after).contains_key(u) && u != user_id {
            let c = choose|k: int| is_row_of(after, u, k);
            assert(is_row_of(before, u, c));
        }
        if zones(before).contains_key(u) {
            let d = choose|k: int| is_row_of(before, u, k);
            assert(is_row_of(after, u, d));
        }
    }
    assert forall|u: i64| zones(after).contains_key(u) implies zones(after)[u] == goal[u] by {
        let c = choose|k: int| is_row_of(after, u, k);
        assert(is_row_of(after, u, c));
        if u != user_id {
            assert(is_row_of(before, u, c));
            let d = choose|k: int| is_row_of(before, u, k);
            assert(is_row_of(before, u, d));
            assert(c == d);
        }
    }
    assert(zones(after) =~= goal);
}

/// With one row per user, there are as many users as rows.
pub proof fn lemma_zones_len(rows: Seq<UserTimezone>)
    requires
        one_row_per_user(rows),
    ensures
        zones(rows).dom().finite(),
        zones(rows).dom().len() == rows.len(),
    decreases rows.len(),
{
    if rows.len() == 0 {
        assert(zones(rows).dom() =~= Set::<i64>::empty());
    } else {
        let front = rows.drop_last();
        let u = rows.last().user_id;
        lemma_zones_len(front);
        assert(is_row_of(rows, u, rows.len() - 1));
        assert forall|w: i64| zones(rows).dom().contains(w) <==> zones(front).dom().insert(u).contains(w) by {
            if zones(rows).dom().contains(w) && w != u {
                let k = choose|k: int| is_row_of(rows, w, k);
                assert(is_row_of(front, w, k));
            }
            if zones(front).dom().contains(w) {
                let k = choose|k: int| is_row_of(front, w, k);
                assert(is_row_of(rows, w, k));
            }
        }
        assert(zones(rows).dom() =~= zones(front).dom().insert(u));
        if zones(front).dom().contains(u) {
            let k = choose|k: int| is_row_of(front, u, k);
            assert(rows[k].user_id == u);
            assert(false);
        }
    }
}

} // verus!
