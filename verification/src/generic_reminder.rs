//! Reminders of both kinds in one list, and the order in which a chat's
//! reminders are shown.
//!
//! The order is by due time; at the same instant a one-shot reminder comes
//! before a recurring one, and within a kind the lower id comes first.

use vstd::prelude::*;
use vstd::seq_lib::*;
use crate::entity::{CronReminder, Reminder, RowView, views};

verus! {

/// A reminder of either kind.
#[derive(Debug, PartialEq, Eq)]
pub enum GenericReminder {
    /// A reminder that fires once.
    OneShot(Reminder),
    /// A reminder that recurs by a cron expression.
    Cron(CronReminder),
}

impl View for GenericReminder {
    type V = RowView;

    open spec fn view(&self) -> RowView {
        match self {
            GenericReminder::OneShot(r) => r@,
            GenericReminder::Cron(r) => r@,
        }
    }
}

impl Clone for GenericReminder {
    fn clone(&self) -> (r: Self)
        ensures
            r == *self,
    {
        match self {
            GenericReminder::OneShot(x) => GenericReminder::OneShot(x.clone()),
            GenericReminder::Cron(x) => GenericReminder::Cron(x.clone()),
        }
    }
}

/// `a` is shown before `b`.
pub open spec fn precedes(a: RowView, b: RowView) -> bool {
    ||| a.header.time < b.header.time
    ||| a.header.time == b.header.time && !a.is_cron() && b.is_cron()
    ||| a.header.time == b.header.time && a.is_cron() == b.is_cron() && a.header.id < b.header.id
}

/// Neither of `a` and `b` is shown before the other.
pub open spec fn equivalent(a: RowView, b: RowView) -> bool {
    !precedes(a, b) && !precedes(b, a)
}

/// No reminder of the list is shown before an earlier one.
pub open spec fn sorted(s: Seq<RowView>) -> bool {
    forall|i: int, j: int| 0 <= i < j < s.len() ==> !precedes(#[trigger] s[j], #[trigger] s[i])
}

/// The order of display is a strict weak order: irreflexive, asymmetric and
/// transitive, and being shown at the same place is transitive too.
pub proof fn lemma_precedes_strict_weak_order(a: RowView, b: RowView, c: RowView)
    ensures
        !precedes(a, a),
        precedes(a, b) ==> !precedes(b, a),
        precedes(a, b) && precedes(b, c) ==> precedes(a, c),
        equivalent(a, b) && equivalent(b, c) ==> equivalent(a, c),
{
}

/// Two reminders are shown at the same place only if they are of one kind
/// and agree in due time and id.
pub proof fn lemma_equivalent_same_key(a: RowView, b: RowView)
    ensures
        equivalent(a, b) <==> (a.header.time == b.header.time && a.is_cron() == b.is_cron()
            && a.header.id == b.header.id),
{
}

/// In a sorted list the due times never descend; where they are pairwise
/// distinct they strictly ascend; and among reminders due at the same
/// instant no recurring one stands before a one-shot one.
pub proof fn lemma_sorted_by_due_time(s: Seq<RowView>)
    requires
        sorted(s),
    ensures
        forall|i: int, j: int| 0 <= i < j < s.len() ==> s[i].header.time <= s[j].header.time,
        (forall|i: int, j: int| 0 <= i < j < s.len() ==> s[i].header.time != s[j].header.time)
            ==> (forall|i: int, j: int| 0 <= i < j < s.len() ==> s[i].header.time < s[j].header.time),
        forall|i: int, j: int|
            0 <= i < j < s.len() && s[i].header.time == s[j].header.time && s[i].is_cron()
                ==> s[j].is_cron(),
{
    assert forall|i: int, j: int| 0 <= i < j < s.len() implies s[i].header.time
        <= s[j].header.time by {
        assert(!precedes(s[j], s[i]));
    }
    assert forall|i: int, j: int|
        0 <= i < j < s.len() && s[i].header.time == s[j].header.time && s[i].is_cron()
        implies s[j].is_cron() by {
        assert(!precedes(s[j], s[i]));
    }
}

/// No two reminders of the list are shown at the same place.
pub open spec fn distinct_places(s: Seq<RowView>) -> bool {
    forall|i: int, j: int| 0 <= i < j < s.len() ==> !equivalent(#[trigger] s[i], #[trigger] s[j])
}

/// The order of display does not depend on the order in which the reminders
/// are handed in: where no two of them are shown at the same place, two
/// sorted lists of the same reminders are the same list.
pub proof fn lemma_sorted_unique(s: Seq<RowView>, t: Seq<RowView>)
    requires
        sorted(s),
        sorted(t),
        distinct_places(s),
        s.to_multiset() == t.to_multiset(),
    ensures
        s == t,
    decreases s.len(),
{
    broadcast use group_to_multiset_ensures;

    assert(s.len() == t.len()) by {
        to_multiset_len(s);
        to_multiset_len(t);
    }
    if s.len() == 0 {
        assert(s =~= t);
    } else {
        assert(s.contains(s[0]));
        assert(t.contains(t[0]));
        assert(t.to_multiset().count(s[0]) > 0);
        assert(s.to_multiset().count(t[0]) > 0);
        let k = choose|k: int| 0 <= k < t.len() && t[k] == s[0];
        let m = choose|m: int| 0 <= m < s.len() && s[m] == t[0];
        if m > 0 {
            assert(!precedes(s[m], s[0]));
            if k > 0 {
                assert(!precedes(t[k], t[0]));
            }
            assert(equivalent(s[0], s[m]));
        }
        assert(s[0] == t[0]);
        let (s1, t1) = (s.remove(0), t.remove(0));
        to_multiset_remove(s, 0);
        to_multiset_remove(t, 0);
        assert forall|i: int, j: int| 0 <= i < j < s1.len() implies !precedes(
            #[trigger] s1[j],
            #[trigger] s1[i],
        ) by {
            assert(!precedes(s[j + 1], s[i + 1]));
        }
        assert forall|i: int, j: int| 0 <= i < j < t1.len() implies !precedes(
            #[trigger] t1[j],
            #[trigger] t1[i],
        ) by {
            assert(!precedes(t[j + 1], t[i + 1]));
        }
        assert forall|i: int, j: int| 0 <= i < j < s1.len() implies !equivalent(
            #[trigger] s1[i],
            #[trigger] s1[j],
        ) by {
            assert(!equivalent(s[i + 1], s[j + 1]));
        }
        lemma_sorted_unique(s1, t1);
        assert(s =~= seq![s[0]] + s1);
        assert(t =~= seq![t[0]] + t1);
    }
}

impl GenericReminder {
    /// The reminder's id in the table of its kind.
    pub fn id(&self) -> (r: i64)
        ensures
            r == self@.header.id,
    {
        match self {
            GenericReminder::OneShot(x) => x.header.id,
            GenericReminder::Cron(x) => x.header.id,
        }
    }

    /// The instant at which the reminder is due next.
    pub fn due_time(&self) -> (r: i64)
        ensures
            r == self@.header.time,
    {
        match self {
            GenericReminder::OneShot(x) => x.header.time,
            GenericReminder::Cron(x) => x.header.time,
        }
    }

    /// The chat that owns the reminder.
    pub fn chat_id(&self) -> (r: i64)
        ensures
            r == self@.header.chat_id,
    {
        match self {
            GenericReminder::OneShot(x) => x.header.chat_id,
            GenericReminder::Cron(x) => x.header.chat_id,
        }
    }

    /// The text of the reminder.
    pub fn description(&self) -> (r: &String)
        ensures
            r@ == self@.desc,
    {
        match self {
            GenericReminder::OneShot(x) => &x.desc,
            GenericReminder::Cron(x) => &x.desc,
        }
    }

    /// Whether the reminder is a recurring one.
    pub fn is_cron(&self) -> (r: bool)
        ensures
            r == self@.is_cron(),
    {
        match self {
            GenericReminder::OneShot(_) => false,
            GenericReminder::Cron(_) => true,
        }
    }

    /// Whether this reminder is shown before `other`.
    pub fn precedes(&self, other: &GenericReminder) -> (r: bool)
        ensures
            r == precedes(self@, other@),
    {
        let (t1, t2) = (self.due_time(), other.due_time());
        if t1 != t2 {
            t1 < t2
        } else {
            let (c1, c2) = (self.is_cron(), other.is_cron());
            if c1 != c2 {
                c2
            } else {
                self.id() < other.id()
            }
        }
    }
}

/// Puts `item` into the sorted `list`, behind every reminder that is not
/// shown after it.
pub fn insert_sorted(list: &mut Vec<GenericReminder>, item: GenericReminder)
    requires
        sorted(views(old(list)@)),
    ensures
        sorted(views(final(list)@)),
        views(final(list)@).to_multiset() == views(old(list)@).to_multiset().insert(item@),
        final(list)@.len() == old(list)@.len() + 1,
{
    let n = list.len();
    let mut p: usize = 0;
    while p < n && !item.precedes(&list[p])
        invariant
            p <= n,
            n == list.len(),
            *list == *old(list),
            forall|k: int| 0 <= k < p ==> !precedes(item@, #[trigger] views(list@)[k]),
        decreases n - p,
    {
        p += 1;
    }
    let ghost before = views(list@);
    list.insert(p, item);
    proof {
        let after = views(list@);
        assert(after =~= before.insert(p as int, item@));
        to_multiset_insert(before, p as int, item@);
        assert forall|i: int, j: int| 0 <= i < j < after.len() implies !precedes(
            #[trigger] after[j],
            #[trigger] after[i],
        ) by {
            if j < p {
                assert(!precedes(before[j], before[i]));
            } else if j == p {
                assert(!precedes(item@, before[i]));
            } else if i == p {
                assert(precedes(item@, before[p as int]));
                if j - 1 > p {
                    assert(!precedes(before[j - 1], before[p as int]));
                }
            } else if i < p {
                assert(!precedes(before[j - 1], before[i]));
            } else {
                assert(!precedes(before[j - 1], before[i - 1]));
            }
        }
    }
}

/// The reminders of `list` in the order of display.
pub fn sort(list: Vec<GenericReminder>) -> (r: Vec<GenericReminder>)
    ensures
        sorted(views(r@)),
        views(r@).to_multiset() == views(list@).to_multiset(),
        r@.len() == list@.len(),
{
    let mut rest = list;
    let mut out: Vec<GenericReminder> = Vec::new();
    assert(views(out@) =~= Seq::<RowView>::empty());
    proof {
        broadcast use group_to_multiset_ensures;
        assert(views(out@).to_multiset() =~= vstd::multiset::Multiset::<RowView>::empty());
        assert(views(out@).to_multiset().add(views(rest@).to_multiset()) =~= views(list@).to_multiset());
    }
    while rest.len() > 0
        invariant
            sorted(views(out@)),
            views(out@).to_multiset().add(views(rest@).to_multiset()) == views(list@).to_multiset(),
            out@.len() + rest@.len() == list@.len(),
        decreases rest.len(),
    {
        let ghost rest_before = views(rest@);
        let ghost out_before = views(out@);
        let item = rest.pop().unwrap();
        proof {
            assert(rest_before =~= views(rest@).push(item@));
            to_multiset_build(views(rest@), item@);
        }
        insert_sorted(&mut out, item);
        assert(views(out@).to_multiset().add(views(rest@).to_multiset()) =~= out_before.to_multiset().add(
            rest_before.to_multiset(),
        ));
    }
    proof {
        assert(views(rest@) =~= Seq::<RowView>::empty());
        broadcast use group_to_multiset_ensures;
        assert(views(rest@).to_multiset() =~= vstd::multiset::Multiset::<RowView>::empty());
        assert(views(out@).to_multiset().add(views(rest@).to_multiset()) =~= views(out@).to_multiset());
    }
    out
}

} // verus!
