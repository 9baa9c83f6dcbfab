//! Maps keyed by name, kept in ascending order of their names.

use crate::text::chars_of;
use vstd::prelude::*;

verus! {

/// Lexicographic order by character.
pub open spec fn before(a: Seq<char>, b: Seq<char>) -> bool
    decreases a.len(),
{
    if b.len() == 0 {
        false
    } else if a.len() == 0 {
        true
    } else if a[0] != b[0] {
        a[0] < b[0]
    } else {
        before(a.drop_first(), b.drop_first())
    }
}

pub proof fn lemma_before_irreflexive(a: Seq<char>)
    ensures
        !before(a, a),
    decreases a.len(),
{
    if a.len() > 0 {
        lemma_before_irreflexive(a.drop_first());
    }
}

pub proof fn lemma_before_transitive(a: Seq<char>, b: Seq<char>, c: Seq<char>)
    requires
        before(a, b),
        before(b, c),
    ensures
        before(a, c),
    decreases a.len(),
{
    if a.len() > 0 && a[0] == b[0] && b[0] == c[0] {
        lemma_before_transitive(a.drop_first(), b.drop_first(), c.drop_first());
    }
}

pub proof fn lemma_before_total(a: Seq<char>, b: Seq<char>)
    ensures
        a == b || before(a, b) || before(b, a),
    decreases a.len(),
{
    if a.len() > 0 && b.len() > 0 && a[0] == b[0] {
        lemma_before_total(a.drop_first(), b.drop_first());
        if a.drop_first() == b.drop_first() {
            assert(a =~= seq![a[0]] + a.drop_first());
            assert(b =~= seq![b[0]] + b.drop_first());
        }
    } else if a.len() == 0 && b.len() == 0 {
        assert(a =~= b);
    }
}

/// Whether `a` comes before `b`.
pub fn precedes(a: &str, b: &str) -> (found: bool)
    ensures
        found == before(a@, b@),
{
    let left = chars_of(a);
    let right = chars_of(b);
    let mut i: usize = 0;
    assert(left@.skip(0) == a@);
    assert(right@.skip(0) == b@);
    while i < left.len() && i < right.len()
        invariant
            i <= left@.len(),
            i <= right@.len(),
            before(a@, b@) == before(left@.skip(i as int), right@.skip(i as int)),
        decreases left.len() - i,
    {
        if left[i] != right[i] {
            return left[i] < right[i];
        }
        assert(left@.skip(i as int).drop_first() == left@.skip(i + 1));
        assert(right@.skip(i as int).drop_first() == right@.skip(i + 1));
        i += 1;
    }
    i < right.len()
}

/// Whether names stand in strictly ascending order, so that none occurs twice.
pub open spec fn ascending<V>(entries: Seq<(Seq<char>, V)>) -> bool {
    forall|i: int, j: int|
        0 <= i < j < entries.len() ==> before((#[trigger] entries[i]).0, (#[trigger] entries[j]).0)
}

/// How many of the first `count` names come before `name`.
pub open spec fn place<V>(entries: Seq<(Seq<char>, V)>, name: Seq<char>) -> nat
    decreases entries.len(),
{
    if entries.len() == 0 {
        0
    } else {
        place(entries.drop_last(), name) + if before(entries.last().0, name) {
            1nat
        } else {
            0nat
        }
    }
}

/// The entries with `name` set to `value`: replaced where it stands, else inserted
/// where it belongs.
pub open spec fn with_entry<V>(
    entries: Seq<(Seq<char>, V)>,
    name: Seq<char>,
    value: V,
) -> Seq<(Seq<char>, V)> {
    let at = place(entries, name) as int;
    if at < entries.len() && entries[at].0 == name {
        entries.update(at, (name, value))
    } else {
        entries.insert(at, (name, value))
    }
}

/// A map from names to values in ascending order of the names.
pub struct NameMap<V> {
    entries: Vec<(String, V)>,
}

impl<V> View for NameMap<V> {
    type V = Seq<(Seq<char>, V)>;

    /// The entries in order.
    closed spec fn view(&self) -> Seq<(Seq<char>, V)> {
        self.entries@.map_values(|entry: (String, V)| (entry.0@, entry.1))
    }
}

/// In an ascending map the names before `name` are exactly the first `place` ones.
proof fn lemma_place<V>(entries: Seq<(Seq<char>, V)>, name: Seq<char>, at: int)
    requires
        ascending(entries),
        0 <= at <= entries.len(),
        forall|i: int| 0 <= i < at ==> before((#[trigger] entries[i]).0, name),
        at < entries.len() ==> !before(entries[at].0, name),
    ensures
        place(entries, name) == at,
    decreases entries.len(),
{
    if entries.len() > 0 {
        let less = entries.drop_last();
        assert(ascending(less)) by {
            assert forall|i: int, j: int| 0 <= i < j < less.len() implies before(
                (#[trigger] less[i]).0,
                (#[trigger] less[j]).0,
            ) by {
                assert(less[i] == entries[i]);
                assert(less[j] == entries[j]);
            }
        }
        if at == entries.len() {
            assert(before(entries[at - 1].0, name));
            lemma_place(less, name, at - 1);
        } else {
            let last = entries.len() - 1;
            if at < last {
                if before(entries[last].0, name) {
                    lemma_before_transitive(entries[at].0, entries[last].0, name);
                }
                assert(!before(less[at].0, name));
            }
            lemma_place(less, name, at);
        }
    }
}

impl<V> NameMap<V> {
    #[verifier::type_invariant]
    closed spec fn sorted(self) -> bool {
        ascending(self@)
    }

    /// A map without entries.
    pub fn new() -> (r: Self)
        ensures
            r@ == Seq::<(Seq<char>, V)>::empty(),
    {
        let r = NameMap { entries: Vec::new() };
        assert(r@ =~= Seq::<(Seq<char>, V)>::empty());
        r
    }

    /// How many entries there are.
    pub fn len(&self) -> (n: usize)
        ensures
            n == self@.len(),
            ascending(self@),
    {
        proof {
            use_type_invariant(self);
        }
        self.entries.len()
    }

    /// The name of the entry at `index`.
    pub fn name(&self, index: usize) -> (r: &String)
        requires
            index < self@.len(),
        ensures
            r@ == self@[index as int].0,
    {
        &self.entries[index].0
    }

    /// The value of the entry at `index`.
    pub fn value(&self, index: usize) -> (r: &V)
        requires
            index < self@.len(),
        ensures
            *r == self@[index as int].1,
    {
        &self.entries[index].1
    }

    /// The index of a name, if the map holds it.
    pub fn find(&self, name: &str) -> (r: Option<usize>)
        ensures
            r matches Some(at) ==> at < self@.len() && self@[at as int].0 == name@,
            r is None ==> forall|i: int| 0 <= i < self@.len() ==> (#[trigger] self@[i]).0 != name@,
    {
        let mut i: usize = 0;
        while i < self.entries.len()
            invariant
                i <= self@.len(),
                self@.len() == self.entries@.len(),
                forall|j: int| 0 <= j < i ==> (#[trigger] self@[j]).0 != name@,
            decreases self.entries.len() - i,
        {
            if crate::text::same(self.entries[i].0.as_str(), name) {
                return Some(i);
            }
            i += 1;
        }
        None
    }

    /// The value of a name, if the map holds it.
    pub fn get(&self, name: &str) -> (r: Option<&V>)
        ensures
            r matches Some(value) ==> exists|i: int|
                0 <= i < self@.len() && (#[trigger] self@[i]).0 == name@ && self@[i].1 == *value,
            r is None ==> forall|i: int| 0 <= i < self@.len() ==> (#[trigger] self@[i]).0 != name@,
    {
        match self.find(name) {
            Some(at) => Some(&self.entries[at].1),
            None => None,
        }
    }

    /// Sets the value of a name.
    pub fn insert(&mut self, name: String, value: V)
        ensures
            final(self)@ == with_entry(old(self)@, name@, value),
    {
        proof {
            use_type_invariant(&*self);
        }
        let ghost before_it = self@;
        let mut entries: Vec<(String, V)> = Vec::new();
        core::mem::swap(&mut entries, &mut self.entries);
        let ghost all = entries@.map_values(|entry: (String, V)| (entry.0@, entry.1));
        assert(all == before_it);
        let mut at: usize = 0;
        while at < entries.len() && precedes(entries[at].0.as_str(), name.as_str())
            invariant
                at <= entries@.len(),
                all == entries@.map_values(|entry: (String, V)| (entry.0@, entry.1)),
                forall|i: int| 0 <= i < at ==> before((#[trigger] all[i]).0, name@),
            decreases entries.len() - at,
        {
            assert(before(all[at as int].0, name@));
            at += 1;
        }
        proof {
            lemma_place(all, name@, at as int);
        }
        let ghost wanted = with_entry(all, name@, value);
        let ghost kept = name@;
        if at < entries.len() && crate::text::same(entries[at].0.as_str(), name.as_str()) {
            entries[at] = (name, value);
            assert(entries@.map_values(|entry: (String, V)| (entry.0@, entry.1)) =~= wanted);
            proof {
                assert forall|i: int, j: int| 0 <= i < j < wanted.len() implies before(
                    (#[trigger] wanted[i]).0,
                    (#[trigger] wanted[j]).0,
                ) by {
                    assert(before(all[i].0, all[j].0));
                }
            }
        } else {
            entries.insert(at, (name, value));
            assert(entries@.map_values(|entry: (String, V)| (entry.0@, entry.1)) =~= wanted);
            proof {
                lemma_inserted(all, kept, value, at as int);
            }
        }
        self.entries = entries;
        assert(self@ == wanted);
    }

    /// The entries, in order.
    pub fn into_entries(self) -> (r: Vec<(String, V)>)
        ensures
            r@.map_values(|entry: (String, V)| (entry.0@, entry.1)) == self@,
    {
        self.entries
    }
}

proof fn lemma_inserted<V>(all: Seq<(Seq<char>, V)>, name: Seq<char>, value: V, at: int)
    requires
        ascending(all),
        0 <= at <= all.len(),
        forall|i: int| 0 <= i < at ==> before((#[trigger] all[i]).0, name),
        at < all.len() ==> !before(all[at].0, name) && all[at].0 != name,
    ensures
        ascending(all.insert(at, (name, value))),
{
    let wanted = all.insert(at, (name, value));
    if at < all.len() {
        lemma_before_total(all[at].0, name);
    }
    assert forall|i: int, j: int| 0 <= i < j < wanted.len() implies before(
        (#[trigger] wanted[i]).0,
        (#[trigger] wanted[j]).0,
    ) by {
        let from = if i < at {
            i
        } else {
            i - 1
        };
        let to = if j < at {
            j
        } else {
            j - 1
        };
        if i == at {
            if to > at {
                lemma_before_transitive(name, all[at].0, all[to].0);
            }
        } else if j == at {
            assert(before(all[i].0, name));
        } else {
            assert(before(all[from].0, all[to].0));
        }
    }
}

/// Names are ordered by their first difference: where they differ, by the smaller character,
/// and where one ends, the shorter first.
pub proof fn law_names_are_ordered_by_their_first_difference(a: Seq<char>, b: Seq<char>, at: int)
    requires
        0 <= at <= a.len(),
        at <= b.len(),
        forall|i: int| 0 <= i < at ==> a[i] == b[i],
        at < a.len() && at < b.len() ==> a[at] != b[at],
    ensures
        at < a.len() && at < b.len() ==> (before(a, b) <==> a[at] < b[at]),
        at == a.len() ==> (before(a, b) <==> a.len() < b.len()),
        at == b.len() ==> !before(a, b),
    decreases at,
{
    if at > 0 {
        assert(a[0] == b[0]);
        let c = a.drop_first();
        let d = b.drop_first();
        assert forall|i: int| 0 <= i < at - 1 implies c[i] == d[i] by {
            assert(a[i + 1] == b[i + 1]);
        }
        law_names_are_ordered_by_their_first_difference(c, d, at - 1);
    }
}

/// Setting a name in a sorted map keeps it sorted, puts the value under the name and leaves
/// every other entry as it was, with no entry more than the name's own.
pub proof fn law_setting_a_name_changes_that_name_alone<V>(
    entries: Seq<(Seq<char>, V)>,
    name: Seq<char>,
    value: V,
)
    requires
        ascending(entries),
    ensures
        ascending(with_entry(entries, name, value)),
        with_entry(entries, name, value).contains((name, value)),
        forall|entry: (Seq<char>, V)|
            entry.0 != name ==> (#[trigger] with_entry(entries, name, value).contains(entry)
                <==> entries.contains(entry)),
        forall|entry: (Seq<char>, V)|
            entry.0 == name && #[trigger] with_entry(entries, name, value).contains(entry)
                ==> entry.1 == value,
        with_entry(entries, name, value).len() == entries.len() + if exists|i: int|
            0 <= i < entries.len() && (#[trigger] entries[i]).0 == name {
            0int
        } else {
            1int
        },
{
    let at = lemma_place_found(entries, name);
    let wanted = with_entry(entries, name, value);
    if at < entries.len() && entries[at].0 == name {
        assert(wanted[at] == (name, value));
        assert forall|i: int, j: int| 0 <= i < j < wanted.len() implies before(
            (#[trigger] wanted[i]).0,
            (#[trigger] wanted[j]).0,
        ) by {
            assert(before(entries[i].0, entries[j].0));
        }
        assert forall|entry: (Seq<char>, V)| entry.0 != name implies (
        #[trigger] wanted.contains(entry) <==> entries.contains(entry)) by {
            if wanted.contains(entry) {
                let i = choose|i: int| 0 <= i < wanted.len() && wanted[i] == entry;
                assert(entries[i] == entry);
            }
            if entries.contains(entry) {
                let i = choose|i: int| 0 <= i < entries.len() && entries[i] == entry;
                assert(wanted[i] == entry);
            }
        }
    } else {
        lemma_inserted(entries, name, value, at);
        assert(wanted[at] == (name, value));
        assert forall|i: int| 0 <= i < entries.len() implies (#[trigger] entries[i]).0 != name by {
            if i < at {
                lemma_not_before_itself(name);
            } else if i > at {
                lemma_before_total(entries[at].0, name);
                assert(before(entries[at].0, entries[i].0));
                lemma_before_transitive(name, entries[at].0, entries[i].0);
                lemma_not_before_itself(name);
            }
        }
        assert forall|entry: (Seq<char>, V)| entry.0 != name implies (
        #[trigger] wanted.contains(entry) <==> entries.contains(entry)) by {
            if wanted.contains(entry) {
                let i = choose|i: int| 0 <= i < wanted.len() && wanted[i] == entry;
                if i < at {
                    assert(entries[i] == entry);
                } else {
                    assert(entries[i - 1] == entry);
                }
            }
            if entries.contains(entry) {
                let i = choose|i: int| 0 <= i < entries.len() && entries[i] == entry;
                if i < at {
                    assert(wanted[i] == entry);
                } else {
                    assert(wanted[i + 1] == entry);
                }
            }
        }
    }
    assert forall|entry: (Seq<char>, V)|
        entry.0 == name && #[trigger] wanted.contains(entry) implies entry.1 == value by {
        let i = choose|i: int| 0 <= i < wanted.len() && wanted[i] == entry;
        if i != at {
            lemma_not_before_itself(name);
            if i < at {
                assert(before(wanted[i].0, wanted[at].0));
            } else {
                assert(before(wanted[at].0, wanted[i].0));
            }
        }
    }
}

proof fn lemma_not_before_itself(name: Seq<char>)
    ensures
        !before(name, name),
{
    law_names_are_ordered_by_their_first_difference(name, name, name.len() as int);
}

proof fn lemma_place_found<V>(entries: Seq<(Seq<char>, V)>, name: Seq<char>) -> (at: int)
    requires
        ascending(entries),
    ensures
        0 <= at <= entries.len(),
        place(entries, name) == at,
        forall|i: int| 0 <= i < at ==> before((#[trigger] entries[i]).0, name),
        at < entries.len() ==> !before(entries[at].0, name),
    decreases entries.len(),
{
    if entries.len() == 0 {
        0
    } else {
        let less = entries.drop_last();
        assert forall|i: int, j: int| 0 <= i < j < less.len() implies before(
            (#[trigger] less[i]).0,
            (#[trigger] less[j]).0,
        ) by {
            assert(less[i] == entries[i]);
            assert(less[j] == entries[j]);
        }
        let at = lemma_place_found(less, name);
        let last = entries.len() - 1;
        assert forall|i: int| 0 <= i < at implies before((#[trigger] entries[i]).0, name) by {
            assert(less[i] == entries[i]);
        }
        let found = if at == last && before(entries[last].0, name) {
            at + 1
        } else {
            at
        };
        if at < last {
            assert(less[at] == entries[at]);
        }
        lemma_place(entries, name, found);
        found
    }
}

} // verus!
