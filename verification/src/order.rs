//! The order of texts, and lists kept in that order.

use vstd::prelude::*;

use crate::text::chars_of;

verus! {

/// Whether `left` stands before `right` in a dictionary of characters.
pub open spec fn before(left: Seq<char>, right: Seq<char>) -> bool
    decreases left.len(),
{
    &&& right.len() > 0
    &&& {
        ||| left.len() == 0
        ||| left[0] < right[0]
        ||| left[0] == right[0] && before(left.drop_first(), right.drop_first())
    }
}

/// Of two different texts, exactly one stands before the other.
pub proof fn order_is_total(left: Seq<char>, right: Seq<char>)
    ensures
        left == right || before(left, right) || before(right, left),
        !(before(left, right) && before(right, left)),
        left == right ==> !before(left, right),
    decreases left.len(),
{
    if left.len() == 0 || right.len() == 0 {
        if left.len() == right.len() {
            assert(left =~= right);
        }
    } else if left[0] == right[0] {
        let l = left.drop_first();
        let r = right.drop_first();
        order_is_total(l, r);
        if l == r {
            assert forall|i: int| 0 <= i < left.len() implies left[i] == right[i] by {
                if i > 0 {
                    assert(left[i] == l[i - 1]);
                    assert(right[i] == r[i - 1]);
                }
            }
            assert(left =~= right);
        }
    }
}

/// What stands before a text stands before all that stands after it.
pub proof fn order_is_transitive(a: Seq<char>, b: Seq<char>, c: Seq<char>)
    requires
        before(a, b),
        before(b, c),
    ensures
        before(a, c),
    decreases a.len(),
{
    if a.len() > 0 && a[0] == b[0] && b[0] == c[0] {
        order_is_transitive(a.drop_first(), b.drop_first(), c.drop_first());
    }
}

/// Whether `left` stands before `right`.
pub fn precedes(left: &str, right: &str) -> (yes: bool)
    ensures
        yes == before(left@, right@),
{
    let a = chars_of(left);
    let b = chars_of(right);
    let mut i: usize = 0;
    assert(a@.skip(0) =~= a@);
    assert(b@.skip(0) =~= b@);
    while i < a.len() && i < b.len()
        invariant
            a@ == left@,
            b@ == right@,
            i <= a@.len(),
            i <= b@.len(),
            before(a@, b@) == before(a@.skip(i as int), b@.skip(i as int)),
        decreases a@.len() - i,
    {
        assert(a@.skip(i as int).drop_first() =~= a@.skip(i + 1));
        assert(b@.skip(i as int).drop_first() =~= b@.skip(i + 1));
        if a[i] < b[i] {
            return true;
        }
        if b[i] < a[i] {
            return false;
        }
        i += 1;
    }
    i < b.len()
}

// ------------------------------------------------------------ ordered lists

/// Whether a list of named entries is in the order of the names, each name once.
pub open spec fn ordered<V>(entries: Seq<(Seq<char>, V)>) -> bool {
    forall|i: int, j: int|
        0 <= i < j < entries.len() ==> before((#[trigger] entries[i]).0, (#[trigger] entries[j]).0)
}

/// The entry under a name in a list in order.
pub open spec fn lookup<V>(entries: Seq<(Seq<char>, V)>, name: Seq<char>) -> Option<V>
    decreases entries.len(),
{
    if entries.len() == 0 {
        None
    } else if before(entries[0].0, name) {
        lookup(entries.drop_first(), name)
    } else if entries[0].0 == name {
        Some(entries[0].1)
    } else {
        None
    }
}

/// A list in order with an entry put in its place, instead of one of the same name.
pub open spec fn place<V>(entries: Seq<(Seq<char>, V)>, name: Seq<char>, value: V) -> Seq<
    (Seq<char>, V),
>
    decreases entries.len(),
{
    if entries.len() == 0 {
        seq![(name, value)]
    } else if before(entries[0].0, name) {
        seq![entries[0]] + place(entries.drop_first(), name, value)
    } else if entries[0].0 == name {
        seq![(name, value)] + entries.drop_first()
    } else {
        seq![(name, value)] + entries
    }
}

/// Whether `at` is where a name stands, or would stand, in a list in order.
pub open spec fn belongs_at<V>(entries: Seq<(Seq<char>, V)>, name: Seq<char>, at: int) -> bool {
    &&& 0 <= at <= entries.len()
    &&& forall|i: int| 0 <= i < at ==> before((#[trigger] entries[i]).0, name)
    &&& at < entries.len() ==> !before(entries[at].0, name)
}

/// Where a name stands, or would stand, in a list in order.
spec fn slot<V>(entries: Seq<(Seq<char>, V)>, name: Seq<char>) -> int
    decreases entries.len(),
{
    if entries.len() > 0 && before(entries[0].0, name) {
        1 + slot(entries.drop_first(), name)
    } else {
        0
    }
}

proof fn slot_fits<V>(entries: Seq<(Seq<char>, V)>, name: Seq<char>)
    ensures
        belongs_at(entries, name, slot(entries, name)),
    decreases entries.len(),
{
    if entries.len() > 0 && before(entries[0].0, name) {
        let rest = entries.drop_first();
        slot_fits(rest, name);
        assert forall|i: int| 0 <= i < slot(entries, name) implies before(
            (#[trigger] entries[i]).0,
            name,
        ) by {
            if i > 0 {
                assert(entries[i] == rest[i - 1]);
            }
        }
    }
}

/// Lookup and placement by position.
pub proof fn place_at<V>(entries: Seq<(Seq<char>, V)>, name: Seq<char>, value: V, at: int)
    requires
        belongs_at(entries, name, at),
    ensures
        at < entries.len() && entries[at].0 == name ==> {
            &&& lookup(entries, name) == Some(entries[at].1)
            &&& place(entries, name, value) == entries.update(at, (name, value))
        },
        !(at < entries.len() && entries[at].0 == name) ==> {
            &&& lookup(entries, name) is None
            &&& place(entries, name, value) == entries.insert(at, (name, value))
        },
    decreases entries.len(),
{
    if at > 0 {
        let rest = entries.drop_first();
        assert forall|i: int| 0 <= i < at - 1 implies before((#[trigger] rest[i]).0, name) by {
            assert(rest[i] == entries[i + 1]);
        }
        assert(before(entries[0].0, name));
        place_at(rest, name, value, at - 1);
        if at < entries.len() && entries[at].0 == name {
            assert(place(entries, name, value) =~= entries.update(at, (name, value)));
        } else {
            assert(place(entries, name, value) =~= entries.insert(at, (name, value)));
        }
    } else if entries.len() > 0 && entries[0].0 == name {
        assert(place(entries, name, value) =~= entries.update(0, (name, value)));
    } else {
        assert(place(entries, name, value) =~= entries.insert(0, (name, value)));
    }
}

/// Where a name stands in a list in order, and whether it is there.
pub fn position<V: DeepView>(entries: &Vec<(String, V)>, name: &str) -> (found: (usize, bool))
    ensures
        belongs_at(entries.deep_view(), name@, found.0 as int),
        found.1 == (found.0 < entries@.len() && entries.deep_view()[found.0 as int].0 == name@),
{
    let mut i: usize = 0;
    while i < entries.len() && precedes(entries[i].0.as_str(), name)
        invariant
            i <= entries@.len(),
            forall|j: int| 0 <= j < i ==> before((#[trigger] entries.deep_view()[j]).0, name@),
        decreases entries@.len() - i,
    {
        i += 1;
    }
    let there = i < entries.len() && crate::text::same(entries[i].0.as_str(), name);
    (i, there)
}

/// What is put into a list is found there, and nothing else is changed.
pub proof fn placing_is_read_back<V>(
    entries: Seq<(Seq<char>, V)>,
    name: Seq<char>,
    value: V,
    other: Seq<char>,
)
    ensures
        lookup(place(entries, name, value), name) == Some(value),
        ordered(entries) && other != name ==> lookup(place(entries, name, value), other) == lookup(
            entries,
            other,
        ),
    decreases entries.len(),
{
    let placed = place(entries, name, value);
    order_is_total(name, name);
    order_is_total(name, other);
    if entries.len() == 0 {
        assert(placed.drop_first() =~= entries);
    } else {
        let rest = entries.drop_first();
        order_is_total(entries[0].0, other);
        order_is_total(entries[0].0, name);
        if before(entries[0].0, name) {
            placing_is_read_back(rest, name, value, other);
            assert(placed.drop_first() =~= place(rest, name, value));
            if ordered(entries) {
                assert forall|i: int, j: int| 0 <= i < j < rest.len() implies before(
                    (#[trigger] rest[i]).0,
                    (#[trigger] rest[j]).0,
                ) by {
                    assert(rest[i] == entries[i + 1]);
                    assert(rest[j] == entries[j + 1]);
                }
            }
        } else if entries[0].0 == name {
            assert(placed.drop_first() =~= rest);
        } else {
            assert(placed.drop_first() =~= entries);
            if ordered(entries) && before(name, other) == false && other != name {
                order_is_transitive(other, name, entries[0].0);
            }
        }
    }
}

/// A list in order stays in order when an entry is put into it.
pub proof fn placing_keeps_the_order<V>(
    entries: Seq<(Seq<char>, V)>,
    name: Seq<char>,
    value: V,
)
    requires
        ordered(entries),
    ensures
        ordered(place(entries, name, value)),
{
    let at = slot(entries, name);
    slot_fits(entries, name);
    place_at(entries, name, value, at);
    let placed = place(entries, name, value);
    let there = at < entries.len() && entries[at].0 == name;
    if at < entries.len() {
        order_is_total(entries[at].0, name);
    }
    assert forall|i: int, j: int| 0 <= i < j < placed.len() implies before(
        (#[trigger] placed[i]).0,
        (#[trigger] placed[j]).0,
    ) by {
        if !there {
            if j == at {
                assert(placed[i] == entries[i]);
            } else if i == at {
                assert(placed[j] == entries[j - 1]);
                if j - 1 > at {
                    assert(before(entries[at].0, entries[j - 1].0));
                    order_is_transitive(name, entries[at].0, entries[j - 1].0);
                }
            } else {
                let p = if i < at {
                    i
                } else {
                    i - 1
                };
                let q = if j < at {
                    j
                } else {
                    j - 1
                };
                assert(before(entries[p].0, entries[q].0));
            }
        } else {
            assert(before(entries[i].0, entries[j].0));
        }
    }
}

/// A list holds after a placement what was placed and what it held before.
pub proof fn placing_adds_nothing_else<V>(
    entries: Seq<(Seq<char>, V)>,
    name: Seq<char>,
    value: V,
    i: int,
)
    requires
        0 <= i < place(entries, name, value).len(),
    ensures
        place(entries, name, value)[i] == (name, value) || entries.contains(
            place(entries, name, value)[i],
        ),
{
    let at = slot(entries, name);
    slot_fits(entries, name);
    place_at(entries, name, value, at);
    let placed = place(entries, name, value);
    if at < entries.len() && entries[at].0 == name {
        if i != at {
            assert(placed[i] == entries[i]);
        }
    } else if i < at {
        assert(placed[i] == entries[i]);
    } else if i > at {
        assert(placed[i] == entries[i - 1]);
    }
}

/// What is found in a list stands there under the name.
pub proof fn lookup_finds_an_entry<V>(entries: Seq<(Seq<char>, V)>, name: Seq<char>)
    ensures
        lookup(entries, name) matches Some(value) ==> entries.contains((name, value)),
{
    if let Some(value) = lookup(entries, name) {
        let at = slot(entries, name);
        slot_fits(entries, name);
        place_at(entries, name, value, at);
        assert(entries[at] == (name, value));
    }
}

/// Where two texts first differ, the smaller character comes first, and a text
/// comes before all that it begins.
pub proof fn the_first_difference_decides(
    common: Seq<char>,
    left: Seq<char>,
    right: Seq<char>,
    a: char,
    b: char,
)
    ensures
        a < b ==> before(common.push(a) + left, common.push(b) + right),
        right.len() > 0 ==> before(common, common + right),
    decreases common.len(),
{
    if common.len() > 0 {
        let rest = common.drop_first();
        the_first_difference_decides(rest, left, right, a, b);
        assert((common.push(a) + left).drop_first() =~= rest.push(a) + left);
        assert((common.push(b) + right).drop_first() =~= rest.push(b) + right);
        assert((common + right).drop_first() =~= rest + right);
        assert((common.push(a) + left)[0] == common[0]);
        assert((common.push(b) + right)[0] == common[0]);
    } else {
        assert((common.push(a) + left)[0] == a);
        assert((common.push(b) + right)[0] == b);
    }
}

/// In a list in order every entry is found under its name.
pub proof fn every_entry_is_found<V>(entries: Seq<(Seq<char>, V)>, i: int)
    requires
        ordered(entries),
        0 <= i < entries.len(),
    ensures
        lookup(entries, entries[i].0) == Some(entries[i].1),
{
    assert forall|j: int| 0 <= j < i implies before(
        (#[trigger] entries[j]).0,
        entries[i].0,
    ) by {}
    order_is_total(entries[i].0, entries[i].0);
    place_at(entries, entries[i].0, entries[i].1, i);
}

} // verus!
