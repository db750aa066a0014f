//! Ordered lists of named entries, in which a name is meant to occur once.

use vstd::prelude::*;

verus! {

/// The position of the first entry named `key`, or the length if there is none.
pub open spec fn position<V>(entries: Seq<(Seq<char>, V)>, key: Seq<char>) -> int
    decreases entries.len(),
{
    if entries.len() == 0 || entries[0].0 == key {
        0
    } else {
        1 + position(entries.drop_first(), key)
    }
}

/// Whether some entry is named `key`.
pub open spec fn has<V>(entries: Seq<(Seq<char>, V)>, key: Seq<char>) -> bool {
    position(entries, key) < entries.len()
}

/// The value of the first entry named `key`.
pub open spec fn lookup<V>(entries: Seq<(Seq<char>, V)>, key: Seq<char>) -> Option<V> {
    if has(entries, key) {
        Some(entries[position(entries, key)].1)
    } else {
        None
    }
}

/// Give the entry named `key` the value `value`: in place if there is such an
/// entry, else as a new last entry.
pub open spec fn upsert<V>(entries: Seq<(Seq<char>, V)>, key: Seq<char>, value: V) -> Seq<
    (Seq<char>, V),
> {
    if has(entries, key) {
        entries.update(position(entries, key), (key, value))
    } else {
        entries.push((key, value))
    }
}

/// Drop the first entry named `key`, if there is one.
pub open spec fn without<V>(entries: Seq<(Seq<char>, V)>, key: Seq<char>) -> Seq<(Seq<char>, V)> {
    if has(entries, key) {
        entries.remove(position(entries, key))
    } else {
        entries
    }
}

/// No name occurs twice.
pub open spec fn unique<V>(entries: Seq<(Seq<char>, V)>) -> bool {
    forall|i: int, j: int|
        0 <= i < j < entries.len() ==> #[trigger] entries[i].0 != #[trigger] entries[j].0
}

/// What `position` finds: the entries before it have other names, and the one
/// at it, if any, has the name.
pub proof fn lemma_position<V>(entries: Seq<(Seq<char>, V)>, key: Seq<char>)
    ensures
        0 <= position(entries, key) <= entries.len(),
        forall|j: int| 0 <= j < position(entries, key) ==> (#[trigger] entries[j]).0 != key,
        has(entries, key) ==> entries[position(entries, key)].0 == key,
    decreases entries.len(),
{
    if entries.len() > 0 && entries[0].0 != key {
        let rest = entries.drop_first();
        lemma_position(rest, key);
        assert forall|j: int| 0 <= j < position(entries, key) implies (#[trigger] entries[j]).0
            != key by {
            if j > 0 {
                assert(entries[j] == rest[j - 1]);
            }
        }
    }
}

/// A position with these two properties is the one that `position` finds.
pub proof fn lemma_position_is<V>(entries: Seq<(Seq<char>, V)>, key: Seq<char>, at: int)
    requires
        0 <= at <= entries.len(),
        forall|j: int| 0 <= j < at ==> (#[trigger] entries[j]).0 != key,
        at < entries.len() ==> entries[at].0 == key,
    ensures
        position(entries, key) == at,
{
    lemma_position(entries, key);
    let p = position(entries, key);
    if p < at {
        assert(entries[p].0 != key);
    } else if at < p {
        assert(entries[at].0 != key);
    }
}

/// A name finds the value of an entry of that name, and nothing only where no entry
/// has the name. Where names are unique, every entry is found under its name.
pub proof fn law_lookup<V>(entries: Seq<(Seq<char>, V)>, key: Seq<char>, at: int)
    requires
        0 <= at < entries.len(),
    ensures
        lookup(entries, key) matches Some(v) ==> exists|i: int|
            0 <= i < entries.len() && #[trigger] entries[i] == (key, v) && forall|j: int|
                0 <= j < i ==> (#[trigger] entries[j]).0 != key,
        lookup(entries, key) is Some <==> exists|i: int|
            0 <= i < entries.len() && (#[trigger] entries[i]).0 == key,
        has(entries, key) <==> lookup(entries, key) is Some,
        unique(entries) ==> lookup(entries, entries[at].0) == Some(entries[at].1),
        lookup(Seq::<(Seq<char>, V)>::empty(), key) is None,
{
    lemma_position(entries, key);
    let p = position(entries, key);
    if has(entries, key) {
        assert(entries[p] == (key, entries[p].1));
    }
    lemma_position(entries, entries[at].0);
    let q = position(entries, entries[at].0);
    if q < at {
        assert(entries[q].0 == entries[at].0);
    }
}

/// Setting an entry leaves all others where they are, and a new name goes last.
pub proof fn law_upsert_order<V>(entries: Seq<(Seq<char>, V)>, key: Seq<char>, value: V, at: int)
    requires
        0 <= at < entries.len(),
    ensures
        upsert(entries, key, value)[at].0 == entries[at].0,
        entries[at].0 != key ==> upsert(entries, key, value)[at] == entries[at],
        lookup(entries, key) is None ==> upsert(entries, key, value) == entries.push((key, value)),
        lookup(entries, key) is Some ==> upsert(entries, key, value).len() == entries.len(),
{
    lemma_position(entries, key);
}

/// Where names are unique, dropping a name leaves exactly the other entries, in
/// their order; dropping a name that is not there leaves all.
pub proof fn law_without_order<V>(entries: Seq<(Seq<char>, V)>, key: Seq<char>)
    requires
        unique(entries),
    ensures
        without(entries, key) == entries.filter(|e: (Seq<char>, V)| e.0 != key),
    decreases entries.len(),
{
    let keep = |e: (Seq<char>, V)| e.0 != key;
    lemma_position(entries, key);
    reveal(Seq::filter);
    if entries.len() > 0 {
        let front = entries.drop_last();
        assert(unique(front)) by {
            assert forall|i: int, j: int| 0 <= i < j < front.len() implies #[trigger] front[i].0
                != #[trigger] front[j].0 by {
                assert(entries[i].0 != entries[j].0);
            }
        }
        law_without_order(front, key);
        lemma_position(front, key);
        let p = position(entries, key);
        if p < front.len() {
            lemma_position_is(front, key, p);
            assert(entries[p].0 != entries.last().0);
            assert(without(entries, key) =~= without(front, key).push(entries.last()));
        } else {
            assert forall|j: int| 0 <= j < front.len() implies (#[trigger] front[j]).0 != key by {
                assert(entries[j].0 != key);
            }
            lemma_position_is(front, key, front.len() as int);
            if p == front.len() && has(entries, key) {
                assert(without(entries, key) =~= front);
            } else {
                assert(entries.last().0 != key);
                assert(without(entries, key) =~= front.push(entries.last()));
            }
        }
    } else {
        assert(without(entries, key) =~= entries.filter(keep));
    }
}

/// After an entry is set, its name finds the new value.
pub proof fn law_lookup_after_upsert<V>(entries: Seq<(Seq<char>, V)>, key: Seq<char>, value: V)
    ensures
        lookup(upsert(entries, key, value), key) == Some(value),
{
    lemma_position(entries, key);
    lemma_position_is(upsert(entries, key, value), key, position(entries, key));
}

/// Setting one entry changes what no other name finds.
pub proof fn law_lookup_other_after_upsert<V>(
    entries: Seq<(Seq<char>, V)>,
    key: Seq<char>,
    value: V,
    other: Seq<char>,
)
    requires
        other != key,
    ensures
        lookup(upsert(entries, key, value), other) == lookup(entries, other),
{
    lemma_position(entries, key);
    lemma_position(entries, other);
    let after = upsert(entries, key, value);
    let p = position(entries, other);
    if has(entries, key) || has(entries, other) {
        assert forall|j: int| 0 <= j < p implies (#[trigger] after[j]).0 != other by {
            assert(entries[j].0 != other);
        }
        lemma_position_is(after, other, p);
    } else {
        assert forall|j: int| 0 <= j < after.len() implies (#[trigger] after[j]).0 != other by {
            if j < entries.len() {
                assert(entries[j].0 != other);
            }
        }
        lemma_position_is(after, other, after.len() as int);
    }
}

/// Setting an entry keeps names unique.
pub proof fn law_upsert_keeps_unique<V>(entries: Seq<(Seq<char>, V)>, key: Seq<char>, value: V)
    requires
        unique(entries),
    ensures
        unique(upsert(entries, key, value)),
{
    lemma_position(entries, key);
    let after = upsert(entries, key, value);
    assert forall|i: int, j: int| 0 <= i < j < after.len() implies #[trigger] after[i].0
        != #[trigger] after[j].0 by {
        if has(entries, key) {
            assert(after[i].0 == entries[i].0 && after[j].0 == entries[j].0);
        } else {
            assert(entries[i].0 != key);
            if j < entries.len() {
                assert(after[j].0 == entries[j].0);
            }
        }
    }
}

/// Setting an entry makes the list longer by one exactly when the name is new.
pub proof fn law_upsert_len<V>(entries: Seq<(Seq<char>, V)>, key: Seq<char>, value: V)
    ensures
        upsert(entries, key, value).len() == if has(entries, key) {
            entries.len()
        } else {
            entries.len() + 1
        },
{
    lemma_position(entries, key);
}

/// Where names are unique, dropping an entry leaves none of its name.
pub proof fn law_lookup_after_without<V>(entries: Seq<(Seq<char>, V)>, key: Seq<char>)
    requires
        unique(entries),
    ensures
        lookup(without(entries, key), key) is None,
        unique(without(entries, key)),
{
    lemma_position(entries, key);
    let after = without(entries, key);
    let p = position(entries, key);
    assert forall|j: int| 0 <= j < after.len() implies (#[trigger] after[j]).0 != key by {
        if has(entries, key) {
            if j < p {
                assert(after[j] == entries[j]);
            } else {
                assert(after[j] == entries[j + 1]);
                assert(entries[p].0 != entries[j + 1].0);
            }
        } else {
            assert(entries[j].0 != key);
        }
    }
    lemma_position_is(after, key, after.len() as int);
    assert forall|i: int, j: int| 0 <= i < j < after.len() implies #[trigger] after[i].0
        != #[trigger] after[j].0 by {
        if has(entries, key) {
            let i2 = if i < p {
                i
            } else {
                i + 1
            };
            let j2 = if j < p {
                j
            } else {
                j + 1
            };
            assert(entries[i2].0 != entries[j2].0);
        }
    }
}

/// Dropping one entry changes what no other name finds.
pub proof fn law_lookup_other_after_without<V>(
    entries: Seq<(Seq<char>, V)>,
    key: Seq<char>,
    other: Seq<char>,
)
    requires
        other != key,
    ensures
        lookup(without(entries, key), other) == lookup(entries, other),
{
    lemma_position(entries, key);
    lemma_position(entries, other);
    let after = without(entries, key);
    let p = position(entries, key);
    let q = position(entries, other);
    if has(entries, key) {
        let at = if q < p {
            q
        } else {
            q - 1
        };
        assert forall|j: int| 0 <= j < at implies (#[trigger] after[j]).0 != other by {
            if j < p {
                assert(after[j] == entries[j]);
            } else {
                assert(after[j] == entries[j + 1]);
            }
        }
        if q < entries.len() {
            assert(after[at] == entries[q]);
        }
        lemma_position_is(after, other, at);
    }
}

} // verus!
