//! The list form of a vault: entries, each a pair of a name and a secret,
//! in which no name occurs twice. This module says which mapping such a
//! list stands for, how the mapping changes when the list does, and finds
//! an entry by its name.

use vstd::prelude::*;
use vstd::utf8::encode_utf8;
use vstd::utf8::encode_utf8_decode_utf8;

verus! {

/// The mapping that an entry list stands for: the entries inserted in
/// order, so that where a name occurs twice the later entry counts.
pub open spec fn entries_map(entries: Seq<(String, String)>) -> Map<Seq<char>, Seq<char>>
    decreases entries.len(),
{
    if entries.len() == 0 {
        Map::empty()
    } else {
        entries_map(entries.drop_last()).insert(entries.last().0@, entries.last().1@)
    }
}

/// No two entries carry the same name.
pub open spec fn distinct_names(entries: Seq<(String, String)>) -> bool {
    forall|i: int, j: int|
        0 <= i < j < entries.len() ==> (#[trigger] entries[i]).0@ != (#[trigger] entries[j]).0@
}

/// Some entry carries this name.
pub open spec fn has_name(entries: Seq<(String, String)>, name: Seq<char>) -> bool {
    exists|i: int| 0 <= i < entries.len() && (#[trigger] entries[i]).0@ == name
}

/// The keys of the mapping are the names of the entries.
pub proof fn lemma_entries_map_keys(entries: Seq<(String, String)>, name: Seq<char>)
    ensures
        entries_map(entries).contains_key(name) <==> has_name(entries, name),
    decreases entries.len(),
{
    if entries.len() > 0 {
        let init = entries.drop_last();
        let last = entries.len() - 1;
        lemma_entries_map_keys(init, name);
        if has_name(init, name) {
            let i = choose|i: int| 0 <= i < init.len() && (#[trigger] init[i]).0@ == name;
            assert(entries[i].0@ == name);
        }
        if has_name(entries, name) && entries[last].0@ != name {
            let i = choose|i: int| 0 <= i < entries.len() && (#[trigger] entries[i]).0@ == name;
            assert(init[i].0@ == name);
        }
    }
}

/// Where no name occurs twice, each entry's name maps to its secret.
pub proof fn lemma_entries_map_secret(entries: Seq<(String, String)>, i: int)
    requires
        distinct_names(entries),
        0 <= i < entries.len(),
    ensures
        entries_map(entries).contains_key(entries[i].0@),
        entries_map(entries)[entries[i].0@] == entries[i].1@,
    decreases entries.len(),
{
    let init = entries.drop_last();
    let last = entries.len() - 1;
    if i < last {
        assert(distinct_names(init)) by {
            assert forall|a: int, b: int| 0 <= a < b < init.len() implies (#[trigger] init[a]).0@
                != (#[trigger] init[b]).0@ by {
                assert(entries[a].0@ != entries[b].0@);
            }
        }
        lemma_entries_map_secret(init, i);
        assert(init[i] == entries[i]);
        assert(entries[i].0@ != entries[last].0@);
    }
}

/// Where no name occurs twice, a mapping with the entries' names as keys
/// and each entry's secret under its name is the one the list stands for.
pub proof fn lemma_entries_map_is(entries: Seq<(String, String)>, m: Map<Seq<char>, Seq<char>>)
    requires
        distinct_names(entries),
        forall|name: Seq<char>| #[trigger] m.contains_key(name) <==> has_name(entries, name),
        forall|i: int|
            0 <= i < entries.len() ==> m[(#[trigger] entries[i]).0@] == entries[i].1@,
    ensures
        entries_map(entries) == m,
{
    let em = entries_map(entries);
    assert forall|name: Seq<char>| #[trigger] em.contains_key(name) <==> m.contains_key(name) by {
        lemma_entries_map_keys(entries, name);
    }
    assert forall|name: Seq<char>| #[trigger] em.contains_key(name) implies em[name] == m[name] by {
        lemma_entries_map_keys(entries, name);
        let i = choose|i: int| 0 <= i < entries.len() && (#[trigger] entries[i]).0@ == name;
        lemma_entries_map_secret(entries, i);
    }
    assert(em =~= m);
}

/// Where no name occurs twice, the mapping has as many keys as the list has
/// entries.
pub proof fn lemma_entries_map_len(entries: Seq<(String, String)>)
    requires
        distinct_names(entries),
    ensures
        entries_map(entries).dom().finite(),
        entries_map(entries).dom().len() == entries.len(),
    decreases entries.len(),
{
    if entries.len() > 0 {
        let init = entries.drop_last();
        let last = entries.len() - 1;
        assert(distinct_names(init)) by {
            assert forall|a: int, b: int| 0 <= a < b < init.len() implies (#[trigger] init[a]).0@
                != (#[trigger] init[b]).0@ by {
                assert(entries[a].0@ != entries[b].0@);
            }
        }
        lemma_entries_map_len(init);
        lemma_entries_map_keys(init, entries[last].0@);
        if has_name(init, entries[last].0@) {
            let j = choose|j: int|
                0 <= j < init.len() && (#[trigger] init[j]).0@ == entries[last].0@;
            assert(entries[j].0@ != entries[last].0@);
        }
        assert(entries_map(entries).dom() =~= entries_map(init).dom().insert(entries[last].0@));
    }
}

/// Appending an entry inserts it into the mapping. If its name is new, the
/// names stay distinct.
pub proof fn lemma_entries_map_push(entries: Seq<(String, String)>, entry: (String, String))
    ensures
        entries_map(entries.push(entry)) == entries_map(entries).insert(entry.0@, entry.1@),
        distinct_names(entries) && !has_name(entries, entry.0@) ==> distinct_names(
            entries.push(entry),
        ),
{
    let longer = entries.push(entry);
    assert(longer.drop_last() =~= entries);
    assert(longer.last() == entry);
    if distinct_names(entries) && !has_name(entries, entry.0@) {
        assert forall|i: int, j: int| 0 <= i < j < longer.len() implies (#[trigger] longer[i]).0@
            != (#[trigger] longer[j]).0@ by {
            if j < entries.len() {
                assert(entries[i].0@ != entries[j].0@);
            } else {
                assert(entries[i].0@ != entry.0@);
            }
        }
    }
}

/// Putting an entry in the place of one with the same name replaces that
/// name's secret in the mapping, and the names stay distinct.
pub proof fn lemma_entries_map_update(
    entries: Seq<(String, String)>,
    i: int,
    entry: (String, String),
)
    requires
        distinct_names(entries),
        0 <= i < entries.len(),
        entries[i].0@ == entry.0@,
    ensures
        distinct_names(entries.update(i, entry)),
        entries_map(entries.update(i, entry)) == entries_map(entries).insert(entry.0@, entry.1@),
{
    let changed = entries.update(i, entry);
    let m = entries_map(entries).insert(entry.0@, entry.1@);
    assert forall|a: int, b: int| 0 <= a < b < changed.len() implies (#[trigger] changed[a]).0@
        != (#[trigger] changed[b]).0@ by {
        assert(entries[a].0@ != entries[b].0@);
    }
    assert forall|name: Seq<char>| #[trigger] m.contains_key(name) <==> has_name(changed, name) by {
        lemma_entries_map_keys(entries, name);
        if has_name(entries, name) {
            let j = choose|j: int| 0 <= j < entries.len() && (#[trigger] entries[j]).0@ == name;
            assert(changed[j].0@ == name);
        }
        if has_name(changed, name) {
            let j = choose|j: int| 0 <= j < changed.len() && (#[trigger] changed[j]).0@ == name;
            assert(entries[j].0@ == name);
        }
        if name == entry.0@ {
            assert(changed[i].0@ == name);
        }
    }
    assert forall|j: int| 0 <= j < changed.len() implies m[(#[trigger] changed[j]).0@]
        == changed[j].1@ by {
        if j != i {
            assert(entries[j].0@ != entries[i].0@);
            lemma_entries_map_secret(entries, j);
        }
    }
    lemma_entries_map_is(changed, m);
}

/// Taking an entry out removes its name from the mapping, and the names
/// stay distinct.
pub proof fn lemma_entries_map_remove(entries: Seq<(String, String)>, i: int)
    requires
        distinct_names(entries),
        0 <= i < entries.len(),
    ensures
        distinct_names(entries.remove(i)),
        entries_map(entries.remove(i)) == entries_map(entries).remove(entries[i].0@),
{
    let fewer = entries.remove(i);
    let m = entries_map(entries).remove(entries[i].0@);
    assert forall|a: int| 0 <= a < fewer.len() implies #[trigger] fewer[a] == entries[if a < i {
        a
    } else {
        a + 1
    }] by {}
    assert forall|a: int, b: int| 0 <= a < b < fewer.len() implies (#[trigger] fewer[a]).0@ != (
    #[trigger] fewer[b]).0@ by {
        let a2 = if a < i { a } else { a + 1 };
        let b2 = if b < i { b } else { b + 1 };
        assert(entries[a2].0@ != entries[b2].0@);
    }
    assert forall|name: Seq<char>| #[trigger] m.contains_key(name) <==> has_name(fewer, name) by {
        lemma_entries_map_keys(entries, name);
        if has_name(entries, name) && name != entries[i].0@ {
            let j = choose|j: int| 0 <= j < entries.len() && (#[trigger] entries[j]).0@ == name;
            let j2 = if j < i { j } else { j - 1 };
            assert(fewer[j2].0@ == name);
        }
        if has_name(fewer, name) {
            let j = choose|j: int| 0 <= j < fewer.len() && (#[trigger] fewer[j]).0@ == name;
            let j2 = if j < i { j } else { j + 1 };
            assert(entries[j2].0@ == name);
            assert(entries[j2].0@ != entries[i].0@);
        }
    }
    assert forall|j: int| 0 <= j < fewer.len() implies m[(#[trigger] fewer[j]).0@]
        == fewer[j].1@ by {
        let j2 = if j < i { j } else { j + 1 };
        assert(entries[j2].0@ != entries[i].0@);
        lemma_entries_map_secret(entries, j2);
    }
    lemma_entries_map_is(fewer, m);
}

/// Whether two strings hold the same text, found by comparing their UTF-8
/// bytes.
pub fn same_text(a: &str, b: &str) -> (same: bool)
    ensures
        same == (a@ == b@),
{
    let x = a.as_bytes();
    let y = b.as_bytes();
    if x.len() != y.len() {
        return false;
    }
    let mut i: usize = 0;
    while i < x.len()
        invariant
            i <= x@.len(),
            x@.len() == y@.len(),
            x@ == encode_utf8(a@),
            y@ == encode_utf8(b@),
            forall|j: int| 0 <= j < i ==> x@[j] == y@[j],
        decreases x@.len() - i,
    {
        if x[i] != y[i] {
            return false;
        }
        i += 1;
    }
    proof {
        assert(x@ =~= y@);
        encode_utf8_decode_utf8(a@);
        encode_utf8_decode_utf8(b@);
    }
    true
}

/// The index of the entry that carries `name`, if there is one.
pub fn position(entries: &Vec<(String, String)>, name: &str) -> (found: Option<usize>)
    ensures
        match found {
            Some(i) => i < entries@.len() && entries@[i as int].0@ == name@,
            None => !has_name(entries@, name@),
        },
{
    let mut i: usize = 0;
    while i < entries.len()
        invariant
            i <= entries@.len(),
            forall|j: int| 0 <= j < i ==> (#[trigger] entries@[j]).0@ != name@,
        decreases entries@.len() - i,
    {
        if same_text(entries[i].0.as_str(), name) {
            return Some(i);
        }
        i += 1;
    }
    None
}

} // verus!
