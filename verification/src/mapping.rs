//! The mapping from document to vector, and what writing a batch does to it.

use vstd::prelude::*;

verus! {

/// The texts of a list of strings.
pub open spec fn texts(strings: Seq<String>) -> Seq<Seq<char>> {
    Seq::new(strings.len(), |i: int| strings[i]@)
}

/// The contents of a list of vectors.
pub open spec fn vector_views(vectors: Seq<Vec<u32>>) -> Seq<Seq<u32>> {
    Seq::new(vectors.len(), |i: int| vectors[i]@)
}

/// The documents of a list of entries, in order.
pub open spec fn entry_keys(entries: Seq<(String, Vec<u32>)>) -> Seq<Seq<char>> {
    Seq::new(entries.len(), |i: int| entries[i].0@)
}

/// The vectors of a list of entries, in order.
pub open spec fn entry_values(entries: Seq<(String, Vec<u32>)>) -> Seq<Seq<u32>> {
    Seq::new(entries.len(), |i: int| entries[i].1@)
}

/// The mapping that results from writing the pairs `(docs[i], vecs[i])` into
/// `base` one after the other: a later pair replaces an earlier one under the
/// same document. Lists of different lengths write nothing.
pub open spec fn overlay(
    base: Map<Seq<char>, Seq<u32>>,
    docs: Seq<Seq<char>>,
    vecs: Seq<Seq<u32>>,
) -> Map<Seq<char>, Seq<u32>>
    decreases docs.len(),
{
    if docs.len() == 0 || docs.len() != vecs.len() {
        base
    } else {
        overlay(base, docs.drop_last(), vecs.drop_last()).insert(docs.last(), vecs.last())
    }
}

/// The mapping held by entries whose documents are all different.
pub open spec fn entries_map(keys: Seq<Seq<char>>, values: Seq<Seq<u32>>) -> Map<
    Seq<char>,
    Seq<u32>,
> {
    Map::new(|d: Seq<char>| keys.contains(d), |d: Seq<char>| values[keys.index_of(d)])
}

/// Writing one more pair after a batch is inserting it into the batch's result.
pub proof fn lemma_overlay_push(
    base: Map<Seq<char>, Seq<u32>>,
    docs: Seq<Seq<char>>,
    vecs: Seq<Seq<u32>>,
    doc: Seq<char>,
    vec: Seq<u32>,
)
    requires
        docs.len() == vecs.len(),
    ensures
        overlay(base, docs.push(doc), vecs.push(vec)) == overlay(base, docs, vecs).insert(doc, vec),
{
    assert(docs.push(doc).drop_last() =~= docs);
    assert(vecs.push(vec).drop_last() =~= vecs);
}

/// After a batch is written, the documents present are those that were
/// present before together with those of the batch.
pub proof fn lemma_overlay_dom(
    base: Map<Seq<char>, Seq<u32>>,
    docs: Seq<Seq<char>>,
    vecs: Seq<Seq<u32>>,
)
    requires
        docs.len() == vecs.len(),
    ensures
        overlay(base, docs, vecs).dom() =~= base.dom().union(docs.to_set()),
        base.dom().finite() ==> overlay(base, docs, vecs).dom().finite(),
        base.dom().finite() ==> overlay(base, docs, vecs).len() >= base.len(),
    decreases docs.len(),
{
    if docs.len() == 0 {
        assert(docs.to_set() =~= Set::empty());
    } else {
        let front = docs.drop_last();
        lemma_overlay_dom(base, front, vecs.drop_last());
        assert(docs.to_set() =~= front.to_set().insert(docs.last())) by {
            assert forall|d: Seq<char>| docs.to_set().contains(d) implies front.to_set().insert(
                docs.last(),
            ).contains(d) by {
                let i = choose|i: int| 0 <= i < docs.len() && docs[i] == d;
                if i < docs.len() - 1 {
                    assert(front[i] == d);
                }
            }
            assert forall|d: Seq<char>| front.to_set().insert(docs.last()).contains(
                d,
            ) implies docs.to_set().contains(d) by {
                if d == docs.last() {
                    assert(docs[docs.len() - 1] == d);
                } else {
                    let i = choose|i: int| 0 <= i < front.len() && front[i] == d;
                    assert(docs[i] == d);
                }
            }
        }
        if base.dom().finite() {
            let earlier = overlay(base, front, vecs.drop_last());
            if earlier.dom().contains(docs.last()) {
                assert(earlier.dom().insert(docs.last()) =~= earlier.dom());
            }
        }
    }
}

/// A document of the batch is mapped to the vector of its last occurrence.
pub proof fn lemma_overlay_last_wins(
    base: Map<Seq<char>, Seq<u32>>,
    docs: Seq<Seq<char>>,
    vecs: Seq<Seq<u32>>,
    i: int,
)
    requires
        docs.len() == vecs.len(),
        0 <= i < docs.len(),
        forall|j: int| i < j < docs.len() ==> docs[j] != docs[i],
    ensures
        overlay(base, docs, vecs).contains_key(docs[i]),
        overlay(base, docs, vecs)[docs[i]] == vecs[i],
    decreases docs.len(),
{
    if i < docs.len() - 1 {
        let front = docs.drop_last();
        assert(front[i] == docs[i]);
        assert forall|j: int| i < j < front.len() implies front[j] != front[i] by {
            assert(front[j] == docs[j]);
        }
        lemma_overlay_last_wins(base, front, vecs.drop_last(), i);
    }
}

/// A document outside the batch keeps what it had: it is present afterwards
/// exactly if it was before, with the same vector.
pub proof fn lemma_overlay_keeps_others(
    base: Map<Seq<char>, Seq<u32>>,
    docs: Seq<Seq<char>>,
    vecs: Seq<Seq<u32>>,
    doc: Seq<char>,
)
    requires
        !docs.contains(doc),
    ensures
        overlay(base, docs, vecs).contains_key(doc) == base.contains_key(doc),
        base.contains_key(doc) ==> overlay(base, docs, vecs)[doc] == base[doc],
    decreases docs.len(),
{
    if docs.len() != 0 && docs.len() == vecs.len() {
        let front = docs.drop_last();
        assert(docs[docs.len() - 1] != doc);
        assert forall|j: int| 0 <= j < front.len() implies front[j] != doc by {
            assert(docs[j] == front[j]);
        }
        lemma_overlay_keeps_others(base, front, vecs.drop_last(), doc);
    }
}

/// Writing a batch whose documents are all present already leaves the number
/// of documents as it was.
pub proof fn lemma_overlay_existing_keeps_size(
    base: Map<Seq<char>, Seq<u32>>,
    docs: Seq<Seq<char>>,
    vecs: Seq<Seq<u32>>,
)
    requires
        forall|i: int| 0 <= i < docs.len() ==> base.contains_key(#[trigger] docs[i]),
    ensures
        overlay(base, docs, vecs).dom() == base.dom(),
        overlay(base, docs, vecs).len() == base.len(),
{
    if docs.len() == vecs.len() {
        lemma_overlay_dom(base, docs, vecs);
        assert(base.dom().union(docs.to_set()) =~= base.dom());
    }
}

/// Entries with distinct documents hold the mapping that writing them one
/// after the other into an empty mapping gives.
pub proof fn lemma_entries_map_is_overlay(keys: Seq<Seq<char>>, values: Seq<Seq<u32>>)
    requires
        keys.no_duplicates(),
        keys.len() == values.len(),
    ensures
        overlay(Map::empty(), keys, values) == entries_map(keys, values),
        forall|i: int| 0 <= i < keys.len() ==> keys.index_of(#[trigger] keys[i]) == i,
        entries_map(keys, values).dom() == keys.to_set(),
        entries_map(keys, values).dom().finite(),
        entries_map(keys, values).len() == keys.len(),
    decreases keys.len(),
{
    assert forall|i: int| 0 <= i < keys.len() implies keys.index_of(#[trigger] keys[i]) == i by {
        let j = keys.index_of(keys[i]);
        assert(0 <= j < keys.len() && keys[j] == keys[i]);
    }
    assert(entries_map(keys, values).dom() =~= keys.to_set());
    keys.unique_seq_to_set();
    vstd::seq_lib::seq_to_set_is_finite(keys);
    if keys.len() == 0 {
        assert(entries_map(keys, values) =~= Map::empty());
    } else {
        let front = keys.drop_last();
        let front_values = values.drop_last();
        lemma_entries_map_is_overlay(front, front_values);
        let last = keys.len() - 1;
        assert forall|d: Seq<char>| front.contains(d) implies keys.contains(d) && keys.index_of(d)
            == front.index_of(d) by {
            let i = choose|i: int| 0 <= i < front.len() && front[i] == d;
            assert(keys[i] == d);
            assert(front.index_of(front[i]) == i);
        }
        assert forall|d: Seq<char>| keys.contains(d) && d != keys[last] implies front.contains(
            d,
        ) by {
            let i = choose|i: int| 0 <= i < keys.len() && keys[i] == d;
            assert(front[i] == d);
        }
        assert(keys.contains(keys[last]));
        assert(entries_map(front, front_values).insert(keys.last(), values.last()) =~= entries_map(
            keys,
            values,
        ));
    }
}

/// A mapping is rebuilt from its pairs in whatever order they come: writing
/// each document of `mapping` once, with its vector, into an empty mapping
/// gives `mapping` again.
pub proof fn lemma_overlay_any_order(
    mapping: Map<Seq<char>, Seq<u32>>,
    keys: Seq<Seq<char>>,
    values: Seq<Seq<u32>>,
)
    requires
        keys.no_duplicates(),
        keys.len() == values.len(),
        forall|i: int|
            0 <= i < keys.len() ==> mapping.contains_key(#[trigger] keys[i]) && mapping[keys[i]]
                == values[i],
        forall|d: Seq<char>| mapping.contains_key(d) ==> keys.contains(d),
    ensures
        overlay(Map::empty(), keys, values) == mapping,
{
    lemma_entries_map_is_overlay(keys, values);
    assert(entries_map(keys, values) =~= mapping) by {
        assert forall|d: Seq<char>| keys.contains(d) implies mapping.contains_key(d)
            && entries_map(keys, values)[d] == mapping[d] by {
            let i = choose|i: int| 0 <= i < keys.len() && keys[i] == d;
            assert(keys.index_of(keys[i]) == i);
        }
    }
}

} // verus!
