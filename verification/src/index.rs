//! The index: the documents held in memory, each with its embedding vector.

use vstd::prelude::*;
use crate::error::{ConstructError, SearchError};
use crate::mapping::{
    entries_map, entry_keys, entry_values, lemma_entries_map_is_overlay, lemma_overlay_dom,
    lemma_overlay_existing_keeps_size, lemma_overlay_keeps_others, lemma_overlay_last_wins,
    lemma_overlay_push, overlay, texts, vector_views,
};
use crate::persistence::FileRead;
use crate::ranking::{is_ranking, lemma_ranking_descends, lemma_ranking_unique, positions, top_k};
use crate::similarity::score_rank;

verus! {

/// `found` lists, for each position of `order`, the document stored there
/// with the score it was given.
pub open spec fn lists(
    keys: Seq<Seq<char>>,
    scores: Seq<u32>,
    order: Seq<int>,
    found: Seq<(String, u32)>,
) -> bool {
    &&& found.len() == order.len()
    &&& forall|r: int|
        0 <= r < found.len() ==> (#[trigger] found[r]).0@ == keys[order[r]] && found[r].1
            == scores[order[r]]
}

/// `found` is the answer to a search for the best `k` of the documents `keys`
/// when `scores[i]` is the score of `keys[i]`: the documents ranked best, best
/// first, each with its score.
pub open spec fn is_search_result(
    keys: Seq<Seq<char>>,
    scores: Seq<u32>,
    k: nat,
    found: Seq<(String, u32)>,
) -> bool {
    exists|order: Seq<int>| is_ranking(scores, k, order) && #[trigger] lists(
        keys,
        scores,
        order,
        found,
    )
}

/// A search has one answer: two results for the same scores list the same
/// documents with the same scores.
pub proof fn lemma_search_result_unique(
    keys: Seq<Seq<char>>,
    scores: Seq<u32>,
    k: nat,
    a: Seq<(String, u32)>,
    b: Seq<(String, u32)>,
)
    requires
        is_search_result(keys, scores, k, a),
        is_search_result(keys, scores, k, b),
    ensures
        a.len() == b.len(),
        forall|r: int| 0 <= r < a.len() ==> (#[trigger] a[r]).0@ == b[r].0@ && a[r].1 == b[r].1,
{
    let first = choose|order: Seq<int>|
        is_ranking(scores, k, order) && #[trigger] lists(keys, scores, order, a);
    let second = choose|order: Seq<int>|
        is_ranking(scores, k, order) && #[trigger] lists(keys, scores, order, b);
    lemma_ranking_unique(scores, k, first, second);
}

/// A search result holds as many entries as there are documents, up to `k`;
/// its scores never rise from one entry to the next; and where the documents
/// searched are all different, so are the documents found.
pub proof fn lemma_search_result_sorted(
    keys: Seq<Seq<char>>,
    scores: Seq<u32>,
    k: nat,
    found: Seq<(String, u32)>,
)
    requires
        keys.len() == scores.len(),
        is_search_result(keys, scores, k, found),
    ensures
        found.len() == if k <= keys.len() { k } else { keys.len() },
        k == 0 ==> found.len() == 0,
        forall|r: int, s: int|
            0 <= r < s < found.len() ==> score_rank((#[trigger] found[r]).1) >= score_rank(
                (#[trigger] found[s]).1,
            ),
        forall|r: int| 0 <= r < found.len() ==> keys.contains((#[trigger] found[r]).0@),
        keys.no_duplicates() ==> forall|r: int, s: int|
            0 <= r < s < found.len() ==> (#[trigger] found[r]).0@ != (#[trigger] found[s]).0@,
{
    let order = choose|order: Seq<int>|
        is_ranking(scores, k, order) && #[trigger] lists(keys, scores, order, found);
    lemma_ranking_descends(scores, k, order);
    assert forall|r: int, s: int| 0 <= r < s < found.len() implies score_rank(
        (#[trigger] found[r]).1,
    ) >= score_rank((#[trigger] found[s]).1) by {
        assert(score_rank(scores[order[r]]) >= score_rank(scores[order[s]]));
    }
    assert forall|r: int| 0 <= r < found.len() implies keys.contains((#[trigger] found[r]).0@) by {
        assert(keys[order[r]] == found[r].0@);
    }
    if keys.no_duplicates() {
        assert forall|r: int, s: int| 0 <= r < s < found.len() implies (#[trigger] found[r]).0@
            != (#[trigger] found[s]).0@ by {
            assert(order[r] != order[s]);
            assert(keys[order[r]] != keys[order[s]]);
        }
    }
}

/// A copy of a vector.
fn copy_vector(vector: &Vec<u32>) -> (copy: Vec<u32>)
    ensures
        copy@ == vector@,
{
    let mut copy: Vec<u32> = Vec::new();
    let mut i: usize = 0;
    while i < vector.len()
        invariant
            i <= vector@.len(),
            copy@ == vector@.take(i as int),
        decreases vector@.len() - i,
    {
        copy.push(vector[i]);
        proof {
            assert(copy@ =~= vector@.take(i + 1));
        }
        i += 1;
    }
    proof {
        assert(vector@.take(vector@.len() as int) =~= vector@);
    }
    copy
}

/// A copy of a list of strings.
pub(crate) fn copy_strings(strings: &Vec<String>) -> (copy: Vec<String>)
    ensures
        copy@ == strings@,
{
    let mut copy: Vec<String> = Vec::new();
    let mut i: usize = 0;
    while i < strings.len()
        invariant
            i <= strings@.len(),
            copy@ == strings@.take(i as int),
        decreases strings@.len() - i,
    {
        copy.push(strings[i].clone());
        proof {
            assert(copy@ =~= strings@.take(i + 1));
        }
        i += 1;
    }
    proof {
        assert(strings@.take(strings@.len() as int) =~= strings@);
    }
    copy
}

/// The position of `document` among the entries, if it is there.
fn position_of(entries: &Vec<(String, Vec<u32>)>, document: &String) -> (at: Option<usize>)
    ensures
        match at {
            Some(i) => i < entries@.len() && entries@[i as int].0@ == document@,
            None => !entry_keys(entries@).contains(document@),
        },
{
    let mut i: usize = 0;
    while i < entries.len()
        invariant
            i <= entries@.len(),
            forall|j: int| 0 <= j < i ==> entries@[j].0@ != document@,
        decreases entries@.len() - i,
    {
        if entries[i].0 == *document {
            return Some(i);
        }
        i += 1;
    }
    proof {
        let keys = entry_keys(entries@);
        if keys.contains(document@) {
            let j = choose|j: int| 0 <= j < keys.len() && keys[j] == document@;
            assert(entries@[j].0@ == document@);
        }
    }
    None
}

/// Writes one pair into the entries: the vector replaces the one that the
/// document had, or the pair is added at the end.
fn put(entries: &mut Vec<(String, Vec<u32>)>, document: String, vector: Vec<u32>)
    requires
        entry_keys(old(entries)@).no_duplicates(),
    ensures
        entry_keys(final(entries)@).no_duplicates(),
        entries_map(entry_keys(final(entries)@), entry_values(final(entries)@)) == entries_map(
            entry_keys(old(entries)@),
            entry_values(old(entries)@),
        ).insert(document@, vector@),
{
    let ghost keys = entry_keys(entries@);
    let ghost values = entry_values(entries@);
    let ghost doc = document@;
    let ghost vec = vector@;
    proof {
        lemma_entries_map_is_overlay(keys, values);
    }
    match position_of(entries, &document) {
        Some(i) => {
            entries.set(i, (document, vector));
            proof {
                let keys_now = entry_keys(entries@);
                let values_now = entry_values(entries@);
                assert(keys_now =~= keys);
                assert(values_now =~= values.update(i as int, vec));
                assert(keys.contains(doc)) by {
                    assert(keys[i as int] == doc);
                }
                assert(entries_map(keys_now, values_now) =~= entries_map(keys, values).insert(
                    doc,
                    vec,
                )) by {
                    assert forall|d: Seq<char>| keys.contains(d) implies #[trigger] entries_map(
                        keys_now,
                        values_now,
                    )[d] == entries_map(keys, values).insert(doc, vec)[d] by {
                        let j = choose|j: int| 0 <= j < keys.len() && keys[j] == d;
                        assert(keys.index_of(keys[j]) == j);
                        assert(keys.index_of(keys[i as int]) == i);
                        assert(keys_now.index_of(d) == j);
                        if d == doc {
                            assert(j == i);
                        } else {
                            assert(values_now[j] == values[j]);
                        }
                    }
                }
            }
        },
        None => {
            entries.push((document, vector));
            proof {
                let keys_now = entry_keys(entries@);
                let values_now = entry_values(entries@);
                assert(keys_now =~= keys.push(doc));
                assert(values_now =~= values.push(vec));
                assert(keys_now.no_duplicates());
                lemma_entries_map_is_overlay(keys_now, values_now);
                lemma_overlay_push(Map::empty(), keys, values, doc, vec);
            }
        },
    }
}

/// Documents and their embedding vectors.
///
/// Each document occurs once. Vector components are IEEE-754 single-precision
/// bit patterns. The view is the mapping from document to vector.
pub struct EmbeddingIndex {
    entries: Vec<(String, Vec<u32>)>,
}

impl View for EmbeddingIndex {
    type V = Map<Seq<char>, Seq<u32>>;

    closed spec fn view(&self) -> Map<Seq<char>, Seq<u32>> {
        entries_map(self.keys(), self.values())
    }
}

impl EmbeddingIndex {
    /// The stored documents, in the order in which scores are handed to
    /// [`EmbeddingIndex::search`].
    pub closed spec fn keys(&self) -> Seq<Seq<char>> {
        entry_keys(self.entries@)
    }

    /// The stored vectors, each at the position of its document in `keys`.
    pub closed spec fn values(&self) -> Seq<Seq<u32>> {
        entry_values(self.entries@)
    }

    /// No document is stored twice.
    #[verifier::type_invariant]
    pub closed spec fn wf(&self) -> bool {
        self.keys().no_duplicates()
    }

    /// How the view follows from the stored order: the documents of `keys`
    /// are those of the view, each mapped to the vector at its position.
    pub proof fn lemma_view(&self)
        requires
            self.wf(),
        ensures
            self.keys().no_duplicates(),
            self.keys().len() == self.values().len(),
            self@.dom().finite(),
            self@.len() == self.keys().len(),
            self@.dom() == self.keys().to_set(),
            forall|i: int|
                0 <= i < self.keys().len() ==> self@.contains_key(#[trigger] self.keys()[i])
                    && self@[self.keys()[i]] == self.values()[i],
            self@ == overlay(Map::empty(), self.keys(), self.values()),
    {
        lemma_entries_map_is_overlay(self.keys(), self.values());
        assert forall|i: int| 0 <= i < self.keys().len() implies self@.contains_key(
            #[trigger] self.keys()[i],
        ) && self@[self.keys()[i]] == self.values()[i] by {
            assert(self.keys().contains(self.keys()[i]));
        }
    }

    /// An empty index.
    pub fn new() -> (index: Self)
        ensures
            index@ == Map::<Seq<char>, Seq<u32>>::empty(),
            index.keys().len() == 0,
    {
        let index = EmbeddingIndex { entries: Vec::new() };
        proof {
            assert(index@ =~= Map::<Seq<char>, Seq<u32>>::empty());
        }
        index
    }

    /// Builds an index from what reading a saved store gave.
    ///
    /// A missing file and a malformed one are errors. Otherwise the index
    /// holds the pairs read, a later pair replacing an earlier one under the
    /// same document. The vectors are taken as they are: their lengths are
    /// held against nothing.
    pub fn load(file: FileRead) -> (loaded: Result<Self, ConstructError>)
        ensures
            match file {
                FileRead::Missing => loaded matches Err(ConstructError::NotFound),
                FileRead::Malformed => loaded matches Err(ConstructError::Malformed),
                FileRead::Entries(pairs) => loaded matches Ok(index) && index@ == overlay(
                    Map::empty(),
                    entry_keys(pairs@),
                    entry_values(pairs@),
                ),
            },
    {
        match file {
            FileRead::Missing => Err(ConstructError::NotFound),
            FileRead::Malformed => Err(ConstructError::Malformed),
            FileRead::Entries(pairs) => {
                let ghost docs = entry_keys(pairs@);
                let ghost vecs = entry_values(pairs@);
                let mut entries: Vec<(String, Vec<u32>)> = Vec::new();
                let mut i: usize = 0;
                proof {
                    assert(entries_map(entry_keys(entries@), entry_values(entries@))
                        =~= Map::<Seq<char>, Seq<u32>>::empty());
                    assert(docs.take(0) =~= Seq::empty());
                }
                while i < pairs.len()
                    invariant
                        i <= pairs@.len(),
                        docs == entry_keys(pairs@),
                        vecs == entry_values(pairs@),
                        entry_keys(entries@).no_duplicates(),
                        entries_map(entry_keys(entries@), entry_values(entries@)) == overlay(
                            Map::empty(),
                            docs.take(i as int),
                            vecs.take(i as int),
                        ),
                    decreases pairs@.len() - i,
                {
                    let document = pairs[i].0.clone();
                    let vector = copy_vector(&pairs[i].1);
                    put(&mut entries, document, vector);
                    proof {
                        lemma_overlay_push(
                            Map::empty(),
                            docs.take(i as int),
                            vecs.take(i as int),
                            docs[i as int],
                            vecs[i as int],
                        );
                        assert(docs.take(i + 1) =~= docs.take(i as int).push(docs[i as int]));
                        assert(vecs.take(i + 1) =~= vecs.take(i as int).push(vecs[i as int]));
                    }
                    i += 1;
                }
                proof {
                    assert(docs.take(docs.len() as int) =~= docs);
                    assert(vecs.take(vecs.len() as int) =~= vecs);
                }
                Ok(EmbeddingIndex { entries })
            },
        }
    }

    /// Records the vectors that the provider gave for `documents`.
    ///
    /// `embedded` is `None` when the provider failed. The batch is recorded
    /// as a whole or not at all: it succeeds exactly when the provider gave
    /// one vector for each document, and then each document is mapped to its
    /// vector, a later occurrence of a document replacing an earlier one. On
    /// failure the index is left as it was.
    pub fn insert_embedded(
        &mut self,
        documents: Vec<String>,
        embedded: Option<Vec<Vec<u32>>>,
    ) -> (recorded: bool)
        ensures
            recorded == (embedded matches Some(vectors) && vectors@.len() == documents@.len()),
            recorded ==> final(self)@ == overlay(
                old(self)@,
                texts(documents@),
                vector_views(embedded->Some_0@),
            ),
            !recorded ==> *final(self) == *old(self),
            final(self)@.dom().finite(),
            final(self)@.len() >= old(self)@.len(),
            recorded ==> final(self)@.dom() == old(self)@.dom().union(texts(documents@).to_set()),
            recorded ==> forall|i: int|
                0 <= i < documents@.len() && (forall|j: int|
                    i < j < documents@.len() ==> documents@[j]@ != documents@[i]@)
                    ==> final(self)@.contains_key(#[trigger] documents@[i]@)
                    && final(self)@[documents@[i]@] == (embedded->Some_0)@[i]@,
            recorded ==> forall|d: Seq<char>|
                old(self)@.contains_key(d) && !texts(documents@).contains(d)
                    ==> final(self)@.contains_key(d)
                    && #[trigger] final(self)@[d] == old(self)@[d],
            recorded && (forall|i: int|
                0 <= i < documents@.len() ==> old(self)@.contains_key(#[trigger] documents@[i]@))
                ==> final(self)@.len() == old(self)@.len(),
    {
        proof {
            use_type_invariant(&*self);
            self.lemma_view();
        }
        let vectors = match embedded {
            Some(vectors) => vectors,
            None => {
                return false;
            },
        };
        if vectors.len() != documents.len() {
            return false;
        }
        let ghost docs = texts(documents@);
        let ghost vecs = vector_views(vectors@);
        let ghost before = self@;
        let mut entries: Vec<(String, Vec<u32>)> = Vec::new();
        std::mem::swap(&mut entries, &mut self.entries);
        let mut i: usize = 0;
        proof {
            assert(docs.take(0) =~= Seq::empty());
        }
        while i < documents.len()
            invariant
                i <= documents@.len(),
                documents@.len() == vectors@.len(),
                docs == texts(documents@),
                vecs == vector_views(vectors@),
                entry_keys(entries@).no_duplicates(),
                entries_map(entry_keys(entries@), entry_values(entries@)) == overlay(
                    before,
                    docs.take(i as int),
                    vecs.take(i as int),
                ),
            decreases documents@.len() - i,
        {
            let document = documents[i].clone();
            let vector = copy_vector(&vectors[i]);
            put(&mut entries, document, vector);
            proof {
                lemma_overlay_push(
                    before,
                    docs.take(i as int),
                    vecs.take(i as int),
                    docs[i as int],
                    vecs[i as int],
                );
                assert(docs.take(i + 1) =~= docs.take(i as int).push(docs[i as int]));
                assert(vecs.take(i + 1) =~= vecs.take(i as int).push(vecs[i as int]));
            }
            i += 1;
        }
        self.entries = entries;
        proof {
            assert(docs.take(docs.len() as int) =~= docs);
            assert(vecs.take(vecs.len() as int) =~= vecs);
            self.lemma_view();
            lemma_overlay_dom(before, docs, vecs);
            assert forall|i: int|
                0 <= i < documents@.len() && (forall|j: int|
                    i < j < documents@.len() ==> documents@[j]@
                        != documents@[i]@) implies self@.contains_key(#[trigger] documents@[i]@)
                && self@[documents@[i]@] == vectors@[i]@ by {
                assert forall|j: int| i < j < docs.len() implies docs[j] != docs[i] by {
                    assert(docs[j] == documents@[j]@);
                }
                lemma_overlay_last_wins(before, docs, vecs, i);
            }
            assert forall|d: Seq<char>|
                before.contains_key(d) && !docs.contains(d) implies self@.contains_key(d)
                && #[trigger] self@[d] == before[d] by {
                lemma_overlay_keeps_others(before, docs, vecs, d);
            }
            if forall|i: int| 0 <= i < documents@.len() ==> before.contains_key(
                #[trigger] documents@[i]@,
            ) {
                assert forall|i: int| 0 <= i < docs.len() implies before.contains_key(
                    #[trigger] docs[i],
                ) by {
                    assert(before.contains_key(documents@[i]@));
                }
                lemma_overlay_existing_keeps_size(before, docs, vecs);
            }
        }
        true
    }

    /// Ranks the stored documents by the scores given and returns the best
    /// `k`, best first, each with its score.
    ///
    /// `scores[i]` is the similarity of the query to the vector at position
    /// `i` of [`EmbeddingIndex::vectors`]. Documents with level scores
    /// come in stored order. Scores that do not number the documents are an
    /// error.
    pub fn search(&self, scores: &Vec<u32>, k: usize) -> (result: Result<
        Vec<(String, u32)>,
        SearchError,
    >)
        ensures
            match result {
                Ok(found) => {
                    &&& scores@.len() == self.keys().len()
                    &&& is_search_result(self.keys(), scores@, k as nat, found@)
                    &&& found@.len() == if k <= self@.len() { k as nat } else { self@.len() }
                    &&& k == 0 ==> found@.len() == 0
                    &&& forall|r: int, s: int|
                        0 <= r < s < found@.len() ==> score_rank((#[trigger] found@[r]).1)
                            >= score_rank((#[trigger] found@[s]).1)
                    &&& forall|r: int|
                        0 <= r < found@.len() ==> self@.contains_key((#[trigger] found@[r]).0@)
                    &&& forall|r: int, s: int|
                        0 <= r < s < found@.len() ==> (#[trigger] found@[r]).0@
                            != (#[trigger] found@[s]).0@
                },
                Err(e) => e == SearchError::ScoreCount && scores@.len() != self.keys().len(),
            },
    {
        proof {
            use_type_invariant(self);
            self.lemma_view();
        }
        if scores.len() != self.entries.len() {
            return Err(SearchError::ScoreCount);
        }
        let order = top_k(scores, k);
        let mut found: Vec<(String, u32)> = Vec::new();
        let mut r: usize = 0;
        while r < order.len()
            invariant
                r <= order@.len(),
                scores@.len() == self.entries@.len(),
                is_ranking(scores@, k as nat, positions(order@)),
                found@.len() == r,
                forall|j: int|
                    0 <= j < r ==> (#[trigger] found@[j]).0@ == self.keys()[order@[j] as int]
                        && found@[j].1 == scores@[order@[j] as int],
            decreases order@.len() - r,
        {
            let at: usize = order[r];
            proof {
                assert(0 <= positions(order@)[r as int] < scores@.len());
            }
            found.push((self.entries[at].0.clone(), scores[at]));
            r += 1;
        }
        proof {
            assert(lists(self.keys(), scores@, positions(order@), found@));
            lemma_search_result_sorted(self.keys(), scores@, k as nat, found@);
            assert forall|j: int| 0 <= j < found@.len() implies self@.contains_key(
                (#[trigger] found@[j]).0@,
            ) by {
                assert(self.keys().contains(found@[j].0@));
                assert(self.keys().to_set().contains(found@[j].0@));
            }
        }
        Ok(found)
    }

    /// The stored documents, in stored order.
    pub fn documents(&self) -> (documents: Vec<String>)
        ensures
            texts(documents@) == self.keys(),
            documents@.len() == self@.len(),
            forall|i: int|
                0 <= i < documents@.len() ==> self@.contains_key((#[trigger] documents@[i])@),
    {
        proof {
            use_type_invariant(self);
            self.lemma_view();
        }
        let mut documents: Vec<String> = Vec::new();
        let mut i: usize = 0;
        while i < self.entries.len()
            invariant
                i <= self.entries@.len(),
                documents@.len() == i,
                forall|j: int| 0 <= j < i ==> (#[trigger] documents@[j])@ == self.keys()[j],
            decreases self.entries@.len() - i,
        {
            documents.push(self.entries[i].0.clone());
            i += 1;
        }
        proof {
            assert(texts(documents@) =~= self.keys());
        }
        documents
    }

    /// The stored vectors, each at the position of its document: what a
    /// query is scored against.
    pub fn vectors(&self) -> (vectors: Vec<Vec<u32>>)
        ensures
            vector_views(vectors@) == self.values(),
            vectors@.len() == self@.len(),
            vectors@.len() == self.keys().len(),
            forall|i: int|
                0 <= i < vectors@.len() ==> self@[self.keys()[i]] == (#[trigger] vectors@[i])@,
    {
        proof {
            use_type_invariant(self);
            self.lemma_view();
        }
        let mut vectors: Vec<Vec<u32>> = Vec::new();
        let mut i: usize = 0;
        while i < self.entries.len()
            invariant
                i <= self.entries@.len(),
                vectors@.len() == i,
                forall|j: int| 0 <= j < i ==> (#[trigger] vectors@[j])@ == self.values()[j],
            decreases self.entries@.len() - i,
        {
            vectors.push(copy_vector(&self.entries[i].1));
            i += 1;
        }
        proof {
            assert(vector_views(vectors@) =~= self.values());
        }
        vectors
    }

    /// Every stored pair of document and vector: what a save writes out.
    ///
    /// Loading these pairs again gives a store with the same mapping.
    pub fn entries(&self) -> (pairs: Vec<(String, Vec<u32>)>)
        ensures
            entry_keys(pairs@) == self.keys(),
            entry_values(pairs@) == self.values(),
            entry_keys(pairs@).no_duplicates(),
            pairs@.len() == self@.len(),
            overlay(Map::empty(), entry_keys(pairs@), entry_values(pairs@)) == self@,
            forall|i: int|
                0 <= i < pairs@.len() ==> self@.contains_key((#[trigger] pairs@[i]).0@)
                    && self@[pairs@[i].0@] == pairs@[i].1@,
    {
        proof {
            use_type_invariant(self);
            self.lemma_view();
        }
        let mut pairs: Vec<(String, Vec<u32>)> = Vec::new();
        let mut i: usize = 0;
        while i < self.entries.len()
            invariant
                i <= self.entries@.len(),
                pairs@.len() == i,
                forall|j: int|
                    0 <= j < i ==> (#[trigger] pairs@[j]).0@ == self.keys()[j] && pairs@[j].1@
                        == self.values()[j],
            decreases self.entries@.len() - i,
        {
            pairs.push((self.entries[i].0.clone(), copy_vector(&self.entries[i].1)));
            i += 1;
        }
        proof {
            assert(entry_keys(pairs@) =~= self.keys());
            assert(entry_values(pairs@) =~= self.values());
        }
        pairs
    }

    /// The vector stored for `document`, if there is one.
    pub fn get(&self, document: &str) -> (vector: Option<Vec<u32>>)
        ensures
            match vector {
                Some(v) => self@.contains_key(document@) && v@ == self@[document@],
                None => !self@.contains_key(document@),
            },
    {
        proof {
            use_type_invariant(self);
            self.lemma_view();
        }
        let key: String = document.to_owned();
        match position_of(&self.entries, &key) {
            Some(i) => {
                proof {
                    assert(self.keys()[i as int] == document@);
                }
                Some(copy_vector(&self.entries[i].1))
            },
            None => None,
        }
    }

    /// The number of documents stored.
    pub fn len(&self) -> (n: usize)
        ensures
            n == self@.len(),
            n == self.keys().len(),
            self@.dom().finite(),
    {
        proof {
            use_type_invariant(self);
            self.lemma_view();
        }
        self.entries.len()
    }
}

} // verus!
