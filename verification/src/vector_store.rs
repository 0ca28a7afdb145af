//! The vector store: an index of documents bound to the one provider that
//! embeds for it.

use vstd::prelude::*;
use crate::embedding_model::FastembedEmbeddingModel;
use crate::error::{ConstructError, SearchError};
use crate::index::{copy_strings, EmbeddingIndex};
use crate::mapping::{overlay, texts};
use crate::provider::embed_batch;

verus! {

/// A store of documents and their embedding vectors.
///
/// The store owns its embedding provider from the moment it is made: every
/// document it ingests and every query it embeds goes through that provider
/// and no other. The view is the mapping from document to vector.
pub struct FastembedVectorstore {
    model: FastembedEmbeddingModel,
    embedder: fastembed::TextEmbedding,
    index: EmbeddingIndex,
}

impl View for FastembedVectorstore {
    type V = Map<Seq<char>, Seq<u32>>;

    open spec fn view(&self) -> Map<Seq<char>, Seq<u32>> {
        self.stored()@
    }
}

impl FastembedVectorstore {
    /// The model that the store is bound to.
    pub closed spec fn bound_model(&self) -> FastembedEmbeddingModel {
        self.model
    }

    /// The provider that the store owns.
    pub closed spec fn provider(&self) -> fastembed::TextEmbedding {
        self.embedder
    }

    /// The index that the store holds.
    pub closed spec fn stored(&self) -> EmbeddingIndex {
        self.index
    }

    /// An empty store bound to `model`.
    ///
    /// `embedder` is the provider initialised for `model`, or `None` where
    /// that failed: then there is no store.
    pub fn new(model: FastembedEmbeddingModel, embedder: Option<fastembed::TextEmbedding>) -> (made:
        Result<Self, ConstructError>)
        ensures
            match embedder {
                Some(e) => made matches Ok(store) && store.bound_model() == model
                    && store.provider() == e && store@ == Map::<Seq<char>, Seq<u32>>::empty()
                    && store.stored().keys().len() == 0,
                None => made matches Err(ConstructError::ProviderInit),
            },
    {
        FastembedVectorstore::load(model, embedder, EmbeddingIndex::new())
    }

    /// A store that holds a loaded index, bound to `model`.
    ///
    /// `embedder` is the provider initialised for `model`, or `None` where
    /// that failed: then there is no store. The vectors of the index are not
    /// held against the model.
    pub fn load(
        model: FastembedEmbeddingModel,
        embedder: Option<fastembed::TextEmbedding>,
        index: EmbeddingIndex,
    ) -> (loaded: Result<Self, ConstructError>)
        ensures
            match embedder {
                Some(e) => loaded matches Ok(store) && store.bound_model() == model
                    && store.provider() == e && store.stored() == index,
                None => loaded matches Err(ConstructError::ProviderInit),
            },
    {
        match embedder {
            Some(embedder) => Ok(FastembedVectorstore { model, embedder, index }),
            None => Err(ConstructError::ProviderInit),
        }
    }

    /// The model that the store is bound to.
    pub fn model(&self) -> (model: FastembedEmbeddingModel)
        ensures
            model == self.bound_model(),
    {
        self.model
    }

    /// The index that the store holds: what is searched and what is saved.
    pub fn index(&self) -> (index: &EmbeddingIndex)
        ensures
            *index == self.stored(),
    {
        &self.index
    }

    /// Embeds `documents` with the store's provider as one batch and records
    /// the result.
    ///
    /// An empty batch succeeds without a call to the provider and changes
    /// nothing. Otherwise, whatever the provider gives, either the whole batch
    /// is recorded, each document under a vector of the provider's, or the
    /// store is left as it was and the result is `false`.
    pub fn embed_documents(&mut self, documents: Vec<String>) -> (recorded: bool)
        ensures
            documents@.len() == 0 ==> recorded && *final(self) == *old(self),
            recorded ==> exists|vecs: Seq<Seq<u32>>|
                vecs.len() == documents@.len() && final(self)@ == #[trigger] overlay(
                    old(self)@,
                    texts(documents@),
                    vecs,
                ),
            !recorded ==> *final(self) == *old(self),
            final(self).bound_model() == old(self).bound_model(),
            final(self).provider() == old(self).provider(),
            final(self)@.dom().finite(),
            final(self)@.len() >= old(self)@.len(),
            recorded ==> final(self)@.dom() == old(self)@.dom().union(texts(documents@).to_set()),
            recorded ==> forall|d: Seq<char>|
                old(self)@.contains_key(d) && !texts(documents@).contains(d)
                    ==> final(self)@.contains_key(d)
                    && #[trigger] final(self)@[d] == old(self)@[d],
            recorded && (forall|i: int|
                0 <= i < documents@.len() ==> old(self)@.contains_key(#[trigger] documents@[i]@))
                ==> final(self)@.len() == old(self)@.len(),
    {
        if documents.len() == 0 {
            proof {
                use_type_invariant(&self.index);
                self.index.lemma_view();
                assert(overlay(self@, texts(documents@), Seq::<Seq<u32>>::empty()) == self@);
                assert(texts(documents@).to_set() =~= Set::<Seq<char>>::empty());
                assert(self@.dom().union(Set::<Seq<char>>::empty()) =~= self@.dom());
            }
            return true;
        }
        let embedded = embed_batch(&self.embedder, copy_strings(&documents));
        let ghost vecs = if embedded is Some {
            crate::mapping::vector_views(embedded->Some_0@)
        } else {
            Seq::empty()
        };
        let recorded = self.index.insert_embedded(documents, embedded);
        proof {
            if recorded {
                assert(final(self)@ == overlay(old(self)@, texts(documents@), vecs));
            }
        }
        recorded
    }

    /// Embeds `query` with the store's provider as a batch of one.
    ///
    /// The only error is the provider's failure; what the vector holds is the
    /// model's to decide.
    pub fn embed_query(&self, query: &str) -> (vector: Result<Vec<u32>, SearchError>)
        ensures
            vector matches Err(e) ==> e == SearchError::Provider,
    {
        crate::provider::embed_query(&self.embedder, query)
    }
}

} // verus!
