//! The embedding provider: the model that turns text into vectors.

use vstd::prelude::*;
use crate::error::SearchError;

verus! {

/// A loaded embedding model of the `fastembed` crate, carried through opaquely.
#[verifier::external_type_specification]
#[verifier::external_body]
pub struct ExTextEmbedding(fastembed::TextEmbedding);

/// Runs `fastembed::TextEmbedding::embed` on `texts` as one batch, with the
/// provider's default batch size, and hands out each component of each vector
/// as its bit pattern; `None` when the provider reports an error.
///
/// Nothing is claimed of what comes back: how many vectors there are and what
/// they hold is decided by the model. An empty batch is left out because the
/// provider divides the texts into chunks of the batch's own length when the
/// model is dynamically quantized, and a chunk length of zero panics.
#[verifier::external_body]
pub(crate) fn embed_batch(embedder: &fastembed::TextEmbedding, texts: Vec<String>) -> (r: Option<
    Vec<Vec<u32>>,
>)
    requires
        texts@.len() > 0,
{
    embedder.embed(texts, None).ok().map(
        |batch| batch.into_iter().map(|v| v.into_iter().map(|x| x.to_bits()).collect()).collect(),
    )
}

/// The query vector in what the provider gave for a batch of one query.
///
/// The first vector is the query's. A provider that failed, or that gave no
/// vector at all, is an error.
pub fn query_vector(embedded: Option<Vec<Vec<u32>>>) -> (query: Result<Vec<u32>, SearchError>)
    ensures
        match embedded {
            Some(vectors) => if vectors@.len() > 0 {
                query matches Ok(v) && v@ == vectors@[0]@
            } else {
                query matches Err(SearchError::Provider)
            },
            None => query matches Err(SearchError::Provider),
        },
{
    match embedded {
        Some(mut vectors) => {
            if vectors.len() > 0 {
                Ok(vectors.swap_remove(0))
            } else {
                Err(SearchError::Provider)
            }
        },
        None => Err(SearchError::Provider),
    }
}

/// The batch that is handed to the provider for a query: the query alone.
pub fn query_batch(query: &str) -> (batch: Vec<String>)
    ensures
        batch@.len() == 1,
        batch@[0]@ == query@,
{
    let mut batch: Vec<String> = Vec::new();
    batch.push(query.to_owned());
    batch
}

/// Embeds `query` with the provider as a batch of one.
///
/// The provider is handed [`query_batch`] of the query, and [`query_vector`]
/// says what is returned for each thing it may answer. The only error is the
/// provider's failure; what the vector holds is the model's to decide.
pub fn embed_query(embedder: &fastembed::TextEmbedding, query: &str) -> (vector: Result<
    Vec<u32>,
    SearchError,
>)
    ensures
        vector matches Err(e) ==> e == SearchError::Provider,
{
    query_vector(embed_batch(embedder, query_batch(query)))
}

} // verus!
