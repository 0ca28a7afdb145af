//! The closed set of embedding models that a store can be bound to.

use vstd::prelude::*;

verus! {

/// Names one pretrained text-embedding model.
///
/// A store is bound to exactly one of these for its whole life: the vectors it
/// holds and the scores it ranks are only comparable when the same model
/// produced them. The variants ending in `Q` are the quantized builds.
#[derive(Clone, Copy, Debug, PartialEq, Eq, Structural, Hash)]
pub enum FastembedEmbeddingModel {
    AllMiniLML6V2,
    AllMiniLML6V2Q,
    AllMiniLML12V2,
    AllMiniLML12V2Q,
    BGEBaseENV15,
    BGEBaseENV15Q,
    BGELargeENV15,
    BGELargeENV15Q,
    BGESmallENV15,
    BGESmallENV15Q,
    NomicEmbedTextV1,
    NomicEmbedTextV15,
    NomicEmbedTextV15Q,
    ParaphraseMLMiniLML12V2,
    ParaphraseMLMiniLML12V2Q,
    ParaphraseMLMpnetBaseV2,
    BGESmallZHV15,
    BGELargeZHV15,
    ModernBertEmbedLarge,
    MultilingualE5Small,
    MultilingualE5Base,
    MultilingualE5Large,
    MxbaiEmbedLargeV1,
    MxbaiEmbedLargeV1Q,
    GTEBaseENV15,
    GTEBaseENV15Q,
    GTELargeENV15,
    GTELargeENV15Q,
    ClipVitB32,
    JinaEmbeddingsV2BaseCode,
}

/// The `fastembed` crate's enumeration of the models it can load. Its variants
/// are read from the crate as they are.
#[verifier::external_type_specification]
pub struct ExEmbeddingModel(fastembed::EmbeddingModel);

impl FastembedEmbeddingModel {
    /// The provider's name for this model: the variant of the same name.
    pub open spec fn provider_model(self) -> fastembed::EmbeddingModel {
        match self {
            FastembedEmbeddingModel::AllMiniLML6V2 => fastembed::EmbeddingModel::AllMiniLML6V2,
            FastembedEmbeddingModel::AllMiniLML6V2Q => fastembed::EmbeddingModel::AllMiniLML6V2Q,
            FastembedEmbeddingModel::AllMiniLML12V2 => fastembed::EmbeddingModel::AllMiniLML12V2,
            FastembedEmbeddingModel::AllMiniLML12V2Q => fastembed::EmbeddingModel::AllMiniLML12V2Q,
            FastembedEmbeddingModel::BGEBaseENV15 => fastembed::EmbeddingModel::BGEBaseENV15,
            FastembedEmbeddingModel::BGEBaseENV15Q => fastembed::EmbeddingModel::BGEBaseENV15Q,
            FastembedEmbeddingModel::BGELargeENV15 => fastembed::EmbeddingModel::BGELargeENV15,
            FastembedEmbeddingModel::BGELargeENV15Q => fastembed::EmbeddingModel::BGELargeENV15Q,
            FastembedEmbeddingModel::BGESmallENV15 => fastembed::EmbeddingModel::BGESmallENV15,
            FastembedEmbeddingModel::BGESmallENV15Q => fastembed::EmbeddingModel::BGESmallENV15Q,
            FastembedEmbeddingModel::NomicEmbedTextV1 => {
                fastembed::EmbeddingModel::NomicEmbedTextV1
            },
            FastembedEmbeddingModel::NomicEmbedTextV15 => {
                fastembed::EmbeddingModel::NomicEmbedTextV15
            },
            FastembedEmbeddingModel::NomicEmbedTextV15Q => {
                fastembed::EmbeddingModel::NomicEmbedTextV15Q
            },
            FastembedEmbeddingModel::ParaphraseMLMiniLML12V2 => {
                fastembed::EmbeddingModel::ParaphraseMLMiniLML12V2
            },
            FastembedEmbeddingModel::ParaphraseMLMiniLML12V2Q => {
                fastembed::EmbeddingModel::ParaphraseMLMiniLML12V2Q
            },
            FastembedEmbeddingModel::ParaphraseMLMpnetBaseV2 => {
                fastembed::EmbeddingModel::ParaphraseMLMpnetBaseV2
            },
            FastembedEmbeddingModel::BGESmallZHV15 => fastembed::EmbeddingModel::BGESmallZHV15,
            FastembedEmbeddingModel::BGELargeZHV15 => fastembed::EmbeddingModel::BGELargeZHV15,
            FastembedEmbeddingModel::ModernBertEmbedLarge => {
                fastembed::EmbeddingModel::ModernBertEmbedLarge
            },
            FastembedEmbeddingModel::MultilingualE5Small => {
                fastembed::EmbeddingModel::MultilingualE5Small
            },
            FastembedEmbeddingModel::MultilingualE5Base => {
                fastembed::EmbeddingModel::MultilingualE5Base
            },
            FastembedEmbeddingModel::MultilingualE5Large => {
                fastembed::EmbeddingModel::MultilingualE5Large
            },
            FastembedEmbeddingModel::MxbaiEmbedLargeV1 => {
                fastembed::EmbeddingModel::MxbaiEmbedLargeV1
            },
            FastembedEmbeddingModel::MxbaiEmbedLargeV1Q => {
                fastembed::EmbeddingModel::MxbaiEmbedLargeV1Q
            },
            FastembedEmbeddingModel::GTEBaseENV15 => fastembed::EmbeddingModel::GTEBaseENV15,
            FastembedEmbeddingModel::GTEBaseENV15Q => fastembed::EmbeddingModel::GTEBaseENV15Q,
            FastembedEmbeddingModel::GTELargeENV15 => fastembed::EmbeddingModel::GTELargeENV15,
            FastembedEmbeddingModel::GTELargeENV15Q => fastembed::EmbeddingModel::GTELargeENV15Q,
            FastembedEmbeddingModel::ClipVitB32 => fastembed::EmbeddingModel::ClipVitB32,
            FastembedEmbeddingModel::JinaEmbeddingsV2BaseCode => {
                fastembed::EmbeddingModel::JinaEmbeddingsV2BaseCode
            },
        }
    }

    /// The provider's name for this model.
    pub fn to_embedding_model(&self) -> (r: fastembed::EmbeddingModel)
        ensures
            r == self.provider_model(),
    {
        match self {
            FastembedEmbeddingModel::AllMiniLML6V2 => fastembed::EmbeddingModel::AllMiniLML6V2,
            FastembedEmbeddingModel::AllMiniLML6V2Q => fastembed::EmbeddingModel::AllMiniLML6V2Q,
            FastembedEmbeddingModel::AllMiniLML12V2 => fastembed::EmbeddingModel::AllMiniLML12V2,
            FastembedEmbeddingModel::AllMiniLML12V2Q => fastembed::EmbeddingModel::AllMiniLML12V2Q,
            FastembedEmbeddingModel::BGEBaseENV15 => fastembed::EmbeddingModel::BGEBaseENV15,
            FastembedEmbeddingModel::BGEBaseENV15Q => fastembed::EmbeddingModel::BGEBaseENV15Q,
            FastembedEmbeddingModel::BGELargeENV15 => fastembed::EmbeddingModel::BGELargeENV15,
            FastembedEmbeddingModel::BGELargeENV15Q => fastembed::EmbeddingModel::BGELargeENV15Q,
            FastembedEmbeddingModel::BGESmallENV15 => fastembed::EmbeddingModel::BGESmallENV15,
            FastembedEmbeddingModel::BGESmallENV15Q => fastembed::EmbeddingModel::BGESmallENV15Q,
            FastembedEmbeddingModel::NomicEmbedTextV1 => {
                fastembed::EmbeddingModel::NomicEmbedTextV1
            },
            FastembedEmbeddingModel::NomicEmbedTextV15 => {
                fastembed::EmbeddingModel::NomicEmbedTextV15
            },
            FastembedEmbeddingModel::NomicEmbedTextV15Q => {
                fastembed::EmbeddingModel::NomicEmbedTextV15Q
            },
            FastembedEmbeddingModel::ParaphraseMLMiniLML12V2 => {
                fastembed::EmbeddingModel::ParaphraseMLMiniLML12V2
            },
            FastembedEmbeddingModel::ParaphraseMLMiniLML12V2Q => {
                fastembed::EmbeddingModel::ParaphraseMLMiniLML12V2Q
            },
            FastembedEmbeddingModel::ParaphraseMLMpnetBaseV2 => {
                fastembed::EmbeddingModel::ParaphraseMLMpnetBaseV2
            },
            FastembedEmbeddingModel::BGESmallZHV15 => fastembed::EmbeddingModel::BGESmallZHV15,
            FastembedEmbeddingModel::BGELargeZHV15 => fastembed::EmbeddingModel::BGELargeZHV15,
            FastembedEmbeddingModel::ModernBertEmbedLarge => {
                fastembed::EmbeddingModel::ModernBertEmbedLarge
            },
            FastembedEmbeddingModel::MultilingualE5Small => {
                fastembed::EmbeddingModel::MultilingualE5Small
            },
            FastembedEmbeddingModel::MultilingualE5Base => {
                fastembed::EmbeddingModel::MultilingualE5Base
            },
            FastembedEmbeddingModel::MultilingualE5Large => {
                fastembed::EmbeddingModel::MultilingualE5Large
            },
            FastembedEmbeddingModel::MxbaiEmbedLargeV1 => {
                fastembed::EmbeddingModel::MxbaiEmbedLargeV1
            },
            FastembedEmbeddingModel::MxbaiEmbedLargeV1Q => {
                fastembed::EmbeddingModel::MxbaiEmbedLargeV1Q
            },
            FastembedEmbeddingModel::GTEBaseENV15 => fastembed::EmbeddingModel::GTEBaseENV15,
            FastembedEmbeddingModel::GTEBaseENV15Q => fastembed::EmbeddingModel::GTEBaseENV15Q,
            FastembedEmbeddingModel::GTELargeENV15 => fastembed::EmbeddingModel::GTELargeENV15,
            FastembedEmbeddingModel::GTELargeENV15Q => fastembed::EmbeddingModel::GTELargeENV15Q,
            FastembedEmbeddingModel::ClipVitB32 => fastembed::EmbeddingModel::ClipVitB32,
            FastembedEmbeddingModel::JinaEmbeddingsV2BaseCode => {
                fastembed::EmbeddingModel::JinaEmbeddingsV2BaseCode
            },
        }
    }

    /// Different models have different names with the provider.
    pub proof fn lemma_provider_model_injective(self, other: Self)
        requires
            self.provider_model() == other.provider_model(),
        ensures
            self == other,
    {
    }
}

} // verus!
