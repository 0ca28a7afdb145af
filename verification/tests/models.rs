use fastembed::EmbeddingModel;
use fastembed_vectorstore::embedding_model::FastembedEmbeddingModel;

fn all_models() -> Vec<FastembedEmbeddingModel> {
    vec![
        FastembedEmbeddingModel::AllMiniLML6V2,
        FastembedEmbeddingModel::AllMiniLML6V2Q,
        FastembedEmbeddingModel::AllMiniLML12V2,
        FastembedEmbeddingModel::AllMiniLML12V2Q,
        FastembedEmbeddingModel::BGEBaseENV15,
        FastembedEmbeddingModel::BGEBaseENV15Q,
        FastembedEmbeddingModel::BGELargeENV15,
        FastembedEmbeddingModel::BGELargeENV15Q,
        FastembedEmbeddingModel::BGESmallENV15,
        FastembedEmbeddingModel::BGESmallENV15Q,
        FastembedEmbeddingModel::NomicEmbedTextV1,
        FastembedEmbeddingModel::NomicEmbedTextV15,
        FastembedEmbeddingModel::NomicEmbedTextV15Q,
        FastembedEmbeddingModel::ParaphraseMLMiniLML12V2,
        FastembedEmbeddingModel::ParaphraseMLMiniLML12V2Q,
        FastembedEmbeddingModel::ParaphraseMLMpnetBaseV2,
        FastembedEmbeddingModel::BGESmallZHV15,
        FastembedEmbeddingModel::BGELargeZHV15,
        FastembedEmbeddingModel::ModernBertEmbedLarge,
        FastembedEmbeddingModel::MultilingualE5Small,
        FastembedEmbeddingModel::MultilingualE5Base,
        FastembedEmbeddingModel::MultilingualE5Large,
        FastembedEmbeddingModel::MxbaiEmbedLargeV1,
        FastembedEmbeddingModel::MxbaiEmbedLargeV1Q,
        FastembedEmbeddingModel::GTEBaseENV15,
        FastembedEmbeddingModel::GTEBaseENV15Q,
        FastembedEmbeddingModel::GTELargeENV15,
        FastembedEmbeddingModel::GTELargeENV15Q,
        FastembedEmbeddingModel::ClipVitB32,
        FastembedEmbeddingModel::JinaEmbeddingsV2BaseCode,
    ]
}

#[test]
fn each_model_maps_to_the_provider_model_of_its_name() {
    for model in all_models() {
        assert_eq!(format!("{:?}", model.to_embedding_model()), format!("{:?}", model));
    }
}

#[test]
fn provider_models_are_those_expected() {
    assert_eq!(
        FastembedEmbeddingModel::AllMiniLML6V2.to_embedding_model(),
        EmbeddingModel::AllMiniLML6V2
    );
    assert_eq!(
        FastembedEmbeddingModel::BGESmallENV15.to_embedding_model(),
        EmbeddingModel::BGESmallENV15
    );
    assert_eq!(
        FastembedEmbeddingModel::JinaEmbeddingsV2BaseCode.to_embedding_model(),
        EmbeddingModel::JinaEmbeddingsV2BaseCode
    );
}

#[test]
fn different_models_map_to_different_provider_models() {
    let models = all_models();
    assert_eq!(models.len(), 30);
    for (i, a) in models.iter().enumerate() {
        for (j, b) in models.iter().enumerate() {
            assert_eq!(a.to_embedding_model() == b.to_embedding_model(), i == j);
            assert_eq!(a == b, i == j);
        }
    }
}

#[test]
fn every_model_is_known_to_the_provider() {
    let supported: Vec<EmbeddingModel> =
        fastembed::TextEmbedding::list_supported_models().into_iter().map(|m| m.model).collect();
    for model in all_models() {
        assert!(supported.contains(&model.to_embedding_model()));
    }
}
