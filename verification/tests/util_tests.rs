use miniflow::utils::web_search::{build_search_url, format_usize, SearchOptions};
use miniflow::utils::{
    ConsoleDebugVisualizer, DebugVisualizer, DistanceMetric, EmbeddingOptions,
    GraphDebugVisualizer, VectorDBOptions,
};
use miniflow::utils::embedding::batch_texts;

#[test]
fn format_usize_writes_decimal() {
    assert_eq!(format_usize(0), "0");
    assert_eq!(format_usize(7), "7");
    assert_eq!(format_usize(10), "10");
    assert_eq!(format_usize(12345), "12345");
    assert_eq!(format_usize(1000000), "1000000");
}

#[test]
fn search_url_carries_key_engine_and_query() {
    let options = SearchOptions::default();
    assert!(options.max_results.is_none());
    assert!(options.language.is_none());
    assert!(options.region.is_none());
    let url = build_search_url("KEY", "ENGINE", "weather today", &options);
    assert_eq!(
        url,
        "https://www.googleapis.com/customsearch/v1?key=KEY&cx=ENGINE&q=weather today"
    );
}

#[test]
fn search_url_appends_options_in_order() {
    let options = SearchOptions {
        max_results: Some(25),
        language: Some("en".to_string()),
        region: Some("US".to_string()),
    };
    let url = build_search_url("K", "E", "q", &options);
    assert_eq!(
        url,
        "https://www.googleapis.com/customsearch/v1?key=K&cx=E&q=q&lr=lang_en&cr=countryUS&num=25"
    );
}

#[test]
fn batch_texts_fills_every_group_but_the_last() {
    let texts: Vec<String> = (0..25).map(|i| format!("text {}", i)).collect();
    let groups = batch_texts(&texts, 10);
    assert_eq!(groups.len(), 3);
    assert_eq!(groups[0].len(), 10);
    assert_eq!(groups[1].len(), 10);
    assert_eq!(groups[2].len(), 5);
    let flat: Vec<String> = groups.concat();
    assert_eq!(flat, texts);

    let none = batch_texts(&Vec::new(), 10);
    assert_eq!(none.len(), 0);
}

#[test]
fn visualizers_render_debug_text() {
    let console = ConsoleDebugVisualizer;
    assert_eq!(console.visualize(&5), "5");
    assert_eq!(console.visualize_flow(&[1, 2]), "Flow visualization not implemented");

    let graph = GraphDebugVisualizer;
    assert_eq!(graph.visualize(&true), "Graph visualization of true");
    assert_eq!(graph.visualize_flow(&[]), "Flow graph visualization not implemented");
}

#[test]
fn collaborator_options_hold_their_fields() {
    let embedding = EmbeddingOptions::default();
    assert_eq!(embedding.model, "text-embedding-ada-002");
    assert!(embedding.dimensions.is_none());

    let db = VectorDBOptions {
        collection_name: "documents".to_string(),
        dimension: 768,
        distance_metric: DistanceMetric::Cosine,
    };
    assert_eq!(db.collection_name, "documents");
    assert_eq!(db.dimension, 768);
    assert!(matches!(db.distance_metric, DistanceMetric::Cosine));
    assert!(matches!(
        VectorDBOptions {
            collection_name: String::new(),
            dimension: 1,
            distance_metric: DistanceMetric::Euclidean,
        }
        .distance_metric,
        DistanceMetric::Euclidean
    ));
    assert!(matches!(DistanceMetric::DotProduct, DistanceMetric::DotProduct));
}
