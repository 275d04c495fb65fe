use image_hosting_worker::consumer::{
    acknowledgement, reconnect_decision, AckDecision, SessionEnd, SessionStep, RECONNECT_DELAY_MS,
};
use image_hosting_worker::errors::{ErrorKind, Recovery};
use image_hosting_worker::index_setup::{index_mapping_body, index_setup_action, IndexSetup};
use image_hosting_worker::storage::get_image_path;
use image_hosting_worker::upload::{
    document_id, normalize_orientation, orientation_ops, thumbnail_plan, OrientOp, ThumbnailPlan,
};
use image_hosting_worker::{ELASTICSEARCH_INDEX, EMBEDDING_DIM, RABBITMQ_QUEUE_NAME};

#[test]
fn names_of_the_shared_resources() {
    assert_eq!(ELASTICSEARCH_INDEX, "image_hosting");
    assert_eq!(RABBITMQ_QUEUE_NAME, "image_hosting_queue");
    assert_eq!(EMBEDDING_DIM, 512);
}

#[test]
fn every_delivery_is_acked_or_nacked() {
    assert_eq!(
        acknowledgement(9, true),
        AckDecision::Ack { delivery_tag: 9, multiple: false }
    );
    assert_eq!(
        acknowledgement(9, false),
        AckDecision::Nack { delivery_tag: 9, multiple: false, requeue: true }
    );
}

#[test]
fn only_shutdown_ends_the_connection_loop() {
    assert_eq!(reconnect_decision(SessionEnd::ShutdownSignal), SessionStep::Exit);
    assert_eq!(
        reconnect_decision(SessionEnd::NetworkFailure),
        SessionStep::RetryAfterMs(RECONNECT_DELAY_MS)
    );
    assert_eq!(
        reconnect_decision(SessionEnd::RemoteClosed),
        SessionStep::RetryAfterMs(RECONNECT_DELAY_MS)
    );
    assert_eq!(RECONNECT_DELAY_MS, 1000);
}

#[test]
fn recovery_policy_by_error_kind() {
    assert_eq!(ErrorKind::ConfigError.recovery(), Recovery::AbortStartup);
    assert_eq!(ErrorKind::ModelInitError.recovery(), Recovery::AbortStartup);
    assert_eq!(ErrorKind::BrokerError.recovery(), Recovery::ReconnectBroker);
    assert_eq!(ErrorKind::IndexError.recovery(), Recovery::NackRequeue);
    assert_eq!(ErrorKind::DecodeError.recovery(), Recovery::NackRequeue);
    assert_eq!(ErrorKind::BatchFailed.recovery(), Recovery::NackRequeue);
}

#[test]
fn index_is_created_only_when_missing() {
    assert_eq!(index_setup_action(true), IndexSetup::Keep);
    assert_eq!(index_setup_action(false), IndexSetup::Create);
}

#[test]
fn index_mapping_declares_the_schema() {
    let body = index_mapping_body();
    let value: serde_json::Value = serde_json::from_str(&body).expect("well-formed JSON");
    let embedding = value
        .pointer("/mappings/properties/embedding")
        .expect("embedding field");
    assert_eq!(embedding.get("type").and_then(|v| v.as_str()), Some("dense_vector"));
    assert_eq!(embedding.get("dims").and_then(|v| v.as_i64()), Some(512));
    assert_eq!(embedding.get("index").and_then(|v| v.as_bool()), Some(true));
    assert_eq!(
        embedding.get("similarity").and_then(|v| v.as_str()),
        Some("dot_product")
    );
    let title = value.pointer("/mappings/properties/title").expect("title field");
    assert_eq!(title.get("analyzer").and_then(|v| v.as_str()), Some("en_ru_analyzer"));
    let filters = value
        .pointer("/settings/index/analysis/analyzer/en_ru_analyzer/filter")
        .and_then(|v| v.as_array())
        .expect("analyzer filters");
    let names: Vec<&str> = filters.iter().map(|v| v.as_str().unwrap()).collect();
    assert_eq!(
        names,
        vec!["lowercase", "english_stemmer", "russian_stemmer", "english_stop", "russian_stop"]
    );
}

#[test]
fn image_paths_follow_the_shared_layout() {
    assert_eq!(get_image_path(42, "jpg", false), "storage/images/42.jpg");
    assert_eq!(get_image_path(42, "jpg", true), "storage/thumbnails/42.jpg");
    assert_eq!(get_image_path(-7, "png", false), "storage/images/-7.png");
}

#[test]
fn document_ids_are_decimal_image_ids() {
    assert_eq!(document_id(42), "42");
    assert_eq!(document_id(0), "0");
    assert_eq!(document_id(-3), "-3");
}

#[test]
fn small_originals_are_linked_as_thumbnails() {
    assert_eq!(thumbnail_plan(800, 600), ThumbnailPlan::LinkOriginal);
    assert_eq!(thumbnail_plan(801, 600), ThumbnailPlan::Rescale);
    assert_eq!(thumbnail_plan(800, 601), ThumbnailPlan::Rescale);
    assert_eq!(thumbnail_plan(1, 1), ThumbnailPlan::LinkOriginal);
}

#[test]
fn orientation_defaults_and_operations() {
    assert_eq!(normalize_orientation(None), 1);
    assert_eq!(normalize_orientation(Some(0)), 1);
    assert_eq!(normalize_orientation(Some(9)), 1);
    assert_eq!(normalize_orientation(Some(6)), 6);
    assert!(orientation_ops(1).is_empty());
    assert_eq!(orientation_ops(3), vec![OrientOp::Rotate180]);
    assert_eq!(orientation_ops(5), vec![OrientOp::Rotate90, OrientOp::FlipHorizontal]);
    assert_eq!(orientation_ops(8), vec![OrientOp::Rotate270]);
}
