use image_hosting_worker::text::{build_token_batch, preprocess_texts};
use tokenizers::Tokenizer;

#[test]
fn flattening_is_row_major() {
    let rows = vec![(vec![1i64, 2], vec![1i64, 1]), (vec![3, 0], vec![1, 0])];
    let tb = build_token_batch(&rows).expect("uniform rows");
    assert_eq!((tb.rows, tb.cols), (2, 2));
    assert_eq!(tb.input_ids, vec![1, 2, 3, 0]);
    assert_eq!(tb.attention_mask, vec![1, 1, 1, 0]);
}

#[test]
fn ragged_rows_are_rejected() {
    let rows = vec![(vec![1i64, 2], vec![1i64, 1]), (vec![3], vec![1])];
    assert!(build_token_batch(&rows).is_none());
    let mismatched = vec![(vec![1i64, 2], vec![1i64])];
    assert!(build_token_batch(&mismatched).is_none());
}

#[test]
fn empty_batch_flattens_to_nothing() {
    let tb = build_token_batch(&Vec::new()).expect("trivially uniform");
    assert_eq!((tb.rows, tb.cols), (0, 0));
    assert!(tb.input_ids.is_empty());
}

fn word_level_tokenizer() -> Tokenizer {
    let definition = "{\"version\":\"1.0\",\"pre_tokenizer\":{\"type\":\"Whitespace\"},\"model\":{\"type\":\"WordLevel\",\"vocab\":{\"[UNK]\":0,\"hello\":1,\"world\":2,\"bicycle\":3},\"unk_token\":\"[UNK]\"}}";
    let mut tok = Tokenizer::from_bytes(definition.as_bytes()).expect("valid definition");
    tok.with_padding(Some(tokenizers::PaddingParams::default()));
    tok
}

#[test]
fn tokenization_pads_to_the_longest_text() {
    let tok = word_level_tokenizer();
    let tb = preprocess_texts(
        &tok,
        vec!["hello world".to_string(), "bicycle".to_string()],
    )
    .expect("tokenizer succeeds");
    assert_eq!((tb.rows, tb.cols), (2, 2));
    assert_eq!(tb.input_ids, vec![1, 2, 3, 0]);
    assert_eq!(tb.attention_mask, vec![1, 1, 1, 0]);
}

#[test]
fn identical_texts_tokenize_identically() {
    let tok = word_level_tokenizer();
    let tb = preprocess_texts(
        &tok,
        vec!["hello bicycle".to_string(), "hello bicycle".to_string()],
    )
    .expect("tokenizer succeeds");
    assert_eq!(tb.rows, 2);
    let cols = tb.cols;
    assert_eq!(tb.input_ids[..cols], tb.input_ids[cols..2 * cols]);
    assert_eq!(tb.attention_mask[..cols], tb.attention_mask[cols..2 * cols]);
}

#[test]
fn empty_text_still_tokenizes() {
    let tok = word_level_tokenizer();
    let tb = preprocess_texts(&tok, vec!["".to_string()]).expect("tokenizer succeeds");
    assert_eq!(tb.rows, 1);
    for m in &tb.attention_mask {
        assert!(*m == 0 || *m == 1);
    }
}
