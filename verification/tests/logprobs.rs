use sglang_openai::logprobs::chat_logprobs;
use sglang_openai::response::ChunkExtras;

#[test]
fn chat_logprobs_use_dynamo_wire_types() {
    let extras = ChunkExtras::<f32> {
        out_lp_val: vec![-0.25],
        out_lp_idx: vec![7],
        out_lp_txt: vec!["x".into()],
        out_top_val: vec![-0.25, -1.0],
        out_top_idx: vec![7, 8],
        out_top_lens: vec![2],
        out_top_txt: vec!["x".into(), "y".into()],
        ..Default::default()
    };
    let logprobs = chat_logprobs(Some(&extras));
    let token = &logprobs.content.unwrap()[0];
    assert_eq!(token.token, "x");
    assert_eq!(token.token_id, Some(7));
    assert_eq!(token.top_logprobs.len(), 2);
    assert_eq!(token.top_logprobs[1].token, "y");
}

#[test]
fn no_extras_give_an_empty_list() {
    let logprobs = chat_logprobs::<f32>(None);
    assert_eq!(logprobs.content, Some(vec![]));
    assert_eq!(logprobs.refusal, None);
}

#[test]
fn a_token_without_text_is_labelled_by_its_id() {
    let extras = ChunkExtras::<f32> {
        out_lp_val: vec![-0.5, -1.5, -2.5],
        out_lp_idx: vec![1234, -7, i64::MIN],
        out_top_val: vec![-0.5],
        out_top_idx: vec![0],
        out_top_lens: vec![1],
        ..Default::default()
    };
    let tokens = chat_logprobs(Some(&extras)).content.unwrap();
    assert_eq!(tokens[0].token, "token_id:1234");
    assert_eq!(tokens[0].top_logprobs[0].token, "token_id:0");
    assert_eq!(tokens[1].token, "token_id:-7");
    assert_eq!(tokens[1].token_id, None);
    assert_eq!(tokens[2].token, "token_id:-9223372036854775808");
}

#[test]
fn an_id_beyond_the_wire_type_is_left_out() {
    let extras = ChunkExtras::<f32> {
        out_lp_val: vec![-0.5, -0.5],
        out_lp_idx: vec![4294967295, 4294967296],
        ..Default::default()
    };
    let tokens = chat_logprobs(Some(&extras)).content.unwrap();
    assert_eq!(tokens[0].token_id, Some(u32::MAX));
    assert_eq!(tokens[1].token_id, None);
}

#[test]
fn bytes_are_the_utf8_of_the_text() {
    let extras = ChunkExtras::<f32> {
        out_lp_val: vec![-0.5],
        out_lp_idx: vec![3],
        out_lp_txt: vec!["é€".into()],
        ..Default::default()
    };
    let tokens = chat_logprobs(Some(&extras)).content.unwrap();
    assert_eq!(tokens[0].bytes, Some("é€".as_bytes().to_vec()));
}

#[test]
fn positions_share_out_the_top_columns() {
    let extras = ChunkExtras::<f32> {
        out_lp_val: vec![-0.1, -0.2, -0.3],
        out_lp_idx: vec![1, 2, 3],
        out_lp_txt: vec!["a".into(), "b".into(), "c".into()],
        out_top_val: vec![-1.0, -2.0, -3.0],
        out_top_idx: vec![10, 20, 30],
        out_top_lens: vec![2, 0, 1],
        out_top_txt: vec!["p".into(), "q".into(), "r".into()],
    };
    assert!(extras.is_well_sliced());
    let tokens = chat_logprobs(Some(&extras)).content.unwrap();
    let tops: Vec<Vec<&str>> = tokens
        .iter()
        .map(|token| {
            token
                .top_logprobs
                .iter()
                .map(|top| top.token.as_str())
                .collect()
        })
        .collect();
    assert_eq!(tops, vec![vec!["p", "q"], vec![], vec!["r"]]);
    assert_eq!(tokens[2].top_logprobs[0].logprob, -3.0);
}

#[test]
fn a_length_beyond_the_columns_takes_what_is_there() {
    let extras = ChunkExtras::<f32> {
        out_lp_val: vec![-0.1],
        out_lp_idx: vec![1],
        out_top_val: vec![-1.0],
        out_top_idx: vec![10],
        out_top_lens: vec![5],
        ..Default::default()
    };
    assert!(extras.is_well_sliced());
    let tokens = chat_logprobs(Some(&extras)).content.unwrap();
    assert_eq!(tokens[0].top_logprobs.len(), 1);
}

#[test]
fn a_position_that_starts_behind_the_columns_is_noticed() {
    let mut extras = ChunkExtras::<f32> {
        out_lp_val: vec![-0.1, -0.2],
        out_lp_idx: vec![1, 2],
        out_top_val: vec![-1.0],
        out_top_idx: vec![10],
        out_top_lens: vec![5, 1],
        ..Default::default()
    };
    assert!(!extras.is_well_sliced());
    extras.out_lp_idx.pop();
    assert!(extras.is_well_sliced());
}

#[test]
fn positions_without_both_columns_are_left_out() {
    let extras = ChunkExtras::<f32> {
        out_lp_val: vec![-0.1, -0.2, -0.3],
        out_lp_idx: vec![1, 2],
        ..Default::default()
    };
    assert_eq!(chat_logprobs(Some(&extras)).content.unwrap().len(), 2);
}
