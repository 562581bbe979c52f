use rag_engine::context::{assemble_context, join_chunks, truncate_context, MAX_CONTEXT_BYTES};
use rag_engine::decode::{is_end_marker, render_piece, END_OF_TEXT, END_OF_TURN};
use rag_engine::generation::{GenerationError, GenerationState};
use rag_engine::index::QdrantDb;
use rag_engine::prompt::build_prompt;
use rag_engine::rag::{
    collect_texts, complete, embedding_failed, plan_generation, search_failed, Status,
};

fn strings(v: &[&str]) -> Vec<String> {
    v.iter().map(|s| s.to_string()).collect()
}

#[test]
fn two_chunks_join_with_separator() {
    let chunks = strings(&["Revenue was $100B in Q4.", "Costs rose 5%."]);
    let ctx = assemble_context(&chunks, MAX_CONTEXT_BYTES);
    assert_eq!(ctx, "Revenue was $100B in Q4.\n\n---\n\nCosts rose 5%.");
}

#[test]
fn join_of_nothing_is_empty() {
    assert_eq!(join_chunks(&Vec::new()), "");
    assert_eq!(join_chunks(&strings(&["one"])), "one");
}

#[test]
fn short_context_is_unchanged_and_reassembles_to_itself() {
    let chunks = strings(&["a b", "c d."]);
    let first = assemble_context(&chunks, 100);
    assert_eq!(first, "a b\n\n---\n\nc d.");
    let again = assemble_context(&vec![first.clone()], 100);
    assert_eq!(again, first);
}

#[test]
fn long_context_cuts_before_last_sentence_end() {
    let out = truncate_context("One. Two. Three four five", 12);
    assert_eq!(out, "One. Two");
    assert!(out.chars().count() <= 12);
}

#[test]
fn long_context_without_sentence_end_is_cut_hard() {
    assert_eq!(truncate_context("abcdefghij", 4), "abcd");
    assert_eq!(truncate_context("abc", 0), "");
}

#[test]
fn truncation_counts_bytes_and_keeps_characters_whole() {
    assert_eq!(truncate_context("ééééé", 3), "é");
    assert_eq!(truncate_context("ééééé", 4), "éé");
    assert_eq!(truncate_context("aé.éé", 5), "aé");
    assert_eq!(truncate_context("ééééé", 10), "ééééé");
}

#[test]
fn multibyte_context_stays_within_byte_maximum() {
    let wide = "é".repeat(5000);
    let ctx = assemble_context(&vec![wide], MAX_CONTEXT_BYTES);
    assert_eq!(ctx.len(), MAX_CONTEXT_BYTES);
    assert_eq!(ctx.chars().count(), 4000);
}

#[test]
fn oversized_chunks_stay_within_maximum() {
    let big = "x".repeat(9000);
    let ctx = assemble_context(&vec![big], MAX_CONTEXT_BYTES);
    assert_eq!(ctx.chars().count(), MAX_CONTEXT_BYTES);
    let with_stop = format!("{}.{}", "y".repeat(7000), "z".repeat(3000));
    let ctx = assemble_context(&vec![with_stop], MAX_CONTEXT_BYTES);
    assert_eq!(ctx, "y".repeat(7000));
}

#[test]
fn prompt_follows_template() {
    let p = build_prompt("What was revenue?", "ctx");
    assert_eq!(
        p,
        "Below is an instruction that describes a task, paired with an input that provides further context. Write a response that appropriately completes the request.\n\n### Instruction:\nWhat was revenue?\n\n### Input:\nctx\n\n### Response:\n"
    );
}

#[test]
fn pieces_render_markers_as_whitespace() {
    assert_eq!(render_piece("Ġhello"), " hello");
    assert_eq!(render_piece("<0x0A>"), "\n");
    assert_eq!(render_piece("aĠb<0x0A>c<0x0"), "a b\nc<0x0");
    assert_eq!(render_piece(""), "");
}

#[test]
fn end_markers_are_recognised() {
    assert!(is_end_marker(END_OF_TEXT));
    assert!(is_end_marker(END_OF_TURN));
    assert!(is_end_marker(128001));
    assert!(is_end_marker(128009));
    assert!(!is_end_marker(128000));
    assert!(!is_end_marker(42));
}

#[test]
fn decode_state_grows_and_stops_at_end_marker() {
    let mut st = GenerationState::start(vec![1, 2, 3]);
    assert_eq!(st.window_start(0), 0);
    assert!(st.record(10, Some("ĠHi".to_string())));
    assert_eq!(st.window_start(1), 3);
    assert!(st.record(11, None));
    assert!(st.record(12, Some("<0x0A>".to_string())));
    assert!(!st.record(END_OF_TURN, Some("ignored".to_string())));
    assert!(st.stopped);
    assert_eq!(st.tokens, vec![1, 2, 3, 10, 11, 12, END_OF_TURN]);
    assert_eq!(st.output, " Hi\n");
}

#[test]
fn texts_without_payload_are_dropped() {
    let texts = collect_texts(&vec![Some("a".to_string()), None, Some("b".to_string())]);
    assert_eq!(texts, strings(&["a", "b"]));
}

#[test]
fn zero_chunks_still_give_a_prompt() {
    let plan = plan_generation("What was revenue?", &Vec::new());
    assert!(plan.context_used.is_empty());
    assert_eq!(plan.context, "");
    assert_eq!(plan.prompt, build_prompt("What was revenue?", ""));
    assert!(plan.prompt.ends_with("### Input:\n\n\n### Response:\n"));
}

#[test]
fn plan_uses_retrieved_texts() {
    let plan = plan_generation(
        "q",
        &vec![Some("Revenue was $100B in Q4.".to_string()), Some("Costs rose 5%.".to_string())],
    );
    assert_eq!(plan.context_used, strings(&["Revenue was $100B in Q4.", "Costs rose 5%."]));
    assert_eq!(plan.context, "Revenue was $100B in Q4.\n\n---\n\nCosts rose 5%.");
    assert_eq!(plan.prompt, build_prompt("q", &plan.context));
}

#[test]
fn embedding_failure_reports_error_without_time() {
    let r = embedding_failed("model missing");
    assert_eq!(r.status, Status::Error);
    assert_eq!(r.answer, "Embedding Error: model missing");
    assert!(r.answer.contains("Embedding"));
    assert!(r.context_used.is_empty());
    assert_eq!(r.elapsed_micros, 0);
}

#[test]
fn search_failure_reports_error_without_time() {
    let r = search_failed("unreachable");
    assert_eq!(r.status, Status::Error);
    assert_eq!(r.answer, "DB Error: unreachable");
    assert!(r.context_used.is_empty());
    assert_eq!(r.elapsed_micros, 0);
}

#[test]
fn completed_generation_keeps_chunks() {
    let plan = plan_generation("q", &vec![Some("c".to_string())]);
    let r = complete(plan, Ok("answer".to_string()), 1500);
    assert_eq!(r.status, Status::Success);
    assert_eq!(r.answer, "answer");
    assert_eq!(r.context_used, strings(&["c"]));
    assert_eq!(r.elapsed_micros, 1500);
}

#[test]
fn failed_generation_drops_chunks() {
    let plan = plan_generation("q", &vec![Some("c".to_string())]);
    let err = GenerationError::Forward { message: "shape".to_string(), partial: "ab".to_string() };
    let r = complete(plan, Err(err), 7);
    assert_eq!(r.status, Status::Error);
    assert_eq!(r.answer, "Inference Error: shape");
    assert!(r.context_used.is_empty());
    assert_eq!(r.elapsed_micros, 7);
    let tok = GenerationError::Tokenization("Tokenizer produced 0 tokens".to_string());
    assert_eq!(tok.message(), "Tokenizer produced 0 tokens");
}

#[test]
fn index_settings_fall_back_to_defaults() {
    let db = QdrantDb::new(None, None, None);
    assert_eq!(db.url, "http://127.0.0.1:6334");
    assert_eq!(db.collection, "finance_chunks");
    assert!(db.api_key.is_none());
    let db = QdrantDb::new(
        Some("http://h:1".to_string()),
        Some("k".to_string()),
        Some("c".to_string()),
    );
    assert_eq!(db.url, "http://h:1");
    assert_eq!(db.api_key, Some("k".to_string()));
    assert_eq!(db.collection, "c");
}
