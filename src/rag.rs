use vstd::prelude::*;
use crate::context::{assemble_context, assembled, utf8_len, MAX_CONTEXT_BYTES};
use crate::generation::GenerationError;
use crate::prompt::{build_prompt, prompt_text};

verus! {

/// How many chunks a request retrieves.
pub const TOP_K: usize = 3;

/// How many tokens a request may generate.
pub const MAX_NEW_TOKENS: usize = 512;

/// Whether a request produced an answer.
#[derive(Clone, Copy, Debug, PartialEq, Eq, Structural)]
pub enum Status {
    Success,
    Error,
}

/// The answer to one request: the text, the chunks it was grounded in, the
/// time it took in microseconds, and whether it succeeded.
pub struct RagResponse {
    pub answer: String,
    pub context_used: Vec<String>,
    pub elapsed_micros: u64,
    pub status: Status,
}

/// What a request hands to generation: the chunk texts it uses, the
/// assembled context and the rendered prompt.
pub struct GenerationPlan {
    pub context_used: Vec<String>,
    pub context: String,
    pub prompt: String,
}

pub open spec fn views(v: Seq<String>) -> Seq<Seq<char>> {
    v.map_values(|c: String| c@)
}

/// The texts of the retrieved points that carry one, in order.
pub open spec fn kept(p: Seq<Option<String>>) -> Seq<Seq<char>>
    decreases p.len(),
{
    if p.len() == 0 {
        Seq::empty()
    } else {
        match p.last() {
            Some(s) => kept(p.drop_last()).push(s@),
            None => kept(p.drop_last()),
        }
    }
}

/// Keeps the texts of the retrieved points, dropping points without one.
pub fn collect_texts(payload_texts: &Vec<Option<String>>) -> (r: Vec<String>)
    ensures
        views(r@) == kept(payload_texts@),
{
    let mut out: Vec<String> = Vec::new();
    let mut i: usize = 0;
    while i < payload_texts.len()
        invariant
            i <= payload_texts.len(),
            views(out@) == kept(payload_texts@.take(i as int)),
        decreases payload_texts.len() - i,
    {
        let ghost before = out@;
        proof {
            assert(payload_texts@.take(i as int + 1).drop_last() =~= payload_texts@.take(i as int));
        }
        match &payload_texts[i] {
            Some(s) => {
                out.push(s.clone());
                proof {
                    assert(views(out@) =~= views(before).push(s@));
                }
            },
            None => {},
        }
        i = i + 1;
    }
    proof {
        assert(payload_texts@.take(payload_texts.len() as int) =~= payload_texts@);
    }
    out
}

/// Turns the retrieved points into the context and prompt for generation.
pub fn plan_generation(query: &str, payload_texts: &Vec<Option<String>>) -> (r: GenerationPlan)
    ensures
        views(r.context_used@) == kept(payload_texts@),
        r.context@ == assembled(kept(payload_texts@), MAX_CONTEXT_BYTES as nat),
        utf8_len(r.context@) <= MAX_CONTEXT_BYTES,
        r.prompt@ == prompt_text(query@, r.context@),
{
    let texts = collect_texts(payload_texts);
    let context = assemble_context(&texts, MAX_CONTEXT_BYTES);
    let prompt = build_prompt(query, context.as_str());
    GenerationPlan { context_used: texts, context, prompt }
}

pub open spec fn embedding_failure_prefix() -> Seq<char> {
    "Embedding Error: "@
}

pub open spec fn search_failure_prefix() -> Seq<char> {
    "DB Error: "@
}

pub open spec fn inference_failure_prefix() -> Seq<char> {
    "Inference Error: "@
}

/// The response when the query could not be embedded: no chunks, no time.
pub fn embedding_failed(message: &str) -> (r: RagResponse)
    ensures
        r.answer@ == embedding_failure_prefix() + message@,
        r.context_used@.len() == 0,
        r.elapsed_micros == 0,
        r.status == Status::Error,
{
    let mut answer = String::from_str("Embedding Error: ");
    answer.append(message);
    RagResponse { answer, context_used: Vec::new(), elapsed_micros: 0, status: Status::Error }
}

/// The response when the index could not be searched: no chunks, no time.
pub fn search_failed(message: &str) -> (r: RagResponse)
    ensures
        r.answer@ == search_failure_prefix() + message@,
        r.context_used@.len() == 0,
        r.elapsed_micros == 0,
        r.status == Status::Error,
{
    let mut answer = String::from_str("DB Error: ");
    answer.append(message);
    RagResponse { answer, context_used: Vec::new(), elapsed_micros: 0, status: Status::Error }
}

/// The response once generation has finished: the answer with the chunks
/// used on success, the failure's message and no chunks otherwise.
pub fn complete(plan: GenerationPlan, result: Result<String, GenerationError>, elapsed_micros: u64) -> (r:
    RagResponse)
    ensures
        r.elapsed_micros == elapsed_micros,
        match result {
            Ok(a) => {
                &&& r.answer@ == a@
                &&& r.context_used@ == plan.context_used@
                &&& r.status == Status::Success
            },
            Err(e) => {
                &&& r.answer@ == inference_failure_prefix() + e.message_view()
                &&& r.context_used@.len() == 0
                &&& r.status == Status::Error
            },
        },
{
    match result {
        Ok(answer) => RagResponse {
            answer,
            context_used: plan.context_used,
            elapsed_micros,
            status: Status::Success,
        },
        Err(e) => {
            let mut answer = String::from_str("Inference Error: ");
            let m = e.message();
            answer.append(m.as_str());
            RagResponse { answer, context_used: Vec::new(), elapsed_micros, status: Status::Error }
        },
    }
}

} // verus!
