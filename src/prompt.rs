use vstd::prelude::*;

verus! {

/// The instruction-tuning preamble, ending in the instruction heading.
pub open spec fn prompt_head() -> Seq<char> {
    "Below is an instruction that describes a task, paired with an input that provides further context. Write a response that appropriately completes the request.\n\n### Instruction:\n"@
}

/// The heading that opens the input section.
pub open spec fn input_heading() -> Seq<char> {
    "\n\n### Input:\n"@
}

/// The marker that cues the model to begin its answer.
pub open spec fn response_marker() -> Seq<char> {
    "\n\n### Response:\n"@
}

/// The rendered prompt for a query and its context.
pub open spec fn prompt_text(query: Seq<char>, context: Seq<char>) -> Seq<char> {
    prompt_head() + query + input_heading() + context + response_marker()
}

/// Renders the instruction template: the query as the instruction, the
/// context as the input, then the response marker.
pub fn build_prompt(query: &str, context: &str) -> (r: String)
    ensures
        r@ == prompt_text(query@, context@),
{
    let mut r = String::from_str(
        "Below is an instruction that describes a task, paired with an input that provides further context. Write a response that appropriately completes the request.\n\n### Instruction:\n",
    );
    r.append(query);
    r.append("\n\n### Input:\n");
    r.append(context);
    r.append("\n\n### Response:\n");
    r
}

} // verus!
