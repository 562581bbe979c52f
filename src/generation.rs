use vstd::prelude::*;
use vstd::slice::slice_subrange;
use candle_core::{Device, Tensor};
use candle_transformers::generation::LogitsProcessor;
use candle_transformers::models::quantized_llama::ModelWeights;
use tokenizers::Tokenizer;
use crate::decode::{is_end_marker, is_end_marker_spec, render_piece, rendered};

verus! {

// The model's tensors, devices, weights, sampler and tokenizer are carried
// through opaquely; candle's error type appears in the tensor's operator impls.
#[verifier::external_type_specification]
#[verifier::external_body]
pub struct ExTensor(Tensor);

#[verifier::external_type_specification]
#[verifier::external_body]
pub struct ExCandleError(candle_core::Error);

#[verifier::external_type_specification]
#[verifier::external_body]
pub struct ExDevice(Device);

#[verifier::external_type_specification]
#[verifier::external_body]
pub struct ExModelWeights(ModelWeights);

#[verifier::external_type_specification]
#[verifier::external_body]
pub struct ExLogitsProcessor(LogitsProcessor);

#[verifier::external_type_specification]
#[verifier::external_body]
pub struct ExTokenizer(Tokenizer);

/// Relies on tokenizers' `Tokenizer::id_to_token`: the vocabulary piece of an id.
#[verifier::external_body]
fn id_to_piece(tokenizer: &Tokenizer, id: u32) -> (r: Option<String>) {
    tokenizer.id_to_token(id)
}

/// Relies on candle's `Device::Cpu`.
#[verifier::external_body]
fn cpu_device() -> (r: Device) {
    Device::Cpu
}

/// Relies on candle's `Tensor::squeeze`.
#[verifier::external_body]
fn squeeze_front(t: &Tensor) -> (r: Result<Tensor, String>) {
    t.squeeze(0).map_err(|e| e.to_string())
}

/// Relies on candle's `Tensor::rank`.
#[verifier::external_body]
fn tensor_rank(t: &Tensor) -> (r: usize) {
    t.rank()
}

/// Relies on candle's `Tensor::dims2`: the two dimensions of a matrix.
#[verifier::external_body]
fn tensor_dims2(t: &Tensor) -> (r: Result<(usize, usize), String>) {
    t.dims2().map_err(|e| e.to_string())
}

/// Relies on candle's `Tensor::get`: the row at an index.
#[verifier::external_body]
fn tensor_row(t: &Tensor, i: usize) -> (r: Result<Tensor, String>) {
    t.get(i).map_err(|e| e.to_string())
}

/// Relies on candle's `Tensor::new` and `Tensor::unsqueeze`, then
/// candle-transformers' quantized llama `ModelWeights::forward`: logits for a
/// batch of one holding the ids, placed at `offset`, updating the model's cache.
#[verifier::external_body]
fn model_forward(model: &mut ModelWeights, ids: &[u32], offset: usize, device: &Device) -> (r:
    Result<Tensor, String>)
    requires
        ids@.len() > 0,
{
    let input = Tensor::new(ids, device).and_then(|t| t.unsqueeze(0)).map_err(|e| e.to_string())?;
    model.forward(&input, offset).map_err(|e| e.to_string())
}

/// A tensor of logits together with its dimensions.
pub struct Logits {
    tensor: Tensor,
    dims: Ghost<Seq<usize>>,
}

impl Logits {
    /// The dimensions of the tensor.
    pub closed spec fn shape(&self) -> Seq<usize> {
        self.dims@
    }
}

/// Relies on candle's `Tensor::dims`: the tensor, with its dimensions both
/// recorded and returned.
#[verifier::external_body]
fn with_dims(t: Tensor) -> (r: (Logits, Vec<usize>))
    ensures
        r.0.shape() == r.1@,
{
    let dims = t.dims().to_vec();
    (Logits { tensor: t, dims: Ghost(dims@) }, dims)
}

/// Relies on candle-transformers' `LogitsProcessor::sample`: the next token
/// id drawn from a non-empty row of logits, advancing the sampler's state.
#[verifier::external_body]
fn sample_token(sampler: &mut LogitsProcessor, logits: &Logits) -> (r: Result<u32, String>)
    requires
        logits.shape().len() == 1,
        logits.shape()[0] > 0,
{
    sampler.sample(&logits.tensor).map_err(|e| e.to_string())
}

/// Why a generation call failed.
pub enum GenerationError {
    /// The prompt could not be tokenized, or gave no tokens.
    Tokenization(String),
    /// A forward pass or sampling step failed; the text produced so far is kept.
    Forward { message: String, partial: String },
}

impl GenerationError {
    pub open spec fn message_view(&self) -> Seq<char> {
        match self {
            GenerationError::Tokenization(m) => m@,
            GenerationError::Forward { message, .. } => message@,
        }
    }

    /// A readable description of the failure.
    pub fn message(&self) -> (r: String)
        ensures
            r@ == self.message_view(),
    {
        match self {
            GenerationError::Tokenization(m) => m.clone(),
            GenerationError::Forward { message, .. } => message.clone(),
        }
    }
}

/// The text of a run of vocabulary pieces: each present piece rendered, in order.
pub open spec fn text_of(pieces: Seq<Option<Seq<char>>>) -> Seq<char>
    decreases pieces.len(),
{
    if pieces.len() == 0 {
        Seq::empty()
    } else {
        text_of(pieces.drop_last()) + match pieces.last() {
            Some(p) => rendered(p),
            None => Seq::<char>::empty(),
        }
    }
}

/// The characters of an optional piece.
pub open spec fn piece_view(piece: Option<String>) -> Option<Seq<char>> {
    match piece {
        Some(p) => Some(p@),
        None => None,
    }
}

/// The state of one decode: the token sequence (prompt then generated ids),
/// the output text, whether an end marker was drawn, and the vocabulary
/// pieces looked up for the tokens emitted so far.
pub struct GenerationState {
    pub tokens: Vec<u32>,
    pub prompt_len: usize,
    pub output: String,
    pub stopped: bool,
    pub pieces: Ghost<Seq<Option<Seq<char>>>>,
}

impl GenerationState {
    /// The ids generated after the prompt.
    pub open spec fn generated(&self) -> Seq<u32> {
        self.tokens@.subrange(self.prompt_len as int, self.tokens@.len() as int)
    }

    /// The prompt is non-empty; no generated id but the last is an end marker;
    /// the state is stopped exactly when the last generated id is one; each
    /// other generated id has its piece, and the output is their text.
    pub open spec fn wf(&self) -> bool {
        &&& 0 < self.prompt_len <= self.tokens@.len()
        &&& forall|i: int|
            0 <= i < self.generated().len() - 1 ==> !is_end_marker_spec(
                #[trigger] self.generated()[i],
            )
        &&& self.stopped == (self.generated().len() > 0 && is_end_marker_spec(
            self.generated().last(),
        ))
        &&& self.pieces@.len() + (if self.stopped { 1int } else { 0int })
            == self.generated().len()
        &&& self.output@ == text_of(self.pieces@)
    }

    /// A fresh decode over a non-empty prompt.
    pub fn start(prompt_ids: Vec<u32>) -> (r: Self)
        requires
            prompt_ids@.len() > 0,
        ensures
            r.wf(),
            r.tokens@ == prompt_ids@,
            r.prompt_len == prompt_ids@.len(),
            r.output@.len() == 0,
            r.generated().len() == 0,
    {
        let n = prompt_ids.len();
        let r = GenerationState {
            tokens: prompt_ids,
            prompt_len: n,
            output: String::new(),
            stopped: false,
            pieces: Ghost(Seq::empty()),
        };
        assert(r.generated().len() == 0);
        r
    }

    /// Where the input of the forward pass at `step` begins: the whole
    /// sequence on the first step, the newest token after that. The same
    /// position is the offset at which the model places that input.
    pub fn window_start(&self, step: usize) -> (r: usize)
        requires
            self.tokens@.len() > 0,
        ensures
            step == 0 ==> r == 0,
            step > 0 ==> r == self.tokens@.len() - 1,
    {
        if step == 0 {
            0
        } else {
            self.tokens.len() - 1
        }
    }

    /// Appends a sampled id. An end marker stops the decode and adds no text;
    /// any other id adds the rendered text of its vocabulary piece. Returns
    /// whether decoding goes on.
    pub fn record(&mut self, id: u32, piece: Option<String>) -> (r: bool)
        requires
            old(self).wf(),
            !old(self).stopped,
        ensures
            final(self).wf(),
            final(self).tokens@ == old(self).tokens@.push(id),
            final(self).prompt_len == old(self).prompt_len,
            final(self).generated() == old(self).generated().push(id),
            final(self).stopped == is_end_marker_spec(id),
            r == !is_end_marker_spec(id),
            is_end_marker_spec(id) ==> final(self).output@ == old(self).output@,
            !is_end_marker_spec(id) ==> final(self).output@ == old(self).output@ + match piece {
                Some(p) => rendered(p@),
                None => Seq::<char>::empty(),
            },
    {
        self.tokens.push(id);
        proof {
            assert(self.generated() =~= old(self).generated().push(id));
        }
        if is_end_marker(id) {
            self.stopped = true;
            return false;
        }
        let ghost view = piece_view(piece);
        match &piece {
            Some(p) => {
                let text = render_piece(p.as_str());
                self.output.append(text.as_str());
            },
            None => {
                assert(self.output@ + Seq::<char>::empty() =~= self.output@);
            },
        }
        self.pieces = Ghost(self.pieces@.push(view));
        proof {
            assert(self.pieces@.drop_last() =~= old(self).pieces@);
        }
        true
    }
}

/// `st` is a finished decode of the prompt `ids`: at most `sample_len` ids
/// generated, fewer only when it stopped at an end marker, with one forward
/// pass per generated id.
pub open spec fn finished_decode(st: GenerationState, ids: Seq<u32>, sample_len: nat, passes: int) -> bool {
    &&& st.wf()
    &&& st.prompt_len == ids.len()
    &&& st.tokens@.subrange(0, st.prompt_len as int) == ids
    &&& st.generated().len() <= sample_len
    &&& st.generated().len() < sample_len ==> st.stopped
    &&& passes == st.generated().len()
}

/// `st` is a decode of the prompt `ids`, not yet stopped and short of
/// `sample_len`, whose next forward pass or draw failed: one pass more than
/// the ids generated.
pub open spec fn failed_decode(st: GenerationState, ids: Seq<u32>, sample_len: nat, passes: int) -> bool {
    &&& st.wf()
    &&& st.prompt_len == ids.len()
    &&& st.tokens@.subrange(0, st.prompt_len as int) == ids
    &&& !st.stopped
    &&& st.generated().len() < sample_len
    &&& passes == st.generated().len() + 1
}

/// The loaded model, tokenizer and sampler, shared by all requests and used
/// by one decode at a time.
pub struct TextGeneration {
    model: ModelWeights,
    tokenizer: Tokenizer,
    logits_processor: LogitsProcessor,
    device: Device,
    passes: Ghost<nat>,
}

impl TextGeneration {
    /// How many forward passes this engine has run.
    pub closed spec fn forward_passes(&self) -> nat {
        self.passes@
    }

    /// An engine over loaded weights, a tokenizer and a seeded sampler, on the CPU.
    pub fn new(model: ModelWeights, tokenizer: Tokenizer, logits_processor: LogitsProcessor) -> (r:
        Self)
        ensures
            r.forward_passes() == 0,
    {
        TextGeneration {
            model,
            tokenizer,
            logits_processor,
            device: cpu_device(),
            passes: Ghost(0),
        }
    }

    /// Logits of the last position, whether the model returned one row or a matrix.
    fn last_position(logits: Tensor) -> (r: Result<Tensor, String>) {
        let logits = squeeze_front(&logits)?;
        if tensor_rank(&logits) == 1 {
            Ok(logits)
        } else {
            let (seq_len, _) = tensor_dims2(&logits)?;
            if seq_len == 0 {
                return Err(String::from_str("logits hold no position"));
            }
            tensor_row(&logits, seq_len - 1)
        }
    }

    /// One forward pass and one draw: the next token id after the input
    /// window that starts at `start`.
    fn next_token(&mut self, tokens: &Vec<u32>, start: usize) -> (r: Result<u32, String>)
        requires
            start < tokens@.len(),
        ensures
            final(self).forward_passes() == old(self).forward_passes() + 1,
    {
        self.passes = Ghost(self.passes@ + 1);
        let input = slice_subrange(tokens.as_slice(), start, tokens.len());
        let logits = model_forward(&mut self.model, input, start, &self.device)?;
        let last = Self::last_position(logits)?;
        let (last, dims) = with_dims(last);
        if dims.len() != 1 || dims[0] == 0 {
            return Err(String::from_str("logits are not a non-empty row"));
        }
        sample_token(&mut self.logits_processor, &last)
    }

    /// Decodes up to `sample_len` tokens after a non-empty prompt, one forward
    /// pass per token, stopping early at an end marker.
    pub fn decode(&mut self, prompt_ids: Vec<u32>, sample_len: usize) -> (r: Result<
        GenerationState,
        GenerationError,
    >)
        requires
            prompt_ids@.len() > 0,
        ensures
            final(self).forward_passes() <= old(self).forward_passes() + sample_len,
            sample_len == 0 ==> r is Ok,
            match r {
                Ok(st) => finished_decode(
                    st,
                    prompt_ids@,
                    sample_len as nat,
                    final(self).forward_passes() - old(self).forward_passes(),
                ),
                Err(GenerationError::Forward { partial, .. }) => exists|st: GenerationState|
                    #[trigger] failed_decode(
                        st,
                        prompt_ids@,
                        sample_len as nat,
                        final(self).forward_passes() - old(self).forward_passes(),
                    ) && st.output@ == partial@,
                Err(GenerationError::Tokenization(_)) => false,
            },
    {
        let ghost prompt = prompt_ids@;
        let mut st = GenerationState::start(prompt_ids);
        let mut index: usize = 0;
        while index < sample_len
            invariant
                st.wf(),
                index <= sample_len,
                prompt == prompt_ids@,
                st.prompt_len == prompt.len(),
                st.tokens@.subrange(0, st.prompt_len as int) == prompt,
                st.generated().len() == index,
                !st.stopped,
                index == 0 ==> st.output@.len() == 0,
                self.passes@ == old(self).passes@ + index,
            decreases sample_len - index,
        {
            let start = st.window_start(index);
            let ghost snapshot = st;
            let next = match self.next_token(&st.tokens, start) {
                Ok(id) => id,
                Err(message) => {
                    proof {
                        assert(failed_decode(
                            snapshot,
                            prompt_ids@,
                            sample_len as nat,
                            self.forward_passes() - old(self).forward_passes(),
                        ));
                    }
                    return Err(GenerationError::Forward { message, partial: st.output });
                },
            };
            let ghost before = st.tokens@;
            let piece = if is_end_marker(next) {
                None
            } else {
                id_to_piece(&self.tokenizer, next)
            };
            let go_on = st.record(next, piece);
            proof {
                assert(st.tokens@.subrange(0, st.prompt_len as int) =~= before.subrange(
                    0,
                    st.prompt_len as int,
                ));
            }
            index = index + 1;
            if !go_on {
                return Ok(st);
            }
        }
        Ok(st)
    }

    /// The tokenizer that turns prompts into ids for `run`.
    pub fn tokenizer(&self) -> (r: &Tokenizer) {
        &self.tokenizer
    }

    /// Generates from a tokenized prompt: an empty sequence of ids is a
    /// tokenization failure and runs no forward pass; otherwise up to
    /// `sample_len` ids are drawn, stopping at the first end marker, and the
    /// result is the rendered text of the ids drawn before it.
    pub fn run(&mut self, prompt_ids: Vec<u32>, sample_len: usize) -> (r: Result<
        String,
        GenerationError,
    >)
        ensures
            final(self).forward_passes() <= old(self).forward_passes() + sample_len,
            prompt_ids@.len() == 0 <==> r matches Err(GenerationError::Tokenization(_)),
            prompt_ids@.len() == 0 ==> final(self).forward_passes() == old(self).forward_passes(),
            (prompt_ids@.len() > 0 && sample_len == 0) ==> r is Ok && r->Ok_0@.len() == 0,
            match r {
                Ok(text) => exists|st: GenerationState|
                    #[trigger] finished_decode(
                        st,
                        prompt_ids@,
                        sample_len as nat,
                        final(self).forward_passes() - old(self).forward_passes(),
                    ) && st.output@ == text@,
                Err(GenerationError::Forward { partial, .. }) => exists|st: GenerationState|
                    #[trigger] failed_decode(
                        st,
                        prompt_ids@,
                        sample_len as nat,
                        final(self).forward_passes() - old(self).forward_passes(),
                    ) && st.output@ == partial@,
                Err(GenerationError::Tokenization(_)) => true,
            },
    {
        if prompt_ids.len() == 0 {
            return Err(GenerationError::Tokenization(String::from_str("Tokenizer produced 0 tokens")));
        }
        match self.decode(prompt_ids, sample_len) {
            Ok(st) => Ok(st.output),
            Err(e) => Err(e),
        }
    }
}

} // verus!
