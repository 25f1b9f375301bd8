//! What a request hands back to its client: the choices that its sequences
//! contribute, and the messages that carry them.

use std::sync::Arc;
use vstd::prelude::*;

verus! {

/// A log-probability, held as an integer that orders as the log-probability
/// does: of two keys the greater stands for the greater log-probability.
pub type LogprobKey = i64;

/// A tensor that the model runner keeps, as a sequence sees it: the number
/// under which the runner finds it, and its extent along each dimension.
pub struct TensorHandle {
    pub id: u64,
    pub dims: Vec<usize>,
}

impl View for TensorHandle {
    type V = (u64, Seq<usize>);

    open spec fn view(&self) -> (u64, Seq<usize>) {
        (self.id, self.dims@)
    }
}

impl Clone for TensorHandle {
    fn clone(&self) -> (copy: Self)
        ensures
            copy@ == self@,
    {
        TensorHandle { id: self.id, dims: self.dims.clone() }
    }
}

/// What each of the handles stands for.
pub open spec fn handles_view(handles: Seq<TensorHandle>) -> Seq<(u64, Seq<usize>)> {
    Seq::new(handles.len(), |i: int| handles[i]@)
}

/// A copy of each handle.
pub fn clone_handles(handles: &Vec<TensorHandle>) -> (copy: Vec<TensorHandle>)
    ensures
        handles_view(copy@) == handles_view(handles@),
{
    let mut copy: Vec<TensorHandle> = Vec::new();
    let mut i: usize = 0;
    while i < handles.len()
        invariant
            i <= handles.len(),
            copy.len() == i,
            forall|j: int| 0 <= j < i ==> (#[trigger] copy[j])@ == handles[j]@,
        decreases handles.len() - i,
    {
        copy.push(handles[i].clone());
        i = i + 1;
    }
    copy
}

/// One of the likeliest tokens at a position.
pub struct TopLogprob {
    pub token: u32,
    pub logprob: LogprobKey,
    pub bytes: Option<String>,
}

/// A token as the sampler hands it over: the token, its log-probability,
/// the text it stands for, and the likeliest tokens at its position.
pub struct SampledToken {
    pub token: u32,
    pub logprob: LogprobKey,
    pub bytes: Option<String>,
    pub top_logprobs: Option<Vec<TopLogprob>>,
}

/// A generated token with its log-probability.
pub struct ResponseLogprob {
    pub token: String,
    pub logprob: LogprobKey,
    pub bytes: Option<Vec<u8>>,
    pub top_logprobs: Vec<TopLogprob>,
}

/// The log-probabilities of a whole choice.
pub struct Logprobs {
    pub content: Option<Vec<ResponseLogprob>>,
}

/// A chat message of the model.
pub struct ResponseMessage {
    pub content: Option<String>,
    pub role: String,
}

/// The part of a chat message that one streaming step adds.
pub struct Delta {
    pub content: Option<String>,
    pub role: String,
}

/// One finished chat completion.
pub struct Choice {
    pub finish_reason: String,
    pub index: usize,
    pub message: ResponseMessage,
    pub logprobs: Option<Logprobs>,
}

/// One streaming step of a chat completion.
pub struct ChunkChoice {
    pub finish_reason: Option<String>,
    pub index: usize,
    pub delta: Delta,
    pub logprobs: Option<ResponseLogprob>,
}

/// One finished text completion.
pub struct CompletionChoice {
    pub finish_reason: String,
    pub index: usize,
    pub text: String,
}

impl Clone for CompletionChoice {
    fn clone(&self) -> (copy: Self)
        ensures
            copy == *self,
    {
        CompletionChoice {
            finish_reason: self.finish_reason.clone(),
            index: self.index,
            text: self.text.clone(),
        }
    }
}

/// One streaming step of a text completion.
pub struct CompletionChunkChoice {
    pub text: String,
    pub index: usize,
    pub logprobs: Option<ResponseLogprob>,
    pub finish_reason: Option<String>,
}

/// One generated image: where it lies, or its bytes in base 64.
pub struct ImageChoice {
    pub url: Option<String>,
    pub b64_json: Option<String>,
}

/// What a request has used: tokens counted, and time in milliseconds.
#[derive(Clone, Copy, PartialEq, Eq, Structural, Debug)]
pub struct Usage {
    pub completion_tokens: usize,
    pub prompt_tokens: usize,
    pub total_tokens: usize,
    pub total_time: u128,
    pub total_prompt_time: u128,
    pub total_completion_time: u128,
}

/// The answer to a chat request.
pub struct ChatCompletionResponse {
    pub id: String,
    pub choices: Vec<Choice>,
    pub created: u64,
    pub model: String,
    pub system_fingerprint: String,
    pub object: String,
    pub usage: Usage,
}

/// One streaming step of the answer to a chat request.
pub struct ChatCompletionChunkResponse {
    pub id: String,
    pub choices: Vec<ChunkChoice>,
    pub created: u128,
    pub model: String,
    pub system_fingerprint: String,
    pub object: String,
    pub usage: Option<Usage>,
}

/// The answer to a completion request.
pub struct CompletionResponse {
    pub id: String,
    pub choices: Vec<CompletionChoice>,
    pub created: u64,
    pub model: String,
    pub system_fingerprint: String,
    pub object: String,
    pub usage: Usage,
}

/// One streaming step of the answer to a completion request.
pub struct CompletionChunkResponse {
    pub id: String,
    pub choices: Vec<CompletionChunkChoice>,
    pub created: u128,
    pub model: String,
    pub system_fingerprint: String,
    pub object: String,
}

/// The answer to a request for images.
pub struct ImageGenerationResponse {
    pub created: u128,
    pub data: Vec<ImageChoice>,
}

/// A message to the client of a request.
pub enum Response {
    Done(ChatCompletionResponse),
    Chunk(ChatCompletionChunkResponse),
    CompletionDone(CompletionResponse),
    CompletionChunk(CompletionChunkResponse),
    ImageGeneration(ImageGenerationResponse),
    /// Sound: samples as the bits of 32-bit floats, with rate and channels.
    Speech { pcm: Arc<Vec<u32>>, rate: usize, channels: usize },
    /// Raw logits, chunk by chunk, with the tokens they belong to.
    Raw { logits_chunks: Vec<TensorHandle>, tokens: Vec<u32> },
}

} // verus!
