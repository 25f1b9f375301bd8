//! A sequence group: the parallel sequences of one client request, and the
//! rule that hands out one response once all of them have contributed.

use crate::response::ChatCompletionChunkResponse;
use crate::response::ChatCompletionResponse;
use crate::response::Choice;
use crate::response::ChunkChoice;
use crate::response::CompletionChoice;
use crate::response::CompletionChunkChoice;
use crate::response::CompletionChunkResponse;
use crate::response::CompletionResponse;
use crate::response::ImageChoice;
use crate::response::ImageGenerationResponse;
use crate::response::LogprobKey;
use crate::response::Response;
use crate::response::TensorHandle;
use crate::response::clone_handles;
use crate::response::handles_view;
use crate::response::Usage;
use crate::sequence::Sequence;
use crate::text::decimal;
use crate::text::decimal_string;
use std::sync::Arc;
use vstd::prelude::*;
use vstd::string::StringExecFns;

verus! {

/// The fingerprint that every streamed chunk carries.
pub open spec fn system_fingerprint() -> Seq<char> {
    "local"@
}

/// A segment of sound: samples, rate, channels.
pub type SpeechSegment = (Arc<Vec<u32>>, usize, usize);

/// Raw logits of one sequence: the chunks, and the tokens they belong to.
pub type RawChoice = (Vec<TensorHandle>, Vec<u32>);

/// A completion choice with the score by which the best are picked.
pub type ScoredChoice = (LogprobKey, CompletionChoice);

/// What a group has gathered, and how many choices it waits for.
pub struct GroupView {
    pub n_choices: nat,
    pub best_of: Option<usize>,
    pub total_prompt_toks: usize,
    pub total_toks: usize,
    pub total_prompt_time: u128,
    pub total_time: u128,
    pub total_completion_time: u128,
    pub chat_streaming_chunks: Seq<ChunkChoice>,
    pub completion_streaming_chunks: Seq<CompletionChunkChoice>,
    pub is_streaming: bool,
    pub is_chat: bool,
    pub choices: Seq<Choice>,
    pub image_choices: Seq<ImageChoice>,
    pub speech_pcms: Seq<SpeechSegment>,
    pub raw_choices: Seq<RawChoice>,
    pub completion_choices: Seq<ScoredChoice>,
}

impl GroupView {
    /// The group after one more finished chat choice.
    pub open spec fn add_choice(self, choice: Choice) -> GroupView {
        GroupView { choices: self.choices.push(choice), ..self }
    }

    /// The group after one of its sequences failed: one choice fewer is
    /// waited for, never fewer than none.
    pub open spec fn drop_failed_choice(self) -> GroupView {
        GroupView {
            n_choices: if self.n_choices == 0 {
                0
            } else {
                (self.n_choices - 1) as nat
            },
            ..self
        }
    }

    /// The group streams, and every sequence waited for has buffered its
    /// chat chunk for the step under way.
    pub open spec fn chat_step_complete(self) -> bool {
        self.is_streaming && self.chat_streaming_chunks.len() == self.n_choices
    }

    /// The group streams, and every sequence waited for has buffered its
    /// completion chunk for the step under way.
    pub open spec fn completion_step_complete(self) -> bool {
        self.is_streaming && self.completion_streaming_chunks.len() == self.n_choices
    }

    /// Every chat choice waited for is there.
    pub open spec fn chat_done(self) -> bool {
        self.choices.len() == self.n_choices
    }

    /// No kind of result holds more than `limit` items.
    pub open spec fn holds_at_most(self, limit: nat) -> bool {
        &&& self.choices.len() <= limit
        &&& self.image_choices.len() <= limit
        &&& self.speech_pcms.len() <= limit
        &&& self.raw_choices.len() <= limit
        &&& self.completion_choices.len() <= limit
        &&& self.chat_streaming_chunks.len() <= limit
        &&& self.completion_streaming_chunks.len() <= limit
    }

    /// No kind of result holds more items than choices are waited for.
    pub open spec fn within_target(self) -> bool {
        self.holds_at_most(self.n_choices)
    }

    /// A group that waits for `n_choices` choices and has gathered nothing.
    pub open spec fn fresh(
        n_choices: nat,
        is_streaming: bool,
        is_chat: bool,
        best_of: Option<usize>,
    ) -> GroupView {
        GroupView {
            n_choices,
            best_of,
            total_prompt_toks: 0,
            total_toks: 0,
            total_prompt_time: 0,
            total_time: 0,
            total_completion_time: 0,
            chat_streaming_chunks: Seq::empty(),
            completion_streaming_chunks: Seq::empty(),
            is_streaming,
            is_chat,
            choices: Seq::empty(),
            image_choices: Seq::empty(),
            speech_pcms: Seq::empty(),
            raw_choices: Seq::empty(),
            completion_choices: Seq::empty(),
        }
    }
}

/// The sequences of one client request, seen as one.
pub struct SequenceGroup {
    n_choices: usize,
    best_of: Option<usize>,
    total_prompt_toks: usize,
    total_toks: usize,
    total_prompt_time: u128,
    total_time: u128,
    total_completion_time: u128,
    choices: Vec<Choice>,
    image_choices: Vec<ImageChoice>,
    speech_pcms: Vec<SpeechSegment>,
    raw_choices: Vec<RawChoice>,
    completion_choices: Vec<ScoredChoice>,
    chat_streaming_chunks: Vec<ChunkChoice>,
    completion_streaming_chunks: Vec<CompletionChunkChoice>,
    is_streaming: bool,
    is_chat: bool,
}

impl View for SequenceGroup {
    type V = GroupView;

    closed spec fn view(&self) -> GroupView {
        GroupView {
            n_choices: self.n_choices as nat,
            best_of: self.best_of,
            total_prompt_toks: self.total_prompt_toks,
            total_toks: self.total_toks,
            total_prompt_time: self.total_prompt_time,
            total_time: self.total_time,
            total_completion_time: self.total_completion_time,
            chat_streaming_chunks: self.chat_streaming_chunks@,
            completion_streaming_chunks: self.completion_streaming_chunks@,
            is_streaming: self.is_streaming,
            is_chat: self.is_chat,
            choices: self.choices@,
            image_choices: self.image_choices@,
            speech_pcms: self.speech_pcms@,
            raw_choices: self.raw_choices@,
            completion_choices: self.completion_choices@,
        }
    }
}

/// One more pointer to what `a` points to, by `Arc::clone`. Believed of it:
/// the new pointer points to the same value.
#[verifier::external_body]
fn arc_clone<T>(a: &Arc<T>) -> (b: Arc<T>)
    ensures
        b == *a,
{
    Arc::clone(a)
}

impl SequenceGroup {
    /// A group that waits for `n_choices` choices and has gathered nothing.
    pub fn new(n_choices: usize, is_streaming: bool, is_chat: bool, best_of: Option<usize>) -> (group:
        Self)
        ensures
            group@ == GroupView::fresh(n_choices as nat, is_streaming, is_chat, best_of),
    {
        SequenceGroup {
            choices: Vec::new(),
            image_choices: Vec::new(),
            speech_pcms: Vec::new(),
            raw_choices: Vec::new(),
            completion_choices: Vec::new(),
            n_choices,
            total_prompt_toks: 0,
            total_toks: 0,
            total_prompt_time: 0,
            total_time: 0,
            total_completion_time: 0,
            chat_streaming_chunks: Vec::new(),
            completion_streaming_chunks: Vec::new(),
            is_streaming,
            is_chat,
            best_of,
        }
    }

    /// How many choices the group waits for.
    pub fn n_choices(&self) -> (n: usize)
        ensures
            n == self@.n_choices,
    {
        self.n_choices
    }

    /// One choice fewer is waited for, since a sequence failed; never fewer
    /// than none.
    pub fn drop_failed_choice(&mut self)
        ensures
            final(self)@ == old(self)@.drop_failed_choice(),
    {
        self.n_choices = self.n_choices.saturating_sub(1);
    }

    pub fn get_choices(&self) -> (choices: &[Choice])
        ensures
            choices@ == self@.choices,
    {
        self.choices.as_slice()
    }

    pub fn get_raw_choices(&self) -> (choices: &[RawChoice])
        ensures
            choices@ == self@.raw_choices,
    {
        self.raw_choices.as_slice()
    }

    pub fn get_speech_pcms(&self) -> (segments: &[SpeechSegment])
        ensures
            segments@ == self@.speech_pcms,
    {
        self.speech_pcms.as_slice()
    }

    pub fn get_image_choices(&self) -> (choices: &[ImageChoice])
        ensures
            choices@ == self@.image_choices,
    {
        self.image_choices.as_slice()
    }

    /// The usage gathered so far: the tokens of the completion are those
    /// beyond the prompt.
    pub fn get_usage(&self) -> (usage: Usage)
        ensures
            usage == (Usage {
                completion_tokens: if self@.total_toks >= self@.total_prompt_toks {
                    (self@.total_toks - self@.total_prompt_toks) as usize
                } else {
                    0
                },
                prompt_tokens: self@.total_prompt_toks,
                total_tokens: self@.total_toks,
                total_time: self@.total_time,
                total_prompt_time: self@.total_prompt_time,
                total_completion_time: self@.total_completion_time,
            }),
    {
        Usage {
            completion_tokens: self.total_toks.saturating_sub(self.total_prompt_toks),
            prompt_tokens: self.total_prompt_toks,
            total_tokens: self.total_toks,
            total_time: self.total_time,
            total_prompt_time: self.total_prompt_time,
            total_completion_time: self.total_completion_time,
        }
    }

    /// Takes a finished chat choice.
    pub fn add_choice(&mut self, choice: Choice)
        ensures
            final(self)@ == old(self)@.add_choice(choice),
    {
        self.choices.push(choice);
    }

    /// Takes a generated image.
    pub fn add_image_choice(&mut self, choice: ImageChoice)
        ensures
            final(self)@ == (GroupView {
                image_choices: old(self)@.image_choices.push(choice),
                ..old(self)@
            }),
    {
        self.image_choices.push(choice);
    }

    /// Takes a segment of sound.
    pub fn add_speech_pcm(&mut self, pcm: Arc<Vec<u32>>, rate: usize, channels: usize)
        ensures
            final(self)@ == (GroupView {
                speech_pcms: old(self)@.speech_pcms.push((pcm, rate, channels)),
                ..old(self)@
            }),
    {
        self.speech_pcms.push((pcm, rate, channels));
    }

    /// Takes the raw logits of a sequence.
    pub fn add_raw_choice(&mut self, logit_chunks: Vec<TensorHandle>, tokens: Vec<u32>)
        ensures
            final(self)@ == (GroupView {
                raw_choices: old(self)@.raw_choices.push((logit_chunks, tokens)),
                ..old(self)@
            }),
    {
        self.raw_choices.push((logit_chunks, tokens));
    }

    /// Takes a finished text completion with its score.
    pub fn add_completion_choice(&mut self, score: LogprobKey, choice: CompletionChoice)
        ensures
            final(self)@ == (GroupView {
                completion_choices: old(self)@.completion_choices.push((score, choice)),
                ..old(self)@
            }),
    {
        self.completion_choices.push((score, choice));
    }

    /// The finished chat response, once every choice waited for is there.
    pub fn maybe_send_chat_done_response(&self, response: ChatCompletionResponse) -> (message:
        Option<Response>)
        ensures
            message == if self@.chat_done() {
                Some(Response::Done(response))
            } else {
                None
            },
    {
        if self.choices.len() == self.n_choices {
            Some(Response::Done(response))
        } else {
            None
        }
    }

    /// The generated images, once every choice waited for is there.
    pub fn maybe_send_image_gen_response(&self, response: ImageGenerationResponse) -> (message:
        Option<Response>)
        ensures
            message == if self@.image_choices.len() == self@.n_choices {
                Some(Response::ImageGeneration(response))
            } else {
                None
            },
    {
        if self.image_choices.len() == self.n_choices {
            Some(Response::ImageGeneration(response))
        } else {
            None
        }
    }

    /// The finished completion response, once every choice waited for is
    /// there.
    pub fn maybe_send_completion_done_response(&self, response: CompletionResponse) -> (message:
        Option<Response>)
        ensures
            message == if self@.completion_choices.len() == self@.n_choices {
                Some(Response::CompletionDone(response))
            } else {
                None
            },
    {
        if self.completion_choices.len() == self.n_choices {
            Some(Response::CompletionDone(response))
        } else {
            None
        }
    }

    /// The sound of a speech request, which has exactly one producer.
    pub fn maybe_send_speech_response(&self) -> (message: Response)
        requires
            self@.speech_pcms.len() == 1,
        ensures
            message == (Response::Speech {
                pcm: self@.speech_pcms[0].0,
                rate: self@.speech_pcms[0].1,
                channels: self@.speech_pcms[0].2,
            }),
    {
        let segment = &self.speech_pcms[0];
        Response::Speech { pcm: arc_clone(&segment.0), rate: segment.1, channels: segment.2 }
    }

    pub fn is_streaming(&self) -> (streaming: bool)
        ensures
            streaming == self@.is_streaming,
    {
        self.is_streaming
    }

    pub fn is_chat(&self) -> (chat: bool)
        ensures
            chat == self@.is_chat,
    {
        self.is_chat
    }

    /// The chat chunks buffered for the step that is under way.
    pub fn chat_streaming_chunks(&self) -> (chunks: &[ChunkChoice])
        ensures
            chunks@ == self@.chat_streaming_chunks,
    {
        self.chat_streaming_chunks.as_slice()
    }

    /// The completion chunks buffered for the step that is under way.
    pub fn completion_streaming_chunks(&self) -> (chunks: &[CompletionChunkChoice])
        ensures
            chunks@ == self@.completion_streaming_chunks,
    {
        self.completion_streaming_chunks.as_slice()
    }

    /// Buffers the chat chunk of one sequence for the step under way.
    pub fn add_streaming_chunk_choice(&mut self, chunk: ChunkChoice)
        ensures
            final(self)@ == (GroupView {
                chat_streaming_chunks: old(self)@.chat_streaming_chunks.push(chunk),
                ..old(self)@
            }),
    {
        self.chat_streaming_chunks.push(chunk);
    }

    /// Buffers the completion chunk of one sequence for the step under way.
    pub fn add_streaming_completion_chunk_choice(&mut self, chunk: CompletionChunkChoice)
        ensures
            final(self)@ == (GroupView {
                completion_streaming_chunks: old(self)@.completion_streaming_chunks.push(chunk),
                ..old(self)@
            }),
    {
        self.completion_streaming_chunks.push(chunk);
    }

    /// Records what the sequence that contributed last has used. The time of
    /// the prompt and of the completion are kept as they are where
    /// `prompt_times` holds none.
    pub fn record_usage(
        &mut self,
        total_prompt_toks: usize,
        total_toks: usize,
        total_time: u128,
        prompt_times: Option<(u128, u128)>,
    )
        ensures
            final(self)@ == (GroupView {
                total_prompt_toks,
                total_toks,
                total_time,
                total_prompt_time: match prompt_times {
                    Some(times) => times.0,
                    None => old(self)@.total_prompt_time,
                },
                total_completion_time: match prompt_times {
                    Some(times) => times.1,
                    None => old(self)@.total_completion_time,
                },
                ..old(self)@
            }),
    {
        match prompt_times {
            Some(times) => {
                self.total_prompt_time = times.0;
                self.total_completion_time = times.1;
            },
            None => {},
        }
        self.total_time = total_time;
        self.total_prompt_toks = total_prompt_toks;
        self.total_toks = total_toks;
    }

    /// The raw logits, once every choice waited for is there. A request for
    /// raw logits has one sequence.
    pub fn maybe_send_raw_done_response(&self) -> (message: Option<Response>)
        requires
            self@.raw_choices.len() == self@.n_choices ==> self@.n_choices == 1,
        ensures
            self@.raw_choices.len() != self@.n_choices ==> message is None,
            self@.raw_choices.len() == self@.n_choices ==> (message matches Some(
                Response::Raw { logits_chunks, tokens },
            ) && handles_view(logits_chunks@) == handles_view(self@.raw_choices[0].0@) && tokens@
                == self@.raw_choices[0].1@),
    {
        if self.raw_choices.len() == self.n_choices {
            let first = &self.raw_choices[0];
            Some(Response::Raw { logits_chunks: clone_handles(&first.0), tokens: first.1.clone() })
        } else {
            None
        }
    }

    /// The chunks of one streaming step as one message, once every sequence
    /// waited for has buffered its chunk; the buffer is empty again after.
    /// Chat chunks go first. A group that does not stream hands out nothing.
    pub fn maybe_send_streaming_response(
        &mut self,
        seq: &Sequence,
        model: String,
        usage_opt: Option<Usage>,
    ) -> (message: Option<Response>)
        ensures
            old(self)@.chat_step_complete() ==> {
                &&& message matches Some(Response::Chunk(chunk))
                &&& chunk.id@ == decimal(seq@.id as nat)
                &&& chunk.choices@ == old(self)@.chat_streaming_chunks
                &&& chunk.created == seq@.timestamp
                &&& chunk.model == model
                &&& chunk.system_fingerprint@ == system_fingerprint()
                &&& chunk.object@ == "chat.completion.chunk"@
                &&& chunk.usage == usage_opt
                &&& final(self)@ == (GroupView {
                    chat_streaming_chunks: Seq::empty(),
                    ..old(self)@
                })
            },
            !old(self)@.chat_step_complete() && old(self)@.completion_step_complete() ==> {
                &&& message matches Some(Response::CompletionChunk(chunk))
                &&& chunk.id@ == decimal(seq@.id as nat)
                &&& chunk.choices@ == old(self)@.completion_streaming_chunks
                &&& chunk.created == seq@.timestamp
                &&& chunk.model == model
                &&& chunk.system_fingerprint@ == system_fingerprint()
                &&& chunk.object@ == "text_completion"@
                &&& final(self)@ == (GroupView {
                    completion_streaming_chunks: Seq::empty(),
                    ..old(self)@
                })
            },
            !old(self)@.chat_step_complete() && !old(self)@.completion_step_complete() ==> message
                is None && final(self)@ == old(self)@,
    {
        if self.chat_streaming_chunks.len() == self.n_choices && self.is_streaming {
            let mut chunks: Vec<ChunkChoice> = Vec::new();
            std::mem::swap(&mut chunks, &mut self.chat_streaming_chunks);
            Some(
                Response::Chunk(
                    ChatCompletionChunkResponse {
                        id: decimal_string(*seq.id()),
                        choices: chunks,
                        created: seq.timestamp(),
                        model,
                        system_fingerprint: String::from_str("local"),
                        object: String::from_str("chat.completion.chunk"),
                        usage: usage_opt,
                    },
                ),
            )
        } else if self.completion_streaming_chunks.len() == self.n_choices && self.is_streaming {
            let mut chunks: Vec<CompletionChunkChoice> = Vec::new();
            std::mem::swap(&mut chunks, &mut self.completion_streaming_chunks);
            Some(
                Response::CompletionChunk(
                    CompletionChunkResponse {
                        id: decimal_string(*seq.id()),
                        choices: chunks,
                        created: seq.timestamp(),
                        model,
                        system_fingerprint: String::from_str("local"),
                        object: String::from_str("text_completion"),
                    },
                ),
            )
        } else {
            None
        }
    }

    /// The completion choices to hand out: all of them in the order in which
    /// they came, or, where `best_of` is set, that many of the best by
    /// score, best first.
    pub fn get_completion_choices(&self) -> (choices: Vec<CompletionChoice>)
        ensures
            choices@ == selected_choices(self@.completion_choices, self@.best_of),
    {
        let n = self.completion_choices.len();
        let ghost scored = self.completion_choices@;
        let mut choices: Vec<CompletionChoice> = Vec::new();
        match self.best_of {
            Some(best_of) => {
                let mut order: Vec<usize> = Vec::new();
                let mut i: usize = 0;
                while i < n
                    invariant
                        i <= n,
                        n == scored.len(),
                        scored == self.completion_choices@,
                        order.len() == i,
                        forall|p: int| 0 <= p < i ==> (#[trigger] order[p]) < i,
                        Seq::new(i as nat, |p: int| scored[order[p] as int]) == ranked_by_score(
                            scored.take(i as int),
                        ),
                    decreases n - i,
                {
                    let ghost ranked = ranked_by_score(scored.take(i as int));
                    let score = self.completion_choices[i].0;
                    let mut p: usize = i;
                    while p > 0 && self.completion_choices[order[p - 1]].0 < score
                        invariant
                            p <= i,
                            i < n,
                            n == scored.len(),
                            scored == self.completion_choices@,
                            order.len() == i,
                            score == scored[i as int].0,
                            forall|q: int| 0 <= q < i ==> (#[trigger] order[q]) < i,
                            ranked == Seq::new(i as nat, |q: int| scored[order[q] as int]),
                            forall|q: int| p <= q < i ==> (#[trigger] ranked[q]).0 < score,
                        decreases p,
                    {
                        p = p - 1;
                    }
                    proof {
                        lemma_insert_by_score_at(ranked, scored[i as int], p as int);
                        assert(scored.take(i + 1).drop_last() == scored.take(i as int));
                    }
                    order.insert(p, i);
                    i = i + 1;
                }
                assert(scored.take(n as int) == scored);
                let ghost ranked = ranked_by_score(scored);
                let keep = if best_of < n {
                    best_of
                } else {
                    n
                };
                let mut p: usize = 0;
                while p < keep
                    invariant
                        p <= keep <= n,
                        n == scored.len(),
                        scored == self.completion_choices@,
                        order.len() == n,
                        forall|q: int| 0 <= q < n ==> (#[trigger] order[q]) < n,
                        ranked == Seq::new(n as nat, |q: int| scored[order[q] as int]),
                        choices.len() == p,
                        forall|q: int| 0 <= q < p ==> (#[trigger] choices[q]) == ranked[q].1,
                    decreases keep - p,
                {
                    choices.push(self.completion_choices[order[p]].1.clone());
                    p = p + 1;
                }
            },
            None => {
                let mut i: usize = 0;
                while i < n
                    invariant
                        i <= n,
                        n == scored.len(),
                        scored == self.completion_choices@,
                        choices.len() == i,
                        forall|q: int| 0 <= q < i ==> (#[trigger] choices[q]) == scored[q].1,
                    decreases n - i,
                {
                    choices.push(self.completion_choices[i].1.clone());
                    i = i + 1;
                }
            },
        }
        choices
    }
}

/// `ranked` with `item` put behind every entry whose score is no less than
/// its own.
pub open spec fn insert_by_score<T>(ranked: Seq<(LogprobKey, T)>, item: (LogprobKey, T)) -> Seq<
    (LogprobKey, T),
>
    decreases ranked.len(),
{
    if ranked.len() > 0 && ranked.last().0 < item.0 {
        insert_by_score(ranked.drop_last(), item).push(ranked.last())
    } else {
        ranked.push(item)
    }
}

/// The entries by score, greatest first; entries of one score stay in the
/// order in which they came.
pub open spec fn ranked_by_score<T>(scored: Seq<(LogprobKey, T)>) -> Seq<(LogprobKey, T)>
    decreases scored.len(),
{
    if scored.len() == 0 {
        Seq::empty()
    } else {
        insert_by_score(ranked_by_score(scored.drop_last()), scored.last())
    }
}

/// What is handed out of scored entries: all of them as they came, or, with
/// `best_of`, that many from the front of their ranking.
pub open spec fn selected_choices<T>(scored: Seq<(LogprobKey, T)>, best_of: Option<usize>) -> Seq<
    T,
> {
    let kept = match best_of {
        Some(k) => if k < ranked_by_score(scored).len() {
            ranked_by_score(scored).take(k as int)
        } else {
            ranked_by_score(scored)
        },
        None => scored,
    };
    Seq::new(kept.len(), |i: int| kept[i].1)
}

/// The place at which `insert_by_score` puts an entry is the one behind the
/// last entry whose score is no less.
pub proof fn lemma_insert_by_score_at<T>(
    ranked: Seq<(LogprobKey, T)>,
    item: (LogprobKey, T),
    p: int,
)
    requires
        0 <= p <= ranked.len(),
        forall|q: int| p <= q < ranked.len() ==> (#[trigger] ranked[q]).0 < item.0,
        p > 0 ==> ranked[p - 1].0 >= item.0,
    ensures
        insert_by_score(ranked, item) == ranked.insert(p, item),
    decreases ranked.len(),
{
    if ranked.len() > 0 && ranked.last().0 < item.0 {
        let front = ranked.drop_last();
        lemma_insert_by_score_at(front, item, p);
    } else {
    }
}

/// Ranking keeps every entry: the ranking is as long as what was ranked.
pub proof fn lemma_ranked_len<T>(scored: Seq<(LogprobKey, T)>)
    ensures
        ranked_by_score(scored).len() == scored.len(),
    decreases scored.len(),
{
    if scored.len() > 0 {
        lemma_ranked_len(scored.drop_last());
        lemma_insert_by_score_len(ranked_by_score(scored.drop_last()), scored.last());
    }
}

/// Inserting adds one entry.
pub proof fn lemma_insert_by_score_len<T>(ranked: Seq<(LogprobKey, T)>, item: (LogprobKey, T))
    ensures
        insert_by_score(ranked, item).len() == ranked.len() + 1,
    decreases ranked.len(),
{
    if ranked.len() > 0 && ranked.last().0 < item.0 {
        lemma_insert_by_score_len(ranked.drop_last(), item);
    }
}

/// Where `insert_by_score` puts an entry of the given score: behind the
/// last entry whose score is no less.
pub open spec fn insert_position<T>(ranked: Seq<(LogprobKey, T)>, score: LogprobKey) -> int
    decreases ranked.len(),
{
    if ranked.len() > 0 && ranked.last().0 < score {
        insert_position(ranked.drop_last(), score)
    } else {
        ranked.len() as int
    }
}

/// Before the insert position no score is less, behind it every score is.
pub proof fn lemma_insert_position<T>(ranked: Seq<(LogprobKey, T)>, item: (LogprobKey, T))
    ensures
        0 <= insert_position(ranked, item.0) <= ranked.len(),
        forall|q: int|
            insert_position(ranked, item.0) <= q < ranked.len() ==> (#[trigger] ranked[q]).0
                < item.0,
        insert_position(ranked, item.0) > 0 ==> ranked[insert_position(ranked, item.0) - 1].0
            >= item.0,
        insert_by_score(ranked, item) == ranked.insert(insert_position(ranked, item.0), item),
    decreases ranked.len(),
{
    let p = insert_position(ranked, item.0);
    if ranked.len() > 0 && ranked.last().0 < item.0 {
        let front = ranked.drop_last();
        lemma_insert_position(front, item);
        assert forall|q: int| p <= q < ranked.len() implies (#[trigger] ranked[q]).0
            < item.0 by {
            if q < front.len() {
                assert(ranked[q] == front[q]);
            }
        }
    }
    lemma_insert_by_score_at(ranked, item, p);
}

/// No entry stands before one of a greater score.
pub open spec fn descending<T>(ranked: Seq<(LogprobKey, T)>) -> bool {
    forall|i: int, j: int| 0 <= i < j < ranked.len() ==> ranked[i].0 >= ranked[j].0
}

/// The ranking is by score, greatest first.
pub proof fn lemma_ranked_descending<T>(scored: Seq<(LogprobKey, T)>)
    ensures
        descending(ranked_by_score(scored)),
    decreases scored.len(),
{
    if scored.len() > 0 {
        let ranked = ranked_by_score(scored.drop_last());
        let item = scored.last();
        lemma_ranked_descending(scored.drop_last());
        lemma_insert_position(ranked, item);
    }
}

/// The ranking holds what was ranked, each entry as often as it came.
pub proof fn lemma_ranked_is_permutation<T>(scored: Seq<(LogprobKey, T)>)
    ensures
        ranked_by_score(scored).to_multiset() == scored.to_multiset(),
    decreases scored.len(),
{
    broadcast use vstd::seq_lib::group_to_multiset_ensures;

    if scored.len() > 0 {
        let front = scored.drop_last();
        let ranked = ranked_by_score(front);
        let item = scored.last();
        lemma_ranked_is_permutation(front);
        lemma_insert_position(ranked, item);
        assert(front.push(item) == scored);
    }
}

/// Entries of one score stand in the ranking in the order in which they
/// came.
pub proof fn lemma_ranked_keeps_ties_in_order<T>(scored: Seq<(LogprobKey, T)>, score: LogprobKey)
    ensures
        ranked_by_score(scored).filter(|e: (LogprobKey, T)| e.0 == score) == scored.filter(
            |e: (LogprobKey, T)| e.0 == score,
        ),
    decreases scored.len(),
{
    let same = |e: (LogprobKey, T)| e.0 == score;
    if scored.len() > 0 {
        let front = scored.drop_last();
        let item = scored.last();
        lemma_ranked_keeps_ties_in_order(front, score);
        lemma_insert_keeps_ties_in_order(ranked_by_score(front), item, score);
        assert(front.push(item) == scored);
        front.lemma_filter_push(item, same);
    }
}

/// An entry put into a ranking comes to stand behind the entries of its own
/// score, and leaves the order of the others as it was.
pub proof fn lemma_insert_keeps_ties_in_order<T>(
    ranked: Seq<(LogprobKey, T)>,
    item: (LogprobKey, T),
    score: LogprobKey,
)
    ensures
        insert_by_score(ranked, item).filter(|e: (LogprobKey, T)| e.0 == score) == if item.0
            == score {
            ranked.filter(|e: (LogprobKey, T)| e.0 == score).push(item)
        } else {
            ranked.filter(|e: (LogprobKey, T)| e.0 == score)
        },
    decreases ranked.len(),
{
    let same = |e: (LogprobKey, T)| e.0 == score;
    if ranked.len() > 0 && ranked.last().0 < item.0 {
        let front = ranked.drop_last();
        lemma_insert_keeps_ties_in_order(front, item, score);
        insert_by_score(front, item).lemma_filter_push(ranked.last(), same);
        assert(front.push(ranked.last()) == ranked);
        front.lemma_filter_push(ranked.last(), same);
    } else {
        ranked.lemma_filter_push(item, same);
    }
}

/// What happens to a group while its sequences run: one contributes its
/// chat choice, or one fails.
pub enum GroupEvent {
    Contributed(Choice),
    Failed,
}

/// The group after the events, in their order.
pub open spec fn after_events(group: GroupView, events: Seq<GroupEvent>) -> GroupView
    decreases events.len(),
{
    if events.len() == 0 {
        group
    } else {
        let before = after_events(group, events.drop_last());
        match events.last() {
            GroupEvent::Contributed(choice) => before.add_choice(choice),
            GroupEvent::Failed => before.drop_failed_choice(),
        }
    }
}

/// How many of the events are failures.
pub open spec fn count_failed(events: Seq<GroupEvent>) -> nat
    decreases events.len(),
{
    if events.len() == 0 {
        0
    } else {
        count_failed(events.drop_last()) + if events.last() is Failed {
            1nat
        } else {
            0nat
        }
    }
}

/// In whatever order sequences contribute and fail, the group holds one
/// choice for each that contributed and waits for one choice fewer for each
/// that failed. Where the sequences that contribute or fail are no more
/// than the group has room for, it never holds more than it waits for.
pub proof fn lemma_events_counted(group: GroupView, events: Seq<GroupEvent>)
    ensures
        after_events(group, events).choices.len() == group.choices.len() + events.len()
            - count_failed(events),
        after_events(group, events).n_choices == if count_failed(events) <= group.n_choices {
            group.n_choices - count_failed(events)
        } else {
            0
        },
        count_failed(events) <= events.len(),
        forall|held: nat|
            group.holds_at_most(held) && held + events.len() <= group.n_choices ==> after_events(
                group,
                events,
            ).holds_at_most((held + events.len() - count_failed(events)) as nat) && after_events(
                group,
                events,
            ).within_target(),
    decreases events.len(),
{
    if events.len() > 0 {
        lemma_events_counted(group, events.drop_last());
    }
}

/// The group after the chat choices of `arrivals`, in their order.
pub open spec fn after_choices(group: GroupView, arrivals: Seq<Choice>) -> GroupView
    decreases arrivals.len(),
{
    if arrivals.len() == 0 {
        group
    } else {
        after_choices(group, arrivals.drop_last()).add_choice(arrivals.last())
    }
}

/// A group that has gathered nothing hands out its finished chat response
/// after exactly as many contributions as it waits for, whatever is
/// contributed and in whatever order: not before, and not again after.
pub proof fn lemma_chat_done_exactly_once(group: GroupView, arrivals: Seq<Choice>)
    requires
        group.choices.len() == 0,
    ensures
        after_choices(group, arrivals).chat_done() <==> arrivals.len() == group.n_choices,
        after_choices(group, arrivals).n_choices == group.n_choices,
        after_choices(group, arrivals).choices == arrivals,
    decreases arrivals.len(),
{
    if arrivals.len() > 0 {
        lemma_chat_done_exactly_once(group, arrivals.drop_last());
    } else {
    }
}

/// The group after the chat chunks of `arrivals` were buffered, in their
/// order.
pub open spec fn after_chunks(group: GroupView, arrivals: Seq<ChunkChoice>) -> GroupView
    decreases arrivals.len(),
{
    if arrivals.len() == 0 {
        group
    } else {
        let before = after_chunks(group, arrivals.drop_last());
        GroupView {
            chat_streaming_chunks: before.chat_streaming_chunks.push(arrivals.last()),
            ..before
        }
    }
}

/// A streaming step goes out after exactly as many chunks as the group
/// waits for: a group that streams and whose buffer is empty, as it is
/// after every step that went out, has its step complete after that many
/// chunks, not before and not after.
pub proof fn lemma_chat_step_goes_out_once(group: GroupView, arrivals: Seq<ChunkChoice>)
    requires
        group.is_streaming,
        group.chat_streaming_chunks.len() == 0,
    ensures
        after_chunks(group, arrivals).chat_step_complete() <==> arrivals.len() == group.n_choices,
        after_chunks(group, arrivals).chat_streaming_chunks == arrivals,
        after_chunks(group, arrivals) == (GroupView { chat_streaming_chunks: arrivals, ..group }),
    decreases arrivals.len(),
{
    if arrivals.len() > 0 {
        lemma_chat_step_goes_out_once(group, arrivals.drop_last());
        assert(arrivals.drop_last().push(arrivals.last()) == arrivals);
    } else {
        assert(group.chat_streaming_chunks == arrivals);
    }
}

} // verus!
