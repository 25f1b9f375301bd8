//! A sequence: one stream of generation, with its tokens, its cache slots,
//! its block table, the text it has produced and the state it is in.

use crate::blocks::blocks_hold;
use crate::blocks::blocks_to_add_new_tok;
use crate::blocks::lemma_append_keeps_paged;
use crate::blocks::lemma_extend_keeps_paged;
use crate::blocks::lemma_remove_keeps_paged;
use crate::blocks::table_append;
use crate::blocks::table_blocks_to_add;
use crate::blocks::table_extend;
use crate::blocks::table_paged;
use crate::blocks::table_remove;
use crate::blocks::table_tokens;
use crate::blocks::table_view;
use crate::blocks::blocks_wf;
use crate::blocks::BlockView;
use crate::blocks::LogicalTokenBlock;
use crate::blocks::PhysicalTokenBlock;
use crate::blocks::SequenceCustomMetadata;
use crate::group::GroupView;
use crate::group::SequenceGroup;
use crate::multimodal::audio_digests;
use crate::multimodal::audio_views;
use crate::multimodal::image_views;
use crate::multimodal::image_digests;
use crate::multimodal::AudioInput;
use crate::multimodal::DiffusionGenerationParams;
use crate::multimodal::ImageGenerationResponseFormat;
use crate::multimodal::ImageInput;
use crate::multimodal::MultimodalData;
use crate::response::Choice;
use crate::response::ChunkChoice;
use crate::response::CompletionChoice;
use crate::response::CompletionChunkChoice;
use crate::response::ImageChoice;
use crate::response::LogprobKey;
use crate::response::Response;
use crate::response::SampledToken;
use crate::response::TensorHandle;
use crate::stop::evaluate_stop;
use crate::stop::stop_decision;
use crate::stop::stop_string_bytes;
use crate::stop::SeqStepType;
use crate::stop::SequenceState;
use crate::stop::StopReason;
use crate::text::decode_delta;
use crate::text::option_text;
use crate::text::pending_delta;
use crate::text::pending_text;
use vstd::utf8::valid_utf8;
use std::sync::Arc;
use tokio::sync::mpsc::Sender;
use vstd::prelude::*;
use vstd::string::StringExecFns;

verus! {

/// A matcher of `llguidance`, which holds the state of a grammar while a
/// sequence is generated. Nothing is claimed of it: the sequence carries it
/// for the sampler and never looks inside.
#[verifier::external_type_specification]
#[verifier::external_body]
pub struct ExMatcher(llguidance::Matcher);

/// The sending half of a bounded channel of `tokio`. Nothing is claimed of
/// it: the sequence carries it for whoever sends the responses.
#[verifier::external_type_specification]
#[verifier::external_body]
#[verifier::reject_recursive_types(T)]
pub struct ExSender<T>(tokio::sync::mpsc::Sender<T>);

/// One more handle on a channel, by `Sender::clone`. Believed of it: the
/// new handle is a handle on the same channel, which is all that there is
/// to tell of a handle here.
#[verifier::external_body]
fn sender_clone(sender: &Sender<Response>) -> (handle: Sender<Response>)
    ensures
        handle == *sender,
{
    sender.clone()
}

/// What constrains the tokens of a sequence, if anything does.
pub enum SequenceRecognizer {
    Llguidance(Box<llguidance::Matcher>),
    Absent,
}

/// The keys and the values cached for one layer.
pub type KvPair = (TensorHandle, TensorHandle);

/// The cache of one layer as the model runner keeps it between passes.
pub struct KvCache {
    pub k: TensorHandle,
    pub v: TensorHandle,
}

/// The token ids of `toks` as the block table holds them.
pub open spec fn token_ids(toks: Seq<u32>) -> Seq<usize> {
    Seq::new(toks.len(), |i: int| toks[i] as usize)
}

/// What a sequence is.
pub struct SequenceView {
    pub id: usize,
    pub prompt_len: usize,
    pub max_len: Option<usize>,
    pub timestamp: u128,
    pub stop_tokens: Seq<u32>,
    pub stop_strings: Seq<String>,
    pub return_logprobs: bool,
    pub responder: Sender<Response>,
    pub response_index: usize,
    pub creation_time: u64,
    pub prompt: String,
    pub sequence_stepping_type: SeqStepType,
    pub return_raw_logits: bool,
    pub token_offset: usize,
    pub eos_tokens: Seq<u32>,
    pub multimodal: MultimodalData,
    pub suffix: Option<String>,
    pub prefix: Option<String>,
    pub is_tmp: bool,
    pub prefill_prompt_toks: Option<Seq<u32>>,
    pub normal_cache: Seq<Option<KvCache>>,
    pub normal_draft_cache: Seq<Option<KvCache>>,
    pub scaling_cache: Option<TensorHandle>,
    pub cache: Seq<Option<KvPair>>,
    pub draft_cache: Seq<Option<KvPair>>,
    pub xlora_cache: Option<Seq<Option<KvPair>>>,
    pub seq_preallocated_cache: Option<KvPair>,
    pub tokens: Seq<u32>,
    pub logprobs: Seq<SampledToken>,
    pub last_logprob: LogprobKey,
    pub last_completion_bytes_len: usize,
    pub last_is_done: Option<StopReason>,
    pub completion_bytes: Seq<u8>,
    pub stream_idx: usize,
    pub recognizer: SequenceRecognizer,
    pub scheduling_urgency: usize,
    pub waitlisted_count: usize,
    pub prompt_timestamp: Option<u128>,
    pub total_prompt_time: Option<u128>,
    pub state: SequenceState,
    /// The capacity of a block, where block-based caching is on.
    pub block_size: Option<usize>,
    /// The block table; empty where block-based caching is off.
    pub block_table: Seq<BlockView>,
    /// The physical blocks assigned for a prefill and not yet taken.
    pub physical_blocks_prefill: Option<Vec<Arc<PhysicalTokenBlock>>>,
}

impl SequenceView {
    /// How many tokens were generated: those beyond the prompt.
    pub open spec fn generated_len(self) -> nat {
        if self.tokens.len() >= self.prompt_len {
            (self.tokens.len() - self.prompt_len) as nat
        } else {
            0
        }
    }

    /// The keys cached for layer 0 in adapter-mixing mode, if any.
    pub open spec fn xlora_slot(self) -> Option<KvPair> {
        if self.xlora_cache is Some && self.xlora_cache->0.len() > 0 {
            self.xlora_cache->0[0]
        } else {
            None
        }
    }

    /// What is cached for layer 0, if anything.
    pub open spec fn cache_slot(self) -> Option<KvPair> {
        if self.cache.len() > 0 {
            self.cache[0]
        } else {
            None
        }
    }

    /// Whether the length is that of the tokens held, and no cache or
    /// override decides it.
    pub open spec fn len_is_token_count(self) -> bool {
        self.prefill_prompt_toks is None && (self.is_tmp || (self.xlora_slot() is None
            && self.cache_slot() is None))
    }

    /// The length can be computed: where a cached tensor decides it, the
    /// tensor has a third dimension, and one more than its extent there is
    /// still a length.
    pub open spec fn len_defined(self) -> bool {
        self.prefill_prompt_toks is None && !self.is_tmp ==> match self.xlora_slot() {
            Some((keys, _)) => keys.dims@.len() > 2 && keys.dims@[2] < usize::MAX,
            None => match self.cache_slot() {
                Some((_, values)) => values.dims@.len() > 2 && values.dims@[2] < usize::MAX,
                None => true,
            },
        }
    }

    /// The length of the sequence as the model sees it: that of a prefill
    /// override where one is set; else, for a draft under verification, the
    /// number of tokens; else one more than what is cached for layer 0, the
    /// adapter-mixing cache first; else the number of tokens.
    pub open spec fn len(self) -> nat {
        if self.prefill_prompt_toks is Some {
            self.prefill_prompt_toks->0.len()
        } else if self.is_tmp {
            self.tokens.len()
        } else {
            match self.xlora_slot() {
                Some((keys, _)) => (keys.dims@[2] + 1) as nat,
                None => match self.cache_slot() {
                    Some((_, values)) => (values.dims@[2] + 1) as nat,
                    None => self.tokens.len(),
                },
            }
        }
    }

    /// The tokens that the next pass runs on: those of a prefill override
    /// where one is set, else all.
    pub open spec fn toks(self) -> Seq<u32> {
        match self.prefill_prompt_toks {
            Some(toks) => toks,
            None => self.tokens,
        }
    }

    /// The block table after one more token; empty as before where
    /// block-based caching is off.
    pub open spec fn table_with(self, tok: u32) -> Seq<BlockView> {
        match self.block_size {
            Some(block_size) => table_append(self.block_table, tok as usize, block_size as nat),
            None => self.block_table,
        }
    }

    /// The sequence after a generated token was recorded. The bytes of a
    /// token that ends the text are kept out of the text; any prefill
    /// override is gone.
    pub open spec fn with_token(
        self,
        tok: SampledToken,
        completion_bytes: Seq<u8>,
        is_done: Option<StopReason>,
    ) -> SequenceView {
        let kept_out = is_done is Some && is_done->0.is_token_stop();
        SequenceView {
            logprobs: self.logprobs.push(tok),
            last_logprob: tok.logprob,
            completion_bytes: if kept_out {
                self.completion_bytes
            } else {
                self.completion_bytes + completion_bytes
            },
            last_completion_bytes_len: if kept_out {
                self.last_completion_bytes_len
            } else {
                completion_bytes.len() as usize
            },
            last_is_done: is_done,
            tokens: self.tokens.push(tok.token),
            prefill_prompt_toks: None,
            block_table: self.table_with(tok.token),
            ..self
        }
    }

    /// What `get_delta` would hand out now.
    pub open spec fn delta(self) -> Option<Seq<char>> {
        pending_delta(self.completion_bytes, self.stream_idx as nat)
    }

    /// The bytes of the text that were not handed out yet.
    pub open spec fn pending_bytes(self) -> Seq<u8> {
        self.completion_bytes.skip(self.stream_idx as int)
    }

    /// The sequence after `get_delta`: where text was handed out, the cursor
    /// stands behind the bytes.
    pub open spec fn after_delta(self) -> SequenceView {
        if self.delta() is Some {
            SequenceView { stream_idx: self.completion_bytes.len() as usize, ..self }
        } else {
            self
        }
    }

    /// Whether generation stops after `tok`, and why.
    pub open spec fn stop_after(
        self,
        tok: u32,
        eos_tokens: Option<Seq<u32>>,
        max_model_len: usize,
    ) -> Option<StopReason> {
        stop_decision(
            tok,
            eos_tokens,
            self.state.is_canceled(),
            self.stop_tokens,
            self.generated_len(),
            self.max_len,
            max_model_len,
            stop_string_bytes(self.stop_strings),
            self.completion_bytes,
        )
    }

    /// What always holds of a sequence: each kind of cache has one slot per
    /// layer; the block table, where there is one, holds exactly the tokens
    /// of the sequence, in full blocks and a last one with room; the cursor
    /// stands within the text.
    pub open spec fn wf(self) -> bool {
        &&& self.draft_cache.len() == self.cache.len()
        &&& self.normal_cache.len() == self.cache.len()
        &&& self.normal_draft_cache.len() == self.cache.len()
        &&& self.xlora_cache is Some ==> self.xlora_cache->0.len() == self.cache.len()
        &&& self.stream_idx <= self.completion_bytes.len()
        &&& match self.block_size {
            Some(block_size) => {
                &&& blocks_wf(self.block_table)
                &&& table_paged(self.block_table, block_size as nat)
                &&& table_tokens(self.block_table) == token_ids(self.tokens)
            },
            None => self.block_table.len() == 0 && self.physical_blocks_prefill is None,
        }
    }

    /// The group after this sequence has contributed at the time `now`: the
    /// group's counts of tokens and its times are those of this sequence.
    pub open spec fn usage_recorded(self, group: GroupView, now: u128) -> GroupView {
        GroupView {
            total_prompt_toks: self.prompt_len,
            total_toks: self.len() as usize,
            total_time: (now - self.timestamp) as u128,
            total_prompt_time: match self.prompt_timestamp {
                Some(_) => self.total_prompt_time->0,
                None => group.total_prompt_time,
            },
            total_completion_time: match self.prompt_timestamp {
                Some(since) => (now - since) as u128,
                None => group.total_completion_time,
            },
            ..group
        }
    }

    /// The sequence can record its usage at the time `now`: its length can
    /// be computed, `now` is not before its timestamps, and where the prompt
    /// was timed the time it took is known.
    pub open spec fn can_record_usage(self, now: u128) -> bool {
        &&& self.len_defined()
        &&& now >= self.timestamp
        &&& self.prompt_timestamp is Some ==> now >= self.prompt_timestamp->0
            && self.total_prompt_time is Some
    }

    /// The text of a completion as it is handed out: between the prefix
    /// and the suffix of the request, where it has them.
    pub open spec fn framed(self, text: Seq<char>) -> Seq<char> {
        let prefix = match self.prefix {
            Some(prefix) => prefix@,
            None => Seq::empty(),
        };
        let suffix = match self.suffix {
            Some(suffix) => suffix@,
            None => Seq::empty(),
        };
        prefix + text + suffix
    }

    /// The sequence after the tokens of `events` were recorded, in order.
    pub open spec fn with_tokens(
        self,
        events: Seq<(SampledToken, Seq<u8>, Option<StopReason>)>,
    ) -> SequenceView
        decreases events.len(),
    {
        if events.len() == 0 {
            self
        } else {
            self.with_tokens(events.drop_last()).with_token(
                events.last().0,
                events.last().1,
                events.last().2,
            )
        }
    }

    /// Whether `table` can take the place of the block table: it holds
    /// exactly the tokens of the sequence, in full blocks and a last one
    /// with room. A sequence without block-based caching takes any.
    pub open spec fn accepts_blocks(self, table: Seq<BlockView>) -> bool {
        self.block_size is Some ==> {
            &&& blocks_wf(table)
            &&& table_paged(table, self.block_size->0 as nat)
            &&& table_tokens(table) == token_ids(self.tokens)
        }
    }

    /// How many layers the sequence has cache slots for.
    pub open spec fn layers(self) -> nat {
        self.cache.len()
    }
}

/// One generation stream.
pub struct Sequence {
    id: usize,
    prompt_len: usize,
    max_len: Option<usize>,
    timestamp: u128,
    stop_tokens: Vec<u32>,
    stop_strings: Vec<String>,
    return_logprobs: bool,
    responder: Sender<Response>,
    response_index: usize,
    creation_time: u64,
    prompt: String,
    sequence_stepping_type: SeqStepType,
    return_raw_logits: bool,
    token_offset: usize,
    eos_tokens: Vec<u32>,
    multimodal: MultimodalData,
    suffix: Option<String>,
    prefix: Option<String>,
    is_tmp: bool,
    prefill_prompt_toks: Option<Vec<u32>>,
    normal_cache: Vec<Option<KvCache>>,
    normal_draft_cache: Vec<Option<KvCache>>,
    scaling_cache: Option<TensorHandle>,
    cache: Vec<Option<KvPair>>,
    draft_cache: Vec<Option<KvPair>>,
    xlora_cache: Option<Vec<Option<KvPair>>>,
    seq_preallocated_cache: Option<KvPair>,
    tokens: Vec<u32>,
    logprobs: Vec<SampledToken>,
    last_logprob: LogprobKey,
    last_completion_bytes_len: usize,
    last_is_done: Option<StopReason>,
    completion_bytes: Vec<u8>,
    stream_idx: usize,
    recognizer: SequenceRecognizer,
    scheduling_urgency: usize,
    waitlisted_count: usize,
    prompt_timestamp: Option<u128>,
    total_prompt_time: Option<u128>,
    state: SequenceState,
    custom_metadata: SequenceCustomMetadata,
}

impl View for Sequence {
    type V = SequenceView;

    closed spec fn view(&self) -> SequenceView {
        SequenceView {
            id: self.id,
            prompt_len: self.prompt_len,
            max_len: self.max_len,
            timestamp: self.timestamp,
            stop_tokens: self.stop_tokens@,
            stop_strings: self.stop_strings@,
            return_logprobs: self.return_logprobs,
            responder: self.responder,
            response_index: self.response_index,
            creation_time: self.creation_time,
            prompt: self.prompt,
            sequence_stepping_type: self.sequence_stepping_type,
            return_raw_logits: self.return_raw_logits,
            token_offset: self.token_offset,
            eos_tokens: self.eos_tokens@,
            multimodal: self.multimodal,
            suffix: self.suffix,
            prefix: self.prefix,
            is_tmp: self.is_tmp,
            prefill_prompt_toks: match self.prefill_prompt_toks {
                Some(toks) => Some(toks@),
                None => None,
            },
            normal_cache: self.normal_cache@,
            normal_draft_cache: self.normal_draft_cache@,
            scaling_cache: self.scaling_cache,
            cache: self.cache@,
            draft_cache: self.draft_cache@,
            xlora_cache: match self.xlora_cache {
                Some(slots) => Some(slots@),
                None => None,
            },
            seq_preallocated_cache: self.seq_preallocated_cache,
            tokens: self.tokens@,
            logprobs: self.logprobs@,
            last_logprob: self.last_logprob,
            last_completion_bytes_len: self.last_completion_bytes_len,
            last_is_done: self.last_is_done,
            completion_bytes: self.completion_bytes@,
            stream_idx: self.stream_idx,
            recognizer: self.recognizer,
            scheduling_urgency: self.scheduling_urgency,
            waitlisted_count: self.waitlisted_count,
            prompt_timestamp: self.prompt_timestamp,
            total_prompt_time: self.total_prompt_time,
            state: self.state,
            block_size: match self.custom_metadata {
                SequenceCustomMetadata::PagedAttention { block_size, .. } => Some(block_size),
                SequenceCustomMetadata::Absent => None,
            },
            block_table: self.custom_metadata.table(),
            physical_blocks_prefill: self.custom_metadata.pending_physical(),
        }
    }
}

/// One more than the extent of a cached tensor along its third dimension,
/// where it has one and the sum is still a length.
fn cached_len(tensor: &TensorHandle) -> (len: Option<usize>)
    ensures
        len is Some <==> tensor.dims@.len() > 2 && tensor.dims@[2] < usize::MAX,
        len is Some ==> len->0 == tensor.dims@[2] + 1,
{
    if tensor.dims.len() > 2 && tensor.dims[2] < usize::MAX {
        Some(tensor.dims[2] + 1)
    } else {
        None
    }
}

/// `layers` slots with nothing in them.
fn empty_slots<T>(layers: usize) -> (slots: Vec<Option<T>>)
    ensures
        slots@ == Seq::new(layers as nat, |i: int| None::<T>),
{
    let mut slots: Vec<Option<T>> = Vec::new();
    let mut i: usize = 0;
    while i < layers
        invariant
            i <= layers,
            slots@ == Seq::new(i as nat, |j: int| None::<T>),
        decreases layers - i,
    {
        slots.push(None);
        i = i + 1;
    }
    slots
}

/// The token ids of `toks` as the block table holds them.
fn as_token_ids(toks: &Vec<u32>) -> (ids: Vec<usize>)
    ensures
        ids@ == token_ids(toks@),
{
    let mut ids: Vec<usize> = Vec::new();
    let mut i: usize = 0;
    while i < toks.len()
        invariant
            i <= toks.len(),
            ids@ == token_ids(toks@.take(i as int)),
        decreases toks.len() - i,
    {
        ids.push(toks[i] as usize);
        i = i + 1;
    }
    ids
}

impl Sequence {
    /// Whether all that must hold of a sequence holds of this one.
    pub open spec fn wf(&self) -> bool {
        self@.wf()
    }

    /// A sequence that waits to be scheduled: the prompt tokens are its
    /// tokens and fill its block table, every cache slot is empty, nothing
    /// is generated yet.
    pub fn new_waiting(
        tokens: Vec<u32>,
        prompt: String,
        id: usize,
        timestamp: u128,
        layers: usize,
        responder: Sender<Response>,
        stop_tokens: Vec<u32>,
        stop_strings: Vec<String>,
        max_len: Option<usize>,
        return_logprobs: bool,
        is_xlora: bool,
        response_index: usize,
        creation_time: u64,
        recognizer: SequenceRecognizer,
        suffix: Option<String>,
        prefix: Option<String>,
        input_images: Option<Vec<ImageInput>>,
        input_audios: Option<Vec<AudioInput>>,
        block_size: Option<usize>,
        image_gen_response_format: Option<ImageGenerationResponseFormat>,
        sequence_stepping_type: SeqStepType,
        diffusion_params: Option<DiffusionGenerationParams>,
        seq_preallocated_cache: Option<KvPair>,
        return_raw_logits: bool,
        eos_tokens: Vec<u32>,
    ) -> (seq: Self)
        requires
            block_size is Some ==> block_size->0 > 0,
        ensures
            seq.wf(),
            seq@.tokens == tokens@,
            seq@.prompt == prompt,
            seq@.prompt_len == tokens@.len(),
            seq@.id == id,
            seq@.timestamp == timestamp,
            seq@.state == SequenceState::Waiting,
            seq@.normal_cache == Seq::new(layers as nat, |i: int| None::<KvCache>),
            seq@.normal_draft_cache == Seq::new(layers as nat, |i: int| None::<KvCache>),
            seq@.cache == Seq::new(layers as nat, |i: int| None::<KvPair>),
            seq@.draft_cache == Seq::new(layers as nat, |i: int| None::<KvPair>),
            seq@.xlora_cache == if is_xlora {
                Some(Seq::new(layers as nat, |i: int| None::<KvPair>))
            } else {
                None
            },
            seq@.scaling_cache is None,
            seq@.seq_preallocated_cache == seq_preallocated_cache,
            seq@.stop_tokens == stop_tokens@,
            seq@.stop_strings == stop_strings@,
            seq@.max_len == max_len,
            seq@.return_logprobs == return_logprobs,
            seq@.responder == responder,
            seq@.response_index == response_index,
            seq@.creation_time == creation_time,
            seq@.recognizer == recognizer,
            seq@.prefill_prompt_toks is None,
            seq@.suffix == suffix,
            seq@.prefix == prefix,
            seq@.logprobs == Seq::<SampledToken>::empty(),
            seq@.last_logprob == 0,
            seq@.completion_bytes == Seq::<u8>::empty(),
            seq@.stream_idx == 0,
            seq@.last_completion_bytes_len == 0,
            seq@.last_is_done is None,
            !seq@.is_tmp,
            seq@.scheduling_urgency == 0,
            seq@.waitlisted_count == 0,
            seq@.prompt_timestamp is None,
            seq@.total_prompt_time is None,
            seq@.sequence_stepping_type == sequence_stepping_type,
            seq@.return_raw_logits == return_raw_logits,
            seq@.token_offset == 0,
            seq@.eos_tokens == eos_tokens@,
            seq@.block_size == block_size,
            seq@.block_table == match block_size {
                Some(size) => table_extend(Seq::empty(), token_ids(tokens@), size as nat),
                None => Seq::empty(),
            },
            seq@.physical_blocks_prefill is None,
            seq@.multimodal.spec_images() == match input_images {
                Some(images) => Some(images@),
                None => None,
            },
            seq@.multimodal.spec_audios() == match input_audios {
                Some(audios) => Some(audios@),
                None => None,
            },
            seq@.multimodal.spec_image_hashes() == match input_images {
                Some(images) => Some(image_digests(images@)),
                None => None,
            },
            seq@.multimodal.spec_audio_hashes() == match input_audios {
                Some(audios) => Some(audio_digests(audios@)),
                None => None,
            },
            seq@.multimodal.image_gen_response_format == image_gen_response_format,
            seq@.multimodal.diffusion_params == diffusion_params,
            seq@.multimodal.cached_pixel_values is None,
            seq@.multimodal.cached_img_thw is None,
            seq@.multimodal.cached_vid_thw is None,
            !seq@.multimodal.has_changed_prompt,
    {
        let prompt_len = tokens.len();
        let mut custom_metadata = match block_size {
            Some(block_size) => SequenceCustomMetadata::PagedAttention {
                logical_token_blocks: Vec::new(),
                physical_blocks_prefill: None,
                block_size,
            },
            None => SequenceCustomMetadata::Absent,
        };
        assert(custom_metadata.table() =~= Seq::<BlockView>::empty());
        custom_metadata.append_tokens_to_blocks(as_token_ids(&tokens));
        proof {
            if block_size is Some {
                let nothing = Seq::<BlockView>::empty();
                lemma_extend_keeps_paged(nothing, token_ids(tokens@), block_size->0 as nat);
            }
        }
        let xlora_cache = if is_xlora {
            Some(empty_slots(layers))
        } else {
            None
        };
        Sequence {
            tokens,
            logprobs: Vec::new(),
            last_logprob: 0,
            prompt,
            prompt_len,
            id,
            timestamp,
            state: SequenceState::Waiting,
            normal_cache: empty_slots(layers),
            normal_draft_cache: empty_slots(layers),
            cache: empty_slots(layers),
            draft_cache: empty_slots(layers),
            xlora_cache,
            seq_preallocated_cache,
            responder,
            stop_tokens,
            stop_strings,
            max_len,
            return_logprobs,
            prompt_timestamp: None,
            scaling_cache: None,
            response_index,
            creation_time,
            recognizer,
            prefill_prompt_toks: None,
            suffix,
            prefix,
            completion_bytes: Vec::new(),
            stream_idx: 0,
            last_completion_bytes_len: 0,
            last_is_done: None,
            is_tmp: false,
            scheduling_urgency: 0,
            multimodal: MultimodalData::new(
                input_images,
                input_audios,
                image_gen_response_format,
                diffusion_params,
            ),
            custom_metadata,
            sequence_stepping_type,
            return_raw_logits,
            token_offset: 0,
            eos_tokens,
            total_prompt_time: None,
            waitlisted_count: 0,
        }
    }

    /// The sequence passed over once more by the scheduler.
    pub fn add_urgency(self) -> (seq: Self)
        requires
            self@.scheduling_urgency < usize::MAX,
        ensures
            seq@ == (SequenceView {
                scheduling_urgency: (self@.scheduling_urgency + 1) as usize,
                ..self@
            }),
    {
        let mut seq = self;
        seq.scheduling_urgency += 1;
        seq
    }

    /// The sequence as if it had never been passed over.
    pub fn reset_urgency(self) -> (seq: Self)
        ensures
            seq@ == (SequenceView { scheduling_urgency: 0, ..self@ }),
    {
        let mut seq = self;
        seq.scheduling_urgency = 0;
        seq
    }

    /// How often the scheduler has passed the sequence over.
    pub fn scheduling_urgency(&self) -> (urgency: usize)
        ensures
            urgency == self@.scheduling_urgency,
    {
        self.scheduling_urgency
    }

    /// The length of the sequence as the model sees it.
    pub fn len(&self) -> (len: usize)
        requires
            self@.len_defined(),
        ensures
            len == self@.len(),
    {
        match &self.prefill_prompt_toks {
            Some(toks) => {
                return toks.len();
            },
            None => {},
        }
        if self.is_tmp {
            return self.tokens.len();
        }
        match &self.xlora_cache {
            Some(slots) => {
                if slots.len() > 0 {
                    match &slots[0] {
                        Some(pair) => {
                            return pair.0.dims[2] + 1;
                        },
                        None => {},
                    }
                }
            },
            None => {},
        }
        if self.cache.len() > 0 {
            match &self.cache[0] {
                Some(pair) => {
                    return pair.1.dims[2] + 1;
                },
                None => {},
            }
        }
        self.tokens.len()
    }

    /// The length of the sequence as the model sees it, where it can be
    /// computed.
    pub fn try_len(&self) -> (len: Option<usize>)
        ensures
            len is Some <==> self@.len_defined(),
            len is Some ==> len->0 == self@.len(),
    {
        match &self.prefill_prompt_toks {
            Some(toks) => {
                return Some(toks.len());
            },
            None => {},
        }
        if self.is_tmp {
            return Some(self.tokens.len());
        }
        match &self.xlora_cache {
            Some(slots) => {
                if slots.len() > 0 {
                    match &slots[0] {
                        Some(pair) => {
                            return cached_len(&pair.0);
                        },
                        None => {},
                    }
                }
            },
            None => {},
        }
        if self.cache.len() > 0 {
            match &self.cache[0] {
                Some(pair) => {
                    return cached_len(&pair.1);
                },
                None => {},
            }
        }
        Some(self.tokens.len())
    }

    /// Whether the `n` newest tokens can be taken back: there are as many,
    /// and the last block of the block table, where there is one, holds
    /// them all.
    pub fn can_remove_tmp_tok(&self, n: usize) -> (can: bool)
        ensures
            can == (n <= self@.tokens.len() && (self@.block_size is Some && n > 0
                ==> self@.block_table.len() > 0 && n <= self@.block_table.last().tokens.len())),
    {
        if n > self.tokens.len() {
            return false;
        }
        match &self.custom_metadata {
            SequenceCustomMetadata::PagedAttention {
                logical_token_blocks,
                physical_blocks_prefill: _,
                block_size: _,
            } => {
                let blocks = logical_token_blocks.len();
                n == 0 || (blocks > 0 && n <= logical_token_blocks[blocks - 1].num_tokens())
            },
            SequenceCustomMetadata::Absent => true,
        }
    }

    pub fn id(&self) -> (id: &usize)
        ensures
            *id == self@.id,
    {
        &self.id
    }

    /// Running a prompt or a completion.
    pub fn is_running(&self) -> (running: bool)
        ensures
            running == self@.state.is_running(),
    {
        match self.state {
            SequenceState::RunningCompletion | SequenceState::RunningPrompt => true,
            _ => false,
        }
    }

    pub fn is_completion(&self) -> (completion: bool)
        ensures
            completion == (self@.state is RunningCompletion),
    {
        match self.state {
            SequenceState::RunningCompletion => true,
            _ => false,
        }
    }

    /// Running a prompt, prefilled or not.
    pub fn is_prompt(&self) -> (prompt: bool)
        ensures
            prompt == self@.state.is_prompt(),
    {
        match self.state {
            SequenceState::RunningPrompt | SequenceState::RunningPrefillPrompt => true,
            _ => false,
        }
    }

    pub fn is_waiting(&self) -> (waiting: bool)
        ensures
            waiting == (self@.state is Waiting),
    {
        match self.state {
            SequenceState::Waiting => true,
            _ => false,
        }
    }

    /// Finished, as the block engine counts it.
    pub fn is_finished_paged_attn(&self) -> (finished: bool)
        ensures
            finished == self@.state.is_finished_paged_attn(),
    {
        match self.state {
            SequenceState::FinishedAborted
            | SequenceState::FinishedIgnored
            | SequenceState::Done(_) => true,
            _ => false,
        }
    }

    /// The tokens that the next pass runs on.
    pub fn get_toks(&self) -> (toks: &[u32])
        ensures
            toks@ == self@.toks(),
    {
        match &self.prefill_prompt_toks {
            Some(toks) => toks.as_slice(),
            None => self.tokens.as_slice(),
        }
    }

    pub fn get_initial_prompt(&self) -> (prompt: &str)
        ensures
            prompt@ == self@.prompt@,
    {
        self.prompt.as_str()
    }

    pub fn set_initial_prompt(&mut self, new: String)
        ensures
            final(self)@ == (SequenceView { prompt: new, ..old(self)@ }),
    {
        self.prompt = new;
    }

    pub fn token_offset(&self) -> (offset: usize)
        ensures
            offset == self@.token_offset,
    {
        self.token_offset
    }

    /// Replaces the tokens of the sequence by `toks`, which become its
    /// prompt, and fills the block table anew.
    pub fn set_toks_and_reallocate(&mut self, toks: Vec<u32>)
        requires
            old(self).wf(),
        ensures
            final(self).wf(),
            final(self)@ == (SequenceView {
                tokens: toks@,
                prompt_len: toks@.len() as usize,
                block_table: match old(self)@.block_size {
                    Some(size) => table_extend(Seq::empty(), token_ids(toks@), size as nat),
                    None => Seq::empty(),
                },
                ..old(self)@
            }),
    {
        let ids = as_token_ids(&toks);
        self.prompt_len = toks.len();
        self.tokens = toks;
        match &mut self.custom_metadata {
            SequenceCustomMetadata::PagedAttention {
                logical_token_blocks,
                physical_blocks_prefill: _,
                block_size: _,
            } => {
                logical_token_blocks.clear();
                assert(table_view(logical_token_blocks@) =~= Seq::<BlockView>::empty());
            },
            SequenceCustomMetadata::Absent => (),
        }
        self.custom_metadata.append_tokens_to_blocks(ids);
        proof {
            if old(self)@.block_size is Some {
                let size = old(self)@.block_size->0 as nat;
                let nothing = Seq::<BlockView>::empty();
                lemma_extend_keeps_paged(nothing, token_ids(self.tokens@), size);
            }
        }
    }

    /// The text produced so far.
    pub fn completion_bytes(&self) -> (bytes: &[u8])
        ensures
            bytes@ == self@.completion_bytes,
    {
        self.completion_bytes.as_slice()
    }

    /// Sets tokens to run the next pass on in place of the sequence's own.
    pub fn set_prefill_toks(&mut self, toks: Vec<u32>)
        ensures
            final(self)@ == (SequenceView { prefill_prompt_toks: Some(toks@), ..old(self)@ }),
    {
        self.prefill_prompt_toks = Some(toks)
    }

    /// The next pass runs on the sequence's own tokens again.
    pub fn reset_prefill_toks(&mut self)
        ensures
            final(self)@ == (SequenceView { prefill_prompt_toks: None, ..old(self)@ }),
    {
        self.prefill_prompt_toks = None
    }

    /// Adds a draft token, to be verified.
    pub fn add_tmp_tok(&mut self, tok: u32)
        requires
            old(self).wf(),
        ensures
            final(self).wf(),
            final(self)@ == (SequenceView {
                is_tmp: true,
                tokens: old(self)@.tokens.push(tok),
                block_table: old(self)@.table_with(tok),
                ..old(self)@
            }),
    {
        self.is_tmp = true;
        self.tokens.push(tok);
        self.custom_metadata.append_token_to_blocks(tok as usize);
        proof {
            lemma_token_appended(old(self)@, tok);
        }
    }

    /// Takes the `n` newest tokens back, which were drafts that were
    /// rejected. They are taken out of the last block.
    pub fn remove_tmp_tok(&mut self, n: usize)
        requires
            old(self).wf(),
            n <= old(self)@.tokens.len(),
            old(self)@.block_size is Some && n > 0 ==> old(self)@.block_table.len() > 0 && n
                <= old(self)@.block_table.last().tokens.len(),
        ensures
            final(self).wf(),
            final(self)@ == (SequenceView {
                is_tmp: false,
                tokens: old(self)@.tokens.take(old(self)@.tokens.len() - n),
                block_table: if old(self)@.block_size is Some {
                    table_remove(old(self)@.block_table, n as nat)
                } else {
                    old(self)@.block_table
                },
                ..old(self)@
            }),
    {
        self.is_tmp = false;
        let keep = self.tokens.len() - n;
        self.tokens.truncate(keep);
        self.custom_metadata.remove_tokens_from_blocks(n);
        proof {
            if old(self)@.block_size is Some {
                let size = old(self)@.block_size->0 as nat;
                lemma_remove_keeps_paged(old(self)@.block_table, n as nat, size);
                assert(token_ids(old(self)@.tokens).take(keep as int) =~= token_ids(
                    old(self)@.tokens.take(keep as int),
                ));
            }
        }
    }

    /// Records a generated token with the bytes it decodes to.
    pub fn add_token(
        &mut self,
        tok: SampledToken,
        completion_bytes: Vec<u8>,
        is_done: &Option<StopReason>,
    )
        requires
            old(self).wf(),
        ensures
            final(self).wf(),
            final(self)@ == old(self)@.with_token(tok, completion_bytes@, *is_done),
    {
        let stopped_by_token = match is_done {
            Some(StopReason::Eos) => true,
            Some(StopReason::StopTok(_)) => true,
            _ => false,
        };
        if !stopped_by_token {
            let mut bytes = completion_bytes;
            self.last_completion_bytes_len = bytes.len();
            self.completion_bytes.append(&mut bytes);
        }
        self.last_logprob = tok.logprob;
        self.last_is_done = *is_done;
        self.custom_metadata.append_token_to_blocks(tok.token as usize);
        self.tokens.push(tok.token);
        proof {
            lemma_token_appended(old(self)@, tok.token);
        }
        self.logprobs.push(tok);
        self.reset_prefill_toks();
    }

    /// A handle on the channel to the client of the request.
    pub fn responder(&self) -> (handle: Sender<Response>)
        ensures
            handle == self@.responder,
    {
        sender_clone(&self.responder)
    }

    pub fn creation_time(&self) -> (time: u64)
        ensures
            time == self@.creation_time,
    {
        self.creation_time
    }

    pub fn getstate(&self) -> (state: SequenceState)
        ensures
            state == self@.state,
    {
        self.state
    }

    /// Whether generation stops after `tok`, and why.
    pub fn is_done(&self, tok: u32, eos_tok: Option<&[u32]>, max_model_len: usize) -> (reason:
        Option<StopReason>)
        ensures
            reason == self@.stop_after(
                tok,
                match eos_tok {
                    Some(list) => Some(list@),
                    None => None,
                },
                max_model_len,
            ),
    {
        let canceled = match self.state {
            SequenceState::Done(StopReason::Canceled) => true,
            _ => false,
        };
        evaluate_stop(
            tok,
            eos_tok,
            canceled,
            self.stop_tokens.as_slice(),
            self.tokens.len().saturating_sub(self.prompt_len),
            self.max_len,
            max_model_len,
            self.stop_strings.as_slice(),
            self.completion_bytes.as_slice(),
        )
    }

    /// The tokens generated, as the sampler handed them over.
    pub fn logprobs(&self) -> (logprobs: &[SampledToken])
        ensures
            logprobs@ == self@.logprobs,
    {
        self.logprobs.as_slice()
    }

    pub fn return_logprobs(&self) -> (wanted: bool)
        ensures
            wanted == self@.return_logprobs,
    {
        self.return_logprobs
    }

    pub fn return_raw_logits(&self) -> (wanted: bool)
        ensures
            wanted == self@.return_raw_logits,
    {
        self.return_raw_logits
    }

    pub fn prompt_tokens(&self) -> (count: usize)
        ensures
            count == self@.prompt_len,
    {
        self.prompt_len
    }

    pub fn stop_strings(&self) -> (stop_strings: &[String])
        ensures
            stop_strings@ == self@.stop_strings,
    {
        self.stop_strings.as_slice()
    }

    /// The text produced since the last text handed out, which is then
    /// handed out.
    pub fn get_delta(&mut self) -> (delta: Option<String>)
        requires
            old(self).wf(),
        ensures
            final(self).wf(),
            option_text(delta) == old(self)@.delta(),
            valid_utf8(old(self)@.pending_bytes()) ==> option_text(delta) == pending_text(
                old(self)@.completion_bytes,
                old(self)@.stream_idx as nat,
            ),
            final(self)@ == old(self)@.after_delta(),
            delta is Some ==> final(self)@.delta() is None,
    {
        let delta = self.peek_delta();
        if delta.is_some() {
            self.stream_idx = self.completion_bytes.len();
        }
        delta
    }

    /// The text produced since the last text handed out.
    pub fn peek_delta(&self) -> (delta: Option<String>)
        ensures
            option_text(delta) == self@.delta(),
            valid_utf8(self@.pending_bytes()) ==> option_text(delta) == pending_text(
                self@.completion_bytes,
                self@.stream_idx as nat,
            ),
    {
        decode_delta(self.completion_bytes.as_slice(), self.stream_idx)
    }

    pub fn timestamp(&self) -> (timestamp: u128)
        ensures
            timestamp == self@.timestamp,
    {
        self.timestamp
    }

    pub fn prompt_timestamp(&self) -> (timestamp: Option<u128>)
        ensures
            timestamp == self@.prompt_timestamp,
    {
        self.prompt_timestamp
    }
}

/// A token put behind the tokens of a sequence goes behind the tokens of its
/// block table too, and the table keeps its layout.
pub proof fn lemma_token_appended(seq: SequenceView, tok: u32)
    requires
        seq.wf(),
    ensures
        seq.block_size is Some ==> {
            &&& table_paged(seq.table_with(tok), seq.block_size->0 as nat)
            &&& table_tokens(seq.table_with(tok)) == token_ids(seq.tokens.push(tok))
        },
{
    if seq.block_size is Some {
        lemma_append_keeps_paged(seq.block_table, tok as usize, seq.block_size->0 as nat);
    }
}

impl Sequence {
    /// The sequence set to run a prompt whose first part is cached: the
    /// caches are those given, one for each layer, and the next pass runs on
    /// `toks`.
    pub fn prefill_v2_normal(self, cache: Vec<Option<KvCache>>, toks: Vec<u32>, offset: usize) -> (seq:
        Self)
        requires
            self.wf(),
            cache@.len() == self@.layers(),
        ensures
            seq.wf(),
            seq@ == (SequenceView {
                normal_cache: cache@,
                prefill_prompt_toks: Some(toks@),
                state: SequenceState::RunningPrefillPrompt,
                token_offset: offset,
                ..self@
            }),
    {
        let mut seq = self;
        seq.normal_cache = cache;
        seq.prefill_prompt_toks = Some(toks);
        seq.state = SequenceState::RunningPrefillPrompt;
        seq.token_offset = offset;
        seq
    }

    /// The sequence set to run a prompt whose first part lies in cached
    /// blocks: the next pass runs on `toks`, and, where block-based caching
    /// is on, the block table is the one given and the physical blocks wait
    /// to be taken.
    pub fn prefill_v2_paged(
        self,
        logical_blocks: Vec<LogicalTokenBlock>,
        physical_blocks: Vec<Arc<PhysicalTokenBlock>>,
        toks: Vec<u32>,
        offset: usize,
    ) -> (seq: Self)
        requires
            self.wf(),
            self@.accepts_blocks(table_view(logical_blocks@)),
        ensures
            seq.wf(),
            seq@ == (SequenceView {
                prefill_prompt_toks: Some(toks@),
                state: SequenceState::RunningPrefillPrompt,
                token_offset: offset,
                block_table: if self@.block_size is Some {
                    table_view(logical_blocks@)
                } else {
                    self@.block_table
                },
                physical_blocks_prefill: if self@.block_size is Some {
                    Some(physical_blocks)
                } else {
                    self@.physical_blocks_prefill
                },
                ..self@
            }),
    {
        let mut seq = self;
        seq.prefill_prompt_toks = Some(toks);
        seq.state = SequenceState::RunningPrefillPrompt;
        seq.token_offset = offset;
        match &mut seq.custom_metadata {
            SequenceCustomMetadata::PagedAttention {
                logical_token_blocks,
                physical_blocks_prefill,
                block_size: _,
            } => {
                *logical_token_blocks = logical_blocks;
                *physical_blocks_prefill = Some(physical_blocks);
            },
            SequenceCustomMetadata::Absent => {},
        }
        seq
    }

    /// Whether the blocks can take the place of the block table.
    pub fn accepts_blocks(&self, logical_blocks: &[LogicalTokenBlock]) -> (accepts: bool)
        requires
            self.wf(),
        ensures
            accepts == self@.accepts_blocks(table_view(logical_blocks@)),
    {
        match &self.custom_metadata {
            SequenceCustomMetadata::PagedAttention {
                logical_token_blocks: _,
                physical_blocks_prefill: _,
                block_size,
            } => {
                let ids = as_token_ids(&self.tokens);
                blocks_hold(logical_blocks, ids.as_slice(), *block_size)
            },
            SequenceCustomMetadata::Absent => true,
        }
    }

    /// The cache set aside for the sequence before it ran, if any.
    pub fn preallocated_cache(&self) -> (cache: Option<&KvPair>)
        ensures
            cache is Some <==> self@.seq_preallocated_cache is Some,
            cache is Some ==> *cache->0 == self@.seq_preallocated_cache->0,
    {
        self.seq_preallocated_cache.as_ref()
    }

    /// How many layers the sequence has cache slots for.
    pub fn layers(&self) -> (layers: usize)
        ensures
            layers == self@.layers(),
    {
        self.cache.len()
    }

    /// The slot of `layer` in the cache that the model runner keeps between
    /// passes.
    pub fn normal_cache(&mut self, layer: usize) -> (slot: &mut Option<KvCache>)
        requires
            layer < old(self)@.layers(),
            old(self).wf(),
        ensures
            *slot == old(self)@.normal_cache[layer as int],
            final(self)@ == (SequenceView {
                normal_cache: old(self)@.normal_cache.update(layer as int, *final(slot)),
                ..old(self)@
            }),
            final(self).wf(),
    {
        &mut self.normal_cache[layer]
    }

    /// The slot of `layer` in the cache of the draft model.
    pub fn normal_draft_cache(&mut self, layer: usize) -> (slot: &mut Option<KvCache>)
        requires
            layer < old(self)@.layers(),
            old(self).wf(),
        ensures
            *slot == old(self)@.normal_draft_cache[layer as int],
            final(self)@ == (SequenceView {
                normal_draft_cache: old(self)@.normal_draft_cache.update(
                    layer as int,
                    *final(slot),
                ),
                ..old(self)@
            }),
            final(self).wf(),
    {
        &mut self.normal_draft_cache[layer]
    }

    /// The slot of `layer` in the cache of keys and values.
    pub fn cache(&mut self, layer: usize) -> (slot: &mut Option<KvPair>)
        requires
            layer < old(self)@.layers(),
            old(self).wf(),
        ensures
            *slot == old(self)@.cache[layer as int],
            final(self)@ == (SequenceView {
                cache: old(self)@.cache.update(layer as int, *final(slot)),
                ..old(self)@
            }),
            final(self).wf(),
    {
        &mut self.cache[layer]
    }

    /// The slot of `layer` in the cache of keys and values of the draft.
    pub fn draft_cache(&mut self, layer: usize) -> (slot: &mut Option<KvPair>)
        requires
            layer < old(self)@.layers(),
            old(self).wf(),
        ensures
            *slot == old(self)@.draft_cache[layer as int],
            final(self)@ == (SequenceView {
                draft_cache: old(self)@.draft_cache.update(layer as int, *final(slot)),
                ..old(self)@
            }),
            final(self).wf(),
    {
        &mut self.draft_cache[layer]
    }

    /// The slot of `layer` in the adapter-mixing cache, which only a
    /// sequence made in that mode has.
    pub fn xlora_cache(&mut self, layer: usize) -> (slot: &mut Option<KvPair>)
        requires
            old(self)@.xlora_cache is Some,
            layer < old(self)@.layers(),
            old(self).wf(),
        ensures
            *slot == old(self)@.xlora_cache->0[layer as int],
            final(self)@ == (SequenceView {
                xlora_cache: Some(old(self)@.xlora_cache->0.update(layer as int, *final(slot))),
                ..old(self)@
            }),
            final(self).wf(),
    {
        match &mut self.xlora_cache {
            Some(slots) => &mut slots[layer],
            None => vstd::pervasive::unreached(),
        }
    }

    /// The cached scalings of the adapter-mixing mode.
    pub fn scaling_cache(&mut self) -> (cache: &mut Option<TensorHandle>)
        ensures
            *cache == old(self)@.scaling_cache,
            final(self)@ == (SequenceView { scaling_cache: *final(cache), ..old(self)@ }),
    {
        &mut self.scaling_cache
    }

    /// Whether the sequence was made in adapter-mixing mode.
    pub fn is_xlora(&self) -> (is_xlora: bool)
        ensures
            is_xlora == (self@.xlora_cache is Some),
    {
        self.xlora_cache.is_some()
    }

    /// Sets the state. A sequence that fails takes one choice off what its
    /// group waits for.
    pub fn set_state(&mut self, state: SequenceState, group: &mut SequenceGroup)
        ensures
            final(self)@ == (SequenceView { state, ..old(self)@ }),
            final(group)@ == if state is Error {
                old(group)@.drop_failed_choice()
            } else {
                old(group)@
            },
    {
        match state {
            SequenceState::Error => {
                group.drop_failed_choice();
            },
            _ => {},
        }
        self.state = state;
    }

    /// Records in the group what this sequence has used up to `now`.
    fn update_time_info(&self, group: &mut SequenceGroup, now: u128)
        requires
            self@.can_record_usage(now),
        ensures
            final(group)@ == self@.usage_recorded(old(group)@, now),
    {
        let prompt_times = match self.prompt_timestamp {
            Some(since) => match self.total_prompt_time {
                Some(total) => Some((total, now - since)),
                None => None,
            },
            None => None,
        };
        group.record_usage(self.prompt_len, self.len(), now - self.timestamp, prompt_times);
    }

    /// Hands a generated image to the group.
    pub fn add_image_choice_to_group(&self, choice: ImageChoice, group: &mut SequenceGroup)
        ensures
            final(group)@ == (GroupView {
                image_choices: old(group)@.image_choices.push(choice),
                ..old(group)@
            }),
    {
        group.add_image_choice(choice);
    }

    /// Hands a segment of sound to the group.
    pub fn add_speech_pcm_to_group(
        &self,
        pcm: Arc<Vec<u32>>,
        rate: usize,
        channels: usize,
        group: &mut SequenceGroup,
    )
        ensures
            final(group)@ == (GroupView {
                speech_pcms: old(group)@.speech_pcms.push((pcm, rate, channels)),
                ..old(group)@
            }),
    {
        group.add_speech_pcm(pcm, rate, channels);
    }

    /// Hands a finished chat choice to the group, and records the usage.
    pub fn add_choice_to_group(&self, choice: Choice, group: &mut SequenceGroup, now: u128)
        requires
            self@.can_record_usage(now),
        ensures
            final(group)@ == self@.usage_recorded(old(group)@.add_choice(choice), now),
    {
        group.add_choice(choice);
        self.update_time_info(group, now);
    }

    /// Hands raw logits to the group, with the tokens of the sequence, and
    /// records the usage.
    pub fn add_raw_choice_to_group(
        &self,
        logit_chunks: Vec<TensorHandle>,
        group: &mut SequenceGroup,
        now: u128,
    )
        requires
            self@.can_record_usage(now),
        ensures
            final(group)@.raw_choices.len() == old(group)@.raw_choices.len() + 1,
            final(group)@.raw_choices.last().0 == logit_chunks,
            final(group)@.raw_choices.last().1@ == self@.tokens,
            final(group)@ == self@.usage_recorded(
                GroupView { raw_choices: final(group)@.raw_choices, ..old(group)@ },
                now,
            ),
            final(group)@.raw_choices.drop_last() == old(group)@.raw_choices,
    {
        let tokens = self.tokens.clone();
        group.add_raw_choice(logit_chunks, tokens);
        self.update_time_info(group, now);
    }

    /// Hands a finished text completion to the group, its text set between
    /// the prefix and the suffix of the request, under the score given, and
    /// records the usage.
    pub fn add_completion_choice_to_group(
        &self,
        choice: CompletionChoice,
        score: LogprobKey,
        group: &mut SequenceGroup,
        now: u128,
    )
        requires
            self@.can_record_usage(now),
        ensures
            final(group)@.completion_choices.len() == old(group)@.completion_choices.len() + 1,
            final(group)@.completion_choices.drop_last() == old(group)@.completion_choices,
            final(group)@.completion_choices.last().0 == score,
            final(group)@.completion_choices.last().1.text@ == self@.framed(choice.text@),
            final(group)@.completion_choices.last().1.index == choice.index,
            final(group)@.completion_choices.last().1.finish_reason == choice.finish_reason,
            final(group)@ == self@.usage_recorded(
                GroupView { completion_choices: final(group)@.completion_choices, ..old(group)@ },
                now,
            ),
    {
        let mut text = String::new();
        match &self.prefix {
            Some(prefix) => text.append(prefix.as_str()),
            None => {},
        }
        text.append(choice.text.as_str());
        match &self.suffix {
            Some(suffix) => text.append(suffix.as_str()),
            None => {},
        }
        let framed = CompletionChoice {
            finish_reason: choice.finish_reason,
            index: choice.index,
            text,
        };
        group.add_completion_choice(score, framed);
        self.update_time_info(group, now);
    }

    pub fn get_response_index(&self) -> (index: usize)
        ensures
            index == self@.response_index,
    {
        self.response_index
    }

    /// Buffers a chat chunk in the group for the step under way, and records
    /// the usage.
    pub fn add_streaming_chunk_choice_to_group(
        &self,
        chunk: ChunkChoice,
        group: &mut SequenceGroup,
        now: u128,
    )
        requires
            self@.can_record_usage(now),
        ensures
            final(group)@ == self@.usage_recorded(
                GroupView {
                    chat_streaming_chunks: old(group)@.chat_streaming_chunks.push(chunk),
                    ..old(group)@
                },
                now,
            ),
    {
        group.add_streaming_chunk_choice(chunk);
        self.update_time_info(group, now);
    }

    /// Buffers a completion chunk in the group for the step under way, and
    /// records the usage.
    pub fn add_streaming_completion_chunk_choice_to_group(
        &self,
        chunk: CompletionChunkChoice,
        group: &mut SequenceGroup,
        now: u128,
    )
        requires
            self@.can_record_usage(now),
        ensures
            final(group)@ == self@.usage_recorded(
                GroupView {
                    completion_streaming_chunks: old(group)@.completion_streaming_chunks.push(
                        chunk,
                    ),
                    ..old(group)@
                },
                now,
            ),
    {
        group.add_streaming_completion_chunk_choice(chunk);
        self.update_time_info(group, now);
    }

    /// What constrains the tokens of the sequence.
    pub fn recognizer(&self) -> (recognizer: &SequenceRecognizer)
        ensures
            *recognizer == self@.recognizer,
    {
        &self.recognizer
    }

    /// What constrains the tokens of the sequence, to be changed in place.
    pub fn recognizer_mut(&mut self) -> (recognizer: &mut SequenceRecognizer)
        ensures
            *recognizer == old(self)@.recognizer,
            final(self)@ == (SequenceView { recognizer: *final(recognizer), ..old(self)@ }),
    {
        &mut self.recognizer
    }

    /// What the sequence holds besides text.
    pub fn multimodal(&self) -> (data: &MultimodalData)
        ensures
            *data == self@.multimodal,
    {
        &self.multimodal
    }

    /// What the sequence holds besides text, to be changed in place.
    pub fn multimodal_mut(&mut self) -> (data: &mut MultimodalData)
        ensures
            *data == old(self)@.multimodal,
            final(self)@ == (SequenceView { multimodal: *final(data), ..old(self)@ }),
    {
        &mut self.multimodal
    }

    /// The images for the next pass. Once the prompt has changed they are
    /// handed over and no longer held; before that a copy is handed out.
    pub fn take_images(&mut self) -> (images: Option<Vec<ImageInput>>)
        ensures
            final(self)@ == (SequenceView { multimodal: final(self)@.multimodal, ..old(self)@ }),
            old(self)@.multimodal.same_but_images(&final(self)@.multimodal),
            old(self)@.multimodal.spec_images() is None ==> images is None && final(self)@.multimodal.spec_images() is None,
            old(self)@.multimodal.spec_images() is Some && old(self)@.multimodal.has_changed_prompt
                ==> images is Some && images->0@ == old(self)@.multimodal.spec_images()->0
                && final(self)@.multimodal.spec_images() == Some(Seq::<ImageInput>::empty()),
            old(self)@.multimodal.spec_images() is Some && !old(self)@.multimodal.has_changed_prompt ==> images is Some && image_views(images->0@)
                == image_views(old(self)@.multimodal.spec_images()->0) && final(self)@.multimodal.spec_images() == old(self)@.multimodal.spec_images(),
    {
        self.multimodal.take_images()
    }

    /// A copy of the images held.
    pub fn clone_images(&self) -> (images: Option<Vec<ImageInput>>)
        ensures
            images is Some <==> self@.multimodal.spec_images() is Some,
            images is Some ==> image_views(images->0@) == image_views(
                self@.multimodal.spec_images()->0,
            ),
    {
        self.multimodal.clone_images()
    }

    pub fn images(&self) -> (images: Option<&[ImageInput]>)
        ensures
            images is Some <==> self@.multimodal.spec_images() is Some,
            images is Some ==> images->0@ == self@.multimodal.spec_images()->0,
    {
        self.multimodal.images()
    }

    pub fn image_hashes(&self) -> (hashes: Option<&[u64]>)
        ensures
            hashes is Some <==> self@.multimodal.spec_image_hashes() is Some,
            hashes is Some ==> hashes->0@ == self@.multimodal.spec_image_hashes()->0,
    {
        self.multimodal.image_hashes()
    }

    /// Whether at least one image is held.
    pub fn has_images(&self) -> (has: bool)
        ensures
            has == (self@.multimodal.spec_images() is Some && self@.multimodal.spec_images()->0.len()
                > 0),
    {
        self.multimodal.has_images()
    }

    /// The sound for the next pass. Once the prompt has changed it is handed
    /// over and no longer held; before that a copy is handed out.
    pub fn take_audios(&mut self) -> (audios: Option<Vec<AudioInput>>)
        ensures
            final(self)@ == (SequenceView { multimodal: final(self)@.multimodal, ..old(self)@ }),
            old(self)@.multimodal.same_but_audios(&final(self)@.multimodal),
            old(self)@.multimodal.spec_audios() is None ==> audios is None && final(self)@.multimodal.spec_audios() is None,
            old(self)@.multimodal.spec_audios() is Some && old(self)@.multimodal.has_changed_prompt
                ==> audios is Some && audios->0@ == old(self)@.multimodal.spec_audios()->0
                && final(self)@.multimodal.spec_audios() == Some(Seq::<AudioInput>::empty()),
            old(self)@.multimodal.spec_audios() is Some && !old(self)@.multimodal.has_changed_prompt ==> audios is Some && audio_views(audios->0@)
                == audio_views(old(self)@.multimodal.spec_audios()->0) && final(self)@.multimodal.spec_audios() == old(self)@.multimodal.spec_audios(),
    {
        self.multimodal.take_audios()
    }

    /// A copy of the sound held.
    pub fn clone_audios(&self) -> (audios: Option<Vec<AudioInput>>)
        ensures
            audios is Some <==> self@.multimodal.spec_audios() is Some,
            audios is Some ==> audio_views(audios->0@) == audio_views(
                self@.multimodal.spec_audios()->0,
            ),
    {
        self.multimodal.clone_audios()
    }

    pub fn audios(&self) -> (audios: Option<&[AudioInput]>)
        ensures
            audios is Some <==> self@.multimodal.spec_audios() is Some,
            audios is Some ==> audios->0@ == self@.multimodal.spec_audios()->0,
    {
        self.multimodal.audios()
    }

    pub fn audio_hashes(&self) -> (hashes: Option<&[u64]>)
        ensures
            hashes is Some <==> self@.multimodal.spec_audio_hashes() is Some,
            hashes is Some ==> hashes->0@ == self@.multimodal.spec_audio_hashes()->0,
    {
        self.multimodal.audio_hashes()
    }

    /// Whether at least one piece of sound is held.
    pub fn has_audios(&self) -> (has: bool)
        ensures
            has == (self@.multimodal.spec_audios() is Some && self@.multimodal.spec_audios()->0.len()
                > 0),
    {
        self.multimodal.has_audios()
    }

    /// Keeps the last `audios_to_keep` pieces of sound.
    pub fn keep_num_audios(&mut self, audios_to_keep: usize)
        ensures
            final(self)@ == (SequenceView { multimodal: final(self)@.multimodal, ..old(self)@ }),
            old(self)@.multimodal.same_but_audios(&final(self)@.multimodal),
            final(self)@.multimodal.spec_audios() == match old(self)@.multimodal.spec_audios() {
                Some(audios) => Some(
                    if audios.len() > audios_to_keep {
                        audios.skip(audios.len() - audios_to_keep)
                    } else {
                        audios
                    },
                ),
                None => None,
            },
    {
        self.multimodal.keep_num_audios(audios_to_keep)
    }

    /// Keeps the last `images_to_keep` images.
    pub fn keep_num_images(&mut self, images_to_keep: usize)
        ensures
            final(self)@ == (SequenceView { multimodal: final(self)@.multimodal, ..old(self)@ }),
            old(self)@.multimodal.same_but_images(&final(self)@.multimodal),
            final(self)@.multimodal.spec_images() == match old(self)@.multimodal.spec_images() {
                Some(images) => Some(
                    if images.len() > images_to_keep {
                        images.skip(images.len() - images_to_keep)
                    } else {
                        images
                    },
                ),
                None => None,
            },
    {
        self.multimodal.keep_num_images(images_to_keep)
    }

    pub fn image_gen_response_format(&self) -> (format: Option<ImageGenerationResponseFormat>)
        ensures
            format == self@.multimodal.image_gen_response_format,
    {
        self.multimodal.image_gen_response_format()
    }

    pub fn get_diffusion_diffusion_params(&self) -> (params: Option<DiffusionGenerationParams>)
        ensures
            params == self@.multimodal.diffusion_params,
    {
        self.multimodal.diffusion_params()
    }

    /// Notes when the prompt was run.
    pub fn set_prompt_timestamp(&mut self, timestamp: Option<u128>)
        ensures
            final(self)@ == (SequenceView { prompt_timestamp: timestamp, ..old(self)@ }),
    {
        self.prompt_timestamp = timestamp;
    }

    /// Notes how long the prompt took.
    pub fn set_total_prompt_time(&mut self, time: Option<u128>)
        ensures
            final(self)@ == (SequenceView { total_prompt_time: time, ..old(self)@ }),
    {
        self.total_prompt_time = time;
    }

    pub fn total_prompt_time(&self) -> (time: Option<u128>)
        ensures
            time == self@.total_prompt_time,
    {
        self.total_prompt_time
    }

    pub fn sequence_stepping_type(&self) -> (stepping: &SeqStepType)
        ensures
            *stepping == self@.sequence_stepping_type,
    {
        &self.sequence_stepping_type
    }

    pub fn eos_tokens(&self) -> (tokens: &[u32])
        ensures
            tokens@ == self@.eos_tokens,
    {
        self.eos_tokens.as_slice()
    }

    /// The capacity of a block, where block-based caching is on.
    pub fn block_size(&self) -> (block_size: Option<usize>)
        ensures
            block_size == self@.block_size,
    {
        match &self.custom_metadata {
            SequenceCustomMetadata::PagedAttention {
                logical_token_blocks: _,
                physical_blocks_prefill: _,
                block_size,
            } => Some(*block_size),
            SequenceCustomMetadata::Absent => None,
        }
    }

    /// How often the sequence could not be scheduled.
    pub fn waitlisted_count(&self) -> (count: usize)
        ensures
            count == self@.waitlisted_count,
    {
        self.waitlisted_count
    }
}

/// What the block engine can ask of a sequence and do to it.
pub trait BlockEngineSequence {
    /// The block table; empty where block-based caching is off.
    spec fn engine_table(&self) -> Seq<BlockView>;

    /// Whether the sequence has a block table at all.
    spec fn engine_paged(&self) -> bool;

    /// The number of the sequence.
    spec fn engine_id(&self) -> usize;

    /// The physical blocks assigned for a prefill and not yet taken.
    spec fn engine_pending(&self) -> Option<Vec<Arc<PhysicalTokenBlock>>>;

    /// How often the sequence could not be scheduled.
    spec fn engine_waitlisted(&self) -> usize;

    /// How many new blocks the next token needs. Only a sequence with a
    /// block table can tell.
    fn blocks_to_add_new_tok(&self) -> (n: usize)
        requires
            self.engine_paged(),
        ensures
            n == table_blocks_to_add(self.engine_table()),
    ;

    fn get_id(&self) -> (id: usize)
        ensures
            id == self.engine_id(),
    ;

    /// The block table. Only a sequence with block-based caching has one.
    fn logical_token_blocks(&self) -> (blocks: &[LogicalTokenBlock])
        requires
            self.engine_paged(),
        ensures
            table_view(blocks@) == self.engine_table(),
    ;

    /// The physical blocks assigned for a prefill, which are taken at most
    /// once.
    fn take_physical_blocks_prefill(&mut self) -> (blocks: Option<Vec<Arc<PhysicalTokenBlock>>>)
        ensures
            blocks == old(self).engine_pending(),
            final(self).engine_pending() is None,
            final(self).engine_table() == old(self).engine_table(),
            final(self).engine_paged() == old(self).engine_paged(),
            final(self).engine_id() == old(self).engine_id(),
            final(self).engine_waitlisted() == old(self).engine_waitlisted(),
    ;

    /// Counts one more time that the sequence could not be scheduled, and
    /// tells how often that had happened before.
    fn increment_waitlist_count(&mut self) -> (before: usize)
        requires
            old(self).engine_waitlisted() < usize::MAX,
        ensures
            before == old(self).engine_waitlisted(),
            final(self).engine_waitlisted() == before + 1,
            final(self).engine_pending() == old(self).engine_pending(),
            final(self).engine_table() == old(self).engine_table(),
            final(self).engine_paged() == old(self).engine_paged(),
            final(self).engine_id() == old(self).engine_id(),
    ;
}

impl BlockEngineSequence for Sequence {
    open spec fn engine_table(&self) -> Seq<BlockView> {
        self@.block_table
    }

    open spec fn engine_paged(&self) -> bool {
        self@.block_size is Some
    }

    open spec fn engine_id(&self) -> usize {
        self@.id
    }

    open spec fn engine_pending(&self) -> Option<Vec<Arc<PhysicalTokenBlock>>> {
        self@.physical_blocks_prefill
    }

    open spec fn engine_waitlisted(&self) -> usize {
        self@.waitlisted_count
    }

    fn blocks_to_add_new_tok(&self) -> (n: usize) {
        match &self.custom_metadata {
            SequenceCustomMetadata::PagedAttention {
                logical_token_blocks,
                physical_blocks_prefill: _,
                block_size: _,
            } => blocks_to_add_new_tok(logical_token_blocks),
            SequenceCustomMetadata::Absent => vstd::pervasive::unreached(),
        }
    }

    fn get_id(&self) -> (id: usize) {
        self.id
    }

    fn logical_token_blocks(&self) -> (blocks: &[LogicalTokenBlock]) {
        match &self.custom_metadata {
            SequenceCustomMetadata::PagedAttention {
                logical_token_blocks,
                physical_blocks_prefill: _,
                block_size: _,
            } => logical_token_blocks.as_slice(),
            SequenceCustomMetadata::Absent => vstd::pervasive::unreached(),
        }
    }

    fn take_physical_blocks_prefill(&mut self) -> (blocks: Option<Vec<Arc<PhysicalTokenBlock>>>)
        ensures
            final(self)@ == (SequenceView { physical_blocks_prefill: None, ..old(self)@ }),
    {
        match &mut self.custom_metadata {
            SequenceCustomMetadata::PagedAttention {
                logical_token_blocks: _,
                physical_blocks_prefill,
                block_size: _,
            } => physical_blocks_prefill.take(),
            SequenceCustomMetadata::Absent => None,
        }
    }

    fn increment_waitlist_count(&mut self) -> (before: usize)
        ensures
            final(self)@ == (SequenceView {
                waitlisted_count: (before + 1) as usize,
                ..old(self)@
            }),
    {
        let before = self.waitlisted_count;
        self.waitlisted_count += 1;
        before
    }
}

/// Each recorded token makes the sequence one longer: with no cache and no
/// override to decide the length, after the tokens of `events` it is the
/// length before and the number of events; for a sequence that had
/// generated nothing yet, the length of the prompt and the number of
/// events.
pub proof fn lemma_len_counts_recorded_tokens(
    seq: SequenceView,
    events: Seq<(SampledToken, Seq<u8>, Option<StopReason>)>,
)
    requires
        seq.len_is_token_count(),
    ensures
        seq.with_tokens(events).len_is_token_count(),
        seq.with_tokens(events).len() == seq.tokens.len() + events.len(),
        seq.with_tokens(events).prompt_len == seq.prompt_len,
        seq.tokens.len() == seq.prompt_len ==> seq.with_tokens(events).len() == seq.prompt_len
            + events.len(),
        seq.tokens.len() >= seq.prompt_len ==> seq.with_tokens(events).generated_len()
            == seq.generated_len() + events.len(),
    decreases events.len(),
{
    if events.len() > 0 {
        lemma_len_counts_recorded_tokens(seq, events.drop_last());
    }
}

/// Text is handed out once: after `get_delta` has handed out text, there is
/// none to hand out until new bytes arrive.
pub proof fn lemma_delta_handed_out_once(seq: SequenceView)
    requires
        seq.completion_bytes.len() <= usize::MAX,
        seq.delta() is Some,
    ensures
        seq.after_delta().delta() is None,
{
}

/// Recording tokens keeps what must hold of a sequence.
pub proof fn lemma_with_tokens_wf(
    seq: SequenceView,
    events: Seq<(SampledToken, Seq<u8>, Option<StopReason>)>,
)
    requires
        seq.wf(),
    ensures
        seq.with_tokens(events).wf(),
        seq.with_tokens(events).tokens == seq.tokens + Seq::new(
            events.len(),
            |i: int| events[i].0.token,
        ),
        seq.with_tokens(events).logprobs == seq.logprobs + Seq::new(
            events.len(),
            |i: int| events[i].0,
        ),
    decreases events.len(),
{
    if events.len() > 0 {
        let before = seq.with_tokens(events.drop_last());
        lemma_with_tokens_wf(seq, events.drop_last());
        lemma_token_appended(before, events.last().0.token);
        crate::blocks::lemma_append_keeps_wf(
            before.block_table,
            events.last().0.token as usize,
            match before.block_size {
                Some(size) => size as nat,
                None => 1,
            },
        );
    } else {
    }
}

} // verus!
