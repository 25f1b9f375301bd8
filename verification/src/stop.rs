//! When generation ends: the states of a sequence, the reasons for which it
//! stops, and the rule that picks the reason after each new token.

use vstd::prelude::*;
use vstd::string::StringExecFns;

verus! {

/// Why a sequence stopped.
#[derive(Clone, Copy, PartialEq, Eq, Structural, Debug)]
pub enum StopReason {
    Eos,
    StopTok(u32),
    Length(usize),
    ModelLength(usize),
    StopString { stop_string_idx: usize, completion_bytes_pos: usize },
    Canceled,
    GeneratedImage,
    GeneratedSpeech,
    ToolCalls,
}

impl StopReason {
    /// The word under which a client sees the reason.
    pub open spec fn text(self) -> Seq<char> {
        match self {
            StopReason::Eos => "stop"@,
            StopReason::Length(_) | StopReason::ModelLength(_) => "length"@,
            StopReason::StopTok(_) | StopReason::StopString { .. } => "stop"@,
            StopReason::Canceled => "canceled"@,
            StopReason::GeneratedImage => "generated_image"@,
            StopReason::GeneratedSpeech => "generated_speech"@,
            StopReason::ToolCalls => "tool_calls"@,
        }
    }

    /// Whether the reason is a token that ends the text: such a token is
    /// kept out of what the client reads.
    pub open spec fn is_token_stop(self) -> bool {
        self is Eos || self is StopTok
    }

    /// The word under which a client sees the reason.
    pub fn to_string(&self) -> (s: String)
        ensures
            s@ == self.text(),
    {
        match self {
            StopReason::Eos => String::from_str("stop"),
            StopReason::Length(_) | StopReason::ModelLength(_) => String::from_str("length"),
            StopReason::StopTok(_) | StopReason::StopString { .. } => String::from_str("stop"),
            StopReason::Canceled => String::from_str("canceled"),
            StopReason::GeneratedImage => String::from_str("generated_image"),
            StopReason::GeneratedSpeech => String::from_str("generated_speech"),
            StopReason::ToolCalls => String::from_str("tool_calls"),
        }
    }
}

/// Where a sequence stands in its life.
#[derive(Clone, Copy, PartialEq, Eq, Structural, Debug)]
pub enum SequenceState {
    Done(StopReason),
    RunningPrompt,
    RunningCompletion,
    Waiting,
    Error,
    RunningPrefillPrompt,
    FinishedAborted,
    FinishedIgnored,
    Swapped,
}

impl SequenceState {
    /// Running a prompt or a completion.
    pub open spec fn is_running(self) -> bool {
        self is RunningCompletion || self is RunningPrompt
    }

    /// Running a prompt, prefilled or not.
    pub open spec fn is_prompt(self) -> bool {
        self is RunningPrompt || self is RunningPrefillPrompt
    }

    /// Finished, as the block engine counts it.
    pub open spec fn is_finished_paged_attn(self) -> bool {
        self is FinishedAborted || self is FinishedIgnored || self is Done
    }

    /// Whether a cancellation was asked for.
    pub open spec fn is_canceled(self) -> bool {
        self == SequenceState::Done(StopReason::Canceled)
    }
}

/// How a sequence is stepped: prompt first and then token by token, or all
/// in one pass.
#[derive(Clone, Copy, PartialEq, Eq, Structural, Debug)]
pub enum SeqStepType {
    PromptAndDecode,
    OneShot,
}

/// `pattern` stands in `text` at offset `pos`.
pub open spec fn occurs_at(text: Seq<u8>, pattern: Seq<u8>, pos: int) -> bool {
    &&& 0 <= pos
    &&& pos + pattern.len() <= text.len()
    &&& text.subrange(pos, pos + pattern.len()) == pattern
}

/// `pattern` stands in `text` at `pos` and nowhere before.
pub open spec fn is_first_occurrence(text: Seq<u8>, pattern: Seq<u8>, pos: int) -> bool {
    &&& occurs_at(text, pattern, pos)
    &&& forall|q: int| 0 <= q < pos ==> !occurs_at(text, pattern, q)
}

/// The offset of the leftmost occurrence of `pattern` in `text` at or after
/// `start`, if there is one.
pub open spec fn first_occurrence_from(text: Seq<u8>, pattern: Seq<u8>, start: int) -> Option<
    usize,
>
    decreases text.len() - start + 1,
{
    if start < 0 || start + pattern.len() > text.len() {
        None
    } else if occurs_at(text, pattern, start) {
        Some(start as usize)
    } else {
        first_occurrence_from(text, pattern, start + 1)
    }
}

/// The offset of the leftmost occurrence of `pattern` in `text`.
pub open spec fn first_occurrence(text: Seq<u8>, pattern: Seq<u8>) -> Option<usize> {
    first_occurrence_from(text, pattern, 0)
}

/// What `first_occurrence_from` finds is the leftmost occurrence from
/// `start` on, and it finds nothing only where there is none.
pub proof fn lemma_first_occurrence_from(text: Seq<u8>, pattern: Seq<u8>, start: int)
    requires
        0 <= start,
        text.len() <= usize::MAX,
    ensures
        match first_occurrence_from(text, pattern, start) {
            Some(p) => {
                &&& start <= p
                &&& occurs_at(text, pattern, p as int)
                &&& forall|q: int| start <= q < p ==> !occurs_at(text, pattern, q)
            },
            None => forall|q: int| start <= q ==> !occurs_at(text, pattern, q),
        },
    decreases text.len() - start + 1,
{
    if start + pattern.len() <= text.len() && !occurs_at(text, pattern, start) {
        lemma_first_occurrence_from(text, pattern, start + 1);
    }
}

/// The search for a pattern in a text, by
/// [`galil_seiferas::gs_find`]. Believed of it: it returns the offset at
/// which the pattern first stands in the text, and `None` exactly where the
/// pattern stands nowhere in it. The empty pattern stands at offset 0 of
/// every text.
#[verifier::external_body]
fn gs_find_bytes(text: &[u8], pattern: &[u8]) -> (found: Option<usize>)
    ensures
        match found {
            Some(pos) => is_first_occurrence(text@, pattern@, pos as int),
            None => forall|q: int| !occurs_at(text@, pattern@, q),
        },
{
    galil_seiferas::gs_find(text, pattern)
}

/// Where `pattern` first stands in `text`.
pub fn find_bytes(text: &[u8], pattern: &[u8]) -> (found: Option<usize>)
    ensures
        found == first_occurrence(text@, pattern@),
{
    let found = gs_find_bytes(text, pattern);
    let _ = text.len();
    proof {
        lemma_first_occurrence_from(text@, pattern@, 0);
    }
    found
}

/// The first of the stop strings, from `from` on, that stands in `text`,
/// with the offset at which it first stands there.
pub open spec fn first_stop_string(stop_strings: Seq<Seq<u8>>, text: Seq<u8>, from: int) -> Option<
    StopReason,
>
    decreases stop_strings.len() - from,
{
    if from < 0 || from >= stop_strings.len() {
        None
    } else {
        match first_occurrence(text, stop_strings[from]) {
            Some(pos) => Some(
                StopReason::StopString {
                    stop_string_idx: from as usize,
                    completion_bytes_pos: pos,
                },
            ),
            None => first_stop_string(stop_strings, text, from + 1),
        }
    }
}

/// The bytes of each stop string.
pub open spec fn stop_string_bytes(stop_strings: Seq<String>) -> Seq<Seq<u8>> {
    Seq::new(stop_strings.len(), |i: int| vstd::utf8::encode_utf8(stop_strings[i]@))
}

/// Whether generation stops after `tok`, and why. The first of these that
/// holds decides: the token is an end-of-sequence token; a cancellation was
/// asked for; the token is a stop token; with this token the generated
/// length reaches `max_len`; the generated length has reached the model's
/// limit; a stop string stands in the text produced so far.
pub open spec fn stop_decision(
    tok: u32,
    eos_tokens: Option<Seq<u32>>,
    canceled: bool,
    stop_tokens: Seq<u32>,
    generated: nat,
    max_len: Option<usize>,
    max_model_len: usize,
    stop_strings: Seq<Seq<u8>>,
    text: Seq<u8>,
) -> Option<StopReason> {
    if eos_tokens is Some && eos_tokens->0.contains(tok) {
        Some(StopReason::Eos)
    } else if canceled {
        Some(StopReason::Canceled)
    } else if stop_tokens.contains(tok) {
        Some(StopReason::StopTok(tok))
    } else if max_len is Some && generated + 1 >= max_len->0 {
        Some(StopReason::Length(max_len->0))
    } else if generated >= max_model_len {
        Some(StopReason::ModelLength(max_model_len))
    } else {
        first_stop_string(stop_strings, text, 0)
    }
}

/// Whether `tok` is one of `list`.
pub fn contains_token(list: &[u32], tok: u32) -> (found: bool)
    ensures
        found == list@.contains(tok),
{
    let mut i: usize = 0;
    while i < list.len()
        invariant
            i <= list.len(),
            forall|j: int| 0 <= j < i ==> list@[j] != tok,
        decreases list.len() - i,
    {
        if list[i] == tok {
            return true;
        }
        i = i + 1;
    }
    false
}

/// The first stop string that stands in `text`, as a reason to stop.
pub fn find_stop_string(stop_strings: &[String], text: &[u8]) -> (found: Option<StopReason>)
    ensures
        found == first_stop_string(stop_string_bytes(stop_strings@), text@, 0),
{
    let ghost all = stop_string_bytes(stop_strings@);
    let mut idx: usize = 0;
    while idx < stop_strings.len()
        invariant
            idx <= stop_strings.len(),
            all == stop_string_bytes(stop_strings@),
            first_stop_string(all, text@, 0) == first_stop_string(all, text@, idx as int),
        decreases stop_strings.len() - idx,
    {
        let pattern = stop_strings[idx].as_str().as_bytes();
        match find_bytes(text, pattern) {
            Some(pos) => {
                return Some(
                    StopReason::StopString { stop_string_idx: idx, completion_bytes_pos: pos },
                );
            },
            None => {},
        }
        idx = idx + 1;
    }
    None
}

/// Whether generation stops after `tok`, and why.
pub fn evaluate_stop(
    tok: u32,
    eos_tokens: Option<&[u32]>,
    canceled: bool,
    stop_tokens: &[u32],
    generated: usize,
    max_len: Option<usize>,
    max_model_len: usize,
    stop_strings: &[String],
    text: &[u8],
) -> (reason: Option<StopReason>)
    ensures
        reason == stop_decision(
            tok,
            match eos_tokens {
                Some(list) => Some(list@),
                None => None,
            },
            canceled,
            stop_tokens@,
            generated as nat,
            max_len,
            max_model_len,
            stop_string_bytes(stop_strings@),
            text@,
        ),
{
    let is_eos = match eos_tokens {
        Some(list) => contains_token(list, tok),
        None => false,
    };
    if is_eos {
        return Some(StopReason::Eos);
    }
    if canceled {
        return Some(StopReason::Canceled);
    }
    if contains_token(stop_tokens, tok) {
        return Some(StopReason::StopTok(tok));
    }
    match max_len {
        Some(limit) => {
            if limit == 0 || generated >= limit - 1 {
                return Some(StopReason::Length(limit));
            }
        },
        None => {},
    }
    if generated >= max_model_len {
        return Some(StopReason::ModelLength(max_model_len));
    }
    find_stop_string(stop_strings, text)
}

} // verus!
