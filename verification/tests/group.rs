use mistralrs_sequence::group::SequenceGroup;
use mistralrs_sequence::response::ChatCompletionResponse;
use mistralrs_sequence::response::Choice;
use mistralrs_sequence::response::ChunkChoice;
use mistralrs_sequence::response::CompletionChoice;
use mistralrs_sequence::response::CompletionChunkChoice;
use mistralrs_sequence::response::CompletionResponse;
use mistralrs_sequence::response::Delta;
use mistralrs_sequence::response::ImageChoice;
use mistralrs_sequence::response::ImageGenerationResponse;
use mistralrs_sequence::response::Response;
use mistralrs_sequence::response::ResponseMessage;
use mistralrs_sequence::response::TensorHandle;
use mistralrs_sequence::response::Usage;
use mistralrs_sequence::sequence::Sequence;
use mistralrs_sequence::sequence::SequenceRecognizer;
use mistralrs_sequence::stop::SeqStepType;
use std::sync::Arc;

/// An integer that orders as the float does.
fn key(score: f32) -> i64 {
    let bits = score.to_bits() as i32;
    let ordered = if bits < 0 { bits ^ 0x7fff_ffff } else { bits };
    ordered as i64
}

fn chat(index: usize, text: &str) -> Choice {
    Choice {
        finish_reason: "stop".to_string(),
        index,
        message: ResponseMessage { content: Some(text.to_string()), role: "assistant".to_string() },
        logprobs: None,
    }
}

fn completion(index: usize, text: &str) -> CompletionChoice {
    CompletionChoice { finish_reason: "stop".to_string(), index, text: text.to_string() }
}

fn chunk(index: usize, text: &str) -> ChunkChoice {
    ChunkChoice {
        finish_reason: None,
        index,
        delta: Delta { content: Some(text.to_string()), role: "assistant".to_string() },
        logprobs: None,
    }
}

fn completion_chunk(index: usize, text: &str) -> CompletionChunkChoice {
    CompletionChunkChoice { text: text.to_string(), index, logprobs: None, finish_reason: None }
}

fn usage() -> Usage {
    Usage {
        completion_tokens: 1,
        prompt_tokens: 2,
        total_tokens: 3,
        total_time: 4,
        total_prompt_time: 5,
        total_completion_time: 6,
    }
}

fn chat_response(id: &str) -> ChatCompletionResponse {
    ChatCompletionResponse {
        id: id.to_string(),
        choices: Vec::new(),
        created: 7,
        model: "m".to_string(),
        system_fingerprint: "local".to_string(),
        object: "chat.completion".to_string(),
        usage: usage(),
    }
}

fn completion_response(id: &str) -> CompletionResponse {
    CompletionResponse {
        id: id.to_string(),
        choices: Vec::new(),
        created: 7,
        model: "m".to_string(),
        system_fingerprint: "local".to_string(),
        object: "text_completion".to_string(),
        usage: usage(),
    }
}

fn sequence(id: usize, timestamp: u128) -> Sequence {
    Sequence::new_waiting(
        vec![1, 2, 3],
        "prompt".to_string(),
        id,
        timestamp,
        2,
        tokio::sync::mpsc::channel(1).0,
        Vec::new(),
        Vec::new(),
        None,
        false,
        false,
        0,
        0,
        SequenceRecognizer::Absent,
        None,
        None,
        None,
        None,
        None,
        None,
        SeqStepType::PromptAndDecode,
        None,
        None,
        false,
        Vec::new(),
    )
}

fn texts(choices: &[CompletionChoice]) -> Vec<String> {
    choices.iter().map(|c| c.text.clone()).collect()
}

fn ranked(scores: &[f32], best_of: Option<usize>) -> Vec<String> {
    let mut group = SequenceGroup::new(scores.len(), false, false, best_of);
    for (i, score) in scores.iter().enumerate() {
        group.add_completion_choice(key(*score), completion(i, &format!("{}:{}", i, score)));
    }
    texts(&group.get_completion_choices())
}

#[test]
fn a_new_group_holds_nothing() {
    let group = SequenceGroup::new(3, true, false, Some(2));
    assert_eq!(group.n_choices(), 3);
    assert!(group.is_streaming());
    assert!(!group.is_chat());
    assert!(group.get_choices().is_empty());
    assert!(group.get_image_choices().is_empty());
    assert!(group.get_completion_choices().is_empty());
    assert!(group.chat_streaming_chunks().is_empty());
    assert!(group.completion_streaming_chunks().is_empty());
    assert_eq!(
        group.get_usage(),
        Usage {
            completion_tokens: 0,
            prompt_tokens: 0,
            total_tokens: 0,
            total_time: 0,
            total_prompt_time: 0,
            total_completion_time: 0,
        }
    );
}

#[test]
fn two_chat_choices_give_one_done_message() {
    for order in [[0usize, 1usize], [1, 0]] {
        let mut group = SequenceGroup::new(2, false, true, None);
        let mut sent = 0;
        if group.maybe_send_chat_done_response(chat_response("before")).is_some() {
            sent += 1;
        }
        for index in order {
            group.add_choice(chat(index, "text"));
            match group.maybe_send_chat_done_response(chat_response("r")) {
                Some(Response::Done(response)) => {
                    assert_eq!(response.id, "r");
                    sent += 1;
                }
                Some(_) => panic!("not a chat response"),
                None => {}
            }
        }
        assert_eq!(sent, 1);
        assert_eq!(group.get_choices().len(), 2);
        assert_eq!(group.get_choices()[0].index, order[0]);
        assert_eq!(group.get_choices()[1].index, order[1]);
    }
}

#[test]
fn a_third_choice_gives_no_second_done_message() {
    let mut group = SequenceGroup::new(2, false, true, None);
    group.add_choice(chat(0, "a"));
    group.add_choice(chat(1, "b"));
    assert!(group.maybe_send_chat_done_response(chat_response("r")).is_some());
    group.add_choice(chat(2, "c"));
    assert!(group.maybe_send_chat_done_response(chat_response("r")).is_none());
}

#[test]
fn a_failed_sequence_lets_the_group_finish_with_fewer_choices() {
    let mut group = SequenceGroup::new(3, false, true, None);
    group.add_choice(chat(0, "a"));
    assert!(group.maybe_send_chat_done_response(chat_response("r")).is_none());
    group.drop_failed_choice();
    assert_eq!(group.n_choices(), 2);
    assert!(group.maybe_send_chat_done_response(chat_response("r")).is_none());
    group.add_choice(chat(2, "c"));
    assert!(group.maybe_send_chat_done_response(chat_response("r")).is_some());
}

#[test]
fn the_number_of_choices_waited_for_never_falls_below_none() {
    let mut group = SequenceGroup::new(1, false, true, None);
    group.drop_failed_choice();
    assert_eq!(group.n_choices(), 0);
    group.drop_failed_choice();
    assert_eq!(group.n_choices(), 0);
}

#[test]
fn the_best_two_of_three_come_best_first() {
    assert_eq!(ranked(&[1.0, 3.0, 2.0], Some(2)), vec!["1:3", "2:2"]);
}

#[test]
fn choices_of_one_score_stay_in_the_order_in_which_they_came() {
    assert_eq!(
        ranked(&[2.0, 5.0, 2.0, 5.0, 2.0], Some(5)),
        vec!["1:5", "3:5", "0:2", "2:2", "4:2"]
    );
    assert_eq!(ranked(&[2.0, 5.0, 2.0, 5.0, 2.0], Some(3)), vec!["1:5", "3:5", "0:2"]);
}

#[test]
fn log_probabilities_below_zero_rank_as_numbers_do() {
    assert_eq!(
        ranked(&[-3.5, -0.25, -12.0, -0.5], Some(4)),
        vec!["1:-0.25", "3:-0.5", "0:-3.5", "2:-12"]
    );
    assert_eq!(ranked(&[-3.5, 0.5, -12.0], Some(1)), vec!["1:0.5"]);
}

#[test]
fn best_of_more_than_there_are_gives_them_all_ranked() {
    assert_eq!(ranked(&[1.0, 3.0, 2.0], Some(10)), vec!["1:3", "2:2", "0:1"]);
    assert_eq!(ranked(&[1.0, 3.0, 2.0], Some(3)), vec!["1:3", "2:2", "0:1"]);
}

#[test]
fn best_of_none_gives_nothing() {
    assert_eq!(ranked(&[1.0, 3.0, 2.0], Some(0)), Vec::<String>::new());
}

#[test]
fn without_best_of_the_choices_come_as_they_came() {
    assert_eq!(ranked(&[1.0, 3.0, 2.0], None), vec!["0:1", "1:3", "2:2"]);
    assert_eq!(ranked(&[], None), Vec::<String>::new());
    assert_eq!(ranked(&[], Some(2)), Vec::<String>::new());
}

#[test]
fn the_choices_handed_out_are_copies() {
    let mut group = SequenceGroup::new(1, false, false, Some(1));
    group.add_completion_choice(key(1.0), completion(4, "text"));
    let first = group.get_completion_choices();
    let second = group.get_completion_choices();
    assert_eq!(first.len(), 1);
    assert_eq!(first[0].text, "text");
    assert_eq!(first[0].index, 4);
    assert_eq!(first[0].finish_reason, "stop");
    assert_eq!(second[0].text, "text");
}

#[test]
fn the_completion_response_waits_for_every_choice() {
    let mut group = SequenceGroup::new(2, false, false, None);
    group.add_completion_choice(key(0.0), completion(0, "a"));
    assert!(group.maybe_send_completion_done_response(completion_response("r")).is_none());
    group.add_completion_choice(key(0.0), completion(1, "b"));
    match group.maybe_send_completion_done_response(completion_response("r")) {
        Some(Response::CompletionDone(response)) => assert_eq!(response.id, "r"),
        _ => panic!("no completion response"),
    }
}

#[test]
fn the_images_wait_for_every_choice() {
    let mut group = SequenceGroup::new(2, false, false, None);
    let response = || ImageGenerationResponse { created: 9, data: Vec::new() };
    group.add_image_choice(ImageChoice { url: Some("a".to_string()), b64_json: None });
    assert!(group.maybe_send_image_gen_response(response()).is_none());
    group.add_image_choice(ImageChoice { url: None, b64_json: Some("b".to_string()) });
    assert_eq!(group.get_image_choices().len(), 2);
    match group.maybe_send_image_gen_response(response()) {
        Some(Response::ImageGeneration(response)) => assert_eq!(response.created, 9),
        _ => panic!("no images"),
    }
}

#[test]
fn the_raw_logits_go_out_with_their_tokens() {
    let mut group = SequenceGroup::new(1, false, false, None);
    assert!(group.maybe_send_raw_done_response().is_none());
    group.add_raw_choice(
        vec![TensorHandle { id: 3, dims: vec![1, 8] }, TensorHandle { id: 4, dims: vec![1, 2] }],
        vec![5, 6, 7],
    );
    match group.maybe_send_raw_done_response() {
        Some(Response::Raw { logits_chunks, tokens }) => {
            assert_eq!(tokens, vec![5, 6, 7]);
            assert_eq!(logits_chunks.len(), 2);
            assert_eq!(logits_chunks[0].id, 3);
            assert_eq!(logits_chunks[0].dims, vec![1, 8]);
            assert_eq!(logits_chunks[1].id, 4);
            assert_eq!(logits_chunks[1].dims, vec![1, 2]);
        }
        _ => panic!("no raw logits"),
    }
}

#[test]
fn the_sound_of_the_one_producer_goes_out() {
    let mut group = SequenceGroup::new(1, false, false, None);
    let pcm = Arc::new(vec![0.5f32.to_bits(), (-1.0f32).to_bits()]);
    group.add_speech_pcm(pcm.clone(), 24000, 1);
    match group.maybe_send_speech_response() {
        Response::Speech { pcm: sent, rate, channels } => {
            assert!(Arc::ptr_eq(&sent, &pcm));
            assert_eq!(*sent, vec![0.5f32.to_bits(), (-1.0f32).to_bits()]);
            assert_eq!(rate, 24000);
            assert_eq!(channels, 1);
        }
        _ => panic!("no sound"),
    }
}

#[test]
fn usage_counts_the_tokens_beyond_the_prompt() {
    let mut group = SequenceGroup::new(1, false, true, None);
    group.record_usage(10, 25, 3000, Some((1000, 2000)));
    assert_eq!(
        group.get_usage(),
        Usage {
            completion_tokens: 15,
            prompt_tokens: 10,
            total_tokens: 25,
            total_time: 3000,
            total_prompt_time: 1000,
            total_completion_time: 2000,
        }
    );
    group.record_usage(30, 25, 4000, None);
    assert_eq!(
        group.get_usage(),
        Usage {
            completion_tokens: 0,
            prompt_tokens: 30,
            total_tokens: 25,
            total_time: 4000,
            total_prompt_time: 1000,
            total_completion_time: 2000,
        }
    );
}

#[test]
fn a_streaming_step_goes_out_once_every_chunk_is_there() {
    let seq = sequence(1234, 99);
    let mut group = SequenceGroup::new(2, true, true, None);
    group.add_streaming_chunk_choice(chunk(0, "a"));
    assert!(group.maybe_send_streaming_response(&seq, "model".to_string(), None).is_none());
    assert_eq!(group.chat_streaming_chunks().len(), 1);
    group.add_streaming_chunk_choice(chunk(1, "b"));
    match group.maybe_send_streaming_response(&seq, "model".to_string(), Some(usage())) {
        Some(Response::Chunk(response)) => {
            assert_eq!(response.id, "1234");
            assert_eq!(response.created, 99);
            assert_eq!(response.model, "model");
            assert_eq!(response.system_fingerprint, "local");
            assert_eq!(response.object, "chat.completion.chunk");
            assert_eq!(response.usage, Some(usage()));
            assert_eq!(response.choices.len(), 2);
            assert_eq!(response.choices[0].index, 0);
            assert_eq!(response.choices[1].index, 1);
            assert_eq!(response.choices[1].delta.content, Some("b".to_string()));
        }
        _ => panic!("no chunk"),
    }
    assert!(group.chat_streaming_chunks().is_empty());
    assert!(group.maybe_send_streaming_response(&seq, "model".to_string(), None).is_none());
    group.add_streaming_chunk_choice(chunk(1, "c"));
    group.add_streaming_chunk_choice(chunk(0, "d"));
    match group.maybe_send_streaming_response(&seq, "model".to_string(), None) {
        Some(Response::Chunk(response)) => {
            assert_eq!(response.choices[0].index, 1);
            assert_eq!(response.usage, None);
        }
        _ => panic!("no second chunk"),
    }
}

#[test]
fn the_id_of_a_chunk_is_the_number_of_the_sequence_in_decimal() {
    for id in [0usize, 7, 10, 109, 4096, 1234567890] {
        let seq = sequence(id, 1);
        let mut group = SequenceGroup::new(1, true, true, None);
        group.add_streaming_chunk_choice(chunk(0, "a"));
        match group.maybe_send_streaming_response(&seq, "m".to_string(), None) {
            Some(Response::Chunk(response)) => assert_eq!(response.id, format!("{}", id)),
            _ => panic!("no chunk"),
        }
    }
}

#[test]
fn completion_chunks_go_out_as_text_completion() {
    let seq = sequence(5, 77);
    let mut group = SequenceGroup::new(1, true, false, None);
    group.add_streaming_completion_chunk_choice(completion_chunk(0, "a"));
    match group.maybe_send_streaming_response(&seq, "model".to_string(), None) {
        Some(Response::CompletionChunk(response)) => {
            assert_eq!(response.id, "5");
            assert_eq!(response.created, 77);
            assert_eq!(response.model, "model");
            assert_eq!(response.system_fingerprint, "local");
            assert_eq!(response.object, "text_completion");
            assert_eq!(response.choices.len(), 1);
            assert_eq!(response.choices[0].text, "a");
        }
        _ => panic!("no completion chunk"),
    }
    assert!(group.completion_streaming_chunks().is_empty());
}

#[test]
fn a_group_that_does_not_stream_sends_no_chunks() {
    let seq = sequence(5, 77);
    let mut group = SequenceGroup::new(1, false, true, None);
    group.add_streaming_chunk_choice(chunk(0, "a"));
    group.add_streaming_completion_chunk_choice(completion_chunk(0, "a"));
    assert!(group.maybe_send_streaming_response(&seq, "model".to_string(), None).is_none());
    assert_eq!(group.chat_streaming_chunks().len(), 1);
    assert_eq!(group.completion_streaming_chunks().len(), 1);
}

#[test]
fn chat_chunks_go_out_before_completion_chunks() {
    let seq = sequence(5, 77);
    let mut group = SequenceGroup::new(1, true, true, None);
    group.add_streaming_chunk_choice(chunk(0, "a"));
    group.add_streaming_completion_chunk_choice(completion_chunk(0, "a"));
    assert!(matches!(
        group.maybe_send_streaming_response(&seq, "model".to_string(), None),
        Some(Response::Chunk(_))
    ));
    assert_eq!(group.completion_streaming_chunks().len(), 1);
    assert!(matches!(
        group.maybe_send_streaming_response(&seq, "model".to_string(), None),
        Some(Response::CompletionChunk(_))
    ));
    assert!(group.maybe_send_streaming_response(&seq, "model".to_string(), None).is_none());
}
