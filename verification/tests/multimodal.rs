use mistralrs_sequence::multimodal::hash_audio;
use mistralrs_sequence::multimodal::hash_image;
use mistralrs_sequence::multimodal::AudioInput;
use mistralrs_sequence::multimodal::ColorType;
use mistralrs_sequence::multimodal::DiffusionGenerationParams;
use mistralrs_sequence::multimodal::ImageGenerationResponseFormat;
use mistralrs_sequence::multimodal::ImageInput;
use mistralrs_sequence::multimodal::MultimodalData;
use mistralrs_sequence::multimodal::SequenceAudios;
use mistralrs_sequence::multimodal::SequenceImages;
use mistralrs_sequence::sequence::Sequence;
use mistralrs_sequence::sequence::SequenceRecognizer;
use mistralrs_sequence::stop::SeqStepType;
use std::collections::hash_map::DefaultHasher;
use std::hash::Hash;
use std::hash::Hasher;

fn audio(samples: &[f32], sample_rate: u32) -> AudioInput {
    AudioInput { samples: samples.iter().map(|s| s.to_bits()).collect(), sample_rate, channels: 1 }
}

fn image(width: u32, height: u32, fill: u8) -> ImageInput {
    ImageInput {
        width,
        height,
        color: ColorType::Rgb8,
        bytes: vec![fill; (width * height * 3) as usize],
    }
}

fn widths(images: &[ImageInput]) -> Vec<u32> {
    images.iter().map(|i| i.width).collect()
}

fn rates(audios: &[AudioInput]) -> Vec<u32> {
    audios.iter().map(|a| a.sample_rate).collect()
}

#[test]
fn the_digest_of_sound_is_that_of_its_samples_and_its_rate() {
    let samples = [0.0f32, 0.5, -1.25, 3.0e-3];
    let mut hasher = DefaultHasher::new();
    for s in &samples {
        s.to_bits().hash(&mut hasher);
    }
    16000u32.hash(&mut hasher);
    assert_eq!(hash_audio(&audio(&samples, 16000)), hasher.finish());
    let mut hasher = DefaultHasher::new();
    8000u32.hash(&mut hasher);
    assert_eq!(hash_audio(&audio(&[], 8000)), hasher.finish());
}

#[test]
fn the_digest_of_an_image_is_that_of_its_bytes() {
    let img = ImageInput {
        width: 2,
        height: 1,
        color: ColorType::Rgb8,
        bytes: vec![1, 2, 3, 4, 5, 6],
    };
    let mut hasher = DefaultHasher::new();
    let bytes: &[u8] = &[1, 2, 3, 4, 5, 6];
    bytes.hash(&mut hasher);
    assert_eq!(hash_image(&img), hasher.finish());
    let empty = ImageInput { width: 0, height: 0, color: ColorType::L8, bytes: Vec::new() };
    let mut hasher = DefaultHasher::new();
    let bytes: &[u8] = &[];
    bytes.hash(&mut hasher);
    assert_eq!(hash_image(&empty), hasher.finish());
}

#[test]
fn digests_tell_inputs_apart() {
    assert_eq!(hash_audio(&audio(&[0.5, 0.25], 16000)), hash_audio(&audio(&[0.5, 0.25], 16000)));
    assert_ne!(hash_audio(&audio(&[0.5, 0.25], 16000)), hash_audio(&audio(&[0.25, 0.5], 16000)));
    assert_ne!(hash_audio(&audio(&[0.5, 0.25], 16000)), hash_audio(&audio(&[0.5, 0.25], 8000)));
    assert_ne!(hash_audio(&audio(&[0.5], 16000)), hash_audio(&audio(&[0.5, 0.5], 16000)));
    assert_eq!(hash_image(&image(2, 2, 7)), hash_image(&image(2, 2, 7)));
    assert_ne!(hash_image(&image(2, 2, 7)), hash_image(&image(2, 2, 8)));
    assert_ne!(hash_image(&image(2, 2, 7)), hash_image(&image(2, 3, 7)));
    let wide = ImageInput { width: 4, height: 1, color: ColorType::Rgb8, bytes: vec![7; 12] };
    assert_eq!(hash_image(&image(2, 2, 7)), hash_image(&wide));
}

#[test]
fn sound_is_held_with_a_digest_for_each_piece() {
    let held = SequenceAudios::new(vec![audio(&[0.5], 1), audio(&[0.25], 2), audio(&[0.5], 1)]);
    assert_eq!(rates(held.audios()), vec![1, 2, 1]);
    assert_eq!(held.hashes().len(), 3);
    assert_eq!(held.hashes()[0], hash_audio(&audio(&[0.5], 1)));
    assert_eq!(held.hashes()[1], hash_audio(&audio(&[0.25], 2)));
    assert_eq!(held.hashes()[0], held.hashes()[2]);
    let copy = held.clone_audios();
    assert_eq!(rates(&copy), vec![1, 2, 1]);
    assert_eq!(copy[1].samples, vec![0.25f32.to_bits()]);
    assert_eq!(copy[1].channels, 1);
    let twin = held.clone();
    assert_eq!(rates(twin.audios()), vec![1, 2, 1]);
    assert_eq!(twin.hashes(), held.hashes());
    assert_eq!(twin.audios()[0].samples, vec![0.5f32.to_bits()]);
    let none = SequenceAudios::new(Vec::new());
    assert!(none.audios().is_empty());
    assert!(none.hashes().is_empty());
}

#[test]
fn the_last_pieces_of_sound_are_kept_with_all_digests() {
    let mut held = SequenceAudios::new(vec![audio(&[], 1), audio(&[], 2), audio(&[], 3)]);
    let digests = held.hashes().to_vec();
    held.keep_num_audios(5);
    assert_eq!(rates(held.audios()), vec![1, 2, 3]);
    held.keep_num_audios(3);
    assert_eq!(rates(held.audios()), vec![1, 2, 3]);
    held.keep_num_audios(2);
    assert_eq!(rates(held.audios()), vec![2, 3]);
    assert_eq!(held.hashes(), &digests[..]);
    held.audios_mut().push(audio(&[], 4));
    assert_eq!(rates(held.audios()), vec![2, 3, 4]);
    assert_eq!(held.hashes(), &digests[..]);
    held.keep_num_audios(0);
    assert!(held.audios().is_empty());
    assert_eq!(held.hashes().len(), 3);
}

#[test]
fn images_are_held_with_a_digest_for_each() {
    let mut held = SequenceImages::new(vec![image(1, 1, 0), image(2, 1, 0), image(3, 1, 0)]);
    assert_eq!(widths(held.images()), vec![1, 2, 3]);
    assert_eq!(held.hashes().len(), 3);
    assert_eq!(held.hashes()[2], hash_image(&image(3, 1, 0)));
    let copy = held.clone_images();
    assert_eq!(widths(&copy), vec![1, 2, 3]);
    assert_eq!(copy[2].bytes, vec![0; 9]);
    assert_eq!(copy[2].color, ColorType::Rgb8);
    let digests = held.hashes().to_vec();
    held.keep_num_images(1);
    assert_eq!(widths(held.images()), vec![3]);
    assert_eq!(held.hashes(), &digests[..]);
    held.images_mut().clear();
    assert!(held.images().is_empty());
    assert_eq!(held.hashes(), &digests[..]);
}

#[test]
fn data_without_inputs_has_none() {
    let mut data = MultimodalData::new(None, None, None, None);
    assert!(!data.has_images());
    assert!(!data.has_audios());
    assert!(data.images().is_none());
    assert!(data.audios().is_none());
    assert!(data.image_hashes().is_none());
    assert!(data.audio_hashes().is_none());
    assert!(data.clone_images().is_none());
    assert!(data.clone_audios().is_none());
    assert!(data.take_images().is_none());
    assert!(data.take_audios().is_none());
    data.has_changed_prompt = true;
    assert!(data.take_images().is_none());
    assert!(data.take_audios().is_none());
    data.keep_num_images(1);
    data.keep_num_audios(1);
    assert!(data.image_gen_response_format().is_none());
    assert!(data.diffusion_params().is_none());
    assert!(data.cached_pixel_values.is_none());
}

#[test]
fn empty_inputs_are_inputs_but_hold_nothing() {
    let data = MultimodalData::new(Some(Vec::new()), Some(Vec::new()), None, None);
    assert!(!data.has_images());
    assert!(!data.has_audios());
    assert_eq!(data.images().map(|i| i.len()), Some(0));
    assert_eq!(data.audios().map(|a| a.len()), Some(0));
}

#[test]
fn images_are_copied_until_the_prompt_has_changed() {
    let mut data = MultimodalData::new(
        Some(vec![image(1, 1, 0), image(2, 1, 0)]),
        None,
        Some(ImageGenerationResponseFormat::B64Json),
        Some(DiffusionGenerationParams { height: 720, width: 1280 }),
    );
    assert!(data.has_images());
    assert_eq!(data.image_gen_response_format(), Some(ImageGenerationResponseFormat::B64Json));
    assert_eq!(data.diffusion_params(), Some(DiffusionGenerationParams { height: 720, width: 1280 }));
    assert_eq!(data.take_images().map(|i| widths(&i)), Some(vec![1, 2]));
    assert_eq!(data.take_images().map(|i| widths(&i)), Some(vec![1, 2]));
    assert_eq!(data.clone_images().map(|i| widths(&i)), Some(vec![1, 2]));
    assert!(data.has_images());
    data.has_changed_prompt = true;
    assert_eq!(data.take_images().map(|i| widths(&i)), Some(vec![1, 2]));
    assert!(!data.has_images());
    assert_eq!(data.take_images().map(|i| widths(&i)), Some(Vec::new()));
    assert_eq!(data.image_hashes().map(|h| h.len()), Some(2));
}

#[test]
fn sound_is_copied_until_the_prompt_has_changed() {
    let mut data = MultimodalData::new(None, Some(vec![audio(&[0.5], 1), audio(&[], 2)]), None, None);
    assert!(data.has_audios());
    assert_eq!(data.take_audios().map(|a| rates(&a)), Some(vec![1, 2]));
    assert_eq!(data.clone_audios().map(|a| rates(&a)), Some(vec![1, 2]));
    assert_eq!(data.audios().map(rates), Some(vec![1, 2]));
    data.keep_num_audios(1);
    assert_eq!(data.audios().map(rates), Some(vec![2]));
    assert_eq!(data.audio_hashes().map(|h| h.len()), Some(2));
    data.has_changed_prompt = true;
    assert_eq!(data.take_audios().map(|a| rates(&a)), Some(vec![2]));
    assert!(!data.has_audios());
    assert_eq!(data.audio_hashes().map(|h| h.len()), Some(2));
}

#[test]
fn a_sequence_holds_what_was_given_with_its_prompt() {
    let mut seq = Sequence::new_waiting(
        vec![1],
        String::new(),
        0,
        0,
        1,
        tokio::sync::mpsc::channel(1).0,
        Vec::new(),
        Vec::new(),
        None,
        false,
        false,
        0,
        0,
        SequenceRecognizer::Absent,
        None,
        None,
        Some(vec![image(1, 1, 0), image(2, 1, 0), image(3, 1, 0)]),
        Some(vec![audio(&[0.5], 1)]),
        None,
        Some(ImageGenerationResponseFormat::Url),
        SeqStepType::OneShot,
        Some(DiffusionGenerationParams { height: 8, width: 16 }),
        None,
        true,
        Vec::new(),
    );
    assert!(matches!(seq.sequence_stepping_type(), SeqStepType::OneShot));
    assert!(seq.return_raw_logits());
    assert!(seq.multimodal().has_images());
    assert!(seq.multimodal().has_audios());
    assert_eq!(seq.multimodal().images().map(widths), Some(vec![1, 2, 3]));
    assert_eq!(seq.multimodal().image_hashes().map(|h| h.len()), Some(3));
    assert_eq!(seq.multimodal().audio_hashes().map(|h| h.len()), Some(1));
    assert_eq!(
        seq.multimodal().image_gen_response_format(),
        Some(ImageGenerationResponseFormat::Url)
    );
    assert_eq!(
        seq.multimodal().diffusion_params(),
        Some(DiffusionGenerationParams { height: 8, width: 16 })
    );
    assert!(seq.has_images() && seq.has_audios());
    assert_eq!(seq.images().map(widths), Some(vec![1, 2, 3]));
    assert_eq!(seq.audios().map(rates), Some(vec![1]));
    assert_eq!(seq.image_hashes().map(|h| h.to_vec()), seq.multimodal().image_hashes().map(|h| h.to_vec()));
    assert_eq!(seq.audio_hashes().map(|h| h.len()), Some(1));
    assert_eq!(seq.clone_images().map(|i| widths(&i)), Some(vec![1, 2, 3]));
    assert_eq!(seq.clone_audios().map(|a| rates(&a)), Some(vec![1]));
    assert_eq!(seq.image_gen_response_format(), Some(ImageGenerationResponseFormat::Url));
    assert_eq!(
        seq.get_diffusion_diffusion_params(),
        Some(DiffusionGenerationParams { height: 8, width: 16 })
    );
    seq.keep_num_images(2);
    assert_eq!(seq.images().map(widths), Some(vec![2, 3]));
    assert_eq!(seq.take_images().map(|i| widths(&i)), Some(vec![2, 3]));
    assert!(seq.has_images());
    seq.keep_num_audios(4);
    assert_eq!(seq.take_audios().map(|a| rates(&a)), Some(vec![1]));
    assert!(seq.has_audios());
    seq.multimodal_mut().has_changed_prompt = true;
    assert_eq!(seq.take_images().map(|i| widths(&i)), Some(vec![2, 3]));
    assert!(!seq.has_images());
    assert_eq!(seq.take_audios().map(|a| rates(&a)), Some(vec![1]));
    assert!(!seq.has_audios());
    assert_eq!(seq.image_hashes().map(|h| h.len()), Some(3));
    seq.keep_num_audios(0);
    assert_eq!(seq.audios().map(|a| a.len()), Some(0));
}
