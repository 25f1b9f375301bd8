//! What a sequence carries besides text: images and sound given with the
//! prompt, each with a digest under which a cache can find it again.

use crate::response::TensorHandle;
use std::collections::hash_map::DefaultHasher;
use std::hash::Hasher;
use vstd::bytes::spec_u32_to_le_bytes;
use vstd::bytes::spec_u64_to_le_bytes;
use vstd::bytes::u32_to_le_bytes;
use vstd::bytes::u64_to_le_bytes;
use vstd::prelude::*;
use vstd::std_specs::hash::DefaultHasherAdditionalSpecFns;

verus! {

/// Sound given with a prompt. A sample is held as the bits of a 32-bit
/// float.
pub struct AudioInput {
    pub samples: Vec<u32>,
    pub sample_rate: u32,
    pub channels: u16,
}

/// What a piece of sound is: its samples, its rate, its channels.
pub struct AudioView {
    pub samples: Seq<u32>,
    pub sample_rate: u32,
    pub channels: u16,
}

impl View for AudioInput {
    type V = AudioView;

    open spec fn view(&self) -> AudioView {
        AudioView {
            samples: self.samples@,
            sample_rate: self.sample_rate,
            channels: self.channels,
        }
    }
}

impl Clone for AudioInput {
    fn clone(&self) -> (copy: Self)
        ensures
            copy@ == self@,
    {
        AudioInput {
            samples: self.samples.clone(),
            sample_rate: self.sample_rate,
            channels: self.channels,
        }
    }
}

/// How the pixels of an image are laid out.
#[derive(Clone, Copy, PartialEq, Eq, Structural, Debug)]
pub enum ColorType {
    L8,
    La8,
    Rgb8,
    Rgba8,
    L16,
    La16,
    Rgb16,
    Rgba16,
    Rgb32F,
    Rgba32F,
}

/// An image given with a prompt: its size, the layout of its pixels, and
/// the bytes of its pixels.
pub struct ImageInput {
    pub width: u32,
    pub height: u32,
    pub color: ColorType,
    pub bytes: Vec<u8>,
}

/// What an image is.
pub struct ImageView {
    pub width: u32,
    pub height: u32,
    pub color: ColorType,
    pub bytes: Seq<u8>,
}

impl View for ImageInput {
    type V = ImageView;

    open spec fn view(&self) -> ImageView {
        ImageView {
            width: self.width,
            height: self.height,
            color: self.color,
            bytes: self.bytes@,
        }
    }
}

impl Clone for ImageInput {
    fn clone(&self) -> (copy: Self)
        ensures
            copy@ == self@,
    {
        ImageInput {
            width: self.width,
            height: self.height,
            color: self.color,
            bytes: self.bytes.clone(),
        }
    }
}

/// What each piece of sound is.
pub open spec fn audio_views(audios: Seq<AudioInput>) -> Seq<AudioView> {
    Seq::new(audios.len(), |i: int| audios[i]@)
}

/// What each image is.
pub open spec fn image_views(images: Seq<ImageInput>) -> Seq<ImageView> {
    Seq::new(images.len(), |i: int| images[i]@)
}

/// What the hasher is fed for a piece of sound: each sample, then the rate,
/// each as four bytes, least first.
pub open spec fn audio_hash_input(audio: AudioView) -> Seq<Seq<u8>> {
    Seq::new(audio.samples.len(), |i: int| spec_u32_to_le_bytes(audio.samples[i])).push(
        spec_u32_to_le_bytes(audio.sample_rate),
    )
}

/// The digest of a piece of sound.
pub open spec fn audio_digest(audio: AudioView) -> u64 {
    DefaultHasher::spec_finish(audio_hash_input(audio))
}

/// The digest of an image: that of the number of its bytes, as eight bytes
/// least first, and then of the bytes.
pub open spec fn image_digest(image: ImageView) -> u64 {
    DefaultHasher::spec_finish(
        seq![spec_u64_to_le_bytes(image.bytes.len() as u64), image.bytes],
    )
}

/// The digest of each piece of sound.
pub open spec fn audio_digests(audios: Seq<AudioInput>) -> Seq<u64> {
    Seq::new(audios.len(), |i: int| audio_digest(audios[i]@))
}

/// The digest of each image.
pub open spec fn image_digests(images: Seq<ImageInput>) -> Seq<u64> {
    Seq::new(images.len(), |i: int| image_digest(images[i]@))
}

/// The digest of a piece of sound.
pub fn hash_audio(audio: &AudioInput) -> (digest: u64)
    ensures
        digest == audio_digest(audio@),
{
    let mut hasher = DefaultHasher::new();
    let mut i: usize = 0;
    while i < audio.samples.len()
        invariant
            i <= audio.samples.len(),
            hasher@ == Seq::new(i as nat, |j: int| spec_u32_to_le_bytes(audio.samples@[j])),
        decreases audio.samples.len() - i,
    {
        let bytes = u32_to_le_bytes(audio.samples[i]);
        hasher.write(bytes.as_slice());
        i = i + 1;
    }
    let rate = u32_to_le_bytes(audio.sample_rate);
    hasher.write(rate.as_slice());
    hasher.finish()
}

/// The digest of an image.
pub fn hash_image(image: &ImageInput) -> (digest: u64)
    ensures
        digest == image_digest(image@),
{
    let mut hasher = DefaultHasher::new();
    let len = u64_to_le_bytes(image.bytes.len() as u64);
    hasher.write(len.as_slice());
    hasher.write(image.bytes.as_slice());
    assert(hasher@ =~= seq![spec_u64_to_le_bytes(image.bytes@.len() as u64), image.bytes@]);
    hasher.finish()
}

/// The sound of a sequence, with the digest of each piece as it was given.
pub struct SequenceAudios {
    audios: Vec<AudioInput>,
    hashes: Vec<u64>,
}

impl SequenceAudios {
    /// The pieces of sound held.
    pub closed spec fn spec_audios(&self) -> Seq<AudioInput> {
        self.audios@
    }

    /// The digests held.
    pub closed spec fn spec_hashes(&self) -> Seq<u64> {
        self.hashes@
    }

    /// Holds the sound given, with the digest of each piece.
    pub fn new(input_audios: Vec<AudioInput>) -> (held: Self)
        ensures
            held.spec_audios() == input_audios@,
            held.spec_hashes() == audio_digests(input_audios@),
    {
        let mut hashes: Vec<u64> = Vec::new();
        let mut i: usize = 0;
        while i < input_audios.len()
            invariant
                i <= input_audios.len(),
                hashes@ == audio_digests(input_audios@.take(i as int)),
            decreases input_audios.len() - i,
        {
            hashes.push(hash_audio(&input_audios[i]));
            i = i + 1;
        }
        SequenceAudios { hashes, audios: input_audios }
    }

    /// A copy of each piece of sound held.
    pub fn clone_audios(&self) -> (copy: Vec<AudioInput>)
        ensures
            audio_views(copy@) == audio_views(self.spec_audios()),
    {
        let mut copy: Vec<AudioInput> = Vec::new();
        let mut i: usize = 0;
        while i < self.audios.len()
            invariant
                i <= self.audios.len(),
                copy.len() == i,
                forall|j: int| 0 <= j < i ==> (#[trigger] copy[j])@ == self.audios[j]@,
            decreases self.audios.len() - i,
        {
            copy.push(self.audios[i].clone());
            i = i + 1;
        }
        copy
    }

    pub fn audios(&self) -> (audios: &[AudioInput])
        ensures
            audios@ == self.spec_audios(),
    {
        self.audios.as_slice()
    }

    /// The pieces of sound, to be changed in place. The digests stay.
    pub fn audios_mut(&mut self) -> (audios: &mut Vec<AudioInput>)
        ensures
            audios@ == old(self).spec_audios(),
            final(self).spec_audios() == final(audios)@,
            final(self).spec_hashes() == old(self).spec_hashes(),
    {
        &mut self.audios
    }

    pub fn hashes(&self) -> (hashes: &[u64])
        ensures
            hashes@ == self.spec_hashes(),
    {
        self.hashes.as_slice()
    }

    /// Keeps the last `audios_to_keep` pieces of sound where more are held.
    /// The digests stay, all of them.
    pub fn keep_num_audios(&mut self, audios_to_keep: usize)
        ensures
            final(self).spec_hashes() == old(self).spec_hashes(),
            final(self).spec_audios() == if old(self).spec_audios().len() > audios_to_keep {
                old(self).spec_audios().skip(old(self).spec_audios().len() - audios_to_keep)
            } else {
                old(self).spec_audios()
            },
    {
        if self.audios.len() > audios_to_keep {
            let start = self.audios.len() - audios_to_keep;
            let kept = self.audios.split_off(start);
            self.audios = kept;
        }
    }
}

impl Clone for SequenceAudios {
    fn clone(&self) -> (copy: Self)
        ensures
            audio_views(copy.spec_audios()) == audio_views(self.spec_audios()),
            copy.spec_hashes() == self.spec_hashes(),
    {
        let hashes = self.hashes.clone();
        SequenceAudios { audios: self.clone_audios(), hashes }
    }
}

/// The images of a sequence, with the digest of each as it was given.
pub struct SequenceImages {
    images: Vec<ImageInput>,
    hashes: Vec<u64>,
}

impl SequenceImages {
    /// The images held.
    pub closed spec fn spec_images(&self) -> Seq<ImageInput> {
        self.images@
    }

    /// The digests held.
    pub closed spec fn spec_hashes(&self) -> Seq<u64> {
        self.hashes@
    }

    /// Holds the images given, with the digest of each.
    pub fn new(input_images: Vec<ImageInput>) -> (held: Self)
        ensures
            held.spec_images() == input_images@,
            held.spec_hashes() == image_digests(input_images@),
    {
        let mut hashes: Vec<u64> = Vec::new();
        let mut i: usize = 0;
        while i < input_images.len()
            invariant
                i <= input_images.len(),
                hashes@ == image_digests(input_images@.take(i as int)),
            decreases input_images.len() - i,
        {
            hashes.push(hash_image(&input_images[i]));
            i = i + 1;
        }
        SequenceImages { hashes, images: input_images }
    }

    /// A copy of each image held.
    pub fn clone_images(&self) -> (copy: Vec<ImageInput>)
        ensures
            image_views(copy@) == image_views(self.spec_images()),
    {
        let mut copy: Vec<ImageInput> = Vec::new();
        let mut i: usize = 0;
        while i < self.images.len()
            invariant
                i <= self.images.len(),
                copy.len() == i,
                forall|j: int| 0 <= j < i ==> (#[trigger] copy[j])@ == self.images[j]@,
            decreases self.images.len() - i,
        {
            copy.push(self.images[i].clone());
            i = i + 1;
        }
        copy
    }

    pub fn images(&self) -> (images: &[ImageInput])
        ensures
            images@ == self.spec_images(),
    {
        self.images.as_slice()
    }

    /// The images, to be changed in place. The digests stay.
    pub fn images_mut(&mut self) -> (images: &mut Vec<ImageInput>)
        ensures
            images@ == old(self).spec_images(),
            final(self).spec_images() == final(images)@,
            final(self).spec_hashes() == old(self).spec_hashes(),
    {
        &mut self.images
    }

    pub fn hashes(&self) -> (hashes: &[u64])
        ensures
            hashes@ == self.spec_hashes(),
    {
        self.hashes.as_slice()
    }

    /// Keeps the last `images_to_keep` images where more are held. The
    /// digests stay, all of them.
    pub fn keep_num_images(&mut self, images_to_keep: usize)
        ensures
            final(self).spec_hashes() == old(self).spec_hashes(),
            final(self).spec_images() == if old(self).spec_images().len() > images_to_keep {
                old(self).spec_images().skip(old(self).spec_images().len() - images_to_keep)
            } else {
                old(self).spec_images()
            },
    {
        if self.images.len() > images_to_keep {
            let start = self.images.len() - images_to_keep;
            let kept = self.images.split_off(start);
            self.images = kept;
        }
    }
}

/// How generated images are handed back.
#[derive(Clone, Copy, PartialEq, Eq, Structural, Debug)]
pub enum ImageGenerationResponseFormat {
    Url,
    B64Json,
}

/// The size of the images to generate.
#[derive(Clone, Copy, PartialEq, Eq, Structural, Debug)]
pub struct DiffusionGenerationParams {
    pub height: usize,
    pub width: usize,
}

/// All that a sequence holds for images, sound and image generation.
pub struct MultimodalData {
    pub input_images: Option<SequenceImages>,
    pub input_audios: Option<SequenceAudios>,
    pub cached_pixel_values: Option<TensorHandle>,
    pub cached_img_thw: Option<TensorHandle>,
    pub cached_vid_thw: Option<TensorHandle>,
    pub has_changed_prompt: bool,
    pub image_gen_response_format: Option<ImageGenerationResponseFormat>,
    pub diffusion_params: Option<DiffusionGenerationParams>,
}

impl MultimodalData {
    /// The images held, if any were given.
    pub open spec fn spec_images(&self) -> Option<Seq<ImageInput>> {
        match self.input_images {
            Some(held) => Some(held.spec_images()),
            None => None,
        }
    }

    /// The digests of the images given.
    pub open spec fn spec_image_hashes(&self) -> Option<Seq<u64>> {
        match self.input_images {
            Some(held) => Some(held.spec_hashes()),
            None => None,
        }
    }

    /// The sound held, if any was given.
    pub open spec fn spec_audios(&self) -> Option<Seq<AudioInput>> {
        match self.input_audios {
            Some(held) => Some(held.spec_audios()),
            None => None,
        }
    }

    /// The digests of the sound given.
    pub open spec fn spec_audio_hashes(&self) -> Option<Seq<u64>> {
        match self.input_audios {
            Some(held) => Some(held.spec_hashes()),
            None => None,
        }
    }

    /// `other` differs from `self` in the images held at most: not in their
    /// digests, nor in anything else.
    pub open spec fn same_but_images(&self, other: &Self) -> bool {
        &&& self.spec_image_hashes() == other.spec_image_hashes()
        &&& self.input_audios == other.input_audios
        &&& self.same_settings(other)
    }

    /// `other` differs from `self` in the sound held at most: not in its
    /// digests, nor in anything else.
    pub open spec fn same_but_audios(&self, other: &Self) -> bool {
        &&& self.spec_audio_hashes() == other.spec_audio_hashes()
        &&& self.input_images == other.input_images
        &&& self.same_settings(other)
    }

    /// `other` has the cached tensors, the flag and the settings of `self`.
    pub open spec fn same_settings(&self, other: &Self) -> bool {
        &&& self.cached_pixel_values == other.cached_pixel_values
        &&& self.cached_img_thw == other.cached_img_thw
        &&& self.cached_vid_thw == other.cached_vid_thw
        &&& self.has_changed_prompt == other.has_changed_prompt
        &&& self.image_gen_response_format == other.image_gen_response_format
        &&& self.diffusion_params == other.diffusion_params
    }

    /// Holds what was given with the prompt; nothing is cached yet, and the
    /// prompt has not changed.
    pub fn new(
        input_images: Option<Vec<ImageInput>>,
        input_audios: Option<Vec<AudioInput>>,
        image_gen_response_format: Option<ImageGenerationResponseFormat>,
        diffusion_params: Option<DiffusionGenerationParams>,
    ) -> (data: Self)
        ensures
            data.spec_images() == match input_images {
                Some(images) => Some(images@),
                None => None,
            },
            data.spec_image_hashes() == match input_images {
                Some(images) => Some(image_digests(images@)),
                None => None,
            },
            data.spec_audios() == match input_audios {
                Some(audios) => Some(audios@),
                None => None,
            },
            data.spec_audio_hashes() == match input_audios {
                Some(audios) => Some(audio_digests(audios@)),
                None => None,
            },
            data.cached_pixel_values is None,
            data.cached_img_thw is None,
            data.cached_vid_thw is None,
            !data.has_changed_prompt,
            data.image_gen_response_format == image_gen_response_format,
            data.diffusion_params == diffusion_params,
    {
        let images = match input_images {
            Some(images) => Some(SequenceImages::new(images)),
            None => None,
        };
        let audios = match input_audios {
            Some(audios) => Some(SequenceAudios::new(audios)),
            None => None,
        };
        MultimodalData {
            input_images: images,
            input_audios: audios,
            cached_pixel_values: None,
            cached_img_thw: None,
            cached_vid_thw: None,
            has_changed_prompt: false,
            image_gen_response_format,
            diffusion_params,
        }
    }

    /// The images for the next pass. Once the prompt has changed they are
    /// handed over and no longer held; before that a copy is handed out.
    pub fn take_images(&mut self) -> (images: Option<Vec<ImageInput>>)
        ensures
            old(self).same_but_images(final(self)),
            old(self).spec_images() is None ==> images is None && final(self).spec_images()
                is None,
            old(self).spec_images() is Some && old(self).has_changed_prompt ==> images is Some
                && images->0@ == old(self).spec_images()->0 && final(self).spec_images() == Some(
                Seq::<ImageInput>::empty(),
            ),
            old(self).spec_images() is Some && !old(self).has_changed_prompt ==> images is Some
                && image_views(images->0@) == image_views(old(self).spec_images()->0)
                && final(self).spec_images() == old(self).spec_images(),
    {
        if self.has_changed_prompt {
            match &mut self.input_images {
                Some(held) => {
                    let mut images: Vec<ImageInput> = Vec::new();
                    std::mem::swap(&mut images, held.images_mut());
                    Some(images)
                },
                None => None,
            }
        } else {
            self.clone_images()
        }
    }

    /// A copy of the images held.
    pub fn clone_images(&self) -> (images: Option<Vec<ImageInput>>)
        ensures
            images is Some <==> self.spec_images() is Some,
            images is Some ==> image_views(images->0@) == image_views(self.spec_images()->0),
    {
        match &self.input_images {
            Some(held) => Some(held.clone_images()),
            None => None,
        }
    }

    pub fn images(&self) -> (images: Option<&[ImageInput]>)
        ensures
            images is Some <==> self.spec_images() is Some,
            images is Some ==> images->0@ == self.spec_images()->0,
    {
        match &self.input_images {
            Some(held) => Some(held.images()),
            None => None,
        }
    }

    pub fn image_hashes(&self) -> (hashes: Option<&[u64]>)
        ensures
            hashes is Some <==> self.spec_image_hashes() is Some,
            hashes is Some ==> hashes->0@ == self.spec_image_hashes()->0,
    {
        match &self.input_images {
            Some(held) => Some(held.hashes()),
            None => None,
        }
    }

    /// Whether at least one image is held.
    pub fn has_images(&self) -> (has: bool)
        ensures
            has == (self.spec_images() is Some && self.spec_images()->0.len() > 0),
    {
        match &self.input_images {
            Some(held) => held.images().len() > 0,
            None => false,
        }
    }

    /// The sound for the next pass. Once the prompt has changed it is handed
    /// over and no longer held; before that a copy is handed out.
    pub fn take_audios(&mut self) -> (audios: Option<Vec<AudioInput>>)
        ensures
            old(self).same_but_audios(final(self)),
            old(self).spec_audios() is None ==> audios is None && final(self).spec_audios()
                is None,
            old(self).spec_audios() is Some && old(self).has_changed_prompt ==> audios is Some
                && audios->0@ == old(self).spec_audios()->0 && final(self).spec_audios() == Some(
                Seq::<AudioInput>::empty(),
            ),
            old(self).spec_audios() is Some && !old(self).has_changed_prompt ==> audios is Some
                && audio_views(audios->0@) == audio_views(old(self).spec_audios()->0)
                && final(self).spec_audios() == old(self).spec_audios(),
    {
        if self.has_changed_prompt {
            match &mut self.input_audios {
                Some(held) => {
                    let mut audios: Vec<AudioInput> = Vec::new();
                    std::mem::swap(&mut audios, held.audios_mut());
                    Some(audios)
                },
                None => None,
            }
        } else {
            self.clone_audios()
        }
    }

    /// A copy of the sound held.
    pub fn clone_audios(&self) -> (audios: Option<Vec<AudioInput>>)
        ensures
            audios is Some <==> self.spec_audios() is Some,
            audios is Some ==> audio_views(audios->0@) == audio_views(self.spec_audios()->0),
    {
        match &self.input_audios {
            Some(held) => Some(held.clone_audios()),
            None => None,
        }
    }

    pub fn audios(&self) -> (audios: Option<&[AudioInput]>)
        ensures
            audios is Some <==> self.spec_audios() is Some,
            audios is Some ==> audios->0@ == self.spec_audios()->0,
    {
        match &self.input_audios {
            Some(held) => Some(held.audios()),
            None => None,
        }
    }

    pub fn audio_hashes(&self) -> (hashes: Option<&[u64]>)
        ensures
            hashes is Some <==> self.spec_audio_hashes() is Some,
            hashes is Some ==> hashes->0@ == self.spec_audio_hashes()->0,
    {
        match &self.input_audios {
            Some(held) => Some(held.hashes()),
            None => None,
        }
    }

    /// Whether at least one piece of sound is held.
    pub fn has_audios(&self) -> (has: bool)
        ensures
            has == (self.spec_audios() is Some && self.spec_audios()->0.len() > 0),
    {
        match &self.input_audios {
            Some(held) => held.audios().len() > 0,
            None => false,
        }
    }

    /// Keeps the last `audios_to_keep` pieces of sound.
    pub fn keep_num_audios(&mut self, audios_to_keep: usize)
        ensures
            old(self).same_but_audios(final(self)),
            final(self).spec_audios() == match old(self).spec_audios() {
                Some(audios) => Some(
                    if audios.len() > audios_to_keep {
                        audios.skip(audios.len() - audios_to_keep)
                    } else {
                        audios
                    },
                ),
                None => None,
            },
    {
        match &mut self.input_audios {
            Some(held) => held.keep_num_audios(audios_to_keep),
            None => {},
        }
    }

    /// Keeps the last `images_to_keep` images.
    pub fn keep_num_images(&mut self, images_to_keep: usize)
        ensures
            old(self).same_but_images(final(self)),
            final(self).spec_images() == match old(self).spec_images() {
                Some(images) => Some(
                    if images.len() > images_to_keep {
                        images.skip(images.len() - images_to_keep)
                    } else {
                        images
                    },
                ),
                None => None,
            },
    {
        match &mut self.input_images {
            Some(held) => held.keep_num_images(images_to_keep),
            None => {},
        }
    }

    pub fn image_gen_response_format(&self) -> (format: Option<ImageGenerationResponseFormat>)
        ensures
            format == self.image_gen_response_format,
    {
        self.image_gen_response_format
    }

    pub fn diffusion_params(&self) -> (params: Option<DiffusionGenerationParams>)
        ensures
            params == self.diffusion_params,
    {
        self.diffusion_params
    }
}

} // verus!
