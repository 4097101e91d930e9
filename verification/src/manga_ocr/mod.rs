//! The recognizer: a vision encoder and an autoregressive decoder, the
//! vocabulary that renders token ids, and the normalization of the text.

pub mod decode;
pub mod model;
pub mod normalize;
pub mod shapes;
pub mod tokenizer;

use vstd::prelude::*;
use crate::error::Error;
use crate::manga_ocr::decode::{
    dependable, dependable_at, failed_at, failed_with, follows, follows_at, run, traced,
    traced_at, GENERATION_CAP,
};
use crate::manga_ocr::model::{
    PreprocessorConfig, VisionEncoderDecoder, VisionEncoderDecoderConfig,
};
use crate::manga_ocr::normalize::{normalized, post_process};
use crate::manga_ocr::tokenizer::{
    decode_ids, joined, load_tokenizer_from_buf, loaded_as, plain, rendered,
    special_in_vocabulary, string_values, tokens_of, vocabulary_table,
};
use crate::weights::{archive_of, WeightedTokens};

verus! {

/// The text recognizer.
pub struct MangaOcr {
    model: VisionEncoderDecoder,
    tokenizer: tokenizers::Tokenizer,
    preprocessor: PreprocessorConfig,
}

impl MangaOcr {
    #[verifier::type_invariant]
    spec fn well_formed(&self) -> bool {
        plain(self.tokenizer)
    }

    /// The recognizer's network.
    pub closed spec fn network(&self) -> VisionEncoderDecoder {
        self.model
    }

    /// What each token id is rendered as.
    pub closed spec fn vocabulary(&self) -> Map<u32, Seq<char>> {
        rendered(self.tokenizer)
    }

    /// How images are prepared.
    pub closed spec fn preparation(&self) -> PreprocessorConfig {
        self.preprocessor
    }

    /// The text that a sequence of token ids stands for, in normal form.
    pub open spec fn text_of(&self, ids: Seq<u32>) -> Seq<char> {
        normalized(joined(tokens_of(self.vocabulary(), ids)))
    }

    /// Whether `r` is what comes of putting a recognizer together, given
    /// what loading the tokenizer gave: the tokenizer's error; else a format
    /// error for a buffer that is no archive; else the error that loading the
    /// network ends with; else the recognizer of that tokenizer and that
    /// network.
    pub open spec fn assembled(
        r: Result<Self, Error>,
        tokenizer: Result<tokenizers::Tokenizer, Error>,
        weights: Seq<u8>,
        config: VisionEncoderDecoderConfig,
        preprocessor: PreprocessorConfig,
    ) -> bool {
        match tokenizer {
            Err(e) => r matches Err(f) && f == e,
            Ok(tokenizer) => match archive_of(weights) {
                None => r matches Err(f) && f == Error::Format,
                Some(contents) => match VisionEncoderDecoder::load_error(contents, config) {
                    Some(fault) => r matches Err(f) && f@ == fault,
                    None => {
                        &&& r matches Ok(ocr)
                        &&& ocr.vocabulary() == rendered(tokenizer)
                        &&& ocr.network().loaded(contents, config)
                        &&& ocr.preparation() == preprocessor
                    },
                },
            },
        }
    }

    /// Loads the recognizer: the tokenizer from a vocabulary file and a map
    /// of special tokens, then the network from a weight archive. The
    /// tokenizer's errors come first, then a format error for a buffer that
    /// is no archive, then the error that loading the network ends with.
    /// Where none of these comes, loading succeeds.
    pub fn load(
        config: &VisionEncoderDecoderConfig,
        preprocessor: PreprocessorConfig,
        vocab: &[u8],
        special_tokens: &[u8],
        weights: &[u8],
    ) -> (r: Result<Self, Error>)
        ensures
            exists|tokenizer: Result<tokenizers::Tokenizer, Error>|
                #![trigger loaded_as(tokenizer, vocab@, special_tokens@)]
                loaded_as(tokenizer, vocab@, special_tokens@) && Self::assembled(
                    r,
                    tokenizer,
                    weights@,
                    *config,
                    preprocessor,
                ),
            r matches Ok(ocr) ==> {
                &&& string_values(special_tokens@) matches Some(special)
                &&& ocr.vocabulary().submap_of(vocabulary_table(vocab@, special))
                &&& special_in_vocabulary(vocab@, special) ==> ocr.vocabulary()
                    == vocabulary_table(vocab@, special)
            },
    {
        let loaded = load_tokenizer_from_buf(vocab, special_tokens);
        let ghost witness = loaded;
        let tokenizer = match loaded {
            Ok(tokenizer) => tokenizer,
            Err(e) => {
                assert(Self::assembled(Err(e), witness, weights@, *config, preprocessor));
                return Err(e);
            },
        };
        let store = match WeightedTokens::load_safetensors_from_bytes(weights) {
            Ok(store) => store,
            Err(e) => {
                assert(Self::assembled(Err(e), witness, weights@, *config, preprocessor));
                return Err(e);
            },
        };
        let model = match VisionEncoderDecoder::from_config(config, &store) {
            Ok(model) => model,
            Err(e) => {
                assert(Self::assembled(Err(e), witness, weights@, *config, preprocessor));
                return Err(e);
            },
        };
        let ocr = MangaOcr { model, tokenizer, preprocessor };
        assert(Self::assembled(Ok(ocr), witness, weights@, *config, preprocessor));
        Ok(ocr)
    }

    /// The recognizer's network.
    pub fn model(&self) -> (model: &VisionEncoderDecoder)
        ensures
            *model == self.network(),
    {
        &self.model
    }

    /// How images are prepared.
    pub fn preprocessor(&self) -> (preprocessor: &PreprocessorConfig)
        ensures
            *preprocessor == self.preparation(),
    {
        &self.preprocessor
    }

    /// The text that a sequence of token ids stands for, in normal form.
    pub fn decode_tokens(&self, token_ids: &[u32]) -> (text: String)
        ensures
            text@ == self.text_of(token_ids@),
    {
        proof {
            use_type_invariant(self);
        }
        let text = decode_ids(&self.tokenizer, token_ids);
        post_process(text.as_str())
    }

    /// Reads the text of one image: generates token ids with `predict`,
    /// which scores the next token given the ids so far, and gives the text
    /// that they stand for. An error of `predict` is handed on.
    pub fn recognize<F: Fn(&Vec<u32>) -> Result<Vec<u32>, Error>>(&self, predict: F) -> (r: Result<
        String,
        Error,
    >)
        requires
            forall|input: &Vec<u32>|
                1 <= input@.len() <= GENERATION_CAP && input@[0]
                    == self.network().decoder_start_token_id ==> call_requires(predict, (input,)),
        ensures
            r matches Ok(text) ==> (exists|chosen: Seq<u32>|
                #![trigger run(self.network().decoding(), chosen)]
                {
                    &&& traced(predict, self.network().decoding(), chosen)
                    &&& run(self.network().decoding(), chosen).stopped is Some
                    &&& text@ == self.text_of(
                        run(self.network().decoding(), chosen).generated(),
                    )
                }),
            r matches Err(e) ==> failed_with(predict, e),
            dependable(predict) ==> r is Ok,
    {
        let ids = self.model.forward(predict)?;
        Ok(self.decode_tokens(ids.as_slice()))
    }

    /// Whether `text` is what reading image `image` with `predict` gives:
    /// the text, in normal form, of the ids of a run that stopped, each id
    /// the greedy choice from what `predict` gave for that image and the ids
    /// before.
    pub open spec fn read_as<F: Fn(usize, &Vec<u32>) -> Result<Vec<u32>, Error>>(
        &self,
        predict: F,
        image: usize,
        text: Seq<char>,
    ) -> bool {
        exists|chosen: Seq<u32>|
            #![trigger run(self.network().decoding(), chosen)]
            {
                &&& traced_at(predict, image, self.network().decoding(), chosen)
                &&& run(self.network().decoding(), chosen).stopped is Some
                &&& text == self.text_of(run(self.network().decoding(), chosen).generated())
            }
    }

    /// Reads the texts of `images` images, one after the other: `predict`
    /// scores the next token of an image given the image's number and the
    /// ids so far. There is one text for each image, in order; without
    /// images there are no texts. The first error of `predict` ends the
    /// reading and is handed on.
    pub fn inference<F: Fn(usize, &Vec<u32>) -> Result<Vec<u32>, Error>>(
        &self,
        images: usize,
        predict: F,
    ) -> (r: Result<Vec<String>, Error>)
        requires
            forall|image: usize, input: &Vec<u32>|
                image < images && 1 <= input@.len() <= GENERATION_CAP && input@[0]
                    == self.network().decoder_start_token_id ==> call_requires(
                    predict,
                    (image, input),
                ),
        ensures
            r matches Ok(texts) ==> texts.len() == images && forall|i: int|
                0 <= i < images ==> self.read_as(predict, i as usize, (#[trigger] texts[i])@),
            r matches Err(e) ==> failed_at(predict, e),
            dependable_at(predict) ==> r is Ok,
    {
        let scorer = &predict;
        let mut texts: Vec<String> = Vec::new();
        let mut i: usize = 0;
        while i < images
            invariant
                i <= images,
                texts.len() == i,
                *scorer == predict,
                forall|k: int|
                    0 <= k < i ==> self.read_as(predict, k as usize, (#[trigger] texts[k])@),
                forall|image: usize, input: &Vec<u32>|
                    image < images && 1 <= input@.len() <= GENERATION_CAP && input@[0]
                        == self.network().decoder_start_token_id ==> call_requires(
                        predict,
                        (image, input),
                    ),
            decreases images - i,
        {
            let one = |ids: &Vec<u32>| -> (out: Result<Vec<u32>, Error>)
                requires
                    call_requires(scorer, (i, ids)),
                ensures
                    call_ensures(scorer, (i, ids), out),
                { scorer(i, ids) };
            let ids = match self.model.forward(one) {
                Ok(ids) => ids,
                Err(e) => {
                    return Err(e);
                },
            };
            let text = self.decode_tokens(ids.as_slice());
            proof {
                let rules = self.network().decoding();
                let chosen = choose|chosen: Seq<u32>|
                    #![trigger run(rules, chosen)]
                    traced(one, rules, chosen) && run(rules, chosen).stopped is Some && ids@
                        == run(rules, chosen).generated();
                assert(traced_at(predict, i, rules, chosen)) by {
                    assert forall|k: int| 0 <= k < chosen.len() implies follows_at(
                        predict,
                        i,
                        run(rules, #[trigger] chosen.take(k)).ids,
                        chosen[k],
                    ) by {
                        assert(follows(one, run(rules, chosen.take(k)).ids, chosen[k]));
                    }
                }
                assert(self.read_as(predict, i, text@));
            }
            texts.push(text);
            i = i + 1;
        }
        Ok(texts)
    }
}

} // verus!
