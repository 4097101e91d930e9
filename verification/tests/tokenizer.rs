use comic_ocr::error::Error;
use comic_ocr::manga_ocr::model::{
    BertConfig, DecoderHiddenAct, HiddenAct, PreprocessorConfig, VisionEncoderDecoderConfig,
    VitConfig,
};
use comic_ocr::manga_ocr::tokenizer::{decode_ids, load_tokenizer_from_buf, vocabulary};
use comic_ocr::manga_ocr::MangaOcr;
use safetensors::tensor::{Dtype, TensorView};

const VOCAB: &str = "[PAD]\n[UNK]\n[CLS]\n[SEP]\nあ\nい\nHello\n.\n…\nう\n";
const SPECIAL: &str = "{\"unk_token\": \"[UNK]\", \"sep_token\": \"[SEP]\", \"pad_token\": \"[PAD]\", \
                       \"cls_token\": \"[CLS]\", \"mask_token\": \"[MASK]\", \"count\": 5}";

fn config() -> VisionEncoderDecoderConfig {
    VisionEncoderDecoderConfig {
        decoder_start_token_id: 2,
        eos_token_id: 3,
        pad_token_id: 0,
        max_length: 300,
        encoder: VitConfig {
            image_size: 8,
            patch_size: 4,
            hidden_size: 4,
            num_hidden_layers: 1,
            num_attention_heads: 2,
            intermediate_size: 8,
            hidden_act: HiddenAct::Gelu,
            hidden_dropout_prob: 0,
            attention_probs_dropout_prob: 0,
            layer_norm_eps: 1e-12f64.to_bits(),
        },
        decoder: BertConfig {
            vocab_size: 10,
            hidden_size: 4,
            num_hidden_layers: 1,
            num_attention_heads: 2,
            intermediate_size: 8,
            hidden_act: DecoderHiddenAct::Gelu,
            hidden_dropout_prob: 0,
            attention_probs_dropout_prob: 0,
            max_position_embeddings: 16,
            type_vocab_size: 2,
            layer_norm_eps: 1e-12f64.to_bits(),
            pad_token_id: Some(0),
        },
    }
}

fn preprocessor() -> PreprocessorConfig {
    PreprocessorConfig {
        size: 8,
        image_mean: [0.5f32.to_bits(); 3],
        image_std: [0.5f32.to_bits(); 3],
        do_resize: true,
        do_normalize: true,
    }
}

fn minimal_weights() -> Vec<u8> {
    let kernel: Vec<u8> = vec![0u8; 4 * 3 * 4 * 4 * 4];
    let view = TensorView::new(Dtype::F32, vec![4, 3, 4, 4], &kernel).unwrap();
    safetensors::serialize(
        vec![("encoder.embeddings.patch_embeddings.projection.weight", view)],
        None,
    )
    .unwrap()
}

fn one_hot(token: usize) -> Vec<u32> {
    let mut row = vec![0.0f32.to_bits(); 10];
    row[token] = 1.0f32.to_bits();
    row
}

#[test]
fn vocabulary_is_one_token_per_line() {
    assert_eq!(vocabulary("a\nb\nc\n"), vec!["a", "b", "c"]);
    assert_eq!(vocabulary("a\nb\nc"), vec!["a", "b", "c"]);
    assert_eq!(vocabulary(""), Vec::<String>::new());
    assert_eq!(vocabulary("\n"), vec![""]);
    assert_eq!(vocabulary("a\n\nb"), vec!["a", "", "b"]);
    assert_eq!(vocabulary("a \r\n b\t\n"), vec!["a", " b"]);
    assert_eq!(vocabulary("a\n\r"), vec!["a", ""]);
    assert_eq!(vocabulary("##ing\n[CLS]\n"), vec!["##ing", "[CLS]"]);
}

#[test]
fn vocabulary_agrees_with_lines_and_trim_end() {
    let samples = [
        "",
        "\n",
        "\n\n",
        "a",
        "a\n",
        "a\r\n",
        "a\r",
        "\r",
        "\r\n\r\n",
        "a\n\r",
        "a \u{3000}\nb\u{a0}\r\n\r\nc d \n e",
        " \n \n",
        "x\r\r\ny",
        "日本\n語 \n",
        VOCAB,
    ];
    for sample in samples {
        let expected: Vec<String> = sample.lines().map(|line| line.trim_end().to_owned()).collect();
        assert_eq!(vocabulary(sample), expected, "{:?}", sample);
    }
}

#[test]
fn decoding_joins_tokens_with_spaces_and_skips_special_tokens() {
    let tokenizer = load_tokenizer_from_buf(VOCAB.as_bytes(), SPECIAL.as_bytes()).unwrap();
    assert_eq!(decode_ids(&tokenizer, &[4, 5, 9]), "あ い う");
    assert_eq!(decode_ids(&tokenizer, &[2, 4, 3, 5, 0, 1]), "あ い");
    assert_eq!(decode_ids(&tokenizer, &[6]), "Hello");
    assert_eq!(decode_ids(&tokenizer, &[]), "");
    assert_eq!(decode_ids(&tokenizer, &[2, 3]), "");
}

#[test]
fn decoding_passes_over_ids_without_a_token() {
    let tokenizer = load_tokenizer_from_buf(VOCAB.as_bytes(), SPECIAL.as_bytes()).unwrap();
    assert_eq!(decode_ids(&tokenizer, &[4, 10, 5, 1000, u32::MAX]), "あ い");
}

#[test]
fn token_id_is_the_index_of_the_line() {
    let tokenizer = load_tokenizer_from_buf(b"zero\none\ntwo \nthree", b"{}").unwrap();
    assert_eq!(decode_ids(&tokenizer, &[3, 2, 1, 0]), "three two one zero");
}

#[test]
fn of_a_token_on_several_lines_the_last_line_counts() {
    let tokenizer = load_tokenizer_from_buf(b"a\nb\na\nc\n", b"{}").unwrap();
    assert_eq!(decode_ids(&tokenizer, &[2]), "a");
    assert_eq!(decode_ids(&tokenizer, &[0]), "");
    assert_eq!(decode_ids(&tokenizer, &[0, 1, 2, 3]), "b a c");
}

#[test]
fn special_tokens_are_the_string_values_of_the_map() {
    let tokenizer = load_tokenizer_from_buf(b"a\nb\nc\n", b"{\"x\": \"b\", \"y\": 7, \"z\": [\"c\"]}").unwrap();
    assert_eq!(decode_ids(&tokenizer, &[0, 1, 2]), "a c");
    let tokenizer = load_tokenizer_from_buf(b"a\nb\nc\n", b"[\"a\", \"b\"]").unwrap();
    assert_eq!(decode_ids(&tokenizer, &[0, 1, 2]), "a b c");
    let tokenizer = load_tokenizer_from_buf(b"a\nb\nc\n", b"\"a\"").unwrap();
    assert_eq!(decode_ids(&tokenizer, &[0, 1, 2]), "a b c");
}

#[test]
fn the_empty_token_is_never_special() {
    let tokenizer = load_tokenizer_from_buf(b"a\n\nb\n", b"{\"x\": \"\"}").unwrap();
    assert_eq!(decode_ids(&tokenizer, &[0, 1, 2]), "a  b");
}

#[test]
fn bytes_that_are_no_utf8_are_replaced() {
    let tokenizer = load_tokenizer_from_buf(b"a\n\xFFb\nc\n", b"{}").unwrap();
    assert_eq!(decode_ids(&tokenizer, &[1]), "\u{FFFD}b");
}

#[test]
fn special_token_map_that_is_no_json_is_a_format_error() {
    assert_eq!(load_tokenizer_from_buf(VOCAB.as_bytes(), b"{not json").err(), Some(Error::Format));
    assert_eq!(load_tokenizer_from_buf(VOCAB.as_bytes(), b"").err(), Some(Error::Format));
    assert_eq!(load_tokenizer_from_buf(VOCAB.as_bytes(), b"{\"a\": \"\xFF\"}").err(), Some(Error::Format));
}

#[test]
fn recognizer_renders_ids_as_normalized_text() {
    let weights = minimal_weights();
    let ocr = MangaOcr::load(&config(), preprocessor(), VOCAB.as_bytes(), SPECIAL.as_bytes(), &weights).unwrap();
    assert_eq!(ocr.decode_tokens(&[2, 4, 5, 3]), "あい");
    assert_eq!(ocr.decode_tokens(&[6, 7, 8]), "Ｈｅｌｌｏ．．．．");
    assert_eq!(ocr.decode_tokens(&[]), "");
    assert_eq!(ocr.preprocessor().size, 8);
    assert_eq!(ocr.model().max_length, 300);
}

#[test]
fn recognizer_reads_text_with_the_scores_it_is_given() {
    let weights = minimal_weights();
    let ocr = MangaOcr::load(&config(), preprocessor(), VOCAB.as_bytes(), SPECIAL.as_bytes(), &weights).unwrap();
    let script = [4usize, 5, 9, 3];
    let text = ocr.recognize(|ids: &Vec<u32>| Ok(one_hot(script[ids.len() - 1]))).unwrap();
    assert_eq!(text, "あいう");
    let text = ocr.recognize(|_ids: &Vec<u32>| Ok(vec![0u32; 10])).unwrap();
    assert_eq!(text, "う".repeat(30));
    let text = ocr.recognize(|_ids: &Vec<u32>| Ok(one_hot(3))).unwrap();
    assert_eq!(text, "");
    assert_eq!(ocr.recognize(|_ids: &Vec<u32>| Err(Error::Shape)), Err(Error::Shape));
}

#[test]
fn recognizer_load_fails_with_the_first_error() {
    let weights = minimal_weights();
    assert_eq!(
        MangaOcr::load(&config(), preprocessor(), VOCAB.as_bytes(), b"{", &weights).err(),
        Some(Error::Format)
    );
    assert_eq!(
        MangaOcr::load(&config(), preprocessor(), VOCAB.as_bytes(), SPECIAL.as_bytes(), b"junk").err(),
        Some(Error::Format)
    );
    let empty = safetensors::serialize(Vec::<(String, TensorView)>::new(), None).unwrap();
    assert_eq!(
        MangaOcr::load(&config(), preprocessor(), VOCAB.as_bytes(), SPECIAL.as_bytes(), &empty).err(),
        Some(Error::NotFound("encoder.embeddings.patch_embeddings.projection.weight".to_string()))
    );
    let mut bad = config();
    bad.encoder.num_attention_heads = 0;
    assert_eq!(
        MangaOcr::load(&bad, preprocessor(), VOCAB.as_bytes(), SPECIAL.as_bytes(), &weights).err(),
        Some(Error::Format)
    );
}

#[test]
fn special_token_of_the_vocabulary_hides_nothing_else() {
    let tokenizer = load_tokenizer_from_buf(b"a\nb\na\n[X]\n", b"{\"x\": \"[X]\"}").unwrap();
    assert_eq!(decode_ids(&tokenizer, &[0, 1, 2, 3]), "b a");
}

#[test]
fn special_token_beside_the_vocabulary_may_take_the_id_of_a_token() {
    // Two of the three lines hold the same token: the vocabulary has two
    // tokens, and the special token, which is none of them, gets the id 2.
    let tokenizer = load_tokenizer_from_buf(b"a\nb\na\n", b"{\"x\": \"[X]\"}").unwrap();
    assert_eq!(decode_ids(&tokenizer, &[1]), "b");
    assert_eq!(decode_ids(&tokenizer, &[2]), "");
    let plain = load_tokenizer_from_buf(b"a\nb\nc\n", b"{\"x\": \"[X]\"}").unwrap();
    assert_eq!(decode_ids(&plain, &[0, 1, 2, 3]), "a b c");
}

#[test]
fn recognizer_reads_one_text_for_each_image() {
    let weights = minimal_weights();
    let ocr = MangaOcr::load(&config(), preprocessor(), VOCAB.as_bytes(), SPECIAL.as_bytes(), &weights).unwrap();
    let scripts: [&[usize]; 3] = [&[4, 5, 3], &[3, 3], &[6, 7, 9, 0]];
    let predict = |image: usize, ids: &Vec<u32>| Ok(one_hot(scripts[image][ids.len() - 1]));
    assert_eq!(ocr.inference(3, predict).unwrap(), vec!["あい", "", "Ｈｅｌｌｏ．う"]);
    assert_eq!(ocr.inference(1, predict).unwrap(), vec!["あい"]);
    let nothing = ocr.inference(0, |_image: usize, _ids: &Vec<u32>| Err(Error::Shape)).unwrap();
    assert!(nothing.is_empty());
}

#[test]
fn recognizer_hands_on_the_first_error_among_images() {
    let weights = minimal_weights();
    let ocr = MangaOcr::load(&config(), preprocessor(), VOCAB.as_bytes(), SPECIAL.as_bytes(), &weights).unwrap();
    let calls = std::cell::RefCell::new(Vec::new());
    let predict = |image: usize, _ids: &Vec<u32>| {
        calls.borrow_mut().push(image);
        if image == 1 {
            Err(Error::Format)
        } else {
            Ok(one_hot(3))
        }
    };
    assert_eq!(ocr.inference(3, predict), Err(Error::Format));
    assert_eq!(*calls.borrow(), vec![0, 0, 1]);
}
