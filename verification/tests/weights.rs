use comic_ocr::error::Error;
use comic_ocr::hex::{decode_hex, HexError};
use comic_ocr::ieee::widen_half;
use comic_ocr::weights::WeightedTokens;

fn archive(header: &str, data: &[u8]) -> Vec<u8> {
    let mut bytes = Vec::new();
    bytes.extend_from_slice(&(header.len() as u64).to_le_bytes());
    bytes.extend_from_slice(header.as_bytes());
    bytes.extend_from_slice(data);
    bytes
}

fn sample() -> Vec<u8> {
    let mut data = Vec::new();
    for v in [1.0f32, -2.5, 0.0] {
        data.extend_from_slice(&v.to_le_bytes());
    }
    for v in [0.5f32, -1.0, 65504.0, 6.1035156e-5] {
        data.extend_from_slice(&half::f16::from_f32(v).to_le_bytes());
    }
    data.extend_from_slice(&[7, 0, 0, 0]);
    archive(
        "{\"a.weight\":{\"dtype\":\"F32\",\"shape\":[3],\"data_offsets\":[0,12]},\
         \"b.weight\":{\"dtype\":\"F16\",\"shape\":[2,2],\"data_offsets\":[12,20]},\
         \"c.count\":{\"dtype\":\"I32\",\"shape\":[1],\"data_offsets\":[20,24]}}",
        &data,
    )
}

#[test]
fn widening_agrees_with_half_on_every_pattern() {
    for h in 0..=u16::MAX {
        let expected = half::f16::from_bits(h).to_f32().to_bits();
        assert_eq!(widen_half(h), expected, "pattern {:#06x}", h);
    }
}

#[test]
fn get_on_absent_name_is_not_found() {
    let bytes = sample();
    let store = WeightedTokens::load_safetensors_from_bytes(&bytes).unwrap();
    assert_eq!(store.get_float_tensor("missing").unwrap_err(), Error::NotFound("missing".to_string()));
}

#[test]
fn get_reads_single_precision() {
    let bytes = sample();
    let store = WeightedTokens::load_safetensors_from_bytes(&bytes).unwrap();
    let values = store.get_float_tensor("a.weight").unwrap();
    let floats: Vec<f32> = values.iter().map(|b| f32::from_bits(*b)).collect();
    assert_eq!(floats, vec![1.0, -2.5, 0.0]);
}

#[test]
fn get_widens_half_precision() {
    let bytes = sample();
    let store = WeightedTokens::load_safetensors_from_bytes(&bytes).unwrap();
    let values = store.get_float_tensor("b.weight").unwrap();
    let floats: Vec<f32> = values.iter().map(|b| f32::from_bits(*b)).collect();
    assert_eq!(floats, vec![0.5, -1.0, 65504.0, 6.1035156e-5]);
}

#[test]
fn get_on_other_element_type_is_format_error() {
    let bytes = sample();
    let store = WeightedTokens::load_safetensors_from_bytes(&bytes).unwrap();
    assert_eq!(store.get_float_tensor("c.count").unwrap_err(), Error::Format);
}

#[test]
fn load_rejects_malformed_archives() {
    assert_eq!(WeightedTokens::load_safetensors_from_bytes(&[]).err(), Some(Error::Format));
    assert_eq!(WeightedTokens::load_safetensors_from_bytes(&[1, 2, 3]).err(), Some(Error::Format));
    let short = archive(
        "{\"a\":{\"dtype\":\"F32\",\"shape\":[2],\"data_offsets\":[0,8]}}",
        &[0, 0, 0, 0],
    );
    assert_eq!(WeightedTokens::load_safetensors_from_bytes(&short).err(), Some(Error::Format));
}

#[test]
fn list_names_each_tensor_once() {
    let bytes = sample();
    let store = WeightedTokens::load_safetensors_from_bytes(&bytes).unwrap();
    let mut names = store.list_tensors();
    names.sort();
    assert_eq!(names, vec!["a.weight".to_string(), "b.weight".to_string(), "c.count".to_string()]);
}

#[test]
fn load_rejects_a_header_whose_lengths_do_not_fit() {
    // Eight tensors of eight-byte elements, one after the other, that end
    // sixty-four bytes short of what a length can hold.
    let count: u64 = (1 << 58) - 1;
    let mut header = String::from("{");
    for i in 0..8u64 {
        if i > 0 {
            header.push(',');
        }
        header.push_str(&format!(
            "\"t{}\":{{\"dtype\":\"F64\",\"shape\":[{}],\"data_offsets\":[{},{}]}}",
            i,
            count,
            i * count * 8,
            (i + 1) * count * 8
        ));
    }
    header.push('}');
    for tail in [0usize, 8, 64, 72] {
        let bytes = archive(&header, &vec![0u8; tail]);
        assert_eq!(WeightedTokens::load_safetensors_from_bytes(&bytes).err(), Some(Error::Format));
    }
}

#[test]
fn load_looks_at_the_framing() {
    let good = sample();
    assert!(WeightedTokens::load_safetensors_from_bytes(&good).is_ok());
    let mut longer = good.clone();
    longer.push(0);
    assert_eq!(WeightedTokens::load_safetensors_from_bytes(&longer).err(), Some(Error::Format));
    let shorter = &good[..good.len() - 1];
    assert_eq!(WeightedTokens::load_safetensors_from_bytes(shorter).err(), Some(Error::Format));
    let mut huge = good.clone();
    huge[7] = 0x80;
    assert_eq!(WeightedTokens::load_safetensors_from_bytes(&huge).err(), Some(Error::Format));
    let mut large = good.clone();
    large[3] = 0x06;
    assert_eq!(WeightedTokens::load_safetensors_from_bytes(&large).err(), Some(Error::Format));
    assert_eq!(WeightedTokens::load_safetensors_from_bytes(&good[..8]).err(), Some(Error::Format));
    let empty = archive("{}", &[]);
    assert!(WeightedTokens::load_safetensors_from_bytes(&empty).unwrap().list_tensors().is_empty());
}

#[test]
fn error_names_the_missing_tensor() {
    let bytes = sample();
    let store = WeightedTokens::load_safetensors_from_bytes(&bytes).unwrap();
    let error = store.get_float_tensor("model.24.anchors").unwrap_err();
    assert_eq!(error, Error::NotFound("model.24.anchors".to_string()));
    assert_eq!(error.message(), "tensor not found: model.24.anchors");
    assert_eq!(Error::Format.message(), "malformed archive or configuration");
    assert_eq!(Error::Shape.message(), "tensor does not fit the expected shape");
    assert_eq!(Error::Decode.message(), "tokenizer failure");
}

#[test]
fn hex_text_becomes_bytes() {
    assert_eq!(decode_hex(""), Ok(vec![]));
    assert_eq!(decode_hex("00ff10aB"), Ok(vec![0x00, 0xFF, 0x10, 0xAB]));
    assert_eq!(decode_hex("28B52FFD"), Ok(vec![0x28, 0xB5, 0x2F, 0xFD]));
    assert_eq!(decode_hex("+f"), Ok(vec![0x0F]));
    assert_eq!(decode_hex("abc"), Err(HexError::OddLength));
    assert_eq!(decode_hex("0g"), Err(HexError::InvalidDigit));
    assert_eq!(decode_hex("-1"), Err(HexError::InvalidDigit));
    assert_eq!(decode_hex("1+"), Err(HexError::InvalidDigit));
    assert_eq!(decode_hex("++"), Err(HexError::InvalidDigit));
    assert_eq!(decode_hex(" 1"), Err(HexError::InvalidDigit));
    assert_eq!(decode_hex("1_"), Err(HexError::InvalidDigit));
    assert_eq!(decode_hex("00é1"), Err(HexError::InvalidDigit));
}

#[test]
fn hex_pairs_agree_with_the_standard_library() {
    let letters: Vec<char> = "0123456789abcdefABCDEFgG+-_ xX\u{ff10}\u{e9}".chars().collect();
    for a in &letters {
        for b in &letters {
            let text: String = [*a, *b].iter().collect();
            let expected = u8::from_str_radix(&text, 16).ok().map(|byte| vec![byte]);
            assert_eq!(decode_hex(&text).ok(), expected, "{:?}", text);
        }
    }
}

#[test]
fn damaged_archives_give_errors_or_values() {
    // Whatever byte of a small archive is changed, loading it and reading
    // its tensors comes back: with values or with an error.
    let good = sample();
    let mut loaded = 0;
    for at in 0..good.len() {
        for mask in [0x01u8, 0x20, 0x80, 0xFF] {
            let mut data = good.clone();
            data[at] ^= mask;
            if let Ok(store) = WeightedTokens::load_safetensors_from_bytes(&data) {
                loaded += 1;
                for name in store.list_tensors() {
                    let _ = store.get_float_tensor(&name);
                }
            }
        }
    }
    assert!(loaded > 0);
    for cut in 0..good.len() {
        assert!(WeightedTokens::load_safetensors_from_bytes(&good[..cut]).is_err());
    }
}
