use std::cell::RefCell;
use std::cmp::Ordering;

use comic_ocr::error::Error;
use comic_ocr::ieee::{gt, nan, ONE, ZERO};
use comic_ocr::manga_ocr::decode::{
    generate, last_row, next_token, DecodeRules, DecodeState, StopReason, GENERATION_CAP,
};

fn rules(max_length: usize) -> DecodeRules {
    DecodeRules { start: 2, eos: 3, pad: 0, max_length }
}

fn bits(row: &[f32]) -> Vec<u32> {
    row.iter().map(|v| v.to_bits()).collect()
}

fn one_hot(token: usize, size: usize) -> Vec<u32> {
    let mut row = vec![0.0f32; size];
    row[token] = 1.0;
    bits(&row)
}

fn next_token_by_floats(row: &[f32]) -> u32 {
    row.iter()
        .enumerate()
        .max_by(|(_, a), (_, b)| a.partial_cmp(b).unwrap_or(Ordering::Equal))
        .map(|(idx, _)| idx as u32)
        .unwrap_or(0)
}

#[test]
fn constants_are_the_bits_of_their_values() {
    assert_eq!(ZERO, 0.0f32.to_bits());
    assert_eq!(ONE, 1.0f32.to_bits());
    assert_eq!(GENERATION_CAP, 30);
}

#[test]
fn order_on_patterns_is_the_order_on_values() {
    let values = [
        0.0f32,
        -0.0,
        1.0,
        -1.0,
        0.5,
        -0.5,
        f32::MIN_POSITIVE,
        -f32::MIN_POSITIVE,
        1e-45,
        -1e-45,
        f32::MAX,
        f32::MIN,
        f32::INFINITY,
        f32::NEG_INFINITY,
        f32::NAN,
        -f32::NAN,
        f32::from_bits(0x7F80_0001),
        f32::from_bits(0xFFFF_FFFF),
        3.0,
        3.0000002,
    ];
    for a in values {
        assert_eq!(nan(a.to_bits()), a.is_nan());
        for b in values {
            assert_eq!(gt(a.to_bits(), b.to_bits()), a > b, "{} > {}", a, b);
        }
    }
}

#[test]
fn next_token_is_the_greedy_choice() {
    assert_eq!(next_token(&bits(&[0.1, 0.9, 0.3])), 1);
    assert_eq!(next_token(&bits(&[-3.0, -1.0, -2.0])), 1);
    assert_eq!(next_token(&bits(&[5.0])), 0);
    assert_eq!(next_token(&[]), 0);
}

#[test]
fn next_token_takes_the_last_of_equal_scores() {
    assert_eq!(next_token(&bits(&[0.0, 0.0, 0.0, 0.0])), 3);
    assert_eq!(next_token(&bits(&[1.0, 7.0, 7.0, 2.0])), 2);
    assert_eq!(next_token(&bits(&[0.0, -0.0])), 1);
    assert_eq!(next_token(&bits(&[-0.0, 0.0])), 1);
}

#[test]
fn next_token_agrees_with_max_by_on_floats() {
    let mut rows: Vec<Vec<f32>> = vec![
        vec![f32::NAN, 1.0, 2.0],
        vec![1.0, f32::NAN, 0.5],
        vec![2.0, 1.0, f32::NAN],
        vec![f32::NAN, f32::NAN],
        vec![3.0, f32::NAN, 1.0, 2.0],
        vec![f32::INFINITY, f32::NEG_INFINITY, f32::INFINITY],
        vec![f32::NEG_INFINITY],
        vec![1e-45, -1e-45, 0.0],
    ];
    let mut seed: u32 = 12345;
    for _ in 0..200 {
        let mut row = Vec::new();
        for _ in 0..17 {
            seed = seed.wrapping_mul(1664525).wrapping_add(1013904223);
            row.push(((seed >> 8) % 21) as f32 - 10.0);
        }
        rows.push(row);
    }
    for row in rows {
        assert_eq!(next_token(&bits(&row)), next_token_by_floats(&row), "{:?}", row);
    }
}

#[test]
fn state_starts_with_the_start_token() {
    let state = DecodeState::new(&rules(300));
    assert_eq!(state.ids(), &vec![2]);
    assert_eq!(state.stopped(), None);
    assert!(state.generated().is_empty());
    let nothing = DecodeState::new(&rules(0));
    assert_eq!(nothing.stopped(), Some(StopReason::LengthCap));
    assert!(nothing.generated().is_empty());
}

#[test]
fn step_keeps_a_token_and_stops_on_the_end_token() {
    let r = rules(300);
    let mut state = DecodeState::new(&r);
    state.step(&r, 7);
    state.step(&r, 8);
    assert_eq!(state.ids(), &vec![2, 7, 8]);
    assert_eq!(state.stopped(), None);
    state.step(&r, 3);
    assert_eq!(state.stopped(), Some(StopReason::EndToken));
    assert_eq!(state.generated(), vec![7, 8]);
    state.step(&r, 9);
    assert_eq!(state.generated(), vec![7, 8]);
    assert_eq!(state.stopped(), Some(StopReason::EndToken));
}

#[test]
fn step_stops_on_the_padding_token_too() {
    let r = rules(300);
    let mut state = DecodeState::new(&r);
    state.step(&r, 7);
    state.step(&r, 0);
    assert_eq!(state.stopped(), Some(StopReason::EndToken));
    assert_eq!(state.generated(), vec![7]);
}

#[test]
fn first_token_is_kept_even_if_it_is_the_end_token() {
    let r = rules(300);
    for token in [3u32, 0] {
        let mut state = DecodeState::new(&r);
        state.step(&r, token);
        assert_eq!(state.stopped(), None);
        assert_eq!(state.generated(), vec![token]);
        state.step(&r, token);
        assert_eq!(state.stopped(), Some(StopReason::EndToken));
        assert_eq!(state.generated(), vec![token]);
    }
}

#[test]
fn step_stops_at_the_cap() {
    let r = rules(300);
    let mut state = DecodeState::new(&r);
    for i in 0..29 {
        state.step(&r, 10 + i);
        assert_eq!(state.stopped(), None);
    }
    state.step(&r, 99);
    assert_eq!(state.stopped(), Some(StopReason::LengthCap));
    assert_eq!(state.generated().len(), 30);
    assert_eq!(state.ids().len(), 31);
    state.step(&r, 100);
    assert_eq!(state.generated().len(), 30);
}

#[test]
fn step_stops_at_the_configured_maximum() {
    let r = rules(3);
    let mut state = DecodeState::new(&r);
    state.step(&r, 10);
    state.step(&r, 11);
    assert_eq!(state.stopped(), None);
    state.step(&r, 12);
    assert_eq!(state.stopped(), Some(StopReason::LengthCap));
    assert_eq!(state.generated(), vec![10, 11, 12]);
}

#[test]
fn generation_with_all_zero_scores_ends_at_the_cap() {
    // Greedy choice over equal scores takes the last token, which is
    // neither the end nor the padding token here.
    let calls = RefCell::new(0usize);
    let predict = |_ids: &Vec<u32>| {
        *calls.borrow_mut() += 1;
        Ok(vec![0u32; 8])
    };
    let tokens = generate(&rules(300), predict).unwrap();
    assert_eq!(tokens, vec![7u32; 30]);
    assert_eq!(*calls.borrow(), 30);
}

#[test]
fn generation_that_always_scores_the_end_token_keeps_it_once() {
    let tokens = generate(&rules(300), |_ids: &Vec<u32>| Ok(one_hot(3, 8))).unwrap();
    assert_eq!(tokens, vec![3]);
    let tokens = generate(&rules(300), |_ids: &Vec<u32>| Ok(one_hot(0, 8))).unwrap();
    assert_eq!(tokens, vec![0]);
}

#[test]
fn generation_follows_the_scores() {
    let script = [5usize, 6, 7, 3, 4];
    let predict = |ids: &Vec<u32>| {
        assert_eq!(ids[0], 2);
        Ok(one_hot(script[ids.len() - 1], 8))
    };
    assert_eq!(generate(&rules(300), predict).unwrap(), vec![5, 6, 7]);
}

#[test]
fn generation_stays_within_the_configured_maximum() {
    let tokens = generate(&rules(4), |_ids: &Vec<u32>| Ok(one_hot(5, 8))).unwrap();
    assert_eq!(tokens, vec![5, 5, 5, 5]);
    let calls = RefCell::new(0usize);
    let tokens = generate(&rules(0), |_ids: &Vec<u32>| {
        *calls.borrow_mut() += 1;
        Ok(one_hot(5, 8))
    })
    .unwrap();
    assert!(tokens.is_empty());
    assert_eq!(*calls.borrow(), 0);
}

#[test]
fn generation_hands_on_the_error_of_the_model() {
    let predict = |ids: &Vec<u32>| if ids.len() < 3 { Ok(one_hot(5, 8)) } else { Err(Error::Shape) };
    assert_eq!(generate(&rules(300), predict), Err(Error::Shape));
}

#[test]
fn generation_with_an_empty_row_takes_token_zero() {
    let tokens = generate(&rules(300), |_ids: &Vec<u32>| Ok(Vec::new())).unwrap();
    assert_eq!(tokens, vec![0]);
}

#[test]
fn last_row_is_the_scores_of_the_last_position() {
    assert_eq!(last_row(&vec![1, 2, 3, 4, 5, 6], 2), Ok(vec![5, 6]));
    assert_eq!(last_row(&vec![1, 2, 3, 4, 5, 6], 6), Ok(vec![1, 2, 3, 4, 5, 6]));
    assert_eq!(last_row(&vec![1, 2, 3], 0), Ok(Vec::new()));
    assert_eq!(last_row(&Vec::new(), 0), Ok(Vec::new()));
    assert_eq!(last_row(&vec![1, 2, 3], 4), Err(Error::Shape));
}
