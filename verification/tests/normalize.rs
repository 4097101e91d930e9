use comic_ocr::manga_ocr::normalize::{
    collapse_dots, expand_ellipses, halfwidth_to_fullwidth, post_process, remove_whitespace,
    to_fullwidth, whitespace,
};

const SAMPLES: [&str; 14] = [
    "",
    "Hello!",
    "こんにちは 世界",
    "a.b・c…d",
    "...",
    "・・・",
    "  \t\n ",
    "ＡＢＣ１２３",
    "\u{3000}全角\u{3000}スペース",
    "mixed … and ・.・ dots.",
    "~tilde~ and !bang! and space",
    "\u{1}\u{7f}\u{80}control",
    "…",
    "．。、",
];

#[test]
fn whitespace_agrees_with_the_standard_library_on_every_character() {
    for code in 0..=0x10FFFFu32 {
        if let Some(c) = char::from_u32(code) {
            assert_eq!(whitespace(c), c.is_whitespace(), "{:#x}", code);
        }
    }
}

#[test]
fn fullwidth_form_of_every_character() {
    for code in 0..=0x10FFFFu32 {
        if let Some(c) = char::from_u32(code) {
            let expected = match c {
                '!'..='~' => char::from_u32(c as u32 + 0xFEE0).unwrap(),
                ' ' => '\u{3000}',
                _ => c,
            };
            assert_eq!(to_fullwidth(c), expected, "{:#x}", code);
        }
    }
    assert_eq!(to_fullwidth('A'), 'Ａ');
    assert_eq!(to_fullwidth('!'), '！');
    assert_eq!(to_fullwidth('~'), '～');
}

#[test]
fn normalization_is_idempotent() {
    for sample in SAMPLES {
        let once = post_process(sample);
        let twice = post_process(&once);
        assert_eq!(twice, once, "{:?}", sample);
    }
}

#[test]
fn normalization_is_idempotent_on_every_single_character() {
    for code in 0..=0x10FFFFu32 {
        if let Some(c) = char::from_u32(code) {
            let text = c.to_string();
            let once = post_process(&text);
            assert_eq!(post_process(&once), once, "{:#x}", code);
        }
    }
}

#[test]
fn hello_becomes_fullwidth() {
    assert_eq!(post_process("Hello!"), "Ｈｅｌｌｏ！");
    assert_eq!(halfwidth_to_fullwidth("Hello!"), "Ｈｅｌｌｏ！");
}

#[test]
fn a_run_of_dots_becomes_as_many_periods() {
    for n in 0..12usize {
        for dot in [".", "\u{30fb}"] {
            let run = dot.repeat(n);
            assert_eq!(collapse_dots(&run), ".".repeat(n));
            assert_eq!(collapse_dots(&format!("a{}b", run)), format!("a{}b", ".".repeat(n)));
        }
    }
    assert_eq!(collapse_dots(".・.・x・"), "....x.");
    assert_eq!(collapse_dots("no dots"), "no dots");
    assert_eq!(collapse_dots(""), "");
}

#[test]
fn ellipsis_becomes_three_periods() {
    assert_eq!(expand_ellipses("a…b"), "a...b");
    assert_eq!(expand_ellipses("……"), "......");
    assert_eq!(expand_ellipses("...."), "....");
    assert_eq!(post_process("…"), "．．．");
    assert_eq!(post_process("え…と・・"), "え．．．と．．");
}

#[test]
fn whitespace_is_removed() {
    assert_eq!(remove_whitespace(" a b\tc\nd\u{3000}e\u{a0}f "), "abcdef");
    assert_eq!(remove_whitespace("   "), "");
    assert_eq!(post_process("こ ん に\u{3000}ち は"), "こんにちは");
    assert_eq!(post_process("a b"), "ａｂ");
}

#[test]
fn space_alone_becomes_the_fullwidth_space() {
    assert_eq!(halfwidth_to_fullwidth("a b"), "ａ\u{3000}ｂ");
    assert_eq!(halfwidth_to_fullwidth("日本語"), "日本語");
    assert_eq!(halfwidth_to_fullwidth(""), "");
}

#[test]
fn stages_agree_with_the_standard_library() {
    for sample in SAMPLES {
        let clean: String = sample.chars().filter(|c| !c.is_whitespace()).collect();
        assert_eq!(remove_whitespace(sample), clean);
        assert_eq!(expand_ellipses(sample), sample.replace('\u{2026}', "..."));
        let wide: String = sample
            .chars()
            .map(|ch| match ch {
                '!'..='~' => char::from_u32(ch as u32 + 0xFEE0).unwrap_or(ch),
                ' ' => '\u{3000}',
                _ => ch,
            })
            .collect();
        assert_eq!(halfwidth_to_fullwidth(sample), wide);
    }
}
