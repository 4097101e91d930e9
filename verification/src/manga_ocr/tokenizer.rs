//! The vocabulary: which text each token id stands for.

use vstd::prelude::*;
use crate::error::Error;
use crate::manga_ocr::normalize::{is_whitespace, whitespace};
use crate::names::{chars_of, push_char};

verus! {

/// Makes `tokenizers::Tokenizer` known. Nothing is claimed of what is in
/// it.
#[verifier::external_type_specification]
#[verifier::external_body]
pub struct ExTokenizer(tokenizers::Tokenizer);

/// What a tokenizer renders each token id as when it decodes and skips
/// special tokens. Ids of special tokens, and ids that stand for no token,
/// are not in the map.
pub uninterp spec fn rendered(tokenizer: tokenizers::Tokenizer) -> Map<u32, Seq<char>>;

/// Whether a tokenizer is as `Tokenizer::new` makes it but for its special
/// tokens: without a normalizer, and without a decoder, so that decoding
/// joins what it renders with single spaces.
pub uninterp spec fn plain(tokenizer: tokenizers::Tokenizer) -> bool;

/// A number that is above every id that a tokenizer has given to a token,
/// and not below the number of tokens of its model.
pub uninterp spec fn id_bound(tokenizer: tokenizers::Tokenizer) -> nat;

/// The greatest number of tokens of a vocabulary, and the greatest length
/// of a map of special tokens: ids are 32-bit, and every special token may
/// need an id of its own.
pub const MAX_TOKENS: usize = 0x7FFF_FFFF;

/// Whether a tokenizer takes `tokens` as its special tokens: whether the
/// matcher that finds special tokens in text can be built for them and for
/// those it has already.
pub uninterp spec fn accepts_special(
    tokenizer: tokenizers::Tokenizer,
    tokens: Set<Seq<char>>,
) -> bool;

/// The text that lossy decoding makes of bytes: the text they encode in
/// UTF-8, with a replacement character for every ill-formed sequence.
pub uninterp spec fn lossy_text(bytes: Seq<u8>) -> Seq<char>;

/// The values of a JSON object that are strings; `None` where the bytes
/// are no JSON text. Text that is JSON but no object has no such values.
pub uninterp spec fn string_values(bytes: Seq<u8>) -> Option<Set<Seq<char>>>;

/// The tokens of a vocabulary as a table from id to token: a token's id is
/// its index, and of a token that occurs several times only the last
/// occurrence counts.
pub open spec fn table_of(tokens: Seq<Seq<char>>) -> Map<u32, Seq<char>> {
    Map::new(
        |id: u32|
            id < tokens.len() && forall|j: int|
                id < j < tokens.len() ==> #[trigger] tokens[j] != tokens[id as int],
        |id: u32| tokens[id as int],
    )
}

/// `table` without the entries whose token is one of `special`; the empty
/// text is never special.
pub open spec fn without_special(table: Map<u32, Seq<char>>, special: Set<Seq<char>>) -> Map<
    u32,
    Seq<char>,
> {
    Map::new(
        |id: u32|
            table.dom().contains(id) && !(special.contains(table[id]) && table[id].len() > 0),
        |id: u32| table[id],
    )
}

/// Whether `table` renders some id as `token`.
pub open spec fn renders(table: Map<u32, Seq<char>>, token: Seq<char>) -> bool {
    exists|id: u32| table.dom().contains(id) && #[trigger] table[id] == token
}

/// Whether `table` renders every text of `special` but the empty one:
/// whether every special token is a token of the vocabulary.
pub open spec fn all_rendered(table: Map<u32, Seq<char>>, special: Set<Seq<char>>) -> bool {
    forall|token: Seq<char>|
        #[trigger] special.contains(token) && token.len() > 0 ==> renders(table, token)
}

/// The texts of a list of strings.
pub open spec fn texts(strings: Seq<String>) -> Seq<Seq<char>> {
    strings.map_values(|s: String| s@)
}

/// The texts of those entries of a list that hold a string.
pub open spec fn present(values: Seq<Option<String>>) -> Seq<Seq<char>>
    decreases values.len(),
{
    if values.len() == 0 {
        Seq::empty()
    } else {
        match values.last() {
            Some(s) => present(values.drop_last()).push(s@),
            None => present(values.drop_last()),
        }
    }
}

/// The tokens that a table renders `ids` as, in order; an id that is not in
/// the table is passed over.
pub open spec fn tokens_of(table: Map<u32, Seq<char>>, ids: Seq<u32>) -> Seq<Seq<char>>
    decreases ids.len(),
{
    if ids.len() == 0 {
        Seq::empty()
    } else if table.dom().contains(ids.last()) {
        tokens_of(table, ids.drop_last()).push(table[ids.last()])
    } else {
        tokens_of(table, ids.drop_last())
    }
}

/// The tokens one after the other, a single space between two.
pub open spec fn joined(tokens: Seq<Seq<char>>) -> Seq<char>
    decreases tokens.len(),
{
    if tokens.len() == 0 {
        Seq::empty()
    } else if tokens.len() == 1 {
        tokens[0]
    } else {
        joined(tokens.drop_last()) + seq![' '] + tokens.last()
    }
}

/// Calls `String::from_utf8_lossy`, which decodes UTF-8 and puts a
/// replacement character for every ill-formed sequence.
#[verifier::external_body]
fn decode_lossy(bytes: &[u8]) -> (text: String)
    ensures
        text@ == lossy_text(bytes@),
{
    String::from_utf8_lossy(bytes).into_owned()
}

/// Calls `serde_json::from_slice` for a `serde_json::Value` and hands out
/// the values of a top-level object, each string as `Some` and anything
/// else as `None`. Text that is no JSON is an error; a value that is no
/// object has no entries. There are no more values than bytes: each takes
/// a key, a colon and itself.
#[verifier::external_body]
fn object_values(bytes: &[u8]) -> (r: Result<Vec<Option<String>>, Error>)
    ensures
        match r {
            Ok(values) => string_values(bytes@) == Some(present(values@).to_set())
                && values.len() <= bytes.len(),
            Err(e) => string_values(bytes@) is None && e == Error::Format,
        },
{
    match serde_json::from_slice::<serde_json::Value>(bytes) {
        Ok(serde_json::Value::Object(entries)) => Ok(
            entries.into_iter().map(
                |(_, value)|
                    match value {
                        serde_json::Value::String(text) => Some(text),
                        _ => None,
                    },
            ).collect(),
        ),
        Ok(_) => Ok(Vec::new()),
        Err(_) => Err(Error::Format),
    }
}

/// Calls `WordPieceBuilder::vocab` and `WordPieceBuilder::build`, then
/// `Tokenizer::new`. Building from a vocabulary in memory does not fail.
/// The tokenizer has no special tokens yet, renders each id as the token
/// that the vocabulary gives the id to, and has given out no id beyond the
/// vocabulary's.
#[verifier::external_body]
fn new_tokenizer(vocab: Vec<(String, u32)>) -> (r: Result<tokenizers::Tokenizer, Error>)
    requires
        forall|i: int| 0 <= i < vocab.len() ==> (#[trigger] vocab[i]).1 == i,
    ensures
        r is Ok,
        match r {
            Ok(tokenizer) => plain(tokenizer) && rendered(tokenizer) == table_of(
                vocab@.map_values(|entry: (String, u32)| entry.0@),
            ) && id_bound(tokenizer) <= vocab.len(),
            Err(_) => false,
        },
{
    let entries: tokenizers::models::bpe::Vocab = vocab.into_iter().collect();
    match tokenizers::models::wordpiece::WordPieceBuilder::new().vocab(entries).build() {
        Ok(model) => Ok(tokenizers::Tokenizer::new(model)),
        Err(_) => Err(Error::Decode),
    }
}

/// Calls `Tokenizer::add_special_tokens` with an `AddedToken` for each of
/// `tokens`. It fails only where the matcher for the special tokens cannot
/// be built. Each token may get a new id, the next that is free: there must
/// be as many 32-bit ids left. Where it succeeds, the tokens with these texts are no longer
/// rendered; the empty text is passed over. A text that was not rendered
/// before gets an id of its own, which may be one that stood for another
/// token: so, unless all texts were rendered before, more may have gone
/// than the tokens with these texts.
#[verifier::external_body]
fn add_special_tokens(tokenizer: &mut tokenizers::Tokenizer, tokens: Vec<String>) -> (r: Result<
    (),
    Error,
>)
    requires
        plain(*old(tokenizer)),
        id_bound(*old(tokenizer)) + tokens.len() <= 0xFFFF_FFFF,
    ensures
        r is Ok <==> accepts_special(*old(tokenizer), texts(tokens@).to_set()),
        match r {
            Ok(_) => {
                &&& plain(*final(tokenizer))
                &&& id_bound(*final(tokenizer)) <= id_bound(*old(tokenizer)) + tokens.len()
                &&& rendered(*final(tokenizer)).submap_of(
                    without_special(rendered(*old(tokenizer)), texts(tokens@).to_set()),
                )
                &&& all_rendered(rendered(*old(tokenizer)), texts(tokens@).to_set()) ==> rendered(
                    *final(tokenizer),
                ) == without_special(rendered(*old(tokenizer)), texts(tokens@).to_set())
            },
            Err(e) => e == Error::Decode,
        },
{
    let added = tokens.into_iter().map(|text| tokenizers::AddedToken::from(text, true));
    match tokenizer.add_special_tokens(added) {
        Ok(_) => Ok(()),
        Err(_) => Err(Error::Decode),
    }
}

/// Calls `Tokenizer::decode` with special tokens skipped. A plain tokenizer
/// joins the tokens that it renders the ids as with single spaces, and does
/// not fail.
#[verifier::external_body]
fn decode(tokenizer: &tokenizers::Tokenizer, ids: &[u32]) -> (text: String)
    requires
        plain(*tokenizer),
    ensures
        text@ == joined(tokens_of(rendered(*tokenizer), ids@)),
{
    tokenizer.decode(ids, true).unwrap_or_default()
}

/// `line` without the white space at its end.
pub open spec fn trimmed_end(line: Seq<char>) -> Seq<char>
    decreases line.len(),
{
    if line.len() > 0 && is_whitespace(line.last()) {
        trimmed_end(line.drop_last())
    } else {
        line
    }
}

/// The lines of `text` that a newline has ended, and the characters behind
/// the last newline.
pub open spec fn scanned(text: Seq<char>) -> (Seq<Seq<char>>, Seq<char>)
    decreases text.len(),
{
    if text.len() == 0 {
        (Seq::empty(), Seq::empty())
    } else {
        let before = scanned(text.drop_last());
        if text.last() == '\n' {
            (before.0.push(before.1), Seq::empty())
        } else {
            (before.0, before.1.push(text.last()))
        }
    }
}

/// The lines of `text`, without the newlines that end them. Characters
/// behind the last newline are a line too.
pub open spec fn lines_of(text: Seq<char>) -> Seq<Seq<char>> {
    if scanned(text).1.len() > 0 {
        scanned(text).0.push(scanned(text).1)
    } else {
        scanned(text).0
    }
}

/// The tokens of a vocabulary file: its lines, each without the white space
/// at its end. The id of a token is the index of its line.
pub open spec fn vocabulary_tokens(text: Seq<char>) -> Seq<Seq<char>> {
    lines_of(text).map_values(|line: Seq<char>| trimmed_end(line))
}

proof fn lemma_trimmed_end(line: Seq<char>, k: int)
    requires
        0 <= k <= line.len(),
        forall|j: int| k <= j < line.len() ==> is_whitespace(#[trigger] line[j]),
        k > 0 ==> !is_whitespace(line[k - 1]),
    ensures
        trimmed_end(line) == line.take(k),
    decreases line.len() - k,
{
    if k == line.len() {
        assert(line.take(k) == line);
    } else {
        lemma_trimmed_end(line.drop_last(), k);
        assert(line.drop_last().take(k) == line.take(k));
    }
}

fn token_of(line: &Vec<char>) -> (token: String)
    ensures
        token@ == trimmed_end(line@),
{
    let mut k: usize = line.len();
    while k > 0 && whitespace(line[k - 1])
        invariant
            k <= line.len(),
            forall|j: int| k <= j < line.len() ==> is_whitespace(#[trigger] line[j]),
        decreases k,
    {
        k = k - 1;
    }
    proof {
        lemma_trimmed_end(line@, k as int);
    }
    let mut token = String::new();
    let mut i: usize = 0;
    while i < k
        invariant
            i <= k <= line.len(),
            token@ == line@.take(i as int),
        decreases k - i,
    {
        push_char(&mut token, line[i]);
        i = i + 1;
        assert(token@ =~= line@.take(i as int));
    }
    token
}

/// Reads the tokens of a vocabulary file.
pub fn vocabulary(text: &str) -> (tokens: Vec<String>)
    ensures
        texts(tokens@) == vocabulary_tokens(text@),
{
    let chars = chars_of(text);
    let mut tokens: Vec<String> = Vec::new();
    let mut current: Vec<char> = Vec::new();
    let mut i: usize = 0;
    assert(chars@.take(0) == Seq::<char>::empty());
    assert(texts(tokens@) =~= Seq::<Seq<char>>::empty());
    while i < chars.len()
        invariant
            i <= chars.len(),
            current@ == scanned(chars@.take(i as int)).1,
            texts(tokens@) == scanned(chars@.take(i as int)).0.map_values(
                |line: Seq<char>| trimmed_end(line),
            ),
        decreases chars.len() - i,
    {
        proof {
            assert(chars@.take(i + 1).drop_last() == chars@.take(i as int));
        }
        let ghost before = tokens@;
        let ghost done = scanned(chars@.take(i as int)).0;
        if chars[i] == '\n' {
            let ghost line = current@;
            let token = token_of(&current);
            tokens.push(token);
            current = Vec::new();
            assert(texts(tokens@) =~= texts(before).push(trimmed_end(line)));
            assert(done.push(line).map_values(|line: Seq<char>| trimmed_end(line))
                =~= done.map_values(|line: Seq<char>| trimmed_end(line)).push(trimmed_end(line)));
        } else {
            current.push(chars[i]);
        }
        i = i + 1;
    }
    assert(chars@.take(chars.len() as int) == chars@);
    if current.len() > 0 {
        let ghost done = scanned(chars@).0;
        let ghost before = tokens@;
        let ghost line = current@;
        let token = token_of(&current);
        tokens.push(token);
        assert(texts(tokens@) =~= texts(before).push(trimmed_end(line)));
        assert(done.push(line).map_values(|line: Seq<char>| trimmed_end(line))
            =~= done.map_values(|line: Seq<char>| trimmed_end(line)).push(trimmed_end(line)));
    }
    tokens
}

/// What the tokenizer of a vocabulary file and a map of special tokens
/// renders each token id as: the token on the line of that index, unless
/// the token is special or comes again on a later line.
pub open spec fn vocabulary_table(vocab: Seq<u8>, special: Set<Seq<char>>) -> Map<u32, Seq<char>> {
    without_special(table_of(vocabulary_tokens(lossy_text(vocab))), special)
}

/// Whether every special token but the empty one is a token of the
/// vocabulary file.
pub open spec fn special_in_vocabulary(vocab: Seq<u8>, special: Set<Seq<char>>) -> bool {
    all_rendered(table_of(vocabulary_tokens(lossy_text(vocab))), special)
}

fn numbered_tokens(tokens: Vec<String>) -> (vocab: Vec<(String, u32)>)
    requires
        tokens.len() <= 0xFFFF_FFFF,
    ensures
        vocab.len() == tokens.len(),
        vocab@.map_values(|entry: (String, u32)| entry.0@) == texts(tokens@),
        forall|i: int| 0 <= i < vocab.len() ==> (#[trigger] vocab[i]).1 == i,
{
    let mut vocab: Vec<(String, u32)> = Vec::new();
    let mut i: usize = 0;
    while i < tokens.len()
        invariant
            i <= tokens.len() <= 0xFFFF_FFFF,
            vocab.len() == i,
            forall|k: int| 0 <= k < i ==> (#[trigger] vocab[k]).1 == k && vocab[k].0@ == tokens[k]@,
        decreases tokens.len() - i,
    {
        vocab.push((tokens[i].clone(), i as u32));
        i = i + 1;
    }
    assert(vocab@.map_values(|entry: (String, u32)| entry.0@) =~= texts(tokens@));
    vocab
}

fn strings_among(values: Vec<Option<String>>) -> (strings: Vec<String>)
    ensures
        texts(strings@) == present(values@),
        strings.len() <= values.len(),
{
    let mut strings: Vec<String> = Vec::new();
    let mut i: usize = 0;
    assert(values@.take(0) == Seq::<Option<String>>::empty());
    assert(texts(strings@) =~= Seq::<Seq<char>>::empty());
    while i < values.len()
        invariant
            i <= values.len(),
            strings.len() <= i,
            texts(strings@) == present(values@.take(i as int)),
        decreases values.len() - i,
    {
        proof {
            assert(values@.take(i + 1).drop_last() == values@.take(i as int));
        }
        let ghost before = strings@;
        match &values[i] {
            Some(text) => {
                strings.push(text.clone());
                assert(texts(strings@) =~= texts(before).push(text@));
            },
            None => {},
        }
        i = i + 1;
    }
    assert(values@.take(values.len() as int) == values@);
    strings
}

/// Whether `fresh` is the tokenizer of a vocabulary file before any
/// special token is made known to it.
pub open spec fn built_from(fresh: tokenizers::Tokenizer, vocab: Seq<u8>) -> bool {
    &&& plain(fresh)
    &&& rendered(fresh) == table_of(vocabulary_tokens(lossy_text(vocab)))
    &&& id_bound(fresh) <= vocabulary_tokens(lossy_text(vocab)).len()
}

/// Whether there are no special tokens.
pub open spec fn no_tokens(special: Set<Seq<char>>) -> bool {
    forall|token: Seq<char>| !special.contains(token)
}

/// Whether `r` is what comes of making `special` known to `fresh`: `fresh`
/// itself where there are no special tokens; a decode error where `fresh`
/// does not take them; else a tokenizer that no longer renders them.
pub open spec fn registered(
    r: Result<tokenizers::Tokenizer, Error>,
    fresh: tokenizers::Tokenizer,
    special: Set<Seq<char>>,
) -> bool {
    if no_tokens(special) {
        r matches Ok(tokenizer) && tokenizer == fresh
    } else if accepts_special(fresh, special) {
        &&& r matches Ok(tokenizer)
        &&& plain(tokenizer)
        &&& rendered(tokenizer).submap_of(without_special(rendered(fresh), special))
        &&& all_rendered(rendered(fresh), special) ==> rendered(tokenizer) == without_special(
            rendered(fresh),
            special,
        )
    } else {
        r matches Err(e) && e == Error::Decode
    }
}

/// Whether `r` is what loading a tokenizer from a vocabulary file and a
/// map of special tokens gives: a decode error for a vocabulary of more
/// than `MAX_TOKENS` lines, or a map of more than `MAX_TOKENS` bytes; else a
/// format error for a map that is no JSON; else what comes of making the
/// map's string values known to the tokenizer of the vocabulary.
pub open spec fn loaded_as(
    r: Result<tokenizers::Tokenizer, Error>,
    vocab: Seq<u8>,
    special_tokens: Seq<u8>,
) -> bool {
    if vocabulary_tokens(lossy_text(vocab)).len() > MAX_TOKENS || special_tokens.len()
        > MAX_TOKENS {
        r matches Err(e) && e == Error::Decode
    } else {
        match string_values(special_tokens) {
            None => r matches Err(e) && e == Error::Format,
            Some(special) => exists|fresh: tokenizers::Tokenizer|
                #![trigger built_from(fresh, vocab)]
                built_from(fresh, vocab) && registered(r, fresh, special),
        }
    }
}

/// Builds the tokenizer of a vocabulary file, one token per line, and of a
/// map of special tokens, a JSON object whose string values are the
/// special tokens. A vocabulary of more than `MAX_TOKENS` lines, or a map
/// of more than `MAX_TOKENS` bytes, is a decode error; a special-token map
/// that is no JSON is a format error; special tokens that the tokenizer
/// does not take are a decode error.
///
/// The tokenizer renders no id otherwise than the vocabulary table does;
/// where every special token is a token of the vocabulary, it renders
/// exactly what the table does.
pub fn load_tokenizer_from_buf(vocab: &[u8], special_tokens: &[u8]) -> (r: Result<
    tokenizers::Tokenizer,
    Error,
>)
    ensures
        loaded_as(r, vocab@, special_tokens@),
        r matches Ok(tokenizer) ==> {
            &&& plain(tokenizer)
            &&& string_values(special_tokens@) matches Some(special)
            &&& rendered(tokenizer).submap_of(vocabulary_table(vocab@, special))
            &&& special_in_vocabulary(vocab@, special) ==> rendered(tokenizer)
                == vocabulary_table(vocab@, special)
        },
{
    let text = decode_lossy(vocab);
    let tokens = vocabulary(text.as_str());
    if tokens.len() > MAX_TOKENS || special_tokens.len() > MAX_TOKENS {
        return Err(Error::Decode);
    }
    let mut tokenizer = match new_tokenizer(numbered_tokens(tokens)) {
        Ok(tokenizer) => tokenizer,
        Err(e) => {
            return Err(e);
        },
    };
    let ghost fresh = tokenizer;
    assert(built_from(fresh, vocab@));
    let values = object_values(special_tokens)?;
    let added = strings_among(values);
    let ghost special = texts(added@).to_set();
    if added.len() > 0 {
        assert(special.contains(texts(added@)[0])) by {
            assert(texts(added@).contains(texts(added@)[0]));
        }
        match add_special_tokens(&mut tokenizer, added) {
            Ok(_) => {
                assert(registered(Ok(tokenizer), fresh, special));
                Ok(tokenizer)
            },
            Err(e) => {
                assert(registered(Err(e), fresh, special));
                Err(e)
            },
        }
    } else {
        assert(texts(added@) =~= Seq::<Seq<char>>::empty());
        assert(no_tokens(special));
        assert(without_special(rendered(tokenizer), special) =~= rendered(tokenizer));
        assert(registered(Ok(tokenizer), fresh, special));
        Ok(tokenizer)
    }
}

/// The text of a sequence of token ids: the tokens that the ids stand for,
/// a single space between two. Special tokens, and ids that stand for no
/// token, are left out.
pub fn decode_ids(tokenizer: &tokenizers::Tokenizer, ids: &[u32]) -> (text: String)
    requires
        plain(*tokenizer),
    ensures
        text@ == joined(tokens_of(rendered(*tokenizer), ids@)),
{
    decode(tokenizer, ids)
}

} // verus!
