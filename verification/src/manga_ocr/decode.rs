//! Greedy decoding: which token follows from a row of scores, and when
//! generation stops.

use vstd::prelude::*;
use crate::error::Error;
use crate::ieee::{greater, gt, is_nan, rank};

verus! {

/// Generation stops once this many tokens follow the start token, whatever
/// the configured maximum.
pub const GENERATION_CAP: usize = 30;

/// Why generation stopped.
#[derive(Debug, Clone, Copy, PartialEq, Eq, Structural)]
pub enum StopReason {
    /// The model chose the end token or the padding token.
    EndToken,
    /// The sequence reached its greatest length.
    LengthCap,
}

/// The token ids that steer decoding, and the configured greatest number of
/// generated tokens.
#[derive(Debug, Clone, Copy)]
pub struct DecodeRules {
    pub start: u32,
    pub eos: u32,
    pub pad: u32,
    pub max_length: usize,
}

/// The sequence so far, start token first, and whether and why generation
/// has stopped.
pub struct DecodeSpec {
    pub ids: Seq<u32>,
    pub stopped: Option<StopReason>,
}

/// The state of one decoding run.
#[derive(Debug)]
pub struct DecodeState {
    ids: Vec<u32>,
    stopped: Option<StopReason>,
}

impl DecodeSpec {
    /// The tokens generated: the sequence without its start token.
    pub open spec fn generated(self) -> Seq<u32> {
        if self.ids.len() == 0 {
            self.ids
        } else {
            self.ids.skip(1)
        }
    }
}

impl View for DecodeState {
    type V = DecodeSpec;

    closed spec fn view(&self) -> DecodeSpec {
        DecodeSpec { ids: self.ids@, stopped: self.stopped }
    }
}

/// The state before the first step: the start token alone. With a maximum
/// of zero there is nothing to generate.
pub open spec fn initial(rules: DecodeRules) -> DecodeSpec {
    DecodeSpec {
        ids: seq![rules.start],
        stopped: if rules.max_length == 0 {
            Some(StopReason::LengthCap)
        } else {
            None
        },
    }
}

/// The state after the model chose `token` in a state that has not
/// stopped. An end or padding token stops generation and is dropped, unless
/// nothing has been generated yet: then it is kept like any other token.
/// After a token is kept, generation stops where the cap or the configured
/// maximum is reached.
pub open spec fn advance(rules: DecodeRules, ids: Seq<u32>, token: u32) -> DecodeSpec {
    if (token == rules.eos || token == rules.pad) && ids.len() > 1 {
        DecodeSpec { ids, stopped: Some(StopReason::EndToken) }
    } else {
        DecodeSpec {
            ids: ids.push(token),
            stopped: if ids.len() + 1 > GENERATION_CAP || ids.len() >= rules.max_length {
                Some(StopReason::LengthCap)
            } else {
                None
            },
        }
    }
}

/// The state after the model chose `tokens` one after the other; what it
/// chooses after generation has stopped changes nothing.
pub open spec fn run(rules: DecodeRules, tokens: Seq<u32>) -> DecodeSpec
    decreases tokens.len(),
{
    if tokens.len() == 0 {
        initial(rules)
    } else {
        let before = run(rules, tokens.drop_last());
        if before.stopped is Some {
            before
        } else {
            advance(rules, before.ids, tokens.last())
        }
    }
}

/// Whether a state can come up in a run under `rules`.
pub open spec fn reachable(rules: DecodeRules, state: DecodeSpec) -> bool {
    &&& 1 <= state.ids.len() <= GENERATION_CAP + 1
    &&& state.ids.len() <= rules.max_length + 1
    &&& state.ids[0] == rules.start
    &&& state.stopped is None ==> state.ids.len() <= GENERATION_CAP && state.ids.len()
        <= rules.max_length
    &&& state.stopped == Some(StopReason::EndToken) ==> state.ids.len() >= 2
}

/// Every run stays within the cap and the configured maximum, keeps the
/// start token in front, and stops on an end token only after something was
/// generated. While it has not stopped, every token chosen was kept.
pub proof fn lemma_run_reachable(rules: DecodeRules, tokens: Seq<u32>)
    ensures
        reachable(rules, run(rules, tokens)),
        run(rules, tokens).stopped is None ==> run(rules, tokens).ids.len() == tokens.len() + 1,
    decreases tokens.len(),
{
    if tokens.len() > 0 {
        lemma_run_reachable(rules, tokens.drop_last());
    }
}

/// Generation has stopped after thirty choices of the model at the latest,
/// and after as many as the configured maximum, whatever was chosen.
pub proof fn lemma_run_stops(rules: DecodeRules, tokens: Seq<u32>)
    requires
        tokens.len() >= GENERATION_CAP || tokens.len() >= rules.max_length,
    ensures
        run(rules, tokens).stopped is Some,
{
    lemma_run_reachable(rules, tokens);
}

/// The first token chosen is kept even where it is the end or the padding
/// token: no run stops on an end token before it generated anything.
pub proof fn lemma_first_token_kept(rules: DecodeRules, token: u32)
    requires
        rules.max_length > 0,
    ensures
        run(rules, seq![token]).ids == seq![rules.start, token],
        run(rules, seq![token]).stopped != Some(StopReason::EndToken),
{
    assert(seq![token].drop_last() == Seq::<u32>::empty());
    assert(run(rules, Seq::<u32>::empty()) == initial(rules));
    assert(seq![rules.start].push(token) == seq![rules.start, token]);
}

/// The index that greedy choice settles on among the first `count` scores:
/// going through them in order, a later score replaces the one held unless
/// the one held is greater.
pub open spec fn choice(scores: Seq<u32>, count: nat) -> int
    decreases count,
{
    if count <= 1 {
        0
    } else {
        let held = choice(scores, (count - 1) as nat);
        if greater(scores[held], scores[count - 1]) {
            held
        } else {
            count - 1
        }
    }
}

/// Among scores that are no NaN, greedy choice takes the last of the
/// greatest.
pub proof fn lemma_choice_is_last_greatest(scores: Seq<u32>, count: nat)
    requires
        1 <= count <= scores.len(),
        forall|i: int| 0 <= i < count ==> !is_nan(#[trigger] scores[i]),
    ensures
        0 <= choice(scores, count) < count,
        forall|i: int|
            0 <= i < count ==> rank(#[trigger] scores[i]) <= rank(
                scores[choice(scores, count)],
            ),
        forall|i: int|
            choice(scores, count) < i < count ==> rank(#[trigger] scores[i]) < rank(
                scores[choice(scores, count)],
            ),
    decreases count,
{
    if count > 1 {
        lemma_choice_is_last_greatest(scores, (count - 1) as nat);
    }
}

/// The token that greedy decoding takes from a row of scores, one score per
/// token of the vocabulary: token 0 for an empty row.
pub fn next_token(scores: &[u32]) -> (token: u32)
    requires
        scores.len() <= u32::MAX,
    ensures
        token == choice(scores@, scores.len() as nat),
        scores.len() > 0 ==> token < scores.len(),
{
    let mut held: usize = 0;
    let mut i: usize = 1;
    while i < scores.len()
        invariant
            1 <= i,
            scores.len() > 0 ==> held < i && i <= scores.len(),
            scores.len() == 0 ==> held == 0,
            scores.len() > 0 ==> held == choice(scores@, i as nat),
        decreases scores.len() - i,
    {
        if !gt(scores[held], scores[i]) {
            held = i;
        }
        i = i + 1;
    }
    held as u32
}

/// The scores of the last position among scores for several positions,
/// `width` for each: the last `width` of them.
pub open spec fn last_scores(scores: Seq<u32>, width: usize) -> Seq<u32> {
    scores.skip(scores.len() - width)
}

/// The scores of the last position, for scores that come `width` to the
/// position. Fewer scores than one position has are rejected.
pub fn last_row(scores: &Vec<u32>, width: usize) -> (r: Result<Vec<u32>, Error>)
    ensures
        match r {
            Ok(row) => scores.len() >= width && row@ == last_scores(scores@, width),
            Err(e) => scores.len() < width && e == Error::Shape,
        },
{
    if scores.len() < width {
        return Err(Error::Shape);
    }
    let start: usize = scores.len() - width;
    let mut row: Vec<u32> = Vec::new();
    let mut i: usize = start;
    while i < scores.len()
        invariant
            start <= i <= scores.len(),
            row@ == scores@.subrange(start as int, i as int),
        decreases scores.len() - i,
    {
        row.push(scores[i]);
        i = i + 1;
    }
    assert(scores@.subrange(start as int, scores.len() as int) == scores@.skip(start as int));
    Ok(row)
}

impl DecodeState {
    /// The state before the first step.
    pub fn new(rules: &DecodeRules) -> (state: Self)
        ensures
            state@ == initial(*rules),
    {
        let mut ids: Vec<u32> = Vec::new();
        ids.push(rules.start);
        assert(ids@ =~= seq![rules.start]);
        DecodeState {
            ids,
            stopped: if rules.max_length == 0 {
                Some(StopReason::LengthCap)
            } else {
                None
            },
        }
    }

    /// Whether and why generation has stopped.
    pub fn stopped(&self) -> (r: Option<StopReason>)
        ensures
            r == self@.stopped,
    {
        self.stopped
    }

    /// The sequence so far, start token first: what the model is asked to
    /// continue.
    pub fn ids(&self) -> (ids: &Vec<u32>)
        ensures
            ids@ == self@.ids,
    {
        &self.ids
    }

    /// Takes in the token that the model chose. A state that has stopped
    /// stays as it is.
    pub fn step(&mut self, rules: &DecodeRules, token: u32)
        ensures
            final(self)@ == if old(self)@.stopped is Some {
                old(self)@
            } else {
                advance(*rules, old(self)@.ids, token)
            },
    {
        if self.stopped.is_some() {
            return ;
        }
        if (token == rules.eos || token == rules.pad) && self.ids.len() > 1 {
            self.stopped = Some(StopReason::EndToken);
        } else {
            let held: usize = self.ids.len();
            self.ids.push(token);
            if held >= GENERATION_CAP || held >= rules.max_length {
                self.stopped = Some(StopReason::LengthCap);
            }
        }
    }

    /// The tokens generated: the sequence without its start token.
    pub fn generated(&self) -> (tokens: Vec<u32>)
        ensures
            tokens@ == self@.generated(),
    {
        let mut tokens: Vec<u32> = Vec::new();
        if self.ids.len() == 0 {
            assert(tokens@ == self.ids@);
            return tokens;
        }
        let mut i: usize = 1;
        while i < self.ids.len()
            invariant
                1 <= i <= self.ids.len(),
                tokens@ == self.ids@.subrange(1, i as int),
            decreases self.ids.len() - i,
        {
            tokens.push(self.ids[i]);
            i = i + 1;
        }
        assert(self.ids@.subrange(1, i as int) == self.ids@.skip(1));
        tokens
    }
}

/// Whether `token` is what greedy choice takes from a row of scores that
/// `predict` gave for the sequence `ids`.
pub open spec fn follows<F: Fn(&Vec<u32>) -> Result<Vec<u32>, Error>>(
    predict: F,
    ids: Seq<u32>,
    token: u32,
) -> bool {
    exists|input: Vec<u32>, row: Vec<u32>|
        input@ == ids && call_ensures(predict, (&input,), Ok::<Vec<u32>, Error>(row)) && token
            == choice(row@, row.len() as nat)
}

/// Whether each of `chosen` follows from what `predict` gave for the
/// sequence that the choices before it led to.
pub open spec fn traced<F: Fn(&Vec<u32>) -> Result<Vec<u32>, Error>>(
    predict: F,
    rules: DecodeRules,
    chosen: Seq<u32>,
) -> bool {
    forall|k: int|
        0 <= k < chosen.len() ==> follows(
            predict,
            run(rules, #[trigger] chosen.take(k)).ids,
            chosen[k],
        )
}

/// Whether `error` is what generation may end with: an error that
/// `predict` gave, or `Error::Shape` for a row with more scores than there
/// are token ids.
pub open spec fn failed_with<F: Fn(&Vec<u32>) -> Result<Vec<u32>, Error>>(
    predict: F,
    error: Error,
) -> bool {
    error == Error::Shape || exists|input: Vec<u32>| #[trigger]
        call_ensures(predict, (&input,), Err::<Vec<u32>, Error>(error))
}

/// Whether `predict` gives a row of scores, of a length that token ids can
/// index, for whatever it is asked.
pub open spec fn dependable<F: Fn(&Vec<u32>) -> Result<Vec<u32>, Error>>(predict: F) -> bool {
    forall|input: &Vec<u32>, out: Result<Vec<u32>, Error>| #[trigger]
        call_ensures(predict, (input,), out) ==> (out matches Ok(row) && row.len() <= u32::MAX)
}

/// Whether `token` is what greedy choice takes from a row of scores that
/// `predict` gave for image `image` and the sequence `ids`.
pub open spec fn follows_at<F: Fn(usize, &Vec<u32>) -> Result<Vec<u32>, Error>>(
    predict: F,
    image: usize,
    ids: Seq<u32>,
    token: u32,
) -> bool {
    exists|input: Vec<u32>, row: Vec<u32>|
        input@ == ids && call_ensures(predict, (image, &input), Ok::<Vec<u32>, Error>(row))
            && token == choice(row@, row.len() as nat)
}

/// Whether each of `chosen` follows from what `predict` gave for image
/// `image` and the sequence that the choices before it led to.
pub open spec fn traced_at<F: Fn(usize, &Vec<u32>) -> Result<Vec<u32>, Error>>(
    predict: F,
    image: usize,
    rules: DecodeRules,
    chosen: Seq<u32>,
) -> bool {
    forall|k: int|
        0 <= k < chosen.len() ==> follows_at(
            predict,
            image,
            run(rules, #[trigger] chosen.take(k)).ids,
            chosen[k],
        )
}

/// Whether `error` is what reading several images may end with: an error
/// that `predict` gave, or `Error::Shape` for a row with more scores than
/// there are token ids.
pub open spec fn failed_at<F: Fn(usize, &Vec<u32>) -> Result<Vec<u32>, Error>>(
    predict: F,
    error: Error,
) -> bool {
    error == Error::Shape || exists|image: usize, input: Vec<u32>| #[trigger]
        call_ensures(predict, (image, &input), Err::<Vec<u32>, Error>(error))
}

/// Whether `predict` gives a row of scores, of a length that token ids can
/// index, for whatever image and sequence it is asked.
pub open spec fn dependable_at<F: Fn(usize, &Vec<u32>) -> Result<Vec<u32>, Error>>(
    predict: F,
) -> bool {
    forall|image: usize, input: &Vec<u32>, out: Result<Vec<u32>, Error>| #[trigger]
        call_ensures(predict, (image, input), out) ==> (out matches Ok(row) && row.len()
            <= u32::MAX)
}

/// Generates a sequence: asks `predict` for the scores of the next token
/// given the sequence so far, takes the greedy choice, and goes on until
/// generation stops. The result is the sequence without its start token.
/// An error of `predict` ends the run and is handed on; a row with more
/// scores than there are token ids ends it with `Error::Shape`.
pub fn generate<F: Fn(&Vec<u32>) -> Result<Vec<u32>, Error>>(rules: &DecodeRules, predict: F) -> (r:
    Result<Vec<u32>, Error>)
    requires
        forall|input: &Vec<u32>|
            1 <= input@.len() <= GENERATION_CAP && input@[0] == rules.start ==> call_requires(
                predict,
                (input,),
            ),
    ensures
        r matches Ok(tokens) ==> (tokens.len() <= GENERATION_CAP && tokens.len()
            <= rules.max_length),
        r matches Ok(tokens) ==> (exists|chosen: Seq<u32>|
            #![trigger run(*rules, chosen)]
            {
                &&& traced(predict, *rules, chosen)
                &&& run(*rules, chosen).stopped is Some
                &&& tokens@ == run(*rules, chosen).generated()
            }),
        r matches Err(e) ==> failed_with(predict, e),
        dependable(predict) ==> r is Ok,
{
    let mut state = DecodeState::new(rules);
    let ghost mut chosen: Seq<u32> = Seq::empty();
    while state.stopped().is_none()
        invariant
            state@ == run(*rules, chosen),
            traced(predict, *rules, chosen),
            forall|input: &Vec<u32>|
                1 <= input@.len() <= GENERATION_CAP && input@[0] == rules.start ==> call_requires(
                    predict,
                    (input,),
                ),
        decreases
            if state@.stopped is Some {
                0
            } else {
                GENERATION_CAP + 2 - state@.ids.len()
            },
    {
        proof {
            lemma_run_reachable(*rules, chosen);
        }
        let ghost input: Vec<u32> = state.ids;
        let row = match predict(&state.ids) {
            Ok(row) => row,
            Err(e) => {
                return Err(e);
            },
        };
        if row.len() > 0xFFFF_FFFF {
            return Err(Error::Shape);
        }
        let token = next_token(row.as_slice());
        state.step(rules, token);
        proof {
            let longer = chosen.push(token);
            assert(longer.drop_last() == chosen);
            assert forall|k: int| 0 <= k < longer.len() implies follows(
                predict,
                run(*rules, #[trigger] longer.take(k)).ids,
                longer[k],
            ) by {
                if k < chosen.len() {
                    assert(longer.take(k) == chosen.take(k));
                } else {
                    assert(longer.take(k) == chosen);
                    assert(input@ == run(*rules, chosen).ids);
                    assert(call_ensures(predict, (&input,), Ok::<Vec<u32>, Error>(row)));
                }
            }
            chosen = longer;
            lemma_run_reachable(*rules, chosen);
        }
    }
    proof {
        lemma_run_reachable(*rules, chosen);
    }
    Ok(state.generated())
}

} // verus!
