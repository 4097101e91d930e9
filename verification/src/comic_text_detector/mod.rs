//! The detector: where on a page there is text.

pub mod geometry;
pub mod shapes;
pub mod suppression;
pub mod yolo_v5;

use vstd::prelude::*;
use crate::comic_text_detector::geometry::{
    lemma_overlap_symmetric, nms_threshold, overlaps, suppression_threshold, Bbox,
    CONFIDENCE_THRESHOLD,
};
use crate::comic_text_detector::suppression::{
    by_confidence, lemma_by_confidence, lemma_dropped_for_an_earlier, lemma_survivors,
    non_maximum_suppression, suppressed, survivors,
};
use crate::comic_text_detector::yolo_v5::YoloV5;
use crate::error::Error;
use crate::ieee::{greater, gt, ZERO};
use crate::weights::{archive_of, WeightedTokens};

verus! {

/// The side, in pixels, of the square that a page is fitted into.
pub const IMAGE_SIZE: u32 = 640;

/// The dimensions that a page of `width` by `height` pixels is resized to:
/// the longer side becomes `IMAGE_SIZE`, the shorter side keeps its
/// proportion, rounded down. A page without pixels has none.
pub open spec fn resized(width: u32, height: u32) -> Option<(u32, u32)> {
    if width == 0 && height == 0 {
        None
    } else if width >= height {
        Some((IMAGE_SIZE, (IMAGE_SIZE as int * height as int / width as int) as u32))
    } else {
        Some(((IMAGE_SIZE as int * width as int / height as int) as u32, IMAGE_SIZE))
    }
}

/// The dimensions that a page is resized to before detection.
pub fn resized_dimensions(width: u32, height: u32) -> (r: Option<(u32, u32)>)
    ensures
        r == resized(width, height),
        r matches Some((w, h)) ==> w <= IMAGE_SIZE && h <= IMAGE_SIZE,
{
    if width == 0 && height == 0 {
        return None;
    }
    if width >= height {
        let scaled: u64 = (IMAGE_SIZE as u64) * (height as u64) / (width as u64);
        assert(scaled <= IMAGE_SIZE) by (nonlinear_arith)
            requires
                scaled == (IMAGE_SIZE as int * height as int) / (width as int),
                0 <= height <= width,
                width > 0,
        ;
        Some((IMAGE_SIZE, scaled as u32))
    } else {
        let scaled: u64 = (IMAGE_SIZE as u64) * (width as u64) / (height as u64);
        assert(scaled <= IMAGE_SIZE) by (nonlinear_arith)
            requires
                scaled == (IMAGE_SIZE as int * width as int) / (height as int),
                0 <= width <= height,
                height > 0,
        ;
        Some((scaled as u32, IMAGE_SIZE))
    }
}

/// How a tensor of predictions is laid out: `boxes` candidates of `classes`
/// class scores each, behind four coordinates and an objectness.
#[derive(Debug, Clone, Copy, PartialEq, Eq, Structural)]
pub struct Layout {
    pub boxes: usize,
    pub classes: usize,
}

/// The layout of a tensor of predictions of dimensions `dims`: none where
/// a dimension is 0, an error where a candidate has fewer than six values.
pub open spec fn layout_of(dims: [usize; 3]) -> Result<Option<Layout>, Error> {
    if dims[0] == 0 || dims[1] == 0 || dims[2] == 0 {
        Ok(None)
    } else if dims[2] < 6 {
        Err(Error::Shape)
    } else {
        Ok(Some(Layout { boxes: dims[1], classes: (dims[2] - 5) as usize }))
    }
}

/// Reads the layout of a tensor of predictions off its dimensions.
pub fn prediction_layout(dims: &[usize; 3]) -> (r: Result<Option<Layout>, Error>)
    ensures
        r == layout_of(*dims),
{
    if dims[0] == 0 || dims[1] == 0 || dims[2] == 0 {
        Ok(None)
    } else if dims[2] < 6 {
        Err(Error::Shape)
    } else {
        Ok(Some(Layout { boxes: dims[1], classes: dims[2] - 5 }))
    }
}

/// The class of a candidate, going by the first `count` of its class
/// scores, and that class's score: the first of the greatest scores, where
/// one is greater than 0; class 0 with a score of 0 where none is.
pub open spec fn best_among(scores: Seq<u32>, count: nat) -> (int, u32)
    decreases count,
{
    if count == 0 {
        (0, ZERO)
    } else {
        let held = best_among(scores, (count - 1) as nat);
        if greater(scores[count - 1], held.1) {
            (count - 1, scores[count - 1])
        } else {
            held
        }
    }
}

/// The class of a candidate and that class's score.
pub fn best_class(scores: &[u32]) -> (best: (usize, u32))
    ensures
        best.0 == best_among(scores@, scores.len() as nat).0,
        best.1 == best_among(scores@, scores.len() as nat).1,
        scores.len() > 0 ==> best.0 < scores.len(),
{
    let mut class_idx: usize = 0;
    let mut max_class_score: u32 = ZERO;
    let mut c: usize = 0;
    while c < scores.len()
        invariant
            c <= scores.len(),
            class_idx == best_among(scores@, c as nat).0,
            max_class_score == best_among(scores@, c as nat).1,
            c > 0 ==> class_idx < c,
            c == 0 ==> class_idx == 0,
        decreases scores.len() - c,
    {
        if gt(scores[c], max_class_score) {
            max_class_score = scores[c];
            class_idx = c;
        }
        c = c + 1;
    }
    (class_idx, max_class_score)
}

/// Whether a candidate is confident enough to go on with.
pub open spec fn confident(b: Bbox<usize>) -> bool {
    b.confidence >= CONFIDENCE_THRESHOLD
}

/// Whether a confidence, whatever its pattern, is below the threshold: a
/// candidate of such a confidence is discarded before a box is made of it.
/// A confidence that is no number is not below the threshold.
pub open spec fn below_threshold(confidence: u32) -> bool {
    greater(CONFIDENCE_THRESHOLD, confidence)
}

/// Whether a candidate of this confidence is discarded at once.
pub fn discarded(confidence: u32) -> (r: bool)
    ensures
        r == below_threshold(confidence),
        confidence <= crate::ieee::ONE ==> r == (confidence < CONFIDENCE_THRESHOLD),
{
    gt(CONFIDENCE_THRESHOLD, confidence)
}

/// The candidates of class `class` that are confident enough, in order.
pub open spec fn selected(candidates: Seq<Bbox<usize>>, class: usize) -> Seq<Bbox<usize>>
    decreases candidates.len(),
{
    if candidates.len() == 0 {
        Seq::empty()
    } else if candidates.last().data == class && confident(candidates.last()) {
        selected(candidates.drop_last(), class).push(candidates.last())
    } else {
        selected(candidates.drop_last(), class)
    }
}

/// What is detected among `candidates`: for each of the first
/// `num_classes` classes in turn, what suppression leaves of the class's
/// confident candidates.
pub open spec fn detections(candidates: Seq<Bbox<usize>>, num_classes: usize) -> Seq<Bbox<usize>>
    decreases num_classes,
{
    if num_classes == 0 {
        Seq::empty()
    } else {
        detections(candidates, (num_classes - 1) as usize) + suppressed(
            selected(candidates, (num_classes - 1) as usize),
            nms_threshold(),
        )
    }
}

/// The selected candidates are the confident candidates of the class.
pub proof fn lemma_selected(candidates: Seq<Bbox<usize>>, class: usize)
    ensures
        forall|i: int|
            0 <= i < selected(candidates, class).len() ==> {
                &&& (#[trigger] selected(candidates, class)[i]).data == class
                &&& confident(selected(candidates, class)[i])
                &&& candidates.contains(selected(candidates, class)[i])
            },
        forall|k: int|
            0 <= k < candidates.len() && (#[trigger] candidates[k]).data == class && confident(
                candidates[k],
            ) ==> selected(candidates, class).contains(candidates[k]),
    decreases candidates.len(),
{
    let out = selected(candidates, class);
    if candidates.len() > 0 {
        let front = candidates.drop_last();
        let inner = selected(front, class);
        lemma_selected(front, class);
        assert forall|i: int| 0 <= i < out.len() implies candidates.contains(#[trigger] out[i]) by {
            if i < inner.len() {
                assert(front.contains(inner[i]));
                let k = choose|k: int| 0 <= k < front.len() && front[k] == inner[i];
                assert(candidates[k] == out[i]);
            } else {
                assert(candidates[candidates.len() - 1] == out[i]);
            }
        }
        assert forall|k: int|
            0 <= k < candidates.len() && (#[trigger] candidates[k]).data == class && confident(
                candidates[k],
            ) implies out.contains(candidates[k]) by {
            if k < front.len() {
                assert(front[k] == candidates[k]);
                assert(inner.contains(front[k]));
                let m = choose|m: int| 0 <= m < inner.len() && inner[m] == front[k];
                assert(out[m] == candidates[k]);
            } else {
                assert(out[out.len() - 1] == candidates[k]);
            }
        }
    }
}

/// What suppression leaves of one class.
proof fn lemma_class_group(candidates: Seq<Bbox<usize>>, class: usize)
    ensures
        forall|i: int|
            0 <= i < suppressed(selected(candidates, class), nms_threshold()).len() ==> {
                &&& (#[trigger] suppressed(
                    selected(candidates, class),
                    nms_threshold(),
                )[i]).data == class
                &&& confident(suppressed(selected(candidates, class), nms_threshold())[i])
                &&& candidates.contains(
                    suppressed(selected(candidates, class), nms_threshold())[i],
                )
            },
        forall|i: int, j: int|
            0 <= i < suppressed(selected(candidates, class), nms_threshold()).len() && 0 <= j
                < suppressed(selected(candidates, class), nms_threshold()).len() && i != j
                ==> !overlaps(
                #[trigger] suppressed(selected(candidates, class), nms_threshold())[i],
                #[trigger] suppressed(selected(candidates, class), nms_threshold())[j],
                nms_threshold(),
            ),
        forall|k: int|
            0 <= k < candidates.len() && (#[trigger] candidates[k]).data == class && confident(
                candidates[k],
            ) ==> {
                &&& suppressed(selected(candidates, class), nms_threshold()).len() > 0
                &&& suppressed(selected(candidates, class), nms_threshold())[0].confidence
                    >= candidates[k].confidence
            },
{
    let group = selected(candidates, class);
    let sorted = by_confidence(group);
    let out = survivors(sorted, nms_threshold());
    lemma_selected(candidates, class);
    lemma_by_confidence(group);
    lemma_survivors(sorted, nms_threshold());
    assert forall|i: int| 0 <= i < out.len() implies {
        &&& (#[trigger] out[i]).data == class
        &&& confident(out[i])
        &&& candidates.contains(out[i])
    } by {
        assert(out.contains(out[i]));
        assert(sorted.contains(out[i]));
        assert(group.contains(out[i]));
        let m = choose|m: int| 0 <= m < group.len() && group[m] == out[i];
        assert(candidates.contains(group[m]));
    }
    assert forall|i: int, j: int|
        0 <= i < out.len() && 0 <= j < out.len() && i != j implies !overlaps(
        #[trigger] out[i],
        #[trigger] out[j],
        nms_threshold(),
    ) by {
        if j < i {
            lemma_overlap_symmetric(out[i], out[j], nms_threshold());
        }
    }
    assert forall|k: int|
        0 <= k < candidates.len() && (#[trigger] candidates[k]).data == class && confident(
            candidates[k],
        ) implies out.len() > 0 && out[0].confidence >= candidates[k].confidence by {
        assert(group.contains(candidates[k]));
        assert(sorted.contains(candidates[k]));
        let m = choose|m: int| 0 <= m < sorted.len() && sorted[m] == candidates[k];
        assert(out[0] == sorted[0]);
        if m > 0 {
            assert(sorted[0].confidence >= sorted[m].confidence);
        }
    }
}

/// Every detection is one of the candidates, confident enough, and of one
/// of the classes.
pub proof fn lemma_detections_are_candidates(candidates: Seq<Bbox<usize>>, num_classes: usize)
    ensures
        forall|i: int|
            0 <= i < detections(candidates, num_classes).len() ==> {
                &&& candidates.contains(#[trigger] detections(candidates, num_classes)[i])
                &&& confident(detections(candidates, num_classes)[i])
                &&& detections(candidates, num_classes)[i].data < num_classes
            },
    decreases num_classes,
{
    if num_classes > 0 {
        let class = (num_classes - 1) as usize;
        let front = detections(candidates, class);
        let group = suppressed(selected(candidates, class), nms_threshold());
        let out = detections(candidates, num_classes);
        lemma_detections_are_candidates(candidates, class);
        lemma_class_group(candidates, class);
        assert forall|i: int| 0 <= i < out.len() implies {
            &&& candidates.contains(#[trigger] out[i])
            &&& confident(out[i])
            &&& out[i].data < num_classes
        } by {
            if i < front.len() {
                assert(out[i] == front[i]);
            } else {
                assert(out[i] == group[i - front.len()]);
            }
        }
    }
}

/// No two detections of one class overlap by more than the suppression
/// threshold.
pub proof fn lemma_detections_do_not_overlap(candidates: Seq<Bbox<usize>>, num_classes: usize)
    ensures
        forall|i: int, j: int|
            0 <= i < detections(candidates, num_classes).len() && 0 <= j < detections(
                candidates,
                num_classes,
            ).len() && i != j && detections(candidates, num_classes)[i].data == detections(
                candidates,
                num_classes,
            )[j].data ==> !overlaps(
                #[trigger] detections(candidates, num_classes)[i],
                #[trigger] detections(candidates, num_classes)[j],
                nms_threshold(),
            ),
    decreases num_classes,
{
    if num_classes > 0 {
        let class = (num_classes - 1) as usize;
        let front = detections(candidates, (num_classes - 1) as usize);
        let group = suppressed(selected(candidates, class), nms_threshold());
        let out = detections(candidates, num_classes);
        lemma_detections_do_not_overlap(candidates, (num_classes - 1) as usize);
        lemma_detections_are_candidates(candidates, (num_classes - 1) as usize);
        lemma_class_group(candidates, class);
        assert forall|i: int, j: int|
            0 <= i < out.len() && 0 <= j < out.len() && i != j && out[i].data
                == out[j].data implies !overlaps(
            #[trigger] out[i],
            #[trigger] out[j],
            nms_threshold(),
        ) by {
            if i < front.len() && j < front.len() {
                assert(out[i] == front[i] && out[j] == front[j]);
            } else if i >= front.len() && j >= front.len() {
                assert(out[i] == group[i - front.len()] && out[j] == group[j - front.len()]);
            } else if i < front.len() {
                assert(out[i] == front[i] && out[j] == group[j - front.len()]);
            } else {
                assert(out[j] == front[j] && out[i] == group[i - front.len()]);
            }
        }
    }
}

/// For every confident candidate of one of the classes, a detection of the
/// same class is at least as confident: of each class that has a confident
/// candidate, a most confident one is detected.
pub proof fn lemma_most_confident_is_detected(
    candidates: Seq<Bbox<usize>>,
    num_classes: usize,
    k: int,
)
    requires
        0 <= k < candidates.len(),
        confident(candidates[k]),
        candidates[k].data < num_classes,
    ensures
        exists|i: int|
            0 <= i < detections(candidates, num_classes).len() && (#[trigger] detections(
                candidates,
                num_classes,
            )[i]).data == candidates[k].data && detections(candidates, num_classes)[i].confidence
                >= candidates[k].confidence,
    decreases num_classes,
{
    let front = detections(candidates, (num_classes - 1) as usize);
    let class = (num_classes - 1) as usize;
    let group = suppressed(selected(candidates, class), nms_threshold());
    let out = detections(candidates, num_classes);
    lemma_detections_are_candidates(candidates, (num_classes - 1) as usize);
    if candidates[k].data == class {
        lemma_class_group(candidates, class);
        assert(out[front.len() as int] == group[0]);
    } else {
        lemma_most_confident_is_detected(candidates, (num_classes - 1) as usize, k);
        let i = choose|i: int|
            0 <= i < front.len() && (#[trigger] front[i]).data == candidates[k].data
                && front[i].confidence >= candidates[k].confidence;
        assert(out[i] == front[i]);
    }
}

/// A confident candidate of one of the classes is detected, unless it
/// overlaps, by more than the suppression threshold, a detection of its
/// class that is at least as confident.
pub proof fn lemma_dropped_candidates_overlap(
    candidates: Seq<Bbox<usize>>,
    num_classes: usize,
    k: int,
)
    requires
        0 <= k < candidates.len(),
        confident(candidates[k]),
        candidates[k].data < num_classes,
    ensures
        detections(candidates, num_classes).contains(candidates[k]) || exists|i: int|
            0 <= i < detections(candidates, num_classes).len() && (#[trigger] detections(
                candidates,
                num_classes,
            )[i]).data == candidates[k].data && detections(candidates, num_classes)[i].confidence
                >= candidates[k].confidence && overlaps(
                detections(candidates, num_classes)[i],
                candidates[k],
                nms_threshold(),
            ),
    decreases num_classes,
{
    let class = (num_classes - 1) as usize;
    let front = detections(candidates, class);
    let group = selected(candidates, class);
    let sorted = by_confidence(group);
    let kept = survivors(sorted, nms_threshold());
    let out = detections(candidates, num_classes);
    let c = candidates[k];
    if c.data == class {
        lemma_selected(candidates, class);
        lemma_by_confidence(group);
        lemma_class_group(candidates, class);
        assert(group.contains(c));
        assert(sorted.contains(c));
        let at = choose|at: int| 0 <= at < sorted.len() && sorted[at] == c;
        if kept.contains(c) {
            let m = choose|m: int| 0 <= m < kept.len() && kept[m] == c;
            assert(out[front.len() + m] == c);
        } else {
            lemma_dropped_for_an_earlier(sorted, nms_threshold(), at);
            let j = choose|j: int|
                0 <= j < at && kept.contains(#[trigger] sorted[j]) && overlaps(
                    sorted[j],
                    sorted[at],
                    nms_threshold(),
                );
            let m = choose|m: int| 0 <= m < kept.len() && kept[m] == sorted[j];
            assert(out[front.len() + m] == kept[m]);
            assert(sorted[j].confidence >= sorted[at].confidence);
        }
    } else {
        lemma_dropped_candidates_overlap(candidates, class, k);
        if front.contains(c) {
            let m = choose|m: int| 0 <= m < front.len() && front[m] == c;
            assert(out[m] == c);
        } else {
            let i = choose|i: int|
                0 <= i < front.len() && (#[trigger] front[i]).data == c.data
                    && front[i].confidence >= c.confidence && overlaps(
                    front[i],
                    c,
                    nms_threshold(),
                );
            assert(out[i] == front[i]);
        }
    }
}

proof fn lemma_selected_of_one(candidates: Seq<Bbox<usize>>, class: usize, k: int, count: int)
    requires
        0 <= k < candidates.len(),
        0 <= count <= candidates.len(),
        confident(candidates[k]),
        forall|j: int| 0 <= j < candidates.len() && j != k ==> !confident(#[trigger] candidates[j]),
    ensures
        selected(candidates.take(count), class) == if candidates[k].data == class && k < count {
            seq![candidates[k]]
        } else {
            Seq::<Bbox<usize>>::empty()
        },
    decreases count,
{
    if count > 0 {
        lemma_selected_of_one(candidates, class, k, count - 1);
        assert(candidates.take(count).drop_last() == candidates.take(count - 1));
        assert(candidates.take(count).last() == candidates[count - 1]);
        if candidates[k].data == class && k == count - 1 {
            assert(Seq::<Bbox<usize>>::empty().push(candidates[k]) == seq![candidates[k]]);
        }
    }
}

proof fn lemma_detections_of_one(candidates: Seq<Bbox<usize>>, num_classes: usize, k: int)
    requires
        0 <= k < candidates.len(),
        confident(candidates[k]),
        forall|j: int| 0 <= j < candidates.len() && j != k ==> !confident(#[trigger] candidates[j]),
    ensures
        detections(candidates, num_classes) == if candidates[k].data < num_classes {
            seq![candidates[k]]
        } else {
            Seq::<Bbox<usize>>::empty()
        },
    decreases num_classes,
{
    if num_classes > 0 {
        let class = (num_classes - 1) as usize;
        let group = selected(candidates, class);
        let b = candidates[k];
        lemma_detections_of_one(candidates, class, k);
        lemma_selected_of_one(candidates, class, k, candidates.len() as int);
        assert(candidates.take(candidates.len() as int) == candidates);
        if b.data == class {
            assert(group == seq![b]);
            assert(group.drop_last() == Seq::<Bbox<usize>>::empty());
            assert(by_confidence(group.drop_last()) == Seq::<Bbox<usize>>::empty());
            assert(by_confidence(group) == seq![b]);
            let sorted = seq![b];
            assert(sorted.drop_last() == Seq::<Bbox<usize>>::empty());
            assert(survivors(sorted.drop_last(), nms_threshold()) == Seq::<Bbox<usize>>::empty());
            assert(survivors(sorted, nms_threshold()) == Seq::<Bbox<usize>>::empty().push(b));
            assert(Seq::<Bbox<usize>>::empty().push(b) == sorted);
            assert(Seq::<Bbox<usize>>::empty() + sorted == sorted);
        } else {
            assert(by_confidence(group) == Seq::<Bbox<usize>>::empty());
            assert(survivors(by_confidence(group), nms_threshold()) == Seq::<Bbox<usize>>::empty());
            assert(detections(candidates, class) + Seq::<Bbox<usize>>::empty() == detections(
                candidates,
                class,
            ));
        }
    }
}

/// Where exactly one candidate is confident, and it is of one of the
/// classes, it is the one detection.
pub proof fn lemma_single_confident_candidate(
    candidates: Seq<Bbox<usize>>,
    num_classes: usize,
    k: int,
)
    requires
        0 <= k < candidates.len(),
        confident(candidates[k]),
        candidates[k].data < num_classes,
        forall|j: int| 0 <= j < candidates.len() && j != k ==> !confident(#[trigger] candidates[j]),
    ensures
        detections(candidates, num_classes) == seq![candidates[k]],
{
    lemma_detections_of_one(candidates, num_classes, k);
}

fn select(candidates: &Vec<Bbox<usize>>, class: usize) -> (group: Vec<Bbox<usize>>)
    ensures
        group@ == selected(candidates@, class),
{
    let mut group: Vec<Bbox<usize>> = Vec::new();
    let mut i: usize = 0;
    assert(candidates@.take(0) == Seq::<Bbox<usize>>::empty());
    while i < candidates.len()
        invariant
            i <= candidates.len(),
            group@ == selected(candidates@.take(i as int), class),
        decreases candidates.len() - i,
    {
        proof {
            assert(candidates@.take(i + 1).drop_last() == candidates@.take(i as int));
        }
        if candidates[i].data == class && candidates[i].confidence >= CONFIDENCE_THRESHOLD {
            group.push(candidates[i]);
        }
        i = i + 1;
    }
    assert(candidates@.take(candidates.len() as int) == candidates@);
    group
}

/// Turns candidates into detections: discards the candidates that are not
/// confident enough, and of each class leaves what suppression leaves of
/// it. The detections come class by class, within a class from the most to
/// the least confident.
pub fn postprocess_yolo(candidates: &Vec<Bbox<usize>>, num_classes: usize) -> (result: Vec<
    Bbox<usize>,
>)
    requires
        forall|k: int| 0 <= k < candidates.len() ==> (#[trigger] candidates[k]).valid(),
    ensures
        result@ == detections(candidates@, num_classes),
{
    let threshold = suppression_threshold();
    let mut result: Vec<Bbox<usize>> = Vec::new();
    let mut class: usize = 0;
    while class < num_classes
        invariant
            class <= num_classes,
            threshold == nms_threshold(),
            forall|k: int| 0 <= k < candidates.len() ==> (#[trigger] candidates[k]).valid(),
            result@ == detections(candidates@, class),
        decreases num_classes - class,
    {
        let mut boxes = select(candidates, class);
        proof {
            lemma_selected(candidates@, class);
            assert forall|k: int| 0 <= k < boxes.len() implies (#[trigger] boxes[k]).valid() by {
                assert(candidates@.contains(boxes[k]));
            }
        }
        non_maximum_suppression(&mut boxes, &threshold);
        result.append(&mut boxes);
        class = class + 1;
    }
    result
}

/// The number of classes that the detector tells apart.
pub const NUM_CLASSES: usize = 2;

/// The number of anchors per scale.
pub const NUM_ANCHORS: usize = 3;

/// The text detector.
#[derive(Debug)]
pub struct ComicTextDetector {
    yolo: YoloV5,
}

impl ComicTextDetector {
    /// The detector's network.
    pub closed spec fn network(&self) -> YoloV5 {
        self.yolo
    }

    /// Loads the detector from a weight archive. A buffer that is no
    /// archive is a format error; otherwise loading ends as loading the
    /// network, for two classes and three anchors per scale, ends.
    pub fn load(weights: &[u8]) -> (r: Result<Self, Error>)
        ensures
            match archive_of(weights@) {
                None => r matches Err(e) && e == Error::Format,
                Some(contents) => match YoloV5::load_error(contents, NUM_CLASSES, NUM_ANCHORS) {
                    Some(error) => r matches Err(e) && e@ == error,
                    None => r matches Ok(detector) && detector.network().loaded(
                        contents,
                        NUM_CLASSES,
                        NUM_ANCHORS,
                    ),
                },
            },
    {
        let yolo_weights = WeightedTokens::load_safetensors_from_bytes(weights)?;
        let yolo = YoloV5::load(&yolo_weights, NUM_CLASSES, NUM_ANCHORS)?;
        Ok(ComicTextDetector { yolo })
    }

    /// Turns the candidates that the network gave for a page into
    /// detections.
    pub fn inference(&self, candidates: &Vec<Bbox<usize>>) -> (result: Vec<Bbox<usize>>)
        requires
            forall|k: int| 0 <= k < candidates.len() ==> (#[trigger] candidates[k]).valid(),
        ensures
            result@ == detections(candidates@, NUM_CLASSES),
    {
        postprocess_yolo(candidates, NUM_CLASSES)
    }

    /// The detector's network.
    pub fn yolo(&self) -> (yolo: &YoloV5)
        ensures
            *yolo == self.network(),
    {
        &self.yolo
    }
}

} // verus!
