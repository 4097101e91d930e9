//! Non-maximum suppression: of boxes that overlap too much, only the most
//! confident stays.

use vstd::prelude::*;
use crate::comic_text_detector::geometry::{
    calculate_iou, lemma_overlap_symmetric, overlaps, Bbox, Ratio,
};

verus! {

/// `sorted` with `b` put in behind every box that is at least as confident
/// as `b`.
pub open spec fn insert_by_confidence(sorted: Seq<Bbox<usize>>, b: Bbox<usize>) -> Seq<
    Bbox<usize>,
>
    decreases sorted.len(),
{
    if sorted.len() == 0 {
        seq![b]
    } else if sorted.last().confidence >= b.confidence {
        sorted.push(b)
    } else {
        insert_by_confidence(sorted.drop_last(), b).push(sorted.last())
    }
}

/// The boxes from the most to the least confident; boxes of equal
/// confidence stay in the order they came in.
pub open spec fn by_confidence(boxes: Seq<Bbox<usize>>) -> Seq<Bbox<usize>>
    decreases boxes.len(),
{
    if boxes.len() == 0 {
        Seq::empty()
    } else {
        insert_by_confidence(by_confidence(boxes.drop_last()), boxes.last())
    }
}

/// Whether no box is more confident than one before it.
pub open spec fn descending(boxes: Seq<Bbox<usize>>) -> bool {
    forall|i: int, j: int|
        0 <= i < j < boxes.len() ==> (#[trigger] boxes[i]).confidence >= (
        #[trigger] boxes[j]).confidence
}

/// Whether `b` overlaps one of `kept` by more than `threshold`.
pub open spec fn clashes(kept: Seq<Bbox<usize>>, b: Bbox<usize>, threshold: Ratio) -> bool {
    exists|k: int| 0 <= k < kept.len() && overlaps(#[trigger] kept[k], b, threshold)
}

/// The boxes that stay when `boxes` are gone through in order and a box is
/// dropped where it overlaps, by more than `threshold`, one that stayed.
pub open spec fn survivors(boxes: Seq<Bbox<usize>>, threshold: Ratio) -> Seq<Bbox<usize>>
    decreases boxes.len(),
{
    if boxes.len() == 0 {
        Seq::empty()
    } else {
        let kept = survivors(boxes.drop_last(), threshold);
        if clashes(kept, boxes.last(), threshold) {
            kept
        } else {
            kept.push(boxes.last())
        }
    }
}

/// What suppression leaves of `boxes`.
pub open spec fn suppressed(boxes: Seq<Bbox<usize>>, threshold: Ratio) -> Seq<Bbox<usize>> {
    survivors(by_confidence(boxes), threshold)
}

proof fn lemma_insert_at(sorted: Seq<Bbox<usize>>, b: Bbox<usize>, p: int)
    requires
        0 <= p <= sorted.len(),
        forall|j: int| p <= j < sorted.len() ==> (#[trigger] sorted[j]).confidence < b.confidence,
        p > 0 ==> sorted[p - 1].confidence >= b.confidence,
    ensures
        insert_by_confidence(sorted, b) == sorted.insert(p, b),
    decreases sorted.len(),
{
    if sorted.len() == 0 {
        assert(sorted.insert(p, b) =~= seq![b]);
    } else if p == sorted.len() {
        assert(sorted.insert(p, b) =~= sorted.push(b));
    } else {
        assert(sorted.last().confidence < b.confidence);
        lemma_insert_at(sorted.drop_last(), b, p);
        assert(sorted.insert(p, b) =~= sorted.drop_last().insert(p, b).push(sorted.last()));
    }
}

proof fn lemma_insert_keeps_order(sorted: Seq<Bbox<usize>>, b: Bbox<usize>)
    requires
        descending(sorted),
    ensures
        descending(insert_by_confidence(sorted, b)),
        insert_by_confidence(sorted, b).len() == sorted.len() + 1,
        forall|x: Bbox<usize>|
            #![trigger insert_by_confidence(sorted, b).contains(x)]
            #![trigger sorted.contains(x)]
            insert_by_confidence(sorted, b).contains(x) <==> (sorted.contains(x) || x == b),
    decreases sorted.len(),
{
    let out = insert_by_confidence(sorted, b);
    if sorted.len() == 0 {
        assert(out[0] == b);
        assert forall|x: Bbox<usize>| out.contains(x) <==> (sorted.contains(x) || x == b) by {}
    } else if sorted.last().confidence >= b.confidence {
        assert(out[sorted.len() as int] == b);
        assert forall|x: Bbox<usize>| out.contains(x) <==> (sorted.contains(x) || x == b) by {
            if sorted.contains(x) {
                let k = choose|k: int| 0 <= k < sorted.len() && sorted[k] == x;
                assert(out[k] == x);
            }
        }
    } else {
        let front = sorted.drop_last();
        assert(descending(front));
        lemma_insert_keeps_order(front, b);
        let inner = insert_by_confidence(front, b);
        assert forall|i: int, j: int| 0 <= i < j < out.len() implies (#[trigger] out[i]).confidence
            >= (#[trigger] out[j]).confidence by {
            if j == out.len() - 1 {
                assert(inner.contains(inner[i]));
                if inner[i] != b {
                    let k = choose|k: int| 0 <= k < front.len() && front[k] == inner[i];
                    assert(sorted[k].confidence >= sorted[sorted.len() - 1].confidence);
                }
            }
        }
        assert forall|x: Bbox<usize>| out.contains(x) <==> (sorted.contains(x) || x == b) by {
            if out.contains(x) {
                let k = choose|k: int| 0 <= k < out.len() && out[k] == x;
                if k < inner.len() {
                    assert(inner.contains(x));
                    if front.contains(x) {
                        let m = choose|m: int| 0 <= m < front.len() && front[m] == x;
                        assert(sorted[m] == x);
                    }
                } else {
                    assert(sorted[sorted.len() - 1] == x);
                }
            }
            if sorted.contains(x) {
                let k = choose|k: int| 0 <= k < sorted.len() && sorted[k] == x;
                if k < front.len() {
                    assert(front[k] == x);
                    assert(front.contains(x));
                    assert(inner.contains(x));
                    let m = choose|m: int| 0 <= m < inner.len() && inner[m] == x;
                    assert(out[m] == x);
                } else {
                    assert(out[out.len() - 1] == x);
                }
            }
            if x == b {
                assert(inner.contains(b));
                let m = choose|m: int| 0 <= m < inner.len() && inner[m] == b;
                assert(out[m] == b);
            }
        }
    }
}

/// Ordering by confidence gives the same boxes, none more confident than
/// one before it.
pub proof fn lemma_by_confidence(boxes: Seq<Bbox<usize>>)
    ensures
        descending(by_confidence(boxes)),
        by_confidence(boxes).len() == boxes.len(),
        forall|x: Bbox<usize>|
            #![trigger by_confidence(boxes).contains(x)]
            #![trigger boxes.contains(x)]
            by_confidence(boxes).contains(x) <==> boxes.contains(x),
    decreases boxes.len(),
{
    if boxes.len() > 0 {
        let front = boxes.drop_last();
        lemma_by_confidence(front);
        lemma_insert_keeps_order(by_confidence(front), boxes.last());
        assert forall|x: Bbox<usize>| by_confidence(boxes).contains(x) <==> boxes.contains(x) by {
            if boxes.contains(x) {
                let k = choose|k: int| 0 <= k < boxes.len() && boxes[k] == x;
                if k < front.len() {
                    assert(front[k] == x);
                    assert(front.contains(x));
                }
            }
            if front.contains(x) {
                let k = choose|k: int| 0 <= k < front.len() && front[k] == x;
                assert(boxes[k] == x);
            }
            assert(boxes[boxes.len() - 1] == boxes.last());
        }
    }
}

/// Of the boxes gone through, the first always stays; every box that stays
/// is one of them; no two that stay overlap by more than the threshold; and
/// every box that was dropped overlaps one that stayed.
pub proof fn lemma_survivors(boxes: Seq<Bbox<usize>>, threshold: Ratio)
    ensures
        survivors(boxes, threshold).len() <= boxes.len(),
        boxes.len() > 0 ==> survivors(boxes, threshold).len() > 0 && survivors(
            boxes,
            threshold,
        )[0] == boxes[0],
        forall|x: Bbox<usize>| #[trigger]
            survivors(boxes, threshold).contains(x) ==> boxes.contains(x),
        forall|i: int, j: int|
            0 <= i < j < survivors(boxes, threshold).len() ==> !overlaps(
                #[trigger] survivors(boxes, threshold)[i],
                #[trigger] survivors(boxes, threshold)[j],
                threshold,
            ),
        forall|k: int|
            0 <= k < boxes.len() ==> survivors(boxes, threshold).contains(#[trigger] boxes[k])
                || clashes(survivors(boxes, threshold), boxes[k], threshold),
    decreases boxes.len(),
{
    let out = survivors(boxes, threshold);
    if boxes.len() > 0 {
        let front = boxes.drop_last();
        let kept = survivors(front, threshold);
        lemma_survivors(front, threshold);
        if front.len() == 0 {
            assert(!clashes(kept, boxes.last(), threshold));
        }
        assert forall|x: Bbox<usize>| out.contains(x) implies boxes.contains(x) by {
            let k = choose|k: int| 0 <= k < out.len() && out[k] == x;
            if k < kept.len() {
                assert(kept.contains(x));
                let m = choose|m: int| 0 <= m < front.len() && front[m] == x;
                assert(boxes[m] == x);
            } else {
                assert(boxes[boxes.len() - 1] == x);
            }
        }
        assert forall|k: int| 0 <= k < boxes.len() implies out.contains(#[trigger] boxes[k])
            || clashes(out, boxes[k], threshold) by {
            if k < front.len() {
                assert(front[k] == boxes[k]);
                if kept.contains(front[k]) {
                    let m = choose|m: int| 0 <= m < kept.len() && kept[m] == front[k];
                    assert(out[m] == boxes[k]);
                } else {
                    let m = choose|m: int|
                        0 <= m < kept.len() && overlaps(#[trigger] kept[m], front[k], threshold);
                    assert(overlaps(out[m], boxes[k], threshold));
                }
            } else if !clashes(kept, boxes.last(), threshold) {
                assert(out[out.len() - 1] == boxes[k]);
            }
        }
    }
}

/// What suppression leaves are boxes that it was given, no two of which
/// overlap by more than the threshold; and where it was given any box, the
/// first that it leaves is as confident as any box it was given.
pub proof fn lemma_suppressed(boxes: Seq<Bbox<usize>>, threshold: Ratio)
    ensures
        forall|i: int|
            0 <= i < suppressed(boxes, threshold).len() ==> boxes.contains(
                #[trigger] suppressed(boxes, threshold)[i],
            ),
        forall|i: int, j: int|
            0 <= i < suppressed(boxes, threshold).len() && 0 <= j < suppressed(
                boxes,
                threshold,
            ).len() && i != j ==> !overlaps(
                #[trigger] suppressed(boxes, threshold)[i],
                #[trigger] suppressed(boxes, threshold)[j],
                threshold,
            ),
        boxes.len() > 0 ==> suppressed(boxes, threshold).len() > 0,
        forall|k: int|
            0 <= k < boxes.len() ==> suppressed(boxes, threshold)[0].confidence >= (
            #[trigger] boxes[k]).confidence,
{
    let sorted = by_confidence(boxes);
    let out = survivors(sorted, threshold);
    lemma_by_confidence(boxes);
    lemma_survivors(sorted, threshold);
    assert forall|i: int| 0 <= i < out.len() implies boxes.contains(#[trigger] out[i]) by {
        assert(out.contains(out[i]));
        assert(sorted.contains(out[i]));
    }
    assert forall|i: int, j: int|
        0 <= i < out.len() && 0 <= j < out.len() && i != j implies !overlaps(
        #[trigger] out[i],
        #[trigger] out[j],
        threshold,
    ) by {
        if j < i {
            lemma_overlap_symmetric(out[i], out[j], threshold);
        }
    }
    assert forall|k: int| 0 <= k < boxes.len() implies out[0].confidence >= (
    #[trigger] boxes[k]).confidence by {
        assert(boxes.contains(boxes[k]));
        assert(sorted.contains(boxes[k]));
        let m = choose|m: int| 0 <= m < sorted.len() && sorted[m] == boxes[k];
        assert(out[0] == sorted[0]);
        if m > 0 {
            assert(sorted[0].confidence >= sorted[m].confidence);
        }
    }
}

/// Every box that was dropped overlaps, by more than the threshold, a box
/// that came before it and stayed.
pub proof fn lemma_dropped_for_an_earlier(boxes: Seq<Bbox<usize>>, threshold: Ratio, k: int)
    requires
        0 <= k < boxes.len(),
        !survivors(boxes, threshold).contains(boxes[k]),
    ensures
        exists|j: int|
            0 <= j < k && survivors(boxes, threshold).contains(#[trigger] boxes[j]) && overlaps(
                boxes[j],
                boxes[k],
                threshold,
            ),
    decreases boxes.len(),
{
    let out = survivors(boxes, threshold);
    let front = boxes.drop_last();
    let kept = survivors(front, threshold);
    lemma_survivors(front, threshold);
    assert forall|x: Bbox<usize>| kept.contains(x) implies out.contains(x) by {
        let m = choose|m: int| 0 <= m < kept.len() && kept[m] == x;
        assert(out[m] == x);
    }
    if k < front.len() {
        assert(front[k] == boxes[k]);
        lemma_dropped_for_an_earlier(front, threshold, k);
        let j = choose|j: int|
            0 <= j < k && kept.contains(#[trigger] front[j]) && overlaps(
                front[j],
                front[k],
                threshold,
            );
        assert(boxes[j] == front[j]);
    } else {
        if !clashes(kept, boxes.last(), threshold) {
            assert(out[out.len() - 1] == boxes[k]);
        }
        let m = choose|m: int|
            0 <= m < kept.len() && overlaps(#[trigger] kept[m], boxes.last(), threshold);
        assert(kept.contains(kept[m]));
        assert(front.contains(kept[m]));
        let j = choose|j: int| 0 <= j < front.len() && front[j] == kept[m];
        assert(boxes[j] == kept[m]);
    }
}

/// Orders boxes from the most to the least confident; boxes of equal
/// confidence stay in the order they came in.
pub fn sort_by_confidence(boxes: &Vec<Bbox<usize>>) -> (sorted: Vec<Bbox<usize>>)
    ensures
        sorted@ == by_confidence(boxes@),
{
    let mut sorted: Vec<Bbox<usize>> = Vec::new();
    let mut i: usize = 0;
    assert(boxes@.take(0) == Seq::<Bbox<usize>>::empty());
    while i < boxes.len()
        invariant
            i <= boxes.len(),
            sorted@ == by_confidence(boxes@.take(i as int)),
            sorted.len() <= i,
        decreases boxes.len() - i,
    {
        let b = boxes[i];
        let mut p: usize = sorted.len();
        while p > 0 && sorted[p - 1].confidence < b.confidence
            invariant
                p <= sorted.len(),
                forall|j: int|
                    p <= j < sorted.len() ==> (#[trigger] sorted[j]).confidence < b.confidence,
            decreases p,
        {
            p = p - 1;
        }
        proof {
            lemma_insert_at(sorted@, b, p as int);
            assert(boxes@.take(i + 1).drop_last() == boxes@.take(i as int));
            lemma_by_confidence(boxes@.take(i as int));
        }
        sorted.insert(p, b);
        i = i + 1;
    }
    assert(boxes@.take(boxes.len() as int) == boxes@);
    sorted
}

fn clashes_with(kept: &Vec<Bbox<usize>>, b: &Bbox<usize>, threshold: &Ratio) -> (r: bool)
    requires
        b.valid(),
        forall|k: int| 0 <= k < kept.len() ==> (#[trigger] kept[k]).valid(),
    ensures
        r == clashes(kept@, *b, *threshold),
{
    let mut k: usize = 0;
    while k < kept.len()
        invariant
            k <= kept.len(),
            b.valid(),
            forall|m: int| 0 <= m < kept.len() ==> (#[trigger] kept[m]).valid(),
            forall|m: int| 0 <= m < k ==> !overlaps(#[trigger] kept[m], *b, *threshold),
        decreases kept.len() - k,
    {
        if calculate_iou(&kept[k], b).is_above(threshold) {
            return true;
        }
        k = k + 1;
    }
    false
}

/// Leaves of `boxes` the most confident and, going on from the more to the
/// less confident, every box that overlaps none of those left by more than
/// `threshold`.
pub fn non_maximum_suppression(boxes: &mut Vec<Bbox<usize>>, threshold: &Ratio)
    requires
        forall|k: int| 0 <= k < old(boxes).len() ==> (#[trigger] old(boxes)[k]).valid(),
    ensures
        final(boxes)@ == suppressed(old(boxes)@, *threshold),
{
    let sorted = sort_by_confidence(boxes);
    proof {
        lemma_by_confidence(boxes@);
        assert forall|k: int| 0 <= k < sorted.len() implies (#[trigger] sorted[k]).valid() by {
            assert(sorted@.contains(sorted[k]));
            assert(boxes@.contains(sorted[k]));
        }
    }
    let mut kept: Vec<Bbox<usize>> = Vec::new();
    let mut i: usize = 0;
    assert(sorted@.take(0) == Seq::<Bbox<usize>>::empty());
    while i < sorted.len()
        invariant
            i <= sorted.len(),
            forall|k: int| 0 <= k < sorted.len() ==> (#[trigger] sorted[k]).valid(),
            forall|k: int| 0 <= k < kept.len() ==> (#[trigger] kept[k]).valid(),
            kept@ == survivors(sorted@.take(i as int), *threshold),
        decreases sorted.len() - i,
    {
        proof {
            assert(sorted@.take(i + 1).drop_last() == sorted@.take(i as int));
        }
        if !clashes_with(&kept, &sorted[i], threshold) {
            kept.push(sorted[i]);
        }
        i = i + 1;
    }
    assert(sorted@.take(sorted.len() as int) == sorted@);
    *boxes = kept;
}

} // verus!
