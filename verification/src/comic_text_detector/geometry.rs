//! Boxes and their overlap.

use vstd::prelude::*;
use crate::ieee::ONE;

verus! {

/// A detected region: corners in pixels of the page, a confidence, and the
/// index of the class.
///
/// The confidence is the bit pattern of a single-precision value between 0
/// and 1; such patterns are ordered as their values are.
#[derive(Debug, Clone, Copy)]
pub struct Bbox<T> {
    pub xmin: T,
    pub xmax: T,
    pub ymin: T,
    pub ymax: T,
    pub confidence: u32,
    pub data: usize,
}

/// The greatest coordinate of a pixel: image dimensions are 32-bit.
pub const MAX_COORDINATE: usize = 0xFFFF_FFFF;

/// A ratio of two numbers.
#[derive(Debug, Clone, Copy)]
pub struct Ratio {
    pub numerator: u32,
    pub denominator: u32,
}

/// The overlap above which the less confident of two boxes is dropped:
/// 0.35.
pub open spec fn nms_threshold() -> Ratio {
    Ratio { numerator: 7, denominator: 20 }
}

/// The overlap above which the less confident of two boxes is dropped.
pub fn suppression_threshold() -> (threshold: Ratio)
    ensures
        threshold == nms_threshold(),
{
    Ratio { numerator: 7, denominator: 20 }
}

/// The bit pattern of the confidence below which a candidate is discarded:
/// 0.4.
pub const CONFIDENCE_THRESHOLD: u32 = 0x3ECC_CCCD;

/// The overlap of two boxes as a fraction: area of the intersection over
/// area of the union. Where both are 0 the overlap is no number.
#[derive(Debug, Clone, Copy, PartialEq, Eq, Structural)]
pub struct Iou {
    pub intersection: u128,
    pub union: u128,
}

impl Bbox<usize> {
    /// Corners in order and within the greatest image, confidence between 0
    /// and 1.
    pub open spec fn valid(self) -> bool {
        &&& self.xmin <= self.xmax <= MAX_COORDINATE
        &&& self.ymin <= self.ymax <= MAX_COORDINATE
        &&& self.confidence <= ONE
    }

    /// The box's area.
    pub open spec fn area(self) -> int {
        (self.xmax - self.xmin) * (self.ymax - self.ymin)
    }

    /// Whether the box is valid.
    pub fn is_valid(&self) -> (r: bool)
        ensures
            r == self.valid(),
    {
        self.xmin <= self.xmax && self.xmax <= MAX_COORDINATE && self.ymin <= self.ymax
            && self.ymax <= MAX_COORDINATE && self.confidence <= ONE
    }
}

/// The greater of two numbers.
pub open spec fn max(a: int, b: int) -> int {
    if a >= b {
        a
    } else {
        b
    }
}

/// The smaller of two numbers.
pub open spec fn min(a: int, b: int) -> int {
    if a <= b {
        a
    } else {
        b
    }
}

/// Whether two boxes are apart: on one axis at least, one ends before the
/// other begins. Boxes that touch are not apart, though they share no area.
pub open spec fn apart(a: Bbox<usize>, b: Bbox<usize>) -> bool {
    min(a.xmax as int, b.xmax as int) < max(a.xmin as int, b.xmin as int) || min(
        a.ymax as int,
        b.ymax as int,
    ) < max(a.ymin as int, b.ymin as int)
}

/// The area that two boxes share.
pub open spec fn intersection_area(a: Bbox<usize>, b: Bbox<usize>) -> int {
    if apart(a, b) {
        0
    } else {
        (min(a.xmax as int, b.xmax as int) - max(a.xmin as int, b.xmin as int)) * (min(
            a.ymax as int,
            b.ymax as int,
        ) - max(a.ymin as int, b.ymin as int))
    }
}

/// The area that two boxes cover together.
pub open spec fn union_area(a: Bbox<usize>, b: Bbox<usize>) -> int {
    a.area() + b.area() - intersection_area(a, b)
}

/// The overlap of two boxes: 0 where they are apart, whatever their areas;
/// else the area they share over the area they cover together.
pub open spec fn iou(a: Bbox<usize>, b: Bbox<usize>) -> Iou {
    if apart(a, b) {
        Iou {
            intersection: 0,
            union: if a.area() + b.area() > 0 {
                (a.area() + b.area()) as u128
            } else {
                1
            },
        }
    } else {
        Iou { intersection: intersection_area(a, b) as u128, union: union_area(a, b) as u128 }
    }
}

impl Iou {
    /// Whether the fraction is 0: nothing is shared.
    pub open spec fn is_zero(self) -> bool {
        self.intersection == 0 && self.union > 0
    }

    /// Whether the fraction is 1: all is shared.
    pub open spec fn is_one(self) -> bool {
        self.intersection == self.union && self.union > 0
    }

    /// Whether the fraction is greater than `threshold`. A fraction of 0
    /// over 0 is greater than nothing.
    pub open spec fn exceeds(self, threshold: Ratio) -> bool {
        self.intersection * threshold.denominator > self.union * threshold.numerator
    }

    /// Whether the fraction is greater than `threshold`.
    pub fn is_above(&self, threshold: &Ratio) -> (r: bool)
        requires
            self.intersection <= 0xFFFF_FFFF_FFFF_FFFF,
            self.union <= 0x1_FFFF_FFFF_FFFF_FFFF,
        ensures
            r == self.exceeds(*threshold),
    {
        assert(self.intersection * threshold.denominator <= 0xFFFF_FFFF_FFFF_FFFF * 0xFFFF_FFFF)
            by (nonlinear_arith)
            requires
                self.intersection <= 0xFFFF_FFFF_FFFF_FFFF,
                threshold.denominator <= 0xFFFF_FFFF,
        ;
        assert(self.union * threshold.numerator <= 0x1_FFFF_FFFF_FFFF_FFFF * 0xFFFF_FFFF)
            by (nonlinear_arith)
            requires
                self.union <= 0x1_FFFF_FFFF_FFFF_FFFF,
                threshold.numerator <= 0xFFFF_FFFF,
        ;
        self.intersection * (threshold.denominator as u128) > self.union * (
        threshold.numerator as u128)
    }
}

/// Whether the overlap of two boxes is greater than `threshold`.
pub open spec fn overlaps(a: Bbox<usize>, b: Bbox<usize>, threshold: Ratio) -> bool {
    iou(a, b).exceeds(threshold)
}

proof fn lemma_area_bound(w: int, h: int)
    requires
        0 <= w <= MAX_COORDINATE,
        0 <= h <= MAX_COORDINATE,
    ensures
        0 <= w * h <= MAX_COORDINATE * MAX_COORDINATE,
{
    assert(0 <= w * h <= MAX_COORDINATE * MAX_COORDINATE) by (nonlinear_arith)
        requires
            0 <= w <= MAX_COORDINATE,
            0 <= h <= MAX_COORDINATE,
    ;
}

proof fn lemma_product_monotone(w1: int, h1: int, w2: int, h2: int)
    requires
        0 <= w1 <= w2,
        0 <= h1 <= h2,
    ensures
        w1 * h1 <= w2 * h2,
{
    assert(w1 * h1 <= w2 * h2) by (nonlinear_arith)
        requires
            0 <= w1 <= w2,
            0 <= h1 <= h2,
    ;
}

/// The overlap of two boxes.
pub fn calculate_iou(a: &Bbox<usize>, b: &Bbox<usize>) -> (overlap: Iou)
    requires
        a.valid(),
        b.valid(),
    ensures
        overlap == iou(*a, *b),
        overlap.intersection <= overlap.union,
        overlap.intersection <= 0xFFFF_FFFF_FFFF_FFFF,
        overlap.union <= 0x1_FFFF_FFFF_FFFF_FFFF,
{
    let x_left: usize = if a.xmin >= b.xmin {
        a.xmin
    } else {
        b.xmin
    };
    let y_top: usize = if a.ymin >= b.ymin {
        a.ymin
    } else {
        b.ymin
    };
    let x_right: usize = if a.xmax <= b.xmax {
        a.xmax
    } else {
        b.xmax
    };
    let y_bottom: usize = if a.ymax <= b.ymax {
        a.ymax
    } else {
        b.ymax
    };
    proof {
        lemma_area_bound(a.xmax - a.xmin, a.ymax - a.ymin);
        lemma_area_bound(b.xmax - b.xmin, b.ymax - b.ymin);
    }
    let box_a_area: u128 = ((a.xmax - a.xmin) as u128) * ((a.ymax - a.ymin) as u128);
    let box_b_area: u128 = ((b.xmax - b.xmin) as u128) * ((b.ymax - b.ymin) as u128);
    if x_right < x_left || y_bottom < y_top {
        let together: u128 = box_a_area + box_b_area;
        return Iou {
            intersection: 0,
            union: if together > 0 {
                together
            } else {
                1
            },
        };
    }
    proof {
        lemma_area_bound(x_right - x_left, y_bottom - y_top);
        lemma_product_monotone(
            x_right - x_left,
            y_bottom - y_top,
            a.xmax - a.xmin,
            a.ymax - a.ymin,
        );
        lemma_product_monotone(
            x_right - x_left,
            y_bottom - y_top,
            b.xmax - b.xmin,
            b.ymax - b.ymin,
        );
    }
    let intersection_area: u128 = ((x_right - x_left) as u128) * ((y_bottom - y_top) as u128);
    Iou { intersection: intersection_area, union: box_a_area + box_b_area - intersection_area }
}

/// Boxes that are apart have an overlap of 0.
pub proof fn lemma_iou_of_disjoint_boxes(a: Bbox<usize>, b: Bbox<usize>)
    requires
        a.valid(),
        b.valid(),
        apart(a, b),
    ensures
        iou(a, b).is_zero(),
{
    lemma_area_bound(a.xmax - a.xmin, a.ymax - a.ymin);
    lemma_area_bound(b.xmax - b.xmin, b.ymax - b.ymin);
}

/// Boxes that share no area have an overlap of 0, unless they share a part
/// of their borders and both are empty.
pub proof fn lemma_iou_without_shared_area(a: Bbox<usize>, b: Bbox<usize>)
    requires
        a.valid(),
        b.valid(),
        intersection_area(a, b) == 0,
        apart(a, b) || a.area() > 0 || b.area() > 0,
    ensures
        iou(a, b).is_zero(),
{
    lemma_area_bound(a.xmax - a.xmin, a.ymax - a.ymin);
    lemma_area_bound(b.xmax - b.xmin, b.ymax - b.ymin);
}

/// A box that is not empty has an overlap of 1 with itself.
pub proof fn lemma_iou_of_equal_boxes(a: Bbox<usize>)
    requires
        a.valid(),
        a.area() > 0,
    ensures
        iou(a, a).is_one(),
{
    assert(!apart(a, a));
    lemma_area_bound(a.xmax - a.xmin, a.ymax - a.ymin);
}

/// The overlap of two boxes does not depend on their order.
pub proof fn lemma_overlap_symmetric(a: Bbox<usize>, b: Bbox<usize>, threshold: Ratio)
    ensures
        overlaps(a, b, threshold) == overlaps(b, a, threshold),
{
    assert(apart(a, b) == apart(b, a));
    assert(intersection_area(a, b) == intersection_area(b, a)) by {
        assert((min(a.xmax as int, b.xmax as int) - max(a.xmin as int, b.xmin as int)) * (min(
            a.ymax as int,
            b.ymax as int,
        ) - max(a.ymin as int, b.ymin as int)) == (min(b.xmax as int, a.xmax as int) - max(
            b.xmin as int,
            a.xmin as int,
        )) * (min(b.ymax as int, a.ymax as int) - max(b.ymin as int, a.ymin as int)));
    }
}

} // verus!
