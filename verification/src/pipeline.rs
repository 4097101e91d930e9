//! From detections to recognized regions.

use vstd::prelude::*;
use crate::comic_text_detector::geometry::Bbox;

verus! {

/// A region of a page and the text read in it: the corners of the region
/// in pixels of the page, as `(xmin, ymin, xmax, ymax)`, and the detector's
/// confidence as a single-precision bit pattern.
#[derive(Debug)]
pub struct TextRegion {
    pub text: String,
    pub bbox: (usize, usize, usize, usize),
    pub confidence: u32,
}

/// A rectangle to cut out of a page: the left and top edge, the width and
/// the height.
#[derive(Debug, Clone, Copy, PartialEq, Eq, Structural)]
pub struct Crop {
    pub x: u32,
    pub y: u32,
    pub width: u32,
    pub height: u32,
}

/// The rectangle that a box covers.
pub open spec fn crop_of(bbox: Bbox<usize>) -> Crop {
    Crop {
        x: bbox.xmin as u32,
        y: bbox.ymin as u32,
        width: (bbox.xmax - bbox.xmin) as u32,
        height: (bbox.ymax - bbox.ymin) as u32,
    }
}

/// The rectangle to cut out of the page for a detection.
pub fn crop_region(bbox: &Bbox<usize>) -> (crop: Crop)
    requires
        bbox.valid(),
    ensures
        crop == crop_of(*bbox),
        crop.x + crop.width == bbox.xmax,
        crop.y + crop.height == bbox.ymax,
{
    Crop {
        x: bbox.xmin as u32,
        y: bbox.ymin as u32,
        width: (bbox.xmax - bbox.xmin) as u32,
        height: (bbox.ymax - bbox.ymin) as u32,
    }
}

/// What a region holds.
pub struct RegionSpec {
    pub text: Seq<char>,
    pub bbox: Bbox<usize>,
}

/// Whether `region` is the region of `bbox` with the text `text`.
pub open spec fn region_of(region: TextRegion, bbox: Bbox<usize>, text: Seq<char>) -> bool {
    &&& region.text@ == text
    &&& region.bbox == (bbox.xmin, bbox.ymin, bbox.xmax, bbox.ymax)
    &&& region.confidence == bbox.confidence
}

/// The detections among the first `count` whose text could be read, each
/// with its text, in order.
pub open spec fn read_regions(bboxes: Seq<Bbox<usize>>, texts: Seq<Option<String>>, count: nat)
    -> Seq<RegionSpec>
    decreases count,
{
    if count == 0 {
        Seq::empty()
    } else {
        let before = read_regions(bboxes, texts, (count - 1) as nat);
        match texts[count - 1] {
            Some(text) => before.push(RegionSpec { text: text@, bbox: bboxes[count - 1] }),
            None => before,
        }
    }
}

/// The number of detections that have a recognition outcome.
pub open spec fn paired(bboxes: Seq<Bbox<usize>>, texts: Seq<Option<String>>) -> nat {
    if bboxes.len() <= texts.len() {
        bboxes.len()
    } else {
        texts.len()
    }
}

/// Puts detections and what was read in them together. `texts` holds, for
/// each detection in turn, the text read in it, or `None` where reading
/// failed: such a detection is left out, the others stay in order.
pub fn collect_regions(bboxes: &Vec<Bbox<usize>>, texts: &Vec<Option<String>>) -> (regions: Vec<
    TextRegion,
>)
    ensures
        regions.len() == read_regions(bboxes@, texts@, paired(bboxes@, texts@)).len(),
        forall|i: int|
            0 <= i < regions.len() ==> region_of(
                #[trigger] regions[i],
                read_regions(bboxes@, texts@, paired(bboxes@, texts@))[i].bbox,
                read_regions(bboxes@, texts@, paired(bboxes@, texts@))[i].text,
            ),
{
    let count: usize = if bboxes.len() <= texts.len() {
        bboxes.len()
    } else {
        texts.len()
    };
    let mut regions: Vec<TextRegion> = Vec::new();
    let mut i: usize = 0;
    while i < count
        invariant
            i <= count,
            count <= bboxes.len(),
            count <= texts.len(),
            regions.len() == read_regions(bboxes@, texts@, i as nat).len(),
            forall|k: int|
                0 <= k < regions.len() ==> region_of(
                    #[trigger] regions[k],
                    read_regions(bboxes@, texts@, i as nat)[k].bbox,
                    read_regions(bboxes@, texts@, i as nat)[k].text,
                ),
        decreases count - i,
    {
        match &texts[i] {
            Some(text) => {
                let bbox = &bboxes[i];
                regions.push(
                    TextRegion {
                        text: text.clone(),
                        bbox: (bbox.xmin, bbox.ymin, bbox.xmax, bbox.ymax),
                        confidence: bbox.confidence,
                    },
                );
            },
            None => {},
        }
        i = i + 1;
    }
    regions
}

} // verus!
