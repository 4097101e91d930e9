use comic_ocr::comic_text_detector::geometry::{
    calculate_iou, suppression_threshold, Bbox, Ratio, CONFIDENCE_THRESHOLD, MAX_COORDINATE,
};
use comic_ocr::comic_text_detector::suppression::{non_maximum_suppression, sort_by_confidence};
use comic_ocr::comic_text_detector::yolo_v5::{output_size, Upsample};
use comic_ocr::comic_text_detector::{
    best_class, discarded, postprocess_yolo, prediction_layout, resized_dimensions, Layout, IMAGE_SIZE,
};
use comic_ocr::pipeline::{collect_regions, crop_region, Crop};
use comic_ocr::pixels::channel_planes;
use comic_ocr::error::Error;

fn bbox(xmin: usize, xmax: usize, ymin: usize, ymax: usize, confidence: f32, class: usize) -> Bbox<usize> {
    Bbox { xmin, xmax, ymin, ymax, confidence: confidence.to_bits(), data: class }
}

fn corners(b: &Bbox<usize>) -> (usize, usize, usize, usize) {
    (b.xmin, b.xmax, b.ymin, b.ymax)
}

fn iou_value(a: &Bbox<usize>, b: &Bbox<usize>) -> f32 {
    let iou = calculate_iou(a, b);
    iou.intersection as f32 / iou.union as f32
}

fn above(a: &Bbox<usize>, b: &Bbox<usize>) -> bool {
    calculate_iou(a, b).is_above(&suppression_threshold())
}

#[test]
fn thresholds_are_the_bits_of_their_values() {
    assert_eq!(CONFIDENCE_THRESHOLD, 0.4f32.to_bits());
    let threshold = suppression_threshold();
    assert_eq!((threshold.numerator, threshold.denominator), (7, 20));
    assert_eq!(MAX_COORDINATE, u32::MAX as usize);
    assert_eq!(IMAGE_SIZE, 640);
}

#[test]
fn iou_of_boxes_without_overlap_is_zero() {
    let a = bbox(0, 10, 0, 10, 0.9, 0);
    for b in [bbox(11, 20, 0, 10, 0.9, 0), bbox(0, 10, 11, 30, 0.9, 0), bbox(100, 200, 100, 200, 0.9, 0)] {
        let iou = calculate_iou(&a, &b);
        assert_eq!(iou.intersection, 0);
        assert_eq!(iou_value(&a, &b), 0.0);
        assert_eq!(iou_value(&b, &a), 0.0);
        assert!(!above(&a, &b));
    }
}

#[test]
fn iou_of_empty_boxes_that_are_apart_is_zero() {
    let a = bbox(5, 5, 0, 10, 0.9, 0);
    let b = bbox(7, 7, 0, 10, 0.9, 0);
    let iou = calculate_iou(&a, &b);
    assert_eq!(iou.intersection, 0);
    assert!(iou.union > 0);
    assert_eq!(iou_value(&a, &b), 0.0);
}

#[test]
fn iou_of_boxes_that_touch_is_zero() {
    let a = bbox(0, 10, 0, 10, 0.9, 0);
    let b = bbox(10, 20, 0, 10, 0.9, 0);
    assert_eq!(iou_value(&a, &b), 0.0);
}

#[test]
fn iou_of_a_box_with_itself_is_one() {
    for a in [bbox(0, 10, 0, 10, 0.9, 0), bbox(3, 4, 5, 1000, 0.1, 1), bbox(0, u32::MAX as usize, 0, u32::MAX as usize, 1.0, 0)] {
        let iou = calculate_iou(&a, &a);
        assert_eq!(iou.intersection, iou.union);
        assert!(iou.union > 0);
        assert_eq!(iou_value(&a, &a), 1.0);
        assert!(above(&a, &a));
    }
}

#[test]
fn iou_of_an_empty_box_with_itself_is_no_number() {
    let a = bbox(5, 5, 0, 10, 0.9, 0);
    let iou = calculate_iou(&a, &a);
    assert_eq!((iou.intersection, iou.union), (0, 0));
    assert!(iou_value(&a, &a).is_nan());
    assert!(!above(&a, &a));
}

#[test]
fn iou_is_intersection_over_union() {
    let a = bbox(0, 10, 0, 10, 0.9, 0);
    let b = bbox(5, 15, 0, 10, 0.8, 0);
    let iou = calculate_iou(&a, &b);
    assert_eq!((iou.intersection, iou.union), (50, 150));
    assert!(!above(&a, &b));
    let c = bbox(4, 14, 0, 10, 0.8, 0);
    let iou = calculate_iou(&a, &c);
    assert_eq!((iou.intersection, iou.union), (60, 140));
    assert!(above(&a, &c));
    let inner = bbox(2, 4, 2, 4, 0.8, 0);
    let iou = calculate_iou(&a, &inner);
    assert_eq!((iou.intersection, iou.union), (4, 100));
}

#[test]
fn iou_at_the_threshold_does_not_exceed_it() {
    let a = bbox(0, 20, 0, 1, 0.9, 0);
    let b = bbox(13, 20, 0, 1, 0.8, 0);
    let iou = calculate_iou(&a, &b);
    assert_eq!((iou.intersection, iou.union), (7, 20));
    assert!(!iou.is_above(&suppression_threshold()));
    assert!(iou.is_above(&Ratio { numerator: 34, denominator: 100 }));
    assert!(!iou.is_above(&Ratio { numerator: 36, denominator: 100 }));
}

#[test]
fn validity_asks_for_ordered_corners_and_a_confidence_up_to_one() {
    assert!(bbox(0, 10, 0, 10, 1.0, 0).is_valid());
    assert!(bbox(0, 0, 0, 0, 0.0, 0).is_valid());
    assert!(!bbox(11, 10, 0, 10, 0.5, 0).is_valid());
    assert!(!bbox(0, 10, 11, 10, 0.5, 0).is_valid());
    assert!(!bbox(0, 10, 0, 10, 1.5, 0).is_valid());
    assert!(!bbox(0, 10, 0, 10, -0.5, 0).is_valid());
    assert!(!bbox(0, 10, 0, 10, f32::NAN, 0).is_valid());
}

#[test]
fn sorting_goes_from_most_to_least_confident_and_keeps_ties_in_order() {
    let boxes = vec![
        bbox(0, 1, 0, 1, 0.5, 0),
        bbox(1, 2, 0, 1, 0.9, 0),
        bbox(2, 3, 0, 1, 0.5, 0),
        bbox(3, 4, 0, 1, 0.7, 0),
        bbox(4, 5, 0, 1, 0.9, 0),
    ];
    let sorted = sort_by_confidence(&boxes);
    let order: Vec<usize> = sorted.iter().map(|b| b.xmin).collect();
    assert_eq!(order, vec![1, 4, 3, 0, 2]);
    assert!(sort_by_confidence(&Vec::new()).is_empty());
}

#[test]
fn suppression_drops_the_less_confident_of_two_that_overlap() {
    let mut boxes = vec![
        bbox(0, 100, 0, 100, 0.6, 0),
        bbox(5, 105, 0, 100, 0.9, 0),
        bbox(200, 300, 0, 100, 0.5, 0),
        bbox(10, 110, 0, 100, 0.8, 0),
    ];
    non_maximum_suppression(&mut boxes, &suppression_threshold());
    let kept: Vec<(usize, f32)> = boxes.iter().map(|b| (b.xmin, f32::from_bits(b.confidence))).collect();
    assert_eq!(kept, vec![(5, 0.9), (200, 0.5)]);
}

#[test]
fn suppression_goes_by_the_boxes_that_stayed() {
    // The second overlaps the first and is dropped; the third overlaps only
    // the second, and stays.
    let mut boxes = vec![
        bbox(0, 100, 0, 10, 0.9, 0),
        bbox(50, 150, 0, 10, 0.8, 0),
        bbox(100, 200, 0, 10, 0.7, 0),
    ];
    assert!(!above(&boxes[0], &boxes[1]));
    let mut closer = vec![
        bbox(0, 100, 0, 10, 0.9, 0),
        bbox(40, 140, 0, 10, 0.8, 0),
        bbox(80, 180, 0, 10, 0.7, 0),
    ];
    assert!(above(&closer[0], &closer[1]));
    assert!(above(&closer[1], &closer[2]));
    assert!(!above(&closer[0], &closer[2]));
    non_maximum_suppression(&mut closer, &suppression_threshold());
    assert_eq!(closer.iter().map(|b| b.xmin).collect::<Vec<_>>(), vec![0, 80]);
    non_maximum_suppression(&mut boxes, &suppression_threshold());
    assert_eq!(boxes.len(), 3);
}

#[test]
fn suppression_of_nothing_and_of_one() {
    let mut none: Vec<Bbox<usize>> = Vec::new();
    non_maximum_suppression(&mut none, &suppression_threshold());
    assert!(none.is_empty());
    let mut one = vec![bbox(1, 2, 3, 4, 0.5, 1)];
    non_maximum_suppression(&mut one, &suppression_threshold());
    assert_eq!(one.len(), 1);
    assert_eq!(corners(&one[0]), (1, 2, 3, 4));
}

#[test]
fn detections_never_overlap_within_a_class() {
    let mut candidates = Vec::new();
    for i in 0..40usize {
        let x = (i * 37) % 200;
        let y = (i * 53) % 150;
        let confidence = 0.3 + ((i * 17) % 70) as f32 / 100.0;
        candidates.push(bbox(x, x + 60 + i % 7, y, y + 40 + i % 5, confidence, i % 3));
    }
    let result = postprocess_yolo(&candidates, 3);
    assert!(!result.is_empty());
    for (i, a) in result.iter().enumerate() {
        for (j, b) in result.iter().enumerate() {
            if i != j && a.data == b.data {
                assert!(!(iou_value(a, b) > 0.35), "{:?} {:?}", a, b);
            }
        }
    }
}

#[test]
fn detections_are_candidates_and_keep_the_most_confident_of_each_class() {
    let mut candidates = Vec::new();
    for i in 0..40usize {
        let x = (i * 37) % 200;
        let y = (i * 53) % 150;
        let confidence = 0.3 + ((i * 17) % 70) as f32 / 100.0;
        candidates.push(bbox(x, x + 60 + i % 7, y, y + 40 + i % 5, confidence, i % 3));
    }
    let result = postprocess_yolo(&candidates, 3);
    for d in &result {
        assert!(candidates.iter().any(|c| corners(c) == corners(d)
            && c.confidence == d.confidence
            && c.data == d.data));
        assert!(f32::from_bits(d.confidence) >= 0.4);
    }
    for class in 0..3 {
        let best = candidates
            .iter()
            .filter(|c| c.data == class)
            .map(|c| f32::from_bits(c.confidence))
            .fold(0.0f32, f32::max);
        assert!(best >= 0.4);
        assert!(result.iter().any(|d| d.data == class && f32::from_bits(d.confidence) == best));
    }
}

#[test]
fn detections_come_class_by_class() {
    let candidates = vec![
        bbox(0, 10, 0, 10, 0.5, 1),
        bbox(100, 110, 0, 10, 0.6, 0),
        bbox(200, 210, 0, 10, 0.9, 1),
        bbox(300, 310, 0, 10, 0.7, 0),
        bbox(400, 410, 0, 10, 0.8, 2),
    ];
    let result = postprocess_yolo(&candidates, 2);
    assert_eq!(result.iter().map(|b| b.xmin).collect::<Vec<_>>(), vec![300, 100, 200, 0]);
    assert!(postprocess_yolo(&candidates, 0).is_empty());
    assert_eq!(postprocess_yolo(&candidates, 3).len(), 5);
}

#[test]
fn candidates_below_the_confidence_threshold_are_discarded() {
    let below = f32::from_bits(0.4f32.to_bits() - 1);
    let candidates = vec![
        bbox(0, 10, 0, 10, below, 0),
        bbox(100, 110, 0, 10, 0.4, 0),
        bbox(200, 210, 0, 10, 0.0, 0),
        bbox(300, 310, 0, 10, 1.0, 0),
    ];
    let result = postprocess_yolo(&candidates, 1);
    assert_eq!(result.iter().map(|b| b.xmin).collect::<Vec<_>>(), vec![300, 100]);
    assert!(postprocess_yolo(&candidates[..1].to_vec(), 1).is_empty());
    assert!(postprocess_yolo(&Vec::new(), 2).is_empty());
}

fn decoded_candidate(
    prediction: [f32; 7],
    page: (u32, u32),
    resized: (u32, u32),
) -> Option<Bbox<usize>> {
    let [cx, cy, w, h, objectness, s0, s1] = prediction;
    let scores = [s0.to_bits(), s1.to_bits()];
    let (class, score) = best_class(&scores);
    let confidence = objectness * f32::from_bits(score);
    let w_ratio = page.0 as f32 / resized.0 as f32;
    let h_ratio = page.1 as f32 / resized.1 as f32;
    let b = Bbox {
        xmin: ((cx - w / 2.0) * w_ratio - 1.0).clamp(0.0, page.0 as f32) as usize,
        xmax: ((cx + w / 2.0) * w_ratio + 1.0).clamp(0.0, page.0 as f32) as usize,
        ymin: ((cy - h / 2.0) * h_ratio - 1.0).clamp(0.0, page.1 as f32) as usize,
        ymax: ((cy + h / 2.0) * h_ratio + 1.0).clamp(0.0, page.1 as f32) as usize,
        confidence: confidence.to_bits(),
        data: class,
    };
    if b.is_valid() {
        Some(b)
    } else {
        None
    }
}

#[test]
fn decoded_boxes_have_the_expected_corners() {
    // A page of 1280 by 960 pixels, resized to 640 by 480: every length
    // doubles on the way back.
    let page = (1280u32, 960u32);
    let resized = resized_dimensions(page.0, page.1).unwrap();
    assert_eq!(resized, (640, 480));
    let predictions = [
        [100.0, 50.0, 40.0, 20.0, 0.9, 0.1, 0.8],
        [101.0, 50.0, 40.0, 20.0, 0.9, 0.1, 0.7],
        [400.0, 300.0, 100.0, 50.0, 0.95, 0.9, 0.2],
        [630.0, 470.0, 40.0, 40.0, 0.99, 0.99, 0.0],
        [300.0, 200.0, 10.0, 10.0, 0.5, 0.5, 0.5],
    ];
    let candidates: Vec<Bbox<usize>> =
        predictions.iter().map(|p| decoded_candidate(*p, page, resized).unwrap()).collect();
    let result = postprocess_yolo(&candidates, 2);
    let found: Vec<(usize, usize, usize, usize, usize)> =
        result.iter().map(|b| (b.xmin, b.xmax, b.ymin, b.ymax, b.data)).collect();
    let expected = [(1219usize, 1280usize, 899usize, 960usize, 0usize), (699, 901, 549, 651, 0), (159, 241, 79, 121, 1)];
    assert_eq!(found.len(), expected.len());
    for (f, e) in found.iter().zip(expected.iter()) {
        assert!(f.0.abs_diff(e.0) <= 1 && f.1.abs_diff(e.1) <= 1, "{:?} {:?}", f, e);
        assert!(f.2.abs_diff(e.2) <= 1 && f.3.abs_diff(e.3) <= 1, "{:?} {:?}", f, e);
        assert_eq!(f.4, e.4);
    }
    let top = &result[2];
    assert!((f32::from_bits(top.confidence) - 0.72).abs() < 1e-6);
}

#[test]
fn one_fired_cell_gives_one_box_that_maps_back() {
    // A page of 640 by 480 with a dark rectangle from (200, 120) to
    // (360, 200); the head fires at one cell of the coarsest scale.
    let page = (640u32, 480u32);
    let resized = resized_dimensions(page.0, page.1).unwrap();
    assert_eq!(resized, (640, 480));
    let mut candidates = Vec::new();
    for cell in 0..25 {
        let fired = cell == 12;
        let prediction = if fired {
            [280.0, 160.0, 160.0, 80.0, 0.9, 0.95, 0.05]
        } else {
            [16.0 + 32.0 * cell as f32, 16.0, 32.0, 32.0, 0.01, 0.5, 0.5]
        };
        candidates.push(decoded_candidate(prediction, page, resized).unwrap());
    }
    let result = postprocess_yolo(&candidates, 2);
    assert_eq!(result.len(), 1);
    assert_eq!(corners(&result[0]), (199, 361, 119, 201));
    assert_eq!(result[0].data, 0);
}

#[test]
fn resized_dimensions_fit_the_longer_side() {
    assert_eq!(resized_dimensions(640, 480), Some((640, 480)));
    assert_eq!(resized_dimensions(480, 640), Some((480, 640)));
    assert_eq!(resized_dimensions(1000, 1000), Some((640, 640)));
    assert_eq!(resized_dimensions(1920, 1080), Some((640, 360)));
    assert_eq!(resized_dimensions(1000, 333), Some((640, 213)));
    assert_eq!(resized_dimensions(333, 1000), Some((213, 640)));
    assert_eq!(resized_dimensions(1, 1), Some((640, 640)));
    assert_eq!(resized_dimensions(3, 2), Some((640, 426)));
}

#[test]
fn resized_dimensions_of_degenerate_pages() {
    assert_eq!(resized_dimensions(0, 0), None);
    assert_eq!(resized_dimensions(5, 0), Some((640, 0)));
    assert_eq!(resized_dimensions(0, 5), Some((0, 640)));
    assert_eq!(resized_dimensions(u32::MAX, u32::MAX), Some((640, 640)));
    assert_eq!(resized_dimensions(u32::MAX, 1), Some((640, 0)));
    assert_eq!(resized_dimensions(u32::MAX, u32::MAX - 1), Some((640, 639)));
}

#[test]
fn prediction_layout_reads_boxes_and_classes() {
    assert_eq!(prediction_layout(&[1, 25200, 7]), Ok(Some(Layout { boxes: 25200, classes: 2 })));
    assert_eq!(prediction_layout(&[1, 3, 6]), Ok(Some(Layout { boxes: 3, classes: 1 })));
    assert_eq!(prediction_layout(&[0, 25200, 7]), Ok(None));
    assert_eq!(prediction_layout(&[1, 0, 7]), Ok(None));
    assert_eq!(prediction_layout(&[1, 25200, 0]), Ok(None));
    assert_eq!(prediction_layout(&[1, 25200, 5]), Err(Error::Shape));
    assert_eq!(prediction_layout(&[1, 1, 1]), Err(Error::Shape));
}

fn best_class_by_floats(scores: &[f32]) -> (usize, f32) {
    let mut max_class_score = 0.0f32;
    let mut class_idx = 0usize;
    for (c, score) in scores.iter().enumerate() {
        if *score > max_class_score {
            max_class_score = *score;
            class_idx = c;
        }
    }
    (class_idx, max_class_score)
}

#[test]
fn best_class_is_the_first_of_the_greatest_above_zero() {
    let rows: Vec<Vec<f32>> = vec![
        vec![],
        vec![0.0],
        vec![0.2, 0.9],
        vec![0.9, 0.2],
        vec![0.5, 0.5, 0.5],
        vec![0.1, 0.7, 0.7, 0.3],
        vec![-1.0, -0.5],
        vec![0.0, -0.0, 0.0],
        vec![f32::NAN, 0.3, f32::NAN],
        vec![0.3, f32::NAN, 0.4],
        vec![f32::INFINITY, 1.0],
        vec![1e-40, 0.0],
        vec![f32::NEG_INFINITY, 1e-45],
    ];
    for row in rows {
        let bits: Vec<u32> = row.iter().map(|v| v.to_bits()).collect();
        let (class, score) = best_class(&bits);
        let (expected_class, expected_score) = best_class_by_floats(&row);
        assert_eq!(class, expected_class, "{:?}", row);
        assert_eq!(score, expected_score.to_bits(), "{:?}", row);
    }
}

#[test]
fn output_size_counts_the_places_of_a_window() {
    assert_eq!(output_size(640, 6, 2, 2), Some(320));
    assert_eq!(output_size(320, 3, 2, 1), Some(160));
    assert_eq!(output_size(20, 5, 1, 2), Some(20));
    assert_eq!(output_size(20, 1, 1, 0), Some(20));
    assert_eq!(output_size(5, 5, 3, 0), Some(1));
    assert_eq!(output_size(4, 5, 1, 0), None);
    assert_eq!(output_size(4, 5, 1, 1), Some(2));
    assert_eq!(output_size(10, 3, 0, 1), None);
    assert_eq!(output_size(usize::MAX, 1, 1, 1), None);
    assert_eq!(output_size(usize::MAX, 1, 1, 0), Some(usize::MAX));
    assert_eq!(output_size(usize::MAX, 0, 1, 0), None);
    assert_eq!(Upsample::new(2).output_size(20), Some(40));
    assert_eq!(Upsample::new(2).output_size(usize::MAX), None);
    assert_eq!(Upsample::new(0).output_size(7), Some(0));
}

#[test]
fn planes_hold_each_channel_on_the_canvas() {
    // Two pixels wide, one high, on a canvas of side three.
    let pixels = [1u8, 2, 3, 4, 5, 6];
    let planes = channel_planes(&pixels, 2, 1, 3).unwrap();
    assert_eq!(
        planes,
        vec![1, 4, 0, 0, 0, 0, 0, 0, 0, 2, 5, 0, 0, 0, 0, 0, 0, 0, 3, 6, 0, 0, 0, 0, 0, 0, 0]
    );
    let pixels: Vec<u8> = (0..24).collect();
    let planes = channel_planes(&pixels, 2, 4, 4).unwrap();
    assert_eq!(planes.len(), 48);
    for c in 0..3 {
        for y in 0..4 {
            for x in 0..4 {
                let expected = if x < 2 { pixels[(y * 2 + x) * 3 + c] } else { 0 };
                assert_eq!(planes[c * 16 + y * 4 + x], expected);
            }
        }
    }
    assert_eq!(channel_planes(&[], 0, 0, 2), Ok(vec![0; 12]));
    assert_eq!(channel_planes(&[], 0, 0, 0), Ok(Vec::new()));
    assert_eq!(channel_planes(&[9, 8, 7], 1, 1, 1), Ok(vec![9, 8, 7]));
}

#[test]
fn planes_reject_what_does_not_fit() {
    assert_eq!(channel_planes(&[1, 2, 3, 4, 5, 6], 2, 1, 1), Err(Error::Shape));
    assert_eq!(channel_planes(&[1, 2, 3, 4, 5, 6], 1, 2, 1), Err(Error::Shape));
    assert_eq!(channel_planes(&[1, 2, 3, 4, 5], 2, 1, 3), Err(Error::Shape));
    assert_eq!(channel_planes(&[1, 2, 3, 4, 5, 6, 7], 2, 1, 3), Err(Error::Shape));
    assert_eq!(channel_planes(&[], 0, 0, usize::MAX), Err(Error::Shape));
}

#[test]
fn crop_is_the_rectangle_of_the_box() {
    let crop = crop_region(&bbox(10, 30, 5, 50, 0.5, 0));
    assert_eq!(crop, Crop { x: 10, y: 5, width: 20, height: 45 });
    let all = crop_region(&bbox(0, u32::MAX as usize, 0, u32::MAX as usize, 0.5, 0));
    assert_eq!(all, Crop { x: 0, y: 0, width: u32::MAX, height: u32::MAX });
    let none = crop_region(&bbox(7, 7, 9, 9, 0.5, 0));
    assert_eq!(none, Crop { x: 7, y: 9, width: 0, height: 0 });
}

#[test]
fn regions_leave_out_what_could_not_be_read() {
    let boxes = vec![bbox(0, 10, 0, 5, 0.9, 0), bbox(20, 30, 0, 5, 0.8, 1), bbox(40, 50, 0, 5, 0.7, 0)];
    let texts = vec![Some("あ".to_string()), None, Some(String::new())];
    let regions = collect_regions(&boxes, &texts);
    assert_eq!(regions.len(), 2);
    assert_eq!(regions[0].text, "あ");
    assert_eq!(regions[0].bbox, (0, 0, 10, 5));
    assert_eq!(f32::from_bits(regions[0].confidence), 0.9);
    assert_eq!(regions[1].text, "");
    assert_eq!(regions[1].bbox, (40, 0, 50, 5));
    assert_eq!(collect_regions(&boxes, &texts[..1].to_vec()).len(), 1);
    assert_eq!(collect_regions(&boxes[..1].to_vec(), &texts).len(), 1);
    assert!(collect_regions(&Vec::new(), &texts).is_empty());
    assert!(collect_regions(&boxes, &vec![None, None, None]).is_empty());
}

#[test]
fn candidates_below_the_threshold_are_discarded_at_once() {
    let below = f32::from_bits(0.4f32.to_bits() - 1);
    for (confidence, expected) in [
        (0.0f32, true),
        (0.39, true),
        (below, true),
        (0.4, false),
        (0.9, false),
        (1.0, false),
        (-0.5, true),
        (-0.0, true),
        (2.0, false),
        (f32::NAN, false),
        (f32::INFINITY, false),
        (f32::NEG_INFINITY, true),
    ] {
        assert_eq!(discarded(confidence.to_bits()), expected, "{}", confidence);
        assert_eq!(discarded(confidence.to_bits()), confidence < 0.4);
    }
}
