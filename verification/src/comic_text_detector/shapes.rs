//! The shapes of the feature maps on their way through the detector: which
//! inputs the network's blocks take, and what they make of them.

use vstd::prelude::*;
use crate::comic_text_detector::geometry::Ratio;
use crate::comic_text_detector::yolo_v5::{
    head_channels, head_outputs, output_size, scaled, whole, window_places, Bottleneck,
    ConvBnSilu, DetectHead, Sppf, Upsample, YoloV5, C3,
};
use crate::names::decimal;
use crate::tensor::Tensor;
use crate::weights::Contents;

verus! {

/// The shape of a feature map.
#[derive(Debug, Clone, Copy, PartialEq, Eq, Structural)]
pub struct FeatureShape {
    pub channels: usize,
    pub height: usize,
    pub width: usize,
}

/// Whether a tensor is a vector of `len` elements.
pub open spec fn is_vector(shape: Seq<usize>, len: usize) -> bool {
    shape.len() == 1 && shape[0] == len
}

fn vector_of(tensor: &Tensor, len: usize) -> (r: bool)
    ensures
        r == is_vector(tensor@.shape, len),
{
    let shape = tensor.shape();
    shape.len() == 1 && shape[0] == len
}

/// Two feature maps side by side along the channels: they must be of one
/// height and one width.
pub open spec fn joined(a: FeatureShape, b: FeatureShape) -> Option<FeatureShape> {
    if a.height != b.height || a.width != b.width || a.channels + b.channels > usize::MAX {
        None
    } else {
        Some(
            FeatureShape {
                channels: (a.channels + b.channels) as usize,
                height: a.height,
                width: a.width,
            },
        )
    }
}

/// The shape of two feature maps side by side along the channels.
pub fn concatenated(a: &FeatureShape, b: &FeatureShape) -> (r: Option<FeatureShape>)
    ensures
        r == joined(*a, *b),
{
    if a.height != b.height || a.width != b.width {
        return None;
    }
    let channels = a.channels.checked_add(b.channels)?;
    Some(FeatureShape { channels, height: a.height, width: a.width })
}

impl ConvBnSilu {
    /// What the block makes of a feature map: `None` where the map has not
    /// the channels that the kernel takes, where the kernel does not fit on
    /// it, or where kernel and normalization are not of one number of
    /// channels.
    #[verifier::opaque]
    pub open spec fn shape_after(&self, input: FeatureShape) -> Option<FeatureShape> {
        let kernel = self.conv_weight@.shape;
        if kernel.len() != 4 || kernel[1] != input.channels || self.conv_bias is Some
            || !is_vector(self.bn_weight@.shape, kernel[0]) || !is_vector(
            self.bn_bias@.shape,
            kernel[0],
        ) || !is_vector(self.bn_running_mean@.shape, kernel[0]) || !is_vector(
            self.bn_running_var@.shape,
            kernel[0],
        ) {
            None
        } else {
            match (
                window_places(input.height, kernel[2], self.stride, self.padding),
                window_places(input.width, kernel[3], self.stride, self.padding),
            ) {
                (Some(height), Some(width)) => Some(
                    FeatureShape { channels: kernel[0], height, width },
                ),
                _ => None,
            }
        }
    }

    /// The shape of what the block makes of a feature map.
    pub fn output_shape(&self, input: &FeatureShape) -> (r: Option<FeatureShape>)
        ensures
            r == self.shape_after(*input),
    {
        reveal(ConvBnSilu::shape_after);
        let kernel = self.conv_weight.shape();
        if kernel.len() != 4 || kernel[1] != input.channels || self.conv_bias.is_some() {
            return None;
        }
        let channels: usize = kernel[0];
        if !vector_of(&self.bn_weight, channels) || !vector_of(&self.bn_bias, channels)
            || !vector_of(&self.bn_running_mean, channels) || !vector_of(
            &self.bn_running_var,
            channels,
        ) {
            return None;
        }
        let height = output_size(input.height, kernel[2], self.stride, self.padding)?;
        let width = output_size(input.width, kernel[3], self.stride, self.padding)?;
        Some(FeatureShape { channels, height, width })
    }
}

impl Bottleneck {
    /// What the unit makes of a feature map; where it adds its input to its
    /// output, the two must be of one shape.
    #[verifier::opaque]
    pub open spec fn shape_after(&self, input: FeatureShape) -> Option<FeatureShape> {
        match self.cv1.shape_after(input) {
            Some(inner) => match self.cv2.shape_after(inner) {
                Some(output) => if self.residual && output != input {
                    None
                } else {
                    Some(output)
                },
                None => None,
            },
            None => None,
        }
    }

    /// The shape of what the unit makes of a feature map.
    pub fn output_shape(&self, input: &FeatureShape) -> (r: Option<FeatureShape>)
        ensures
            r == self.shape_after(*input),
    {
        reveal(Bottleneck::shape_after);
        let inner = self.cv1.output_shape(input)?;
        let output = self.cv2.output_shape(&inner)?;
        if self.residual && (output.channels != input.channels || output.height != input.height
            || output.width != input.width) {
            return None;
        }
        Some(output)
    }
}

/// What the first `count` of a chain of residual units make of a feature
/// map.
pub open spec fn chain_after(units: Seq<Bottleneck>, count: nat, input: FeatureShape) -> Option<
    FeatureShape,
>
    decreases count,
{
    if count == 0 {
        Some(input)
    } else {
        match chain_after(units, (count - 1) as nat, input) {
            Some(before) => units[count - 1].shape_after(before),
            None => None,
        }
    }
}

impl C3 {
    /// What the block makes of a feature map.
    #[verifier::opaque]
    pub open spec fn shape_after(&self, input: FeatureShape) -> Option<FeatureShape> {
        match (self.cv1.shape_after(input), self.cv2.shape_after(input)) {
            (Some(first), Some(second)) => match chain_after(self.m@, self.m@.len(), first) {
                Some(chained) => match joined(chained, second) {
                    Some(both) => self.cv3.shape_after(both),
                    None => None,
                },
                None => None,
            },
            _ => None,
        }
    }

    /// The shape of what the block makes of a feature map.
    pub fn output_shape(&self, input: &FeatureShape) -> (r: Option<FeatureShape>)
        ensures
            r == self.shape_after(*input),
    {
        reveal(C3::shape_after);
        let first = self.cv1.output_shape(input);
        let second = self.cv2.output_shape(input);
        let (first, second) = match (first, second) {
            (Some(first), Some(second)) => (first, second),
            _ => {
                return None;
            },
        };
        let mut chained = first;
        let mut i: usize = 0;
        while i < self.m.len()
            invariant
                i <= self.m.len(),
                self.cv1.shape_after(*input) == Some(first),
                self.cv2.shape_after(*input) == Some(second),
                chain_after(self.m@, i as nat, first) == Some(chained),
            decreases self.m.len() - i,
        {
            match self.m[i].output_shape(&chained) {
                Some(next) => {
                    chained = next;
                },
                None => {
                    proof {
                        reveal(C3::shape_after);
                        assert(chain_after(self.m@, i as nat + 1, first) is None);
                        lemma_chain_breaks(self.m@, i as nat + 1, self.m@.len(), first);
                    }
                    return None;
                },
            }
            i = i + 1;
        }
        let both = concatenated(&chained, &second)?;
        self.cv3.output_shape(&both)
    }
}

proof fn lemma_chain_breaks(units: Seq<Bottleneck>, at: nat, count: nat, input: FeatureShape)
    requires
        at <= count,
        chain_after(units, at, input) is None,
    ensures
        chain_after(units, count, input) is None,
    decreases count,
{
    if at < count {
        lemma_chain_breaks(units, at, (count - 1) as nat, input);
    }
}

impl Sppf {
    /// What the block makes of a feature map: the three pools must leave
    /// the map's height and width as they are.
    #[verifier::opaque]
    pub open spec fn shape_after(&self, input: FeatureShape) -> Option<FeatureShape> {
        match self.cv1.shape_after(input) {
            Some(reduced) => if window_places(
                reduced.height,
                self.kernel,
                1,
                (self.kernel / 2) as usize,
            ) != Some(reduced.height) || window_places(
                reduced.width,
                self.kernel,
                1,
                (self.kernel / 2) as usize,
            ) != Some(reduced.width) || reduced.channels * 4 > usize::MAX {
                None
            } else {
                self.cv2.shape_after(
                    FeatureShape {
                        channels: (reduced.channels * 4) as usize,
                        height: reduced.height,
                        width: reduced.width,
                    },
                )
            },
            None => None,
        }
    }

    /// The shape of what the block makes of a feature map.
    pub fn output_shape(&self, input: &FeatureShape) -> (r: Option<FeatureShape>)
        ensures
            r == self.shape_after(*input),
    {
        reveal(Sppf::shape_after);
        let reduced = self.cv1.output_shape(input)?;
        let height = output_size(reduced.height, self.kernel, 1, self.kernel / 2);
        let width = output_size(reduced.width, self.kernel, 1, self.kernel / 2);
        match (height, width) {
            (Some(h), Some(w)) => {
                if h != reduced.height || w != reduced.width {
                    return None;
                }
            },
            _ => {
                return None;
            },
        }
        let channels = reduced.channels.checked_mul(4)?;
        self.cv2.output_shape(
            &FeatureShape { channels, height: reduced.height, width: reduced.width },
        )
    }
}

impl Upsample {
    /// What the upsampling makes of a feature map.
    pub open spec fn shape_after(&self, input: FeatureShape) -> Option<FeatureShape> {
        if input.height * self.scale > usize::MAX || input.width * self.scale > usize::MAX {
            None
        } else {
            Some(
                FeatureShape {
                    channels: input.channels,
                    height: (input.height * self.scale) as usize,
                    width: (input.width * self.scale) as usize,
                },
            )
        }
    }

    /// The shape of what the upsampling makes of a feature map.
    pub fn output_shape(&self, input: &FeatureShape) -> (r: Option<FeatureShape>)
        ensures
            r == self.shape_after(*input),
    {
        let height = self.output_size(input.height)?;
        let width = self.output_size(input.width)?;
        Some(FeatureShape { channels: input.channels, height, width })
    }
}

/// The three feature maps that the head takes, from the finest to the
/// coarsest.
#[derive(Debug, Clone, Copy, PartialEq, Eq, Structural)]
pub struct Pyramid {
    pub fine: FeatureShape,
    pub middle: FeatureShape,
    pub coarse: FeatureShape,
}

/// What a block of convolution makes of a feature map, if there is one.
pub open spec fn then_conv(input: Option<FeatureShape>, block: ConvBnSilu) -> Option<
    FeatureShape,
> {
    match input {
        Some(shape) => block.shape_after(shape),
        None => None,
    }
}

/// What an aggregation block makes of a feature map, if there is one.
pub open spec fn then_c3(input: Option<FeatureShape>, block: C3) -> Option<FeatureShape> {
    match input {
        Some(shape) => block.shape_after(shape),
        None => None,
    }
}

/// What upsampling by two makes of a feature map, if there is one, side by
/// side with another.
pub open spec fn then_up_and_join(input: Option<FeatureShape>, other: Option<FeatureShape>)
    -> Option<FeatureShape> {
    match (input, other) {
        (Some(shape), Some(beside)) => match (Upsample { scale: 2 }).shape_after(shape) {
            Some(up) => joined(up, beside),
            None => None,
        },
        _ => None,
    }
}

/// Two feature maps side by side, if there are two.
pub open spec fn then_join(input: Option<FeatureShape>, other: Option<FeatureShape>) -> Option<
    FeatureShape,
> {
    match (input, other) {
        (Some(shape), Some(beside)) => joined(shape, beside),
        _ => None,
    }
}

impl YoloV5 {
    /// What the backbone makes of a page: the feature maps at strides 8, 16
    /// and 32, the last after pooling.
    pub open spec fn backbone_after(&self, input: FeatureShape) -> (
        Option<FeatureShape>,
        Option<FeatureShape>,
        Option<FeatureShape>,
    ) {
        let x1 = then_conv(self.model0.shape_after(input), self.model1);
        let x3 = then_conv(then_c3(x1, self.model2), self.model3);
        let fine = then_c3(x3, self.model4);
        let middle = then_c3(then_conv(fine, self.model5), self.model6);
        let x8 = then_c3(then_conv(middle, self.model7), self.model8);
        let coarse = match x8 {
            Some(shape) => self.model9.shape_after(shape),
            None => None,
        };
        (fine, middle, coarse)
    }

    /// What the network makes of a page, up to the head: the three feature
    /// maps that the head takes.
    pub open spec fn shapes_after(&self, input: FeatureShape) -> Option<Pyramid> {
        let (fine, middle, coarse) = self.backbone_after(input);
        let x10 = then_conv(coarse, self.model10);
        let x13 = then_c3(then_up_and_join(x10, middle), self.model13);
        let x14 = then_conv(x13, self.model14);
        let x17 = then_c3(then_up_and_join(x14, fine), self.model17);
        let x20 = then_c3(then_join(then_conv(x17, self.model18), x14), self.model20);
        let x23 = then_c3(then_join(then_conv(x20, self.model21), x10), self.model23);
        match (x17, x20, x23) {
            (Some(fine), Some(middle), Some(coarse)) => Some(Pyramid { fine, middle, coarse }),
            _ => None,
        }
    }

    /// The shapes of the three feature maps that the network hands to its
    /// head for a page of the given shape; `None` where the blocks do not
    /// fit one another or the page.
    pub fn feature_shapes(&self, input: &FeatureShape) -> (r: Option<Pyramid>)
        ensures
            r == self.shapes_after(*input),
    {
        let up = Upsample::new(2);
        let x0 = self.model0.output_shape(input)?;
        let x1 = self.model1.output_shape(&x0)?;
        let x2 = self.model2.output_shape(&x1)?;
        let x3 = self.model3.output_shape(&x2)?;
        let fine = self.model4.output_shape(&x3)?;
        let x5 = self.model5.output_shape(&fine)?;
        let middle = self.model6.output_shape(&x5)?;
        let x7 = self.model7.output_shape(&middle)?;
        let x8 = self.model8.output_shape(&x7)?;
        let coarse = self.model9.output_shape(&x8)?;
        let x10 = self.model10.output_shape(&coarse)?;
        let x11 = up.output_shape(&x10)?;
        let x12 = concatenated(&x11, &middle)?;
        let x13 = self.model13.output_shape(&x12)?;
        let x14 = self.model14.output_shape(&x13)?;
        let x15 = up.output_shape(&x14)?;
        let x16 = concatenated(&x15, &fine)?;
        let x17 = self.model17.output_shape(&x16)?;
        let x18 = self.model18.output_shape(&x17)?;
        let x19 = concatenated(&x18, &x14)?;
        let x20 = self.model20.output_shape(&x19)?;
        let x21 = self.model21.output_shape(&x20)?;
        let x22 = concatenated(&x21, &x10)?;
        let x23 = self.model23.output_shape(&x22)?;
        Some(Pyramid { fine: x17, middle: x20, coarse: x23 })
    }
}

/// Whether a tensor is the kernel of a 1×1 convolution from `channels`
/// channels to `rows`.
pub open spec fn is_pointwise(shape: Seq<usize>, rows: usize, channels: usize) -> bool {
    shape.len() == 4 && shape[0] == rows && shape[1] == channels && shape[2] == 1 && shape[3]
        == 1
}

fn pointwise(tensor: &Tensor, rows: usize, channels: usize) -> (r: bool)
    ensures
        r == is_pointwise(tensor@.shape, rows, channels),
{
    let shape = tensor.shape();
    shape.len() == 4 && shape[0] == rows && shape[1] == channels && shape[2] == 1 && shape[3]
        == 1
}

/// The number of candidates that `anchors` anchors give on a feature map:
/// one for each anchor at each cell.
pub open spec fn cells(anchors: usize, shape: FeatureShape) -> int {
    anchors * shape.height * shape.width
}

impl DetectHead {
    /// Whether the head's tensors fit one another and feature maps of the
    /// given channels: per scale a 1×1 convolution to as many channels as
    /// the anchors have values, and anchors for three scales.
    pub open spec fn fits(&self, pyramid: Pyramid) -> bool {
        &&& self.num_outputs >= 5
        &&& self.num_anchors * self.num_outputs <= usize::MAX
        &&& is_pointwise(
            self.conv0_weight@.shape,
            (self.num_anchors * self.num_outputs) as usize,
            pyramid.fine.channels,
        )
        &&& is_pointwise(
            self.conv1_weight@.shape,
            (self.num_anchors * self.num_outputs) as usize,
            pyramid.middle.channels,
        )
        &&& is_pointwise(
            self.conv2_weight@.shape,
            (self.num_anchors * self.num_outputs) as usize,
            pyramid.coarse.channels,
        )
        &&& is_vector(self.conv0_bias@.shape, (self.num_anchors * self.num_outputs) as usize)
        &&& is_vector(self.conv1_bias@.shape, (self.num_anchors * self.num_outputs) as usize)
        &&& is_vector(self.conv2_bias@.shape, (self.num_anchors * self.num_outputs) as usize)
        &&& self.anchors@.shape.len() == 3
        &&& self.anchors@.shape[0] >= 3
        &&& self.anchors@.shape[1] >= self.num_anchors
        &&& self.anchors@.shape[2] >= 2
    }

    /// The number of candidates that the head gives for the three feature
    /// maps: `None` where the head does not fit them, or where the number
    /// does not fit in `usize`.
    pub open spec fn candidates_after(&self, pyramid: Pyramid) -> Option<usize> {
        let count = cells(self.num_anchors, pyramid.fine) + cells(
            self.num_anchors,
            pyramid.middle,
        ) + cells(self.num_anchors, pyramid.coarse);
        if self.fits(pyramid) && count <= usize::MAX {
            Some(count as usize)
        } else {
            None
        }
    }

    /// The number of candidates that the head gives for three feature
    /// maps.
    pub fn candidate_count(&self, pyramid: &Pyramid) -> (r: Option<usize>)
        ensures
            r == self.candidates_after(*pyramid),
    {
        if self.num_outputs < 5 {
            return None;
        }
        let rows = self.num_anchors.checked_mul(self.num_outputs)?;
        if !pointwise(&self.conv0_weight, rows, pyramid.fine.channels) || !pointwise(
            &self.conv1_weight,
            rows,
            pyramid.middle.channels,
        ) || !pointwise(&self.conv2_weight, rows, pyramid.coarse.channels) || !vector_of(
            &self.conv0_bias,
            rows,
        ) || !vector_of(&self.conv1_bias, rows) || !vector_of(&self.conv2_bias, rows) {
            return None;
        }
        let anchors = self.anchors.shape();
        if anchors.len() != 3 || anchors[0] < 3 || anchors[1] < self.num_anchors || anchors[2]
            < 2 {
            return None;
        }
        let fine = match cell_count(self.num_anchors, &pyramid.fine) {
            Some(n) => n,
            None => {
                proof {
                    lemma_cells_not_negative(self.num_anchors, pyramid.middle);
                    lemma_cells_not_negative(self.num_anchors, pyramid.coarse);
                }
                return None;
            },
        };
        let middle = match cell_count(self.num_anchors, &pyramid.middle) {
            Some(n) => n,
            None => {
                proof {
                    lemma_cells_not_negative(self.num_anchors, pyramid.coarse);
                }
                return None;
            },
        };
        let coarse = cell_count(self.num_anchors, &pyramid.coarse)?;
        fine.checked_add(middle)?.checked_add(coarse)
    }
}

proof fn lemma_cells_not_negative(anchors: usize, shape: FeatureShape)
    ensures
        cells(anchors, shape) >= 0,
{
    assert(anchors * shape.height * shape.width >= 0) by (nonlinear_arith)
        requires
            anchors >= 0,
            shape.height >= 0,
            shape.width >= 0,
    ;
}

fn cell_count(anchors: usize, shape: &FeatureShape) -> (r: Option<usize>)
    ensures
        match r {
            Some(n) => n == cells(anchors, *shape),
            None => cells(anchors, *shape) > usize::MAX,
        },
{
    if anchors == 0 || shape.height == 0 || shape.width == 0 {
        assert(anchors * shape.height * shape.width == 0) by (nonlinear_arith)
            requires
                anchors == 0 || shape.height == 0 || shape.width == 0,
        ;
        return Some(0);
    }
    match anchors.checked_mul(shape.height) {
        Some(rows) => rows.checked_mul(shape.width),
        None => {
            assert(anchors * shape.height * shape.width > usize::MAX) by (nonlinear_arith)
                requires
                    anchors * shape.height > usize::MAX,
                    shape.width >= 1,
            ;
            None
        },
    }
}

/// A block that was loaded turns feature maps of the channels it was
/// loaded for into maps of the channels it was loaded to give, of the size
/// that its kernel, stride and padding leave.
pub proof fn lemma_loaded_block(
    block: ConvBnSilu,
    contents: Contents,
    prefix: Seq<char>,
    in_ch: usize,
    out_ch: usize,
    kernel: usize,
    stride: usize,
    padding: usize,
    input: FeatureShape,
)
    requires
        block.loaded(contents, prefix, in_ch, out_ch, kernel, stride, padding),
        input.channels == in_ch,
    ensures
        block.shape_after(input) == match (
            window_places(input.height, kernel, stride, padding),
            window_places(input.width, kernel, stride, padding),
        ) {
            (Some(height), Some(width)) => Some(FeatureShape { channels: out_ch, height, width }),
            _ => None,
        },
{
    reveal(ConvBnSilu::loaded);
    reveal(ConvBnSilu::shape_after);
}

/// A residual unit that was loaded as wide inside as outside leaves the
/// shape of a feature map as it is.
pub proof fn lemma_loaded_unit(
    unit: Bottleneck,
    contents: Contents,
    prefix: Seq<char>,
    channels: usize,
    shortcut: bool,
    input: FeatureShape,
)
    requires
        unit.loaded(contents, prefix, channels, channels, shortcut, whole()),
        input.channels == channels,
        1 <= input.height <= usize::MAX - 2,
        1 <= input.width <= usize::MAX - 2,
    ensures
        unit.shape_after(input) == Some(input),
{
    reveal(Bottleneck::shape_after);
    assert(scaled(channels, whole()) == Some(channels));
    lemma_loaded_block(unit.cv1, contents, prefix + ".cv1"@, channels, channels, 1, 1, 0, input);
    lemma_loaded_block(unit.cv2, contents, prefix + ".cv2"@, channels, channels, 3, 1, 1, input);
}

proof fn lemma_loaded_chain(
    units: Seq<Bottleneck>,
    contents: Contents,
    prefix: Seq<char>,
    channels: usize,
    shortcut: bool,
    input: FeatureShape,
    count: nat,
)
    requires
        count <= units.len(),
        forall|i: int|
            0 <= i < units.len() ==> (#[trigger] units[i]).loaded(
                contents,
                prefix + ".m."@ + decimal(i as nat),
                channels,
                channels,
                shortcut,
                whole(),
            ),
        input.channels == channels,
        1 <= input.height <= usize::MAX - 2,
        1 <= input.width <= usize::MAX - 2,
    ensures
        chain_after(units, count, input) == Some(input),
    decreases count,
{
    if count > 0 {
        lemma_loaded_chain(
            units,
            contents,
            prefix,
            channels,
            shortcut,
            input,
            (count - 1) as nat,
        );
        lemma_loaded_unit(
            units[count - 1],
            contents,
            prefix + ".m."@ + decimal((count - 1) as nat),
            channels,
            shortcut,
            input,
        );
    }
}

/// An aggregation block that was loaded turns feature maps of the channels
/// it was loaded for into maps of the channels it was loaded to give, of
/// the same size.
pub proof fn lemma_loaded_aggregation(
    block: C3,
    contents: Contents,
    prefix: Seq<char>,
    c1: usize,
    c2: usize,
    n: usize,
    shortcut: bool,
    expansion: Ratio,
    input: FeatureShape,
)
    requires
        block.loaded(contents, prefix, c1, c2, n, shortcut, expansion),
        input.channels == c1,
        1 <= input.height <= usize::MAX - 2,
        1 <= input.width <= usize::MAX - 2,
    ensures
        block.shape_after(input) == Some(
            FeatureShape { channels: c2, height: input.height, width: input.width },
        ),
{
    reveal(C3::loaded);
    reveal(C3::shape_after);
    let hidden = scaled(c2, expansion)->Some_0;
    let inner = FeatureShape { channels: hidden, height: input.height, width: input.width };
    lemma_loaded_block(block.cv1, contents, prefix + ".cv1"@, c1, hidden, 1, 1, 0, input);
    lemma_loaded_block(block.cv2, contents, prefix + ".cv2"@, c1, hidden, 1, 1, 0, input);
    lemma_loaded_chain(block.m@, contents, prefix, hidden, shortcut, inner, block.m@.len());
    lemma_loaded_block(
        block.cv3,
        contents,
        prefix + ".cv3"@,
        (2 * hidden) as usize,
        c2,
        1,
        1,
        0,
        FeatureShape {
            channels: (2 * hidden) as usize,
            height: input.height,
            width: input.width,
        },
    );
}

/// A pooling block that was loaded with a window of five cells turns
/// feature maps of the channels it was loaded for into maps of the channels
/// it was loaded to give, of the same size.
pub proof fn lemma_loaded_pooling(
    block: Sppf,
    contents: Contents,
    prefix: Seq<char>,
    c1: usize,
    c2: usize,
    input: FeatureShape,
)
    requires
        block.loaded(contents, prefix, c1, c2, 5),
        input.channels == c1,
        1 <= input.height <= usize::MAX - 4,
        1 <= input.width <= usize::MAX - 4,
    ensures
        block.shape_after(input) == Some(
            FeatureShape { channels: c2, height: input.height, width: input.width },
        ),
{
    reveal(Sppf::loaded);
    reveal(Sppf::shape_after);
    let hidden = (c1 / 2) as usize;
    lemma_loaded_block(block.cv1, contents, prefix + ".cv1"@, c1, hidden, 1, 1, 0, input);
    lemma_loaded_block(
        block.cv2,
        contents,
        prefix + ".cv2"@,
        (hidden * 4) as usize,
        c2,
        1,
        1,
        0,
        FeatureShape {
            channels: (hidden * 4) as usize,
            height: input.height,
            width: input.width,
        },
    );
}

/// The shape of the page as the detector takes it: three channels on the
/// square canvas.
pub open spec fn canvas() -> FeatureShape {
    FeatureShape { channels: 3, height: 640, width: 640 }
}

/// The feature maps of the canvas: at strides 8, 16 and 32.
pub open spec fn canvas_pyramid() -> Pyramid {
    Pyramid {
        fine: FeatureShape { channels: 128, height: 80, width: 80 },
        middle: FeatureShape { channels: 256, height: 40, width: 40 },
        coarse: FeatureShape { channels: 512, height: 20, width: 20 },
    }
}

proof fn lemma_backbone_of_canvas(
    model: YoloV5,
    contents: Contents,
    num_classes: usize,
    num_anchors: usize,
)
    requires
        model.loaded(contents, num_classes, num_anchors),
    ensures
        model.backbone_after(canvas()) == (
            Some(canvas_pyramid().fine),
            Some(canvas_pyramid().middle),
            Some(canvas_pyramid().coarse),
        ),
{
    let half = Ratio { numerator: 1, denominator: 2 };
    let x0 = FeatureShape { channels: 32, height: 320, width: 320 };
    let x1 = FeatureShape { channels: 64, height: 160, width: 160 };
    let x3 = FeatureShape { channels: 128, height: 80, width: 80 };
    let x5 = FeatureShape { channels: 256, height: 40, width: 40 };
    let x7 = FeatureShape { channels: 512, height: 20, width: 20 };
    lemma_loaded_block(model.model0, contents, "model.0"@, 3, 32, 6, 2, 2, canvas());
    lemma_loaded_block(model.model1, contents, "model.1"@, 32, 64, 3, 2, 1, x0);
    lemma_loaded_aggregation(model.model2, contents, "model.2"@, 64, 64, 1, true, half, x1);
    lemma_loaded_block(model.model3, contents, "model.3"@, 64, 128, 3, 2, 1, x1);
    lemma_loaded_aggregation(model.model4, contents, "model.4"@, 128, 128, 2, true, half, x3);
    lemma_loaded_block(model.model5, contents, "model.5"@, 128, 256, 3, 2, 1, x3);
    lemma_loaded_aggregation(model.model6, contents, "model.6"@, 256, 256, 3, true, half, x5);
    lemma_loaded_block(model.model7, contents, "model.7"@, 256, 512, 3, 2, 1, x5);
    lemma_loaded_aggregation(model.model8, contents, "model.8"@, 512, 512, 1, true, half, x7);
    lemma_loaded_pooling(model.model9, contents, "model.9"@, 512, 512, x7);
}

/// A detector that was loaded fits the canvas: its blocks take what the
/// blocks before them give, and hand the head feature maps of 128, 256 and
/// 512 channels at strides 8, 16 and 32.
pub proof fn lemma_shapes_of_canvas(
    model: YoloV5,
    contents: Contents,
    num_classes: usize,
    num_anchors: usize,
)
    requires
        model.loaded(contents, num_classes, num_anchors),
    ensures
        model.shapes_after(canvas()) == Some(canvas_pyramid()),
{
    let half = Ratio { numerator: 1, denominator: 2 };
    let fine = canvas_pyramid().fine;
    let middle = canvas_pyramid().middle;
    let coarse = canvas_pyramid().coarse;
    let x10 = FeatureShape { channels: 256, height: 20, width: 20 };
    let x12 = FeatureShape { channels: 512, height: 40, width: 40 };
    let x13 = FeatureShape { channels: 256, height: 40, width: 40 };
    let x14 = FeatureShape { channels: 128, height: 40, width: 40 };
    let x16 = FeatureShape { channels: 256, height: 80, width: 80 };
    let x18 = FeatureShape { channels: 128, height: 40, width: 40 };
    let x19 = FeatureShape { channels: 256, height: 40, width: 40 };
    let x21 = FeatureShape { channels: 256, height: 20, width: 20 };
    let x22 = FeatureShape { channels: 512, height: 20, width: 20 };
    lemma_backbone_of_canvas(model, contents, num_classes, num_anchors);
    lemma_loaded_block(model.model10, contents, "model.10"@, 512, 256, 1, 1, 0, coarse);
    lemma_loaded_aggregation(model.model13, contents, "model.13"@, 512, 256, 1, false, half, x12);
    lemma_loaded_block(model.model14, contents, "model.14"@, 256, 128, 1, 1, 0, x13);
    lemma_loaded_aggregation(model.model17, contents, "model.17"@, 256, 128, 1, false, half, x16);
    lemma_loaded_block(model.model18, contents, "model.18"@, 128, 128, 3, 2, 1, fine);
    lemma_loaded_aggregation(model.model20, contents, "model.20"@, 256, 256, 1, false, half, x19);
    lemma_loaded_block(model.model21, contents, "model.21"@, 256, 256, 3, 2, 1, middle);
    lemma_loaded_aggregation(model.model23, contents, "model.23"@, 512, 512, 1, false, half, x22);
}

/// The head of a detector that was loaded with three anchors per scale
/// fits the feature maps of the canvas, and gives 25200 candidates: three
/// for each of 6400, 1600 and 400 cells.
pub proof fn lemma_candidates_of_canvas(
    model: YoloV5,
    contents: Contents,
    num_classes: usize,
)
    requires
        model.loaded(contents, num_classes, 3),
    ensures
        model.model24.candidates_after(canvas_pyramid()) == Some(25200usize),
{
    reveal(DetectHead::loaded);
    assert(head_channels()@ =~= seq![128usize, 256usize, 512usize]);
    assert(head_outputs(num_classes, 3) is Some);
}

} // verus!
