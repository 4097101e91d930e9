//! The detector's weights, resolved by name against a weight archive, in
//! the fixed topology of the network.

use vstd::prelude::*;
use crate::comic_text_detector::geometry::Ratio;
use crate::error::{failure, first, first_among, lemma_first_among_skip, Error, Fault};
use crate::ieee::{ONE, ZERO};
use crate::names::{decimal, join, numbered};
use crate::tensor::{dims1, dims3, dims4, Tensor, TensorSpec};
use crate::weights::{stored, stored_or, Contents, WeightedTokens};

verus! {

/// The bit pattern of the value added to a variance before its root is
/// taken in batch normalization: 1e-3.
pub const BATCH_NORM_EPS: u32 = 0x3A83_126F;

/// A convolution, a batch normalization with stored statistics, and a SiLU
/// activation.
#[derive(Debug)]
pub struct ConvBnSilu {
    pub conv_weight: Tensor,
    pub conv_bias: Option<Tensor>,
    pub bn_weight: Tensor,
    pub bn_bias: Tensor,
    pub bn_running_mean: Tensor,
    pub bn_running_var: Tensor,
    pub stride: usize,
    pub padding: usize,
}

impl ConvBnSilu {
    /// The kernel, zeros where none is stored.
    pub open spec fn conv_slot(
        contents: Contents,
        prefix: Seq<char>,
        in_ch: usize,
        out_ch: usize,
        kernel: usize,
    ) -> Result<TensorSpec, Fault> {
        stored_or(contents, prefix + ".conv.weight"@, seq![out_ch, in_ch, kernel, kernel], ZERO)
    }

    /// The scale of the normalization, ones where none is stored.
    pub open spec fn scale_slot(contents: Contents, prefix: Seq<char>, out_ch: usize) -> Result<
        TensorSpec,
        Fault,
    > {
        stored_or(contents, prefix + ".bn.weight"@, seq![out_ch], ONE)
    }

    /// The shift of the normalization, zeros where none is stored.
    pub open spec fn shift_slot(contents: Contents, prefix: Seq<char>, out_ch: usize) -> Result<
        TensorSpec,
        Fault,
    > {
        stored_or(contents, prefix + ".bn.bias"@, seq![out_ch], ZERO)
    }

    /// The running mean, zeros where none is stored.
    pub open spec fn mean_slot(contents: Contents, prefix: Seq<char>, out_ch: usize) -> Result<
        TensorSpec,
        Fault,
    > {
        stored_or(contents, prefix + ".bn.running_mean"@, seq![out_ch], ZERO)
    }

    /// The running variance, ones where none is stored.
    pub open spec fn variance_slot(contents: Contents, prefix: Seq<char>, out_ch: usize) -> Result<
        TensorSpec,
        Fault,
    > {
        stored_or(contents, prefix + ".bn.running_var"@, seq![out_ch], ONE)
    }

    /// The error that loading ends with, if any.
    #[verifier::opaque]
    pub open spec fn load_error(
        contents: Contents,
        prefix: Seq<char>,
        in_ch: usize,
        out_ch: usize,
        kernel: usize,
    ) -> Option<Fault> {
        first(
            failure(Self::conv_slot(contents, prefix, in_ch, out_ch, kernel)),
            first(
                failure(Self::scale_slot(contents, prefix, out_ch)),
                first(
                    failure(Self::shift_slot(contents, prefix, out_ch)),
                    first(
                        failure(Self::mean_slot(contents, prefix, out_ch)),
                        failure(Self::variance_slot(contents, prefix, out_ch)),
                    ),
                ),
            ),
        )
    }

    /// Whether `self` is the block that `contents` holds under `prefix`.
    #[verifier::opaque]
    pub open spec fn loaded(
        &self,
        contents: Contents,
        prefix: Seq<char>,
        in_ch: usize,
        out_ch: usize,
        kernel: usize,
        stride: usize,
        padding: usize,
    ) -> bool {
        &&& Self::conv_slot(contents, prefix, in_ch, out_ch, kernel) == Ok::<TensorSpec, Fault>(
            self.conv_weight@,
        )
        &&& self.conv_bias is None
        &&& Self::scale_slot(contents, prefix, out_ch) == Ok::<TensorSpec, Fault>(self.bn_weight@)
        &&& Self::shift_slot(contents, prefix, out_ch) == Ok::<TensorSpec, Fault>(self.bn_bias@)
        &&& Self::mean_slot(contents, prefix, out_ch) == Ok::<TensorSpec, Fault>(
            self.bn_running_mean@,
        )
        &&& Self::variance_slot(contents, prefix, out_ch) == Ok::<TensorSpec, Fault>(
            self.bn_running_var@,
        )
        &&& self.stride == stride
        &&& self.padding == padding
    }

    /// Loads the block stored under `prefix`.
    pub fn load(
        weights: &WeightedTokens,
        prefix: &str,
        in_ch: usize,
        out_ch: usize,
        kernel: usize,
        stride: usize,
        padding: usize,
    ) -> (r: Result<Self, Error>)
        ensures
            match r {
                Ok(block) => block.loaded(
                    weights@,
                    prefix@,
                    in_ch,
                    out_ch,
                    kernel,
                    stride,
                    padding,
                ),
                Err(e) => Self::load_error(weights@, prefix@, in_ch, out_ch, kernel) == Some(e@),
            },
            r is Ok ==> Self::load_error(weights@, prefix@, in_ch, out_ch, kernel) is None,
    {
        reveal(ConvBnSilu::load_error);
        reveal(ConvBnSilu::loaded);
        let conv_weight = weights.tensor_or(
            join(prefix, ".conv.weight").as_str(),
            dims4(out_ch, in_ch, kernel, kernel),
            ZERO,
        )?;
        let bn_weight = weights.tensor_or(join(prefix, ".bn.weight").as_str(), dims1(out_ch), ONE)?;
        let bn_bias = weights.tensor_or(join(prefix, ".bn.bias").as_str(), dims1(out_ch), ZERO)?;
        let bn_running_mean = weights.tensor_or(
            join(prefix, ".bn.running_mean").as_str(),
            dims1(out_ch),
            ZERO,
        )?;
        let bn_running_var = weights.tensor_or(
            join(prefix, ".bn.running_var").as_str(),
            dims1(out_ch),
            ONE,
        )?;
        Ok(
            ConvBnSilu {
                conv_weight,
                conv_bias: None,
                bn_weight,
                bn_bias,
                bn_running_mean,
                bn_running_var,
                stride,
                padding,
            },
        )
    }
}

/// `channels` times `ratio`, rounded down; `None` where the ratio has no
/// value or the product does not fit in `usize`.
pub open spec fn scaled(channels: usize, ratio: Ratio) -> Option<usize> {
    if ratio.denominator == 0 || channels * ratio.numerator / (ratio.denominator as int)
        > usize::MAX {
        None
    } else {
        Some((channels * ratio.numerator / (ratio.denominator as int)) as usize)
    }
}

/// The number of hidden channels of a block of `channels` output channels.
pub fn hidden_channels(channels: usize, ratio: &Ratio) -> (r: Option<usize>)
    ensures
        r == scaled(channels, *ratio),
{
    if ratio.denominator == 0 {
        return None;
    }
    assert(channels * ratio.numerator <= 0xFFFF_FFFF_FFFF_FFFF * 0xFFFF_FFFF) by (nonlinear_arith)
        requires
            channels <= 0xFFFF_FFFF_FFFF_FFFF,
            ratio.numerator <= 0xFFFF_FFFF,
    ;
    let product: u128 = (channels as u128) * (ratio.numerator as u128);
    let hidden: u128 = product / (ratio.denominator as u128);
    if hidden > usize::MAX as u128 {
        None
    } else {
        Some(hidden as usize)
    }
}

/// The ratio 1: a block as wide inside as outside.
pub open spec fn whole() -> Ratio {
    Ratio { numerator: 1, denominator: 1 }
}

/// The ratio 1/2: a block half as wide inside as outside.
pub open spec fn half() -> Ratio {
    Ratio { numerator: 1, denominator: 2 }
}

/// A residual unit: a 1×1 and a 3×3 convolution, with the input added to
/// the output where the caller asks for it and the channels allow it.
#[derive(Debug)]
pub struct Bottleneck {
    pub cv1: ConvBnSilu,
    pub cv2: ConvBnSilu,
    pub residual: bool,
}

impl Bottleneck {
    /// The error that loading ends with, if any.
    pub open spec fn load_error(
        contents: Contents,
        prefix: Seq<char>,
        c1: usize,
        c2: usize,
        expansion: Ratio,
    ) -> Option<Fault> {
        match scaled(c2, expansion) {
            None => Some(Fault::Format),
            Some(hidden) => first(
                ConvBnSilu::load_error(contents, prefix + ".cv1"@, c1, hidden, 1),
                ConvBnSilu::load_error(contents, prefix + ".cv2"@, hidden, c2, 3),
            ),
        }
    }

    /// Whether `self` is the unit that `contents` holds under `prefix`.
    pub open spec fn loaded(
        &self,
        contents: Contents,
        prefix: Seq<char>,
        c1: usize,
        c2: usize,
        shortcut: bool,
        expansion: Ratio,
    ) -> bool {
        &&& scaled(c2, expansion) matches Some(hidden)
        &&& self.cv1.loaded(contents, prefix + ".cv1"@, c1, hidden, 1, 1, 0)
        &&& self.cv2.loaded(contents, prefix + ".cv2"@, hidden, c2, 3, 1, 1)
        &&& self.residual == (shortcut && c1 == c2)
    }

    /// Loads the unit stored under `prefix`.
    pub fn load(
        weights: &WeightedTokens,
        prefix: &str,
        c1: usize,
        c2: usize,
        shortcut: bool,
        expansion: &Ratio,
    ) -> (r: Result<Self, Error>)
        ensures
            match r {
                Ok(unit) => unit.loaded(weights@, prefix@, c1, c2, shortcut, *expansion),
                Err(e) => Self::load_error(weights@, prefix@, c1, c2, *expansion) == Some(e@),
            },
            r is Ok ==> Self::load_error(weights@, prefix@, c1, c2, *expansion) is None,
    {
        let hidden = match hidden_channels(c2, expansion) {
            Some(hidden) => hidden,
            None => {
                return Err(Error::Format);
            },
        };
        let cv1 = ConvBnSilu::load(weights, join(prefix, ".cv1").as_str(), c1, hidden, 1, 1, 0)?;
        let cv2 = ConvBnSilu::load(weights, join(prefix, ".cv2").as_str(), hidden, c2, 3, 1, 1)?;
        Ok(Bottleneck { cv1, cv2, residual: shortcut && c1 == c2 })
    }
}

/// An aggregation block: two 1×1 branches, a chain of residual units on
/// one of them, and a 1×1 convolution over both.
#[derive(Debug)]
pub struct C3 {
    pub cv1: ConvBnSilu,
    pub cv2: ConvBnSilu,
    pub cv3: ConvBnSilu,
    pub m: Vec<Bottleneck>,
}

impl C3 {
    /// The errors of the block's residual units, in order.
    pub open spec fn unit_errors(contents: Contents, prefix: Seq<char>, hidden: usize, n: usize)
        -> Seq<Option<Fault>> {
        Seq::new(
            n as nat,
            |i: int|
                Bottleneck::load_error(
                    contents,
                    prefix + ".m."@ + decimal(i as nat),
                    hidden,
                    hidden,
                    whole(),
                ),
        )
    }

    /// The error that loading ends with, if any.
    #[verifier::opaque]
    pub open spec fn load_error(
        contents: Contents,
        prefix: Seq<char>,
        c1: usize,
        c2: usize,
        n: usize,
        expansion: Ratio,
    ) -> Option<Fault> {
        match scaled(c2, expansion) {
            None => Some(Fault::Format),
            Some(hidden) => if 2 * hidden > usize::MAX {
                Some(Fault::Shape)
            } else {
                first(
                    ConvBnSilu::load_error(contents, prefix + ".cv1"@, c1, hidden, 1),
                    first(
                        ConvBnSilu::load_error(contents, prefix + ".cv2"@, c1, hidden, 1),
                        first(
                            ConvBnSilu::load_error(
                                contents,
                                prefix + ".cv3"@,
                                (2 * hidden) as usize,
                                c2,
                                1,
                            ),
                            first_among(Self::unit_errors(contents, prefix, hidden, n)),
                        ),
                    ),
                )
            },
        }
    }

    /// Whether `self` is the block that `contents` holds under `prefix`.
    #[verifier::opaque]
    pub open spec fn loaded(
        &self,
        contents: Contents,
        prefix: Seq<char>,
        c1: usize,
        c2: usize,
        n: usize,
        shortcut: bool,
        expansion: Ratio,
    ) -> bool {
        &&& scaled(c2, expansion) matches Some(hidden)
        &&& 2 * hidden <= usize::MAX
        &&& self.cv1.loaded(contents, prefix + ".cv1"@, c1, hidden, 1, 1, 0)
        &&& self.cv2.loaded(contents, prefix + ".cv2"@, c1, hidden, 1, 1, 0)
        &&& self.cv3.loaded(contents, prefix + ".cv3"@, (2 * hidden) as usize, c2, 1, 1, 0)
        &&& self.m.len() == n
        &&& forall|i: int|
            0 <= i < self.m.len() ==> (#[trigger] self.m[i]).loaded(
                contents,
                prefix + ".m."@ + decimal(i as nat),
                hidden,
                hidden,
                shortcut,
                whole(),
            )
    }

    /// Loads the block stored under `prefix`, with `n` residual units.
    pub fn load(
        weights: &WeightedTokens,
        prefix: &str,
        c1: usize,
        c2: usize,
        n: usize,
        shortcut: bool,
        expansion: &Ratio,
    ) -> (r: Result<Self, Error>)
        ensures
            match r {
                Ok(block) => block.loaded(weights@, prefix@, c1, c2, n, shortcut, *expansion),
                Err(e) => Self::load_error(weights@, prefix@, c1, c2, n, *expansion) == Some(e@),
            },
            r is Ok ==> Self::load_error(weights@, prefix@, c1, c2, n, *expansion) is None,
    {
        reveal(C3::load_error);
        reveal(C3::loaded);
        let hidden = match hidden_channels(c2, expansion) {
            Some(hidden) => hidden,
            None => {
                return Err(Error::Format);
            },
        };
        let doubled = match hidden.checked_mul(2) {
            Some(doubled) => doubled,
            None => {
                return Err(Error::Shape);
            },
        };
        let cv1 = ConvBnSilu::load(weights, join(prefix, ".cv1").as_str(), c1, hidden, 1, 1, 0)?;
        let cv2 = ConvBnSilu::load(weights, join(prefix, ".cv2").as_str(), c1, hidden, 1, 1, 0)?;
        let cv3 = ConvBnSilu::load(weights, join(prefix, ".cv3").as_str(), doubled, c2, 1, 1, 0)?;
        let units = join(prefix, ".m.");
        let unit_expansion = Ratio { numerator: 1, denominator: 1 };
        let ghost errors = Self::unit_errors(weights@, prefix@, hidden, n);
        let mut m: Vec<Bottleneck> = Vec::new();
        let mut i: usize = 0;
        while i < n
            invariant
                i <= n,
                m.len() == i,
                units@ == prefix@ + ".m."@,
                unit_expansion == whole(),
                errors == Self::unit_errors(weights@, prefix@, hidden, n),
                Self::load_error(weights@, prefix@, c1, c2, n, *expansion) == first_among(errors),
                forall|j: int| 0 <= j < i ==> (#[trigger] errors[j]) is None,
                forall|j: int|
                    0 <= j < i ==> (#[trigger] m[j]).loaded(
                        weights@,
                        prefix@ + ".m."@ + decimal(j as nat),
                        hidden,
                        hidden,
                        shortcut,
                        whole(),
                    ),
            decreases n - i,
        {
            match Bottleneck::load(
                weights,
                numbered(units.as_str(), i).as_str(),
                hidden,
                hidden,
                shortcut,
                &unit_expansion,
            ) {
                Ok(unit) => {
                    m.push(unit);
                },
                Err(e) => {
                    proof {
                        lemma_first_among_skip(errors, i as int);
                        assert(errors[i as int] == Some(e@));
                        assert(errors.skip(i as int)[0] == Some(e@));
                        assert(first_among(errors.skip(i as int)) == Some(e@));
                    }
                    return Err(e);
                },
            }
            i = i + 1;
        }
        proof {
            lemma_first_among_skip(errors, i as int);
        }
        Ok(C3 { cv1, cv2, cv3, m })
    }
}

/// Pyramid pooling: a 1×1 convolution to half the channels, three max
/// pools one after the other, and a 1×1 convolution over all four.
#[derive(Debug)]
pub struct Sppf {
    pub cv1: ConvBnSilu,
    pub cv2: ConvBnSilu,
    pub kernel: usize,
}

impl Sppf {
    /// The error that loading ends with, if any.
    #[verifier::opaque]
    pub open spec fn load_error(contents: Contents, prefix: Seq<char>, c1: usize, c2: usize)
        -> Option<Fault> {
        let hidden = (c1 / 2) as usize;
        if hidden * 4 > usize::MAX {
            Some(Fault::Shape)
        } else {
            first(
                ConvBnSilu::load_error(contents, prefix + ".cv1"@, c1, hidden, 1),
                ConvBnSilu::load_error(contents, prefix + ".cv2"@, (hidden * 4) as usize, c2, 1),
            )
        }
    }

    /// Whether `self` is the block that `contents` holds under `prefix`.
    #[verifier::opaque]
    pub open spec fn loaded(
        &self,
        contents: Contents,
        prefix: Seq<char>,
        c1: usize,
        c2: usize,
        kernel: usize,
    ) -> bool {
        let hidden = (c1 / 2) as usize;
        &&& hidden * 4 <= usize::MAX
        &&& self.cv1.loaded(contents, prefix + ".cv1"@, c1, hidden, 1, 1, 0)
        &&& self.cv2.loaded(contents, prefix + ".cv2"@, (hidden * 4) as usize, c2, 1, 1, 0)
        &&& self.kernel == kernel
    }

    /// Loads the block stored under `prefix`.
    pub fn load(weights: &WeightedTokens, prefix: &str, c1: usize, c2: usize, kernel: usize) -> (r:
        Result<Self, Error>)
        ensures
            match r {
                Ok(block) => block.loaded(weights@, prefix@, c1, c2, kernel),
                Err(e) => Self::load_error(weights@, prefix@, c1, c2) == Some(e@),
            },
            r is Ok ==> Self::load_error(weights@, prefix@, c1, c2) is None,
    {
        reveal(Sppf::load_error);
        reveal(Sppf::loaded);
        let hidden: usize = c1 / 2;
        let pooled = match hidden.checked_mul(4) {
            Some(pooled) => pooled,
            None => {
                return Err(Error::Shape);
            },
        };
        let cv1 = ConvBnSilu::load(weights, join(prefix, ".cv1").as_str(), c1, hidden, 1, 1, 0)?;
        let cv2 = ConvBnSilu::load(weights, join(prefix, ".cv2").as_str(), pooled, c2, 1, 1, 0)?;
        Ok(Sppf { cv1, cv2, kernel })
    }
}

/// The number of places of a window of `kernel` cells along a side of
/// `size` cells that is padded by `padding` cells at both ends, the window
/// moving by `stride` cells: `None` where the window does not move, where
/// it is longer than the padded side, or where a number does not fit in
/// `usize`.
pub open spec fn window_places(size: usize, kernel: usize, stride: usize, padding: usize)
    -> Option<usize> {
    if stride == 0 || size + 2 * padding > usize::MAX || size + 2 * padding < kernel || (size + 2
        * padding - kernel) / (stride as int) + 1 > usize::MAX {
        None
    } else {
        Some(((size + 2 * padding - kernel) / (stride as int) + 1) as usize)
    }
}

/// The length that a convolution or a pooling gives a side of `size`
/// cells.
pub fn output_size(size: usize, kernel: usize, stride: usize, padding: usize) -> (r: Option<usize>)
    ensures
        r == window_places(size, kernel, stride, padding),
{
    if stride == 0 {
        return None;
    }
    let padded = size.checked_add(padding.checked_mul(2)?)?;
    if padded < kernel {
        return None;
    }
    ((padded - kernel) / stride).checked_add(1)
}

/// Nearest-neighbour upsampling by a whole factor.
#[derive(Debug, Clone, Copy)]
pub struct Upsample {
    pub scale: usize,
}

impl Upsample {
    /// An upsampling by `scale`.
    pub fn new(scale: usize) -> (r: Self)
        ensures
            r.scale == scale,
    {
        Upsample { scale }
    }

    /// The length that the upsampling gives a side of `size` cells; `None`
    /// where it does not fit in `usize`.
    pub fn output_size(&self, size: usize) -> (r: Option<usize>)
        ensures
            match r {
                Some(n) => n == size * self.scale,
                None => size * self.scale > usize::MAX,
            },
    {
        size.checked_mul(self.scale)
    }
}

/// The detection head: per scale a 1×1 convolution with bias, and the
/// anchors that the network's box sizes are relative to.
#[derive(Debug)]
pub struct DetectHead {
    pub conv0_weight: Tensor,
    pub conv0_bias: Tensor,
    pub conv1_weight: Tensor,
    pub conv1_bias: Tensor,
    pub conv2_weight: Tensor,
    pub conv2_bias: Tensor,
    pub anchors: Tensor,
    pub num_outputs: usize,
    pub num_anchors: usize,
    pub strides: [u32; 3],
}

/// The number of values per anchor, and per scale the number of channels
/// that the head's convolution gives: `None` where a number does not fit in
/// `usize`.
pub open spec fn head_outputs(num_classes: usize, num_anchors: usize) -> Option<(usize, usize)> {
    if num_classes + 5 > usize::MAX || (num_classes + 5) * num_anchors > usize::MAX {
        None
    } else {
        Some(((num_classes + 5) as usize, ((num_classes + 5) * num_anchors) as usize))
    }
}

impl DetectHead {
    /// The kernel of the convolution of scale `scale`: it must be stored.
    pub open spec fn weight_slot(
        contents: Contents,
        prefix: Seq<char>,
        scale: nat,
        rows: usize,
        channels: usize,
    ) -> Result<TensorSpec, Fault> {
        stored(
            contents,
            prefix + ".m."@ + decimal(scale) + ".weight"@,
            seq![rows, channels, 1, 1],
        )
    }

    /// The bias of the convolution of scale `scale`: it must be stored.
    pub open spec fn bias_slot(contents: Contents, prefix: Seq<char>, scale: nat, rows: usize)
        -> Result<TensorSpec, Fault> {
        stored(contents, prefix + ".m."@ + decimal(scale) + ".bias"@, seq![rows])
    }

    /// The anchors, a width and a height for each of three scales and each
    /// anchor: they must be stored.
    pub open spec fn anchors_slot(contents: Contents, prefix: Seq<char>, num_anchors: usize)
        -> Result<TensorSpec, Fault> {
        stored(contents, prefix + ".anchors"@, seq![num_anchors, 3, 2])
    }

    /// The error that loading ends with, if any: that of the first tensor,
    /// in the order of the scales, that is missing or does not fit.
    #[verifier::opaque]
    pub open spec fn load_error(
        contents: Contents,
        prefix: Seq<char>,
        ch: [usize; 3],
        num_classes: usize,
        num_anchors: usize,
    ) -> Option<Fault> {
        match head_outputs(num_classes, num_anchors) {
            None => Some(Fault::Shape),
            Some((_, rows)) => first(
                failure(Self::weight_slot(contents, prefix, 0, rows, ch[0])),
                first(
                    failure(Self::bias_slot(contents, prefix, 0, rows)),
                    first(
                        failure(Self::weight_slot(contents, prefix, 1, rows, ch[1])),
                        first(
                            failure(Self::bias_slot(contents, prefix, 1, rows)),
                            first(
                                failure(Self::weight_slot(contents, prefix, 2, rows, ch[2])),
                                first(
                                    failure(Self::bias_slot(contents, prefix, 2, rows)),
                                    failure(Self::anchors_slot(contents, prefix, num_anchors)),
                                ),
                            ),
                        ),
                    ),
                ),
            ),
        }
    }

    /// Whether `self` is the head that `contents` holds under `prefix`.
    #[verifier::opaque]
    pub open spec fn loaded(
        &self,
        contents: Contents,
        prefix: Seq<char>,
        ch: [usize; 3],
        num_classes: usize,
        num_anchors: usize,
    ) -> bool {
        &&& head_outputs(num_classes, num_anchors) matches Some((outputs, rows))
        &&& Self::weight_slot(contents, prefix, 0, rows, ch[0]) == Ok::<TensorSpec, Fault>(
            self.conv0_weight@,
        )
        &&& Self::bias_slot(contents, prefix, 0, rows) == Ok::<TensorSpec, Fault>(
            self.conv0_bias@,
        )
        &&& Self::weight_slot(contents, prefix, 1, rows, ch[1]) == Ok::<TensorSpec, Fault>(
            self.conv1_weight@,
        )
        &&& Self::bias_slot(contents, prefix, 1, rows) == Ok::<TensorSpec, Fault>(
            self.conv1_bias@,
        )
        &&& Self::weight_slot(contents, prefix, 2, rows, ch[2]) == Ok::<TensorSpec, Fault>(
            self.conv2_weight@,
        )
        &&& Self::bias_slot(contents, prefix, 2, rows) == Ok::<TensorSpec, Fault>(
            self.conv2_bias@,
        )
        &&& Self::anchors_slot(contents, prefix, num_anchors) == Ok::<TensorSpec, Fault>(
            self.anchors@,
        )
        &&& self.num_outputs == outputs
        &&& self.num_anchors == num_anchors
        &&& self.strides@ == seq![8u32, 16u32, 32u32]
    }

    /// Loads the head stored under `prefix`, for feature maps of `ch`
    /// channels.
    pub fn load(
        weights: &WeightedTokens,
        prefix: &str,
        ch: &[usize; 3],
        num_classes: usize,
        num_anchors: usize,
    ) -> (r: Result<Self, Error>)
        ensures
            match r {
                Ok(head) => head.loaded(weights@, prefix@, *ch, num_classes, num_anchors),
                Err(e) => Self::load_error(weights@, prefix@, *ch, num_classes, num_anchors)
                    == Some(e@),
            },
            r is Ok ==> Self::load_error(weights@, prefix@, *ch, num_classes, num_anchors) is None,
    {
        reveal(DetectHead::load_error);
        reveal(DetectHead::loaded);
        let num_outputs = match num_classes.checked_add(5) {
            Some(n) => n,
            None => {
                return Err(Error::Shape);
            },
        };
        let rows = match num_outputs.checked_mul(num_anchors) {
            Some(n) => n,
            None => {
                return Err(Error::Shape);
            },
        };
        let scales = join(prefix, ".m.");
        let scale0 = numbered(scales.as_str(), 0);
        let scale1 = numbered(scales.as_str(), 1);
        let scale2 = numbered(scales.as_str(), 2);
        let conv0_weight = weights.tensor(
            join(scale0.as_str(), ".weight").as_str(),
            dims4(rows, ch[0], 1, 1),
        )?;
        let conv0_bias = weights.tensor(join(scale0.as_str(), ".bias").as_str(), dims1(rows))?;
        let conv1_weight = weights.tensor(
            join(scale1.as_str(), ".weight").as_str(),
            dims4(rows, ch[1], 1, 1),
        )?;
        let conv1_bias = weights.tensor(join(scale1.as_str(), ".bias").as_str(), dims1(rows))?;
        let conv2_weight = weights.tensor(
            join(scale2.as_str(), ".weight").as_str(),
            dims4(rows, ch[2], 1, 1),
        )?;
        let conv2_bias = weights.tensor(join(scale2.as_str(), ".bias").as_str(), dims1(rows))?;
        let anchors = weights.tensor(join(prefix, ".anchors").as_str(), dims3(num_anchors, 3, 2))?;
        let strides: [u32; 3] = [8, 16, 32];
        assert(strides@ =~= seq![8u32, 16u32, 32u32]);
        Ok(
            DetectHead {
                conv0_weight,
                conv0_bias,
                conv1_weight,
                conv1_bias,
                conv2_weight,
                conv2_bias,
                anchors,
                num_outputs,
                num_anchors,
                strides,
            },
        )
    }
}

/// The channels of the three feature maps that the head takes.
pub open spec fn head_channels() -> [usize; 3] {
    [128, 256, 512]
}

/// The detector network: backbone, neck and head, each block under the
/// number it has in the network's topology.
#[derive(Debug)]
pub struct YoloV5 {
    pub model0: ConvBnSilu,
    pub model1: ConvBnSilu,
    pub model2: C3,
    pub model3: ConvBnSilu,
    pub model4: C3,
    pub model5: ConvBnSilu,
    pub model6: C3,
    pub model7: ConvBnSilu,
    pub model8: C3,
    pub model9: Sppf,
    pub model10: ConvBnSilu,
    pub model13: C3,
    pub model14: ConvBnSilu,
    pub model17: C3,
    pub model18: ConvBnSilu,
    pub model20: C3,
    pub model21: ConvBnSilu,
    pub model23: C3,
    pub model24: DetectHead,
}

impl YoloV5 {
    /// The error that loading the backbone ends with, if any.
    pub open spec fn backbone_error(contents: Contents) -> Option<Fault> {
        let e0 = ConvBnSilu::load_error(contents, "model.0"@, 3, 32, 6);
        let e1 = ConvBnSilu::load_error(contents, "model.1"@, 32, 64, 3);
        let e2 = C3::load_error(contents, "model.2"@, 64, 64, 1, half());
        let e3 = ConvBnSilu::load_error(contents, "model.3"@, 64, 128, 3);
        let e4 = C3::load_error(contents, "model.4"@, 128, 128, 2, half());
        let e5 = ConvBnSilu::load_error(contents, "model.5"@, 128, 256, 3);
        let e6 = C3::load_error(contents, "model.6"@, 256, 256, 3, half());
        let e7 = ConvBnSilu::load_error(contents, "model.7"@, 256, 512, 3);
        let e8 = C3::load_error(contents, "model.8"@, 512, 512, 1, half());
        let e9 = Sppf::load_error(contents, "model.9"@, 512, 512);
        let rest = first(e5, first(e6, first(e7, first(e8, e9))));
        first(e0, first(e1, first(e2, first(e3, first(e4, rest)))))
    }

    /// The error that loading the neck ends with, if any.
    pub open spec fn neck_error(contents: Contents) -> Option<Fault> {
        let e10 = ConvBnSilu::load_error(contents, "model.10"@, 512, 256, 1);
        let e13 = C3::load_error(contents, "model.13"@, 512, 256, 1, half());
        let e14 = ConvBnSilu::load_error(contents, "model.14"@, 256, 128, 1);
        let e17 = C3::load_error(contents, "model.17"@, 256, 128, 1, half());
        let e18 = ConvBnSilu::load_error(contents, "model.18"@, 128, 128, 3);
        let e20 = C3::load_error(contents, "model.20"@, 256, 256, 1, half());
        let e21 = ConvBnSilu::load_error(contents, "model.21"@, 256, 256, 3);
        let e23 = C3::load_error(contents, "model.23"@, 512, 512, 1, half());
        first(e10, first(e13, first(e14, first(e17, first(e18, first(e20, first(e21, e23)))))))
    }

    /// The error that loading ends with, if any: that of the first block, in
    /// the order of the topology, that fails.
    pub open spec fn load_error(contents: Contents, num_classes: usize, num_anchors: usize)
        -> Option<Fault> {
        first(
            Self::backbone_error(contents),
            first(
                Self::neck_error(contents),
                DetectHead::load_error(
                    contents,
                    "model.24"@,
                    head_channels(),
                    num_classes,
                    num_anchors,
                ),
            ),
        )
    }

    /// Whether `self` is the network that `contents` holds.
    pub open spec fn loaded(&self, contents: Contents, num_classes: usize, num_anchors: usize)
        -> bool {
        &&& self.model0.loaded(contents, "model.0"@, 3, 32, 6, 2, 2)
        &&& self.model1.loaded(contents, "model.1"@, 32, 64, 3, 2, 1)
        &&& self.model2.loaded(contents, "model.2"@, 64, 64, 1, true, half())
        &&& self.model3.loaded(contents, "model.3"@, 64, 128, 3, 2, 1)
        &&& self.model4.loaded(contents, "model.4"@, 128, 128, 2, true, half())
        &&& self.model5.loaded(contents, "model.5"@, 128, 256, 3, 2, 1)
        &&& self.model6.loaded(contents, "model.6"@, 256, 256, 3, true, half())
        &&& self.model7.loaded(contents, "model.7"@, 256, 512, 3, 2, 1)
        &&& self.model8.loaded(contents, "model.8"@, 512, 512, 1, true, half())
        &&& self.model9.loaded(contents, "model.9"@, 512, 512, 5)
        &&& self.model10.loaded(contents, "model.10"@, 512, 256, 1, 1, 0)
        &&& self.model13.loaded(contents, "model.13"@, 512, 256, 1, false, half())
        &&& self.model14.loaded(contents, "model.14"@, 256, 128, 1, 1, 0)
        &&& self.model17.loaded(contents, "model.17"@, 256, 128, 1, false, half())
        &&& self.model18.loaded(contents, "model.18"@, 128, 128, 3, 2, 1)
        &&& self.model20.loaded(contents, "model.20"@, 256, 256, 1, false, half())
        &&& self.model21.loaded(contents, "model.21"@, 256, 256, 3, 2, 1)
        &&& self.model23.loaded(contents, "model.23"@, 512, 512, 1, false, half())
        &&& self.model24.loaded(contents, "model.24"@, head_channels(), num_classes, num_anchors)
    }

    /// Loads the network.
    pub fn load(weights: &WeightedTokens, num_classes: usize, num_anchors: usize) -> (r: Result<
        Self,
        Error,
    >)
        ensures
            match r {
                Ok(model) => model.loaded(weights@, num_classes, num_anchors),
                Err(e) => Self::load_error(weights@, num_classes, num_anchors) == Some(e@),
            },
            r is Ok ==> Self::load_error(weights@, num_classes, num_anchors) is None,
    {
        let expansion = Ratio { numerator: 1, denominator: 2 };
        let model0 = ConvBnSilu::load(weights, "model.0", 3, 32, 6, 2, 2)?;
        let model1 = ConvBnSilu::load(weights, "model.1", 32, 64, 3, 2, 1)?;
        let model2 = C3::load(weights, "model.2", 64, 64, 1, true, &expansion)?;
        let model3 = ConvBnSilu::load(weights, "model.3", 64, 128, 3, 2, 1)?;
        let model4 = C3::load(weights, "model.4", 128, 128, 2, true, &expansion)?;
        let model5 = ConvBnSilu::load(weights, "model.5", 128, 256, 3, 2, 1)?;
        let model6 = C3::load(weights, "model.6", 256, 256, 3, true, &expansion)?;
        let model7 = ConvBnSilu::load(weights, "model.7", 256, 512, 3, 2, 1)?;
        let model8 = C3::load(weights, "model.8", 512, 512, 1, true, &expansion)?;
        let model9 = Sppf::load(weights, "model.9", 512, 512, 5)?;
        let model10 = ConvBnSilu::load(weights, "model.10", 512, 256, 1, 1, 0)?;
        let model13 = C3::load(weights, "model.13", 512, 256, 1, false, &expansion)?;
        let model14 = ConvBnSilu::load(weights, "model.14", 256, 128, 1, 1, 0)?;
        let model17 = C3::load(weights, "model.17", 256, 128, 1, false, &expansion)?;
        let model18 = ConvBnSilu::load(weights, "model.18", 128, 128, 3, 2, 1)?;
        let model20 = C3::load(weights, "model.20", 256, 256, 1, false, &expansion)?;
        let model21 = ConvBnSilu::load(weights, "model.21", 256, 256, 3, 2, 1)?;
        let model23 = C3::load(weights, "model.23", 512, 512, 1, false, &expansion)?;
        let channels: [usize; 3] = [128, 256, 512];
        let model24 = DetectHead::load(weights, "model.24", &channels, num_classes, num_anchors)?;
        Ok(
            YoloV5 {
                model0,
                model1,
                model2,
                model3,
                model4,
                model5,
                model6,
                model7,
                model8,
                model9,
                model10,
                model13,
                model14,
                model17,
                model18,
                model20,
                model21,
                model23,
                model24,
            },
        )
    }
}

} // verus!
