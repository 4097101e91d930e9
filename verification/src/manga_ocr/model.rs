//! The recognizer's configuration and its weights, resolved by name against
//! a weight archive.

use vstd::prelude::*;
use crate::error::{failure, first, first_among, lemma_first_among_skip, Error, Fault};
use crate::ieee::{ONE, ZERO};
use crate::manga_ocr::decode::{
    dependable, failed_with, generate, run, traced, DecodeRules, GENERATION_CAP,
};
use crate::names::{decimal, join, numbered, replace, replaced};
use crate::tensor::{
    constant, dims1, dims2, dims3, dims4, view_if_present, Tensor, TensorSpec,
};
use crate::weights::{
    fitted_if_present, fitted_or, stored, stored_if_present, stored_or, stored_rows,
    stored_rows_if_present, Contents, WeightedTokens,
};

verus! {

/// The bit pattern of the value added to a variance before its root is
/// taken: 1e-12.
pub const LAYER_NORM_EPS: u32 = 0x2B8C_BCCC;

/// A convolution without padding, as used to embed image patches.
#[derive(Debug)]
pub struct WeightedConv2d {
    pub weight: Tensor,
    pub bias: Option<Tensor>,
    pub stride: usize,
}

impl WeightedConv2d {
    /// The kernel: it must be stored, with `out_channels * in_channels *
    /// kernel_size * kernel_size` values.
    pub open spec fn weight_slot(
        contents: Contents,
        name: Seq<char>,
        in_channels: usize,
        out_channels: usize,
        kernel_size: usize,
    ) -> Result<TensorSpec, Fault> {
        stored(
            contents,
            name + ".weight"@,
            seq![out_channels, in_channels, kernel_size, kernel_size],
        )
    }

    /// The bias: where it is stored, it must have `out_channels` values.
    pub open spec fn bias_slot(contents: Contents, name: Seq<char>, out_channels: usize) -> Result<
        Option<TensorSpec>,
        Fault,
    > {
        stored_if_present(contents, name + ".bias"@, seq![out_channels])
    }

    /// The error that loading ends with, if any.
    pub open spec fn load_error(
        contents: Contents,
        name: Seq<char>,
        in_channels: usize,
        out_channels: usize,
        kernel_size: usize,
    ) -> Option<Fault> {
        first(
            failure(Self::weight_slot(contents, name, in_channels, out_channels, kernel_size)),
            failure(Self::bias_slot(contents, name, out_channels)),
        )
    }

    /// Whether `self` is the convolution that `contents` holds under `name`.
    pub open spec fn loaded(
        &self,
        contents: Contents,
        name: Seq<char>,
        in_channels: usize,
        out_channels: usize,
        kernel_size: usize,
        stride: usize,
    ) -> bool {
        &&& Self::weight_slot(contents, name, in_channels, out_channels, kernel_size) == Ok::<
            TensorSpec,
            Fault,
        >(self.weight@)
        &&& Self::bias_slot(contents, name, out_channels) == Ok::<Option<TensorSpec>, Fault>(
            view_if_present(self.bias),
        )
        &&& self.stride == stride
    }

    /// Loads the convolution stored under `name`.
    pub fn from_weights(
        weights: &WeightedTokens,
        name: &str,
        in_channels: usize,
        out_channels: usize,
        kernel_size: usize,
        stride: usize,
    ) -> (r: Result<Self, Error>)
        ensures
            match r {
                Ok(conv) => conv.loaded(
                    weights@,
                    name@,
                    in_channels,
                    out_channels,
                    kernel_size,
                    stride,
                ),
                Err(e) => Self::load_error(
                    weights@,
                    name@,
                    in_channels,
                    out_channels,
                    kernel_size,
                ) == Some(e@),
            },
            r is Ok ==> Self::load_error(
                weights@,
                name@,
                in_channels,
                out_channels,
                kernel_size,
            ) is None,
    {
        let weight = weights.tensor(
            join(name, ".weight").as_str(),
            dims4(out_channels, in_channels, kernel_size, kernel_size),
        )?;
        let bias = weights.tensor_if_present(join(name, ".bias").as_str(), dims1(out_channels))?;
        Ok(WeightedConv2d { weight, bias, stride })
    }
}

/// A dense layer: a matrix of `out_dim` rows and `in_dim` columns, and
/// possibly a bias.
#[derive(Debug)]
pub struct WeightedLinear {
    pub weight: Tensor,
    pub bias: Option<Tensor>,
}

impl WeightedLinear {
    /// The matrix: what is stored, cut or padded with zeros.
    pub open spec fn weight_slot(
        contents: Contents,
        name: Seq<char>,
        in_dim: usize,
        out_dim: usize,
    ) -> Result<TensorSpec, Fault> {
        fitted_or(contents, name + ".weight"@, seq![out_dim, in_dim], ZERO)
    }

    /// The bias: what is stored, if anything, cut or padded with zeros.
    pub open spec fn bias_slot(contents: Contents, name: Seq<char>, out_dim: usize) -> Result<
        Option<TensorSpec>,
        Fault,
    > {
        fitted_if_present(contents, name + ".bias"@, seq![out_dim], ZERO)
    }

    /// The error that loading ends with, if any.
    pub open spec fn load_error(
        contents: Contents,
        name: Seq<char>,
        in_dim: usize,
        out_dim: usize,
    ) -> Option<Fault> {
        first(
            failure(Self::weight_slot(contents, name, in_dim, out_dim)),
            failure(Self::bias_slot(contents, name, out_dim)),
        )
    }

    /// Whether `self` is the layer that `contents` holds under `name`.
    pub open spec fn loaded(
        &self,
        contents: Contents,
        name: Seq<char>,
        in_dim: usize,
        out_dim: usize,
    ) -> bool {
        &&& Self::weight_slot(contents, name, in_dim, out_dim) == Ok::<TensorSpec, Fault>(
            self.weight@,
        )
        &&& Self::bias_slot(contents, name, out_dim) == Ok::<Option<TensorSpec>, Fault>(
            view_if_present(self.bias),
        )
    }

    /// Loads the layer stored under `name`.
    pub fn from_weights(weights: &WeightedTokens, name: &str, in_dim: usize, out_dim: usize) -> (r:
        Result<Self, Error>)
        ensures
            match r {
                Ok(layer) => layer.loaded(weights@, name@, in_dim, out_dim),
                Err(e) => Self::load_error(weights@, name@, in_dim, out_dim) == Some(e@),
            },
            r is Ok ==> Self::load_error(weights@, name@, in_dim, out_dim) is None,
    {
        let weight = weights.tensor_fitted(
            join(name, ".weight").as_str(),
            dims2(out_dim, in_dim),
            ZERO,
        )?;
        let bias = weights.fitted_if_present(join(name, ".bias").as_str(), dims1(out_dim), ZERO)?;
        Ok(WeightedLinear { weight, bias })
    }
}

/// A layer normalization: a scale and a shift per feature.
#[derive(Debug)]
pub struct LayerNorm {
    pub weight: Tensor,
    pub bias: Tensor,
    pub eps: u32,
}

impl LayerNorm {
    /// The scale: what is stored, cut or padded with ones.
    pub open spec fn weight_slot(contents: Contents, name: Seq<char>, hidden_size: usize) -> Result<
        TensorSpec,
        Fault,
    > {
        fitted_or(contents, name + ".weight"@, seq![hidden_size], ONE)
    }

    /// The shift: what is stored, cut or padded with zeros.
    pub open spec fn bias_slot(contents: Contents, name: Seq<char>, hidden_size: usize) -> Result<
        TensorSpec,
        Fault,
    > {
        fitted_or(contents, name + ".bias"@, seq![hidden_size], ZERO)
    }

    /// The error that loading ends with, if any.
    pub open spec fn load_error(contents: Contents, name: Seq<char>, hidden_size: usize) -> Option<
        Fault,
    > {
        first(
            failure(Self::weight_slot(contents, name, hidden_size)),
            failure(Self::bias_slot(contents, name, hidden_size)),
        )
    }

    /// Whether `self` is the normalization that `contents` holds under
    /// `name`.
    pub open spec fn loaded(&self, contents: Contents, name: Seq<char>, hidden_size: usize)
        -> bool {
        &&& Self::weight_slot(contents, name, hidden_size) == Ok::<TensorSpec, Fault>(self.weight@)
        &&& Self::bias_slot(contents, name, hidden_size) == Ok::<TensorSpec, Fault>(self.bias@)
        &&& self.eps == LAYER_NORM_EPS
    }

    /// Loads the normalization stored under `name`.
    pub fn from_weights(weights: &WeightedTokens, name: &str, hidden_size: usize) -> (r: Result<
        Self,
        Error,
    >)
        ensures
            match r {
                Ok(norm) => norm.loaded(weights@, name@, hidden_size),
                Err(e) => Self::load_error(weights@, name@, hidden_size) == Some(e@),
            },
            r is Ok ==> Self::load_error(weights@, name@, hidden_size) is None,
    {
        let weight = weights.tensor_fitted(
            join(name, ".weight").as_str(),
            dims1(hidden_size),
            ONE,
        )?;
        let bias = weights.tensor_fitted(join(name, ".bias").as_str(), dims1(hidden_size), ZERO)?;
        Ok(LayerNorm { weight, bias, eps: LAYER_NORM_EPS })
    }
}

/// The name under which the output projection of an attention block is
/// stored, given the name of the block's query, key and value projections.
pub open spec fn output_name(name: Seq<char>) -> Seq<char> {
    replaced(
        replaced(
            replaced(name, ".attention.attention"@, ".attention.output"@),
            ".attention.self"@,
            ".attention.output"@,
        ),
        ".crossattention.self"@,
        ".crossattention.output"@,
    )
}

/// The name under which the output projection of an encoder's attention
/// block is stored.
pub open spec fn encoder_output_name(name: Seq<char>) -> Seq<char> {
    replaced(name, ".attention.attention"@, ".attention.output"@)
}

/// The failure of a block that has no heads to divide its features among.
pub open spec fn without_heads(num_heads: usize) -> Option<Fault> {
    if num_heads == 0 {
        Some(Fault::Format)
    } else {
        None
    }
}

/// The attention of a decoder block: four projections, and the
/// normalization applied to the sum of the block's input and output.
#[derive(Debug)]
pub struct MultiHeadAttention {
    pub num_heads: usize,
    pub head_dim: usize,
    pub query: WeightedLinear,
    pub key: WeightedLinear,
    pub value: WeightedLinear,
    pub output: WeightedLinear,
    pub output_layernorm: LayerNorm,
}

impl MultiHeadAttention {
    /// The error that loading ends with, if any.
    pub open spec fn load_error(
        contents: Contents,
        name: Seq<char>,
        hidden_size: usize,
        num_heads: usize,
    ) -> Option<Fault> {
        first(
            without_heads(num_heads),
            first(
                WeightedLinear::load_error(contents, name + ".query"@, hidden_size, hidden_size),
                first(
                    WeightedLinear::load_error(contents, name + ".key"@, hidden_size, hidden_size),
                    first(
                        WeightedLinear::load_error(
                            contents,
                            name + ".value"@,
                            hidden_size,
                            hidden_size,
                        ),
                        first(
                            WeightedLinear::load_error(
                                contents,
                                output_name(name) + ".dense"@,
                                hidden_size,
                                hidden_size,
                            ),
                            LayerNorm::load_error(
                                contents,
                                output_name(name) + ".LayerNorm"@,
                                hidden_size,
                            ),
                        ),
                    ),
                ),
            ),
        )
    }

    /// Whether `self` is the block that `contents` holds under `name`.
    pub open spec fn loaded(
        &self,
        contents: Contents,
        name: Seq<char>,
        hidden_size: usize,
        num_heads: usize,
    ) -> bool {
        &&& num_heads > 0
        &&& self.num_heads == num_heads
        &&& self.head_dim == hidden_size / num_heads
        &&& self.query.loaded(contents, name + ".query"@, hidden_size, hidden_size)
        &&& self.key.loaded(contents, name + ".key"@, hidden_size, hidden_size)
        &&& self.value.loaded(contents, name + ".value"@, hidden_size, hidden_size)
        &&& self.output.loaded(contents, output_name(name) + ".dense"@, hidden_size, hidden_size)
        &&& self.output_layernorm.loaded(
            contents,
            output_name(name) + ".LayerNorm"@,
            hidden_size,
        )
    }

    /// Loads the block stored under `name`.
    pub fn from_weights(weights: &WeightedTokens, name: &str, hidden_size: usize, num_heads: usize)
        -> (r: Result<Self, Error>)
        ensures
            match r {
                Ok(block) => block.loaded(weights@, name@, hidden_size, num_heads),
                Err(e) => Self::load_error(weights@, name@, hidden_size, num_heads) == Some(e@),
            },
            r is Ok ==> Self::load_error(weights@, name@, hidden_size, num_heads) is None,
    {
        if num_heads == 0 {
            return Err(Error::Format);
        }
        let head_dim: usize = hidden_size / num_heads;
        let query = WeightedLinear::from_weights(
            weights,
            join(name, ".query").as_str(),
            hidden_size,
            hidden_size,
        )?;
        let key = WeightedLinear::from_weights(
            weights,
            join(name, ".key").as_str(),
            hidden_size,
            hidden_size,
        )?;
        let value = WeightedLinear::from_weights(
            weights,
            join(name, ".value").as_str(),
            hidden_size,
            hidden_size,
        )?;
        proof {
            reveal_strlit(".attention.attention");
            reveal_strlit(".attention.self");
            reveal_strlit(".crossattention.self");
        }
        let encoder_form = replace(name, ".attention.attention", ".attention.output");
        let decoder_form = replace(encoder_form.as_str(), ".attention.self", ".attention.output");
        let output_name = replace(
            decoder_form.as_str(),
            ".crossattention.self",
            ".crossattention.output",
        );
        let output = WeightedLinear::from_weights(
            weights,
            join(output_name.as_str(), ".dense").as_str(),
            hidden_size,
            hidden_size,
        )?;
        let output_layernorm = LayerNorm::from_weights(
            weights,
            join(output_name.as_str(), ".LayerNorm").as_str(),
            hidden_size,
        )?;
        Ok(MultiHeadAttention { num_heads, head_dim, query, key, value, output, output_layernorm })
    }
}

/// The two dense layers of a transformer block.
#[derive(Debug)]
pub struct FeedForward {
    pub dense1: WeightedLinear,
    pub dense2: WeightedLinear,
}

impl FeedForward {
    /// The error that loading ends with, if any.
    pub open spec fn load_error(
        contents: Contents,
        name: Seq<char>,
        hidden_size: usize,
        intermediate_size: usize,
    ) -> Option<Fault> {
        first(
            WeightedLinear::load_error(
                contents,
                name + ".intermediate.dense"@,
                hidden_size,
                intermediate_size,
            ),
            WeightedLinear::load_error(
                contents,
                name + ".output.dense"@,
                intermediate_size,
                hidden_size,
            ),
        )
    }

    /// Whether `self` is the pair of layers that `contents` holds under
    /// `name`.
    pub open spec fn loaded(
        &self,
        contents: Contents,
        name: Seq<char>,
        hidden_size: usize,
        intermediate_size: usize,
    ) -> bool {
        &&& self.dense1.loaded(
            contents,
            name + ".intermediate.dense"@,
            hidden_size,
            intermediate_size,
        )
        &&& self.dense2.loaded(contents, name + ".output.dense"@, intermediate_size, hidden_size)
    }

    /// Loads the pair of layers stored under `name`.
    pub fn from_weights(
        weights: &WeightedTokens,
        name: &str,
        hidden_size: usize,
        intermediate_size: usize,
    ) -> (r: Result<Self, Error>)
        ensures
            match r {
                Ok(block) => block.loaded(weights@, name@, hidden_size, intermediate_size),
                Err(e) => Self::load_error(weights@, name@, hidden_size, intermediate_size)
                    == Some(e@),
            },
            r is Ok ==> Self::load_error(weights@, name@, hidden_size, intermediate_size) is None,
    {
        let dense1 = WeightedLinear::from_weights(
            weights,
            join(name, ".intermediate.dense").as_str(),
            hidden_size,
            intermediate_size,
        )?;
        let dense2 = WeightedLinear::from_weights(
            weights,
            join(name, ".output.dense").as_str(),
            intermediate_size,
            hidden_size,
        )?;
        Ok(FeedForward { dense1, dense2 })
    }
}

/// The attention of an encoder block: four projections.
#[derive(Debug)]
pub struct ViTAttention {
    pub num_heads: usize,
    pub head_dim: usize,
    pub query: WeightedLinear,
    pub key: WeightedLinear,
    pub value: WeightedLinear,
    pub output: WeightedLinear,
}

impl ViTAttention {
    /// The error that loading ends with, if any.
    pub open spec fn load_error(
        contents: Contents,
        name: Seq<char>,
        hidden_size: usize,
        num_heads: usize,
    ) -> Option<Fault> {
        first(
            without_heads(num_heads),
            first(
                WeightedLinear::load_error(contents, name + ".query"@, hidden_size, hidden_size),
                first(
                    WeightedLinear::load_error(contents, name + ".key"@, hidden_size, hidden_size),
                    first(
                        WeightedLinear::load_error(
                            contents,
                            name + ".value"@,
                            hidden_size,
                            hidden_size,
                        ),
                        WeightedLinear::load_error(
                            contents,
                            encoder_output_name(name) + ".dense"@,
                            hidden_size,
                            hidden_size,
                        ),
                    ),
                ),
            ),
        )
    }

    /// Whether `self` is the block that `contents` holds under `name`.
    pub open spec fn loaded(
        &self,
        contents: Contents,
        name: Seq<char>,
        hidden_size: usize,
        num_heads: usize,
    ) -> bool {
        &&& num_heads > 0
        &&& self.num_heads == num_heads
        &&& self.head_dim == hidden_size / num_heads
        &&& self.query.loaded(contents, name + ".query"@, hidden_size, hidden_size)
        &&& self.key.loaded(contents, name + ".key"@, hidden_size, hidden_size)
        &&& self.value.loaded(contents, name + ".value"@, hidden_size, hidden_size)
        &&& self.output.loaded(
            contents,
            encoder_output_name(name) + ".dense"@,
            hidden_size,
            hidden_size,
        )
    }

    /// Loads the block stored under `name`.
    pub fn from_weights(weights: &WeightedTokens, name: &str, hidden_size: usize, num_heads: usize)
        -> (r: Result<Self, Error>)
        ensures
            match r {
                Ok(block) => block.loaded(weights@, name@, hidden_size, num_heads),
                Err(e) => Self::load_error(weights@, name@, hidden_size, num_heads) == Some(e@),
            },
            r is Ok ==> Self::load_error(weights@, name@, hidden_size, num_heads) is None,
    {
        if num_heads == 0 {
            return Err(Error::Format);
        }
        let head_dim: usize = hidden_size / num_heads;
        let query = WeightedLinear::from_weights(
            weights,
            join(name, ".query").as_str(),
            hidden_size,
            hidden_size,
        )?;
        let key = WeightedLinear::from_weights(
            weights,
            join(name, ".key").as_str(),
            hidden_size,
            hidden_size,
        )?;
        let value = WeightedLinear::from_weights(
            weights,
            join(name, ".value").as_str(),
            hidden_size,
            hidden_size,
        )?;
        proof {
            reveal_strlit(".attention.attention");
        }
        let output_name = replace(name, ".attention.attention", ".attention.output");
        let output = WeightedLinear::from_weights(
            weights,
            join(output_name.as_str(), ".dense").as_str(),
            hidden_size,
            hidden_size,
        )?;
        Ok(ViTAttention { num_heads, head_dim, query, key, value, output })
    }
}

/// The name under which block `index` of the encoder is stored.
pub open spec fn encoder_layer_name(index: usize) -> Seq<char> {
    "encoder.encoder.layer."@ + decimal(index as nat)
}

/// The name under which block `index` of the decoder is stored.
pub open spec fn decoder_layer_name(index: usize) -> Seq<char> {
    "decoder.bert.encoder.layer."@ + decimal(index as nat)
}

/// A block of the encoder: each half normalizes its input first.
#[derive(Debug)]
pub struct TransformerEncoderLayer {
    pub attention: ViTAttention,
    pub feed_forward: FeedForward,
    pub layernorm_before: LayerNorm,
    pub layernorm_after: LayerNorm,
}

impl TransformerEncoderLayer {
    /// The error that loading ends with, if any.
    pub open spec fn load_error(
        contents: Contents,
        layer_idx: usize,
        hidden_size: usize,
        num_heads: usize,
        intermediate_size: usize,
    ) -> Option<Fault> {
        let name = encoder_layer_name(layer_idx);
        first(
            ViTAttention::load_error(
                contents,
                name + ".attention.attention"@,
                hidden_size,
                num_heads,
            ),
            first(
                FeedForward::load_error(contents, name, hidden_size, intermediate_size),
                first(
                    LayerNorm::load_error(contents, name + ".layernorm_before"@, hidden_size),
                    LayerNorm::load_error(contents, name + ".layernorm_after"@, hidden_size),
                ),
            ),
        )
    }

    /// Whether `self` is block `layer_idx` of the encoder that `contents`
    /// holds.
    pub open spec fn loaded(
        &self,
        contents: Contents,
        layer_idx: usize,
        hidden_size: usize,
        num_heads: usize,
        intermediate_size: usize,
    ) -> bool {
        let name = encoder_layer_name(layer_idx);
        &&& self.attention.loaded(
            contents,
            name + ".attention.attention"@,
            hidden_size,
            num_heads,
        )
        &&& self.feed_forward.loaded(contents, name, hidden_size, intermediate_size)
        &&& self.layernorm_before.loaded(contents, name + ".layernorm_before"@, hidden_size)
        &&& self.layernorm_after.loaded(contents, name + ".layernorm_after"@, hidden_size)
    }

    /// Loads block `layer_idx` of the encoder.
    pub fn from_weights(
        weights: &WeightedTokens,
        layer_idx: usize,
        hidden_size: usize,
        num_heads: usize,
        intermediate_size: usize,
    ) -> (r: Result<Self, Error>)
        ensures
            match r {
                Ok(layer) => layer.loaded(
                    weights@,
                    layer_idx,
                    hidden_size,
                    num_heads,
                    intermediate_size,
                ),
                Err(e) => Self::load_error(
                    weights@,
                    layer_idx,
                    hidden_size,
                    num_heads,
                    intermediate_size,
                ) == Some(e@),
            },
            r is Ok ==> Self::load_error(
                weights@,
                layer_idx,
                hidden_size,
                num_heads,
                intermediate_size,
            ) is None,
    {
        let block = numbered("encoder.encoder.layer.", layer_idx);
        let attention = ViTAttention::from_weights(
            weights,
            join(block.as_str(), ".attention.attention").as_str(),
            hidden_size,
            num_heads,
        )?;
        let feed_forward = FeedForward::from_weights(
            weights,
            block.as_str(),
            hidden_size,
            intermediate_size,
        )?;
        let layernorm_before = LayerNorm::from_weights(
            weights,
            join(block.as_str(), ".layernorm_before").as_str(),
            hidden_size,
        )?;
        let layernorm_after = LayerNorm::from_weights(
            weights,
            join(block.as_str(), ".layernorm_after").as_str(),
            hidden_size,
        )?;
        Ok(TransformerEncoderLayer { attention, feed_forward, layernorm_before, layernorm_after })
    }
}

/// A block of the decoder: attention over what was generated, attention
/// over the encoder's output, and two dense layers.
#[derive(Debug)]
pub struct TransformerDecoderLayer {
    pub self_attention: MultiHeadAttention,
    pub cross_attention: MultiHeadAttention,
    pub feed_forward: FeedForward,
    pub layernorm3: LayerNorm,
}

impl TransformerDecoderLayer {
    /// The error that loading ends with, if any.
    pub open spec fn load_error(
        contents: Contents,
        layer_idx: usize,
        hidden_size: usize,
        num_heads: usize,
        intermediate_size: usize,
    ) -> Option<Fault> {
        let name = decoder_layer_name(layer_idx);
        first(
            MultiHeadAttention::load_error(
                contents,
                name + ".attention.self"@,
                hidden_size,
                num_heads,
            ),
            first(
                MultiHeadAttention::load_error(
                    contents,
                    name + ".crossattention.self"@,
                    hidden_size,
                    num_heads,
                ),
                first(
                    FeedForward::load_error(contents, name, hidden_size, intermediate_size),
                    LayerNorm::load_error(contents, name + ".output.LayerNorm"@, hidden_size),
                ),
            ),
        )
    }

    /// Whether `self` is block `layer_idx` of the decoder that `contents`
    /// holds.
    pub open spec fn loaded(
        &self,
        contents: Contents,
        layer_idx: usize,
        hidden_size: usize,
        num_heads: usize,
        intermediate_size: usize,
    ) -> bool {
        let name = decoder_layer_name(layer_idx);
        &&& self.self_attention.loaded(contents, name + ".attention.self"@, hidden_size, num_heads)
        &&& self.cross_attention.loaded(
            contents,
            name + ".crossattention.self"@,
            hidden_size,
            num_heads,
        )
        &&& self.feed_forward.loaded(contents, name, hidden_size, intermediate_size)
        &&& self.layernorm3.loaded(contents, name + ".output.LayerNorm"@, hidden_size)
    }

    /// Loads block `layer_idx` of the decoder.
    pub fn from_weights(
        weights: &WeightedTokens,
        layer_idx: usize,
        hidden_size: usize,
        num_heads: usize,
        intermediate_size: usize,
    ) -> (r: Result<Self, Error>)
        ensures
            match r {
                Ok(layer) => layer.loaded(
                    weights@,
                    layer_idx,
                    hidden_size,
                    num_heads,
                    intermediate_size,
                ),
                Err(e) => Self::load_error(
                    weights@,
                    layer_idx,
                    hidden_size,
                    num_heads,
                    intermediate_size,
                ) == Some(e@),
            },
            r is Ok ==> Self::load_error(
                weights@,
                layer_idx,
                hidden_size,
                num_heads,
                intermediate_size,
            ) is None,
    {
        let block = numbered("decoder.bert.encoder.layer.", layer_idx);
        let self_attention = MultiHeadAttention::from_weights(
            weights,
            join(block.as_str(), ".attention.self").as_str(),
            hidden_size,
            num_heads,
        )?;
        let cross_attention = MultiHeadAttention::from_weights(
            weights,
            join(block.as_str(), ".crossattention.self").as_str(),
            hidden_size,
            num_heads,
        )?;
        let feed_forward = FeedForward::from_weights(
            weights,
            block.as_str(),
            hidden_size,
            intermediate_size,
        )?;
        let layernorm3 = LayerNorm::from_weights(
            weights,
            join(block.as_str(), ".output.LayerNorm").as_str(),
            hidden_size,
        )?;
        Ok(TransformerDecoderLayer { self_attention, cross_attention, feed_forward, layernorm3 })
    }
}

/// The activation between the two dense layers of an encoder block.
#[derive(Debug, Clone, Copy, PartialEq, Eq, Structural)]
pub enum HiddenAct {
    Gelu,
    GeluApproximate,
}

/// The activation between the two dense layers of a decoder block.
#[derive(Debug, Clone, Copy, PartialEq, Eq, Structural)]
pub enum DecoderHiddenAct {
    Gelu,
    GeluApproximate,
}

/// The encoder's configuration. The three rates and tolerances are
/// double-precision bit patterns.
#[derive(Debug, Clone, Copy)]
pub struct VitConfig {
    pub image_size: usize,
    pub patch_size: usize,
    pub hidden_size: usize,
    pub num_hidden_layers: usize,
    pub num_attention_heads: usize,
    pub intermediate_size: usize,
    pub hidden_act: HiddenAct,
    pub hidden_dropout_prob: u64,
    pub attention_probs_dropout_prob: u64,
    pub layer_norm_eps: u64,
}

/// The decoder's configuration. The three rates and tolerances are
/// double-precision bit patterns.
#[derive(Debug, Clone, Copy)]
pub struct BertConfig {
    pub vocab_size: usize,
    pub hidden_size: usize,
    pub num_hidden_layers: usize,
    pub num_attention_heads: usize,
    pub intermediate_size: usize,
    pub hidden_act: DecoderHiddenAct,
    pub hidden_dropout_prob: u64,
    pub attention_probs_dropout_prob: u64,
    pub max_position_embeddings: usize,
    pub type_vocab_size: usize,
    pub layer_norm_eps: u64,
    pub pad_token_id: Option<u32>,
}

/// The recognizer's configuration.
#[derive(Debug, Clone, Copy)]
pub struct VisionEncoderDecoderConfig {
    pub decoder_start_token_id: u32,
    pub eos_token_id: u32,
    pub pad_token_id: u32,
    pub max_length: usize,
    pub encoder: VitConfig,
    pub decoder: BertConfig,
}

/// How an image is prepared for the encoder. Means and deviations are
/// single-precision bit patterns, one per channel.
#[derive(Debug, Clone, Copy)]
pub struct PreprocessorConfig {
    pub size: u32,
    pub image_mean: [u32; 3],
    pub image_std: [u32; 3],
    pub do_resize: bool,
    pub do_normalize: bool,
}

/// The number of positions of an encoder whose position embeddings are not
/// stored: one per patch, and one for the class token.
pub open spec fn default_positions(config: VitConfig) -> Option<usize> {
    let area = config.image_size * config.image_size;
    let cell = config.patch_size * config.patch_size;
    if area > usize::MAX || cell > usize::MAX || cell == 0 || area / cell + 1 > usize::MAX {
        None
    } else {
        Some((area / cell + 1) as usize)
    }
}

fn positions_by_default(config: &VitConfig) -> (r: Option<usize>)
    ensures
        r == default_positions(*config),
{
    let area = config.image_size.checked_mul(config.image_size)?;
    let cell = config.patch_size.checked_mul(config.patch_size)?;
    if cell == 0 {
        return None;
    }
    (area / cell).checked_add(1)
}

/// The vision encoder.
#[derive(Debug)]
pub struct VitEncoder {
    pub patch_embed: WeightedConv2d,
    pub cls_token: Tensor,
    pub position_embeddings: Tensor,
    pub layernorm: LayerNorm,
    pub layers: Vec<TransformerEncoderLayer>,
    pub config: VitConfig,
}

impl VitEncoder {
    /// The class token: one vector of zeros where none is stored.
    pub open spec fn cls_slot(contents: Contents, config: VitConfig) -> Result<TensorSpec, Fault> {
        stored_or(contents, "encoder.embeddings.cls_token"@, seq![1, 1, config.hidden_size], ZERO)
    }

    /// The position embeddings: as many rows as are stored, or zeros for
    /// the class token and every patch where none are.
    pub open spec fn position_slot(contents: Contents, config: VitConfig) -> Result<
        TensorSpec,
        Fault,
    > {
        match stored_rows_if_present(
            contents,
            "encoder.embeddings.position_embeddings"@,
            config.hidden_size,
        ) {
            Ok(Some(t)) => Ok(t),
            Ok(None) => match default_positions(config) {
                Some(rows) => constant(seq![rows, config.hidden_size], ZERO),
                None => Err(Fault::Format),
            },
            Err(e) => Err(e),
        }
    }

    /// The errors of the encoder's blocks, in order.
    pub open spec fn layer_errors(contents: Contents, config: VitConfig) -> Seq<Option<Fault>> {
        Seq::new(
            config.num_hidden_layers as nat,
            |i: int|
                TransformerEncoderLayer::load_error(
                    contents,
                    i as usize,
                    config.hidden_size,
                    config.num_attention_heads,
                    config.intermediate_size,
                ),
        )
    }

    /// The error that loading ends with, if any.
    pub open spec fn load_error(contents: Contents, config: VitConfig) -> Option<Fault> {
        first(
            WeightedConv2d::load_error(
                contents,
                "encoder.embeddings.patch_embeddings.projection"@,
                3,
                config.hidden_size,
                config.patch_size,
            ),
            first(
                failure(Self::cls_slot(contents, config)),
                first(
                    failure(Self::position_slot(contents, config)),
                    first(
                        LayerNorm::load_error(contents, "encoder.layernorm"@, config.hidden_size),
                        first_among(Self::layer_errors(contents, config)),
                    ),
                ),
            ),
        )
    }

    /// Whether `self` is the encoder that `contents` holds.
    pub open spec fn loaded(&self, contents: Contents, config: VitConfig) -> bool {
        &&& self.patch_embed.loaded(
            contents,
            "encoder.embeddings.patch_embeddings.projection"@,
            3,
            config.hidden_size,
            config.patch_size,
            config.patch_size,
        )
        &&& Self::cls_slot(contents, config) == Ok::<TensorSpec, Fault>(self.cls_token@)
        &&& Self::position_slot(contents, config) == Ok::<TensorSpec, Fault>(
            self.position_embeddings@,
        )
        &&& self.layernorm.loaded(contents, "encoder.layernorm"@, config.hidden_size)
        &&& self.layers.len() == config.num_hidden_layers
        &&& forall|i: int|
            0 <= i < self.layers.len() ==> (#[trigger] self.layers[i]).loaded(
                contents,
                i as usize,
                config.hidden_size,
                config.num_attention_heads,
                config.intermediate_size,
            )
        &&& self.config == config
    }

    /// Loads the encoder.
    pub fn from_weights(config: &VitConfig, weights: &WeightedTokens) -> (r: Result<Self, Error>)
        ensures
            match r {
                Ok(encoder) => encoder.loaded(weights@, *config),
                Err(e) => Self::load_error(weights@, *config) == Some(e@),
            },
            r is Ok ==> Self::load_error(weights@, *config) is None,
    {
        let patch_embed = WeightedConv2d::from_weights(
            weights,
            "encoder.embeddings.patch_embeddings.projection",
            3,
            config.hidden_size,
            config.patch_size,
            config.patch_size,
        )?;
        let cls_token = weights.tensor_or(
            "encoder.embeddings.cls_token",
            dims3(1, 1, config.hidden_size),
            ZERO,
        )?;
        let position_embeddings = match weights.rows_if_present(
            "encoder.embeddings.position_embeddings",
            config.hidden_size,
        )? {
            Some(t) => t,
            None => match positions_by_default(config) {
                Some(rows) => Tensor::filled(dims2(rows, config.hidden_size), ZERO)?,
                None => {
                    return Err(Error::Format);
                },
            },
        };
        let layernorm = LayerNorm::from_weights(weights, "encoder.layernorm", config.hidden_size)?;
        let ghost errors = Self::layer_errors(weights@, *config);
        let mut layers: Vec<TransformerEncoderLayer> = Vec::new();
        let mut i: usize = 0;
        while i < config.num_hidden_layers
            invariant
                i <= config.num_hidden_layers,
                layers.len() == i,
                errors == Self::layer_errors(weights@, *config),
                Self::load_error(weights@, *config) == first_among(errors),
                forall|j: int| 0 <= j < i ==> (#[trigger] errors[j]) is None,
                forall|j: int|
                    0 <= j < i ==> (#[trigger] layers[j]).loaded(
                        weights@,
                        j as usize,
                        config.hidden_size,
                        config.num_attention_heads,
                        config.intermediate_size,
                    ),
            decreases config.num_hidden_layers - i,
        {
            match TransformerEncoderLayer::from_weights(
                weights,
                i,
                config.hidden_size,
                config.num_attention_heads,
                config.intermediate_size,
            ) {
                Ok(layer) => {
                    layers.push(layer);
                },
                Err(e) => {
                    proof {
                        lemma_first_among_skip(errors, i as int);
                        assert(errors[i as int] == Some(e@));
                        assert(errors.skip(i as int)[0] == Some(e@));
                        assert(first_among(errors.skip(i as int)) == Some(e@));
                    }
                    return Err(e);
                },
            }
            i = i + 1;
        }
        proof {
            lemma_first_among_skip(errors, i as int);
        }
        Ok(
            VitEncoder {
                patch_embed,
                cls_token,
                position_embeddings,
                layernorm,
                layers,
                config: *config,
            },
        )
    }
}

/// The text decoder.
#[derive(Debug)]
pub struct BertDecoder {
    pub embeddings: Tensor,
    pub position_embeddings: Tensor,
    pub token_type_embeddings: Tensor,
    pub layernorm: LayerNorm,
    pub layers: Vec<TransformerDecoderLayer>,
    pub transform_dense: WeightedLinear,
    pub transform_layernorm: LayerNorm,
    pub lm_head: WeightedLinear,
    pub lm_bias: Tensor,
    pub config: BertConfig,
}

impl BertDecoder {
    /// The token embeddings: as many rows as are stored, or a row of zeros
    /// per token of the vocabulary.
    pub open spec fn embeddings_slot(contents: Contents, config: BertConfig) -> Result<
        TensorSpec,
        Fault,
    > {
        stored_rows(
            contents,
            "decoder.bert.embeddings.word_embeddings.weight"@,
            config.hidden_size,
            config.vocab_size,
        )
    }

    /// The position embeddings: as many rows as are stored, or a row of
    /// zeros per position.
    pub open spec fn position_slot(contents: Contents, config: BertConfig) -> Result<
        TensorSpec,
        Fault,
    > {
        stored_rows(
            contents,
            "decoder.bert.embeddings.position_embeddings.weight"@,
            config.hidden_size,
            config.max_position_embeddings,
        )
    }

    /// The embeddings of the two segment types.
    pub open spec fn token_type_slot(contents: Contents, config: BertConfig) -> Result<
        TensorSpec,
        Fault,
    > {
        stored_or(
            contents,
            "decoder.bert.embeddings.token_type_embeddings.weight"@,
            seq![2, config.hidden_size],
            ZERO,
        )
    }

    /// The bias added to the score of each token.
    pub open spec fn bias_slot(contents: Contents, config: BertConfig) -> Result<
        TensorSpec,
        Fault,
    > {
        stored_or(contents, "decoder.cls.predictions.bias"@, seq![config.vocab_size], ZERO)
    }

    /// The errors of the decoder's blocks, in order.
    pub open spec fn layer_errors(contents: Contents, config: BertConfig) -> Seq<Option<Fault>> {
        Seq::new(
            config.num_hidden_layers as nat,
            |i: int|
                TransformerDecoderLayer::load_error(
                    contents,
                    i as usize,
                    config.hidden_size,
                    config.num_attention_heads,
                    config.intermediate_size,
                ),
        )
    }

    /// The error of what is loaded after the blocks, if any.
    pub open spec fn head_error(contents: Contents, config: BertConfig) -> Option<Fault> {
        first(
            WeightedLinear::load_error(
                contents,
                "decoder.cls.predictions.transform.dense"@,
                config.hidden_size,
                config.hidden_size,
            ),
            first(
                LayerNorm::load_error(
                    contents,
                    "decoder.cls.predictions.transform.LayerNorm"@,
                    config.hidden_size,
                ),
                first(
                    WeightedLinear::load_error(
                        contents,
                        "decoder.cls.predictions.decoder"@,
                        config.hidden_size,
                        config.vocab_size,
                    ),
                    failure(Self::bias_slot(contents, config)),
                ),
            ),
        )
    }

    /// The error that loading ends with, if any.
    pub open spec fn load_error(contents: Contents, config: BertConfig) -> Option<Fault> {
        first(
            failure(Self::embeddings_slot(contents, config)),
            first(
                failure(Self::position_slot(contents, config)),
                first(
                    failure(Self::token_type_slot(contents, config)),
                    first(
                        LayerNorm::load_error(
                            contents,
                            "decoder.bert.embeddings.LayerNorm"@,
                            config.hidden_size,
                        ),
                        first(
                            first_among(Self::layer_errors(contents, config)),
                            Self::head_error(contents, config),
                        ),
                    ),
                ),
            ),
        )
    }

    /// Whether `self` is the decoder that `contents` holds.
    pub open spec fn loaded(&self, contents: Contents, config: BertConfig) -> bool {
        &&& Self::embeddings_slot(contents, config) == Ok::<TensorSpec, Fault>(self.embeddings@)
        &&& Self::position_slot(contents, config) == Ok::<TensorSpec, Fault>(
            self.position_embeddings@,
        )
        &&& Self::token_type_slot(contents, config) == Ok::<TensorSpec, Fault>(
            self.token_type_embeddings@,
        )
        &&& self.layernorm.loaded(
            contents,
            "decoder.bert.embeddings.LayerNorm"@,
            config.hidden_size,
        )
        &&& self.layers.len() == config.num_hidden_layers
        &&& forall|i: int|
            0 <= i < self.layers.len() ==> (#[trigger] self.layers[i]).loaded(
                contents,
                i as usize,
                config.hidden_size,
                config.num_attention_heads,
                config.intermediate_size,
            )
        &&& self.transform_dense.loaded(
            contents,
            "decoder.cls.predictions.transform.dense"@,
            config.hidden_size,
            config.hidden_size,
        )
        &&& self.transform_layernorm.loaded(
            contents,
            "decoder.cls.predictions.transform.LayerNorm"@,
            config.hidden_size,
        )
        &&& self.lm_head.loaded(
            contents,
            "decoder.cls.predictions.decoder"@,
            config.hidden_size,
            config.vocab_size,
        )
        &&& Self::bias_slot(contents, config) == Ok::<TensorSpec, Fault>(self.lm_bias@)
        &&& self.config == config
    }

    /// Loads the decoder.
    pub fn from_weights(config: &BertConfig, weights: &WeightedTokens) -> (r: Result<Self, Error>)
        ensures
            match r {
                Ok(decoder) => decoder.loaded(weights@, *config),
                Err(e) => Self::load_error(weights@, *config) == Some(e@),
            },
            r is Ok ==> Self::load_error(weights@, *config) is None,
    {
        let embeddings = weights.tensor_rows(
            "decoder.bert.embeddings.word_embeddings.weight",
            config.hidden_size,
            config.vocab_size,
        )?;
        let position_embeddings = weights.tensor_rows(
            "decoder.bert.embeddings.position_embeddings.weight",
            config.hidden_size,
            config.max_position_embeddings,
        )?;
        let token_type_embeddings = weights.tensor_or(
            "decoder.bert.embeddings.token_type_embeddings.weight",
            dims2(2, config.hidden_size),
            ZERO,
        )?;
        let layernorm = LayerNorm::from_weights(
            weights,
            "decoder.bert.embeddings.LayerNorm",
            config.hidden_size,
        )?;
        let ghost errors = Self::layer_errors(weights@, *config);
        let mut layers: Vec<TransformerDecoderLayer> = Vec::new();
        let mut i: usize = 0;
        while i < config.num_hidden_layers
            invariant
                i <= config.num_hidden_layers,
                layers.len() == i,
                errors == Self::layer_errors(weights@, *config),
                Self::load_error(weights@, *config) == first(
                    first_among(errors),
                    Self::head_error(weights@, *config),
                ),
                forall|j: int| 0 <= j < i ==> (#[trigger] errors[j]) is None,
                forall|j: int|
                    0 <= j < i ==> (#[trigger] layers[j]).loaded(
                        weights@,
                        j as usize,
                        config.hidden_size,
                        config.num_attention_heads,
                        config.intermediate_size,
                    ),
            decreases config.num_hidden_layers - i,
        {
            match TransformerDecoderLayer::from_weights(
                weights,
                i,
                config.hidden_size,
                config.num_attention_heads,
                config.intermediate_size,
            ) {
                Ok(layer) => {
                    layers.push(layer);
                },
                Err(e) => {
                    proof {
                        lemma_first_among_skip(errors, i as int);
                        assert(errors[i as int] == Some(e@));
                        assert(errors.skip(i as int)[0] == Some(e@));
                        assert(first_among(errors.skip(i as int)) == Some(e@));
                    }
                    return Err(e);
                },
            }
            i = i + 1;
        }
        proof {
            lemma_first_among_skip(errors, i as int);
        }
        let transform_dense = WeightedLinear::from_weights(
            weights,
            "decoder.cls.predictions.transform.dense",
            config.hidden_size,
            config.hidden_size,
        )?;
        let transform_layernorm = LayerNorm::from_weights(
            weights,
            "decoder.cls.predictions.transform.LayerNorm",
            config.hidden_size,
        )?;
        let lm_head = WeightedLinear::from_weights(
            weights,
            "decoder.cls.predictions.decoder",
            config.hidden_size,
            config.vocab_size,
        )?;
        let lm_bias = weights.tensor_or(
            "decoder.cls.predictions.bias",
            dims1(config.vocab_size),
            ZERO,
        )?;
        Ok(
            BertDecoder {
                embeddings,
                position_embeddings,
                token_type_embeddings,
                layernorm,
                layers,
                transform_dense,
                transform_layernorm,
                lm_head,
                lm_bias,
                config: *config,
            },
        )
    }
}

/// What the decoder's three tables hold for a sequence of tokens: for each
/// token a row of each table.
#[derive(Debug)]
pub struct Embeddings {
    pub tokens: Tensor,
    pub positions: Tensor,
    pub token_types: Tensor,
}

/// The rows of the token table that stand for `ids`.
pub open spec fn token_rows(ids: Seq<u32>) -> Seq<usize> {
    ids.map_values(|id: u32| id as usize)
}

/// The rows of the position table that stand for the first `count`
/// positions.
pub open spec fn position_rows(count: nat) -> Seq<usize> {
    Seq::new(count, |i: int| i as usize)
}

/// The rows of the table of segment types that stand for `count` tokens of
/// the first segment.
pub open spec fn segment_rows(count: nat) -> Seq<usize> {
    Seq::new(count, |i: int| 0usize)
}

impl BertDecoder {
    /// Looks a sequence of tokens up in the decoder's tables: the
    /// embedding of each token, of each position, and of the first segment
    /// type. A token, or a position, that a table has no row for gets a row
    /// of zeros. Tables that are no matrices of `hidden_size` columns are
    /// rejected.
    pub fn embed(&self, input_ids: &[u32]) -> (r: Result<Embeddings, Error>)
        ensures
            match r {
                Ok(rows) => {
                    &&& rows.tokens@.shape == seq![
                        input_ids@.len() as usize,
                        self.config.hidden_size,
                    ]
                    &&& rows.tokens@.data == self.embeddings@.gathered(token_rows(input_ids@))
                    &&& rows.positions@.shape == rows.tokens@.shape
                    &&& rows.positions@.data == self.position_embeddings@.gathered(
                        position_rows(input_ids@.len()),
                    )
                    &&& rows.token_types@.shape == rows.tokens@.shape
                    &&& rows.token_types@.data == self.token_type_embeddings@.gathered(
                        segment_rows(input_ids@.len()),
                    )
                },
                Err(e) => e == Error::Shape,
            },
            self.tables_fit() && input_ids@.len() * self.config.hidden_size <= usize::MAX
                ==> r is Ok,
    {
        let hidden: usize = self.config.hidden_size;
        if !is_table(&self.embeddings, hidden) || !is_table(&self.position_embeddings, hidden)
            || !is_table(&self.token_type_embeddings, hidden) {
            return Err(Error::Shape);
        }
        let mut token_indices: Vec<usize> = Vec::new();
        let mut position_indices: Vec<usize> = Vec::new();
        let mut segment_indices: Vec<usize> = Vec::new();
        let mut i: usize = 0;
        while i < input_ids.len()
            invariant
                i <= input_ids.len(),
                token_indices@ == token_rows(input_ids@.take(i as int)),
                position_indices@ == position_rows(i as nat),
                segment_indices@ == segment_rows(i as nat),
            decreases input_ids.len() - i,
        {
            token_indices.push(input_ids[i] as usize);
            position_indices.push(i);
            segment_indices.push(0);
            i = i + 1;
            assert(token_indices@ =~= token_rows(input_ids@.take(i as int)));
            assert(position_indices@ =~= position_rows(i as nat));
            assert(segment_indices@ =~= segment_rows(i as nat));
        }
        assert(input_ids@.take(input_ids.len() as int) == input_ids@);
        let tokens = self.embeddings.gather(token_indices.as_slice())?;
        let positions = self.position_embeddings.gather(position_indices.as_slice())?;
        let token_types = self.token_type_embeddings.gather(segment_indices.as_slice())?;
        Ok(Embeddings { tokens, positions, token_types })
    }

    /// Whether the decoder's three tables are matrices of `hidden_size`
    /// columns.
    pub open spec fn tables_fit(&self) -> bool {
        &&& self.embeddings@.is_matrix() && self.embeddings@.shape[1] == self.config.hidden_size
        &&& self.position_embeddings@.is_matrix() && self.position_embeddings@.shape[1]
            == self.config.hidden_size
        &&& self.token_type_embeddings@.is_matrix() && self.token_type_embeddings@.shape[1]
            == self.config.hidden_size
    }
}

fn is_table(table: &Tensor, width: usize) -> (r: bool)
    ensures
        r == (table@.is_matrix() && table@.shape[1] == width),
{
    let shape = table.shape();
    shape.len() == 2 && shape[1] == width
}

/// The recognizer: encoder, decoder, and the token ids that steer decoding.
#[derive(Debug)]
pub struct VisionEncoderDecoder {
    pub encoder: VitEncoder,
    pub decoder: BertDecoder,
    pub config: VisionEncoderDecoderConfig,
    pub max_length: usize,
    pub decoder_start_token_id: u32,
    pub eos_token_id: u32,
    pub pad_token_id: u32,
}

impl VisionEncoderDecoder {
    /// The error that loading ends with, if any.
    pub open spec fn load_error(contents: Contents, config: VisionEncoderDecoderConfig) -> Option<
        Fault,
    > {
        first(
            VitEncoder::load_error(contents, config.encoder),
            BertDecoder::load_error(contents, config.decoder),
        )
    }

    /// Whether `self` is the recognizer that `contents` holds.
    pub open spec fn loaded(&self, contents: Contents, config: VisionEncoderDecoderConfig) -> bool {
        &&& self.encoder.loaded(contents, config.encoder)
        &&& self.decoder.loaded(contents, config.decoder)
        &&& self.config == config
        &&& self.max_length == config.max_length
        &&& self.decoder_start_token_id == config.decoder_start_token_id
        &&& self.eos_token_id == config.eos_token_id
        &&& self.pad_token_id == config.pad_token_id
    }

    /// The rules that decoding goes by.
    pub fn rules(&self) -> (rules: DecodeRules)
        ensures
            rules == self.decoding(),
    {
        DecodeRules {
            start: self.decoder_start_token_id,
            eos: self.eos_token_id,
            pad: self.pad_token_id,
            max_length: self.max_length,
        }
    }

    /// Generates the token ids of one image, without the start token.
    /// `predict` stands for the network: given the ids so far, start token
    /// first, it scores each token of the vocabulary as the next. An error
    /// of `predict` ends the run and is handed on.
    pub fn forward<F: Fn(&Vec<u32>) -> Result<Vec<u32>, Error>>(&self, predict: F) -> (r: Result<
        Vec<u32>,
        Error,
    >)
        requires
            forall|input: &Vec<u32>|
                1 <= input@.len() <= GENERATION_CAP && input@[0] == self.decoder_start_token_id
                    ==> call_requires(predict, (input,)),
        ensures
            r matches Ok(tokens) ==> (tokens.len() <= GENERATION_CAP && tokens.len()
                <= self.max_length),
            r matches Ok(tokens) ==> (exists|chosen: Seq<u32>|
                #![trigger run(self.decoding(), chosen)]
                {
                    &&& traced(predict, self.decoding(), chosen)
                    &&& run(self.decoding(), chosen).stopped is Some
                    &&& tokens@ == run(self.decoding(), chosen).generated()
                }),
            r matches Err(e) ==> failed_with(predict, e),
            dependable(predict) ==> r is Ok,
    {
        let rules = self.rules();
        generate(&rules, predict)
    }

    /// The rules that decoding goes by.
    pub open spec fn decoding(&self) -> DecodeRules {
        DecodeRules {
            start: self.decoder_start_token_id,
            eos: self.eos_token_id,
            pad: self.pad_token_id,
            max_length: self.max_length,
        }
    }

    /// Loads the recognizer: the encoder first, then the decoder.
    pub fn from_config(config: &VisionEncoderDecoderConfig, weights: &WeightedTokens) -> (r: Result<
        Self,
        Error,
    >)
        ensures
            match r {
                Ok(model) => model.loaded(weights@, *config),
                Err(e) => Self::load_error(weights@, *config) == Some(e@),
            },
            r is Ok ==> Self::load_error(weights@, *config) is None,
    {
        let encoder = VitEncoder::from_weights(&config.encoder, weights)?;
        let decoder = BertDecoder::from_weights(&config.decoder, weights)?;
        Ok(
            VisionEncoderDecoder {
                encoder,
                decoder,
                config: *config,
                max_length: config.max_length,
                decoder_start_token_id: config.decoder_start_token_id,
                eos_token_id: config.eos_token_id,
                pad_token_id: config.pad_token_id,
            },
        )
    }
}

} // verus!
