//! Whether the recognizer's tensors fit one another: what its blocks can be
//! applied to.

use vstd::prelude::*;
use crate::manga_ocr::model::{
    BertDecoder, FeedForward, LayerNorm, MultiHeadAttention, TransformerDecoderLayer,
    TransformerEncoderLayer, ViTAttention, VisionEncoderDecoder, VitEncoder, WeightedConv2d,
    WeightedLinear,
};
use crate::manga_ocr::model::{
    decoder_layer_name, encoder_layer_name, encoder_output_name, output_name, BertConfig,
    VisionEncoderDecoderConfig, VitConfig,
};
use crate::tensor::Tensor;
use crate::weights::Contents;

verus! {

fn has_shape1(tensor: &Tensor, a: usize) -> (r: bool)
    ensures
        r == (tensor@.shape == seq![a]),
{
    let shape = tensor.shape();
    let r = shape.len() == 1 && shape[0] == a;
    assert(r ==> shape@ =~= seq![a]);
    r
}

fn has_shape2(tensor: &Tensor, a: usize, b: usize) -> (r: bool)
    ensures
        r == (tensor@.shape == seq![a, b]),
{
    let shape = tensor.shape();
    let r = shape.len() == 2 && shape[0] == a && shape[1] == b;
    assert(r ==> shape@ =~= seq![a, b]);
    r
}

fn has_shape3(tensor: &Tensor, a: usize, b: usize, c: usize) -> (r: bool)
    ensures
        r == (tensor@.shape == seq![a, b, c]),
{
    let shape = tensor.shape();
    let r = shape.len() == 3 && shape[0] == a && shape[1] == b && shape[2] == c;
    assert(r ==> shape@ =~= seq![a, b, c]);
    r
}

impl WeightedLinear {
    /// Whether the layer maps vectors of `in_dim` features to vectors of
    /// `out_dim`.
    pub open spec fn maps(&self, in_dim: usize, out_dim: usize) -> bool {
        &&& self.weight@.shape == seq![out_dim, in_dim]
        &&& self.bias matches Some(bias) ==> bias@.shape == seq![out_dim]
    }

    /// Whether the layer maps vectors of `in_dim` features to vectors of
    /// `out_dim`.
    pub fn is_map(&self, in_dim: usize, out_dim: usize) -> (r: bool)
        ensures
            r == self.maps(in_dim, out_dim),
    {
        has_shape2(&self.weight, out_dim, in_dim) && match &self.bias {
            Some(bias) => has_shape1(bias, out_dim),
            None => true,
        }
    }
}

impl LayerNorm {
    /// Whether the normalization is over `hidden_size` features.
    pub open spec fn spans(&self, hidden_size: usize) -> bool {
        self.weight@.shape == seq![hidden_size] && self.bias@.shape == seq![hidden_size]
    }

    /// Whether the normalization is over `hidden_size` features.
    pub fn is_over(&self, hidden_size: usize) -> (r: bool)
        ensures
            r == self.spans(hidden_size),
    {
        has_shape1(&self.weight, hidden_size) && has_shape1(&self.bias, hidden_size)
    }
}

impl FeedForward {
    /// Whether the two layers map `hidden_size` features to as many, by way
    /// of as many as the first layer gives.
    pub open spec fn fits(&self, hidden_size: usize) -> bool {
        &&& self.dense1.weight@.shape.len() == 2
        &&& self.dense1.maps(hidden_size, self.dense1.weight@.shape[0])
        &&& self.dense2.maps(self.dense1.weight@.shape[0], hidden_size)
    }

    /// Whether the block can be applied to `hidden_size` features.
    pub fn check(&self, hidden_size: usize) -> (r: bool)
        ensures
            r == self.fits(hidden_size),
    {
        let shape = self.dense1.weight.shape();
        if shape.len() != 2 {
            return false;
        }
        let between: usize = shape[0];
        self.dense1.is_map(hidden_size, between) && self.dense2.is_map(between, hidden_size)
    }
}

impl ViTAttention {
    /// Whether the heads share `hidden_size` features evenly, and the
    /// projections map `hidden_size` features to as many.
    pub open spec fn fits(&self, hidden_size: usize) -> bool {
        &&& self.num_heads * self.head_dim == hidden_size
        &&& self.head_dim > 0
        &&& self.query.maps(hidden_size, hidden_size)
        &&& self.key.maps(hidden_size, hidden_size)
        &&& self.value.maps(hidden_size, hidden_size)
        &&& self.output.maps(hidden_size, hidden_size)
    }

    /// Whether the block can be applied to `hidden_size` features.
    pub fn check(&self, hidden_size: usize) -> (r: bool)
        ensures
            r == self.fits(hidden_size),
    {
        self.num_heads.checked_mul(self.head_dim) == Some(hidden_size) && self.head_dim > 0
            && self.query.is_map(hidden_size, hidden_size) && self.key.is_map(
            hidden_size,
            hidden_size,
        ) && self.value.is_map(hidden_size, hidden_size) && self.output.is_map(
            hidden_size,
            hidden_size,
        )
    }
}

impl MultiHeadAttention {
    /// Whether the heads share `hidden_size` features evenly, and the
    /// projections and the normalization are over `hidden_size` features.
    pub open spec fn fits(&self, hidden_size: usize) -> bool {
        &&& self.num_heads * self.head_dim == hidden_size
        &&& self.head_dim > 0
        &&& self.query.maps(hidden_size, hidden_size)
        &&& self.key.maps(hidden_size, hidden_size)
        &&& self.value.maps(hidden_size, hidden_size)
        &&& self.output.maps(hidden_size, hidden_size)
        &&& self.output_layernorm.spans(hidden_size)
    }

    /// Whether the block can be applied to `hidden_size` features.
    pub fn check(&self, hidden_size: usize) -> (r: bool)
        ensures
            r == self.fits(hidden_size),
    {
        self.num_heads.checked_mul(self.head_dim) == Some(hidden_size) && self.head_dim > 0
            && self.query.is_map(hidden_size, hidden_size) && self.key.is_map(
            hidden_size,
            hidden_size,
        ) && self.value.is_map(hidden_size, hidden_size) && self.output.is_map(
            hidden_size,
            hidden_size,
        ) && self.output_layernorm.is_over(hidden_size)
    }
}

impl TransformerEncoderLayer {
    /// Whether the block can be applied to `hidden_size` features.
    pub open spec fn fits(&self, hidden_size: usize) -> bool {
        &&& self.attention.fits(hidden_size)
        &&& self.feed_forward.fits(hidden_size)
        &&& self.layernorm_before.spans(hidden_size)
        &&& self.layernorm_after.spans(hidden_size)
    }

    /// Whether the block can be applied to `hidden_size` features.
    pub fn check(&self, hidden_size: usize) -> (r: bool)
        ensures
            r == self.fits(hidden_size),
    {
        self.attention.check(hidden_size) && self.feed_forward.check(hidden_size)
            && self.layernorm_before.is_over(hidden_size) && self.layernorm_after.is_over(
            hidden_size,
        )
    }
}

impl TransformerDecoderLayer {
    /// Whether the block can be applied to `hidden_size` features.
    pub open spec fn fits(&self, hidden_size: usize) -> bool {
        &&& self.self_attention.fits(hidden_size)
        &&& self.cross_attention.fits(hidden_size)
        &&& self.feed_forward.fits(hidden_size)
        &&& self.layernorm3.spans(hidden_size)
    }

    /// Whether the block can be applied to `hidden_size` features.
    pub fn check(&self, hidden_size: usize) -> (r: bool)
        ensures
            r == self.fits(hidden_size),
    {
        self.self_attention.check(hidden_size) && self.cross_attention.check(hidden_size)
            && self.feed_forward.check(hidden_size) && self.layernorm3.is_over(hidden_size)
    }
}

impl WeightedConv2d {
    /// Whether the convolution embeds square patches of three channels in
    /// `hidden_size` features, one patch next to the other.
    pub open spec fn embeds(&self, hidden_size: usize) -> bool {
        &&& self.weight@.shape.len() == 4
        &&& self.weight@.shape[0] == hidden_size
        &&& self.weight@.shape[1] == 3
        &&& self.weight@.shape[2] == self.stride
        &&& self.weight@.shape[3] == self.stride
        &&& self.stride > 0
        &&& self.bias matches Some(bias) ==> bias@.shape == seq![hidden_size]
    }

    /// Whether the convolution embeds patches in `hidden_size` features.
    pub fn is_embedding(&self, hidden_size: usize) -> (r: bool)
        ensures
            r == self.embeds(hidden_size),
    {
        let shape = self.weight.shape();
        shape.len() == 4 && shape[0] == hidden_size && shape[1] == 3 && shape[2] == self.stride
            && shape[3] == self.stride && self.stride > 0 && match &self.bias {
            Some(bias) => has_shape1(bias, hidden_size),
            None => true,
        }
    }
}

/// The length of the sequence that an image of side `image_size` becomes,
/// cut into patches of side `patch_size`: one element per patch and one for
/// the class token. `None` where there are no patches to cut, or the length
/// does not fit in `usize`.
pub open spec fn sequence_of(image_size: usize, patch_size: usize) -> Option<usize> {
    if patch_size == 0 || image_size < patch_size || (image_size / patch_size) * (image_size
        / patch_size) + 1 > usize::MAX {
        None
    } else {
        Some(((image_size / patch_size) * (image_size / patch_size) + 1) as usize)
    }
}

/// The length of the sequence that an image becomes.
pub fn sequence_length(image_size: usize, patch_size: usize) -> (r: Option<usize>)
    ensures
        r == sequence_of(image_size, patch_size),
{
    if patch_size == 0 || image_size < patch_size {
        return None;
    }
    let side: usize = image_size / patch_size;
    side.checked_mul(side)?.checked_add(1)
}

impl VitEncoder {
    /// Whether the encoder can be applied to images of side `image_size`:
    /// its blocks are over `hidden_size` features, and it has a position
    /// for each element of the sequence that the image becomes.
    pub open spec fn fits(&self, image_size: usize) -> bool {
        let hidden = self.config.hidden_size;
        &&& self.patch_embed.embeds(hidden)
        &&& self.cls_token@.shape == seq![1, 1, hidden]
        &&& self.position_embeddings@.shape.len() == 2
        &&& self.position_embeddings@.shape[1] == hidden
        &&& sequence_of(image_size, self.patch_embed.stride) matches Some(length)
        &&& length <= self.position_embeddings@.shape[0]
        &&& self.layernorm.spans(hidden)
        &&& forall|i: int| 0 <= i < self.layers.len() ==> (#[trigger] self.layers[i]).fits(hidden)
    }

    /// Whether the encoder can be applied to images of side `image_size`.
    pub fn check(&self, image_size: usize) -> (r: bool)
        ensures
            r == self.fits(image_size),
    {
        let hidden: usize = self.config.hidden_size;
        let positions = self.position_embeddings.shape();
        if !self.patch_embed.is_embedding(hidden) || !has_shape3(&self.cls_token, 1, 1, hidden)
            || positions.len() != 2 || positions[1] != hidden || !self.layernorm.is_over(hidden) {
            return false;
        }
        match sequence_length(image_size, self.patch_embed.stride) {
            Some(length) => {
                if length > positions[0] {
                    return false;
                }
            },
            None => {
                return false;
            },
        }
        let mut i: usize = 0;
        while i < self.layers.len()
            invariant
                i <= self.layers.len(),
                hidden == self.config.hidden_size,
                forall|k: int| 0 <= k < i ==> (#[trigger] self.layers[k]).fits(hidden),
            decreases self.layers.len() - i,
        {
            if !self.layers[i].check(hidden) {
                return false;
            }
            i = i + 1;
        }
        true
    }
}

impl BertDecoder {
    /// Whether the decoder can be applied: its tables and blocks are over
    /// `hidden_size` features, and it scores each token of the vocabulary.
    pub open spec fn fits(&self) -> bool {
        let hidden = self.config.hidden_size;
        &&& self.tables_fit()
        &&& self.token_type_embeddings@.shape[0] >= 1
        &&& self.layernorm.spans(hidden)
        &&& forall|i: int| 0 <= i < self.layers.len() ==> (#[trigger] self.layers[i]).fits(hidden)
        &&& self.transform_dense.maps(hidden, hidden)
        &&& self.transform_layernorm.spans(hidden)
        &&& self.lm_head.maps(hidden, self.config.vocab_size)
        &&& self.lm_bias@.shape == seq![self.config.vocab_size]
    }

    /// Whether the decoder can be applied.
    pub fn check(&self) -> (r: bool)
        ensures
            r == self.fits(),
    {
        let hidden: usize = self.config.hidden_size;
        let tokens = self.embeddings.shape();
        let positions = self.position_embeddings.shape();
        let types = self.token_type_embeddings.shape();
        if tokens.len() != 2 || tokens[1] != hidden || positions.len() != 2 || positions[1]
            != hidden || types.len() != 2 || types[1] != hidden || types[0] < 1 {
            return false;
        }
        if !self.layernorm.is_over(hidden) || !self.transform_dense.is_map(hidden, hidden)
            || !self.transform_layernorm.is_over(hidden) || !self.lm_head.is_map(
            hidden,
            self.config.vocab_size,
        ) || !has_shape1(&self.lm_bias, self.config.vocab_size) {
            return false;
        }
        let mut i: usize = 0;
        while i < self.layers.len()
            invariant
                i <= self.layers.len(),
                hidden == self.config.hidden_size,
                forall|k: int| 0 <= k < i ==> (#[trigger] self.layers[k]).fits(hidden),
            decreases self.layers.len() - i,
        {
            if !self.layers[i].check(hidden) {
                return false;
            }
            i = i + 1;
        }
        true
    }
}

impl VisionEncoderDecoder {
    /// Whether the recognizer can be applied to images of side
    /// `image_size`: encoder and decoder can, and are over the same number
    /// of features.
    pub open spec fn fits(&self, image_size: usize) -> bool {
        &&& self.encoder.fits(image_size)
        &&& self.decoder.fits()
        &&& self.encoder.config.hidden_size == self.decoder.config.hidden_size
    }

    /// Whether the recognizer can be applied to images of side
    /// `image_size`.
    pub fn check(&self, image_size: usize) -> (r: bool)
        ensures
            r == self.fits(image_size),
    {
        self.encoder.check(image_size) && self.decoder.check()
            && self.encoder.config.hidden_size == self.decoder.config.hidden_size
    }
}

/// A layer that was loaded maps as many features as it was loaded for.
pub proof fn lemma_loaded_linear(
    layer: WeightedLinear,
    contents: Contents,
    name: Seq<char>,
    in_dim: usize,
    out_dim: usize,
)
    requires
        layer.loaded(contents, name, in_dim, out_dim),
    ensures
        layer.maps(in_dim, out_dim),
{
}

/// A normalization that was loaded is over as many features as it was
/// loaded for.
pub proof fn lemma_loaded_norm(
    norm: LayerNorm,
    contents: Contents,
    name: Seq<char>,
    hidden_size: usize,
)
    requires
        norm.loaded(contents, name, hidden_size),
    ensures
        norm.spans(hidden_size),
{
}

/// Whether `num_heads` heads can share `hidden_size` features evenly.
pub open spec fn shared_evenly(hidden_size: usize, num_heads: usize) -> bool {
    hidden_size > 0 && num_heads > 0 && hidden_size % num_heads == 0
}

proof fn lemma_heads(hidden_size: usize, num_heads: usize)
    requires
        shared_evenly(hidden_size, num_heads),
    ensures
        num_heads * (hidden_size / num_heads) == hidden_size,
        hidden_size / num_heads > 0,
{
    assert(num_heads * (hidden_size / num_heads) == hidden_size && hidden_size / num_heads > 0)
        by (nonlinear_arith)
        requires
            hidden_size > 0,
            num_heads > 0,
            hidden_size % num_heads == 0,
    ;
}

/// A block of the encoder that was loaded can be applied, where the heads
/// share the features evenly.
pub proof fn lemma_loaded_encoder_layer(
    layer: TransformerEncoderLayer,
    contents: Contents,
    layer_idx: usize,
    hidden_size: usize,
    num_heads: usize,
    intermediate_size: usize,
)
    requires
        layer.loaded(contents, layer_idx, hidden_size, num_heads, intermediate_size),
        shared_evenly(hidden_size, num_heads),
    ensures
        layer.fits(hidden_size),
{
    let name = encoder_layer_name(layer_idx);
    let block = name + ".attention.attention"@;
    lemma_heads(hidden_size, num_heads);
    lemma_loaded_linear(
        layer.attention.query,
        contents,
        block + ".query"@,
        hidden_size,
        hidden_size,
    );
    lemma_loaded_linear(layer.attention.key, contents, block + ".key"@, hidden_size, hidden_size);
    lemma_loaded_linear(
        layer.attention.value,
        contents,
        block + ".value"@,
        hidden_size,
        hidden_size,
    );
    lemma_loaded_linear(
        layer.attention.output,
        contents,
        encoder_output_name(block) + ".dense"@,
        hidden_size,
        hidden_size,
    );
    lemma_loaded_linear(
        layer.feed_forward.dense1,
        contents,
        name + ".intermediate.dense"@,
        hidden_size,
        intermediate_size,
    );
    lemma_loaded_linear(
        layer.feed_forward.dense2,
        contents,
        name + ".output.dense"@,
        intermediate_size,
        hidden_size,
    );
}

proof fn lemma_loaded_attention(
    block: MultiHeadAttention,
    contents: Contents,
    name: Seq<char>,
    hidden_size: usize,
    num_heads: usize,
)
    requires
        block.loaded(contents, name, hidden_size, num_heads),
        shared_evenly(hidden_size, num_heads),
    ensures
        block.fits(hidden_size),
{
    lemma_heads(hidden_size, num_heads);
    lemma_loaded_linear(block.query, contents, name + ".query"@, hidden_size, hidden_size);
    lemma_loaded_linear(block.key, contents, name + ".key"@, hidden_size, hidden_size);
    lemma_loaded_linear(block.value, contents, name + ".value"@, hidden_size, hidden_size);
    lemma_loaded_linear(
        block.output,
        contents,
        output_name(name) + ".dense"@,
        hidden_size,
        hidden_size,
    );
}

/// A block of the decoder that was loaded can be applied, where the heads
/// share the features evenly.
pub proof fn lemma_loaded_decoder_layer(
    layer: TransformerDecoderLayer,
    contents: Contents,
    layer_idx: usize,
    hidden_size: usize,
    num_heads: usize,
    intermediate_size: usize,
)
    requires
        layer.loaded(contents, layer_idx, hidden_size, num_heads, intermediate_size),
        shared_evenly(hidden_size, num_heads),
    ensures
        layer.fits(hidden_size),
{
    let name = decoder_layer_name(layer_idx);
    lemma_loaded_attention(
        layer.self_attention,
        contents,
        name + ".attention.self"@,
        hidden_size,
        num_heads,
    );
    lemma_loaded_attention(
        layer.cross_attention,
        contents,
        name + ".crossattention.self"@,
        hidden_size,
        num_heads,
    );
    lemma_loaded_linear(
        layer.feed_forward.dense1,
        contents,
        name + ".intermediate.dense"@,
        hidden_size,
        intermediate_size,
    );
    lemma_loaded_linear(
        layer.feed_forward.dense2,
        contents,
        name + ".output.dense"@,
        intermediate_size,
        hidden_size,
    );
}

/// An encoder that was loaded can be applied to the images that it has
/// positions for, where its heads share the features evenly.
pub proof fn lemma_loaded_encoder(
    encoder: VitEncoder,
    contents: Contents,
    config: VitConfig,
    image_size: usize,
)
    requires
        encoder.loaded(contents, config),
        shared_evenly(config.hidden_size, config.num_attention_heads),
        sequence_of(image_size, config.patch_size) matches Some(length) && length
            <= encoder.position_embeddings@.shape[0],
    ensures
        encoder.fits(image_size),
{
    assert forall|i: int| 0 <= i < encoder.layers.len() implies (#[trigger] encoder.layers[i]).fits(
        config.hidden_size,
    ) by {
        lemma_loaded_encoder_layer(
            encoder.layers[i],
            contents,
            i as usize,
            config.hidden_size,
            config.num_attention_heads,
            config.intermediate_size,
        );
    }
}

/// A decoder that was loaded can be applied, where its heads share the
/// features evenly.
pub proof fn lemma_loaded_decoder(decoder: BertDecoder, contents: Contents, config: BertConfig)
    requires
        decoder.loaded(contents, config),
        shared_evenly(config.hidden_size, config.num_attention_heads),
    ensures
        decoder.fits(),
{
    assert forall|i: int| 0 <= i < decoder.layers.len() implies (#[trigger] decoder.layers[i]).fits(
        config.hidden_size,
    ) by {
        lemma_loaded_decoder_layer(
            decoder.layers[i],
            contents,
            i as usize,
            config.hidden_size,
            config.num_attention_heads,
            config.intermediate_size,
        );
    }
    lemma_loaded_linear(
        decoder.transform_dense,
        contents,
        "decoder.cls.predictions.transform.dense"@,
        config.hidden_size,
        config.hidden_size,
    );
    lemma_loaded_linear(
        decoder.lm_head,
        contents,
        "decoder.cls.predictions.decoder"@,
        config.hidden_size,
        config.vocab_size,
    );
}

/// A recognizer that was loaded can be applied to the images that its
/// encoder has positions for, where encoder and decoder are over the same
/// number of features and their heads share the features evenly.
pub proof fn lemma_loaded_recognizer(
    model: VisionEncoderDecoder,
    contents: Contents,
    config: VisionEncoderDecoderConfig,
    image_size: usize,
)
    requires
        model.loaded(contents, config),
        config.encoder.hidden_size == config.decoder.hidden_size,
        shared_evenly(config.encoder.hidden_size, config.encoder.num_attention_heads),
        shared_evenly(config.decoder.hidden_size, config.decoder.num_attention_heads),
        sequence_of(image_size, config.encoder.patch_size) matches Some(length) && length
            <= model.encoder.position_embeddings@.shape[0],
    ensures
        model.fits(image_size),
{
    lemma_loaded_encoder(model.encoder, contents, config.encoder, image_size);
    lemma_loaded_decoder(model.decoder, contents, config.decoder);
}

} // verus!
