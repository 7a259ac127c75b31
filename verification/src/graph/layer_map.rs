//! The block pattern drawn for each model family.
use crate::text::{ascii_lower, contains_str, has_substring, lowercase_chars};
use crate::types::opt_str_view;
use vstd::prelude::*;

verus! {

/// The views of a sequence of string slices.
pub open spec fn str_views(v: Seq<&str>) -> Seq<Seq<char>> {
    v.map_values(|s: &str| s@)
}

/// The lower-cased model type, or the empty text when there is none.
pub open spec fn family_key(model_type: Option<Seq<char>>) -> Seq<char> {
    match model_type {
        Some(m) => ascii_lower(m),
        None => Seq::empty(),
    }
}

/// The block label and sub-layer names for the lower-cased model type `mt`;
/// the first family whose marker occurs in `mt` decides, and a Llama-style
/// pre-norm transformer is the default.
pub open spec fn layout_for(mt: Seq<char>) -> (Seq<char>, Seq<Seq<char>>) {
    if has_substring(mt, "bert"@) {
        (
            "Encoder Block"@,
            seq![
                "Multi-Head Self-Attention"@,
                "Add & Norm"@,
                "Feed-Forward Network"@,
                "Add & Norm"@,
            ],
        )
    } else if has_substring(mt, "t5"@) || has_substring(mt, "bart"@) || has_substring(mt, "marian"@) {
        (
            "Enc-Dec Block"@,
            seq![
                "Self-Attention"@,
                "LayerNorm"@,
                "Cross-Attention"@,
                "LayerNorm"@,
                "Feed-Forward"@,
                "LayerNorm"@,
            ],
        )
    } else if has_substring(mt, "gpt2"@) || has_substring(mt, "gpt_neo"@) {
        (
            "Transformer Block"@,
            seq![
                "LayerNorm"@,
                "Multi-Head Attention"@,
                "Residual Add"@,
                "LayerNorm"@,
                "MLP (GELU)"@,
                "Residual Add"@,
            ],
        )
    } else if has_substring(mt, "mistral"@) || has_substring(mt, "mixtral"@) {
        (
            "Transformer Block"@,
            seq![
                "RMSNorm"@,
                "Grouped-Query Attention"@,
                "Residual Add"@,
                "RMSNorm"@,
                "SwiGLU MLP"@,
                "Residual Add"@,
            ],
        )
    } else if has_substring(mt, "gemma"@) {
        (
            "Transformer Block"@,
            seq![
                "RMSNorm"@,
                "Multi-Query Attention"@,
                "Residual Add"@,
                "RMSNorm"@,
                "GeGLU MLP"@,
                "Residual Add"@,
            ],
        )
    } else if has_substring(mt, "phi"@) {
        (
            "Transformer Block"@,
            seq!["LayerNorm"@, "Parallel Attention + MLP"@, "Residual Add"@],
        )
    } else if has_substring(mt, "mamba"@) || has_substring(mt, "ssm"@) {
        (
            "SSM Block"@,
            seq!["Norm"@, "Selective State Space"@, "Residual Add"@, "Norm"@, "MLP"@, "Residual Add"@],
        )
    } else {
        (
            "Transformer Block"@,
            seq![
                "RMSNorm"@,
                "Self-Attention"@,
                "Residual Add"@,
                "RMSNorm"@,
                "Feed-Forward (SwiGLU)"@,
                "Residual Add"@,
            ],
        )
    }
}

/// Returns `(block_label, components)` for a model type: the human-readable
/// block name and the sub-layers inside one block.
pub fn block_layout(model_type: Option<&str>) -> (r: (&'static str, Vec<&'static str>))
    ensures
        r.0@ == layout_for(family_key(opt_str_view(model_type))).0,
        str_views(r.1@) == layout_for(family_key(opt_str_view(model_type))).1,
{
    let mt: Vec<char> = match model_type {
        Some(m) => lowercase_chars(m),
        None => Vec::new(),
    };
    assert(mt@ == family_key(opt_str_view(model_type)));
    let r: (&'static str, Vec<&'static str>) = if contains_str(&mt, "bert") {
        (
            "Encoder Block",
            vec!["Multi-Head Self-Attention", "Add & Norm", "Feed-Forward Network", "Add & Norm"],
        )
    } else if contains_str(&mt, "t5") || contains_str(&mt, "bart") || contains_str(&mt, "marian") {
        (
            "Enc-Dec Block",
            vec![
                "Self-Attention",
                "LayerNorm",
                "Cross-Attention",
                "LayerNorm",
                "Feed-Forward",
                "LayerNorm",
            ],
        )
    } else if contains_str(&mt, "gpt2") || contains_str(&mt, "gpt_neo") {
        (
            "Transformer Block",
            vec![
                "LayerNorm",
                "Multi-Head Attention",
                "Residual Add",
                "LayerNorm",
                "MLP (GELU)",
                "Residual Add",
            ],
        )
    } else if contains_str(&mt, "mistral") || contains_str(&mt, "mixtral") {
        (
            "Transformer Block",
            vec![
                "RMSNorm",
                "Grouped-Query Attention",
                "Residual Add",
                "RMSNorm",
                "SwiGLU MLP",
                "Residual Add",
            ],
        )
    } else if contains_str(&mt, "gemma") {
        (
            "Transformer Block",
            vec![
                "RMSNorm",
                "Multi-Query Attention",
                "Residual Add",
                "RMSNorm",
                "GeGLU MLP",
                "Residual Add",
            ],
        )
    } else if contains_str(&mt, "phi") {
        ("Transformer Block", vec!["LayerNorm", "Parallel Attention + MLP", "Residual Add"])
    } else if contains_str(&mt, "mamba") || contains_str(&mt, "ssm") {
        (
            "SSM Block",
            vec!["Norm", "Selective State Space", "Residual Add", "Norm", "MLP", "Residual Add"],
        )
    } else {
        (
            "Transformer Block",
            vec![
                "RMSNorm",
                "Self-Attention",
                "Residual Add",
                "RMSNorm",
                "Feed-Forward (SwiGLU)",
                "Residual Add",
            ],
        )
    };
    assert(str_views(r.1@) =~= layout_for(mt@).1);
    r
}

/// The block label alone, as `block_layout` gives it.
pub fn block_pattern(model_type: Option<&str>) -> (r: &'static str)
    ensures
        r@ == layout_for(family_key(opt_str_view(model_type))).0,
{
    let (label, _) = block_layout(model_type);
    label
}

/// The block layout depends on the model type only up to ASCII case.
pub proof fn layout_ignores_model_type_case(a: Seq<char>, b: Seq<char>)
    requires
        ascii_lower(a) == ascii_lower(b),
    ensures
        layout_for(family_key(Some(a))) == layout_for(family_key(Some(b))),
{
}

/// Every layout has a non-empty label and at least one sub-layer.
pub proof fn layout_is_never_empty(mt: Seq<char>)
    ensures
        layout_for(mt).0.len() > 0,
        layout_for(mt).1.len() > 0,
{
    reveal_strlit("Encoder Block");
    reveal_strlit("Enc-Dec Block");
    reveal_strlit("Transformer Block");
    reveal_strlit("SSM Block");
}

/// The block each family gets, decided by the first family marker that the
/// lower-cased model type holds: `bert` gives the encoder block; `t5`, `bart`
/// or `marian` the encoder-decoder block with cross-attention; `gpt2` or
/// `gpt_neo` the GELU MLP block; `mistral` or `mixtral` grouped-query
/// attention; `gemma` multi-query attention; `phi` the parallel
/// attention-and-MLP block; `mamba` or `ssm` the state-space block; anything
/// else the pre-norm SwiGLU transformer block.
pub proof fn family_markers_pick_blocks(mt: Seq<char>)
    ensures
        has_substring(mt, "bert"@) ==> layout_for(mt).0 == "Encoder Block"@
            && layout_for(mt).1 == seq![
                "Multi-Head Self-Attention"@,
                "Add & Norm"@,
                "Feed-Forward Network"@,
                "Add & Norm"@,
            ],
        !has_substring(mt, "bert"@) && (has_substring(mt, "t5"@) || has_substring(mt, "bart"@)
            || has_substring(mt, "marian"@)) ==> layout_for(mt).0 == "Enc-Dec Block"@
            && layout_for(mt).1 == seq![
                "Self-Attention"@,
                "LayerNorm"@,
                "Cross-Attention"@,
                "LayerNorm"@,
                "Feed-Forward"@,
                "LayerNorm"@,
            ],
        !has_substring(mt, "bert"@) && !has_substring(mt, "t5"@) && !has_substring(mt, "bart"@)
            && !has_substring(mt, "marian"@) && (has_substring(mt, "gpt2"@) || has_substring(
            mt,
            "gpt_neo"@,
        )) ==> layout_for(mt).0 == "Transformer Block"@ && layout_for(mt).1[1]
            == "Multi-Head Attention"@ && layout_for(mt).1[4] == "MLP (GELU)"@,
        !has_substring(mt, "bert"@) && !has_substring(mt, "t5"@) && !has_substring(mt, "bart"@)
            && !has_substring(mt, "marian"@) && !has_substring(mt, "gpt2"@) && !has_substring(
            mt,
            "gpt_neo"@,
        ) && (has_substring(mt, "mistral"@) || has_substring(mt, "mixtral"@))
            ==> layout_for(mt).0 == "Transformer Block"@ && layout_for(mt).1[1]
            == "Grouped-Query Attention"@ && layout_for(mt).1[4] == "SwiGLU MLP"@,
        !has_substring(mt, "bert"@) && !has_substring(mt, "t5"@) && !has_substring(mt, "bart"@)
            && !has_substring(mt, "marian"@) && !has_substring(mt, "gpt2"@) && !has_substring(
            mt,
            "gpt_neo"@,
        ) && !has_substring(mt, "mistral"@) && !has_substring(mt, "mixtral"@) && has_substring(
            mt,
            "gemma"@,
        ) ==> layout_for(mt).0 == "Transformer Block"@ && layout_for(mt).1[1]
            == "Multi-Query Attention"@ && layout_for(mt).1[4] == "GeGLU MLP"@,
        !has_substring(mt, "bert"@) && !has_substring(mt, "t5"@) && !has_substring(mt, "bart"@)
            && !has_substring(mt, "marian"@) && !has_substring(mt, "gpt2"@) && !has_substring(
            mt,
            "gpt_neo"@,
        ) && !has_substring(mt, "mistral"@) && !has_substring(mt, "mixtral"@) && !has_substring(
            mt,
            "gemma"@,
        ) && has_substring(mt, "phi"@) ==> layout_for(mt).0 == "Transformer Block"@
            && layout_for(mt).1 == seq![
                "LayerNorm"@,
                "Parallel Attention + MLP"@,
                "Residual Add"@,
            ],
        !has_substring(mt, "bert"@) && !has_substring(mt, "t5"@) && !has_substring(mt, "bart"@)
            && !has_substring(mt, "marian"@) && !has_substring(mt, "gpt2"@) && !has_substring(
            mt,
            "gpt_neo"@,
        ) && !has_substring(mt, "mistral"@) && !has_substring(mt, "mixtral"@) && !has_substring(
            mt,
            "gemma"@,
        ) && !has_substring(mt, "phi"@) && (has_substring(mt, "mamba"@) || has_substring(
            mt,
            "ssm"@,
        )) ==> layout_for(mt).0 == "SSM Block"@ && layout_for(mt).1[1]
            == "Selective State Space"@,
        !has_substring(mt, "bert"@) && !has_substring(mt, "t5"@) && !has_substring(mt, "bart"@)
            && !has_substring(mt, "marian"@) && !has_substring(mt, "gpt2"@) && !has_substring(
            mt,
            "gpt_neo"@,
        ) && !has_substring(mt, "mistral"@) && !has_substring(mt, "mixtral"@) && !has_substring(
            mt,
            "gemma"@,
        ) && !has_substring(mt, "phi"@) && !has_substring(mt, "mamba"@) && !has_substring(
            mt,
            "ssm"@,
        ) ==> layout_for(mt).0 == "Transformer Block"@ && layout_for(mt).1[1]
            == "Self-Attention"@ && layout_for(mt).1[4] == "Feed-Forward (SwiGLU)"@,
{
}

/// Exactly the encoder-decoder families (`t5`, `bart`, `marian`, unless the
/// model type also names `bert`) get the encoder-decoder block.
pub proof fn only_encoder_decoder_families_get_enc_dec_blocks(mt: Seq<char>)
    ensures
        layout_for(mt).0 == "Enc-Dec Block"@ <==> !has_substring(mt, "bert"@) && (has_substring(
            mt,
            "t5"@,
        ) || has_substring(mt, "bart"@) || has_substring(mt, "marian"@)),
{
    reveal_strlit("Encoder Block");
    reveal_strlit("Enc-Dec Block");
    reveal_strlit("Transformer Block");
    reveal_strlit("SSM Block");
    assert("Enc-Dec Block"@[3] != "Encoder Block"@[3]);
    assert("Enc-Dec Block"@[0] != "Transformer Block"@[0]);
    assert("Enc-Dec Block"@[0] != "SSM Block"@[0]);
}

} // verus!
