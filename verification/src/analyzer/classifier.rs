//! Assigns each tensor name to a layer category.
use crate::text::{ascii_lower, contains_str, ends_with_str, has_substring, has_suffix, lowercase_chars};
use crate::types::{opt_str_view, LayerCategory};
use vstd::prelude::*;

verus! {

/// Output-head names: the language-model head and tied output projections.
pub open spec fn output_head_pattern(n: Seq<char>) -> bool {
    ||| has_substring(n, "lm_head"@)
    ||| has_suffix(n, "output.weight"@)
    ||| has_substring(n, "word_embeddings.weight"@)
}

/// Attention names.
pub open spec fn attention_pattern(n: Seq<char>) -> bool {
    ||| has_substring(n, "self_attn"@)
    ||| has_substring(n, "attention"@)
    ||| has_substring(n, ".attn."@)
    ||| has_substring(n, "q_proj"@)
    ||| has_substring(n, "k_proj"@)
    ||| has_substring(n, "v_proj"@)
    ||| has_substring(n, "o_proj"@)
    ||| has_substring(n, "query"@)
    ||| has_substring(n, "key"@)
    ||| has_substring(n, "value"@)
    ||| has_substring(n, "out_proj"@)
}

/// Feed-forward names.
pub open spec fn feedforward_pattern(n: Seq<char>) -> bool {
    ||| has_substring(n, "mlp"@)
    ||| has_substring(n, "ffn"@)
    ||| has_substring(n, "gate_proj"@)
    ||| has_substring(n, "up_proj"@)
    ||| has_substring(n, "down_proj"@)
    ||| has_substring(n, "wi"@)
    ||| has_substring(n, "wo"@)
    ||| has_substring(n, "dense_h_to_4h"@)
    ||| has_substring(n, "dense_4h_to_h"@)
    ||| has_substring(n, "experts"@)
}

/// Embedding names.
pub open spec fn embedding_pattern(n: Seq<char>) -> bool {
    ||| has_substring(n, "embed"@)
    ||| has_substring(n, "token_emb"@)
    ||| has_substring(n, "tok_emb"@)
    ||| has_substring(n, "token_embedding"@)
    ||| has_substring(n, "input_embedding"@)
    ||| has_substring(n, "wte"@)
    ||| has_substring(n, "tok_embeddings"@)
    ||| has_substring(n, "embed_tokens"@)
    ||| has_substring(n, "word_embeddings"@)
}

/// Normalization names.
pub open spec fn normalization_pattern(n: Seq<char>) -> bool {
    ||| has_substring(n, "norm"@)
    ||| has_substring(n, "ln_"@)
    ||| has_substring(n, "layer_norm"@)
    ||| has_substring(n, "rms_norm"@)
}

/// The category of a lower-cased name when no model-specific rule applies;
/// the first matching group wins, in this order.
pub open spec fn generic_category(n: Seq<char>) -> LayerCategory {
    if output_head_pattern(n) {
        LayerCategory::OutputHead
    } else if attention_pattern(n) {
        LayerCategory::Attention
    } else if feedforward_pattern(n) {
        LayerCategory::FeedForward
    } else if embedding_pattern(n) {
        LayerCategory::Embedding
    } else if normalization_pattern(n) {
        LayerCategory::Normalization
    } else {
        LayerCategory::Other
    }
}

/// Rules for Qwen models.
pub open spec fn qwen_rule(n: Seq<char>) -> Option<LayerCategory> {
    if has_substring(n, "mlp.gate_proj"@) || has_substring(n, "mlp.up_proj"@) || has_substring(
        n,
        "mlp.down_proj"@,
    ) {
        Some(LayerCategory::FeedForward)
    } else if has_substring(n, "self_attn."@) || has_substring(n, "attn."@) {
        Some(LayerCategory::Attention)
    } else if has_substring(n, "model.embed_tokens"@) || has_substring(n, "transformer.wte"@) {
        Some(LayerCategory::Embedding)
    } else {
        None
    }
}

/// Rules for Llama and Mistral models.
pub open spec fn llama_rule(n: Seq<char>) -> Option<LayerCategory> {
    if has_substring(n, "mlp.gate_proj"@) || has_substring(n, "mlp.up_proj"@) || has_substring(
        n,
        "mlp.down_proj"@,
    ) {
        Some(LayerCategory::FeedForward)
    } else if has_substring(n, "self_attn."@) {
        Some(LayerCategory::Attention)
    } else if has_substring(n, "embed_tokens"@) {
        Some(LayerCategory::Embedding)
    } else {
        None
    }
}

/// Rules for GPT-2, GPT-J and GPT-NeoX models.
pub open spec fn gpt_rule(n: Seq<char>) -> Option<LayerCategory> {
    if has_substring(n, ".attn."@) {
        Some(LayerCategory::Attention)
    } else if has_substring(n, ".mlp."@) {
        Some(LayerCategory::FeedForward)
    } else if has_substring(n, "wte"@) || has_substring(n, "wpe"@) {
        Some(LayerCategory::Embedding)
    } else {
        None
    }
}

/// Rules for BERT-style encoders.
pub open spec fn bert_rule(n: Seq<char>) -> Option<LayerCategory> {
    if has_substring(n, "intermediate.dense"@) || has_substring(n, "output.dense"@) {
        Some(LayerCategory::FeedForward)
    } else if has_substring(n, ".attention."@) {
        Some(LayerCategory::Attention)
    } else if has_substring(n, "embeddings."@) {
        Some(LayerCategory::Embedding)
    } else {
        None
    }
}

/// The model families that the lower-cased model type `mt` names.
pub open spec fn is_qwen(mt: Seq<char>) -> bool {
    has_substring(mt, "qwen"@)
}

pub open spec fn is_llama(mt: Seq<char>) -> bool {
    has_substring(mt, "llama"@) || has_substring(mt, "mistral"@)
}

pub open spec fn is_gpt(mt: Seq<char>) -> bool {
    has_substring(mt, "gpt2"@) || has_substring(mt, "gptj"@) || has_substring(mt, "gpt_neox"@)
}

pub open spec fn is_bert(mt: Seq<char>) -> bool {
    has_substring(mt, "bert"@) || has_substring(mt, "roberta"@) || has_substring(mt, "distilbert"@)
}

/// The first family rule that applies to the lower-cased name `n`, the families
/// being tried in the order Qwen, Llama/Mistral, GPT, BERT.
pub open spec fn family_override(n: Seq<char>, mt: Seq<char>) -> Option<LayerCategory> {
    let q = if is_qwen(mt) {
        qwen_rule(n)
    } else {
        None
    };
    let l = if is_llama(mt) {
        llama_rule(n)
    } else {
        None
    };
    let g = if is_gpt(mt) {
        gpt_rule(n)
    } else {
        None
    };
    let b = if is_bert(mt) {
        bert_rule(n)
    } else {
        None
    };
    if q is Some {
        q
    } else if l is Some {
        l
    } else if g is Some {
        g
    } else {
        b
    }
}

/// The model-specific category of the lower-cased name `n`, if a rule for the
/// model type applies.
pub open spec fn model_override(n: Seq<char>, model_type: Option<Seq<char>>) -> Option<LayerCategory> {
    match model_type {
        None => None,
        Some(mt) => family_override(n, ascii_lower(mt)),
    }
}

/// The category of a tensor: names and model types are compared in ASCII lower
/// case, and a model-specific rule takes precedence over the generic patterns.
pub open spec fn category_of(name: Seq<char>, model_type: Option<Seq<char>>) -> LayerCategory {
    let n = ascii_lower(name);
    match model_override(n, model_type) {
        Some(c) => c,
        None => generic_category(n),
    }
}

/// Classifies a tensor name without knowing the model type.
pub fn classify_tensor(name: &str) -> (r: LayerCategory)
    ensures
        r == category_of(name@, None),
{
    classify_tensor_for_model(name, None)
}

/// Classifies a tensor name, applying the rules of the given model type first.
pub fn classify_tensor_for_model(name: &str, model_type: Option<&str>) -> (r: LayerCategory)
    ensures
        r == category_of(name@, opt_str_view(model_type)),
{
    let n = lowercase_chars(name);
    if let Some(category) = classify_with_model_overrides(&n, model_type) {
        return category;
    }
    if is_output_head(&n) {
        return LayerCategory::OutputHead;
    }
    if is_attention(&n) {
        return LayerCategory::Attention;
    }
    if is_feedforward(&n) {
        return LayerCategory::FeedForward;
    }
    if is_embedding(&n) {
        return LayerCategory::Embedding;
    }
    if is_normalization(&n) {
        return LayerCategory::Normalization;
    }
    LayerCategory::Other
}

fn classify_with_model_overrides(name: &Vec<char>, model_type: Option<&str>) -> (r: Option<
    LayerCategory,
>)
    ensures
        r == model_override(name@, opt_str_view(model_type)),
{
    let mt = match model_type {
        Some(m) => lowercase_chars(m),
        None => {
            return None;
        },
    };
    if contains_str(&mt, "qwen") {
        if contains_str(name, "mlp.gate_proj") || contains_str(name, "mlp.up_proj")
            || contains_str(name, "mlp.down_proj") {
            return Some(LayerCategory::FeedForward);
        }
        if contains_str(name, "self_attn.") || contains_str(name, "attn.") {
            return Some(LayerCategory::Attention);
        }
        if contains_str(name, "model.embed_tokens") || contains_str(name, "transformer.wte") {
            return Some(LayerCategory::Embedding);
        }
    }
    if contains_str(&mt, "llama") || contains_str(&mt, "mistral") {
        if contains_str(name, "mlp.gate_proj") || contains_str(name, "mlp.up_proj")
            || contains_str(name, "mlp.down_proj") {
            return Some(LayerCategory::FeedForward);
        }
        if contains_str(name, "self_attn.") {
            return Some(LayerCategory::Attention);
        }
        if contains_str(name, "embed_tokens") {
            return Some(LayerCategory::Embedding);
        }
    }
    if contains_str(&mt, "gpt2") || contains_str(&mt, "gptj") || contains_str(&mt, "gpt_neox") {
        if contains_str(name, ".attn.") {
            return Some(LayerCategory::Attention);
        }
        if contains_str(name, ".mlp.") {
            return Some(LayerCategory::FeedForward);
        }
        if contains_str(name, "wte") || contains_str(name, "wpe") {
            return Some(LayerCategory::Embedding);
        }
    }
    if contains_str(&mt, "bert") || contains_str(&mt, "roberta") || contains_str(&mt, "distilbert") {
        if contains_str(name, "intermediate.dense") || contains_str(name, "output.dense") {
            return Some(LayerCategory::FeedForward);
        }
        if contains_str(name, ".attention.") {
            return Some(LayerCategory::Attention);
        }
        if contains_str(name, "embeddings.") {
            return Some(LayerCategory::Embedding);
        }
    }
    None
}

fn is_output_head(name: &Vec<char>) -> (r: bool)
    ensures
        r == output_head_pattern(name@),
{
    contains_str(name, "lm_head") || ends_with_str(name, "output.weight") || contains_str(
        name,
        "word_embeddings.weight",
    )
}

fn is_attention(name: &Vec<char>) -> (r: bool)
    ensures
        r == attention_pattern(name@),
{
    contains_str(name, "self_attn") || contains_str(name, "attention") || contains_str(name, ".attn.")
        || contains_str(name, "q_proj") || contains_str(name, "k_proj") || contains_str(name, "v_proj")
        || contains_str(name, "o_proj") || contains_str(name, "query") || contains_str(name, "key")
        || contains_str(name, "value") || contains_str(name, "out_proj")
}

fn is_feedforward(name: &Vec<char>) -> (r: bool)
    ensures
        r == feedforward_pattern(name@),
{
    contains_str(name, "mlp") || contains_str(name, "ffn") || contains_str(name, "gate_proj")
        || contains_str(name, "up_proj") || contains_str(name, "down_proj") || contains_str(name, "wi")
        || contains_str(name, "wo") || contains_str(name, "dense_h_to_4h") || contains_str(
        name,
        "dense_4h_to_h",
    ) || contains_str(name, "experts")
}

fn is_embedding(name: &Vec<char>) -> (r: bool)
    ensures
        r == embedding_pattern(name@),
{
    contains_str(name, "embed") || contains_str(name, "token_emb") || contains_str(name, "tok_emb")
        || contains_str(name, "token_embedding") || contains_str(name, "input_embedding")
        || contains_str(name, "wte") || contains_str(name, "tok_embeddings") || contains_str(
        name,
        "embed_tokens",
    ) || contains_str(name, "word_embeddings")
}

fn is_normalization(name: &Vec<char>) -> (r: bool)
    ensures
        r == normalization_pattern(name@),
{
    contains_str(name, "norm") || contains_str(name, "ln_") || contains_str(name, "layer_norm")
        || contains_str(name, "rms_norm")
}

/// Classification ignores ASCII case in the tensor name: two names that agree
/// once lower-cased fall in the same category, whatever the model type.
pub proof fn classification_ignores_name_case(a: Seq<char>, b: Seq<char>, model_type: Option<Seq<char>>)
    requires
        ascii_lower(a) == ascii_lower(b),
    ensures
        category_of(a, model_type) == category_of(b, model_type),
{
}

/// Classification ignores ASCII case in the model type.
pub proof fn classification_ignores_model_type_case(name: Seq<char>, m1: Seq<char>, m2: Seq<char>)
    requires
        ascii_lower(m1) == ascii_lower(m2),
    ensures
        category_of(name, Some(m1)) == category_of(name, Some(m2)),
{
}

/// A model-specific rule, when one applies, decides the category before any
/// generic pattern is consulted.
pub proof fn model_rules_take_precedence(name: Seq<char>, model_type: Option<Seq<char>>, c: LayerCategory)
    requires
        model_override(ascii_lower(name), model_type) == Some(c),
    ensures
        category_of(name, model_type) == c,
{
}

/// Without a model type no family rule applies, and classification is the
/// generic one.
pub proof fn no_model_type_means_generic(name: Seq<char>)
    ensures
        model_override(ascii_lower(name), None) is None,
        category_of(name, None) == generic_category(ascii_lower(name)),
{
}

/// The generic categories by the words in a tensor's lower-cased name, tried in
/// order: an output head (`lm_head`, ending in `output.weight`, or
/// `word_embeddings.weight`); else attention (`self_attn`, `attention`,
/// `.attn.`, `q_proj`, `k_proj`, `v_proj`, `o_proj`, `query`, `key`, `value`,
/// `out_proj`); else feed-forward (`mlp`, `ffn`, `gate_proj`, `up_proj`,
/// `down_proj`, `wi`, `wo`, `dense_h_to_4h`, `dense_4h_to_h`, `experts`); else
/// embedding (`embed`, `token_emb`, `tok_emb`, `token_embedding`,
/// `input_embedding`, `wte`, `tok_embeddings`, `embed_tokens`,
/// `word_embeddings`); else normalization (`norm`, `ln_`, `layer_norm`,
/// `rms_norm`); else other. This holds whenever no rule of the model's family
/// applies, in particular without a model type.
pub proof fn generic_categories_by_name(name: Seq<char>, model_type: Option<Seq<char>>)
    requires
        model_override(ascii_lower(name), model_type) is None,
    ensures
        ({
            let n = ascii_lower(name);
            let head = has_substring(n, "lm_head"@) || has_suffix(n, "output.weight"@) || has_substring(
                n,
                "word_embeddings.weight"@,
            );
            let attn = has_substring(n, "self_attn"@) || has_substring(n, "attention"@)
                || has_substring(n, ".attn."@) || has_substring(n, "q_proj"@) || has_substring(
                n,
                "k_proj"@,
            ) || has_substring(n, "v_proj"@) || has_substring(n, "o_proj"@) || has_substring(
                n,
                "query"@,
            ) || has_substring(n, "key"@) || has_substring(n, "value"@) || has_substring(
                n,
                "out_proj"@,
            );
            let ffn = has_substring(n, "mlp"@) || has_substring(n, "ffn"@) || has_substring(
                n,
                "gate_proj"@,
            ) || has_substring(n, "up_proj"@) || has_substring(n, "down_proj"@) || has_substring(
                n,
                "wi"@,
            ) || has_substring(n, "wo"@) || has_substring(n, "dense_h_to_4h"@) || has_substring(
                n,
                "dense_4h_to_h"@,
            ) || has_substring(n, "experts"@);
            let emb = has_substring(n, "embed"@) || has_substring(n, "token_emb"@) || has_substring(
                n,
                "tok_emb"@,
            ) || has_substring(n, "token_embedding"@) || has_substring(n, "input_embedding"@)
                || has_substring(n, "wte"@) || has_substring(n, "tok_embeddings"@) || has_substring(
                n,
                "embed_tokens"@,
            ) || has_substring(n, "word_embeddings"@);
            let norm = has_substring(n, "norm"@) || has_substring(n, "ln_"@) || has_substring(
                n,
                "layer_norm"@,
            ) || has_substring(n, "rms_norm"@);
            let c = category_of(name, model_type);
            &&& (c == LayerCategory::OutputHead <==> head)
            &&& (c == LayerCategory::Attention <==> !head && attn)
            &&& (c == LayerCategory::FeedForward <==> !head && !attn && ffn)
            &&& (c == LayerCategory::Embedding <==> !head && !attn && !ffn && emb)
            &&& (c == LayerCategory::Normalization <==> !head && !attn && !ffn && !emb && norm)
            &&& (c == LayerCategory::Other <==> !head && !attn && !ffn && !emb && !norm)
        }),
{
}

/// A layer-norm tensor named with `ln_` (GPT-2's `h.0.ln_1.weight`) that no
/// other group claims is a normalization tensor.
pub proof fn ln_names_are_normalization(name: Seq<char>, model_type: Option<Seq<char>>)
    requires
        model_override(ascii_lower(name), model_type) is None,
        has_substring(ascii_lower(name), "ln_"@),
        !output_head_pattern(ascii_lower(name)),
        !attention_pattern(ascii_lower(name)),
        !feedforward_pattern(ascii_lower(name)),
        !embedding_pattern(ascii_lower(name)),
    ensures
        category_of(name, model_type) == LayerCategory::Normalization,
{
    generic_categories_by_name(name, model_type);
}

/// Whether the lower-cased model type names each family, by the family's own
/// words.
pub open spec fn names_qwen(m: Seq<char>) -> bool {
    has_substring(m, "qwen"@)
}

pub open spec fn names_llama(m: Seq<char>) -> bool {
    has_substring(m, "llama"@) || has_substring(m, "mistral"@)
}

pub open spec fn names_gpt(m: Seq<char>) -> bool {
    has_substring(m, "gpt2"@) || has_substring(m, "gptj"@) || has_substring(m, "gpt_neox"@)
}

pub open spec fn names_bert(m: Seq<char>) -> bool {
    has_substring(m, "bert"@) || has_substring(m, "roberta"@) || has_substring(m, "distilbert"@)
}

/// A model type of no known family (no `qwen`, `llama`, `mistral`, `gpt2`,
/// `gptj`, `gpt_neox`, `bert`, `roberta` in any case) adds no rule: its
/// tensors get the generic categories.
pub proof fn unknown_families_have_no_rules(name: Seq<char>, mt: Seq<char>)
    requires
        !names_qwen(ascii_lower(mt)),
        !names_llama(ascii_lower(mt)),
        !names_gpt(ascii_lower(mt)),
        !names_bert(ascii_lower(mt)),
    ensures
        model_override(ascii_lower(name), Some(mt)) is None,
        category_of(name, Some(mt)) == category_of(name, None),
{
}

/// The rules of a Qwen model: `mlp.gate_proj`, `mlp.up_proj`, `mlp.down_proj`
/// are feed-forward; else `self_attn.` or `attn.` attention; else
/// `model.embed_tokens` or `transformer.wte` embedding.
pub proof fn qwen_rules(name: Seq<char>, mt: Seq<char>)
    requires
        names_qwen(ascii_lower(mt)),
    ensures
        ({
            let n = ascii_lower(name);
            let ff = has_substring(n, "mlp.gate_proj"@) || has_substring(n, "mlp.up_proj"@)
                || has_substring(n, "mlp.down_proj"@);
            let at = has_substring(n, "self_attn."@) || has_substring(n, "attn."@);
            let em = has_substring(n, "model.embed_tokens"@) || has_substring(n, "transformer.wte"@);
            &&& ff ==> category_of(name, Some(mt)) == LayerCategory::FeedForward
            &&& !ff && at ==> category_of(name, Some(mt)) == LayerCategory::Attention
            &&& !ff && !at && em ==> category_of(name, Some(mt)) == LayerCategory::Embedding
        }),
{
}

/// The rules of a Llama or Mistral model (not also Qwen): `mlp.gate_proj`,
/// `mlp.up_proj`, `mlp.down_proj` are feed-forward; else `self_attn.`
/// attention; else `embed_tokens` embedding.
pub proof fn llama_rules(name: Seq<char>, mt: Seq<char>)
    requires
        !names_qwen(ascii_lower(mt)),
        names_llama(ascii_lower(mt)),
    ensures
        ({
            let n = ascii_lower(name);
            let ff = has_substring(n, "mlp.gate_proj"@) || has_substring(n, "mlp.up_proj"@)
                || has_substring(n, "mlp.down_proj"@);
            let at = has_substring(n, "self_attn."@);
            let em = has_substring(n, "embed_tokens"@);
            &&& ff ==> category_of(name, Some(mt)) == LayerCategory::FeedForward
            &&& !ff && at ==> category_of(name, Some(mt)) == LayerCategory::Attention
            &&& !ff && !at && em ==> category_of(name, Some(mt)) == LayerCategory::Embedding
        }),
{
}

/// The rules of a GPT-2, GPT-J or GPT-NeoX model (of no earlier family):
/// `.attn.` is attention; else `.mlp.` feed-forward; else `wte` or `wpe`
/// embedding; anything else, such as `h.0.ln_1.weight`, is classified
/// generically when the model type names no BERT-style family as well.
pub proof fn gpt_rules(name: Seq<char>, mt: Seq<char>)
    requires
        !names_qwen(ascii_lower(mt)),
        !names_llama(ascii_lower(mt)),
        names_gpt(ascii_lower(mt)),
    ensures
        ({
            let n = ascii_lower(name);
            let at = has_substring(n, ".attn."@);
            let ff = has_substring(n, ".mlp."@);
            let em = has_substring(n, "wte"@) || has_substring(n, "wpe"@);
            &&& at ==> category_of(name, Some(mt)) == LayerCategory::Attention
            &&& !at && ff ==> category_of(name, Some(mt)) == LayerCategory::FeedForward
            &&& !at && !ff && em ==> category_of(name, Some(mt)) == LayerCategory::Embedding
            &&& !at && !ff && !em && !names_bert(ascii_lower(mt)) ==> category_of(name, Some(mt))
                == category_of(name, None)
        }),
{
}

/// The rules of a BERT-style model (of no earlier family):
/// `intermediate.dense` or `output.dense` is feed-forward; else `.attention.`
/// attention; else `embeddings.` embedding; anything else is classified
/// generically.
pub proof fn bert_rules(name: Seq<char>, mt: Seq<char>)
    requires
        !names_qwen(ascii_lower(mt)),
        !names_llama(ascii_lower(mt)),
        !names_gpt(ascii_lower(mt)),
        names_bert(ascii_lower(mt)),
    ensures
        ({
            let n = ascii_lower(name);
            let ff = has_substring(n, "intermediate.dense"@) || has_substring(n, "output.dense"@);
            let at = has_substring(n, ".attention."@);
            let em = has_substring(n, "embeddings."@);
            &&& ff ==> category_of(name, Some(mt)) == LayerCategory::FeedForward
            &&& !ff && at ==> category_of(name, Some(mt)) == LayerCategory::Attention
            &&& !ff && !at && em ==> category_of(name, Some(mt)) == LayerCategory::Embedding
            &&& !ff && !at && !em ==> category_of(name, Some(mt)) == category_of(name, None)
        }),
{
}

} // verus!
