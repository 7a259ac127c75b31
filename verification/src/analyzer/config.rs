//! Architecture fields read from a model configuration.
use crate::graph::layer_map::str_views;
use crate::json::{json_count, json_get, json_text, JsonNumber, JsonValue};
use crate::text::owned;
use crate::types::{opt_view, ArchitectureInfo};
use vstd::prelude::*;

verus! {

/// The count stored under the first of `keys` that holds one.
pub open spec fn alias_count(cfg: JsonValue, keys: Seq<Seq<char>>) -> Option<u64>
    decreases keys.len(),
{
    if keys.len() == 0 {
        None
    } else {
        match alias_count(cfg, keys.drop_last()) {
            Some(v) => Some(v),
            None => match json_get(cfg, keys.last()) {
                Some(v) => json_count(v),
                None => None,
            },
        }
    }
}

/// The count stored under `key`, when the configuration holds one there.
pub open spec fn count_under(cfg: JsonValue, key: Seq<char>) -> Option<u64> {
    match json_get(cfg, key) {
        Some(v) => json_count(v),
        None => None,
    }
}

/// `first` when it holds a value, else `second`.
pub open spec fn either(first: Option<u64>, second: Option<u64>) -> Option<u64> {
    match first {
        Some(v) => Some(v),
        None => second,
    }
}

/// The model type: the `model_type` text, else the first entry of
/// `architectures` when it is a text.
pub open spec fn config_model_type(cfg: JsonValue) -> Option<Seq<char>> {
    match json_text(json_get(cfg, "model_type"@)) {
        Some(t) => Some(t),
        None => match json_get(cfg, "architectures"@) {
            Some(JsonValue::Array(items)) => if items@.len() > 0 {
                json_text(Some(items@[0]))
            } else {
                None
            },
            _ => None,
        },
    }
}

/// The keys under which each field may be stored, in order of preference.
pub open spec fn hidden_size_keys() -> Seq<Seq<char>> {
    seq!["hidden_size"@, "n_embd"@, "d_model"@]
}

pub open spec fn layer_count_keys() -> Seq<Seq<char>> {
    seq!["num_hidden_layers"@, "n_layer"@, "num_layers"@]
}

pub open spec fn head_count_keys() -> Seq<Seq<char>> {
    seq!["num_attention_heads"@, "n_head"@]
}

pub open spec fn kv_head_count_keys() -> Seq<Seq<char>> {
    seq!["num_key_value_heads"@, "num_kv_heads"@, "n_head_kv"@]
}

/// Reads the model type, hidden size, layer count, head count and key/value
/// head count from a configuration, each under any of its usual names; the
/// attention kind is left for the tensor analysis to infer.
pub fn architecture_from_config(config: &JsonValue) -> (r: ArchitectureInfo)
    ensures
        opt_view(r.model_type) == config_model_type(*config),
        r.hidden_size == alias_count(*config, hidden_size_keys()),
        r.num_layers == alias_count(*config, layer_count_keys()),
        r.num_heads == alias_count(*config, head_count_keys()),
        r.num_key_value_heads == alias_count(*config, kv_head_count_keys()),
        r.attention_type is None,
        r.hidden_size == either(
            count_under(*config, "hidden_size"@),
            either(count_under(*config, "n_embd"@), count_under(*config, "d_model"@)),
        ),
        r.num_layers == either(
            count_under(*config, "num_hidden_layers"@),
            either(count_under(*config, "n_layer"@), count_under(*config, "num_layers"@)),
        ),
        r.num_heads == either(
            count_under(*config, "num_attention_heads"@),
            count_under(*config, "n_head"@),
        ),
        r.num_key_value_heads == either(
            count_under(*config, "num_key_value_heads"@),
            either(count_under(*config, "num_kv_heads"@), count_under(*config, "n_head_kv"@)),
        ),
{
    proof {
        config_fields_follow_their_names(*config);
    }
    let direct = match config.get("model_type") {
        Some(v) => v.as_str(),
        None => None,
    };
    let model_type: Option<String> = match direct {
        Some(t) => Some(owned(t)),
        None => match config.get("architectures") {
            Some(JsonValue::Array(items)) => if items.len() > 0 {
                match items[0].as_str() {
                    Some(t) => Some(owned(t)),
                    None => None,
                }
            } else {
                None
            },
            _ => None,
        },
    };
    let hidden_keys = vec!["hidden_size", "n_embd", "d_model"];
    let layer_keys = vec!["num_hidden_layers", "n_layer", "num_layers"];
    let head_keys = vec!["num_attention_heads", "n_head"];
    let kv_keys = vec!["num_key_value_heads", "num_kv_heads", "n_head_kv"];
    assert(str_views(hidden_keys@) =~= hidden_size_keys());
    assert(str_views(layer_keys@) =~= layer_count_keys());
    assert(str_views(head_keys@) =~= head_count_keys());
    assert(str_views(kv_keys@) =~= kv_head_count_keys());
    let hidden_size = get_u64_alias(config, &hidden_keys);
    let num_layers = get_u64_alias(config, &layer_keys);
    let num_heads = get_u64_alias(config, &head_keys);
    let num_key_value_heads = get_u64_alias(config, &kv_keys);
    ArchitectureInfo {
        model_type,
        hidden_size,
        num_layers,
        num_heads,
        num_key_value_heads,
        attention_type: None,
    }
}

/// The count stored under the first of `keys` that holds one.
fn get_u64_alias(value: &JsonValue, keys: &Vec<&str>) -> (r: Option<u64>)
    ensures
        r == alias_count(*value, str_views(keys@)),
{
    let ghost kv = str_views(keys@);
    let mut i: usize = 0;
    while i < keys.len()
        invariant
            i <= keys.len(),
            kv == str_views(keys@),
            alias_count(*value, kv.take(i as int)) is None,
        decreases keys.len() - i,
    {
        proof {
            assert(kv.take(i + 1).drop_last() =~= kv.take(i as int));
        }
        let found = match value.get(keys[i]) {
            Some(v) => value_to_u64(v),
            None => None,
        };
        if found.is_some() {
            proof {
                lemma_alias_prefix(*value, kv, i as int + 1);
            }
            return found;
        }
        i += 1;
    }
    assert(kv.take(keys.len() as int) =~= kv);
    None
}

proof fn lemma_alias_prefix(cfg: JsonValue, keys: Seq<Seq<char>>, k: int)
    requires
        0 <= k <= keys.len(),
        alias_count(cfg, keys.take(k)) is Some,
    ensures
        alias_count(cfg, keys) == alias_count(cfg, keys.take(k)),
    decreases keys.len() - k,
{
    if k < keys.len() {
        assert(keys.take(k + 1).drop_last() =~= keys.take(k));
        lemma_alias_prefix(cfg, keys, k + 1);
    } else {
        assert(keys.take(k) =~= keys);
    }
}

/// A number read as a count (see `json_count`).
fn value_to_u64(value: &JsonValue) -> (r: Option<u64>)
    ensures
        r == json_count(*value),
{
    match value {
        JsonValue::Number(JsonNumber::PosInt(u)) => Some(*u),
        JsonValue::Number(JsonNumber::NegInt(i)) => if *i >= 0 {
            Some(*i as u64)
        } else {
            None
        },
        JsonValue::Number(JsonNumber::Real(r)) => r.whole,
        _ => None,
    }
}

/// The first key that holds a count decides, even when later keys hold others.
pub proof fn first_alias_wins(cfg: JsonValue, keys: Seq<Seq<char>>, i: int)
    requires
        0 <= i < keys.len(),
        forall|j: int| 0 <= j < i ==> alias_count(cfg, seq![#[trigger] keys[j]]) is None,
        alias_count(cfg, seq![keys[i]]) is Some,
    ensures
        alias_count(cfg, keys) == alias_count(cfg, seq![keys[i]]),
    decreases keys.len(),
{
    if i < keys.len() - 1 {
        assert forall|j: int| 0 <= j < i implies alias_count(cfg, seq![#[trigger] keys.drop_last()[j]]) is None by {
            assert(keys.drop_last()[j] == keys[j]);
        }
        assert(keys.drop_last()[i] == keys[i]);
        first_alias_wins(cfg, keys.drop_last(), i);
        assert(alias_count(cfg, keys.drop_last()) is Some);
    } else {
        lemma_alias_none_before(cfg, keys.drop_last());
        assert(seq![keys[i]].drop_last() =~= Seq::<Seq<char>>::empty());
        assert(seq![keys[i]].last() == keys[i]);
        assert(keys.last() == keys[i]);
        assert(alias_count(cfg, Seq::<Seq<char>>::empty()) is None);
    }
}

proof fn lemma_alias_none_before(cfg: JsonValue, keys: Seq<Seq<char>>)
    requires
        forall|j: int| 0 <= j < keys.len() ==> alias_count(cfg, seq![#[trigger] keys[j]]) is None,
    ensures
        alias_count(cfg, keys) is None,
    decreases keys.len(),
{
    if keys.len() > 0 {
        assert forall|j: int| 0 <= j < keys.len() - 1 implies alias_count(cfg, seq![#[trigger] keys.drop_last()[j]]) is None by {
            assert(keys.drop_last()[j] == keys[j]);
        }
        lemma_alias_none_before(cfg, keys.drop_last());
        let last = keys[keys.len() - 1];
        assert(alias_count(cfg, seq![last]) is None);
        assert(seq![last].drop_last() =~= Seq::<Seq<char>>::empty());
        assert(alias_count(cfg, Seq::<Seq<char>>::empty()) is None);
    }
}

/// Each architecture field is the count under the first of its names that
/// holds one: the hidden size under `hidden_size`, then `n_embd`, then
/// `d_model`; the layer count under `num_hidden_layers`, then `n_layer`, then
/// `num_layers`; the head count under `num_attention_heads`, then `n_head`;
/// the key/value head count under `num_key_value_heads`, then `num_kv_heads`,
/// then `n_head_kv`.
pub proof fn config_fields_follow_their_names(cfg: JsonValue)
    ensures
        alias_count(cfg, hidden_size_keys()) == either(
            count_under(cfg, "hidden_size"@),
            either(count_under(cfg, "n_embd"@), count_under(cfg, "d_model"@)),
        ),
        alias_count(cfg, layer_count_keys()) == either(
            count_under(cfg, "num_hidden_layers"@),
            either(count_under(cfg, "n_layer"@), count_under(cfg, "num_layers"@)),
        ),
        alias_count(cfg, head_count_keys()) == either(
            count_under(cfg, "num_attention_heads"@),
            count_under(cfg, "n_head"@),
        ),
        alias_count(cfg, kv_head_count_keys()) == either(
            count_under(cfg, "num_key_value_heads"@),
            either(count_under(cfg, "num_kv_heads"@), count_under(cfg, "n_head_kv"@)),
        ),
{
    lemma_three_names(cfg, "hidden_size"@, "n_embd"@, "d_model"@);
    lemma_three_names(cfg, "num_hidden_layers"@, "n_layer"@, "num_layers"@);
    lemma_two_names(cfg, "num_attention_heads"@, "n_head"@);
    lemma_three_names(cfg, "num_key_value_heads"@, "num_kv_heads"@, "n_head_kv"@);
}

proof fn lemma_two_names(cfg: JsonValue, a: Seq<char>, b: Seq<char>)
    ensures
        alias_count(cfg, seq![a, b]) == either(count_under(cfg, a), count_under(cfg, b)),
{
    assert(seq![a, b].drop_last() =~= seq![a]);
    assert(seq![a].drop_last() =~= Seq::<Seq<char>>::empty());
    reveal_with_fuel(alias_count, 3);
}

proof fn lemma_three_names(cfg: JsonValue, a: Seq<char>, b: Seq<char>, c: Seq<char>)
    ensures
        alias_count(cfg, seq![a, b, c]) == either(
            count_under(cfg, a),
            either(count_under(cfg, b), count_under(cfg, c)),
        ),
{
    assert(seq![a, b, c].drop_last() =~= seq![a, b]);
    lemma_two_names(cfg, a, b);
}

} // verus!
