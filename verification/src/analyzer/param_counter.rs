//! Parameter counting, per-category totals and attention-layout inference.
use crate::analyzer::classifier::{category_of, classify_tensor_for_model};
use crate::analyzer::safetensor::TensorMetaRaw;
use crate::text::{ascii_lower, contains_str, has_substring, lowercase_chars, owned};
use crate::types::{
    opt_as_str, opt_str_view, opt_view, ArchitectureInfo, AttentionInfo, CategoryTotals, LayerCategory, ParamStats,
    TensorMeta,
};
use vstd::prelude::*;

verus! {

// ---------------------------------------------------------------------------
// Parameter counts
// ---------------------------------------------------------------------------
/// The product of the dimensions of a shape (1 for a scalar).
pub open spec fn shape_product(s: Seq<u64>) -> nat
    decreases s.len(),
{
    if s.len() == 0 {
        1
    } else {
        shape_product(s.drop_last()) * (s.last() as nat)
    }
}

/// `x`, clamped to the largest `u64`.
pub open spec fn saturate(x: nat) -> nat {
    if x > u64::MAX {
        u64::MAX as nat
    } else {
        x
    }
}

/// The parameter count of a tensor of the given shape, clamped to `u64`.
pub open spec fn param_count_of(s: Seq<u64>) -> nat {
    saturate(shape_product(s))
}

/// A tensor's name in ASCII lower case.
pub open spec fn lname(t: TensorMetaRaw) -> Seq<char> {
    ascii_lower(t.name@)
}

/// The total parameter count of the tensors of `ts` that satisfy `p` (not clamped).
pub open spec fn sum_where(ts: Seq<TensorMetaRaw>, p: spec_fn(TensorMetaRaw) -> bool) -> nat
    decreases ts.len(),
{
    if ts.len() == 0 {
        0
    } else {
        sum_where(ts.drop_last(), p) + if p(ts.last()) {
            param_count_of(ts.last().shape@)
        } else {
            0
        }
    }
}

/// Tensors of the category `c` under the model type `mt`.
pub open spec fn in_category(mt: Option<Seq<char>>, c: LayerCategory) -> spec_fn(TensorMetaRaw) -> bool {
    |t: TensorMetaRaw| category_of(t.name@, mt) == c
}

/// Tensors that are not part of the output head under the model type `mt`.
pub open spec fn outside_head(mt: Option<Seq<char>>) -> spec_fn(TensorMetaRaw) -> bool {
    |t: TensorMetaRaw| category_of(t.name@, mt) != LayerCategory::OutputHead
}

/// Every tensor.
pub open spec fn any_tensor() -> spec_fn(TensorMetaRaw) -> bool {
    |t: TensorMetaRaw| true
}

/// Tensors whose lower-cased name contains `a` or `b`.
pub open spec fn named(a: Seq<char>, b: Seq<char>) -> spec_fn(TensorMetaRaw) -> bool {
    |t: TensorMetaRaw| has_substring(lname(t), a) || has_substring(lname(t), b)
}

/// Query projections.
pub open spec fn q_proj_named() -> spec_fn(TensorMetaRaw) -> bool {
    named("q_proj"@, "query"@)
}

/// Key projections.
pub open spec fn k_proj_named() -> spec_fn(TensorMetaRaw) -> bool {
    named("k_proj"@, "key"@)
}

/// Value projections.
pub open spec fn v_proj_named() -> spec_fn(TensorMetaRaw) -> bool {
    named("v_proj"@, "value"@)
}

/// Output projections.
pub open spec fn o_proj_named() -> spec_fn(TensorMetaRaw) -> bool {
    named("o_proj"@, "out_proj"@)
}

/// The shapes of the tensors of `ts` that satisfy `p`, in order.
pub open spec fn shapes_where(ts: Seq<TensorMetaRaw>, p: spec_fn(TensorMetaRaw) -> bool) -> Seq<Seq<u64>>
    decreases ts.len(),
{
    if ts.len() == 0 {
        Seq::empty()
    } else {
        shapes_where(ts.drop_last(), p) + if p(ts.last()) {
            seq![ts.last().shape@]
        } else {
            Seq::empty()
        }
    }
}

/// A tensor that carries per-head query scales.
pub open spec fn is_q_scale(t: TensorMetaRaw) -> bool {
    has_substring(lname(t), "q_scale"@) && t.shape@.len() > 0
}

/// The leading dimension of the first query-scale tensor of `ts`.
pub open spec fn first_q_scale(ts: Seq<TensorMetaRaw>) -> Option<u64>
    decreases ts.len(),
{
    if ts.len() == 0 {
        None
    } else {
        let f = first_q_scale(ts.drop_last());
        if f is Some {
            f
        } else if is_q_scale(ts.last()) {
            Some(ts.last().shape@[0])
        } else {
            None
        }
    }
}

/// The views of a sequence of vectors.
pub open spec fn vec_views(v: Seq<Vec<u64>>) -> Seq<Seq<u64>> {
    v.map_values(|x: Vec<u64>| x@)
}

// ---------------------------------------------------------------------------
// Hidden size and key/value heads inferred from shapes
// ---------------------------------------------------------------------------
/// A square, non-empty projection: its first dimension is the hidden size.
pub open spec fn square_shape(s: Seq<u64>) -> bool {
    s.len() >= 2 && s[0] == s[1] && s[0] > 0
}

/// A projection whose second dimension is a usable hidden size.
pub open spec fn wide_shape(s: Seq<u64>) -> bool {
    s.len() >= 2 && s[1] > 0
}

/// The first dimension of the first square shape.
pub open spec fn first_square(ss: Seq<Seq<u64>>) -> Option<u64>
    decreases ss.len(),
{
    if ss.len() == 0 {
        None
    } else {
        let f = first_square(ss.drop_last());
        if f is Some {
            f
        } else if square_shape(ss.last()) {
            Some(ss.last()[0])
        } else {
            None
        }
    }
}

/// The second dimension of the first wide shape.
pub open spec fn first_wide(ss: Seq<Seq<u64>>) -> Option<u64>
    decreases ss.len(),
{
    if ss.len() == 0 {
        None
    } else {
        let f = first_wide(ss.drop_last());
        if f is Some {
            f
        } else if wide_shape(ss.last()) {
            Some(ss.last()[1])
        } else {
            None
        }
    }
}

/// `a` if present, else `b`.
pub open spec fn or_else(a: Option<u64>, b: Option<u64>) -> Option<u64> {
    if a is Some {
        a
    } else {
        b
    }
}

/// The hidden size read off the projection shapes: a square output projection
/// first, else the second dimension of a query projection.
pub open spec fn inferred_hidden_size(q_shapes: Seq<Seq<u64>>, o_shapes: Seq<Seq<u64>>) -> Option<u64> {
    or_else(first_square(o_shapes), first_wide(q_shapes))
}

/// A dimension that is a positive multiple of the head size, giving at most
/// `nh` heads.
pub open spec fn kv_dim(d: u64, hd: u64, nh: u64) -> bool {
    d >= hd && d % hd == 0 && d / hd > 0 && d / hd <= nh
}

/// The key/value head counts suggested by the dimensions of one shape.
pub open spec fn dim_candidates(dims: Seq<u64>, hd: u64, nh: u64) -> Seq<u64>
    decreases dims.len(),
{
    if dims.len() == 0 {
        Seq::empty()
    } else {
        dim_candidates(dims.drop_last(), hd, nh) + if kv_dim(dims.last(), hd, nh) {
            seq![(dims.last() / hd) as u64]
        } else {
            Seq::empty()
        }
    }
}

/// The key/value head counts suggested by all key-projection shapes.
pub open spec fn kv_candidates(ss: Seq<Seq<u64>>, hd: u64, nh: u64) -> Seq<u64>
    decreases ss.len(),
{
    if ss.len() == 0 {
        Seq::empty()
    } else {
        kv_candidates(ss.drop_last(), hd, nh) + dim_candidates(ss.last(), hd, nh)
    }
}

/// How often `v` occurs in `s`.
pub open spec fn count_of(s: Seq<u64>, v: u64) -> nat
    decreases s.len(),
{
    if s.len() == 0 {
        0
    } else {
        count_of(s.drop_last(), v) + if s.last() == v {
            1nat
        } else {
            0nat
        }
    }
}

/// `v` occurs in `s` as often as any other value, and is the smallest such value.
pub open spec fn is_smallest_mode(s: Seq<u64>, v: u64) -> bool {
    &&& s.contains(v)
    &&& forall|w: u64|
        s.contains(w) ==> (count_of(s, w) < count_of(s, v) || (count_of(s, w) == count_of(s, v) && v
            <= w))
}

/// The smallest most frequent value of `s`, if `s` is not empty.
pub open spec fn smallest_mode(s: Seq<u64>) -> Option<u64> {
    if exists|v: u64| is_smallest_mode(s, v) {
        Some(choose|v: u64| is_smallest_mode(s, v))
    } else {
        None
    }
}

/// The key/value head count that the key-projection shapes suggest most often.
pub open spec fn inferred_kv_heads(k_shapes: Seq<Seq<u64>>, hd: u64, nh: u64) -> Option<u64> {
    if hd == 0 || nh == 0 {
        None
    } else {
        smallest_mode(kv_candidates(k_shapes, hd, nh))
    }
}

// ---------------------------------------------------------------------------
// The attention layout of a model
// ---------------------------------------------------------------------------
/// Keeps a positive value only.
pub open spec fn positive(o: Option<u64>) -> Option<u64> {
    match o {
        Some(v) => if v > 0 {
            Some(v)
        } else {
            None
        },
        None => None,
    }
}

/// The number of attention heads: from the configuration, else from the first
/// query-scale tensor.
pub open spec fn heads_of(ts: Seq<TensorMetaRaw>, arch: ArchitectureInfo) -> Option<u64> {
    or_else(positive(arch.num_heads), positive(first_q_scale(ts)))
}

/// The hidden size: from the configuration, else from the projection shapes.
pub open spec fn hidden_of(ts: Seq<TensorMetaRaw>, arch: ArchitectureInfo) -> Option<u64> {
    or_else(
        arch.hidden_size,
        inferred_hidden_size(shapes_where(ts, q_proj_named()), shapes_where(ts, o_proj_named())),
    )
}

/// The size of one head, when the hidden size divides evenly among the heads.
pub open spec fn head_dim_of(ts: Seq<TensorMetaRaw>, arch: ArchitectureInfo) -> Option<u64> {
    match (hidden_of(ts, arch), heads_of(ts, arch)) {
        (Some(h), Some(n)) => if n > 0 && h % n == 0 {
            Some((h / n) as u64)
        } else {
            None
        },
        _ => None,
    }
}

/// The number of key/value heads: from the configuration, else inferred from
/// the key-projection shapes; only known when the head size is.
pub open spec fn kv_heads_of(ts: Seq<TensorMetaRaw>, arch: ArchitectureInfo) -> Option<u64> {
    match head_dim_of(ts, arch) {
        Some(hd) => or_else(
            positive(arch.num_key_value_heads),
            inferred_kv_heads(shapes_where(ts, k_proj_named()), hd, heads_of(ts, arch)->0),
        ),
        None => None,
    }
}

/// The attention kind for `kv` key/value heads and `nh` query heads.
pub open spec fn attention_label(kv: u64, nh: u64) -> Seq<char> {
    if kv == nh {
        "MHA"@
    } else if kv == 1 {
        "MQA"@
    } else if kv < nh {
        "GQA"@
    } else {
        "UNKNOWN"@
    }
}

/// The attention kind of a model, when its key/value heads are known.
pub open spec fn attention_type_of(ts: Seq<TensorMetaRaw>, arch: ArchitectureInfo) -> Option<Seq<char>> {
    match kv_heads_of(ts, arch) {
        Some(kv) => Some(attention_label(kv, heads_of(ts, arch)->0)),
        None => None,
    }
}

/// `m` describes the raw tensor `t` under the model type `mt`.
pub open spec fn describes(m: TensorMeta, t: TensorMetaRaw, mt: Option<Seq<char>>) -> bool {
    &&& m.name@ == t.name@
    &&& m.shape@ == t.shape@
    &&& m.dtype@ == t.dtype@
    &&& m.data_offsets == t.data_offsets
    &&& m.param_count == param_count_of(t.shape@)
    &&& m.category == category_of(t.name@, mt)
}

/// The clamped total of the tensors of category `c`.
pub open spec fn category_total(ts: Seq<TensorMetaRaw>, mt: Option<Seq<char>>, c: LayerCategory) -> nat {
    saturate(sum_where(ts, in_category(mt, c)))
}

/// `totals` holds the clamped per-category totals of `ts`.
pub open spec fn totals_of(totals: CategoryTotals, ts: Seq<TensorMetaRaw>, mt: Option<Seq<char>>) -> bool {
    &&& totals.attention == category_total(ts, mt, LayerCategory::Attention)
    &&& totals.feedforward == category_total(ts, mt, LayerCategory::FeedForward)
    &&& totals.embedding == category_total(ts, mt, LayerCategory::Embedding)
    &&& totals.normalization == category_total(ts, mt, LayerCategory::Normalization)
    &&& totals.output_head == category_total(ts, mt, LayerCategory::OutputHead)
    &&& totals.other == category_total(ts, mt, LayerCategory::Other)
}

// ---------------------------------------------------------------------------
// Lemmas
// ---------------------------------------------------------------------------
proof fn lemma_sum_where_step(ts: Seq<TensorMetaRaw>, i: int, p: spec_fn(TensorMetaRaw) -> bool)
    requires
        0 <= i < ts.len(),
    ensures
        sum_where(ts.take(i + 1), p) == sum_where(ts.take(i), p) + if p(ts[i]) {
            param_count_of(ts[i].shape@)
        } else {
            0
        },
{
    assert(ts.take(i + 1).drop_last() =~= ts.take(i));
}

proof fn lemma_shapes_where_step(ts: Seq<TensorMetaRaw>, i: int, p: spec_fn(TensorMetaRaw) -> bool)
    requires
        0 <= i < ts.len(),
    ensures
        shapes_where(ts.take(i + 1), p) == shapes_where(ts.take(i), p) + if p(ts[i]) {
            seq![ts[i].shape@]
        } else {
            Seq::empty()
        },
{
    assert(ts.take(i + 1).drop_last() =~= ts.take(i));
}

proof fn lemma_first_q_scale_step(ts: Seq<TensorMetaRaw>, i: int)
    requires
        0 <= i < ts.len(),
    ensures
        first_q_scale(ts.take(i + 1)) == if first_q_scale(ts.take(i)) is Some {
            first_q_scale(ts.take(i))
        } else if is_q_scale(ts[i]) {
            Some(ts[i].shape@[0])
        } else {
            None
        },
{
    assert(ts.take(i + 1).drop_last() =~= ts.take(i));
}

proof fn lemma_saturating_step(a: nat, b: nat)
    requires
        b <= u64::MAX,
    ensures
        saturate(a + b) == if saturate(a) + b > u64::MAX {
            u64::MAX as nat
        } else {
            saturate(a) + b
        },
{
}

proof fn lemma_count_of_bound(s: Seq<u64>, v: u64)
    ensures
        count_of(s, v) <= s.len(),
    decreases s.len(),
{
    if s.len() > 0 {
        lemma_count_of_bound(s.drop_last(), v);
    }
}

proof fn lemma_smallest_mode_unique(s: Seq<u64>, a: u64, b: u64)
    requires
        is_smallest_mode(s, a),
        is_smallest_mode(s, b),
    ensures
        a == b,
{
    assert(s.contains(b));
    assert(s.contains(a));
}

proof fn lemma_smallest_mode_of(s: Seq<u64>, v: u64)
    requires
        is_smallest_mode(s, v),
    ensures
        smallest_mode(s) == Some(v),
{
    let w = choose|w: u64| is_smallest_mode(s, w);
    lemma_smallest_mode_unique(s, v, w);
}

proof fn lemma_smallest_mode_empty(s: Seq<u64>)
    requires
        s.len() == 0,
    ensures
        smallest_mode(s) is None,
{
    assert forall|v: u64| !is_smallest_mode(s, v) by {
        if s.contains(v) {
            let i = choose|i: int| 0 <= i < s.len() && s[i] == v;
        }
    }
}

/// The saturating product of a shape, computed one dimension at a time, equals
/// the clamped exact product.
proof fn lemma_clamped_mul(p: nat, d: nat, m: nat)
    requires
        m > 0,
    ensures
        (if p > m { m } else { p }) * d > m ==> (if p * d > m { m } else { p * d }) == m,
        (if p > m { m } else { p }) * d <= m ==> (if p * d > m { m } else { p * d }) == (if p > m {
            m
        } else {
            p
        }) * d,
{
    if p > m {
        if d >= 1 {
            assert(p * d >= p) by (nonlinear_arith)
                requires
                    d >= 1,
            ;
            assert(m * d >= m) by (nonlinear_arith)
                requires
                    d >= 1,
            ;
        } else {
            assert(d == 0);
            assert(p * d == 0) by (nonlinear_arith)
                requires
                    d == 0,
            ;
            assert(m * d == 0) by (nonlinear_arith)
                requires
                    d == 0,
            ;
        }
    }
}

// ---------------------------------------------------------------------------
// Executable code
// ---------------------------------------------------------------------------
/// The number of parameters of a tensor of the given shape: the product of its
/// dimensions (1 for a scalar), clamped to `u64::MAX`.
pub fn param_count_from_shape(shape: &[u64]) -> (r: u64)
    ensures
        r == param_count_of(shape@),
{
    let mut product: u128 = 1;
    let mut i: usize = 0;
    while i < shape.len()
        invariant
            i <= shape.len(),
            product == if shape_product(shape@.take(i as int)) > u128::MAX {
                u128::MAX as nat
            } else {
                shape_product(shape@.take(i as int))
            },
        decreases shape.len() - i,
    {
        let d = shape[i];
        proof {
            assert(shape@.take(i + 1).drop_last() =~= shape@.take(i as int));
            lemma_clamped_mul(shape_product(shape@.take(i as int)), d as nat, u128::MAX as nat);
        }
        product = match product.checked_mul(d as u128) {
            Some(p) => p,
            None => u128::MAX,
        };
        i += 1;
    }
    assert(shape@.take(shape.len() as int) =~= shape@);
    if product > u64::MAX as u128 {
        u64::MAX
    } else {
        product as u64
    }
}

fn first_square_exec(shapes: &Vec<Vec<u64>>) -> (r: Option<u64>)
    ensures
        r == first_square(vec_views(shapes@)),
{
    let mut i: usize = 0;
    while i < shapes.len()
        invariant
            i <= shapes.len(),
            first_square(vec_views(shapes@).take(i as int)) is None,
        decreases shapes.len() - i,
    {
        proof {
            assert(vec_views(shapes@).take(i + 1).drop_last() =~= vec_views(shapes@).take(i as int));
        }
        let shape = &shapes[i];
        if shape.len() >= 2 && shape[0] == shape[1] && shape[0] > 0 {
            proof {
                lemma_first_square_prefix(vec_views(shapes@), i as int + 1);
            }
            return Some(shape[0]);
        }
        i += 1;
    }
    assert(vec_views(shapes@).take(shapes.len() as int) =~= vec_views(shapes@));
    None
}

fn first_wide_exec(shapes: &Vec<Vec<u64>>) -> (r: Option<u64>)
    ensures
        r == first_wide(vec_views(shapes@)),
{
    let mut i: usize = 0;
    while i < shapes.len()
        invariant
            i <= shapes.len(),
            first_wide(vec_views(shapes@).take(i as int)) is None,
        decreases shapes.len() - i,
    {
        proof {
            assert(vec_views(shapes@).take(i + 1).drop_last() =~= vec_views(shapes@).take(i as int));
        }
        let shape = &shapes[i];
        if shape.len() >= 2 && shape[1] > 0 {
            proof {
                lemma_first_wide_prefix(vec_views(shapes@), i as int + 1);
            }
            return Some(shape[1]);
        }
        i += 1;
    }
    assert(vec_views(shapes@).take(shapes.len() as int) =~= vec_views(shapes@));
    None
}

/// Once found in a prefix, the first square shape stays the first one.
proof fn lemma_first_square_prefix(ss: Seq<Seq<u64>>, k: int)
    requires
        0 <= k <= ss.len(),
        first_square(ss.take(k)) is Some,
    ensures
        first_square(ss) == first_square(ss.take(k)),
    decreases ss.len() - k,
{
    if k < ss.len() {
        assert(ss.take(k + 1).drop_last() =~= ss.take(k));
        lemma_first_square_prefix(ss, k + 1);
    } else {
        assert(ss.take(k) =~= ss);
    }
}

/// Once found in a prefix, the first wide shape stays the first one.
proof fn lemma_first_wide_prefix(ss: Seq<Seq<u64>>, k: int)
    requires
        0 <= k <= ss.len(),
        first_wide(ss.take(k)) is Some,
    ensures
        first_wide(ss) == first_wide(ss.take(k)),
    decreases ss.len() - k,
{
    if k < ss.len() {
        assert(ss.take(k + 1).drop_last() =~= ss.take(k));
        lemma_first_wide_prefix(ss, k + 1);
    } else {
        assert(ss.take(k) =~= ss);
    }
}

/// The hidden size suggested by the projection shapes: the first square output
/// projection, else the second dimension of the first query projection that has one.
fn infer_hidden_size_from_projections(q_proj_shapes: &Vec<Vec<u64>>, o_proj_shapes: &Vec<Vec<u64>>) -> (r:
    Option<u64>)
    ensures
        r == inferred_hidden_size(vec_views(q_proj_shapes@), vec_views(o_proj_shapes@)),
{
    match first_square_exec(o_proj_shapes) {
        Some(h) => Some(h),
        None => first_wide_exec(q_proj_shapes),
    }
}

fn count_occurrences(values: &Vec<u64>, v: u64) -> (r: usize)
    ensures
        r == count_of(values@, v),
{
    let mut n: usize = 0;
    let mut i: usize = 0;
    while i < values.len()
        invariant
            i <= values.len(),
            n == count_of(values@.take(i as int), v),
            n <= i,
        decreases values.len() - i,
    {
        proof {
            assert(values@.take(i + 1).drop_last() =~= values@.take(i as int));
        }
        if values[i] == v {
            n += 1;
        }
        i += 1;
    }
    assert(values@.take(values.len() as int) =~= values@);
    n
}

/// The key/value head count that the key-projection shapes suggest most often
/// (the smallest such count on a tie); `None` when no dimension is a positive
/// multiple of the head size giving at most `num_heads` heads.
fn infer_kv_heads_from_k_shapes(k_proj_shapes: &Vec<Vec<u64>>, head_dim: u64, num_heads: u64) -> (r:
    Option<u64>)
    ensures
        r == inferred_kv_heads(vec_views(k_proj_shapes@), head_dim, num_heads),
{
    if head_dim == 0 || num_heads == 0 {
        return None;
    }
    let ghost views = vec_views(k_proj_shapes@);
    let mut candidates: Vec<u64> = Vec::new();
    let mut i: usize = 0;
    while i < k_proj_shapes.len()
        invariant
            i <= k_proj_shapes.len(),
            head_dim > 0,
            views == vec_views(k_proj_shapes@),
            candidates@ == kv_candidates(views.take(i as int), head_dim, num_heads),
        decreases k_proj_shapes.len() - i,
    {
        let shape = &k_proj_shapes[i];
        let mut j: usize = 0;
        while j < shape.len()
            invariant
                i < k_proj_shapes.len(),
                j <= shape.len(),
                head_dim > 0,
                *shape == k_proj_shapes@[i as int],
                views == vec_views(k_proj_shapes@),
                candidates@ == kv_candidates(views.take(i as int), head_dim, num_heads) + dim_candidates(
                    shape@.take(j as int),
                    head_dim,
                    num_heads,
                ),
            decreases shape.len() - j,
        {
            let dim = shape[j];
            proof {
                assert(shape@.take(j + 1).drop_last() =~= shape@.take(j as int));
            }
            if dim >= head_dim && dim % head_dim == 0 {
                let kv = dim / head_dim;
                if kv > 0 && kv <= num_heads {
                    candidates.push(kv);
                }
            }
            proof {
                let pre = kv_candidates(views.take(i as int), head_dim, num_heads);
                assert(candidates@ =~= pre + dim_candidates(shape@.take(j + 1), head_dim, num_heads));
            }
            j += 1;
        }
        proof {
            assert(shape@.take(shape.len() as int) =~= shape@);
            assert(views.take(i + 1).drop_last() =~= views.take(i as int));
            assert(views[i as int] == shape@);
        }
        i += 1;
    }
    proof {
        assert(views.take(k_proj_shapes.len() as int) =~= views);
    }
    if candidates.len() == 0 {
        proof {
            lemma_smallest_mode_empty(candidates@);
        }
        return None;
    }
    let mut best = candidates[0];
    let mut best_count = count_occurrences(&candidates, best);
    let mut k: usize = 1;
    while k < candidates.len()
        invariant
            1 <= k <= candidates.len(),
            candidates@.contains(best),
            best_count == count_of(candidates@, best),
            forall|m: int|
                0 <= m < k ==> (count_of(candidates@, #[trigger] candidates@[m]) < best_count || (
                count_of(candidates@, candidates@[m]) == best_count && best <= candidates@[m])),
        decreases candidates.len() - k,
    {
        let v = candidates[k];
        let c = count_occurrences(&candidates, v);
        if c > best_count || (c == best_count && v < best) {
            best = v;
            best_count = c;
        }
        k += 1;
    }
    proof {
        assert forall|w: u64| candidates@.contains(w) implies (count_of(candidates@, w) < count_of(
            candidates@,
            best,
        ) || (count_of(candidates@, w) == count_of(candidates@, best) && best <= w)) by {
            let m = choose|m: int| 0 <= m < candidates@.len() && candidates@[m] == w;
            assert(candidates@[m] == w);
        }
        lemma_smallest_mode_of(candidates@, best);
    }
    Some(best)
}

/// The attention kind for `kv` key/value heads and `num_heads` query heads.
fn attention_kind(kv: u64, num_heads: u64) -> (r: String)
    ensures
        r@ == attention_label(kv, num_heads),
{
    if kv == num_heads {
        owned("MHA")
    } else if kv == 1 {
        owned("MQA")
    } else if kv < num_heads {
        owned("GQA")
    } else {
        owned("UNKNOWN")
    }
}

fn keep_positive(o: Option<u64>) -> (r: Option<u64>)
    ensures
        r == positive(o),
{
    match o {
        Some(v) => if v > 0 {
            Some(v)
        } else {
            None
        },
        None => None,
    }
}


fn add_to_totals(totals: &mut CategoryTotals, category: LayerCategory, amount: u64)
    ensures
        final(totals).attention == if category == LayerCategory::Attention {
            old(totals).attention.saturating_add(amount)
        } else {
            old(totals).attention
        },
        final(totals).feedforward == if category == LayerCategory::FeedForward {
            old(totals).feedforward.saturating_add(amount)
        } else {
            old(totals).feedforward
        },
        final(totals).embedding == if category == LayerCategory::Embedding {
            old(totals).embedding.saturating_add(amount)
        } else {
            old(totals).embedding
        },
        final(totals).normalization == if category == LayerCategory::Normalization {
            old(totals).normalization.saturating_add(amount)
        } else {
            old(totals).normalization
        },
        final(totals).output_head == if category == LayerCategory::OutputHead {
            old(totals).output_head.saturating_add(amount)
        } else {
            old(totals).output_head
        },
        final(totals).other == if category == LayerCategory::Other {
            old(totals).other.saturating_add(amount)
        } else {
            old(totals).other
        },
{
    match category {
        LayerCategory::Attention => totals.attention = totals.attention.saturating_add(amount),
        LayerCategory::FeedForward => totals.feedforward = totals.feedforward.saturating_add(amount),
        LayerCategory::Embedding => totals.embedding = totals.embedding.saturating_add(amount),
        LayerCategory::Normalization => totals.normalization = totals.normalization.saturating_add(
            amount,
        ),
        LayerCategory::OutputHead => totals.output_head = totals.output_head.saturating_add(amount),
        LayerCategory::Other => totals.other = totals.other.saturating_add(amount),
    }
}

/// The parameter totals of the tensors `ts` of a model with architecture `arch`.
pub open spec fn stats_of(stats: ParamStats, ts: Seq<TensorMetaRaw>, arch: ArchitectureInfo) -> bool {
    let mt = opt_view(arch.model_type);
    &&& stats.total_params == saturate(sum_where(ts, outside_head(mt)))
    &&& stats.total_params_all == saturate(sum_where(ts, any_tensor()))
    &&& totals_of(stats.categories, ts, mt)
}

/// The attention layout of the tensors `ts` of a model with architecture `arch`,
/// leaving the attention kind aside.
pub open spec fn attention_layout_of(attention: AttentionInfo, ts: Seq<TensorMetaRaw>, arch: ArchitectureInfo) -> bool {
    &&& attention.q_proj_params == saturate(sum_where(ts, q_proj_named()))
    &&& attention.k_proj_params == saturate(sum_where(ts, k_proj_named()))
    &&& attention.v_proj_params == saturate(sum_where(ts, v_proj_named()))
    &&& attention.o_proj_params == saturate(sum_where(ts, o_proj_named()))
    &&& attention.num_heads == heads_of(ts, arch)
    &&& attention.head_dim == head_dim_of(ts, arch)
    &&& attention.kv_heads == kv_heads_of(ts, arch)
}

/// The whole summary that `summarize_tensors` returns for the tensors `ts` of a
/// model with architecture `arch`.
pub open spec fn is_summary_of(
    res: (Vec<TensorMeta>, ParamStats, AttentionInfo),
    ts: Seq<TensorMetaRaw>,
    arch: ArchitectureInfo,
) -> bool {
    let mt = opt_view(arch.model_type);
    let tensors = res.0;
    let attention = res.2;
    &&& tensors@.len() == ts.len()
    &&& forall|i: int| 0 <= i < ts.len() ==> describes(#[trigger] tensors@[i], ts[i], mt)
    &&& stats_of(res.1, ts, arch)
    &&& attention_layout_of(attention, ts, arch)
    &&& opt_view(attention.attention_type) == attention_type_of(ts, arch)
}

/// Describes every tensor, totals the parameters per category (with and without
/// the output head) and per attention projection, and infers the attention
/// layout: the head count, the head size, the key/value heads and the attention
/// kind.
pub fn summarize_tensors(raw_tensors: &[TensorMetaRaw], architecture: &ArchitectureInfo) -> (res: (
    Vec<TensorMeta>,
    ParamStats,
    AttentionInfo,
))
    ensures
        is_summary_of(res, raw_tensors@, *architecture),
{
    let ghost ts = raw_tensors@;
    let ghost mtv = opt_view(architecture.model_type);
    let mt = opt_as_str(&architecture.model_type);
    let mut categories = CategoryTotals {
        attention: 0,
        feedforward: 0,
        embedding: 0,
        normalization: 0,
        output_head: 0,
        other: 0,
    };
    let mut total_params: u64 = 0;
    let mut total_params_all: u64 = 0;
    let mut tensors: Vec<TensorMeta> = Vec::new();
    let mut q_proj_params: u64 = 0;
    let mut k_proj_params: u64 = 0;
    let mut v_proj_params: u64 = 0;
    let mut o_proj_params: u64 = 0;
    let mut q_proj_shapes: Vec<Vec<u64>> = Vec::new();
    let mut k_proj_shapes: Vec<Vec<u64>> = Vec::new();
    let mut o_proj_shapes: Vec<Vec<u64>> = Vec::new();
    let mut inferred_num_heads_from_q_scale: Option<u64> = None;
    let mut i: usize = 0;
    proof {
        assert(ts.take(0) =~= Seq::<TensorMetaRaw>::empty());
        assert(vec_views(q_proj_shapes@) =~= Seq::<Seq<u64>>::empty());
        assert(vec_views(k_proj_shapes@) =~= Seq::<Seq<u64>>::empty());
        assert(vec_views(o_proj_shapes@) =~= Seq::<Seq<u64>>::empty());
    }
    while i < raw_tensors.len()
        invariant
            i <= raw_tensors.len(),
            ts == raw_tensors@,
            mtv == opt_view(architecture.model_type),
            opt_str_view(mt) == mtv,
            tensors@.len() == i,
            forall|j: int| 0 <= j < i ==> describes(#[trigger] tensors@[j], ts[j], mtv),
            totals_of(categories, ts.take(i as int), mtv),
            total_params == saturate(sum_where(ts.take(i as int), outside_head(mtv))),
            total_params_all == saturate(sum_where(ts.take(i as int), any_tensor())),
            q_proj_params == saturate(sum_where(ts.take(i as int), q_proj_named())),
            k_proj_params == saturate(sum_where(ts.take(i as int), k_proj_named())),
            v_proj_params == saturate(sum_where(ts.take(i as int), v_proj_named())),
            o_proj_params == saturate(sum_where(ts.take(i as int), o_proj_named())),
            vec_views(q_proj_shapes@) == shapes_where(ts.take(i as int), q_proj_named()),
            vec_views(k_proj_shapes@) == shapes_where(ts.take(i as int), k_proj_named()),
            vec_views(o_proj_shapes@) == shapes_where(ts.take(i as int), o_proj_named()),
            inferred_num_heads_from_q_scale == first_q_scale(ts.take(i as int)),
        decreases raw_tensors.len() - i,
    {
        let raw = &raw_tensors[i];
        let param_count = param_count_from_shape(raw.shape.as_slice());
        let category = classify_tensor_for_model(raw.name.as_str(), mt);
        proof {
            let ii = i as int;
            lemma_sum_where_step(ts, ii, in_category(mtv, LayerCategory::Attention));
            lemma_sum_where_step(ts, ii, in_category(mtv, LayerCategory::FeedForward));
            lemma_sum_where_step(ts, ii, in_category(mtv, LayerCategory::Embedding));
            lemma_sum_where_step(ts, ii, in_category(mtv, LayerCategory::Normalization));
            lemma_sum_where_step(ts, ii, in_category(mtv, LayerCategory::OutputHead));
            lemma_sum_where_step(ts, ii, in_category(mtv, LayerCategory::Other));
            lemma_sum_where_step(ts, ii, outside_head(mtv));
            lemma_sum_where_step(ts, ii, any_tensor());
            lemma_sum_where_step(ts, ii, q_proj_named());
            lemma_sum_where_step(ts, ii, k_proj_named());
            lemma_sum_where_step(ts, ii, v_proj_named());
            lemma_sum_where_step(ts, ii, o_proj_named());
            lemma_shapes_where_step(ts, ii, q_proj_named());
            lemma_shapes_where_step(ts, ii, k_proj_named());
            lemma_shapes_where_step(ts, ii, o_proj_named());
            lemma_first_q_scale_step(ts, ii);
            let pre = ts.take(ii);
            let c = param_count as nat;
            lemma_saturating_step(sum_where(pre, in_category(mtv, LayerCategory::Attention)), c);
            lemma_saturating_step(sum_where(pre, in_category(mtv, LayerCategory::FeedForward)), c);
            lemma_saturating_step(sum_where(pre, in_category(mtv, LayerCategory::Embedding)), c);
            lemma_saturating_step(sum_where(pre, in_category(mtv, LayerCategory::Normalization)), c);
            lemma_saturating_step(sum_where(pre, in_category(mtv, LayerCategory::OutputHead)), c);
            lemma_saturating_step(sum_where(pre, in_category(mtv, LayerCategory::Other)), c);
            lemma_saturating_step(sum_where(pre, outside_head(mtv)), c);
            lemma_saturating_step(sum_where(pre, any_tensor()), c);
            lemma_saturating_step(sum_where(pre, q_proj_named()), c);
            lemma_saturating_step(sum_where(pre, k_proj_named()), c);
            lemma_saturating_step(sum_where(pre, v_proj_named()), c);
            lemma_saturating_step(sum_where(pre, o_proj_named()), c);
        }
        add_to_totals(&mut categories, category, param_count);

        let lname_chars = lowercase_chars(raw.name.as_str());
        if contains_str(&lname_chars, "q_proj") || contains_str(&lname_chars, "query") {
            q_proj_params = q_proj_params.saturating_add(param_count);
            let shape = raw.shape.clone();
            assert(shape@ =~= raw.shape@);
            q_proj_shapes.push(shape);
        }
        if contains_str(&lname_chars, "k_proj") || contains_str(&lname_chars, "key") {
            k_proj_params = k_proj_params.saturating_add(param_count);
            let shape = raw.shape.clone();
            assert(shape@ =~= raw.shape@);
            k_proj_shapes.push(shape);
        }
        if contains_str(&lname_chars, "v_proj") || contains_str(&lname_chars, "value") {
            v_proj_params = v_proj_params.saturating_add(param_count);
        }
        if contains_str(&lname_chars, "o_proj") || contains_str(&lname_chars, "out_proj") {
            o_proj_params = o_proj_params.saturating_add(param_count);
            let shape = raw.shape.clone();
            assert(shape@ =~= raw.shape@);
            o_proj_shapes.push(shape);
        }
        if contains_str(&lname_chars, "q_scale") && raw.shape.len() > 0
            && inferred_num_heads_from_q_scale.is_none() {
            inferred_num_heads_from_q_scale = Some(raw.shape[0]);
        }
        total_params_all = total_params_all.saturating_add(param_count);
        if category != LayerCategory::OutputHead {
            total_params = total_params.saturating_add(param_count);
        }
        let shape = raw.shape.clone();
        assert(shape@ =~= raw.shape@);
        tensors.push(
            TensorMeta {
                name: raw.name.clone(),
                shape,
                dtype: raw.dtype.clone(),
                data_offsets: (raw.data_offsets.0, raw.data_offsets.1),
                param_count,
                category,
            },
        );
        proof {
            let ii = i as int;
            assert(vec_views(q_proj_shapes@) =~= shapes_where(ts.take(ii + 1), q_proj_named()));
            assert(vec_views(k_proj_shapes@) =~= shapes_where(ts.take(ii + 1), k_proj_named()));
            assert(vec_views(o_proj_shapes@) =~= shapes_where(ts.take(ii + 1), o_proj_named()));
        }
        i += 1;
    }
    proof {
        assert(ts.take(raw_tensors.len() as int) =~= ts);
    }

    let hidden_size = match architecture.hidden_size {
        Some(h) => Some(h),
        None => infer_hidden_size_from_projections(&q_proj_shapes, &o_proj_shapes),
    };
    let num_heads = match keep_positive(architecture.num_heads) {
        Some(n) => Some(n),
        None => keep_positive(inferred_num_heads_from_q_scale),
    };
    let mut head_dim: Option<u64> = None;
    let mut kv_heads: Option<u64> = None;
    let mut attention_type: Option<String> = None;
    if let (Some(hidden), Some(heads)) = (hidden_size, num_heads) {
        if heads > 0 && hidden % heads == 0 {
            let hd = hidden / heads;
            head_dim = Some(hd);
            let kv = match keep_positive(architecture.num_key_value_heads) {
                Some(v) => Some(v),
                None => infer_kv_heads_from_k_shapes(&k_proj_shapes, hd, heads),
            };
            kv_heads = kv;
            if let Some(k) = kv {
                attention_type = Some(attention_kind(k, heads));
            }
        }
    }
    let attention = AttentionInfo {
        head_dim,
        num_heads,
        kv_heads,
        attention_type,
        q_proj_params,
        k_proj_params,
        v_proj_params,
        o_proj_params,
    };
    let stats = ParamStats { total_params, total_params_all, categories };
    (tensors, stats, attention)
}

// ---------------------------------------------------------------------------
// Laws
// ---------------------------------------------------------------------------
/// Every parameter is counted in exactly one category: the six category sums
/// add up to the total, and the total without the output head plus the output
/// head is the total with it.
pub proof fn categories_partition_parameters(ts: Seq<TensorMetaRaw>, mt: Option<Seq<char>>)
    ensures
        sum_where(ts, in_category(mt, LayerCategory::Attention)) + sum_where(
            ts,
            in_category(mt, LayerCategory::FeedForward),
        ) + sum_where(ts, in_category(mt, LayerCategory::Embedding)) + sum_where(
            ts,
            in_category(mt, LayerCategory::Normalization),
        ) + sum_where(ts, in_category(mt, LayerCategory::OutputHead)) + sum_where(
            ts,
            in_category(mt, LayerCategory::Other),
        ) == sum_where(ts, any_tensor()),
        sum_where(ts, outside_head(mt)) + sum_where(ts, in_category(mt, LayerCategory::OutputHead))
            == sum_where(ts, any_tensor()),
    decreases ts.len(),
{
    if ts.len() > 0 {
        categories_partition_parameters(ts.drop_last(), mt);
    }
}

/// When the head size is known it divides the hidden size exactly: head size
/// times head count is the hidden size.
pub proof fn head_dim_divides_hidden_size(ts: Seq<TensorMetaRaw>, arch: ArchitectureInfo)
    requires
        head_dim_of(ts, arch) is Some,
    ensures
        heads_of(ts, arch) is Some,
        hidden_of(ts, arch) is Some,
        head_dim_of(ts, arch)->0 * heads_of(ts, arch)->0 == hidden_of(ts, arch)->0,
{
    let h = hidden_of(ts, arch)->0;
    let n = heads_of(ts, arch)->0;
    assert((h / n) * n == h) by (nonlinear_arith)
        requires
            n > 0,
            h % n == 0,
    ;
}

/// Key/value heads inferred from the shapes (the configuration giving none) are
/// at least one and at most the number of heads.
pub proof fn inferred_kv_heads_are_bounded(ts: Seq<TensorMetaRaw>, arch: ArchitectureInfo)
    requires
        kv_heads_of(ts, arch) is Some,
        positive(arch.num_key_value_heads) is None,
    ensures
        heads_of(ts, arch) is Some,
        1 <= kv_heads_of(ts, arch)->0 <= heads_of(ts, arch)->0,
{
    let hd = head_dim_of(ts, arch)->0;
    let nh = heads_of(ts, arch)->0;
    let cands = kv_candidates(shapes_where(ts, k_proj_named()), hd, nh);
    let k = kv_heads_of(ts, arch)->0;
    assert(smallest_mode(cands) == Some(k));
    assert(exists|v: u64| is_smallest_mode(cands, v));
    let v = choose|v: u64| is_smallest_mode(cands, v);
    assert(v == k);
    assert(cands.contains(k));
    let m = choose|m: int| 0 <= m < cands.len() && cands[m] == k;
    lemma_kv_candidates_bounded(shapes_where(ts, k_proj_named()), hd, nh, m);
}

proof fn lemma_dim_candidates_bounded(dims: Seq<u64>, hd: u64, nh: u64, m: int)
    requires
        hd > 0,
        0 <= m < dim_candidates(dims, hd, nh).len(),
    ensures
        1 <= dim_candidates(dims, hd, nh)[m] <= nh,
    decreases dims.len(),
{
    if dims.len() > 0 {
        let pre = dim_candidates(dims.drop_last(), hd, nh);
        if m < pre.len() {
            lemma_dim_candidates_bounded(dims.drop_last(), hd, nh, m);
        }
    }
}

proof fn lemma_kv_candidates_bounded(ss: Seq<Seq<u64>>, hd: u64, nh: u64, m: int)
    requires
        hd > 0,
        0 <= m < kv_candidates(ss, hd, nh).len(),
    ensures
        1 <= kv_candidates(ss, hd, nh)[m] <= nh,
    decreases ss.len(),
{
    if ss.len() > 0 {
        let pre = kv_candidates(ss.drop_last(), hd, nh);
        if m < pre.len() {
            lemma_kv_candidates_bounded(ss.drop_last(), hd, nh, m);
        } else {
            lemma_dim_candidates_bounded(ss.last(), hd, nh, m - pre.len());
        }
    }
}

/// A tensor's parameter count is the product of its dimensions whenever that
/// product fits in a `u64`; a scalar (empty shape) counts one parameter.
pub proof fn param_count_is_exact_when_it_fits(s: Seq<u64>)
    ensures
        shape_product(s) <= u64::MAX ==> param_count_of(s) == shape_product(s),
        s.len() == 0 ==> param_count_of(s) == 1,
{
}

/// As many key/value heads as query heads is multi-head attention; one
/// key/value head shared by several query heads is multi-query attention;
/// more than one but fewer than the query heads is grouped-query attention;
/// more key/value heads than query heads (other than a single one) is not a
/// known layout.
pub proof fn attention_labels_by_head_counts(kv: u64, nh: u64)
    ensures
        kv == nh ==> attention_label(kv, nh) == "MHA"@,
        kv == 1 && nh > 1 ==> attention_label(kv, nh) == "MQA"@,
        1 < kv < nh ==> attention_label(kv, nh) == "GQA"@,
        kv > nh && kv != 1 ==> attention_label(kv, nh) == "UNKNOWN"@,
{
}

/// The attention kind names how key/value heads serve query heads: as many as
/// the query heads is multi-head (`MHA`); exactly one serving several is
/// multi-query (`MQA`); more than one but fewer than the query heads is
/// grouped-query (`GQA`); more than the query heads is `UNKNOWN`.
pub proof fn attention_kinds_follow_head_counts(ts: Seq<TensorMetaRaw>, arch: ArchitectureInfo)
    requires
        kv_heads_of(ts, arch) is Some,
    ensures
        heads_of(ts, arch) is Some,
        ({
            let kv = kv_heads_of(ts, arch)->0;
            let nh = heads_of(ts, arch)->0;
            let t = attention_type_of(ts, arch);
            &&& kv == nh ==> t == Some("MHA"@)
            &&& kv == 1 && nh > 1 ==> t == Some("MQA"@)
            &&& 1 < kv < nh ==> t == Some("GQA"@)
            &&& kv > nh ==> t == Some("UNKNOWN"@)
        }),
{
}

/// A configuration giving the hidden size, a head count that divides it and
/// exactly one key/value head, with several heads, describes multi-query
/// attention (as Gemma-2B's does), whatever the tensors.
pub proof fn one_configured_kv_head_is_multi_query(ts: Seq<TensorMetaRaw>, arch: ArchitectureInfo)
    requires
        arch.hidden_size matches Some(h) && arch.num_heads matches Some(n) && n > 1 && h % n == 0,
        arch.num_key_value_heads == Some(1u64),
    ensures
        attention_type_of(ts, arch) == Some("MQA"@),
        kv_heads_of(ts, arch) == Some(1u64),
{
}

/// How one more tensor changes the projection totals: a tensor whose
/// lower-cased name holds `q_proj` or `query` adds its parameters to the query
/// total, `k_proj` or `key` to the key total, `v_proj` or `value` to the value
/// total, `o_proj` or `out_proj` to the output total; other totals stay.
pub proof fn projection_totals_count_matching_names(ts: Seq<TensorMetaRaw>, t: TensorMetaRaw)
    ensures
        ({
            let n = ascii_lower(t.name@);
            let c = param_count_of(t.shape@);
            let more = ts.push(t);
            &&& sum_where(more, q_proj_named()) == sum_where(ts, q_proj_named()) + if has_substring(
                n,
                "q_proj"@,
            ) || has_substring(n, "query"@) {
                c
            } else {
                0
            }
            &&& sum_where(more, k_proj_named()) == sum_where(ts, k_proj_named()) + if has_substring(
                n,
                "k_proj"@,
            ) || has_substring(n, "key"@) {
                c
            } else {
                0
            }
            &&& sum_where(more, v_proj_named()) == sum_where(ts, v_proj_named()) + if has_substring(
                n,
                "v_proj"@,
            ) || has_substring(n, "value"@) {
                c
            } else {
                0
            }
            &&& sum_where(more, o_proj_named()) == sum_where(ts, o_proj_named()) + if has_substring(
                n,
                "o_proj"@,
            ) || has_substring(n, "out_proj"@) {
                c
            } else {
                0
            }
        }),
{
    assert(ts.push(t).drop_last() =~= ts);
}

} // verus!
