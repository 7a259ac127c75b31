//! The configuration shown as `key = value` rows: nested members joined with
//! dots, array items with their index in brackets, object members in key order.
use crate::json::{scalar_text, scalar_to_text, JsonValue};
use crate::text::{decimal, owned, push_decimal, text_less, text_lt};
use vstd::prelude::*;

verus! {

/// The key of member `i`, or the empty text out of range.
pub open spec fn key_at(es: Seq<(String, JsonValue)>, i: int) -> Seq<char> {
    if 0 <= i < es.len() {
        es[i].0@
    } else {
        Seq::empty()
    }
}

/// The position, in `idxs`, of the first member with the smallest key.
pub open spec fn min_pos(es: Seq<(String, JsonValue)>, idxs: Seq<int>) -> int
    decreases idxs.len(),
{
    if idxs.len() <= 1 {
        0
    } else {
        let p = min_pos(es, idxs.drop_last());
        if text_lt(key_at(es, idxs.last()), key_at(es, idxs[p])) {
            idxs.len() - 1
        } else {
            p
        }
    }
}

pub proof fn lemma_min_pos_bound(es: Seq<(String, JsonValue)>, idxs: Seq<int>)
    ensures
        idxs.len() > 0 ==> 0 <= min_pos(es, idxs) < idxs.len(),
    decreases idxs.len(),
{
    if idxs.len() > 1 {
        lemma_min_pos_bound(es, idxs.drop_last());
    }
}

/// The members `idxs`, smallest key first (members with equal keys keep their
/// order).
pub open spec fn order_from(es: Seq<(String, JsonValue)>, idxs: Seq<int>) -> Seq<int>
    decreases idxs.len(),
{
    if idxs.len() == 0 {
        Seq::empty()
    } else {
        let p = min_pos(es, idxs);
        proof {
            lemma_min_pos_bound(es, idxs);
        }
        seq![idxs[p]] + order_from(es, idxs.remove(p))
    }
}

/// All members of an object, in key order.
pub open spec fn key_order(es: Seq<(String, JsonValue)>) -> Seq<int> {
    order_from(es, Seq::new(es.len(), |i: int| i))
}

/// The rows of a configuration value under the name `prefix`: a scalar is one
/// row; an object gives the rows of its members in key order, named
/// `prefix.key`; an array gives the rows of its items, named `prefix[i]`.
pub open spec fn config_rows(prefix: Seq<char>, v: JsonValue) -> Seq<(Seq<char>, Seq<char>)>
    decreases v, 0nat,
{
    match v {
        JsonValue::Object(entries) => member_rows(
            prefix,
            entries,
            key_order(entries@),
            key_order(entries@).len(),
        ),
        JsonValue::Array(items) => item_rows(prefix, items, items@.len()),
        _ => seq![(prefix, scalar_text(v))],
    }
}

/// The text of a key's value that is an empty object or array, if it is one.
pub open spec fn empty_value_text(v: JsonValue) -> Option<Seq<char>> {
    match v {
        JsonValue::Object(entries) => if entries@.len() == 0 {
            Some("{}"@)
        } else {
            None
        },
        JsonValue::Array(items) => if items@.len() == 0 {
            Some("[]"@)
        } else {
            None
        },
        _ => None,
    }
}

/// The rows of the first `n` members of an object, taken in the order `order`;
/// a member whose value is an empty object or array is one row, `{}` or `[]`,
/// so that the key is still shown.
pub open spec fn member_rows(
    prefix: Seq<char>,
    entries: Vec<(String, JsonValue)>,
    order: Seq<int>,
    n: nat,
) -> Seq<(Seq<char>, Seq<char>)>
    decreases entries, n,
{
    if n == 0 || n > order.len() {
        Seq::empty()
    } else {
        let k = order[n - 1];
        member_rows(prefix, entries, order, (n - 1) as nat) + if 0 <= k < entries@.len() {
            match empty_value_text(entries@[k].1) {
                Some(t) => seq![(prefix + "."@ + entries@[k].0@, t)],
                None => config_rows(prefix + "."@ + entries@[k].0@, entries@[k].1),
            }
        } else {
            Seq::empty()
        }
    }
}

/// The rows of the first `n` items of an array.
pub open spec fn item_rows(prefix: Seq<char>, items: Vec<JsonValue>, n: nat) -> Seq<(Seq<char>, Seq<char>)>
    decreases items, n,
{
    if n == 0 || n > items@.len() {
        Seq::empty()
    } else {
        item_rows(prefix, items, (n - 1) as nat) + config_rows(
            prefix + "["@ + decimal((n - 1) as nat) + "]"@,
            items@[n - 1],
        )
    }
}

/// The view of a list of rows.
pub open spec fn row_views(v: Seq<(String, String)>) -> Seq<(Seq<char>, Seq<char>)> {
    v.map_values(|r: (String, String)| (r.0@, r.1@))
}

/// The view of a list of positions.
pub open spec fn positions(v: Seq<usize>) -> Seq<int> {
    v.map_values(|x: usize| x as int)
}

/// The members of an object in key order, as positions.
fn key_order_exec(entries: &Vec<(String, JsonValue)>) -> (r: Vec<usize>)
    ensures
        positions(r@) == key_order(entries@),
        forall|k: int| 0 <= k < r@.len() ==> r@[k] < entries@.len(),
{
    let ghost es = entries@;
    let mut remaining: Vec<usize> = Vec::new();
    let mut i: usize = 0;
    while i < entries.len()
        invariant
            i <= entries.len(),
            positions(remaining@) == Seq::new(i as nat, |k: int| k),
            forall|k: int| 0 <= k < remaining@.len() ==> remaining@[k] < entries@.len(),
        decreases entries.len() - i,
    {
        let ghost before = remaining@;
        remaining.push(i);
        assert(positions(remaining@) =~= positions(before).push(i as int));
        i += 1;
        assert(positions(remaining@) =~= Seq::new(i as nat, |k: int| k));
    }
    let mut out: Vec<usize> = Vec::new();
    assert(positions(out@) + order_from(es, positions(remaining@)) =~= key_order(es));
    while remaining.len() > 0
        invariant
            es == entries@,
            positions(out@) + order_from(es, positions(remaining@)) == key_order(es),
            forall|k: int| 0 <= k < remaining@.len() ==> remaining@[k] < entries@.len(),
            forall|k: int| 0 <= k < out@.len() ==> out@[k] < entries@.len(),
        decreases remaining@.len(),
    {
        let ghost idxs = positions(remaining@);
        let mut p: usize = 0;
        let mut j: usize = 1;
        while j < remaining.len()
            invariant
                1 <= j <= remaining.len(),
                idxs == positions(remaining@),
                es == entries@,
                forall|k: int| 0 <= k < remaining@.len() ==> remaining@[k] < entries@.len(),
                p as int == min_pos(es, idxs.take(j as int)),
                p < j,
            decreases remaining.len() - j,
        {
            proof {
                assert(idxs.take(j + 1).drop_last() =~= idxs.take(j as int));
                assert(idxs.take(j + 1).last() == remaining@[j as int] as int);
                assert(idxs.take(j + 1)[p as int] == remaining@[p as int] as int);
            }
            let kj = remaining[j];
            let kp = remaining[p];
            if text_less(entries[kj].0.as_str(), entries[kp].0.as_str()) {
                p = j;
            }
            j += 1;
        }
        proof {
            assert(idxs.take(remaining.len() as int) =~= idxs);
            lemma_min_pos_bound(es, idxs);
        }
        let chosen = remaining[p];
        let ghost before_out = out@;
        out.push(chosen);
        remaining.remove(p);
        proof {
            assert(positions(remaining@) =~= idxs.remove(p as int));
            assert(positions(out@) =~= positions(before_out).push(chosen as int));
            assert(order_from(es, idxs) == seq![idxs[p as int]] + order_from(es, idxs.remove(p as int)));
            assert(positions(out@) + order_from(es, positions(remaining@)) =~= positions(before_out)
                + order_from(es, idxs));
        }
    }
    assert(order_from(es, positions(remaining@)) =~= Seq::<int>::empty());
    assert(positions(out@) + Seq::<int>::empty() =~= positions(out@));
    out
}

/// `{}` or `[]` for an empty object or array, nothing for other values.
fn empty_value_label(v: &JsonValue) -> (r: Option<&'static str>)
    ensures
        match r {
            Some(t) => empty_value_text(*v) == Some(t@),
            None => empty_value_text(*v) is None,
        },
{
    match v {
        JsonValue::Object(entries) => if entries.len() == 0 {
            Some("{}")
        } else {
            None
        },
        JsonValue::Array(items) => if items.len() == 0 {
            Some("[]")
        } else {
            None
        },
        _ => None,
    }
}

#[verifier::loop_isolation(false)]
fn push_config_rows(prefix: &str, v: &JsonValue, out: &mut Vec<(String, String)>)
    ensures
        row_views(final(out)@) == row_views(old(out)@) + config_rows(prefix@, *v),
    decreases *v,
{
    let ghost start = row_views(out@);
    match v {
        JsonValue::Object(entries) => {
            let order = key_order_exec(entries);
            let ghost ord = key_order(entries@);
            let mut i: usize = 0;
            assert(start + Seq::<(Seq<char>, Seq<char>)>::empty() =~= start);
            while i < order.len()
                invariant
                    i <= order.len(),
                    ord == positions(order@),
                    row_views(out@) == start + member_rows(prefix@, *entries, ord, i as nat),
                decreases order.len() - i,
            {
                let k = order[i];
                let mut name = owned(prefix);
                name.append(".");
                name.append(entries[k].0.as_str());
                match empty_value_label(&entries[k].1) {
                    Some(t) => {
                        let ghost before = out@;
                        let ghost name_view = name@;
                        out.push((name, owned(t)));
                        assert(row_views(out@) =~= row_views(before).push((name_view, t@)));
                    },
                    None => {
                        push_config_rows(name.as_str(), &entries[k].1, out);
                    },
                }
                proof {
                    assert(ord[i as int] == k as int);
                }
                i += 1;
            }
        },
        JsonValue::Array(items) => {
            let mut i: usize = 0;
            assert(start + Seq::<(Seq<char>, Seq<char>)>::empty() =~= start);
            while i < items.len()
                invariant
                    i <= items.len(),
                    row_views(out@) == start + item_rows(prefix@, *items, i as nat),
                decreases items.len() - i,
            {
                let mut name = owned(prefix);
                name.append("[");
                push_decimal(&mut name, i as u64);
                name.append("]");
                assert(name@ =~= prefix@ + "["@ + decimal(i as nat) + "]"@);
                push_config_rows(name.as_str(), &items[i], out);
                i += 1;
            }
        },
        _ => {
            let row = (owned(prefix), scalar_to_text(v));
            let ghost before = out@;
            out.push(row);
            assert(row_views(out@) =~= row_views(before).push((prefix@, scalar_text(*v))));
        },
    }
}

/// The configuration shown as rows under the name `prefix`.
pub fn flatten_config_fields(prefix: &str, value: &JsonValue) -> (r: Vec<(String, String)>)
    ensures
        row_views(r@) == config_rows(prefix@, *value),
{
    let mut out: Vec<(String, String)> = Vec::new();
    push_config_rows(prefix, value, &mut out);
    assert(row_views(out@) =~= config_rows(prefix@, *value));
    out
}

// ---------------------------------------------------------------------------
// Every key is shown
// ---------------------------------------------------------------------------
proof fn lemma_order_from_members(es: Seq<(String, JsonValue)>, idxs: Seq<int>)
    ensures
        order_from(es, idxs).len() == idxs.len(),
        forall|x: int| idxs.contains(x) ==> #[trigger] order_from(es, idxs).contains(x),
        forall|j: int| 0 <= j < idxs.len() ==> idxs.contains(#[trigger] order_from(es, idxs)[j]),
    decreases idxs.len(),
{
    if idxs.len() > 0 {
        let p = min_pos(es, idxs);
        lemma_min_pos_bound(es, idxs);
        let rest = idxs.remove(p);
        lemma_order_from_members(es, rest);
        let o = order_from(es, idxs);
        assert(o == seq![idxs[p]] + order_from(es, rest));
        assert forall|x: int| idxs.contains(x) implies #[trigger] o.contains(x) by {
            let k = choose|k: int| 0 <= k < idxs.len() && idxs[k] == x;
            if k == p {
                assert(o[0] == x);
            } else {
                let r = if k < p { k } else { k - 1 };
                assert(rest[r] == x);
                assert(order_from(es, rest).contains(x));
                let m = choose|m: int| 0 <= m < order_from(es, rest).len() && order_from(es, rest)[m] == x;
                assert(o[m + 1] == x);
            }
        }
        assert forall|j: int| 0 <= j < idxs.len() implies idxs.contains(#[trigger] o[j]) by {
            if j == 0 {
                assert(idxs[p] == o[0]);
            } else {
                assert(o[j] == order_from(es, rest)[j - 1]);
                assert(rest.contains(o[j]));
                let r = choose|r: int| 0 <= r < rest.len() && rest[r] == o[j];
                if r < p {
                    assert(idxs[r] == o[j]);
                } else {
                    assert(idxs[r + 1] == o[j]);
                }
            }
        }
    }
}

/// `key_order` lists every member position once in range, and no other.
proof fn lemma_key_order_members(es: Seq<(String, JsonValue)>)
    ensures
        key_order(es).len() == es.len(),
        forall|i: int| 0 <= i < es.len() ==> #[trigger] key_order(es).contains(i),
        forall|j: int| 0 <= j < es.len() ==> 0 <= #[trigger] key_order(es)[j] < es.len(),
{
    let idxs = Seq::new(es.len(), |i: int| i);
    lemma_order_from_members(es, idxs);
    assert forall|i: int| 0 <= i < es.len() implies #[trigger] key_order(es).contains(i) by {
        assert(idxs[i] == i);
        assert(idxs.contains(i));
    }
    assert forall|j: int| 0 <= j < es.len() implies 0 <= #[trigger] key_order(es)[j] < es.len() by {
        assert(idxs.contains(key_order(es)[j]));
    }
}

/// The rows that the member at position `k` contributes.
pub open spec fn member_value_rows(prefix: Seq<char>, es: Seq<(String, JsonValue)>, k: int) -> Seq<
    (Seq<char>, Seq<char>),
> {
    let name = prefix + "."@ + es[k].0@;
    match empty_value_text(es[k].1) {
        Some(t) => seq![(name, t)],
        None => config_rows(name, es[k].1),
    }
}

proof fn lemma_member_rows_contain(
    prefix: Seq<char>,
    entries: Vec<(String, JsonValue)>,
    order: Seq<int>,
    n: nat,
    j: int,
    r: (Seq<char>, Seq<char>),
)
    requires
        0 <= j < n <= order.len(),
        forall|m: int| 0 <= m < order.len() ==> 0 <= #[trigger] order[m] < entries@.len(),
        member_value_rows(prefix, entries@, order[j]).contains(r),
    ensures
        member_rows(prefix, entries, order, n).contains(r),
    decreases n,
{
    let k = order[n - 1];
    let pre = member_rows(prefix, entries, order, (n - 1) as nat);
    let here = member_value_rows(prefix, entries@, k);
    assert(member_rows(prefix, entries, order, n) == pre + here);
    if j == n - 1 {
        let m = choose|m: int| 0 <= m < here.len() && here[m] == r;
        assert((pre + here)[pre.len() + m] == r);
    } else {
        lemma_member_rows_contain(prefix, entries, order, (n - 1) as nat, j, r);
        let m = choose|m: int| 0 <= m < pre.len() && pre[m] == r;
        assert((pre + here)[m] == r);
    }
}

/// A key whose value is an empty object or array is shown as one row,
/// `prefix.key` with the text `{}` or `[]`.
pub proof fn empty_config_values_are_shown(prefix: Seq<char>, entries: Vec<(String, JsonValue)>, i: int)
    requires
        0 <= i < entries@.len(),
        empty_value_text(entries@[i].1) is Some,
    ensures
        config_rows(prefix, JsonValue::Object(entries)).contains(
            (prefix + "."@ + entries@[i].0@, empty_value_text(entries@[i].1)->0),
        ),
{
    let es = entries@;
    let order = key_order(es);
    lemma_key_order_members(es);
    assert(order.contains(i));
    let j = choose|j: int| 0 <= j < order.len() && order[j] == i;
    let r = (prefix + "."@ + es[i].0@, empty_value_text(es[i].1)->0);
    assert(member_value_rows(prefix, es, i)[0] == r);
    lemma_member_rows_contain(prefix, entries, order, order.len(), j, r);
}

/// Every row that a member's value gives is among the rows of the object:
/// nothing a key holds is left out.
pub proof fn member_rows_are_shown(prefix: Seq<char>, entries: Vec<(String, JsonValue)>, i: int, k: int)
    requires
        0 <= i < entries@.len(),
        0 <= k < member_value_rows(prefix, entries@, i).len(),
    ensures
        config_rows(prefix, JsonValue::Object(entries)).contains(member_value_rows(prefix, entries@, i)[k]),
{
    let es = entries@;
    let order = key_order(es);
    lemma_key_order_members(es);
    assert(order.contains(i));
    let j = choose|j: int| 0 <= j < order.len() && order[j] == i;
    lemma_member_rows_contain(prefix, entries, order, order.len(), j, member_value_rows(prefix, es, i)[k]);
}

} // verus!
