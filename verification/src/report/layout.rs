//! Column widths of the text report and the rows it lays out as text.
use crate::cli::commands::{first_some, or_u64};
use crate::report::config_fields::{config_rows, flatten_config_fields, row_views};
use crate::report::formatter::{
    change_marker, compute_panel_width, RenderOptions, MAX_TOP_TENSORS, count_changed, opt_u64, opt_u64_text, padded,
    panel_width_for, truncate, truncated, changed_count,
};
use crate::text::{
    char_count, decimal, join, join_strings, lemma_repeat_len, owned, push_decimal, repeat,
    repeat_str, string_views,
};
use crate::report::ranking::{is_top_ranking, param_counts, top_tensor_indices};
use crate::types::{opt_view, CompareMetricDiff, CompareReport, ModelReport};
use vstd::prelude::*;

verus! {

// ---------------------------------------------------------------------------
// Widths
// ---------------------------------------------------------------------------
/// `value * percent / 100` rounded to the nearest whole number, halves upward.
pub open spec fn scaled(value: int, percent: int) -> int {
    (value * percent + 50) / 100
}

/// `v` brought into `lo..=hi` (`Ord::clamp`).
pub open spec fn clamped(v: int, lo: int, hi: int) -> int {
    if v < lo {
        lo
    } else if v > hi {
        hi
    } else {
        v
    }
}

/// `a - b`, or zero when `b` is larger (`saturating_sub`).
pub open spec fn minus(a: int, b: int) -> int {
    if a >= b {
        a - b
    } else {
        0
    }
}

/// The smaller of two numbers.
pub open spec fn min_of(a: int, b: int) -> int {
    if a <= b {
        a
    } else {
        b
    }
}

/// The larger of two numbers.
pub open spec fn max_of(a: int, b: int) -> int {
    if a >= b {
        a
    } else {
        b
    }
}

/// `scaled(value, percent)` brought into `lo..=hi`.
fn scaled_clamped(value: usize, percent: usize, lo: usize, hi: usize) -> (r: usize)
    requires
        percent <= 50,
        lo <= hi,
    ensures
        r == clamped(scaled(value as int, percent as int), lo as int, hi as int),
{
    let v: u128 = value as u128;
    let p: u128 = percent as u128;
    assert(v * p <= 0xffff_ffff_ffff_ffff * 50) by (nonlinear_arith)
        requires
            v <= 0xffff_ffff_ffff_ffff,
            p <= 50,
    ;
    let wide: u128 = v * p + 50;
    let s: u128 = wide / 100;
    assert(s <= value) by (nonlinear_arith)
        requires
            wide == value * percent + 50,
            s == wide / 100,
            percent <= 50,
    {
        if value == 0 {
        } else {
            assert(value * percent <= value * 50);
        }
    }
    let s: usize = s as usize;
    if s < lo {
        lo
    } else if s > hi {
        hi
    } else {
        s
    }
}

/// The widths of the text report: the panel, the text inside it, and the
/// distribution bars.
#[derive(Debug, Clone, Copy)]
pub struct RenderLayout {
    pub panel_width: usize,
    pub inner_width: usize,
    pub bar_width: usize,
}

/// The layout for a terminal of `columns` columns (unknown when `None`): the
/// panel width of `compute_panel_width`, four columns less inside the panel,
/// and bars of 28% of that, between 8 and 40 columns.
pub fn render_layout(columns: Option<usize>) -> (r: RenderLayout)
    ensures
        r.panel_width == panel_width_for(columns),
        r.inner_width == minus(panel_width_for(columns) as int, 4),
        r.bar_width == clamped(scaled(r.inner_width as int, 28), 8, 40),
{
    let panel_width = compute_panel_width(columns);
    let inner_width = panel_width.saturating_sub(4);
    let bar_width = scaled_clamped(inner_width, 28, 8, 40);
    RenderLayout { panel_width, inner_width, bar_width }
}

/// The width of the key column of a key/value panel: 28% of the inner width,
/// between 12 and 24 columns.
pub fn kv_key_width(inner_width: usize) -> (r: usize)
    ensures
        r == clamped(scaled(inner_width as int, 28), 12, 24),
{
    scaled_clamped(inner_width, 28, 12, 24)
}

/// The category and bar widths of the distribution panel: the category column
/// takes 14 columns when 28 are left beside it, never fewer than 9; the bar
/// takes what the category, share and parameter columns leave, at most the
/// layout's bar width.
pub fn distribution_widths(inner_width: usize, bar_width: usize) -> (r: (usize, usize))
    ensures
        r.0 == max_of(min_of(14, minus(inner_width as int, 28)), 9),
        r.1 == min_of(minus(inner_width as int, r.0 + 23), bar_width as int),
{
    let room = inner_width.saturating_sub(28);
    let category_width = if room < 14 {
        room
    } else {
        14
    };
    let category_width = if category_width < 9 {
        9
    } else {
        category_width
    };
    let available = inner_width.saturating_sub(category_width + 23);
    let bar = if available < bar_width {
        available
    } else {
        bar_width
    };
    (category_width, bar)
}

/// The parameter and name widths of the top-tensors panel: the count column
/// takes 14 columns when the rank and ten more fit beside it, never fewer than
/// 8; the name column takes the rest, never fewer than 8.
pub fn top_tensor_widths(inner_width: usize) -> (r: (usize, usize))
    ensures
        r.0 == max_of(min_of(14, minus(inner_width as int, 14)), 8),
        r.1 == max_of(minus(inner_width as int, 6 + r.0), 8),
{
    let room = inner_width.saturating_sub(14);
    let params_width = if room < 14 {
        room
    } else {
        14
    };
    let params_width = if params_width < 8 {
        8
    } else {
        params_width
    };
    let tensor_width = inner_width.saturating_sub(6 + params_width);
    let tensor_width = if tensor_width < 8 {
        8
    } else {
        tensor_width
    };
    (params_width, tensor_width)
}

/// The metric, left and right widths of the comparison table: the metric column
/// takes 34% of what the marker and the separators leave (between 12 and 26
/// columns, leaving at least 16), and the two sides share the rest, the right
/// one taking the odd column.
pub open spec fn compare_widths_of(inner_width: int) -> (int, int, int) {
    let available = minus(inner_width, 6);
    let m = min_of(clamped(scaled(available, 34), 12, 26), minus(available, 16));
    let l = minus(available, m) / 2;
    (m, l, minus(available, m + l))
}

/// The metric, left and right widths of the comparison table.
pub fn compare_widths(inner_width: usize) -> (r: (usize, usize, usize))
    ensures
        (r.0 as int, r.1 as int, r.2 as int) == compare_widths_of(inner_width as int),
{
    let available = inner_width.saturating_sub(6);
    let metric = scaled_clamped(available, 34, 12, 26);
    let cap = available.saturating_sub(16);
    let metric = if metric < cap {
        metric
    } else {
        cap
    };
    let left = (available - metric) / 2;
    let right = available - (metric + left);
    (metric, left, right)
}

// ---------------------------------------------------------------------------
// Text rows
// ---------------------------------------------------------------------------
/// `s` padded with spaces on the right to `width` characters (`{:<width$}`).
pub fn pad_right(s: &str, width: usize) -> (r: String)
    ensures
        r@ == padded(s@, width as nat),
{
    let n = char_count(s);
    let mut r = owned(s);
    let fill = if n < width {
        width - n
    } else {
        0
    };
    let pad = repeat_str(" ", fill);
    r.append(pad.as_str());
    r
}

/// One row of a key/value panel.
pub open spec fn kv_text(key: Seq<char>, value: Seq<char>, key_width: int) -> Seq<char> {
    padded(key, key_width as nat) + " "@ + value
}

/// The lines of a key/value panel: each key padded to the key width, a space,
/// and the value.
pub open spec fn kv_texts(rows: Seq<(Seq<char>, Seq<char>)>, key_width: int) -> Seq<Seq<char>> {
    rows.map_values(|r: (Seq<char>, Seq<char>)| kv_text(r.0, r.1, key_width))
}

/// The lines of a key/value panel whose inner width is `inner_width`.
pub fn kv_lines(rows: &Vec<(String, String)>, inner_width: usize) -> (r: Vec<String>)
    ensures
        string_views(r@) == kv_texts(row_views(rows@), clamped(scaled(inner_width as int, 28), 12, 24)),
{
    let key_width = kv_key_width(inner_width);
    let ghost rv = row_views(rows@);
    let mut out: Vec<String> = Vec::new();
    let mut i: usize = 0;
    while i < rows.len()
        invariant
            i <= rows.len(),
            rv == row_views(rows@),
            key_width == clamped(scaled(inner_width as int, 28), 12, 24),
            string_views(out@) == kv_texts(rv.take(i as int), key_width as int),
        decreases rows.len() - i,
    {
        let mut line = pad_right(rows[i].0.as_str(), key_width);
        line.append(" ");
        line.append(rows[i].1.as_str());
        let ghost before = out@;
        out.push(line);
        proof {
            assert(rv.take(i + 1) =~= rv.take(i as int).push(rv[i as int]));
            assert(string_views(out@) =~= string_views(before).push(line@));
            assert(kv_texts(rv.take(i + 1), key_width as int) =~= kv_texts(
                rv.take(i as int),
                key_width as int,
            ).push(kv_text(rv[i as int].0, rv[i as int].1, key_width as int)));
        }
        i += 1;
    }
    assert(rv.take(rows.len() as int) =~= rv);
    out
}

/// The text of an optional string, `-` when absent.
pub open spec fn or_dash(o: Option<Seq<char>>) -> Seq<char> {
    match o {
        Some(s) => s,
        None => "-"@,
    }
}

/// The rows of the architecture panel: the configured sizes, the key/value head
/// count and attention kind (configured, else inferred), then every field of
/// the configuration under the name `cfg`.
pub open spec fn architecture_row_texts(report: ModelReport) -> Seq<(Seq<char>, Seq<char>)> {
    seq![
        ("Layers"@, opt_u64_text(report.architecture.num_layers)),
        ("Hidden size"@, opt_u64_text(report.architecture.hidden_size)),
        ("Heads"@, opt_u64_text(report.architecture.num_heads)),
        (
            "KV heads"@,
            opt_u64_text(first_some(report.architecture.num_key_value_heads, report.attention.kv_heads)),
        ),
        (
            "Attention type"@,
            or_dash(
                first_some(opt_view(report.architecture.attention_type), opt_view(report.attention.attention_type)),
            ),
        ),
    ] + match report.config {
        Some(c) => config_rows("cfg"@, c),
        None => Seq::empty(),
    }
}

fn text_or_dash(a: &Option<String>, b: &Option<String>) -> (r: String)
    ensures
        r@ == or_dash(first_some(opt_view(*a), opt_view(*b))),
{
    match a {
        Some(s) => s.clone(),
        None => match b {
            Some(s) => s.clone(),
            None => owned("-"),
        },
    }
}

/// The rows of the architecture panel of a report.
pub fn architecture_rows(report: &ModelReport) -> (r: Vec<(String, String)>)
    ensures
        row_views(r@) == architecture_row_texts(*report),
{
    let mut rows: Vec<(String, String)> = Vec::new();
    rows.push((owned("Layers"), opt_u64(report.architecture.num_layers)));
    rows.push((owned("Hidden size"), opt_u64(report.architecture.hidden_size)));
    rows.push((owned("Heads"), opt_u64(report.architecture.num_heads)));
    rows.push(
        (
            owned("KV heads"),
            opt_u64(or_u64(report.architecture.num_key_value_heads, report.attention.kv_heads)),
        ),
    );
    rows.push(
        (
            owned("Attention type"),
            text_or_dash(&report.architecture.attention_type, &report.attention.attention_type),
        ),
    );
    let ghost head = row_views(rows@);
    match &report.config {
        Some(c) => {
            let mut cfg = flatten_config_fields("cfg", c);
            rows.append(&mut cfg);
            assert(row_views(rows@) =~= head + config_rows("cfg"@, *c));
        },
        None => {
            assert(row_views(rows@) =~= head + Seq::<(Seq<char>, Seq<char>)>::empty());
        },
    }
    rows
}

/// The architecture rows shown for each side of a comparison: the model type,
/// the configured sizes, and the key/value head count and attention kind
/// (configured, else inferred).
pub open spec fn side_architecture_texts(report: ModelReport) -> Seq<(Seq<char>, Seq<char>)> {
    seq![
        ("Model type"@, or_dash(opt_view(report.architecture.model_type))),
        ("Layers"@, opt_u64_text(report.architecture.num_layers)),
        ("Hidden size"@, opt_u64_text(report.architecture.hidden_size)),
        ("Heads"@, opt_u64_text(report.architecture.num_heads)),
        (
            "KV heads"@,
            opt_u64_text(first_some(report.architecture.num_key_value_heads, report.attention.kv_heads)),
        ),
        (
            "Attention"@,
            or_dash(
                first_some(opt_view(report.architecture.attention_type), opt_view(report.attention.attention_type)),
            ),
        ),
    ]
}

/// The architecture rows of one side of a comparison.
pub fn side_architecture_rows(report: &ModelReport) -> (r: Vec<(String, String)>)
    ensures
        row_views(r@) == side_architecture_texts(*report),
{
    let mut rows: Vec<(String, String)> = Vec::new();
    rows.push((owned("Model type"), text_or_dash(&report.architecture.model_type, &None)));
    rows.push((owned("Layers"), opt_u64(report.architecture.num_layers)));
    rows.push((owned("Hidden size"), opt_u64(report.architecture.hidden_size)));
    rows.push((owned("Heads"), opt_u64(report.architecture.num_heads)));
    rows.push(
        (
            owned("KV heads"),
            opt_u64(or_u64(report.architecture.num_key_value_heads, report.attention.kv_heads)),
        ),
    );
    rows.push(
        (
            owned("Attention"),
            text_or_dash(&report.architecture.attention_type, &report.attention.attention_type),
        ),
    );
    assert(row_views(rows@) =~= side_architecture_texts(*report));
    rows
}

/// The list of a report's tensor dtypes, `-` when there is none.
pub open spec fn dtypes_text(dtypes: Seq<Seq<char>>) -> Seq<char> {
    if dtypes.len() == 0 {
        "-"@
    } else {
        join(dtypes, ", "@)
    }
}

/// The tensor dtypes of a report as one text.
pub fn dtypes_label(dtypes: &Vec<String>) -> (r: String)
    ensures
        r@ == dtypes_text(string_views(dtypes@)),
{
    if dtypes.len() == 0 {
        owned("-")
    } else {
        join_strings(dtypes, ", ")
    }
}

// ---------------------------------------------------------------------------
// Comparison
// ---------------------------------------------------------------------------
/// The rows of the panel naming the two compared models and how many metrics
/// differ.
pub open spec fn models_row_texts(report: CompareReport) -> Seq<(Seq<char>, Seq<char>)> {
    seq![
        ("Left"@, report.left.model@),
        ("Right"@, report.right.model@),
        (
            "Metrics changed"@,
            decimal(changed_count(report.diffs@)) + " / "@ + decimal(report.diffs@.len()),
        ),
    ]
}

/// The rows naming the two compared models.
pub fn models_rows(report: &CompareReport) -> (r: Vec<(String, String)>)
    ensures
        row_views(r@) == models_row_texts(*report),
{
    let changed = count_changed(&report.diffs);
    let mut summary = String::new();
    push_decimal(&mut summary, changed as u64);
    summary.append(" / ");
    push_decimal(&mut summary, report.diffs.len() as u64);
    let mut rows: Vec<(String, String)> = Vec::new();
    rows.push((owned("Left"), report.left.model.clone()));
    rows.push((owned("Right"), report.right.model.clone()));
    rows.push((owned("Metrics changed"), summary));
    assert(row_views(rows@) =~= models_row_texts(*report));
    rows
}

/// One line of the comparison table: the marker, the metric and the two sides,
/// each cut and padded to its column, separated by spaces.
pub open spec fn compare_line_text(
    marker: Seq<char>,
    metric: Seq<char>,
    left: Seq<char>,
    right: Seq<char>,
    w: (int, int, int),
) -> Seq<char> {
    padded(marker, 3) + " "@ + padded(metric, w.0 as nat) + " "@ + padded(left, w.1 as nat) + " "@
        + padded(right, w.2 as nat)
}

/// The marker of a compared metric.
pub open spec fn marker_text(d: CompareMetricDiff) -> Seq<char> {
    if d.left@ != d.right@ {
        "≠"@
    } else {
        "="@
    }
}

/// The comparison table: a heading, a rule as wide as the panel's inside, and
/// one line per metric with its values cut to their columns.
pub open spec fn compare_table_texts(diffs: Seq<CompareMetricDiff>, inner_width: int, w: (int, int, int)) -> Seq<
    Seq<char>,
> {
    seq![compare_line_text(" "@, "Metric"@, "Left"@, "Right"@, w), repeat("─"@, inner_width as nat)]
        + diffs.map_values(
        |d: CompareMetricDiff|
            compare_line_text(
                marker_text(d),
                truncated(d.metric@, w.0 as nat),
                truncated(d.left@, w.1 as nat),
                truncated(d.right@, w.2 as nat),
                w,
            ),
    )
}

fn compare_line(marker: &str, metric: &str, left: &str, right: &str, w: (usize, usize, usize)) -> (r: String)
    ensures
        r@ == compare_line_text(marker@, metric@, left@, right@, (w.0 as int, w.1 as int, w.2 as int)),
{
    let mut line = pad_right(marker, 3);
    line.append(" ");
    let m = pad_right(metric, w.0);
    line.append(m.as_str());
    line.append(" ");
    let l = pad_right(left, w.1);
    line.append(l.as_str());
    line.append(" ");
    let r = pad_right(right, w.2);
    line.append(r.as_str());
    line
}

/// The lines of the comparison table for a panel of inner width `inner_width`.
pub fn compare_table_lines(diffs: &Vec<CompareMetricDiff>, inner_width: usize) -> (r: Vec<String>)
    ensures
        string_views(r@) == compare_table_texts(diffs@, inner_width as int, compare_widths_of(inner_width as int)),
{
    let w = compare_widths(inner_width);
    let ghost wn = (w.0 as int, w.1 as int, w.2 as int);
    let mut out: Vec<String> = Vec::new();
    out.push(compare_line(" ", "Metric", "Left", "Right", w));
    out.push(repeat_str("─", inner_width));
    let ghost head = string_views(out@);
    let mut i: usize = 0;
    while i < diffs.len()
        invariant
            i <= diffs.len(),
            wn == (w.0 as int, w.1 as int, w.2 as int),
            head == seq![compare_line_text(" "@, "Metric"@, "Left"@, "Right"@, wn), repeat("─"@, inner_width as nat)],
            string_views(out@) == head + diffs@.take(i as int).map_values(
                |d: CompareMetricDiff|
                    compare_line_text(
                        marker_text(d),
                        truncated(d.metric@, wn.0 as nat),
                        truncated(d.left@, wn.1 as nat),
                        truncated(d.right@, wn.2 as nat),
                        wn,
                    ),
            ),
        decreases diffs.len() - i,
    {
        let d = &diffs[i];
        let marker = change_marker(d);
        let metric = truncate(d.metric.as_str(), w.0);
        let left = truncate(d.left.as_str(), w.1);
        let right = truncate(d.right.as_str(), w.2);
        let line = compare_line(marker, metric.as_str(), left.as_str(), right.as_str(), w);
        let ghost before = out@;
        out.push(line);
        proof {
            assert(string_views(out@) =~= string_views(before).push(line@));
            assert(diffs@.take(i + 1) =~= diffs@.take(i as int).push(diffs@[i as int]));
            let f = |d: CompareMetricDiff|
                compare_line_text(
                    marker_text(d),
                    truncated(d.metric@, wn.0 as nat),
                    truncated(d.left@, wn.1 as nat),
                    truncated(d.right@, wn.2 as nat),
                    wn,
                );
            assert(diffs@.take(i + 1).map_values(f) =~= diffs@.take(i as int).map_values(f).push(
                f(diffs@[i as int]),
            ));
        }
        i += 1;
    }
    assert(diffs@.take(diffs.len() as int) =~= diffs@);
    out
}

/// How a count changed from the left model to the right one.
#[derive(Debug, Clone, Copy, PartialEq, Eq, Structural)]
pub enum Change {
    Same,
    /// Larger on the right, by this much.
    Up(u64),
    /// Smaller on the right, by this much.
    Down(u64),
}

/// How `right` differs from `left`.
pub fn change_between(left: u64, right: u64) -> (r: Change)
    ensures
        r == (if left == right {
            Change::Same
        } else if right > left {
            Change::Up((right - left) as u64)
        } else {
            Change::Down((left - right) as u64)
        }),
{
    if left == right {
        Change::Same
    } else if right > left {
        Change::Up(right - left)
    } else {
        Change::Down(left - right)
    }
}

/// The positions of the compared metrics whose sides differ (`changed`) or
/// agree (not `changed`), in order.
pub open spec fn diff_positions_of(diffs: Seq<CompareMetricDiff>, changed: bool) -> Seq<int>
    decreases diffs.len(),
{
    if diffs.len() == 0 {
        Seq::empty()
    } else {
        diff_positions_of(diffs.drop_last(), changed) + if (diffs.last().left@ != diffs.last().right@)
            == changed {
            seq![diffs.len() - 1]
        } else {
            Seq::empty()
        }
    }
}

/// The positions of the metrics that differ, or of those that agree.
pub fn diff_positions(diffs: &Vec<CompareMetricDiff>, changed: bool) -> (r: Vec<usize>)
    ensures
        r@.map_values(|x: usize| x as int) == diff_positions_of(diffs@, changed),
{
    let mut out: Vec<usize> = Vec::new();
    let mut i: usize = 0;
    while i < diffs.len()
        invariant
            i <= diffs.len(),
            out@.map_values(|x: usize| x as int) == diff_positions_of(diffs@.take(i as int), changed),
        decreases diffs.len() - i,
    {
        proof {
            assert(diffs@.take(i + 1).drop_last() =~= diffs@.take(i as int));
        }
        let differs = diffs[i].left != diffs[i].right;
        let ghost before = out@;
        if differs == changed {
            out.push(i);
            assert(out@.map_values(|x: usize| x as int) =~= before.map_values(|x: usize| x as int).push(
                i as int,
            ));
        }
        i += 1;
    }
    assert(diffs@.take(diffs.len() as int) =~= diffs@);
    out
}

/// The warnings of both compared models, each marked with its side.
pub open spec fn labelled_warning_texts(report: CompareReport) -> Seq<Seq<char>> {
    string_views(report.left.warnings@).map_values(|w: Seq<char>| "[Left] "@ + w) + string_views(
        report.right.warnings@,
    ).map_values(|w: Seq<char>| "[Right] "@ + w)
}

fn push_labelled(out: &mut Vec<String>, label: &str, warnings: &Vec<String>)
    ensures
        string_views(final(out)@) == string_views(old(out)@) + string_views(warnings@).map_values(
            |w: Seq<char>| label@ + w,
        ),
{
    let mut i: usize = 0;
    while i < warnings.len()
        invariant
            i <= warnings.len(),
            string_views(out@) == string_views(old(out)@) + string_views(warnings@).take(
                i as int,
            ).map_values(|w: Seq<char>| label@ + w),
        decreases warnings.len() - i,
    {
        let mut line = owned(label);
        line.append(warnings[i].as_str());
        let ghost before = out@;
        out.push(line);
        proof {
            assert(string_views(out@) =~= string_views(before).push(line@));
            assert(string_views(warnings@).take(i + 1) =~= string_views(warnings@).take(i as int).push(
                warnings@[i as int]@,
            ));
            assert(string_views(warnings@).take(i + 1).map_values(|w: Seq<char>| label@ + w)
                =~= string_views(warnings@).take(i as int).map_values(|w: Seq<char>| label@ + w).push(
                label@ + warnings@[i as int]@,
            ));
        }
        i += 1;
    }
    assert(string_views(warnings@).take(warnings.len() as int) =~= string_views(warnings@));
}

/// The warnings of both compared models, the left ones first, each marked with
/// its side.
pub fn labelled_warnings(report: &CompareReport) -> (r: Vec<String>)
    ensures
        string_views(r@) == labelled_warning_texts(*report),
{
    let mut out: Vec<String> = Vec::new();
    push_labelled(&mut out, "[Left] ", &report.left.warnings);
    push_labelled(&mut out, "[Right] ", &report.right.warnings);
    assert(string_views(out@) =~= labelled_warning_texts(*report));
    out
}

proof fn lemma_padded_len(s: Seq<char>, w: nat)
    requires
        s.len() <= w,
    ensures
        padded(s, w).len() == w,
{
    reveal_strlit(" ");
    lemma_repeat_len(" "@, (w - s.len()) as nat);
}

/// Every line of the comparison table is exactly as wide as the inside of the
/// panel whenever that is at least 28 columns (the report never draws a panel
/// narrower than 36 inside), so the table is never wrapped.
pub proof fn compare_table_fills_panel(diffs: Seq<CompareMetricDiff>, inner_width: int)
    requires
        inner_width >= 28,
    ensures
        forall|i: int|
            0 <= i < compare_table_texts(diffs, inner_width, compare_widths_of(inner_width)).len()
                ==> (#[trigger] compare_table_texts(diffs, inner_width, compare_widths_of(inner_width))[i]).len()
                == inner_width,
{
    reveal_strlit(" ");
    reveal_strlit("Metric");
    reveal_strlit("Left");
    reveal_strlit("Right");
    reveal_strlit("≠");
    reveal_strlit("=");
    reveal_strlit("─");
    let w = compare_widths_of(inner_width);
    assert(w.0 >= 6 && w.1 >= 8 && w.2 >= 8 && 6 + w.0 + w.1 + w.2 == inner_width);
    let t = compare_table_texts(diffs, inner_width, w);
    assert forall|i: int| 0 <= i < t.len() implies (#[trigger] t[i]).len() == inner_width by {
        lemma_padded_len(" "@, 3);
        lemma_padded_len("≠"@, 3);
        lemma_padded_len("="@, 3);
        if i == 0 {
            lemma_padded_len("Metric"@, w.0 as nat);
            lemma_padded_len("Left"@, w.1 as nat);
            lemma_padded_len("Right"@, w.2 as nat);
        } else if i == 1 {
            lemma_repeat_len("─"@, inner_width as nat);
        } else {
            let d = diffs[i - 2];
            crate::report::formatter::truncated_fits(d.metric@, w.0 as nat);
            crate::report::formatter::truncated_fits(d.left@, w.1 as nat);
            crate::report::formatter::truncated_fits(d.right@, w.2 as nat);
            lemma_padded_len(truncated(d.metric@, w.0 as nat), w.0 as nat);
            lemma_padded_len(truncated(d.left@, w.1 as nat), w.1 as nat);
            lemma_padded_len(truncated(d.right@, w.2 as nat), w.2 as nat);
            lemma_padded_len(marker_text(d), 3);
        }
    }
}

// ---------------------------------------------------------------------------
// Sections of a model report
// ---------------------------------------------------------------------------
/// A section of the report of one model.
#[derive(Debug, Clone, Copy, PartialEq, Eq, Structural)]
pub enum ModelSection {
    Summary,
    Distribution,
    Architecture,
    AttentionBreakdown,
    Graph,
    TopTensors,
    Deep,
    Warnings,
}

/// The sections of a model report, in order: the summary, the distribution and
/// the architecture always; the attention breakdown, the graph and the top
/// tensors when asked for; the deep inspection when there is a result; the
/// warnings when there are any.
pub open spec fn model_section_list(options: RenderOptions, has_deep: bool, has_warnings: bool) -> Seq<
    ModelSection,
> {
    seq![ModelSection::Summary, ModelSection::Distribution, ModelSection::Architecture]
        + (if options.show_attention_breakdown {
        seq![ModelSection::AttentionBreakdown]
    } else {
        Seq::empty()
    }) + (if options.show_graph {
        seq![ModelSection::Graph]
    } else {
        Seq::empty()
    }) + (if options.show_params {
        seq![ModelSection::TopTensors]
    } else {
        Seq::empty()
    }) + (if has_deep {
        seq![ModelSection::Deep]
    } else {
        Seq::empty()
    }) + (if has_warnings {
        seq![ModelSection::Warnings]
    } else {
        Seq::empty()
    })
}

/// The sections shown for a report with the given options.
pub fn model_sections(options: &RenderOptions, report: &ModelReport) -> (r: Vec<ModelSection>)
    ensures
        r@ == model_section_list(*options, report.deep is Some, report.warnings@.len() > 0),
{
    let mut r: Vec<ModelSection> = Vec::new();
    r.push(ModelSection::Summary);
    r.push(ModelSection::Distribution);
    r.push(ModelSection::Architecture);
    if options.show_attention_breakdown {
        r.push(ModelSection::AttentionBreakdown);
    }
    if options.show_graph {
        r.push(ModelSection::Graph);
    }
    if options.show_params {
        r.push(ModelSection::TopTensors);
    }
    if report.deep.is_some() {
        r.push(ModelSection::Deep);
    }
    if report.warnings.len() > 0 {
        r.push(ModelSection::Warnings);
    }
    assert(r@ =~= model_section_list(*options, report.deep is Some, report.warnings@.len() > 0));
    r
}

/// The positions of the tensors listed under "Top Tensors", largest first, or
/// nothing when the report keeps no tensor list (its details are unavailable).
pub fn top_tensor_listing(report: &ModelReport) -> (r: Option<Vec<usize>>)
    ensures
        r is Some <==> report.tensors is Some,
        r matches Some(v) ==> is_top_ranking(
            param_counts(report.tensors->0@),
            v@,
            MAX_TOP_TENSORS as nat,
        ),
{
    match &report.tensors {
        Some(ts) => Some(top_tensor_indices(ts, MAX_TOP_TENSORS)),
        None => None,
    }
}

} // verus!
