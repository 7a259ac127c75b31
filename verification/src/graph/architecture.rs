//! A box-drawing sketch of a model's architecture.
use crate::graph::layer_map::{block_layout, family_key, layout_for, str_views};
use crate::text::{
    ascii_lower, char_count, lemma_repeat_len, concat3, contains_str, decimal, has_substring, join, join_strings,
    lowercase_chars, owned, repeat, repeat_str, string_views, take_chars, u64_to_string,
};
use crate::types::{opt_as_str, opt_view, ArchitectureInfo};
use vstd::prelude::*;

verus! {

/// Inner width of the outer boxes (between the two border characters).
pub const GRAPH_INNER_WIDTH: usize = 52;

// ---------------------------------------------------------------------------
// Specifications
// ---------------------------------------------------------------------------
/// `n` spaces.
pub open spec fn spaces(n: nat) -> Seq<char> {
    repeat(" "@, n)
}

/// `text` centred in exactly `width` characters (cut to `width` when longer);
/// an odd leftover space goes to the right.
pub open spec fn centered(text: Seq<char>, width: nat) -> Seq<char> {
    if text.len() >= width {
        text.take(width as int)
    } else {
        let left = ((width - text.len()) / 2) as nat;
        let right = (width - text.len() - left) as nat;
        spaces(left) + text + spaces(right)
    }
}

/// `text` after `indent` spaces, padded or cut to exactly `width` characters.
pub open spec fn indented(text: Seq<char>, width: nat, indent: nat) -> Seq<char> {
    let content = spaces(indent) + text;
    if content.len() >= width {
        content.take(width as int)
    } else {
        content + spaces((width - content.len()) as nat)
    }
}

/// `text` preceded by enough spaces to centre it in `width` characters.
pub open spec fn centered_left(text: Seq<char>, width: nat) -> Seq<char> {
    if text.len() >= width {
        text
    } else {
        spaces(((width - text.len()) / 2) as nat) + text
    }
}

/// One bordered row: left border, content, right border.
pub open spec fn framed(left: Seq<char>, mid: Seq<char>, right: Seq<char>) -> Seq<char> {
    left + mid + right
}

/// A box of inner width `iw` holding a centred title and optional subtitle.
pub open spec fn single_box_lines(title: Seq<char>, subtitle: Option<Seq<char>>, iw: nat) -> Seq<
    Seq<char>,
> {
    let top = framed("╭"@, repeat("─"@, iw), "╮"@);
    let head = framed("│"@, centered(title, iw), "│"@);
    let bottom = framed("╰"@, repeat("─"@, iw), "╯"@);
    match subtitle {
        Some(s) => seq![top, head, framed("│"@, centered(s, iw), "│"@), bottom],
        None => seq![top, head, bottom],
    }
}

/// A row of the repeated block, between the dotted repeat markers.
pub open spec fn rail(left: Seq<char>, mid: Seq<char>, right: Seq<char>) -> Seq<char> {
    "┊ "@ + left + mid + right + " ┊"@
}

/// A component name that denotes self-attention (not cross-attention).
pub open spec fn attention_component(name: Seq<char>) -> bool {
    has_substring(ascii_lower(name), "attention"@) && !has_substring(ascii_lower(name), "cross"@)
}

/// The bullet label of a component, with the attention detail on attention rows.
pub open spec fn component_label(comp: Seq<char>, detail: Seq<char>) -> Seq<char> {
    if attention_component(comp) && detail.len() > 0 {
        "○ "@ + comp + " "@ + detail
    } else {
        "○ "@ + comp
    }
}

/// One component row of the repeated block.
pub open spec fn component_row(comp: Seq<char>, detail: Seq<char>, inner: nat) -> Seq<char> {
    rail("│"@, indented(component_label(comp, detail), inner, 3), "│"@)
}

/// Width left for the repeated block's inner box.
pub open spec fn block_inner_width(outer: nat) -> nat {
    if outer >= 4 {
        (outer - 4) as nat
    } else {
        0
    }
}

/// The repeated block: a titled box, one row per component, inside repeat markers.
pub open spec fn repeated_block_lines(
    title: Seq<char>,
    comps: Seq<Seq<char>>,
    detail: Seq<char>,
    outer: nat,
) -> Seq<Seq<char>> {
    let bi = block_inner_width(outer);
    seq![
        rail("╭"@, repeat("─"@, bi), "╮"@),
        rail("│"@, centered(title, bi), "│"@),
        rail("├"@, repeat("─"@, bi), "┤"@),
    ] + comps.map_values(|c: Seq<char>| component_row(c, detail, bi)) + seq![
        rail("╰"@, repeat("─"@, bi), "╯"@),
    ]
}

/// The attention annotation: the attention kind, the head count and the
/// key/value head count that are known, in parentheses, or nothing.
pub open spec fn attention_parts(arch: ArchitectureInfo) -> Seq<Seq<char>> {
    let kind = match arch.attention_type {
        Some(a) => seq![a@],
        None => Seq::empty(),
    };
    let heads = match arch.num_heads {
        Some(h) => seq![decimal(h as nat) + " heads"@],
        None => Seq::empty(),
    };
    let kv = match arch.num_key_value_heads {
        Some(k) => seq![decimal(k as nat) + " kv"@],
        None => Seq::empty(),
    };
    kind + heads + kv
}

pub open spec fn attention_detail_text(arch: ArchitectureInfo) -> Seq<char> {
    let parts = attention_parts(arch);
    if parts.len() == 0 {
        Seq::empty()
    } else {
        "("@ + join(parts, ", "@) + ")"@
    }
}

/// The text shown for the number of repeated blocks.
pub open spec fn repeat_count_text(arch: ArchitectureInfo) -> Seq<char> {
    match arch.num_layers {
        Some(n) => decimal(n as nat),
        None => "N"@,
    }
}

/// The subtitle of the embedding box.
pub open spec fn embedding_subtitle(arch: ArchitectureInfo) -> Option<Seq<char>> {
    match arch.hidden_size {
        Some(h) => Some("(hidden_size = "@ + decimal(h as nat) + ")"@),
        None => None,
    }
}

/// All rows of the graph, top to bottom: embedding box, arrow, repeated block,
/// arrow, final norm box, arrow, output head box.
pub open spec fn graph_lines(arch: ArchitectureInfo) -> Seq<Seq<char>> {
    let iw = GRAPH_INNER_WIDTH as nat;
    let layout = layout_for(family_key(opt_view(arch.model_type)));
    let arrow = centered_left("▼"@, iw + 2);
    let title = layout.0 + "  x "@ + repeat_count_text(arch);
    single_box_lines("Token Embedding Layer"@, embedding_subtitle(arch), iw) + seq![arrow]
        + repeated_block_lines(title, layout.1, attention_detail_text(arch), iw) + seq![arrow]
        + single_box_lines("Final RMSNorm"@, None, iw) + seq![arrow] + single_box_lines(
        "LM Head (Output)"@,
        None,
        iw,
    )
}

/// The graph as one text, rows separated by newlines.
pub open spec fn graph_text(arch: ArchitectureInfo) -> Seq<char> {
    join(graph_lines(arch), "\n"@)
}

// ---------------------------------------------------------------------------
// Laws of the padding helpers
// ---------------------------------------------------------------------------
pub proof fn spaces_len(n: nat)
    ensures
        spaces(n).len() == n,
    decreases n,
{
    reveal_strlit(" ");
    if n > 0 {
        spaces_len((n - 1) as nat);
    }
}

/// Centring always yields exactly `width` characters.
pub proof fn centered_has_width(text: Seq<char>, width: nat)
    ensures
        centered(text, width).len() == width,
{
    if text.len() < width {
        let left = ((width - text.len()) / 2) as nat;
        let right = (width - text.len() - left) as nat;
        spaces_len(left);
        spaces_len(right);
    }
}

/// Indenting always yields exactly `width` characters.
pub proof fn indented_has_width(text: Seq<char>, width: nat, indent: nat)
    ensures
        indented(text, width, indent).len() == width,
{
    spaces_len(indent);
    let content = spaces(indent) + text;
    if content.len() < width {
        spaces_len((width - content.len()) as nat);
    }
}

/// Centring keeps the whole text when it fits, and only ever cuts it otherwise.
pub proof fn centered_keeps_fitting_text(text: Seq<char>, width: nat)
    ensures
        text.len() <= width ==> has_substring(centered(text, width), text),
        text.len() > width ==> centered(text, width) == text.take(width as int),
{
    if text.len() < width {
        let left = ((width - text.len()) / 2) as nat;
        let right = (width - text.len() - left) as nat;
        spaces_len(left);
        let c = centered(text, width);
        assert(c.subrange(left as int, left + text.len() as int) =~= text);
        assert(crate::text::occurs_at(c, text, left as int));
    } else if text.len() == width {
        assert(text.take(width as int) =~= text);
        assert(text.subrange(0, text.len() as int) =~= text);
        assert(crate::text::occurs_at(centered(text, width), text, 0));
    }
}

/// The repeated block lines up with the boxes above and below it: every row of
/// the block and every row of a box of the same outer width is that width plus
/// the two border columns.
pub proof fn block_rows_match_box_width(
    title: Seq<char>,
    comps: Seq<Seq<char>>,
    detail: Seq<char>,
    box_title: Seq<char>,
    subtitle: Option<Seq<char>>,
    outer: nat,
)
    requires
        outer >= 4,
    ensures
        forall|i: int|
            0 <= i < repeated_block_lines(title, comps, detail, outer).len() ==> (
            #[trigger] repeated_block_lines(title, comps, detail, outer)[i]).len() == outer + 2,
        forall|i: int|
            0 <= i < single_box_lines(box_title, subtitle, outer).len() ==> (
            #[trigger] single_box_lines(box_title, subtitle, outer)[i]).len() == outer + 2,
{
    reveal_strlit("┊ ");
    reveal_strlit(" ┊");
    reveal_strlit("─");
    reveal_strlit("╭");
    reveal_strlit("╮");
    reveal_strlit("│");
    reveal_strlit("├");
    reveal_strlit("┤");
    reveal_strlit("╰");
    reveal_strlit("╯");
    let bi = block_inner_width(outer);
    lemma_repeat_len("─"@, bi);
    lemma_repeat_len("─"@, outer);
    centered_has_width(title, bi);
    centered_has_width(box_title, outer);
    if subtitle is Some {
        centered_has_width(subtitle->0, outer);
    }
    let lines = repeated_block_lines(title, comps, detail, outer);
    let rows = comps.map_values(|c: Seq<char>| component_row(c, detail, bi));
    assert forall|i: int| 0 <= i < lines.len() implies (#[trigger] lines[i]).len() == outer + 2 by {
        if 3 <= i < 3 + comps.len() {
            assert(lines[i] == rows[i - 3]);
            indented_has_width(component_label(comps[i - 3], detail), bi, 3);
        }
    }
}

// ---------------------------------------------------------------------------
// Executable code
// ---------------------------------------------------------------------------
/// The box-drawing sketch of a model: embedding layer, the repeated block with
/// its sub-layers (the attention row annotated with the attention kind, head
/// and key/value head counts), the final norm and the output head.
pub fn build_architecture_graph(architecture: &ArchitectureInfo) -> (r: String)
    ensures
        r@ == graph_text(*architecture),
{
    let iw = GRAPH_INNER_WIDTH;
    let (block_label, components) = block_layout(opt_as_str(&architecture.model_type));
    let repeat = match architecture.num_layers {
        Some(n) => u64_to_string(n),
        None => owned("N"),
    };
    let mut lines: Vec<String> = Vec::new();
    let emb_sub: Option<String> = match architecture.hidden_size {
        Some(h) => {
            let hs = u64_to_string(h);
            Some(concat3("(hidden_size = ", hs.as_str(), ")"))
        },
        None => None,
    };
    let mut emb = single_box("Token Embedding Layer", opt_as_str(&emb_sub), iw);
    lines.append(&mut emb);
    lines.push(center_text("▼", iw + 2));
    let block_title = concat3(block_label, "  x ", repeat.as_str());
    let attn_detail = build_attention_detail(architecture);
    let mut block = repeated_block(block_title.as_str(), &components, attn_detail.as_str(), iw);
    lines.append(&mut block);
    lines.push(center_text("▼", iw + 2));
    let mut norm = single_box("Final RMSNorm", None, iw);
    lines.append(&mut norm);
    lines.push(center_text("▼", iw + 2));
    let mut head = single_box("LM Head (Output)", None, iw);
    lines.append(&mut head);
    proof {
        let arch = *architecture;
        let layout = layout_for(family_key(opt_view(arch.model_type)));
        assert(block_title@ == layout.0 + "  x "@ + repeat_count_text(arch));
        assert(string_views(lines@) =~= graph_lines(arch));
    }
    join_strings(&lines, "\n")
}

/// The attention annotation of the repeated block.
fn build_attention_detail(arch: &ArchitectureInfo) -> (r: String)
    ensures
        r@ == attention_detail_text(*arch),
{
    let mut parts: Vec<String> = Vec::new();
    if let Some(at) = &arch.attention_type {
        parts.push(at.clone());
    }
    if let Some(h) = arch.num_heads {
        let mut p = u64_to_string(h);
        p.append(" heads");
        parts.push(p);
    }
    if let Some(kv) = arch.num_key_value_heads {
        let mut p = u64_to_string(kv);
        p.append(" kv");
        parts.push(p);
    }
    assert(string_views(parts@) =~= attention_parts(*arch));
    if parts.len() == 0 {
        String::new()
    } else {
        let joined = join_strings(&parts, ", ");
        concat3("(", joined.as_str(), ")")
    }
}

/// A box with a centred title and an optional centred subtitle.
fn single_box(title: &str, subtitle: Option<&str>, inner_width: usize) -> (r: Vec<String>)
    ensures
        string_views(r@) == single_box_lines(
            title@,
            crate::types::opt_str_view(subtitle),
            inner_width as nat,
        ),
{
    let mut out: Vec<String> = Vec::new();
    let bar = repeat_str("─", inner_width);
    out.push(concat3("╭", bar.as_str(), "╮"));
    let t = center_pad(title, inner_width);
    out.push(concat3("│", t.as_str(), "│"));
    if let Some(sub) = subtitle {
        let s = center_pad(sub, inner_width);
        out.push(concat3("│", s.as_str(), "│"));
    }
    out.push(concat3("╰", bar.as_str(), "╯"));
    assert(string_views(out@) =~= single_box_lines(
        title@,
        crate::types::opt_str_view(subtitle),
        inner_width as nat,
    ));
    out
}

/// One row of the repeated block.
fn rail_row(left: &str, mid: &str, right: &str) -> (r: String)
    ensures
        r@ == rail(left@, mid@, right@),
{
    let mut r = owned("┊ ");
    r.append(left);
    r.append(mid);
    r.append(right);
    r.append(" ┊");
    r
}

/// The repeated block, framed by dotted repeat markers.
fn repeated_block(title: &str, components: &Vec<&'static str>, attn_detail: &str, outer_inner: usize) -> (r:
    Vec<String>)
    ensures
        string_views(r@) == repeated_block_lines(
            title@,
            str_views(components@),
            attn_detail@,
            outer_inner as nat,
        ),
{
    let block_inner = if outer_inner >= 4 {
        outer_inner - 4
    } else {
        0
    };
    let ghost bi = block_inner as nat;
    let ghost comps = str_views(components@);
    let bar = repeat_str("─", block_inner);
    let mut out: Vec<String> = Vec::new();
    out.push(rail_row("╭", bar.as_str(), "╮"));
    let t = center_pad(title, block_inner);
    out.push(rail_row("│", t.as_str(), "│"));
    out.push(rail_row("├", bar.as_str(), "┤"));
    let ghost head = string_views(out@);
    let mut i: usize = 0;
    while i < components.len()
        invariant
            i <= components.len(),
            comps == str_views(components@),
            bi == block_inner,
            head.len() == 3,
            string_views(out@) == head + comps.take(i as int).map_values(
                |c: Seq<char>| component_row(c, attn_detail@, bi),
            ),
        decreases components.len() - i,
    {
        let comp = components[i];
        let label = if is_attention_component(comp) && char_count(attn_detail) > 0 {
            let mut l = owned("○ ");
            l.append(comp);
            l.append(" ");
            l.append(attn_detail);
            l
        } else {
            let mut l = owned("○ ");
            l.append(comp);
            l
        };
        let padded = left_pad(label.as_str(), block_inner, 3);
        let row = rail_row("│", padded.as_str(), "│");
        let ghost prev = out@;
        out.push(row);
        proof {
            assert(comps[i as int] == comp@);
            assert(label@ == component_label(comp@, attn_detail@));
            assert(row@ == component_row(comp@, attn_detail@, bi));
            assert(string_views(out@) =~= string_views(prev).push(row@));
            assert(comps.take(i + 1).map_values(|c: Seq<char>| component_row(c, attn_detail@, bi))
                =~= comps.take(i as int).map_values(
                |c: Seq<char>| component_row(c, attn_detail@, bi),
            ).push(component_row(comp@, attn_detail@, bi)));
            assert(string_views(out@) =~= head + comps.take(i + 1).map_values(
                |c: Seq<char>| component_row(c, attn_detail@, bi),
            ));
        }
        i += 1;
    }
    let last = rail_row("╰", bar.as_str(), "╯");
    let ghost prev = out@;
    out.push(last);
    proof {
        assert(comps.take(components.len() as int) =~= comps);
        assert(string_views(out@) =~= string_views(prev).push(last@));
        let rows = comps.map_values(|c: Seq<char>| component_row(c, attn_detail@, bi));
        assert(bi == block_inner_width(outer_inner as nat));
        assert(head =~= seq![
            rail("╭"@, repeat("─"@, bi), "╮"@),
            rail("│"@, centered(title@, bi), "│"@),
            rail("├"@, repeat("─"@, bi), "┤"@),
        ]);
        assert(string_views(out@) =~= head + rows + seq![rail("╰"@, repeat("─"@, bi), "╯"@)]);
        assert(string_views(out@) =~= repeated_block_lines(
            title@,
            comps,
            attn_detail@,
            outer_inner as nat,
        ));
    }
    out
}

/// Whether a component name denotes self-attention.
fn is_attention_component(name: &str) -> (r: bool)
    ensures
        r == attention_component(name@),
{
    let lower = lowercase_chars(name);
    contains_str(&lower, "attention") && !contains_str(&lower, "cross")
}

/// `text` centred in exactly `width` characters.
pub fn center_pad(text: &str, width: usize) -> (r: String)
    ensures
        r@ == centered(text@, width as nat),
        r@.len() == width,
{
    proof {
        centered_has_width(text@, width as nat);
    }
    let text_len = char_count(text);
    if text_len >= width {
        return take_chars(text, width);
    }
    let left = (width - text_len) / 2;
    let right = width - text_len - left;
    let l = repeat_str(" ", left);
    let r = repeat_str(" ", right);
    concat3(l.as_str(), text, r.as_str())
}

/// `text` after `indent` spaces, padded or cut to exactly `width` characters.
pub fn left_pad(text: &str, width: usize, indent: usize) -> (r: String)
    ensures
        r@ == indented(text@, width as nat, indent as nat),
        r@.len() == width,
{
    proof {
        indented_has_width(text@, width as nat, indent as nat);
        spaces_len(indent as nat);
    }
    let mut content = repeat_str(" ", indent);
    content.append(text);
    let content_len = char_count(content.as_str());
    if content_len >= width {
        return take_chars(content.as_str(), width);
    }
    let pad = repeat_str(" ", width - content_len);
    content.append(pad.as_str());
    content
}

/// `text` preceded by enough spaces to centre it in `width` characters.
pub fn center_text(text: &str, width: usize) -> (r: String)
    ensures
        r@ == centered_left(text@, width as nat),
{
    let text_len = char_count(text);
    if text_len >= width {
        return owned(text);
    }
    let left = (width - text_len) / 2;
    let mut r = repeat_str(" ", left);
    r.append(text);
    r
}

} // verus!
