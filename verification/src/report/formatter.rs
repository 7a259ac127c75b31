//! Text layout for the terminal report: panel width, word wrapping, cutting
//! long values, and the rows of a panel.
use crate::text::{
    char_count, chars_of, decimal, owned, repeat, repeat_str, string_from_chars, string_views, take_chars,
    u64_to_string,
};
use crate::types::{CompareMetricDiff, ModelSourceKind};
use vstd::prelude::*;

verus! {

/// Panel width when the terminal width is unknown.
pub const DEFAULT_PANEL_WIDTH: usize = 96;

/// Narrowest panel drawn.
pub const MIN_PANEL_WIDTH: usize = 40;

/// Most tensors listed in the "Top Tensors" panel.
pub const MAX_TOP_TENSORS: usize = 20;

/// Which optional sections a report shows.
#[derive(Debug, Clone, Copy, Default)]
pub struct RenderOptions {
    pub show_params: bool,
    pub show_graph: bool,
    pub show_attention_breakdown: bool,
}

// ---------------------------------------------------------------------------
// Specifications
// ---------------------------------------------------------------------------
/// The panel width for a terminal of `columns` columns: four columns of margin,
/// but never narrower than `MIN_PANEL_WIDTH`; `DEFAULT_PANEL_WIDTH` when unknown.
pub open spec fn panel_width_for(columns: Option<usize>) -> nat {
    match columns {
        Some(c) => {
            let w: nat = if c >= 4 {
                (c - 4) as nat
            } else {
                0
            };
            if w >= MIN_PANEL_WIDTH {
                w
            } else {
                MIN_PANEL_WIDTH as nat
            }
        },
        None => DEFAULT_PANEL_WIDTH as nat,
    }
}

/// An optional count as text, `-` when absent.
pub open spec fn opt_u64_text(value: Option<u64>) -> Seq<char> {
    match value {
        Some(v) => decimal(v as nat),
        None => "-"@,
    }
}

/// The label of a source kind.
pub open spec fn source_kind_text(kind: ModelSourceKind) -> Seq<char> {
    match kind {
        ModelSourceKind::LocalPath => "local_path"@,
        ModelSourceKind::HuggingFace => "hugging_face"@,
    }
}

/// `s` cut to at most `max_len` characters, the last one kept being replaced by
/// an ellipsis when something was cut.
pub open spec fn truncated(s: Seq<char>, max_len: nat) -> Seq<char> {
    if max_len == 0 {
        Seq::empty()
    } else if s.len() <= max_len {
        s
    } else {
        s.take(max_len - 1).push('…')
    }
}

/// Unicode white space, as `char::is_whitespace` defines it.
pub open spec fn is_white(c: char) -> bool {
    ||| ('\t' <= c && c <= '\r')
    ||| c == ' '
    ||| c == '\u{85}'
    ||| c == '\u{a0}'
    ||| c == '\u{1680}'
    ||| ('\u{2000}' <= c && c <= '\u{200a}')
    ||| c == '\u{2028}'
    ||| c == '\u{2029}'
    ||| c == '\u{202f}'
    ||| c == '\u{205f}'
    ||| c == '\u{3000}'
}

/// Scanning state after reading `s`: the words completed so far and the word
/// being read.
pub open spec fn word_scan(s: Seq<char>) -> (Seq<Seq<char>>, Seq<char>)
    decreases s.len(),
{
    if s.len() == 0 {
        (Seq::empty(), Seq::empty())
    } else {
        let (done, cur) = word_scan(s.drop_last());
        let c = s.last();
        if is_white(c) {
            if cur.len() > 0 {
                (done.push(cur), Seq::empty())
            } else {
                (done, cur)
            }
        } else {
            (done, cur.push(c))
        }
    }
}

/// The maximal runs of non-white-space characters of `s`, in order
/// (`split_whitespace`).
pub open spec fn words(s: Seq<char>) -> Seq<Seq<char>> {
    let (done, cur) = word_scan(s);
    if cur.len() > 0 {
        done.push(cur)
    } else {
        done
    }
}

/// `w` cut into pieces of `width` characters, the last one possibly shorter.
pub open spec fn chunks(w: Seq<char>, width: nat) -> Seq<Seq<char>>
    decreases w.len(),
{
    if width == 0 || w.len() == 0 {
        Seq::empty()
    } else if w.len() <= width {
        seq![w]
    } else {
        seq![w.take(width as int)] + chunks(w.skip(width as int), width)
    }
}

/// What `split_word` returns: one empty piece for width zero, else the chunks.
pub open spec fn split_pieces(w: Seq<char>, width: nat) -> Seq<Seq<char>> {
    if width == 0 {
        seq![Seq::empty()]
    } else {
        chunks(w, width)
    }
}

/// One step of greedy wrapping: lines done, line being filled, next word.
pub open spec fn wrap_step(
    done: Seq<Seq<char>>,
    cur: Seq<char>,
    word: Seq<char>,
    width: nat,
) -> (Seq<Seq<char>>, Seq<char>) {
    if word.len() > width {
        let flushed = if cur.len() > 0 {
            done.push(cur)
        } else {
            done
        };
        (flushed + chunks(word, width), Seq::empty())
    } else {
        let candidate = if cur.len() == 0 {
            word.len()
        } else {
            cur.len() + 1 + word.len()
        };
        if candidate > width && cur.len() > 0 {
            (done.push(cur), word)
        } else if cur.len() == 0 {
            (done, word)
        } else {
            (done, cur + seq![' '] + word)
        }
    }
}

/// Greedy wrapping of a sequence of words.
pub open spec fn wrap_words(ws: Seq<Seq<char>>, width: nat) -> (Seq<Seq<char>>, Seq<char>)
    decreases ws.len(),
{
    if ws.len() == 0 {
        (Seq::empty(), Seq::empty())
    } else {
        let (done, cur) = wrap_words(ws.drop_last(), width);
        wrap_step(done, cur, ws.last(), width)
    }
}

/// The lines that `s` is wrapped into for a panel of `width` columns: `s` itself
/// when it fits, else its words filled greedily, words longer than a line being
/// cut into pieces.
pub open spec fn wrapped(s: Seq<char>, width: nat) -> Seq<Seq<char>> {
    if width == 0 {
        seq![Seq::empty()]
    } else if s.len() <= width {
        seq![s]
    } else {
        let (done, cur) = wrap_words(words(s), width);
        let lines = if cur.len() > 0 {
            done.push(cur)
        } else {
            done
        };
        if lines.len() == 0 {
            chunks(s, width)
        } else {
            lines
        }
    }
}

/// `row` padded with spaces on the right to `iw` characters (unchanged when it
/// is already that long).
pub open spec fn padded(row: Seq<char>, iw: nat) -> Seq<char> {
    row + repeat(" "@, if row.len() < iw { (iw - row.len()) as nat } else { 0 })
}

/// The rows of a panel of inner width `iw`: every line wrapped, and every
/// wrapped piece padded with spaces to `iw` characters.
pub open spec fn panel_rows(lines: Seq<Seq<char>>, iw: nat) -> Seq<Seq<char>>
    decreases lines.len(),
{
    if lines.len() == 0 {
        Seq::empty()
    } else {
        panel_rows(lines.drop_last(), iw) + wrapped(lines.last(), iw).map_values(
            |w: Seq<char>| padded(w, iw),
        )
    }
}

/// The number of compared metrics whose two sides differ.
pub open spec fn changed_count(diffs: Seq<CompareMetricDiff>) -> nat
    decreases diffs.len(),
{
    if diffs.len() == 0 {
        0
    } else {
        changed_count(diffs.drop_last()) + if diffs.last().left@ != diffs.last().right@ {
            1nat
        } else {
            0nat
        }
    }
}

// ---------------------------------------------------------------------------
// Laws
// ---------------------------------------------------------------------------
/// Cutting never yields more than `max_len` characters, and leaves a text that
/// fits unchanged.
pub proof fn truncated_fits(s: Seq<char>, max_len: nat)
    ensures
        truncated(s, max_len).len() <= max_len,
        max_len > 0 && s.len() <= max_len ==> truncated(s, max_len) == s,
{
}

/// The pieces of a word, put back together, are the word; each piece is
/// non-empty and at most `width` long, and all but the last are exactly `width`.
pub proof fn chunks_rebuild_word(w: Seq<char>, width: nat)
    requires
        width > 0,
    ensures
        crate::text::join(chunks(w, width), Seq::empty()) == w,
        forall|i: int|
            0 <= i < chunks(w, width).len() ==> 0 < (#[trigger] chunks(w, width)[i]).len() <= width,
        forall|i: int|
            0 <= i < chunks(w, width).len() - 1 ==> (#[trigger] chunks(w, width)[i]).len() == width,
    decreases w.len(),
{
    if w.len() > width {
        let rest = w.skip(width as int);
        chunks_rebuild_word(rest, width);
        lemma_join_prepend(w.take(width as int), chunks(rest, width));
        assert(w.take(width as int) + rest =~= w);
        let c = chunks(w, width);
        assert(c == seq![w.take(width as int)] + chunks(rest, width));
        assert forall|i: int| 0 < i < c.len() implies c[i] == chunks(rest, width)[i - 1] by {}
    } else if w.len() > 0 {
        assert(crate::text::join(seq![w], Seq::empty()) == w);
    } else {
        assert(chunks(w, width) =~= Seq::<Seq<char>>::empty());
        assert(w =~= Seq::<char>::empty());
    }
}

/// Joining without separator distributes over putting a text in front.
proof fn lemma_join_prepend(first: Seq<char>, rest: Seq<Seq<char>>)
    ensures
        crate::text::join(seq![first] + rest, Seq::empty()) == first + crate::text::join(
            rest,
            Seq::empty(),
        ),
    decreases rest.len(),
{
    let all = seq![first] + rest;
    if rest.len() == 0 {
        assert(all =~= seq![first]);
        assert(first + Seq::<char>::empty() =~= first);
    } else {
        lemma_join_prepend(first, rest.drop_last());
        assert(all.drop_last() =~= seq![first] + rest.drop_last());
        assert(all.last() == rest.last());
        if rest.len() == 1 {
            assert(rest.drop_last() =~= Seq::<Seq<char>>::empty());
            assert(crate::text::join(rest, Seq::empty()) == rest[0]);
            assert(first + Seq::<char>::empty() =~= first);
        }
        assert(crate::text::join(all, Seq::empty()) =~= first + crate::text::join(rest, Seq::empty()));
    }
}

proof fn lemma_chunks_bounded(w: Seq<char>, width: nat)
    requires
        width > 0,
    ensures
        forall|i: int|
            0 <= i < chunks(w, width).len() ==> (#[trigger] chunks(w, width)[i]).len() <= width,
    decreases w.len(),
{
    if w.len() > width {
        lemma_chunks_bounded(w.skip(width as int), width);
        let c = chunks(w, width);
        assert forall|i: int| 0 < i < c.len() implies c[i] == chunks(w.skip(width as int), width)[i
            - 1] by {}
    }
}

proof fn lemma_wrap_words_bounded(ws: Seq<Seq<char>>, width: nat)
    requires
        width > 0,
    ensures
        forall|i: int|
            0 <= i < wrap_words(ws, width).0.len() ==> (#[trigger] wrap_words(ws, width).0[i]).len()
                <= width,
        wrap_words(ws, width).1.len() <= width,
    decreases ws.len(),
{
    if ws.len() > 0 {
        lemma_wrap_words_bounded(ws.drop_last(), width);
        let (done, cur) = wrap_words(ws.drop_last(), width);
        let word = ws.last();
        lemma_chunks_bounded(word, width);
        let r = wrap_step(done, cur, word, width);
        if word.len() > width {
            let flushed = if cur.len() > 0 {
                done.push(cur)
            } else {
                done
            };
            assert forall|i: int| 0 <= i < r.0.len() implies (#[trigger] r.0[i]).len() <= width by {
                if i >= flushed.len() {
                    assert(r.0[i] == chunks(word, width)[i - flushed.len()]);
                }
            }
        }
    }
}

/// Every wrapped line fits in the panel: for a positive width no line is
/// longer than `width`.
pub proof fn wrapped_lines_fit(s: Seq<char>, width: nat)
    requires
        width > 0,
    ensures
        forall|i: int|
            0 <= i < wrapped(s, width).len() ==> (#[trigger] wrapped(s, width)[i]).len() <= width,
{
    lemma_wrap_words_bounded(words(s), width);
    lemma_chunks_bounded(s, width);
}

/// Every row of a panel is exactly as wide as the panel.
pub proof fn panel_rows_have_panel_width(lines: Seq<Seq<char>>, iw: nat)
    requires
        iw > 0,
    ensures
        forall|i: int|
            0 <= i < panel_rows(lines, iw).len() ==> (#[trigger] panel_rows(lines, iw)[i]).len() == iw,
    decreases lines.len(),
{
    reveal_strlit(" ");
    if lines.len() > 0 {
        panel_rows_have_panel_width(lines.drop_last(), iw);
        let pre = panel_rows(lines.drop_last(), iw);
        let w = wrapped(lines.last(), iw);
        wrapped_lines_fit(lines.last(), iw);
        let added = w.map_values(|x: Seq<char>| padded(x, iw));
        assert forall|i: int| 0 <= i < added.len() implies (#[trigger] added[i]).len() == iw by {
            crate::text::lemma_repeat_len(" "@, (iw - w[i].len()) as nat);
        }
        let all = panel_rows(lines, iw);
        assert forall|i: int| 0 <= i < all.len() implies (#[trigger] all[i]).len() == iw by {
            if i >= pre.len() {
                assert(all[i] == added[i - pre.len()]);
            }
        }
    }
}

// ---------------------------------------------------------------------------
// Executable code
// ---------------------------------------------------------------------------
/// The panel width for a terminal of `columns` columns.
pub fn compute_panel_width(columns: Option<usize>) -> (r: usize)
    ensures
        r == panel_width_for(columns),
{
    match columns {
        Some(cols) => {
            let w = cols.saturating_sub(4);
            if w >= MIN_PANEL_WIDTH {
                w
            } else {
                MIN_PANEL_WIDTH
            }
        },
        None => DEFAULT_PANEL_WIDTH,
    }
}

/// An optional count as text, `-` when absent.
pub fn opt_u64(value: Option<u64>) -> (r: String)
    ensures
        r@ == opt_u64_text(value),
{
    match value {
        Some(v) => u64_to_string(v),
        None => owned("-"),
    }
}

/// The label of a source kind.
pub fn source_kind_label(kind: &ModelSourceKind) -> (r: String)
    ensures
        r@ == source_kind_text(*kind),
{
    match kind {
        ModelSourceKind::LocalPath => owned("local_path"),
        ModelSourceKind::HuggingFace => owned("hugging_face"),
    }
}

/// `s` cut to at most `max_len` characters, ending in an ellipsis when cut.
pub fn truncate(s: &str, max_len: usize) -> (r: String)
    ensures
        r@ == truncated(s@, max_len as nat),
{
    if max_len == 0 {
        return String::new();
    }
    if char_count(s) <= max_len {
        return owned(s);
    }
    let mut v = chars_of(take_chars(s, max_len - 1).as_str());
    v.push('…');
    string_from_chars(&v)
}

/// Unicode white space (`char::is_whitespace`).
pub fn is_white_char(c: char) -> (r: bool)
    ensures
        r == is_white(c),
{
    ('\t' <= c && c <= '\r') || c == ' ' || c == '\u{85}' || c == '\u{a0}' || c == '\u{1680}' || (
    '\u{2000}' <= c && c <= '\u{200a}') || c == '\u{2028}' || c == '\u{2029}' || c == '\u{202f}' || c
        == '\u{205f}' || c == '\u{3000}'
}

/// The words of `s` (`split_whitespace`), as character vectors.
pub fn split_words(s: &Vec<char>) -> (r: Vec<Vec<char>>)
    ensures
        r@.map_values(|w: Vec<char>| w@) == words(s@),
{
    let mut done: Vec<Vec<char>> = Vec::new();
    let mut cur: Vec<char> = Vec::new();
    let mut i: usize = 0;
    while i < s.len()
        invariant
            i <= s.len(),
            done@.map_values(|w: Vec<char>| w@) == word_scan(s@.take(i as int)).0,
            cur@ == word_scan(s@.take(i as int)).1,
        decreases s.len() - i,
    {
        proof {
            assert(s@.take(i + 1).drop_last() =~= s@.take(i as int));
        }
        let c = s[i];
        if is_white_char(c) {
            if cur.len() > 0 {
                let ghost before = done@;
                let w = cur;
                done.push(w);
                cur = Vec::new();
                proof {
                    assert(done@.map_values(|w: Vec<char>| w@) =~= before.map_values(|w: Vec<char>| w@).push(
                        w@,
                    ));
                }
            }
        } else {
            cur.push(c);
        }
        i += 1;
    }
    assert(s@.take(s.len() as int) =~= s@);
    if cur.len() > 0 {
        let ghost before = done@;
        let w = cur;
        done.push(w);
        assert(done@.map_values(|w: Vec<char>| w@) =~= before.map_values(|w: Vec<char>| w@).push(w@));
    }
    done
}

fn string_of_range(v: &Vec<char>, lo: usize, hi: usize) -> (r: String)
    requires
        lo <= hi <= v.len(),
    ensures
        r@ == v@.subrange(lo as int, hi as int),
{
    let mut out: Vec<char> = Vec::new();
    let mut i = lo;
    while i < hi
        invariant
            lo <= i <= hi <= v.len(),
            out@ == v@.subrange(lo as int, i as int),
        decreases hi - i,
    {
        out.push(v[i]);
        i += 1;
        assert(out@ =~= v@.subrange(lo as int, i as int));
    }
    string_from_chars(&out)
}

fn chunk_chars(w: &Vec<char>, width: usize) -> (r: Vec<String>)
    requires
        width > 0,
    ensures
        string_views(r@) == chunks(w@, width as nat),
{
    let mut out: Vec<String> = Vec::new();
    let mut i: usize = 0;
    assert(w@.skip(0) =~= w@);
    assert(string_views(out@) + chunks(w@, width as nat) =~= chunks(w@, width as nat));
    while i < w.len()
        invariant
            width > 0,
            i <= w.len(),
            string_views(out@) + chunks(w@.skip(i as int), width as nat) == chunks(w@, width as nat),
        decreases w.len() - i,
    {
        let end = if w.len() - i > width {
            i + width
        } else {
            w.len()
        };
        let piece = string_of_range(w, i, end);
        let ghost before = out@;
        out.push(piece);
        proof {
            let rest = w@.skip(i as int);
            assert(string_views(out@) =~= string_views(before).push(piece@));
            if rest.len() > width {
                assert(rest.take(width as int) =~= w@.subrange(i as int, end as int));
                assert(rest.skip(width as int) =~= w@.skip(end as int));
                assert(chunks(rest, width as nat) == seq![rest.take(width as int)] + chunks(
                    rest.skip(width as int),
                    width as nat,
                ));
                assert(string_views(out@) + chunks(w@.skip(end as int), width as nat) =~= string_views(
                    before,
                ) + chunks(rest, width as nat));
            } else {
                assert(rest =~= w@.subrange(i as int, end as int));
                assert(w@.skip(end as int) =~= Seq::<char>::empty());
                assert(chunks(w@.skip(end as int), width as nat) =~= Seq::<Seq<char>>::empty());
                assert(string_views(out@) + chunks(w@.skip(end as int), width as nat) =~= string_views(
                    before,
                ) + chunks(rest, width as nat));
            }
        }
        i = end;
    }
    assert(w@.skip(w.len() as int) =~= Seq::<char>::empty());
    assert(string_views(out@) + Seq::<Seq<char>>::empty() =~= string_views(out@));
    out
}

/// `word` cut into pieces of `width` characters (one empty piece for width zero).
pub fn split_word(word: &str, width: usize) -> (r: Vec<String>)
    ensures
        string_views(r@) == split_pieces(word@, width as nat),
{
    if width == 0 {
        let r = vec![String::new()];
        assert(string_views(r@) =~= seq![Seq::<char>::empty()]);
        return r;
    }
    let w = chars_of(word);
    chunk_chars(&w, width)
}

/// `s` wrapped into lines of at most `width` characters.
pub fn wrap_line(s: &str, width: usize) -> (r: Vec<String>)
    ensures
        string_views(r@) == wrapped(s@, width as nat),
{
    if width == 0 {
        let r = vec![String::new()];
        assert(string_views(r@) =~= seq![Seq::<char>::empty()]);
        return r;
    }
    if char_count(s) <= width {
        let r = vec![owned(s)];
        assert(string_views(r@) =~= seq![s@]);
        return r;
    }
    let chars = chars_of(s);
    let ws = split_words(&chars);
    let ghost wv = ws@.map_values(|w: Vec<char>| w@);
    let mut out: Vec<String> = Vec::new();
    let mut current: Vec<char> = Vec::new();
    let mut k: usize = 0;
    while k < ws.len()
        invariant
            width > 0,
            k <= ws.len(),
            wv == ws@.map_values(|w: Vec<char>| w@),
            string_views(out@) == wrap_words(wv.take(k as int), width as nat).0,
            current@ == wrap_words(wv.take(k as int), width as nat).1,
        decreases ws.len() - k,
    {
        proof {
            assert(wv.take(k + 1).drop_last() =~= wv.take(k as int));
            assert(wv.take(k + 1).last() == ws@[k as int]@);
            lemma_wrap_words_bounded(wv.take(k as int), width as nat);
        }
        let word = &ws[k];
        let word_len = word.len();
        let ghost before = out@;
        if word_len > width {
            if current.len() > 0 {
                let line = string_from_chars(&current);
                out.push(line);
                current = Vec::new();
                assert(string_views(out@) =~= string_views(before).push(line@));
            }
            let ghost mid = out@;
            let mut pieces = chunk_chars(word, width);
            let ghost pv = pieces@;
            out.append(&mut pieces);
            assert(string_views(out@) =~= string_views(mid) + string_views(pv));
        } else {
            // The line would overflow: `current.len() + 1 + word_len > width`.
            let overflows = current.len() > 0 && word_len >= width - current.len();
            if overflows {
                let line = string_from_chars(&current);
                out.push(line);
                assert(string_views(out@) =~= string_views(before).push(line@));
                current = word.clone();
                assert(current@ =~= word@);
            } else if current.len() == 0 {
                current = word.clone();
                assert(current@ =~= word@);
            } else {
                let ghost c0 = current@;
                current.push(' ');
                let mut j: usize = 0;
                while j < word.len()
                    invariant
                        j <= word.len(),
                        current@ == c0 + seq![' '] + word@.take(j as int),
                    decreases word.len() - j,
                {
                    current.push(word[j]);
                    j += 1;
                    assert(current@ =~= c0 + seq![' '] + word@.take(j as int));
                }
                assert(word@.take(word.len() as int) =~= word@);
            }
        }
        k += 1;
    }
    assert(wv.take(ws.len() as int) =~= wv);
    if current.len() > 0 {
        let ghost before = out@;
        let line = string_from_chars(&current);
        out.push(line);
        assert(string_views(out@) =~= string_views(before).push(line@));
    }
    if out.len() == 0 {
        return chunk_chars(&chars, width);
    }
    out
}

/// The rows of a panel of inner width `inner_width`: every line wrapped, and
/// every piece padded with spaces to the panel width.
pub fn panel_body(lines: &Vec<String>, inner_width: usize) -> (r: Vec<String>)
    ensures
        string_views(r@) == panel_rows(string_views(lines@), inner_width as nat),
{
    let ghost lv = string_views(lines@);
    let mut out: Vec<String> = Vec::new();
    let mut i: usize = 0;
    while i < lines.len()
        invariant
            i <= lines.len(),
            lv == string_views(lines@),
            string_views(out@) == panel_rows(lv.take(i as int), inner_width as nat),
        decreases lines.len() - i,
    {
        proof {
            assert(lv.take(i + 1).drop_last() =~= lv.take(i as int));
        }
        let pieces = wrap_line(lines[i].as_str(), inner_width);
        let ghost start = out@;
        let mut j: usize = 0;
        while j < pieces.len()
            invariant
                j <= pieces.len(),
                string_views(out@) == string_views(start) + string_views(pieces@).take(j as int).map_values(
                    |w: Seq<char>| padded(w, inner_width as nat),
                ),
            decreases pieces.len() - j,
        {
            let piece = &pieces[j];
            let count = char_count(piece.as_str());
            let pad_len = if count < inner_width {
                inner_width - count
            } else {
                0
            };
            let mut row = piece.clone();
            let pad = repeat_str(" ", pad_len);
            row.append(pad.as_str());
            let ghost before = out@;
            out.push(row);
            proof {
                assert(string_views(out@) =~= string_views(before).push(row@));
                assert(string_views(pieces@).take(j + 1) =~= string_views(pieces@).take(j as int).push(
                    piece@,
                ));
                assert(string_views(pieces@).take(j + 1).map_values(
                    |w: Seq<char>| padded(w, inner_width as nat),
                ) =~= string_views(pieces@).take(j as int).map_values(
                    |w: Seq<char>| padded(w, inner_width as nat),
                ).push(padded(piece@, inner_width as nat)));
            }
            j += 1;
        }
        proof {
            assert(string_views(pieces@).take(pieces.len() as int) =~= string_views(pieces@));
            assert(lv.take(i + 1).last() == lines@[i as int]@);
        }
        i += 1;
    }
    assert(lv.take(lines.len() as int) =~= lv);
    out
}

/// The number of compared metrics whose two sides differ.
pub fn count_changed(diffs: &Vec<CompareMetricDiff>) -> (r: usize)
    ensures
        r == changed_count(diffs@),
{
    let mut n: usize = 0;
    let mut i: usize = 0;
    while i < diffs.len()
        invariant
            i <= diffs.len(),
            n == changed_count(diffs@.take(i as int)),
            n <= i,
        decreases diffs.len() - i,
    {
        proof {
            assert(diffs@.take(i + 1).drop_last() =~= diffs@.take(i as int));
        }
        if diffs[i].left != diffs[i].right {
            n += 1;
        }
        i += 1;
    }
    assert(diffs@.take(diffs.len() as int) =~= diffs@);
    n
}

/// The marker of a compared metric: `≠` when its two sides differ, else `=`.
pub fn change_marker(diff: &CompareMetricDiff) -> (r: &'static str)
    ensures
        r@ == if diff.left@ != diff.right@ {
            "≠"@
        } else {
            "="@
        },
{
    if diff.left != diff.right {
        "≠"
    } else {
        "="
    }
}

} // verus!
