//! The display logic of the interactive terminal view: tab navigation, how
//! each line of the architecture graph is split into coloured runs, and the
//! small text helpers it shares with the plain report.
use crate::report::formatter::{is_white, is_white_char, opt_u64_text, source_kind_text};
use crate::text::{char_count, chars_of, decimal, owned, string_from_chars, take_chars, u64_to_string};
use crate::types::ModelSourceKind;
use vstd::prelude::*;

verus! {

// ---------------------------------------------------------------------------
// Tab navigation
// ---------------------------------------------------------------------------
/// Which tab is shown and how far its content is scrolled.
#[derive(Debug, Clone, Copy)]
pub struct TabCursor {
    pub active: usize,
    pub count: usize,
    pub scroll: u16,
}

/// The tab after `active` among `count` tabs, wrapping around after the last;
/// unchanged when there are no tabs.
pub open spec fn next_index(active: int, count: int) -> int {
    if count == 0 {
        active
    } else {
        (active + 1) % count
    }
}

/// The tab before `active` among `count` tabs, wrapping around before the
/// first; unchanged when there are no tabs.
pub open spec fn prev_index(active: int, count: int) -> int {
    if count == 0 {
        active
    } else if active == 0 {
        count - 1
    } else {
        active - 1
    }
}

impl TabCursor {
    /// A cursor on the first of `count` tabs, not scrolled.
    pub fn new(count: usize) -> (r: TabCursor)
        ensures
            r.active == 0,
            r.count == count,
            r.scroll == 0,
    {
        TabCursor { active: 0, count, scroll: 0 }
    }

    /// Moves to the next tab, wrapping around after the last one, and resets the
    /// scroll; does nothing when there are no tabs.
    pub fn next_tab(&mut self)
        requires
            old(self).count == 0 || old(self).active < usize::MAX,
        ensures
            final(self).active == next_index(old(self).active as int, old(self).count as int),
            final(self).count == old(self).count,
            final(self).scroll == (if old(self).count == 0 {
                old(self).scroll
            } else {
                0
            }),
    {
        if self.count == 0 {
            return ;
        }
        self.active = (self.active + 1) % self.count;
        self.scroll = 0;
    }

    /// Moves to the previous tab, wrapping around before the first one, and
    /// resets the scroll; does nothing when there are no tabs.
    pub fn prev_tab(&mut self)
        ensures
            final(self).active == prev_index(old(self).active as int, old(self).count as int),
            final(self).count == old(self).count,
            final(self).scroll == (if old(self).count == 0 {
                old(self).scroll
            } else {
                0
            }),
    {
        if self.count == 0 {
            return ;
        }
        self.active = if self.active == 0 {
            self.count - 1
        } else {
            self.active - 1
        };
        self.scroll = 0;
    }

    /// Scrolls down by `amount` lines, stopping at the largest offset.
    pub fn scroll_down(&mut self, amount: u16)
        ensures
            final(self).scroll == old(self).scroll.saturating_add(amount),
            final(self).active == old(self).active,
            final(self).count == old(self).count,
    {
        self.scroll = self.scroll.saturating_add(amount);
    }

    /// Scrolls up by `amount` lines, stopping at the top.
    pub fn scroll_up(&mut self, amount: u16)
        ensures
            final(self).scroll == old(self).scroll.saturating_sub(amount),
            final(self).active == old(self).active,
            final(self).count == old(self).count,
    {
        self.scroll = self.scroll.saturating_sub(amount);
    }
}

/// A key of the interactive view, as far as navigation cares.
#[derive(Debug, Clone, Copy, PartialEq, Eq, Structural)]
pub enum NavKey {
    Esc,
    Char(char),
    Right,
    Left,
    Tab,
    Down,
    Up,
    PageDown,
    PageUp,
    Home,
    End,
    Other,
}

/// What a key does to the cursor, and whether it closes the view: only presses
/// and repeats count; `q` and Esc quit; right, `l` and Tab go to the next tab,
/// left and `h` to the previous one; down and `j` scroll one line, up and `k`
/// back one; page down and space scroll eight lines, page up back eight; Home
/// goes to the top and End scrolls a thousand lines.
pub open spec fn key_effect(c: TabCursor, key: NavKey, pressed: bool) -> (TabCursor, bool) {
    if !pressed {
        (c, false)
    } else {
        match key {
            NavKey::Esc | NavKey::Char('q') => (c, true),
            NavKey::Right | NavKey::Char('l') | NavKey::Tab => (
                TabCursor {
                    active: next_index(c.active as int, c.count as int) as usize,
                    scroll: if c.count == 0 {
                        c.scroll
                    } else {
                        0
                    },
                    ..c
                },
                false,
            ),
            NavKey::Left | NavKey::Char('h') => (
                TabCursor {
                    active: prev_index(c.active as int, c.count as int) as usize,
                    scroll: if c.count == 0 {
                        c.scroll
                    } else {
                        0
                    },
                    ..c
                },
                false,
            ),
            NavKey::Down | NavKey::Char('j') => (TabCursor { scroll: c.scroll.saturating_add(1), ..c }, false),
            NavKey::Up | NavKey::Char('k') => (TabCursor { scroll: c.scroll.saturating_sub(1), ..c }, false),
            NavKey::PageDown | NavKey::Char(' ') => (
                TabCursor { scroll: c.scroll.saturating_add(8), ..c },
                false,
            ),
            NavKey::PageUp => (TabCursor { scroll: c.scroll.saturating_sub(8), ..c }, false),
            NavKey::Home => (TabCursor { scroll: 0, ..c }, false),
            NavKey::End => (TabCursor { scroll: c.scroll.saturating_add(1000), ..c }, false),
            _ => (c, false),
        }
    }
}

/// Applies a key to the cursor; returns whether the view should close.
pub fn handle_key(cursor: &mut TabCursor, key: NavKey, pressed: bool) -> (quit: bool)
    requires
        old(cursor).count == 0 || old(cursor).active < usize::MAX,
    ensures
        (*final(cursor), quit) == key_effect(*old(cursor), key, pressed),
{
    if !pressed {
        return false;
    }
    match key {
        NavKey::Esc | NavKey::Char('q') => true,
        NavKey::Right | NavKey::Char('l') | NavKey::Tab => {
            cursor.next_tab();
            false
        },
        NavKey::Left | NavKey::Char('h') => {
            cursor.prev_tab();
            false
        },
        NavKey::Down | NavKey::Char('j') => {
            cursor.scroll_down(1);
            false
        },
        NavKey::Up | NavKey::Char('k') => {
            cursor.scroll_up(1);
            false
        },
        NavKey::PageDown | NavKey::Char(' ') => {
            cursor.scroll_down(8);
            false
        },
        NavKey::PageUp => {
            cursor.scroll_up(8);
            false
        },
        NavKey::Home => {
            cursor.scroll = 0;
            false
        },
        NavKey::End => {
            cursor.scroll_down(1000);
            false
        },
        _ => false,
    }
}

/// No key moves the cursor off the tabs: from a tab within them, every key
/// leaves the cursor on a tab within them, with the same number of tabs.
pub proof fn keys_keep_cursor_on_a_tab(c: TabCursor, key: NavKey, pressed: bool)
    requires
        c.active < c.count,
    ensures
        key_effect(c, key, pressed).0.active < key_effect(c, key, pressed).0.count,
        key_effect(c, key, pressed).0.count == c.count,
{
    tab_stays_in_range(c.active as int, c.count as int);
}

/// Going to the next tab and then back to the previous one returns to the tab
/// one started from, and the reverse holds too.
pub proof fn next_and_prev_tab_undo_each_other(active: int, count: int)
    requires
        0 <= active < count,
    ensures
        prev_index(next_index(active, count), count) == active,
        next_index(prev_index(active, count), count) == active,
{
    if active + 1 < count {
        vstd::arithmetic::div_mod::lemma_small_mod((active + 1) as nat, count as nat);
    } else {
        vstd::arithmetic::div_mod::lemma_mod_self_0(count);
    }
    if active == 0 {
        vstd::arithmetic::div_mod::lemma_mod_self_0(count);
    } else {
        vstd::arithmetic::div_mod::lemma_small_mod(active as nat, count as nat);
    }
}

/// Moving between tabs never leaves the tabs: from a tab within them, the next
/// and the previous tab are within them too.
pub proof fn tab_stays_in_range(active: int, count: int)
    requires
        0 <= active < count,
    ensures
        0 <= next_index(active, count) < count,
        0 <= prev_index(active, count) < count,
{
    vstd::arithmetic::div_mod::lemma_mod_bound(active + 1, count);
}

// ---------------------------------------------------------------------------
// Graph line classification
// ---------------------------------------------------------------------------
/// The box-drawing characters of the graph.
pub open spec fn border_char(c: char) -> bool {
    c == '╭' || c == '╮' || c == '╯' || c == '╰' || c == '│' || c == '├' || c == '┤' || c == '─'
        || c == '┊'
}

/// Border characters or spaces only.
pub open spec fn pure_border(s: Seq<char>) -> bool {
    forall|i: int| 0 <= i < s.len() ==> border_char(#[trigger] s[i]) || s[i] == ' '
}

/// Position where the leading white space of `s` ends.
pub open spec fn lead_white(s: Seq<char>) -> nat
    decreases s.len(),
{
    if s.len() > 0 && is_white(s[0]) {
        1 + lead_white(s.drop_first())
    } else {
        0
    }
}

/// Position where the trailing white space of `s` starts.
pub open spec fn trail_white(s: Seq<char>) -> nat
    decreases s.len(),
{
    if s.len() > 0 && is_white(s.last()) {
        trail_white(s.drop_last())
    } else {
        s.len()
    }
}

/// `s` without leading and trailing white space (`str::trim`).
pub open spec fn trimmed(s: Seq<char>) -> Seq<char> {
    let t = s.take(trail_white(s) as int);
    t.skip(lead_white(t) as int)
}

/// How a line of the graph is coloured.
#[derive(Debug, Clone, Copy, PartialEq, Eq, Structural)]
pub enum GraphLineKind {
    /// The arrow between two boxes.
    Arrow,
    /// Only box-drawing characters and spaces.
    Border,
    /// A component row, with a bullet.
    Component,
    /// A row of the repeated block, between repeat markers.
    RepeatedContent,
    /// A row of an outer box with a title.
    Title,
    /// Anything else.
    Plain,
}

/// The kind of a graph line, judged on the line without surrounding white space.
pub open spec fn graph_line_kind_of(line: Seq<char>) -> GraphLineKind {
    let t = trimmed(line);
    if t == "▼"@ {
        GraphLineKind::Arrow
    } else if pure_border(t) {
        GraphLineKind::Border
    } else if t.contains('○') {
        GraphLineKind::Component
    } else if t.len() > 0 && t[0] == '┊' {
        GraphLineKind::RepeatedContent
    } else if t.len() > 0 && t[0] == '│' {
        GraphLineKind::Title
    } else {
        GraphLineKind::Plain
    }
}

/// The role of a run of characters when a graph line is coloured.
#[derive(Debug, Clone, Copy, PartialEq, Eq, Structural)]
pub enum SegmentRole {
    Border,
    Repeat,
    Title,
    Bullet,
    Component,
    Detail,
}

/// A run of characters of a graph line and its role.
#[derive(Debug)]
pub struct Segment {
    pub text: String,
    pub role: SegmentRole,
}

/// The view of a sequence of segments.
pub open spec fn segment_views(v: Seq<Segment>) -> Seq<(Seq<char>, SegmentRole)> {
    v.map_values(|s: Segment| (s.text@, s.role))
}

/// Scanning state after reading `s`: the runs completed so far, the run being
/// read, and whether that run is made of border characters.
pub open spec fn run_scan(s: Seq<char>) -> (Seq<(Seq<char>, bool)>, Seq<char>, bool)
    decreases s.len(),
{
    if s.len() == 0 {
        (Seq::empty(), Seq::empty(), false)
    } else {
        let (done, cur, cur_border) = run_scan(s.drop_last());
        let c = s.last();
        let b = border_char(c);
        if cur.len() > 0 && b != cur_border {
            (done.push((cur, cur_border)), seq![c], b)
        } else {
            (done, cur.push(c), b)
        }
    }
}

/// The maximal runs of border and of non-border characters of `s`, in order,
/// each with whether it is a border run.
pub open spec fn runs(s: Seq<char>) -> Seq<(Seq<char>, bool)> {
    let (done, cur, b) = run_scan(s);
    if cur.len() > 0 {
        done.push((cur, b))
    } else {
        done
    }
}

/// The role of a run: text runs are titles; border runs are repeat markers
/// when `mark_repeat` is set and they hold a `┊`, else plain borders.
pub open spec fn run_role(run: (Seq<char>, bool), mark_repeat: bool) -> (Seq<char>, SegmentRole) {
    if !run.1 {
        (run.0, SegmentRole::Title)
    } else if mark_repeat && run.0.contains('┊') {
        (run.0, SegmentRole::Repeat)
    } else {
        (run.0, SegmentRole::Border)
    }
}

/// The coloured runs of a boxed row.
pub open spec fn bordered_segments_of(line: Seq<char>, mark_repeat: bool) -> Seq<(Seq<char>, SegmentRole)> {
    runs(line).map_values(|r: (Seq<char>, bool)| run_role(r, mark_repeat))
}

/// The position of the first `c` in `s`, if any.
pub open spec fn first_index(s: Seq<char>, c: char) -> Option<int>
    decreases s.len(),
{
    if s.len() == 0 {
        None
    } else {
        match first_index(s.drop_last(), c) {
            Some(i) => Some(i),
            None => if s.last() == c {
                Some(s.len() - 1)
            } else {
                None
            },
        }
    }
}

/// Border characters or spaces.
pub open spec fn border_or_space(c: char) -> bool {
    border_char(c) || c == ' '
}

/// Where the trailing run of border characters and spaces of `s` begins.
pub open spec fn trailing_border_start(s: Seq<char>) -> nat
    decreases s.len(),
{
    if s.len() > 0 && border_or_space(s.last()) {
        trailing_border_start(s.drop_last())
    } else {
        s.len()
    }
}

/// The coloured runs of a component row: the leading borders, the bullet, the
/// component name, its parenthesised detail and what follows.
pub open spec fn component_segments_of(line: Seq<char>) -> Seq<(Seq<char>, SegmentRole)> {
    let k: int = match first_index(line, '○') {
        Some(i) => i,
        None => line.len() as int,
    };
    let lead = if k > 0 {
        seq![(line.take(k), SegmentRole::Border)]
    } else {
        Seq::empty()
    };
    let has_bullet = k < line.len();
    let bullet = if has_bullet {
        seq![("○"@, SegmentRole::Bullet)]
    } else {
        Seq::empty()
    };
    let rest = if has_bullet {
        line.skip(k + 1)
    } else {
        Seq::empty()
    };
    let tail = match first_index(rest, '(') {
        Some(p) => {
            let from_paren = rest.skip(p);
            match first_index(from_paren, ')') {
                Some(q) => {
                    let after = from_paren.skip(q + 1);
                    seq![(rest.take(p), SegmentRole::Component), (from_paren.take(q + 1), SegmentRole::Detail)]
                        + if after.len() > 0 {
                        seq![(after, SegmentRole::Border)]
                    } else {
                        Seq::empty()
                    }
                },
                None => seq![(rest.take(p), SegmentRole::Component), (from_paren, SegmentRole::Detail)],
            }
        },
        None => {
            let b = trailing_border_start(rest) as int;
            seq![(rest.take(b), SegmentRole::Component)] + if b < rest.len() {
                seq![(rest.skip(b), SegmentRole::Border)]
            } else {
                Seq::empty()
            }
        },
    };
    lead + bullet + tail
}

proof fn lemma_lead_white_bound(s: Seq<char>)
    ensures
        lead_white(s) <= s.len(),
    decreases s.len(),
{
    if s.len() > 0 && is_white(s[0]) {
        lemma_lead_white_bound(s.drop_first());
    }
}

proof fn lemma_trail_white_bound(s: Seq<char>)
    ensures
        trail_white(s) <= s.len(),
    decreases s.len(),
{
    if s.len() > 0 && is_white(s.last()) {
        lemma_trail_white_bound(s.drop_last());
    }
}

proof fn lemma_first_index_bound(s: Seq<char>, c: char)
    ensures
        first_index(s, c) matches Some(i) ==> 0 <= i < s.len() && s[i] == c,
        first_index(s, c) is None ==> !s.contains(c),
    decreases s.len(),
{
    if s.len() > 0 {
        lemma_first_index_bound(s.drop_last(), c);
        if first_index(s.drop_last(), c) is None && s.last() != c {
            assert forall|i: int| 0 <= i < s.len() implies s[i] != c by {
                if i < s.len() - 1 {
                    assert(s.drop_last()[i] == s[i]);
                }
            }
        }
    }
}

proof fn lemma_trailing_border_start_bound(s: Seq<char>)
    ensures
        trailing_border_start(s) <= s.len(),
    decreases s.len(),
{
    if s.len() > 0 && border_or_space(s.last()) {
        lemma_trailing_border_start_bound(s.drop_last());
    }
}

/// The texts of a sequence of runs or segments, one after another.
pub open spec fn joined_texts<T>(parts: Seq<(Seq<char>, T)>) -> Seq<char>
    decreases parts.len(),
{
    if parts.len() == 0 {
        Seq::empty()
    } else {
        joined_texts(parts.drop_last()) + parts.last().0
    }
}

proof fn lemma_joined_concat<T>(a: Seq<(Seq<char>, T)>, b: Seq<(Seq<char>, T)>)
    ensures
        joined_texts(a + b) == joined_texts(a) + joined_texts(b),
    decreases b.len(),
{
    if b.len() == 0 {
        assert(a + b =~= a);
        assert(joined_texts(a) + joined_texts(b) =~= joined_texts(a));
    } else {
        assert((a + b).drop_last() =~= a + b.drop_last());
        assert((a + b).last() == b.last());
        lemma_joined_concat(a, b.drop_last());
        assert(joined_texts(a + b) =~= joined_texts(a) + joined_texts(b));
    }
}

proof fn lemma_joined_one<T>(x: Seq<char>, t: T)
    ensures
        joined_texts(seq![(x, t)]) == x,
{
    assert(seq![(x, t)].drop_last() =~= Seq::<(Seq<char>, T)>::empty());
    assert(joined_texts(Seq::<(Seq<char>, T)>::empty()) + x =~= x);
}

proof fn lemma_joined_two<T>(x: Seq<char>, t: T, y: Seq<char>, u: T)
    ensures
        joined_texts(seq![(x, t), (y, u)]) == x + y,
{
    lemma_joined_concat(seq![(x, t)], seq![(y, u)]);
    assert(seq![(x, t)] + seq![(y, u)] =~= seq![(x, t), (y, u)]);
    lemma_joined_one(x, t);
    lemma_joined_one(y, u);
}

proof fn lemma_run_scan_texts(s: Seq<char>)
    ensures
        joined_texts(run_scan(s).0) + run_scan(s).1 == s,
    decreases s.len(),
{
    if s.len() > 0 {
        lemma_run_scan_texts(s.drop_last());
        let (done, cur, cur_border) = run_scan(s.drop_last());
        let c = s.last();
        if cur.len() > 0 && border_char(c) != cur_border {
            let d2 = done.push((cur, cur_border));
            assert(d2.drop_last() =~= done);
            assert(joined_texts(d2) + seq![c] =~= s);
        } else {
            assert(run_scan(s) == (done, cur.push(c), border_char(c)));
            assert(joined_texts(done) + cur.push(c) =~= (joined_texts(done) + cur).push(c));
            assert(s =~= s.drop_last().push(c));
        }
    }
}

proof fn lemma_roles_keep_texts(rs: Seq<(Seq<char>, bool)>, mark_repeat: bool)
    ensures
        joined_texts(rs.map_values(|r: (Seq<char>, bool)| run_role(r, mark_repeat))) == joined_texts(rs),
    decreases rs.len(),
{
    if rs.len() > 0 {
        let f = |r: (Seq<char>, bool)| run_role(r, mark_repeat);
        assert(rs.map_values(f).drop_last() =~= rs.drop_last().map_values(f));
        lemma_roles_keep_texts(rs.drop_last(), mark_repeat);
        assert(rs.map_values(f).last().0 == rs.last().0);
    }
}

/// Colouring a boxed row loses and adds nothing: its runs, put back together,
/// are the row.
pub proof fn bordered_segments_rebuild_line(line: Seq<char>, mark_repeat: bool)
    ensures
        joined_texts(bordered_segments_of(line, mark_repeat)) == line,
{
    lemma_run_scan_texts(line);
    let (done, cur, b) = run_scan(line);
    if cur.len() > 0 {
        assert(done.push((cur, b)).drop_last() =~= done);
    } else {
        assert(joined_texts(done) + cur =~= joined_texts(done));
    }
    lemma_roles_keep_texts(runs(line), mark_repeat);
}

/// Colouring a component row loses and adds nothing: its runs, put back
/// together, are the row.
pub proof fn component_segments_rebuild_line(line: Seq<char>)
    ensures
        joined_texts(component_segments_of(line)) == line,
{
    reveal_strlit("○");
    lemma_first_index_bound(line, '○');
    let k: int = match first_index(line, '○') {
        Some(i) => i,
        None => line.len() as int,
    };
    let lead: Seq<(Seq<char>, SegmentRole)> = if k > 0 {
        seq![(line.take(k), SegmentRole::Border)]
    } else {
        Seq::empty()
    };
    let has_bullet = k < line.len();
    let bullet: Seq<(Seq<char>, SegmentRole)> = if has_bullet {
        seq![("○"@, SegmentRole::Bullet)]
    } else {
        Seq::empty()
    };
    let rest = if has_bullet {
        line.skip(k + 1)
    } else {
        Seq::empty()
    };
    let all = component_segments_of(line);
    let tail = all.skip((lead.len() + bullet.len()) as int);
    assert(all =~= lead + bullet + tail);
    lemma_joined_concat(lead, bullet);
    lemma_joined_concat(lead + bullet, tail);
    if k > 0 {
        lemma_joined_one(line.take(k), SegmentRole::Border);
    } else {
        assert(line.take(k) =~= Seq::<char>::empty());
    }
    if has_bullet {
        lemma_joined_one("○"@, SegmentRole::Bullet);
    }
    assert(joined_texts(lead) =~= line.take(k));
    assert(joined_texts(bullet) =~= if has_bullet { "○"@ } else { Seq::empty() });
    lemma_first_index_bound(rest, '(');
    match first_index(rest, '(') {
        Some(p) => {
            let from_paren = rest.skip(p);
            lemma_first_index_bound(from_paren, ')');
            match first_index(from_paren, ')') {
                Some(q) => {
                    let after = from_paren.skip(q + 1);
                    let two = seq![(rest.take(p), SegmentRole::Component), (from_paren.take(q + 1), SegmentRole::Detail)];
                    let last: Seq<(Seq<char>, SegmentRole)> = if after.len() > 0 {
                        seq![(after, SegmentRole::Border)]
                    } else {
                        Seq::empty()
                    };
                    assert(tail =~= two + last);
                    lemma_joined_concat(two, last);
                    lemma_joined_two(rest.take(p), SegmentRole::Component, from_paren.take(q + 1), SegmentRole::Detail);
                    if after.len() > 0 {
                        lemma_joined_one(after, SegmentRole::Border);
                    }
                    assert(joined_texts(last) =~= after);
                    assert(joined_texts(tail) =~= rest);
                },
                None => {
                    let two = seq![(rest.take(p), SegmentRole::Component), (from_paren, SegmentRole::Detail)];
                    assert(tail =~= two);
                    lemma_joined_two(rest.take(p), SegmentRole::Component, from_paren, SegmentRole::Detail);
                    assert(joined_texts(tail) =~= rest);
                },
            }
        },
        None => {
            lemma_trailing_border_start_bound(rest);
            let b = trailing_border_start(rest) as int;
            let first = seq![(rest.take(b), SegmentRole::Component)];
            let last: Seq<(Seq<char>, SegmentRole)> = if b < rest.len() {
                seq![(rest.skip(b), SegmentRole::Border)]
            } else {
                Seq::empty()
            };
            assert(tail =~= first + last);
            lemma_joined_concat(first, last);
            lemma_joined_one(rest.take(b), SegmentRole::Component);
            if b < rest.len() {
                lemma_joined_one(rest.skip(b), SegmentRole::Border);
            }
            assert(joined_texts(tail) =~= rest);
        },
    }
    if has_bullet {
        assert(line.take(k) + "○"@ + line.skip(k + 1) =~= line);
    } else {
        assert(line.take(k) =~= line);
    }
    assert(joined_texts(all) =~= line);
}

// ---------------------------------------------------------------------------
// Executable code
// ---------------------------------------------------------------------------
/// Whether `c` is one of the graph's box-drawing characters.
pub fn is_border_char(c: char) -> (r: bool)
    ensures
        r == border_char(c),
{
    c == '╭' || c == '╮' || c == '╯' || c == '╰' || c == '│' || c == '├' || c == '┤' || c == '─'
        || c == '┊'
}

/// Whether `s` holds only box-drawing characters and spaces.
pub fn is_pure_border(s: &str) -> (r: bool)
    ensures
        r == pure_border(s@),
{
    let v = chars_of(s);
    let mut i: usize = 0;
    while i < v.len()
        invariant
            i <= v.len(),
            v@ == s@,
            forall|j: int| 0 <= j < i ==> border_char(#[trigger] v@[j]) || v@[j] == ' ',
        decreases v.len() - i,
    {
        if !(is_border_char(v[i]) || v[i] == ' ') {
            return false;
        }
        i += 1;
    }
    true
}

fn pure_border_chars(v: &Vec<char>) -> (r: bool)
    ensures
        r == pure_border(v@),
{
    let mut i: usize = 0;
    while i < v.len()
        invariant
            i <= v.len(),
            forall|j: int| 0 <= j < i ==> border_char(#[trigger] v@[j]) || v@[j] == ' ',
        decreases v.len() - i,
    {
        if !(is_border_char(v[i]) || v[i] == ' ') {
            return false;
        }
        i += 1;
    }
    true
}

fn trimmed_chars(v: &Vec<char>) -> (r: Vec<char>)
    ensures
        r@ == trimmed(v@),
{
    let mut end: usize = v.len();
    assert(v@.take(end as int) =~= v@);
    while end > 0 && is_white_char(v[end - 1])
        invariant
            end <= v.len(),
            trail_white(v@.take(end as int)) == trail_white(v@),
        decreases end,
    {
        assert(v@.take(end as int).drop_last() =~= v@.take(end - 1));
        end -= 1;
    }
    let ghost t = v@.take(end as int);
    let mut start: usize = 0;
    proof {
        assert(trail_white(t) == t.len());
        assert(t.skip(0) =~= t);
    }
    while start < end && is_white_char(v[start])
        invariant
            start <= end <= v.len(),
            t == v@.take(end as int),
            lead_white(t.skip(start as int)) + start == lead_white(t),
        decreases end - start,
    {
        assert(t.skip(start as int).drop_first() =~= t.skip(start + 1));
        start += 1;
    }
    let mut out: Vec<char> = Vec::new();
    let mut i = start;
    while i < end
        invariant
            start <= i <= end <= v.len(),
            out@ == v@.subrange(start as int, i as int),
        decreases end - i,
    {
        out.push(v[i]);
        i += 1;
        assert(out@ =~= v@.subrange(start as int, i as int));
    }
    proof {
        assert(t.skip(start as int) =~= v@.subrange(start as int, end as int));
    }
    out
}

fn contains_char(v: &Vec<char>, c: char) -> (r: bool)
    ensures
        r == v@.contains(c),
{
    let mut i: usize = 0;
    while i < v.len()
        invariant
            i <= v.len(),
            forall|j: int| 0 <= j < i ==> v@[j] != c,
        decreases v.len() - i,
    {
        if v[i] == c {
            assert(v@[i as int] == c);
            return true;
        }
        i += 1;
    }
    false
}

/// How a graph line is coloured.
pub fn graph_line_kind(line: &str) -> (r: GraphLineKind)
    ensures
        r == graph_line_kind_of(line@),
{
    let v = chars_of(line);
    let t = trimmed_chars(&v);
    let arrow = chars_of("▼");
    let mut same = t.len() == arrow.len();
    if same {
        let mut i: usize = 0;
        while i < t.len()
            invariant
                i <= t.len(),
                t.len() == arrow.len(),
                same == forall|j: int| 0 <= j < i ==> t@[j] == arrow@[j],
            decreases t.len() - i,
        {
            if t[i] != arrow[i] {
                same = false;
            }
            i += 1;
        }
        if same {
            assert(t@ =~= arrow@);
        }
    }
    if same {
        return GraphLineKind::Arrow;
    }
    proof {
        if t@ == "▼"@ {
            assert(t@.len() == arrow@.len());
        }
    }
    if pure_border_chars(&t) {
        return GraphLineKind::Border;
    }
    if contains_char(&t, '○') {
        return GraphLineKind::Component;
    }
    if t.len() > 0 && t[0] == '┊' {
        return GraphLineKind::RepeatedContent;
    }
    if t.len() > 0 && t[0] == '│' {
        return GraphLineKind::Title;
    }
    GraphLineKind::Plain
}

fn segment(text: &Vec<char>, role: SegmentRole) -> (r: Segment)
    ensures
        r.text@ == text@,
        r.role == role,
{
    Segment { text: string_from_chars(text), role }
}

fn role_of_run(run: &Vec<char>, is_border: bool, mark_repeat: bool) -> (r: SegmentRole)
    ensures
        r == run_role((run@, is_border), mark_repeat).1,
{
    if !is_border {
        SegmentRole::Title
    } else if mark_repeat && contains_char(run, '┊') {
        SegmentRole::Repeat
    } else {
        SegmentRole::Border
    }
}

/// The coloured runs of a boxed row: runs of text are titles, runs of border
/// characters are borders (or repeat markers, when `mark_repeat` is set and the
/// run holds a `┊`).
pub fn bordered_segments(line: &str, mark_repeat: bool) -> (r: Vec<Segment>)
    ensures
        segment_views(r@) == bordered_segments_of(line@, mark_repeat),
{
    let v = chars_of(line);
    let mut out: Vec<Segment> = Vec::new();
    let mut cur: Vec<char> = Vec::new();
    let mut cur_border = false;
    let mut i: usize = 0;
    while i < v.len()
        invariant
            i <= v.len(),
            v@ == line@,
            segment_views(out@) == run_scan(v@.take(i as int)).0.map_values(
                |r: (Seq<char>, bool)| run_role(r, mark_repeat),
            ),
            cur@ == run_scan(v@.take(i as int)).1,
            cur_border == run_scan(v@.take(i as int)).2,
        decreases v.len() - i,
    {
        proof {
            assert(v@.take(i + 1).drop_last() =~= v@.take(i as int));
        }
        let c = v[i];
        let b = is_border_char(c);
        if cur.len() > 0 && b != cur_border {
            let role = role_of_run(&cur, cur_border, mark_repeat);
            let seg = segment(&cur, role);
            let ghost before = out@;
            let ghost done = run_scan(v@.take(i as int)).0;
            out.push(seg);
            proof {
                assert(segment_views(out@) =~= segment_views(before).push((cur@, role)));
                assert(done.push((cur@, cur_border)).map_values(|r: (Seq<char>, bool)| run_role(r, mark_repeat))
                    =~= done.map_values(|r: (Seq<char>, bool)| run_role(r, mark_repeat)).push(
                    run_role((cur@, cur_border), mark_repeat),
                ));
            }
            cur = Vec::new();
            cur.push(c);
            assert(cur@ =~= seq![c]);
        } else {
            cur.push(c);
        }
        cur_border = b;
        i += 1;
    }
    assert(v@.take(v.len() as int) =~= v@);
    if cur.len() > 0 {
        let role = role_of_run(&cur, cur_border, mark_repeat);
        let seg = segment(&cur, role);
        let ghost before = out@;
        let ghost done = run_scan(v@).0;
        out.push(seg);
        proof {
            assert(segment_views(out@) =~= segment_views(before).push((cur@, role)));
            assert(done.push((cur@, cur_border)).map_values(|r: (Seq<char>, bool)| run_role(r, mark_repeat))
                =~= done.map_values(|r: (Seq<char>, bool)| run_role(r, mark_repeat)).push(
                run_role((cur@, cur_border), mark_repeat),
            ));
        }
    }
    out
}

fn first_index_exec(v: &Vec<char>, c: char) -> (r: Option<usize>)
    ensures
        r matches Some(i) ==> first_index(v@, c) == Some(i as int),
        r is None ==> first_index(v@, c) is None,
{
    let mut i: usize = 0;
    while i < v.len()
        invariant
            i <= v.len(),
            first_index(v@.take(i as int), c) is None,
        decreases v.len() - i,
    {
        proof {
            assert(v@.take(i + 1).drop_last() =~= v@.take(i as int));
        }
        if v[i] == c {
            proof {
                lemma_first_index_prefix(v@, c, i as int + 1);
            }
            return Some(i);
        }
        i += 1;
    }
    assert(v@.take(v.len() as int) =~= v@);
    None
}

proof fn lemma_first_index_prefix(s: Seq<char>, c: char, k: int)
    requires
        0 <= k <= s.len(),
        first_index(s.take(k), c) is Some,
    ensures
        first_index(s, c) == first_index(s.take(k), c),
    decreases s.len() - k,
{
    if k < s.len() {
        assert(s.take(k + 1).drop_last() =~= s.take(k));
        lemma_first_index_prefix(s, c, k + 1);
    } else {
        assert(s.take(k) =~= s);
    }
}

fn sub_chars(v: &Vec<char>, lo: usize, hi: usize) -> (r: Vec<char>)
    requires
        lo <= hi <= v.len(),
    ensures
        r@ == v@.subrange(lo as int, hi as int),
{
    let mut out: Vec<char> = Vec::new();
    let mut i = lo;
    while i < hi
        invariant
            lo <= i <= hi <= v.len(),
            out@ == v@.subrange(lo as int, i as int),
        decreases hi - i,
    {
        out.push(v[i]);
        i += 1;
        assert(out@ =~= v@.subrange(lo as int, i as int));
    }
    out
}

fn trailing_border_start_exec(v: &Vec<char>) -> (r: usize)
    ensures
        r == trailing_border_start(v@),
{
    let mut n: usize = v.len();
    assert(v@.take(n as int) =~= v@);
    while n > 0 && (is_border_char(v[n - 1]) || v[n - 1] == ' ')
        invariant
            n <= v.len(),
            trailing_border_start(v@.take(n as int)) == trailing_border_start(v@),
        decreases n,
    {
        assert(v@.take(n as int).drop_last() =~= v@.take(n - 1));
        n -= 1;
    }
    n
}

/// Splits `s` before its trailing run of border characters and spaces.
pub fn split_trailing_border(s: &str) -> (r: (&str, &str))
    ensures
        r.0@ == s@.take(trailing_border_start(s@) as int),
        r.1@ == s@.skip(trailing_border_start(s@) as int),
{
    let v = chars_of(s);
    let k = trailing_border_start_exec(&v);
    proof {
        lemma_trailing_border_start_bound(s@);
    }
    let n = s.unicode_len();
    (s.substring_char(0, k), s.substring_char(k, n))
}

/// The coloured runs of a component row.
pub fn component_segments(line: &str) -> (r: Vec<Segment>)
    ensures
        segment_views(r@) == component_segments_of(line@),
{
    let v = chars_of(line);
    proof {
        lemma_first_index_bound(v@, '○');
    }
    let k: usize = match first_index_exec(&v, '○') {
        Some(i) => i,
        None => v.len(),
    };
    let mut out: Vec<Segment> = Vec::new();
    if k > 0 {
        let lead = sub_chars(&v, 0, k);
        out.push(segment(&lead, SegmentRole::Border));
        assert(lead@ =~= v@.take(k as int));
    }
    let has_bullet = k < v.len();
    if has_bullet {
        out.push(Segment { text: owned("○"), role: SegmentRole::Bullet });
    }
    let rest: Vec<char> = if has_bullet {
        sub_chars(&v, k + 1, v.len())
    } else {
        Vec::new()
    };
    proof {
        if has_bullet {
            assert(rest@ =~= v@.skip(k + 1));
        }
        lemma_first_index_bound(rest@, '(');
        lemma_trailing_border_start_bound(rest@);
    }
    let ghost head = segment_views(out@);
    match first_index_exec(&rest, '(') {
        Some(p) => {
            let before = sub_chars(&rest, 0, p);
            out.push(segment(&before, SegmentRole::Component));
            let from_paren = sub_chars(&rest, p, rest.len());
            proof {
                assert(before@ =~= rest@.take(p as int));
                assert(from_paren@ =~= rest@.skip(p as int));
                lemma_first_index_bound(from_paren@, ')');
            }
            match first_index_exec(&from_paren, ')') {
                Some(q) => {
                    let paren = sub_chars(&from_paren, 0, q + 1);
                    out.push(segment(&paren, SegmentRole::Detail));
                    let after = sub_chars(&from_paren, q + 1, from_paren.len());
                    proof {
                        assert(paren@ =~= from_paren@.take(q + 1));
                        assert(after@ =~= from_paren@.skip(q + 1));
                    }
                    if after.len() > 0 {
                        out.push(segment(&after, SegmentRole::Border));
                    }
                },
                None => {
                    out.push(segment(&from_paren, SegmentRole::Detail));
                },
            }
        },
        None => {
            let b = trailing_border_start_exec(&rest);
            let text = sub_chars(&rest, 0, b);
            out.push(segment(&text, SegmentRole::Component));
            let border = sub_chars(&rest, b, rest.len());
            proof {
                assert(text@ =~= rest@.take(b as int));
                assert(border@ =~= rest@.skip(b as int));
            }
            if border.len() > 0 {
                out.push(segment(&border, SegmentRole::Border));
            }
        },
    }
    assert(segment_views(out@) =~= component_segments_of(line@));
    out
}

// ---------------------------------------------------------------------------
// Text helpers of the interactive view
// ---------------------------------------------------------------------------
/// `s` cut to `max_len` characters, ending in an ellipsis when cut (an ellipsis
/// alone when `max_len` is zero and `s` is not empty).
pub open spec fn tui_truncated(s: Seq<char>, max_len: nat) -> Seq<char> {
    if s.len() <= max_len {
        s
    } else {
        s.take(if max_len > 0 {
            max_len - 1
        } else {
            0
        }).push('…')
    }
}

/// `s` cut to `max_len` characters, ending in an ellipsis when cut.
pub fn truncate(s: &str, max_len: usize) -> (r: String)
    ensures
        r@ == tui_truncated(s@, max_len as nat),
{
    if char_count(s) <= max_len {
        return owned(s);
    }
    let keep = max_len.saturating_sub(1);
    let mut v = chars_of(take_chars(s, keep).as_str());
    v.push('…');
    string_from_chars(&v)
}

/// An optional count as text, `-` when absent.
pub fn opt_u64(value: Option<u64>) -> (r: String)
    ensures
        r@ == opt_u64_text(value),
{
    match value {
        Some(v) => u64_to_string(v),
        None => owned("-"),
    }
}

/// The label of a source kind.
pub fn source_kind_label(kind: &ModelSourceKind) -> (r: String)
    ensures
        r@ == source_kind_text(*kind),
{
    match kind {
        ModelSourceKind::LocalPath => owned("local_path"),
        ModelSourceKind::HuggingFace => owned("hugging_face"),
    }
}

} // verus!
