//! Width-aware string measurement and position arithmetic: ANSI-escape
//! stripping, grapheme-safe truncation, and conversion between display
//! columns and grapheme indices.
use vstd::prelude::*;
use vstd::string::StrSliceExecFns;
use vstd::string::StringExecFns;

use crate::Position;

verus! {

/// The display width, in terminal columns, that `unicode_width` assigns to
/// a string: a pure function of its characters.
pub uninterp spec fn str_width(s: Seq<char>) -> usize;

/// The extended grapheme clusters that `unicode_segmentation` divides a
/// string into, in left-to-right order: a pure function of its characters.
pub uninterp spec fn graphemes_of(s: Seq<char>) -> Seq<Seq<char>>;

/// The uppercase mapping of a character, as `char::to_uppercase` yields
/// it: a pure function of the character alone.
pub uninterp spec fn upper_of(c: char) -> Seq<char>;

/// Relies on unicode_width::UnicodeWidthStr::width: the string's displayed
/// width in columns, determined by its characters alone.
#[verifier::external_body]
pub(crate) fn display_width(s: &str) -> (r: usize)
    ensures
        r == str_width(s@),
{
    unicode_width::UnicodeWidthStr::width(s)
}

/// Relies on unicode_segmentation::UnicodeSegmentation::graphemes with
/// extended clusters: the clusters are substrings of the input in order,
/// and segmentation only divides, so their concatenation is the input.
#[verifier::external_body]
pub(crate) fn graphemes_vec(s: &str) -> (r: Vec<String>)
    ensures
        r.deep_view() == graphemes_of(s@),
        r.deep_view().flatten() == s@,
{
    unicode_segmentation::UnicodeSegmentation::graphemes(s, true)
        .map(|g: &str| g.to_string())
        .collect()
}

/// Relies on char::to_uppercase: yields the character's Unicode uppercase
/// mapping, one or more characters determined by the character alone.
#[verifier::external_body]
pub(crate) fn char_uppercase(c: char) -> (r: String)
    ensures
        r@ == upper_of(c),
{
    c.to_uppercase().collect()
}

/// Relies on String::push: appends the given character to the end of the
/// string.
#[verifier::external_body]
pub(crate) fn push_char(s: &mut String, c: char)
    ensures
        final(s)@ == old(s)@.push(c),
{
    s.push(c)
}

/// True of a position strictly above the scrolled cursor row, or on that
/// row strictly left of the scrolled cursor column.
pub open spec fn behind_spec(cursor: Position, offset: Position, position: Position) -> bool {
    position.y < cursor.y + offset.y || (position.y == cursor.y + offset.y && position.x < cursor.x
        + offset.x)
}

/// True of a position strictly below the scrolled cursor row, or on that
/// row strictly right of the scrolled cursor column.
pub open spec fn ahead_spec(cursor: Position, offset: Position, position: Position) -> bool {
    position.y > cursor.y + offset.y || (position.y == cursor.y + offset.y && position.x > cursor.x
        + offset.x)
}

/// Determine whether a position is behind the scrolled cursor.
pub fn is_behind(cursor: &Position, offset: &Position, position: &Position) -> (r: bool)
    requires
        cursor.x + offset.x <= usize::MAX,
        cursor.y + offset.y <= usize::MAX,
    ensures
        r == behind_spec(*cursor, *offset, *position),
{
    if position.y > cursor.y + offset.y {
        false
    } else {
        !(position.y == cursor.y + offset.y && cursor.x + offset.x <= position.x)
    }
}

/// Determine whether a position is ahead of the scrolled cursor.
pub fn is_ahead(cursor: &Position, offset: &Position, position: &Position) -> (r: bool)
    requires
        cursor.x + offset.x <= usize::MAX,
        cursor.y + offset.y <= usize::MAX,
    ensures
        r == ahead_spec(*cursor, *offset, *position),
{
    if position.y < cursor.y + offset.y {
        false
    } else {
        !(position.y == cursor.y + offset.y && cursor.x + offset.x >= position.x)
    }
}

/// Law: relative to a fixed scrolled cursor, `behind` and `ahead` never
/// both hold, and a position falls under neither exactly when it is the
/// boundary position `cursor + offset` itself.
pub proof fn lemma_behind_ahead_partition(cursor: Position, offset: Position, position: Position)
    ensures
        !(behind_spec(cursor, offset, position) && ahead_spec(cursor, offset, position)),
        (!behind_spec(cursor, offset, position) && !ahead_spec(cursor, offset, position)) <==> (
        position.y == cursor.y + offset.y && position.x == cursor.x + offset.x),
{
}

/// A parameter byte of a CSI escape sequence: `0` through `?`.
pub open spec fn is_csi_param(c: char) -> bool {
    0x30 <= c as u32 <= 0x3f
}

/// An intermediate byte of a CSI escape sequence: space through `/`.
pub open spec fn is_csi_inter(c: char) -> bool {
    0x20 <= c as u32 <= 0x2f
}

/// A final byte of a CSI escape sequence: `@` through `~`.
pub open spec fn is_csi_final(c: char) -> bool {
    0x40 <= c as u32 <= 0x7e
}

/// The index just past the run of parameter bytes starting at `i`.
pub open spec fn param_end(s: Seq<char>, i: int) -> int
    decreases s.len() - i,
{
    if 0 <= i < s.len() && is_csi_param(s[i]) {
        param_end(s, i + 1)
    } else {
        i
    }
}

/// The index just past the run of intermediate bytes starting at `i`.
pub open spec fn inter_end(s: Seq<char>, i: int) -> int
    decreases s.len() - i,
{
    if 0 <= i < s.len() && is_csi_inter(s[i]) {
        inter_end(s, i + 1)
    } else {
        i
    }
}

/// The index just past a well-formed CSI sequence starting at `i` —
/// escape, `[`, parameter bytes, intermediate bytes, one final byte — or
/// `i` itself when no well-formed sequence starts there.
pub open spec fn csi_match_end(s: Seq<char>, i: int) -> int {
    if 0 <= i && i + 1 < s.len() && s[i] as u32 == 0x1b && s[i + 1] as u32 == 0x5b {
        let q = inter_end(s, param_end(s, i + 2));
        if q < s.len() && is_csi_final(s[q]) {
            q + 1
        } else {
            i
        }
    } else {
        i
    }
}

proof fn lemma_param_end_bounds(s: Seq<char>, i: int)
    requires
        0 <= i <= s.len(),
    ensures
        i <= param_end(s, i) <= s.len(),
    decreases s.len() - i,
{
    if i < s.len() && is_csi_param(s[i]) {
        lemma_param_end_bounds(s, i + 1);
    }
}

proof fn lemma_inter_end_bounds(s: Seq<char>, i: int)
    requires
        0 <= i <= s.len(),
    ensures
        i <= inter_end(s, i) <= s.len(),
    decreases s.len() - i,
{
    if i < s.len() && is_csi_inter(s[i]) {
        lemma_inter_end_bounds(s, i + 1);
    }
}

proof fn lemma_csi_match_bounds(s: Seq<char>, i: int)
    requires
        0 <= i <= s.len(),
    ensures
        csi_match_end(s, i) == i || i + 3 <= csi_match_end(s, i) <= s.len(),
{
    if i + 1 < s.len() && s[i] as u32 == 0x1b && s[i + 1] as u32 == 0x5b {
        lemma_param_end_bounds(s, i + 2);
        lemma_inter_end_bounds(s, param_end(s, i + 2));
    }
}

/// The characters left when every well-formed CSI escape sequence at or
/// after index `i` is removed; malformed sequences are kept as ordinary
/// characters.
pub open spec fn strip_csi(s: Seq<char>, i: int) -> Seq<char>
    decreases s.len() - i,
        via strip_csi_dec
{
    if i < 0 || i >= s.len() {
        Seq::empty()
    } else if csi_match_end(s, i) > i {
        strip_csi(s, csi_match_end(s, i))
    } else {
        seq![s[i]] + strip_csi(s, i + 1)
    }
}

#[via_fn]
proof fn strip_csi_dec(s: Seq<char>, i: int) {
    if 0 <= i < s.len() {
        lemma_csi_match_bounds(s, i);
    }
}

/// Remove every well-formed CSI escape sequence from a string, keeping
/// all other characters, malformed sequences included, in place.
pub(crate) fn strip_ansi(string: &str) -> (r: String)
    ensures
        r@ == strip_csi(string@, 0),
{
    let ghost s = string@;
    let n = string.unicode_len();
    let mut v: Vec<char> = Vec::new();
    let mut k: usize = 0;
    while k < n
        invariant
            k <= n,
            n == s.len(),
            s == string@,
            v@ == s.take(k as int),
        decreases n - k,
    {
        let c = string.get_char(k);
        v.push(c);
        assert(s.take(k + 1) =~= s.take(k as int).push(s[k as int]));
        k += 1;
    }
    assert(v@ =~= s);
    let mut out = String::new();
    let mut i: usize = 0;
    while i < n
        invariant
            i <= n,
            n == s.len(),
            s == string@,
            v@ == s,
            strip_csi(s, 0) == out@ + strip_csi(s, i as int),
        decreases n - i,
    {
        let c = v[i];
        let mut mend: usize = i;
        if (c as u32) == 0x1b && i + 1 < n {
            if (v[i + 1] as u32) == 0x5b {
                let mut j = i + 2;
                while j < n && (v[j] as u32) >= 0x30 && (v[j] as u32) <= 0x3f
                    invariant
                        i + 2 <= j <= n,
                        n == s.len(),
                        v@ == s,
                        param_end(s, i + 2) == param_end(s, j as int),
                    decreases n - j,
                {
                    j += 1;
                }
                assert(param_end(s, j as int) == j);
                let ghost p = j as int;
                while j < n && (v[j] as u32) >= 0x20 && (v[j] as u32) <= 0x2f
                    invariant
                        p <= j <= n,
                        n == s.len(),
                        v@ == s,
                        inter_end(s, p) == inter_end(s, j as int),
                    decreases n - j,
                {
                    j += 1;
                }
                assert(inter_end(s, j as int) == j);
                if j < n && (v[j] as u32) >= 0x40 && (v[j] as u32) <= 0x7e {
                    mend = j + 1;
                    assert(csi_match_end(s, i as int) == mend);
                } else {
                    assert(csi_match_end(s, i as int) == i);
                }
            } else {
                assert(csi_match_end(s, i as int) == i);
            }
        } else {
            assert(csi_match_end(s, i as int) == i);
        }
        if mend > i {
            assert(strip_csi(s, i as int) == strip_csi(s, mend as int));
            i = mend;
        } else {
            let ghost out0 = out@;
            push_char(&mut out, c);
            proof {
                assert(strip_csi(s, i as int) == seq![s[i as int]] + strip_csi(s, i + 1));
                assert(out@ =~= out0 + seq![c]);
                assert((out0 + seq![c]) + strip_csi(s, i + 1) =~= out0 + (seq![c] + strip_csi(
                    s,
                    i + 1,
                )));
            }
            i += 1;
        }
    }
    out
}

/// The per-grapheme display widths of a line, in left-to-right order.
pub open spec fn line_jumps(s: Seq<char>) -> Seq<usize> {
    graphemes_of(s).map_values(|g: Seq<char>| str_width(g))
}

/// Walking the widths `ws` from index `i` with `acc` columns already
/// consumed: the index of the grapheme whose cumulative preceding width
/// first equals the target column `x`, or the grapheme count when the
/// walk ends without meeting it exactly.
pub open spec fn jumps_to_grapheme(ws: Seq<usize>, x: int, acc: int, i: int) -> int
    decreases ws.len() - i,
{
    if i < 0 || i >= ws.len() {
        ws.len() as int
    } else if acc == x {
        i
    } else {
        jumps_to_grapheme(ws, x, acc + ws[i], i + 1)
    }
}

/// The grapheme index that a display column `x` maps to within a line
/// whose per-grapheme widths are `ws`.
pub open spec fn raw_to_grapheme_spec(ws: Seq<usize>, x: int) -> int {
    jumps_to_grapheme(ws, x, 0, 0)
}

/// Once the consumed width has overshot the target column, it never meets
/// it again, so the walk runs to the end of the line.
proof fn lemma_jumps_overshoot(ws: Seq<usize>, x: int, acc: int, i: int)
    requires
        acc > x,
    ensures
        jumps_to_grapheme(ws, x, acc, i) == ws.len(),
    decreases ws.len() - i,
{
    if 0 <= i < ws.len() {
        lemma_jumps_overshoot(ws, x, acc + ws[i], i + 1);
    }
}

/// The total display width of a line's graphemes.
pub open spec fn width_sum(ws: Seq<usize>) -> int
    decreases ws.len(),
{
    if ws.len() == 0 {
        0
    } else {
        ws[0] + width_sum(ws.drop_first())
    }
}

proof fn lemma_width_sum_skip(ws: Seq<usize>, i: int)
    requires
        0 <= i < ws.len(),
    ensures
        width_sum(ws.skip(i)) == ws[i] + width_sum(ws.skip(i + 1)),
{
    assert(ws.skip(i).len() > 0);
    assert(ws.skip(i)[0] == ws[i]);
    assert(ws.skip(i).drop_first() =~= ws.skip(i + 1));
}

proof fn lemma_width_sum_nonneg(ws: Seq<usize>)
    ensures
        width_sum(ws) >= 0,
    decreases ws.len(),
{
    if ws.len() > 0 {
        lemma_width_sum_nonneg(ws.drop_first());
    }
}

/// Law: a target column of zero always maps to grapheme index zero.
pub proof fn lemma_raw_to_grapheme_zero(ws: Seq<usize>)
    ensures
        raw_to_grapheme_spec(ws, 0) == 0,
{
}

/// Law: a target column beyond the line's total width maps to the line's
/// full grapheme count.
pub proof fn lemma_raw_to_grapheme_past_end(ws: Seq<usize>, x: int)
    requires
        x > width_sum(ws),
    ensures
        raw_to_grapheme_spec(ws, x) == ws.len(),
{
    assert(ws.skip(0) =~= ws);
    lemma_jumps_past_end(ws, x, 0, 0);
}

proof fn lemma_jumps_past_end(ws: Seq<usize>, x: int, acc: int, i: int)
    requires
        0 <= i <= ws.len(),
        x > acc + width_sum(ws.skip(i)),
    ensures
        jumps_to_grapheme(ws, x, acc, i) == ws.len(),
    decreases ws.len() - i,
{
    lemma_width_sum_nonneg(ws.skip(i));
    if i < ws.len() {
        lemma_width_sum_skip(ws, i);
        lemma_jumps_past_end(ws, x, acc + ws[i], i + 1);
    }
}

/// Convert a display column into the index of the grapheme cluster whose
/// cumulative preceding display width first reaches it, accumulating the
/// line's per-grapheme widths in order; a column the accumulation never
/// meets exactly maps to the line's full grapheme count.
pub fn raw_to_grapheme(x: usize, string: &str) -> (g: usize)
    ensures
        g == raw_to_grapheme_spec(line_jumps(string@), x as int),
{
    let gs = graphemes_vec(string);
    let ghost ws = line_jumps(string@);
    let mut jumps: Vec<usize> = Vec::new();
    let mut j: usize = 0;
    while j < gs.len()
        invariant
            j <= gs.len(),
            gs.deep_view() == graphemes_of(string@),
            ws == line_jumps(string@),
            jumps@ == ws.take(j as int),
        decreases gs.len() - j,
    {
        let w = display_width(gs[j].as_str());
        jumps.push(w);
        assert(ws.take(j + 1) =~= ws.take(j as int).push(w));
        j += 1;
    }
    assert(jumps@ =~= ws);
    let n = jumps.len();
    let mut graphemes: usize = 0;
    let mut counter: usize = 0;
    while graphemes < n
        invariant
            graphemes <= n,
            ws == line_jumps(string@),
            n == ws.len(),
            jumps@ == ws,
            counter <= x,
            raw_to_grapheme_spec(ws, x as int) == jumps_to_grapheme(
                ws,
                x as int,
                counter as int,
                graphemes as int,
            ),
        decreases n - graphemes,
    {
        if counter == x {
            assert(jumps_to_grapheme(ws, x as int, counter as int, graphemes as int)
                == graphemes as int);
            return graphemes;
        }
        let w = jumps[graphemes];
        if w > x - counter {
            proof {
                assert(jumps_to_grapheme(ws, x as int, counter as int, graphemes as int)
                    == jumps_to_grapheme(ws, x as int, counter + w, graphemes + 1));
                lemma_jumps_overshoot(ws, x as int, counter + w, graphemes + 1);
            }
            return n;
        }
        counter += w;
        graphemes += 1;
    }
    n
}

/// General-purpose text patterns: recognising terminal escape sequences
/// when measuring text.
#[derive(Debug, Clone)]
pub struct Exp {}

impl Exp {
    /// A fresh pattern set.
    pub fn new() -> Self {
        Self {}
    }

    /// The display width of a string with every well-formed CSI escape
    /// sequence stripped: escape codes contribute zero width.
    pub fn ansi_len(&self, string: &str) -> (r: usize)
        ensures
            r == str_width(strip_csi(string@, 0)),
    {
        let stripped = strip_ansi(string);
        display_width(stripped.as_str())
    }
}

/// A string with its first character mapped to uppercase and the rest
/// kept; empty stays empty.
pub open spec fn title_spec(s: Seq<char>) -> Seq<char> {
    if s.len() == 0 {
        Seq::empty()
    } else {
        upper_of(s[0]) + s.skip(1)
    }
}

/// Title-ize a string: uppercase its first character.
pub fn title(c: &str) -> (r: String)
    ensures
        r@ == title_spec(c@),
{
    let n = c.unicode_len();
    if n == 0 {
        String::new()
    } else {
        let f = c.get_char(0);
        let mut r = char_uppercase(f);
        let rest = c.substring_char(1, n);
        r.append(rest);
        assert(c@.subrange(1, c@.len() as int) =~= c@.skip(1));
        r
    }
}

/// Grapheme-aligned truncation of the clusters `gs` to a width budget of
/// `end` columns, `len` of which are already consumed: a cluster that fits
/// the remaining budget is taken whole; one that would exactly exhaust it
/// is still taken, and truncation stops; one that would overflow it is
/// replaced by a single padding space.
pub open spec fn trim_graphemes(gs: Seq<Seq<char>>, end: int, len: int) -> Seq<char>
    decreases gs.len(),
{
    if gs.len() == 0 {
        Seq::empty()
    } else if len == end {
        Seq::empty()
    } else if len + str_width(gs[0]) <= end {
        gs[0] + trim_graphemes(gs.drop_first(), end, len + str_width(gs[0]))
    } else {
        seq![' ']
    }
}

/// Trim a string with unicode in it to fit into a specific display width,
/// never splitting a grapheme cluster; when the next cluster would
/// overflow the budget, a single space is appended as a soft-truncation
/// marker.
pub fn trim_end(text: &str, end: usize) -> (r: String)
    ensures
        r@ == trim_graphemes(graphemes_of(text@), end as int, 0),
{
    let gs = graphemes_vec(text);
    let ghost gsv = graphemes_of(text@);
    let mut res = String::new();
    let mut length: usize = 0;
    let mut i: usize = 0;
    assert(gsv.skip(0) =~= gsv);
    assert(res@ + trim_graphemes(gsv, end as int, 0) =~= trim_graphemes(gsv, end as int, 0));
    while i < gs.len()
        invariant
            i <= gs.len(),
            gs.deep_view() == gsv,
            gsv == graphemes_of(text@),
            gs@.len() == gsv.len(),
            length <= end,
            trim_graphemes(gsv, end as int, 0) == res@ + trim_graphemes(
                gsv.skip(i as int),
                end as int,
                length as int,
            ),
        decreases gs.len() - i,
    {
        assert(gsv.skip(i as int).len() > 0);
        assert(gsv.skip(i as int)[0] == gs@[i as int]@);
        if length == end {
            return res;
        }
        let w = display_width(gs[i].as_str());
        if w <= end - length {
            let ghost res0 = res@;
            res.append(gs[i].as_str());
            proof {
                assert(gsv.skip(i as int).drop_first() =~= gsv.skip(i + 1));
                assert(trim_graphemes(gsv.skip(i as int), end as int, length as int) == gsv.skip(
                    i as int,
                )[0] + trim_graphemes(gsv.skip(i + 1), end as int, length + w));
                assert((res0 + gs@[i as int]@) + trim_graphemes(
                    gsv.skip(i + 1),
                    end as int,
                    length + w,
                ) =~= res0 + (gs@[i as int]@ + trim_graphemes(
                    gsv.skip(i + 1),
                    end as int,
                    length + w,
                )));
            }
            length += w;
        } else {
            let ghost res0 = res@;
            push_char(&mut res, ' ');
            proof {
                assert(trim_graphemes(gsv.skip(i as int), end as int, length as int) =~= seq![' ']);
                assert(res@ =~= res0 + seq![' ']);
            }
            return res;
        }
        i += 1;
    }
    assert(gsv.skip(gsv.len() as int) =~= Seq::<Seq<char>>::empty());
    res
}

/// The total display width of a sequence of grapheme clusters.
pub open spec fn gw_sum(gs: Seq<Seq<char>>) -> int
    decreases gs.len(),
{
    if gs.len() == 0 {
        0
    } else {
        str_width(gs[0]) + gw_sum(gs.drop_first())
    }
}

proof fn lemma_flatten_cons(a: Seq<char>, t: Seq<Seq<char>>)
    ensures
        (seq![a] + t).flatten() == a + t.flatten(),
{
    let c = seq![a] + t;
    assert(c.len() > 0);
    assert(c.first() == a);
    assert(c.drop_first() =~= t);
}

proof fn lemma_gw_sum_cons(a: Seq<char>, t: Seq<Seq<char>>)
    ensures
        gw_sum(seq![a] + t) == str_width(a) + gw_sum(t),
{
    let c = seq![a] + t;
    assert(c.len() > 0);
    assert(c[0] == a);
    assert(c.drop_first() =~= t);
}

/// Law: grapheme-aligned truncation never splits a cluster and never
/// exceeds the width budget. With `len` of the `end` columns already
/// consumed, the result is the concatenation of the first `k` whole
/// clusters — whose widths together still fit the budget — either alone,
/// or followed by one padding space that fits the budget too.
pub proof fn lemma_trim_graphemes_shape(gs: Seq<Seq<char>>, end: int, len: int) -> (k: int)
    requires
        0 <= len <= end,
    ensures
        0 <= k <= gs.len(),
        len + gw_sum(gs.take(k)) <= end,
        trim_graphemes(gs, end, len) == gs.take(k).flatten() || (trim_graphemes(gs, end, len)
            == gs.take(k).flatten() + seq![' '] && len + gw_sum(gs.take(k)) + 1 <= end),
    decreases gs.len(),
{
    if gs.len() == 0 || len == end {
        assert(gs.take(0) =~= Seq::<Seq<char>>::empty());
        assert(Seq::<Seq<char>>::empty().flatten() =~= Seq::<char>::empty());
        0
    } else if len + str_width(gs[0]) <= end {
        let k1 = lemma_trim_graphemes_shape(gs.drop_first(), end, len + str_width(gs[0]));
        let k = k1 + 1;
        assert(gs.take(k) =~= seq![gs[0]] + gs.drop_first().take(k1));
        lemma_flatten_cons(gs[0], gs.drop_first().take(k1));
        lemma_gw_sum_cons(gs[0], gs.drop_first().take(k1));
        if trim_graphemes(gs.drop_first(), end, len + str_width(gs[0])) == gs.drop_first().take(
            k1,
        ).flatten() {
            assert(trim_graphemes(gs, end, len) =~= gs.take(k).flatten());
        } else {
            assert(gs[0] + (gs.drop_first().take(k1).flatten() + seq![' ']) =~= (gs[0]
                + gs.drop_first().take(k1).flatten()) + seq![' ']);
            assert(trim_graphemes(gs, end, len) =~= gs.take(k).flatten() + seq![' ']);
        }
        k
    } else {
        assert(gs.take(0) =~= Seq::<Seq<char>>::empty());
        assert(Seq::<Seq<char>>::empty().flatten() =~= Seq::<char>::empty());
        assert(trim_graphemes(gs, end, len) =~= gs.take(0).flatten() + seq![' ']);
        0
    }
}

} // verus!
