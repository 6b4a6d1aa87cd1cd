//! The key-hint footer: `key desc` pairs packed greedily into lines no
//! wider than the terminal, with an overflow marker when they do not fit.

use vstd::prelude::*;

use crate::styled::{line_view, line_width, lines_view, spans_view, LineView, SpanStyle, StyledLine, StyledSpan};
use crate::text::{dec, fmt_usize};

verus! {

/// The packer's state between two items.
pub struct PackModel {
    pub lines: Seq<LineView>,
    pub current: LineView,
    pub cur_w: nat,
    pub hidden: nat,
}

pub open spec fn str_views(pairs: Seq<&str>) -> Seq<Seq<char>> {
    pairs.map_values(|s: &str| s@)
}

/// `pairs` read two at a time as (key, description), an odd last entry
/// dropped, followed by the theme switch `T theme`.
pub open spec fn help_items(pairs: Seq<Seq<char>>) -> Seq<(Seq<char>, Seq<char>)> {
    Seq::new((pairs.len() / 2) as nat, |i: int| (pairs[2 * i], pairs[2 * i + 1])).push(("T"@, "theme"@))
}

/// Separator before an item: none at the start of a line.
pub open spec fn sep_of(cur_w: nat) -> Seq<char> {
    if cur_w == 0 {
        Seq::empty()
    } else {
        " │ "@
    }
}

/// Spans of one item: the key, then the description when there is one.
pub open spec fn key_desc_spans(key: Seq<char>, desc: Seq<char>) -> LineView {
    if desc.len() == 0 {
        seq![(seq![' '] + key, SpanStyle::FooterKey)]
    } else {
        seq![(seq![' '] + key, SpanStyle::FooterKey), (seq![' '] + desc, SpanStyle::FooterHint)]
    }
}

/// Ends the current line when it holds anything.
pub open spec fn flush(st: PackModel) -> PackModel {
    if st.current.len() > 0 {
        PackModel { lines: st.lines.push(st.current), current: Seq::empty(), cur_w: 0, ..st }
    } else {
        st
    }
}

/// One item through the packer.
pub open spec fn pack_step(st: PackModel, key: Seq<char>, desc: Seq<char>, width: nat, max_lines: nat) -> PackModel {
    let sep = sep_of(st.cur_w);
    let seg_w = sep.len() + 2 + key.len() + desc.len();
    let wraps = st.cur_w > 0 && st.cur_w + seg_w > width;
    if wraps && st.lines.len() + 1 >= max_lines {
        PackModel { hidden: st.hidden + 1, ..st }
    } else {
        let st1 = if wraps { flush(st) } else { st };
        if st1.cur_w == 0 && seg_w > width && st1.lines.len() + 1 >= max_lines {
            PackModel { hidden: st1.hidden + 1, ..st1 }
        } else if st1.cur_w == 0 && seg_w > width {
            PackModel {
                current: st1.current + key_desc_spans(key, Seq::empty()),
                cur_w: 1 + key.len(),
                ..st1
            }
        } else {
            let cur = if sep.len() > 0 {
                st1.current.push((" │ "@, SpanStyle::FooterHint))
            } else {
                st1.current
            };
            PackModel { current: cur + key_desc_spans(key, desc), cur_w: st1.cur_w + seg_w, ..st1 }
        }
    }
}

/// All items through the packer, from an empty state.
pub open spec fn pack_all(items: Seq<(Seq<char>, Seq<char>)>, width: nat, max_lines: nat) -> PackModel
    decreases items.len(),
{
    if items.len() == 0 {
        PackModel { lines: Seq::empty(), current: Seq::empty(), cur_w: 0, hidden: 0 }
    } else {
        pack_step(pack_all(items.drop_last(), width, max_lines), items.last().0, items.last().1, width, max_lines)
    }
}

/// The packer keeps fewer finished lines than allowed, and has a current
/// line exactly when its width is not zero.
pub open spec fn pack_ok(st: PackModel, max_lines: nat) -> bool {
    &&& st.lines.len() < max_lines
    &&& (st.cur_w == 0 <==> st.current.len() == 0)
}

proof fn lemma_pack_all_ok(items: Seq<(Seq<char>, Seq<char>)>, width: nat, max_lines: nat)
    requires
        max_lines >= 1,
    ensures
        pack_ok(pack_all(items, width, max_lines), max_lines),
    decreases items.len(),
{
    if items.len() > 0 {
        lemma_pack_all_ok(items.drop_last(), width, max_lines);
        let st = pack_all(items.drop_last(), width, max_lines);
        let key = items.last().0;
        let desc = items.last().1;
        reveal_strlit(" │ ");
        assert(key_desc_spans(key, desc).len() >= 1);
        assert(key_desc_spans(key, Seq::empty()).len() >= 1);
        assert(pack_ok(pack_step(st, key, desc, width, max_lines), max_lines));
    }
}

/// The footer always shows at least one line and never more than it is
/// allowed (at least one).
pub proof fn law_packed_help_fits(pairs: Seq<Seq<char>>, width: nat, max_lines: nat)
    ensures
        1 <= packed_help(pairs, width, max_lines).len() <= max_nat(max_lines, 1),
{
    let w = max_nat(width, 12);
    let m = max_nat(max_lines, 1);
    lemma_pack_all_ok(help_items(pairs), w, m);
}

/// Marks `hidden` items that did not fit: appended to the last line when
/// there is room, else on a line of its own when one more line is allowed,
/// else in place of the last line.
pub open spec fn overflow_lines(lines: Seq<LineView>, hidden: nat, width: nat, max_lines: nat) -> Seq<LineView> {
    let suffix = " … +"@ + dec(hidden);
    if lines.len() > 0 && line_width(lines.last()) + suffix.len() <= width {
        lines.update(lines.len() - 1, lines.last().push((suffix, SpanStyle::FooterHint)))
    } else if lines.len() < max_lines {
        lines.push(seq![(suffix, SpanStyle::FooterHint)])
    } else if lines.len() > 0 {
        lines.update(lines.len() - 1, seq![(" …+"@ + dec(hidden) + " ?"@, SpanStyle::FooterHint)])
    } else {
        lines
    }
}

pub open spec fn max_nat(a: nat, b: nat) -> nat {
    if a >= b { a } else { b }
}

/// The footer lines for `pairs` in `width` columns and at most `max_lines`
/// lines (widths under 12 count as 12, no fewer than one line).
pub open spec fn packed_help(pairs: Seq<Seq<char>>, width: nat, max_lines: nat) -> Seq<LineView> {
    let w = max_nat(width, 12);
    let m = max_nat(max_lines, 1);
    let st = flush(pack_all(help_items(pairs), w, m));
    let lines = if st.hidden > 0 { overflow_lines(st.lines, st.hidden, w, m) } else { st.lines };
    if lines.len() == 0 {
        seq![seq![(" ?"@, SpanStyle::FooterKey), ("help"@, SpanStyle::FooterHint)]]
    } else {
        lines
    }
}

/// Lines the footer may use for hints at a terminal height.
pub open spec fn max_footer_lines(terminal_height: int, expanded: bool) -> nat {
    if terminal_height < 10 {
        1
    } else if terminal_height < 16 {
        if expanded { 2 } else { 1 }
    } else if expanded {
        4
    } else {
        2
    }
}

/// Number of characters of `s`.
pub fn display_width(s: &str) -> (r: usize)
    ensures
        r == s@.len(),
{
    s.unicode_len()
}

/// Lines the footer may use for hints at `terminal_height` rows.
pub fn footer_max_lines(terminal_height: u16, expanded: bool) -> (r: usize)
    ensures
        r == max_footer_lines(terminal_height as int, expanded),
{
    if terminal_height < 10 {
        1
    } else if terminal_height < 16 {
        if expanded { 2 } else { 1 }
    } else if expanded {
        4
    } else {
        2
    }
}

/// How many footer lines the hints need: at least one, at most what the
/// terminal height allows.
pub fn footer_lines(pairs: &[&str], width: u16, terminal_height: u16, expanded: bool) -> (r: u16)
    ensures
        r as nat == if packed_help(str_views(pairs@), width as nat, max_footer_lines(terminal_height as int, expanded)).len()
            < max_footer_lines(terminal_height as int, expanded) {
            packed_help(str_views(pairs@), width as nat, max_footer_lines(terminal_height as int, expanded)).len()
        } else {
            max_footer_lines(terminal_height as int, expanded)
        },
        1 <= r <= max_footer_lines(terminal_height as int, expanded),
{
    let max = footer_max_lines(terminal_height, expanded);
    let lines = pack_help(pairs, width as usize, max);
    proof {
        lemma_packed_help_bounds(str_views(pairs@), width as nat, max as nat);
    }
    let needed = lines.len();
    let n = if needed < 1 { 1 } else { needed };
    let m = if n < max { n } else { max };
    m as u16
}

/// Pushes the spans of one item.
pub fn push_key_desc(out: &mut Vec<StyledSpan>, key: &str, desc: &str)
    ensures
        spans_view(final(out)@) == spans_view(old(out)@) + key_desc_spans(key@, desc@),
{
    proof {
        reveal_strlit(" ");
        assert(" "@ =~= seq![' ']);
    }
    let mut k = String::from_str(" ");
    k.append(key);
    out.push(StyledSpan { text: k, style: SpanStyle::FooterKey });
    if desc.unicode_len() > 0 {
        let mut d = String::from_str(" ");
        d.append(desc);
        out.push(StyledSpan { text: d, style: SpanStyle::FooterHint });
    }
    assert(spans_view(final(out)@) =~= spans_view(old(out)@) + key_desc_spans(key@, desc@));
}

/// Sum of the span widths of a line.
fn spans_width(spans: &Vec<StyledSpan>) -> (r: u128)
    ensures
        r == line_width(spans_view(spans@)),
{
    let mut total: u128 = 0;
    let mut i: usize = 0;
    let n = spans.len();
    while i < n
        invariant
            i <= spans@.len(),
            n == spans@.len(),
            total == line_width(spans_view(spans@).subrange(0, i as int)),
            total <= i * 0x1_0000_0000_0000_0000,
        decreases n - i,
    {
        let ghost pre = spans_view(spans@).subrange(0, i as int);
        let ghost nxt = spans_view(spans@).subrange(0, i + 1 as int);
        assert(nxt.drop_last() =~= pre);
        let w = spans[i].text.as_str().unicode_len();
        total = total + w as u128;
        i = i + 1;
    }
    assert(spans_view(spans@).subrange(0, i as int) =~= spans_view(spans@));
    total
}

/// Marks `hidden` items that did not fit (see `overflow_lines`).
pub fn append_overflow(lines: &mut Vec<StyledLine>, hidden: usize, width: usize, max_lines: usize)
    ensures
        lines_view(final(lines)@) == overflow_lines(lines_view(old(lines)@), hidden as nat, width as nat, max_lines as nat),
{
    let mut suffix = String::from_str(" … +");
    let h = fmt_usize(hidden);
    suffix.append(h.as_str());
    let suffix_w = suffix.as_str().unicode_len();
    let ghost lv = lines_view(lines@);
    let n = lines.len();
    if n > 0 {
        let lw = spans_width(&lines[n - 1].spans);
        if lw <= width as u128 && (suffix_w as u128) <= width as u128 - lw {
            let mut last = lines.remove(n - 1);
            let ghost old_last = line_view(last);
            last.spans.push(StyledSpan { text: suffix, style: SpanStyle::FooterHint });
            assert(line_view(last) =~= old_last.push((" … +"@ + dec(hidden as nat), SpanStyle::FooterHint)));
            lines.push(last);
            assert(lines_view(lines@) =~= lv.update(lv.len() - 1, lv.last().push((" … +"@ + dec(hidden as nat), SpanStyle::FooterHint))));
            return;
        }
    }
    if n < max_lines {
        let mut spans = Vec::new();
        spans.push(StyledSpan { text: suffix, style: SpanStyle::FooterHint });
        let l = StyledLine { spans };
        assert(line_view(l) =~= seq![(" … +"@ + dec(hidden as nat), SpanStyle::FooterHint)]);
        lines.push(l);
        assert(lines_view(lines@) =~= lv.push(seq![(" … +"@ + dec(hidden as nat), SpanStyle::FooterHint)]));
    } else if n > 0 {
        let mut compact = String::from_str(" …+");
        compact.append(h.as_str());
        compact.append(" ?");
        let mut spans = Vec::new();
        spans.push(StyledSpan { text: compact, style: SpanStyle::FooterHint });
        let _ = lines.remove(n - 1);
        let l = StyledLine { spans };
        assert(line_view(l) =~= seq![(" …+"@ + dec(hidden as nat) + " ?"@, SpanStyle::FooterHint)]);
        lines.push(l);
        assert(lines_view(lines@) =~= lv.update(lv.len() - 1, seq![(" …+"@ + dec(hidden as nat) + " ?"@, SpanStyle::FooterHint)]));
    }
}

/// Packs `key desc` pairs into at most `max_lines` lines of `width`
/// columns (see `packed_help`).
pub fn pack_help(pairs: &[&str], width: usize, max_lines: usize) -> (r: Vec<StyledLine>)
    ensures
        lines_view(r@) == packed_help(str_views(pairs@), width as nat, max_lines as nat),
{
    let width = if width < 12 { 12 } else { width };
    let max_lines = if max_lines < 1 { 1 } else { max_lines };
    let ghost items = help_items(str_views(pairs@));
    let npairs = pairs.len() / 2;
    assert(npairs <= usize::MAX / 2);
    let mut lines: Vec<StyledLine> = Vec::new();
    let mut current: Vec<StyledSpan> = Vec::new();
    let mut cur_w: u128 = 0;
    let mut hidden: usize = 0;
    let mut i: usize = 0;
    proof {
        assert(items.len() == npairs + 1);
        assert(lines_view(lines@) =~= Seq::<LineView>::empty());
        assert(spans_view(current@) =~= Seq::<(Seq<char>, SpanStyle)>::empty());
        assert(items.subrange(0, 0) =~= Seq::<(Seq<char>, Seq<char>)>::empty());
    }
    while i <= npairs
        invariant
            npairs == pairs@.len() / 2,
            items == help_items(str_views(pairs@)),
            items.len() == npairs + 1,
            width >= 12,
            max_lines >= 1,
            i <= npairs + 1,
            npairs <= usize::MAX / 2,
            hidden <= i,
            lines@.len() + 1 <= max_lines,
            cur_w < 0x1_0000_0000_0000_0000_0000,
            ({
                let st = pack_all(items.subrange(0, i as int), width as nat, max_lines as nat);
                &&& lines_view(lines@) == st.lines
                &&& spans_view(current@) == st.current
                &&& cur_w == st.cur_w
                &&& hidden == st.hidden
            }),
        decreases npairs + 1 - i,
    {
        let (key, desc): (&str, &str) = if i < npairs {
            assert(2 * i + 1 < pairs@.len()) by (nonlinear_arith)
                requires i < npairs, npairs == pairs@.len() / 2;
            (pairs[2 * i], pairs[2 * i + 1])
        } else {
            ("T", "theme")
        };
        assert(key@ == items[i as int].0 && desc@ == items[i as int].1);
        let ghost st = pack_all(items.subrange(0, i as int), width as nat, max_lines as nat);
        proof {
            assert(items.subrange(0, i + 1 as int).drop_last() =~= items.subrange(0, i as int));
            lemma_pack_all_bounds(items.subrange(0, i + 1 as int), width as nat, max_lines as nat);
        }
        let kw = key.unicode_len() as u128;
        let dw = desc.unicode_len() as u128;
        let sep_w: u128 = if cur_w == 0 { 0 } else { 3 };
        proof {
            reveal_strlit(" │ ");
        }
        let seg_w = sep_w + 2 + kw + dw;
        let wraps = cur_w > 0 && cur_w + seg_w > width as u128;
        if wraps && lines.len() + 1 >= max_lines {
            hidden = hidden + 1;
        } else {
            if wraps {
                if current.len() > 0 {
                    let mut taken = Vec::new();
                    std::mem::swap(&mut taken, &mut current);
                    lines.push(StyledLine { spans: taken });
                    cur_w = 0;
                    proof {
                        assert(lines_view(lines@) =~= st.lines.push(st.current));
                        assert(spans_view(current@) =~= Seq::<(Seq<char>, SpanStyle)>::empty());
                    }
                }
            }
            if cur_w == 0 && seg_w > width as u128 && lines.len() + 1 >= max_lines {
                hidden = hidden + 1;
            } else if cur_w == 0 && seg_w > width as u128 {
                push_key_desc(&mut current, key, "");
                proof {
                    reveal_strlit("");
                    assert(""@ =~= Seq::<char>::empty());
                }
                cur_w = 1 + kw;
            } else {
                if sep_w > 0 {
                    current.push(StyledSpan { text: String::from_str(" │ "), style: SpanStyle::FooterHint });
                }
                push_key_desc(&mut current, key, desc);
                cur_w = cur_w + seg_w;
            }
        }
        i = i + 1;
    }
    assert(items.subrange(0, i as int) =~= items);
    if current.len() > 0 {
        let ghost st = pack_all(items, width as nat, max_lines as nat);
        lines.push(StyledLine { spans: current });
        assert(lines_view(lines@) =~= st.lines.push(st.current));
    }
    proof {
        lemma_pack_all_bounds(items, width as nat, max_lines as nat);
    }
    if hidden > 0 {
        append_overflow(&mut lines, hidden, width, max_lines);
    }
    if lines.len() == 0 {
        let mut spans = Vec::new();
        spans.push(StyledSpan { text: String::from_str(" ?"), style: SpanStyle::FooterKey });
        spans.push(StyledSpan { text: String::from_str("help"), style: SpanStyle::FooterHint });
        let l = StyledLine { spans };
        assert(line_view(l) =~= seq![(" ?"@, SpanStyle::FooterKey), ("help"@, SpanStyle::FooterHint)]);
        lines.push(l);
        assert(lines_view(lines@) =~= seq![seq![(" ?"@, SpanStyle::FooterKey), ("help"@, SpanStyle::FooterHint)]]);
    }
    lines
}

proof fn lemma_pack_all_bounds(items: Seq<(Seq<char>, Seq<char>)>, width: nat, max_lines: nat)
    requires
        max_lines >= 1,
    ensures
        pack_all(items, width, max_lines).lines.len() + 1 <= max_lines,
        pack_all(items, width, max_lines).hidden <= items.len(),
    decreases items.len(),
{
    if items.len() > 0 {
        lemma_pack_all_bounds(items.drop_last(), width, max_lines);
    }
}

/// The packed footer has between one and `max(max_lines, 1)` lines.
pub proof fn lemma_packed_help_bounds(pairs: Seq<Seq<char>>, width: nat, max_lines: nat)
    ensures
        1 <= packed_help(pairs, width, max_lines).len() <= max_nat(max_lines, 1),
{
    let w = max_nat(width, 12);
    let m = max_nat(max_lines, 1);
    lemma_pack_all_bounds(help_items(pairs), w, m);
}


/// The footer gets between one and four lines, more on taller terminals and
/// when expanded.
pub proof fn law_footer_lines_grow(h1: int, h2: int, expanded: bool)
    ensures
        1 <= max_footer_lines(h1, expanded) <= 4,
        max_footer_lines(h1, false) <= max_footer_lines(h1, true),
        h1 <= h2 ==> max_footer_lines(h1, expanded) <= max_footer_lines(h2, expanded),
{
}

} // verus!
