//! The detail pane of a message: its position, time, key, headers and
//! payload as styled lines, JSON pretty-printed on request.

use vstd::prelude::*;

use crate::config::{lemma_split_lines_nonempty, split_lines};
use crate::kafka::FetchedMessage;
use crate::messages::{format_timestamp, timestamp_text, try_pretty, try_pretty_json};
use crate::styled::{line_view, lines_view, single, LineView, SpanStyle, StyledLine, StyledSpan};
use crate::text::{chars_of, fmt_i64, int_dec, string_from_chars, strs};

verus! {

/// A line without its final carriage return.
pub open spec fn strip_cr(l: Seq<char>) -> Seq<char> {
    if l.len() > 0 && l.last() == '\r' { l.drop_last() } else { l }
}

/// `str::lines`: the pieces between line feeds, each without a final
/// carriage return; nothing follows a final line feed.
pub open spec fn text_lines(s: Seq<char>) -> Seq<Seq<char>> {
    let ls = split_lines(s);
    let kept = if ls.last().len() == 0 { ls.drop_last() } else { ls };
    kept.map_values(|l: Seq<char>| strip_cr(l))
}

/// The text a payload shows: pretty-printed when asked and it is JSON.
pub open spec fn payload_text(raw: Seq<char>, pretty: bool) -> Seq<char> {
    if pretty {
        match try_pretty(raw) {
            Some(p) => p,
            None => raw,
        }
    } else {
        raw
    }
}

/// One unstyled line per line of the payload, or `<empty>`.
pub open spec fn payload_view(raw: Seq<char>, pretty: bool) -> Seq<LineView> {
    let t = payload_text(raw, pretty);
    if t.len() == 0 {
        seq![seq![("<empty>"@, SpanStyle::Plain)]]
    } else {
        text_lines(t).map_values(|l: Seq<char>| seq![(l, SpanStyle::Plain)])
    }
}

pub open spec fn header_rows(h: Seq<(String, String)>) -> Seq<LineView> {
    h.map_values(|kv: (String, String)| seq![("  "@ + kv.0@ + ": "@ + kv.1@, SpanStyle::Plain)])
}

pub open spec fn position_part(m: FetchedMessage) -> Seq<LineView> {
    seq![seq![
        ("partition "@, SpanStyle::Key),
        (int_dec(m.partition as int), SpanStyle::Plain),
        ("  "@, SpanStyle::Plain),
        ("offset "@, SpanStyle::Key),
        (int_dec(m.offset as int), SpanStyle::Plain),
    ]]
}

pub open spec fn time_part(m: FetchedMessage) -> Seq<LineView> {
    match m.timestamp_ms {
        Some(t) => seq![seq![("timestamp "@, SpanStyle::Key), (timestamp_text(t), SpanStyle::Plain)]],
        None => Seq::empty(),
    }
}

pub open spec fn key_lines(m: FetchedMessage, pretty: bool) -> Seq<LineView> {
    match m.key {
        Some(k) => seq![seq![("key"@, SpanStyle::Key)]] + if pretty && try_pretty(k@) is Some {
            payload_view(try_pretty(k@)->0, false)
        } else {
            seq![seq![(k@, SpanStyle::Value)]]
        },
        None => Seq::empty(),
    }
}

pub open spec fn header_part(m: FetchedMessage) -> Seq<LineView> {
    if m.headers@.len() > 0 {
        seq![seq![("headers"@, SpanStyle::Key)]] + header_rows(m.headers@)
    } else {
        Seq::empty()
    }
}

pub open spec fn payload_part(m: FetchedMessage, pretty: bool) -> Seq<LineView> {
    seq![seq![("payload"@, SpanStyle::Key)]] + match m.payload {
        Some(p) => payload_view(p@, pretty),
        None => seq![seq![("<null>"@, SpanStyle::Plain)]],
    }
}

/// The detail pane of `m`: position, time, key, headers, payload.
pub open spec fn detail_view(m: FetchedMessage, pretty: bool) -> Seq<LineView> {
    position_part(m) + time_part(m) + key_lines(m, pretty) + header_part(m) + payload_part(m, pretty)
}

/// The lines of `s` (see `text_lines`).
pub fn lines_of(s: &str) -> (r: Vec<String>)
    ensures
        strs(r@) == text_lines(s@),
{
    let cs = chars_of(s);
    let mut done: Vec<String> = Vec::new();
    let mut cur: Vec<char> = Vec::new();
    let mut i: usize = 0;
    proof {
        assert(cs@.subrange(0, 0) =~= Seq::<char>::empty());
    }
    while i < cs.len()
        invariant
            i <= cs@.len(),
            cs@ == s@,
            split_lines(cs@.subrange(0, i as int)).len() >= 1,
            cur@ == split_lines(cs@.subrange(0, i as int)).last(),
            strs(done@) == split_lines(cs@.subrange(0, i as int)).drop_last().map_values(|l: Seq<char>| strip_cr(l)),
        decreases cs.len() - i,
    {
        let ghost pre = cs@.subrange(0, i as int);
        let ghost nxt = cs@.subrange(0, i + 1);
        assert(nxt.drop_last() =~= pre);
        let c = cs[i];
        if c == '\n' {
            let ghost before = strs(done@);
            let n = cur.len();
            let line = if n > 0 && cur[n - 1] == '\r' {
                string_from_chars(&cur.as_slice()[0..n - 1])
            } else {
                string_from_chars(cur.as_slice())
            };
            assert(line@ == strip_cr(cur@)) by {
                if n > 0 && cur@[n - 1] == '\r' {
                    assert(cur@.subrange(0, n - 1) =~= cur@.drop_last());
                }
            }
            done.push(line);
            assert(strs(done@) =~= before.push(strip_cr(cur@)));
            assert(split_lines(nxt).drop_last() =~= split_lines(pre));
            assert(strs(done@) =~= split_lines(nxt).drop_last().map_values(|l: Seq<char>| strip_cr(l)));
            cur = Vec::new();
        } else {
            cur.push(c);
            proof {
                lemma_split_lines_nonempty(pre);
                assert(split_lines(nxt).drop_last() =~= split_lines(pre).drop_last());
            }
        }
        i = i + 1;
    }
    assert(cs@.subrange(0, i as int) =~= s@);
    proof {
        lemma_split_lines_nonempty(s@);
    }
    if cur.len() > 0 {
        let ghost before = strs(done@);
        let n = cur.len();
        let line = if cur[n - 1] == '\r' {
            string_from_chars(&cur.as_slice()[0..n - 1])
        } else {
            string_from_chars(cur.as_slice())
        };
        assert(line@ == strip_cr(cur@)) by {
            if cur@[n - 1] == '\r' {
                assert(cur@.subrange(0, n - 1) =~= cur@.drop_last());
            }
        }
        done.push(line);
        assert(split_lines(s@) =~= split_lines(s@).drop_last().push(cur@));
        assert(strs(done@) =~= before.push(strip_cr(cur@)));
        assert(strs(done@) =~= text_lines(s@));
    } else {
        assert(strs(done@) =~= text_lines(s@));
    }
    done
}

fn push_line(out: &mut Vec<StyledLine>, text: String, style: SpanStyle)
    ensures
        lines_view(final(out)@) == lines_view(old(out)@).push(seq![(text@, style)]),
{
    let ghost before = lines_view(out@);
    out.push(single(text, style));
    assert(lines_view(out@) =~= before.push(seq![(text@, style)]));
}

/// Adds the lines of a payload (see `payload_view`).
pub fn push_payload(out: &mut Vec<StyledLine>, raw: &str, pretty: bool)
    ensures
        lines_view(final(out)@) == lines_view(old(out)@) + payload_view(raw@, pretty),
{
    let text = if pretty {
        match try_pretty_json(raw) {
            Some(p) => p,
            None => String::from_str(raw),
        }
    } else {
        String::from_str(raw)
    };
    assert(text@ == payload_text(raw@, pretty));
    if text.unicode_len() == 0 {
        push_line(out, String::from_str("<empty>"), SpanStyle::Plain);
        return;
    }
    let ls = lines_of(text.as_str());
    let ghost start = lines_view(out@);
    let ghost want = text_lines(text@).map_values(|l: Seq<char>| seq![(l, SpanStyle::Plain)]);
    let mut i: usize = 0;
    while i < ls.len()
        invariant
            i <= ls@.len(),
            strs(ls@) == text_lines(text@),
            want == text_lines(text@).map_values(|l: Seq<char>| seq![(l, SpanStyle::Plain)]),
            lines_view(out@) == start + want.subrange(0, i as int),
        decreases ls.len() - i,
    {
        let ghost before = lines_view(out@);
        assert(strs(ls@)[i as int] == ls@[i as int]@);
        push_line(out, ls[i].clone(), SpanStyle::Plain);
        i = i + 1;
        assert(lines_view(out@) =~= start + want.subrange(0, i as int));
    }
    assert(want.subrange(0, i as int) =~= want);
}

/// The payload as styled lines (see `payload_view`).
pub fn payload_lines(raw: &str, pretty: bool) -> (r: Vec<StyledLine>)
    ensures
        lines_view(r@) == payload_view(raw@, pretty),
{
    let mut out: Vec<StyledLine> = Vec::new();
    push_payload(&mut out, raw, pretty);
    assert(lines_view(out@) =~= payload_view(raw@, pretty));
    out
}

fn first_line(m: &FetchedMessage) -> (r: StyledLine)
    ensures
        line_view(r) == seq![
            ("partition "@, SpanStyle::Key),
            (int_dec(m.partition as int), SpanStyle::Plain),
            ("  "@, SpanStyle::Plain),
            ("offset "@, SpanStyle::Key),
            (int_dec(m.offset as int), SpanStyle::Plain),
        ],
{
    let mut spans: Vec<StyledSpan> = Vec::new();
    spans.push(StyledSpan { text: String::from_str("partition "), style: SpanStyle::Key });
    spans.push(StyledSpan { text: fmt_i64(m.partition as i64), style: SpanStyle::Plain });
    spans.push(StyledSpan { text: String::from_str("  "), style: SpanStyle::Plain });
    spans.push(StyledSpan { text: String::from_str("offset "), style: SpanStyle::Key });
    spans.push(StyledSpan { text: fmt_i64(m.offset), style: SpanStyle::Plain });
    let r = StyledLine { spans };
    assert(line_view(r) =~= seq![
        ("partition "@, SpanStyle::Key),
        (int_dec(m.partition as int), SpanStyle::Plain),
        ("  "@, SpanStyle::Plain),
        ("offset "@, SpanStyle::Key),
        (int_dec(m.offset as int), SpanStyle::Plain),
    ]);
    r
}

fn time_line(text: String) -> (r: StyledLine)
    ensures
        line_view(r) == seq![("timestamp "@, SpanStyle::Key), (text@, SpanStyle::Plain)],
{
    let mut spans: Vec<StyledSpan> = Vec::new();
    spans.push(StyledSpan { text: String::from_str("timestamp "), style: SpanStyle::Key });
    spans.push(StyledSpan { text, style: SpanStyle::Plain });
    let r = StyledLine { spans };
    assert(line_view(r) =~= seq![("timestamp "@, SpanStyle::Key), (r.spans@[1].text@, SpanStyle::Plain)]);
    r
}

fn push_time(out: &mut Vec<StyledLine>, m: &FetchedMessage)
    ensures
        lines_view(final(out)@) == lines_view(old(out)@) + time_part(*m),
{
    let ghost before = lines_view(out@);
    if let Some(ts) = m.timestamp_ms {
        out.push(time_line(format_timestamp(ts)));
        assert(lines_view(out@) =~= before + time_part(*m));
    } else {
        assert(lines_view(out@) =~= before + time_part(*m));
    }
}

fn push_key(out: &mut Vec<StyledLine>, m: &FetchedMessage, pretty_json: bool)
    ensures
        lines_view(final(out)@) == lines_view(old(out)@) + key_lines(*m, pretty_json),
{
    let ghost before = lines_view(out@);
    if let Some(key) = &m.key {
        push_line(out, String::from_str("key"), SpanStyle::Key);
        let pretty_key = if pretty_json { try_pretty_json(key.as_str()) } else { None };
        match pretty_key {
            Some(p) => push_payload(out, p.as_str(), false),
            None => push_line(out, key.clone(), SpanStyle::Value),
        }
    }
    assert(lines_view(out@) =~= before + key_lines(*m, pretty_json));
}

fn push_headers(out: &mut Vec<StyledLine>, m: &FetchedMessage)
    ensures
        lines_view(final(out)@) == lines_view(old(out)@) + header_part(*m),
{
    let ghost before = lines_view(out@);
    if m.headers.len() == 0 {
        assert(lines_view(out@) =~= before + header_part(*m));
        return;
    }
    push_line(out, String::from_str("headers"), SpanStyle::Key);
    let ghost start = lines_view(out@);
    let mut i: usize = 0;
    while i < m.headers.len()
        invariant
            i <= m.headers@.len(),
            lines_view(out@) == start + header_rows(m.headers@.subrange(0, i as int)),
        decreases m.headers.len() - i,
    {
        let (k, v) = &m.headers[i];
        let mut s = String::from_str("  ");
        s.append(k.as_str());
        s.append(": ");
        s.append(v.as_str());
        push_line(out, s, SpanStyle::Plain);
        i = i + 1;
        assert(header_rows(m.headers@.subrange(0, i as int)) =~= header_rows(m.headers@.subrange(0, i - 1)).push(
            seq![("  "@ + m.headers@[i - 1].0@ + ": "@ + m.headers@[i - 1].1@, SpanStyle::Plain)]));
        assert(lines_view(out@) =~= start + header_rows(m.headers@.subrange(0, i as int)));
    }
    assert(m.headers@.subrange(0, i as int) =~= m.headers@);
    assert(lines_view(out@) =~= before + header_part(*m));
}

fn push_message_payload(out: &mut Vec<StyledLine>, m: &FetchedMessage, pretty_json: bool)
    ensures
        lines_view(final(out)@) == lines_view(old(out)@) + payload_part(*m, pretty_json),
{
    let ghost before = lines_view(out@);
    push_line(out, String::from_str("payload"), SpanStyle::Key);
    match &m.payload {
        Some(p) => push_payload(out, p.as_str(), pretty_json),
        None => push_line(out, String::from_str("<null>"), SpanStyle::Plain),
    }
    assert(lines_view(out@) =~= before + payload_part(*m, pretty_json));
}

/// The detail pane of a message (see `detail_view`).
pub fn message_detail_lines(m: &FetchedMessage, pretty_json: bool) -> (r: Vec<StyledLine>)
    ensures
        lines_view(r@) == detail_view(*m, pretty_json),
{
    let mut out: Vec<StyledLine> = Vec::new();
    out.push(first_line(m));
    assert(lines_view(out@) =~= position_part(*m));
    push_time(&mut out, m);
    push_key(&mut out, m, pretty_json);
    push_headers(&mut out, m);
    push_message_payload(&mut out, m, pretty_json);
    out
}

} // verus!
