//! The resource use of the qubes: qubesd's stats reply (pairs of
//! `name\0fields\0` pieces) and, without the socket, the `xl list` table.
use vstd::prelude::*;
use vstd::utf8::{decode_utf8, valid_utf8};

use crate::admin::client::{socket_reply, CallOutput};
use crate::admin::error::{AdminError, AdminResult};
use crate::admin::protocol::{
    bytes_between, last_prefixed, reply_data, reply_error, span_ok, span_text, str_from_utf8,
    string_from_utf8_lossy, utf8_error_text, utf8_lossy,
};
use crate::admin::types::opt_text;
use crate::text::{
    chars_of, has_prefix, lemma_pieces_nonempty, parse_u64_span, parsed_u64, pieces, span_has_prefix, spans_are, split_spans,
    string_of, word_spans, words, Sep,
};

verus! {

/// The resource use of one qube, as read: the text of its CPU use as qubesd
/// gives it (tenths of a percent; none where it is not given) and its
/// memory in KiB.
#[derive(Debug, Clone)]
pub struct StatsEntry {
    pub name: String,
    pub cpu_usage: Option<String>,
    pub mem_kb: u64,
}

/// The pieces of `b` between zero bytes, empty pieces included: `n` zeros
/// give `n + 1` pieces (the behaviour of splitting a slice).
pub open spec fn byte_pieces(b: Seq<u8>) -> Seq<Seq<u8>>
    decreases b.len(),
{
    if b.len() == 0 {
        seq![Seq::<u8>::empty()]
    } else {
        let p = byte_pieces(b.drop_last());
        if b.last() == 0 {
            p.push(Seq::<u8>::empty())
        } else {
            p.update(p.len() - 1, p.last().push(b.last()))
        }
    }
}

/// `spans` picks, from `b`, exactly the members of `ps`.
pub open spec fn byte_spans_are(b: Seq<u8>, spans: Seq<(usize, usize)>, ps: Seq<Seq<u8>>) -> bool {
    &&& spans.len() == ps.len()
    &&& forall|i: int|
        0 <= i < spans.len() ==> {
            &&& (#[trigger] spans[i]).0 <= spans[i].1 <= b.len()
            &&& b.subrange(spans[i].0 as int, spans[i].1 as int) == ps[i]
        }
}

/// The memory that the `mem_used=` word of `toks` gives, in KiB: the last
/// such word's number of bytes over 1024, 0 where there is none or it is
/// not a `u64`.
pub open spec fn mem_used_kb(toks: Seq<Seq<char>>) -> u64 {
    match last_prefixed(toks, "mem_used="@) {
        Some(v) => match parsed_u64(v) {
            Some(n) => n / 1024,
            None => 0,
        },
        None => 0,
    }
}

/// `e` is the entry of the qube `name` whose fields are the words `toks`:
/// the CPU use is the text after the last `cpu_usage=`.
pub open spec fn stats_entry_is(e: StatsEntry, name: Seq<char>, toks: Seq<Seq<char>>) -> bool {
    &&& e.name@ == name
    &&& opt_text(e.cpu_usage) == last_prefixed(toks, "cpu_usage="@)
    &&& e.mem_kb == mem_used_kb(toks)
}

/// The (name, fields) pairs of the first `k` pairs of pieces `ps`, where
/// the name, read as UTF-8 with invalid sequences replaced, is not empty.
pub open spec fn stat_pairs(ps: Seq<Seq<u8>>, k: int) -> Seq<(Seq<u8>, Seq<u8>)>
    decreases k,
{
    if k <= 0 {
        Seq::empty()
    } else {
        let r = stat_pairs(ps, k - 1);
        if utf8_lossy(ps[2 * k - 2]).len() > 0 {
            r.push((ps[2 * k - 2], ps[2 * k - 1]))
        } else {
            r
        }
    }
}

/// `es` are the entries of the stats reply data `data`: one for each pair
/// of pieces with a non-empty name, in order (a last piece without a
/// partner is left out).
pub open spec fn socket_stats_are(es: Seq<StatsEntry>, data: Seq<u8>) -> bool {
    let ps = byte_pieces(data);
    let pairs = stat_pairs(ps, (ps.len() / 2) as int);
    &&& es.len() == pairs.len()
    &&& forall|i: int|
        0 <= i < es.len() ==> stats_entry_is(
            #[trigger] es[i],
            utf8_lossy(pairs[i].0),
            words(utf8_lossy(pairs[i].1)),
        )
}

/// The name and memory (KiB) that an `xl list` row gives: the first column
/// and the third column (MiB) times 1024, wrapping, 0 where it is not a
/// `u64`; no entry for a row of fewer than six columns.
pub open spec fn xl_row(line: Seq<char>) -> Option<(Seq<char>, u64)> {
    let cols = words(line);
    if cols.len() < 6 {
        None
    } else {
        Some(
            (
                cols[0],
                match parsed_u64(cols[2]) {
                    Some(n) => n.wrapping_mul(1024),
                    None => 0,
                },
            ),
        )
    }
}

/// The entries of the rows `lines`, in order.
pub open spec fn xl_rows(lines: Seq<Seq<char>>) -> Seq<(Seq<char>, u64)>
    decreases lines.len(),
{
    if lines.len() == 0 {
        Seq::empty()
    } else {
        let r = xl_rows(lines.drop_last());
        match xl_row(lines.last()) {
            Some(e) => r.push(e),
            None => r,
        }
    }
}

/// `es` are the entries of the `xl list` output `text`: one for each row
/// after the header line, with no CPU use.
pub open spec fn xl_stats_are(es: Seq<StatsEntry>, text: Seq<char>) -> bool {
    let rows = xl_rows(pieces(text, Sep::Char('\n')).skip(1));
    &&& es.len() == rows.len()
    &&& forall|i: int|
        0 <= i < es.len() ==> (#[trigger] es[i]).name@ == rows[i].0 && es[i].mem_kb == rows[i].1
            && es[i].cpu_usage is None
}

/// `r` is what the output `out` of a stats call gives. The `xl` tool's exit
/// status is not looked at.
pub open spec fn stats_reply_is(out: CallOutput, r: AdminResult<Vec<StatsEntry>>) -> bool {
    match out {
        CallOutput::Socket(buf) => if buf@.len() == 0 {
            r matches Err(AdminError::ConnectionLost)
        } else {
            match reply_data(buf@) {
                Some(d) => r matches Ok(es) && socket_stats_are(es@, d),
                None => r matches Err(e) && reply_error(buf@, e),
            }
        },
        CallOutput::Command { stdout, .. } => if valid_utf8(stdout@) {
            r matches Ok(es) && xl_stats_are(es@, decode_utf8(stdout@))
        } else {
            r matches Err(AdminError::Parse(_))
        },
    }
}

/// The spans of the pieces of `data` between zero bytes.
fn zero_spans(data: &[u8]) -> (r: Vec<(usize, usize)>)
    ensures
        byte_spans_are(data@, r@, byte_pieces(data@)),
{
    let mut out: Vec<(usize, usize)> = Vec::new();
    let mut st: usize = 0;
    let mut i: usize = 0;
    proof {
        assert(data@.take(0) =~= Seq::<u8>::empty());
        assert(byte_pieces(Seq::<u8>::empty()).drop_last() =~= Seq::<Seq<u8>>::empty());
    }
    while i < data.len()
        invariant
            0 <= st <= i <= data@.len(),
            ({
                let p = byte_pieces(data@.take(i as int));
                &&& p.len() >= 1
                &&& byte_spans_are(data@, out@, p.drop_last())
                &&& p.last() == data@.subrange(st as int, i as int)
            }),
        decreases data@.len() - i,
    {
        let ghost old_out = out@;
        let ghost p = byte_pieces(data@.take(i as int));
        let ghost s2 = data@.take(i + 1);
        proof {
            assert(s2.drop_last() =~= data@.take(i as int));
            assert(s2.last() == data@[i as int]);
        }
        if data[i] == 0 {
            out.push((st, i));
            st = i + 1;
            proof {
                let p2 = byte_pieces(s2);
                assert(p2 == p.push(Seq::<u8>::empty()));
                assert(p2.drop_last() =~= p);
                assert(p =~= p.drop_last().push(p.last()));
                assert(data@.subrange(st as int, i + 1) =~= Seq::<u8>::empty());
                assert forall|k: int| 0 <= k < out@.len() implies {
                    &&& (#[trigger] out@[k]).0 <= out@[k].1 <= data@.len()
                    &&& data@.subrange(out@[k].0 as int, out@[k].1 as int) == p2.drop_last()[k]
                } by {
                    if k < old_out.len() {
                        assert(out@[k] == old_out[k]);
                    }
                }
            }
        } else {
            proof {
                let p2 = byte_pieces(s2);
                assert(p2 == p.update(p.len() - 1, p.last().push(data@[i as int])));
                assert(p2.drop_last() =~= p.drop_last());
                assert(data@.subrange(st as int, i + 1) =~= p.last().push(data@[i as int]));
            }
        }
        i += 1;
    }
    let ghost old_out = out@;
    let ghost p = byte_pieces(data@);
    assert(data@.take(data@.len() as int) =~= data@);
    out.push((st, data.len()));
    proof {
        assert(p =~= p.drop_last().push(p.last()));
        assert forall|k: int| 0 <= k < out@.len() implies {
            &&& (#[trigger] out@[k]).0 <= out@[k].1 <= data@.len()
            &&& data@.subrange(out@[k].0 as int, out@[k].1 as int) == p[k]
        } by {
            if k < old_out.len() {
                assert(out@[k] == old_out[k]);
            }
        }
    }
    out
}

/// The entry of the qube `name` whose fields are the text `body`.
fn stats_entry(name: String, body: &str) -> (e: StatsEntry)
    ensures
        stats_entry_is(e, name@, words(body@)),
{
    let cs = chars_of(body);
    let ws = word_spans(&cs, 0, cs.len());
    let ghost toks = words(cs@);
    assert(cs@.subrange(0, cs@.len() as int) =~= cs@);
    let mut cpu_sp: Option<(usize, usize)> = None;
    let mut mem_sp: Option<(usize, usize)> = None;
    let cpu_len = chars_of("cpu_usage=").len();
    let mem_len = chars_of("mem_used=").len();
    let mut j: usize = 0;
    while j < ws.len()
        invariant
            toks == words(cs@),
            spans_are(cs@, ws@, toks),
            0 <= j <= ws@.len(),
            cpu_len == "cpu_usage="@.len(),
            mem_len == "mem_used="@.len(),
            span_ok(cs@, cpu_sp),
            span_ok(cs@, mem_sp),
            span_text(cs@, cpu_sp) == last_prefixed(toks.take(j as int), "cpu_usage="@),
            span_text(cs@, mem_sp) == last_prefixed(toks.take(j as int), "mem_used="@),
        decreases ws@.len() - j,
    {
        let (x, y) = ws[j];
        let ghost t = toks[j as int];
        proof {
            assert(toks.take(j + 1).drop_last() =~= toks.take(j as int));
            assert(toks.take(j + 1).last() == t);
        }
        if span_has_prefix(&cs, x, y, "cpu_usage=") {
            proof {
                assert(t.skip(cpu_len as int) =~= cs@.subrange(x + cpu_len, y as int));
                reveal_strlit("cpu_usage=");
                reveal_strlit("mem_used=");
                assert(t[0] == t.take(cpu_len as int)[0]);
                assert(!has_prefix(t, "mem_used="@)) by {
                    if has_prefix(t, "mem_used="@) {
                        assert(t[0] == t.take(mem_len as int)[0]);
                    }
                }
            }
            cpu_sp = Some((x + cpu_len, y));
        } else if span_has_prefix(&cs, x, y, "mem_used=") {
            proof {
                assert(t.skip(mem_len as int) =~= cs@.subrange(x + mem_len, y as int));
            }
            mem_sp = Some((x + mem_len, y));
        }
        j += 1;
    }
    assert(toks.take(ws@.len() as int) =~= toks);
    let cpu_usage = match cpu_sp {
        Some((x, y)) => Some(string_of(&cs, x, y)),
        None => None,
    };
    let mem_kb = match mem_sp {
        Some((x, y)) => match parse_u64_span(&cs, x, y) {
            Some(n) => n / 1024,
            None => 0,
        },
        None => 0,
    };
    StatsEntry { name, cpu_usage, mem_kb }
}

/// Parses the data of a stats reply: pieces between zero bytes, taken in
/// pairs of a qube name and its `key=value` fields (`cpu_usage=`, in tenths
/// of a percent, and `mem_used=`, in bytes); pairs with an empty name are
/// left out.
pub fn parse_stats_socket(data: &[u8]) -> (r: Vec<StatsEntry>)
    ensures
        socket_stats_are(r@, data@),
{
    let spans = zero_spans(data);
    let ghost ps = byte_pieces(data@);
    let len = spans.len();
    let n = len / 2;
    let mut out: Vec<StatsEntry> = Vec::new();
    let mut k: usize = 0;
    while k < n
        invariant
            len == spans@.len(),
            n == ps.len() / 2,
            2 * n <= len,
            byte_spans_are(data@, spans@, ps),
            0 <= k <= n,
            out@.len() == stat_pairs(ps, k as int).len(),
            forall|i: int|
                0 <= i < out@.len() ==> stats_entry_is(
                    #[trigger] out@[i],
                    utf8_lossy(stat_pairs(ps, k as int)[i].0),
                    words(utf8_lossy(stat_pairs(ps, k as int)[i].1)),
                ),
        decreases n - k,
    {
        let i = k + k;
        let (a, b) = spans[i];
        let (c, d) = spans[i + 1];
        let nb = bytes_between(data, a, b);
        let name = string_from_utf8_lossy(nb.as_slice());
        let ghost old_out = out@;
        if !name.as_str().is_empty() {
            let bb = bytes_between(data, c, d);
            let body = string_from_utf8_lossy(bb.as_slice());
            let e = stats_entry(name, body.as_str());
            out.push(e);
            proof {
                let pairs = stat_pairs(ps, k + 1);
                assert(pairs == stat_pairs(ps, k as int).push((ps[2 * k as int], ps[2 * k + 1])));
                assert forall|i: int| 0 <= i < out@.len() implies stats_entry_is(
                    #[trigger] out@[i],
                    utf8_lossy(pairs[i].0),
                    words(utf8_lossy(pairs[i].1)),
                ) by {
                    if i < old_out.len() {
                        assert(out@[i] == old_out[i]);
                    }
                }
            }
        }
        k += 1;
    }
    out
}

/// Parses the `xl list` output `cs`: after the header line, one entry for
/// each row of at least six columns.
fn parse_xl_list(cs: &Vec<char>) -> (r: Vec<StatsEntry>)
    ensures
        xl_stats_are(r@, cs@),
{
    let spans = split_spans(cs, 0, cs.len(), Sep::Char('\n'));
    let ghost ps = pieces(cs@.subrange(0, cs@.len() as int), Sep::Char('\n'));
    assert(cs@.subrange(0, cs@.len() as int) =~= cs@);
    let mut out: Vec<StatsEntry> = Vec::new();
    let mut j: usize = 1;
    proof {
        lemma_pieces_nonempty(cs@, Sep::Char('\n'));
    }
    while j < spans.len()
        invariant
            spans_are(cs@, spans@, ps),
            1 <= j <= spans@.len(),
            out@.len() == xl_rows(ps.subrange(1, j as int)).len(),
            forall|i: int|
                0 <= i < out@.len() ==> (#[trigger] out@[i]).name@ == xl_rows(
                    ps.subrange(1, j as int),
                )[i].0 && out@[i].mem_kb == xl_rows(ps.subrange(1, j as int))[i].1
                    && out@[i].cpu_usage is None,
        decreases spans@.len() - j,
    {
        let (x, y) = spans[j];
        let ghost line = ps[j as int];
        proof {
            assert(ps.subrange(1, j + 1).drop_last() =~= ps.subrange(1, j as int));
            assert(ps.subrange(1, j + 1).last() == line);
        }
        let ws = word_spans(cs, x, y);
        let ghost old_out = out@;
        if ws.len() >= 6 {
            let (a0, b0) = ws[0];
            let (a2, b2) = ws[2];
            let name = string_of(cs, a0, b0);
            let mem_kb = match parse_u64_span(cs, a2, b2) {
                Some(m) => m.wrapping_mul(1024),
                None => 0,
            };
            out.push(StatsEntry { name, cpu_usage: None, mem_kb });
            proof {
                let rows = xl_rows(ps.subrange(1, j + 1));
                assert forall|i: int| 0 <= i < out@.len() implies (#[trigger] out@[i]).name@
                    == rows[i].0 && out@[i].mem_kb == rows[i].1 && out@[i].cpu_usage is None by {
                    if i < old_out.len() {
                        assert(out@[i] == old_out[i]);
                    }
                }
            }
        }
        j += 1;
    }
    assert(ps.subrange(1, spans@.len() as int) =~= ps.skip(1));
    out
}

/// What the output of a stats call means.
pub fn stats_reply(out: &CallOutput) -> (r: AdminResult<Vec<StatsEntry>>)
    ensures
        stats_reply_is(*out, r),
{
    match out {
        CallOutput::Socket(buf) => {
            match socket_reply(buf.as_slice()) {
                Ok(resp) => Ok(parse_stats_socket(resp.data.as_slice())),
                Err(e) => Err(e),
            }
        },
        CallOutput::Command { stdout, .. } => {
            match str_from_utf8(stdout.as_slice()) {
                Ok(text) => {
                    let cs = chars_of(text);
                    Ok(parse_xl_list(&cs))
                },
                Err(e) => Err(AdminError::Parse(utf8_error_text(&e))),
            }
        },
    }
}

} // verus!
