//! The qubesd wire format: requests are `method\0destination\0arg\0payload`,
//! replies are a type byte, a `\0`, then data; and the text formats of the
//! qube list, the property list and the current-state reply.
use vstd::prelude::*;
use vstd::utf8::{decode_utf8, encode_utf8, valid_utf8};

use crate::admin::error::{AdminError, AdminResult};
use crate::admin::types::{
    apply_property, empty_props, flag_of, lemma_apply_keeps_typed, opt_text, typed_from_raw,
    PropsModel, QubeClass, QubeInfo, QubeProperties, QubeState,
};
use crate::text::{
    after_first, before_first, chars_of, decimal, find_char, has_prefix, hex2, line_spans,
    nonblank_lines, parsed_u64, push_decimal, push_hex2, push_str, span_eq_str, span_has_prefix,
    spans_are, str_eq, string_of, word_spans, words, parse_u64_span,
};

verus! {

/// What `String::from_utf8_lossy` makes of the bytes `b`.
pub uninterp spec fn utf8_lossy(b: Seq<u8>) -> Seq<char>;

/// `String::from_utf8_lossy`: the text of `bytes`, invalid sequences
/// replaced. Claimed: the result is the named `utf8_lossy(bytes)`, and for
/// valid UTF-8 it is the decoded text.
#[verifier::external_body]
pub(crate) fn string_from_utf8_lossy(bytes: &[u8]) -> (r: String)
    ensures
        r@ == utf8_lossy(bytes@),
        valid_utf8(bytes@) ==> r@ == decode_utf8(bytes@),
{
    String::from_utf8_lossy(bytes).into_owned()
}

/// `std::str::Utf8Error`, the failure of a UTF-8 check.
#[verifier::external_type_specification]
#[verifier::external_body]
pub struct ExUtf8Error(std::str::Utf8Error);

/// `std::str::from_utf8`: succeeds exactly on valid UTF-8, with the
/// decoded text.
#[verifier::external_body]
pub(crate) fn str_from_utf8(bytes: &[u8]) -> (r: Result<&str, std::str::Utf8Error>)
    ensures
        r is Ok == valid_utf8(bytes@),
        r matches Ok(s) ==> s@ == decode_utf8(bytes@),
{
    std::str::from_utf8(bytes)
}

/// The text that `Utf8Error`'s `Display` gives; nothing is claimed of it.
#[verifier::external_body]
pub(crate) fn utf8_error_text(e: &std::str::Utf8Error) -> String {
    e.to_string()
}

// ── Request ──────────────────────────────────────────────────────────────────

/// A call to qubesd.
pub struct Request<'a> {
    pub method: &'a str,
    pub destination: &'a str,
    pub arg: &'a str,
    pub payload: &'a [u8],
}

/// The bytes of a request: `method\0destination\0arg\0payload`, texts in UTF-8.
pub open spec fn request_bytes(
    method: Seq<char>,
    destination: Seq<char>,
    arg: Seq<char>,
    payload: Seq<u8>,
) -> Seq<u8> {
    encode_utf8(method) + seq![0u8] + encode_utf8(destination) + seq![0u8] + encode_utf8(arg)
        + seq![0u8] + payload
}

/// Appends `b` to `buf`.
pub fn push_bytes(buf: &mut Vec<u8>, b: &[u8])
    ensures
        final(buf)@ == old(buf)@ + b@,
{
    let ghost b0 = buf@;
    let mut i: usize = 0;
    while i < b.len()
        invariant
            0 <= i <= b@.len(),
            buf@ == b0 + b@.take(i as int),
        decreases b@.len() - i,
    {
        buf.push(b[i]);
        i += 1;
        assert(buf@ =~= b0 + b@.take(i as int));
    }
    assert(b@.take(b@.len() as int) =~= b@);
}

impl<'a> Request<'a> {
    /// Encode as: `method\0destination\0arg\0payload`
    pub fn encode(&self) -> (r: Vec<u8>)
        ensures
            r@ == request_bytes(self.method@, self.destination@, self.arg@, self.payload@),
    {
        let mut buf: Vec<u8> = Vec::new();
        push_bytes(&mut buf, self.method.as_bytes());
        buf.push(0);
        push_bytes(&mut buf, self.destination.as_bytes());
        buf.push(0);
        push_bytes(&mut buf, self.arg.as_bytes());
        buf.push(0);
        push_bytes(&mut buf, self.payload);
        assert(buf@ =~= request_bytes(self.method@, self.destination@, self.arg@, self.payload@));
        buf
    }
}

// ── Response ─────────────────────────────────────────────────────────────────

pub const RESP_OK: u8 = 0x30;

pub const RESP_EVENT: u8 = 0x31;

pub const RESP_EXCEPTION: u8 = 0x32;

/// The kind of a successful reply.
#[derive(Debug, Clone, Copy, PartialEq, Eq)]
pub enum ResponseType {
    /// A plain reply (type byte `0x30`).
    Success,
    /// An event (type byte `0x31`).
    Event,
}

/// A successful reply: its kind and its data.
#[derive(Debug)]
pub struct Response {
    pub rtype: ResponseType,
    pub data: Vec<u8>,
}

/// Index of the first `b` in `s`, or `s.len()` where there is none.
pub open spec fn byte_index(s: Seq<u8>, b: u8) -> int
    decreases s.len(),
{
    if s.len() == 0 {
        0
    } else if s[0] == b {
        0
    } else {
        1 + byte_index(s.drop_first(), b)
    }
}

proof fn lemma_byte_index(s: Seq<u8>, b: u8, k: int)
    requires
        0 <= k <= s.len(),
        forall|j: int| 0 <= j < k ==> s[j] != b,
        k == s.len() || s[k] == b,
    ensures
        byte_index(s, b) == k,
    decreases s.len(),
{
    if s.len() > 0 && k > 0 {
        assert forall|j: int| 0 <= j < k - 1 implies s.drop_first()[j] != b by {
            assert(s.drop_first()[j] == s[j + 1]);
        }
        lemma_byte_index(s.drop_first(), b, k - 1);
    }
}

/// The exception type and the message of an exception reply's data
/// `exc_type \0 [traceback \0] message`: the part before the first `\0`,
/// and the part after the second `\0` (after the first where there is only
/// one; all of the data where there is none).
pub open spec fn exception_parts(data: Seq<u8>) -> (Seq<u8>, Seq<u8>) {
    let i = byte_index(data, 0);
    let last = if i == data.len() {
        data
    } else {
        let rest = data.skip(i + 1);
        let j = byte_index(rest, 0);
        if j == rest.len() {
            rest
        } else {
            rest.skip(j + 1)
        }
    };
    (data.take(i), last)
}

/// The error that an exception reply with data `data` stands for.
pub open spec fn is_exception_of(e: AdminError, data: Seq<u8>) -> bool {
    match e {
        AdminError::QubesDException { exc_type, message } => lossy_text_is(
            exc_type@,
            exception_parts(data).0,
        ) && lossy_text_is(message@, exception_parts(data).1),
        _ => false,
    }
}

/// `t` is the text of the bytes `b`, invalid sequences replaced: for valid
/// UTF-8, its decoded text.
pub open spec fn lossy_text_is(t: Seq<char>, b: Seq<u8>) -> bool {
    &&& t == utf8_lossy(b)
    &&& valid_utf8(b) ==> t == decode_utf8(b)
}

/// Index of the first `b` in `data[from..]`, or `data.len()`.
fn find_byte(data: &[u8], from: usize, b: u8) -> (k: usize)
    requires
        from <= data@.len(),
    ensures
        from <= k <= data@.len(),
        k - from == byte_index(data@.skip(from as int), b),
{
    let mut k = from;
    while k < data.len() && data[k] != b
        invariant
            from <= k <= data@.len(),
            forall|j: int| from <= j < k ==> data@[j] != b,
        decreases data@.len() - k,
    {
        k += 1;
    }
    proof {
        let s = data@.skip(from as int);
        assert forall|j: int| 0 <= j < k - from implies s[j] != b by {
            assert(s[j] == data@[from + j]);
        }
        lemma_byte_index(s, b, k - from);
    }
    k
}

/// The bytes `data[a..b]`.
pub(crate) fn bytes_between(data: &[u8], a: usize, b: usize) -> (r: Vec<u8>)
    requires
        a <= b <= data@.len(),
    ensures
        r@ == data@.subrange(a as int, b as int),
{
    let mut r: Vec<u8> = Vec::new();
    let mut i = a;
    while i < b
        invariant
            a <= i <= b <= data@.len(),
            r@ == data@.subrange(a as int, i as int),
        decreases b - i,
    {
        r.push(data[i]);
        i += 1;
        assert(r@ =~= data@.subrange(a as int, i as int));
    }
    r
}

/// The error of an exception reply whose data is `data`.
fn parse_exception(data: &[u8]) -> (e: AdminError)
    ensures
        is_exception_of(e, data@),
{
    let n = data.len();
    let i = find_byte(data, 0, 0);
    assert(data@.skip(0) =~= data@);
    let first = bytes_between(data, 0, i);
    assert(first@ =~= data@.take(i as int));
    let last = if i == n {
        bytes_between(data, 0, n)
    } else {
        let j = find_byte(data, i + 1, 0);
        if j == n {
            bytes_between(data, i + 1, n)
        } else {
            bytes_between(data, j + 1, n)
        }
    };
    proof {
        let parts = exception_parts(data@);
        if i == n {
            assert(last@ =~= parts.1);
        } else {
            let rest = data@.skip(i + 1);
            assert(rest == data@.skip(i + 1));
            if byte_index(rest, 0) == rest.len() {
                assert(last@ =~= parts.1);
            } else {
                assert(rest.skip(byte_index(rest, 0) + 1) =~= last@);
            }
        }
    }
    let exc_type = string_from_utf8_lossy(first.as_slice());
    let message = string_from_utf8_lossy(last.as_slice());
    AdminError::QubesDException { exc_type, message }
}

/// The data of the reply `raw`, where it is a successful one: a type byte
/// of `0x30` or `0x31`, a separator, then the data.
pub open spec fn reply_data(raw: Seq<u8>) -> Option<Seq<u8>> {
    if raw.len() >= 2 && (raw[0] == RESP_OK || raw[0] == RESP_EVENT) {
        Some(raw.skip(2))
    } else {
        None
    }
}

/// `e` is the error that the failed reply `raw` stands for: a reply of
/// fewer than two bytes is too short, an exception reply gives its
/// exception, and any other type byte is unknown.
pub open spec fn reply_error(raw: Seq<u8>, e: AdminError) -> bool {
    if raw.len() < 2 {
        e matches AdminError::Protocol(m) && m@ == "response too short ("@ + decimal(raw.len())
            + " bytes)"@
    } else if raw[0] == RESP_EXCEPTION {
        is_exception_of(e, raw.skip(2))
    } else {
        e matches AdminError::Protocol(m) && m@ == "unknown response type byte 0x"@ + hex2(raw[0])
    }
}

/// `r` is what decoding the reply `raw` gives.
pub open spec fn decoded(raw: Seq<u8>, r: AdminResult<Response>) -> bool {
    match reply_data(raw) {
        Some(d) => r matches Ok(resp) && resp.data@ == d && resp.rtype == if raw[0] == RESP_OK {
            ResponseType::Success
        } else {
            ResponseType::Event
        },
        None => r matches Err(e) && reply_error(raw, e),
    }
}

impl Response {
    /// Parse raw bytes. Format: `type_byte \0 data...`
    pub fn decode(raw: &[u8]) -> (r: AdminResult<Self>)
        ensures
            decoded(raw@, r),
    {
        if raw.len() < 2 {
            let mut m = String::new();
            push_str(&mut m, "response too short (");
            push_decimal(&mut m, raw.len() as u64);
            push_str(&mut m, " bytes)");
            return Err(AdminError::Protocol(m));
        }
        let type_byte = raw[0];
        // raw[1] should be 0x00 separator
        let data = bytes_between(raw, 2, raw.len());
        assert(data@ =~= raw@.skip(2));
        if type_byte == RESP_OK {
            Ok(Response { rtype: ResponseType::Success, data })
        } else if type_byte == RESP_EVENT {
            Ok(Response { rtype: ResponseType::Event, data })
        } else if type_byte == RESP_EXCEPTION {
            Err(parse_exception(data.as_slice()))
        } else {
            let mut m = String::new();
            push_str(&mut m, "unknown response type byte 0x");
            push_hex2(&mut m, type_byte);
            Err(AdminError::Protocol(m))
        }
    }
}

// ── key=value tokens ─────────────────────────────────────────────────────────

/// The value of the last token of `toks` that is `key=value`, split at the
/// token's first `'='`.
pub open spec fn last_value(toks: Seq<Seq<char>>, key: Seq<char>) -> Option<Seq<char>>
    decreases toks.len(),
{
    if toks.len() == 0 {
        None
    } else {
        let t = toks.last();
        match after_first(t, '=') {
            Some(v) => if before_first(t, '=') == key {
                Some(v)
            } else {
                last_value(toks.drop_last(), key)
            },
            None => last_value(toks.drop_last(), key),
        }
    }
}

/// What follows `prefix` in the last token of `toks` that begins with it.
pub open spec fn last_prefixed(toks: Seq<Seq<char>>, prefix: Seq<char>) -> Option<Seq<char>>
    decreases toks.len(),
{
    if toks.len() == 0 {
        None
    } else if has_prefix(toks.last(), prefix) {
        Some(toks.last().skip(prefix.len() as int))
    } else {
        last_prefixed(toks.drop_last(), prefix)
    }
}

/// The words of a line after its first `' '` (none where it has no `' '`).
pub open spec fn rest_words(line: Seq<char>) -> Seq<Seq<char>> {
    match after_first(line, ' ') {
        Some(rest) => words(rest),
        None => Seq::empty(),
    }
}

/// The text of an optional span of `cs`.
pub open spec fn span_text(cs: Seq<char>, sp: Option<(usize, usize)>) -> Option<Seq<char>> {
    match sp {
        Some((x, y)) => Some(cs.subrange(x as int, y as int)),
        None => None,
    }
}

/// An optional span of `cs` is one.
pub open spec fn span_ok(cs: Seq<char>, sp: Option<(usize, usize)>) -> bool {
    match sp {
        Some((x, y)) => x <= y <= cs.len(),
        None => true,
    }
}

// ── admin.vm.List parser ──────────────────────────────────────────────────────
//
// Response body format (one VM per line):
//   name class=AppVM state=Running label=red template=fedora-41 netvm=sys-firewall\n
//   dom0 class=AdminVM state=Running label=black\n

/// `q` is what the list line `line` describes: the name is the text before
/// the first `' '`; the words after it that are `key=value` set the class,
/// state, label, template and netvm (the last one of each key counts); a
/// missing class or state is `Unknown("")`, a missing label empty, and a
/// netvm of `None` no netvm.
pub open spec fn vm_line_is(q: QubeInfo, line: Seq<char>) -> bool {
    let toks = rest_words(line);
    &&& q.name@ == before_first(line, ' ')
    &&& match last_value(toks, "class"@) {
        Some(v) => q.class.named_by(v),
        None => q.class matches QubeClass::Unknown(x) && x@.len() == 0,
    }
    &&& match last_value(toks, "state"@) {
        Some(v) => q.state.named_by(v),
        None => q.state matches QubeState::Unknown(x) && x@.len() == 0,
    }
    &&& q.label@ == match last_value(toks, "label"@) {
        Some(v) => v,
        None => Seq::empty(),
    }
    &&& opt_text(q.template) == last_value(toks, "template"@)
    &&& opt_text(q.netvm) == match last_value(toks, "netvm"@) {
        Some(v) => if v == "None"@ {
            None
        } else {
            Some(v)
        },
        None => None,
    }
}

/// `qs` lists, in order, one qube for each non-blank line of `text`.
pub open spec fn vm_list_is(qs: Seq<QubeInfo>, text: Seq<char>) -> bool {
    let lines = nonblank_lines(text);
    &&& qs.len() == lines.len()
    &&& forall|i: int| 0 <= i < qs.len() ==> vm_line_is(#[trigger] qs[i], lines[i])
}

/// Keeps in `sp` the value of the token `cs[x..y]` (split at its `'='` at
/// `e`) where the token's key is `key`.
fn note_value(cs: &Vec<char>, x: usize, e: usize, y: usize, key: &str, sp: &mut Option<(usize, usize)>)
    requires
        x <= e < y <= cs.len(),
        span_ok(cs@, *old(sp)),
    ensures
        span_ok(cs@, *final(sp)),
        span_text(cs@, *final(sp)) == if cs@.subrange(x as int, e as int) == key@ {
            Some(cs@.subrange(e + 1, y as int))
        } else {
            span_text(cs@, *old(sp))
        },
{
    if span_eq_str(cs, x, e, key) {
        *sp = Some((e + 1, y));
    }
}

/// The qube that the list line `cs[a..b]` describes.
fn parse_vm_list_line(cs: &Vec<char>, a: usize, b: usize) -> (q: QubeInfo)
    requires
        a <= b <= cs.len(),
    ensures
        vm_line_is(q, cs@.subrange(a as int, b as int)),
{
    let ghost line = cs@.subrange(a as int, b as int);
    let k = find_char(cs, a, b, ' ');
    assert(before_first(line, ' ') =~= cs@.subrange(a as int, k as int));
    let name = string_of(cs, a, k);
    let mut class_sp: Option<(usize, usize)> = None;
    let mut state_sp: Option<(usize, usize)> = None;
    let mut label_sp: Option<(usize, usize)> = None;
    let mut template_sp: Option<(usize, usize)> = None;
    let mut netvm_sp: Option<(usize, usize)> = None;
    let ghost toks = rest_words(line);
    if k < b {
        assert(after_first(line, ' ') == Some(cs@.subrange(k + 1, b as int))) by {
            assert(line.skip(k - a + 1) =~= cs@.subrange(k + 1, b as int));
        }
        let ws = word_spans(cs, k + 1, b);
        let mut i: usize = 0;
        while i < ws.len()
            invariant
                k < b <= cs.len(),
                toks == words(cs@.subrange(k + 1, b as int)),
                spans_are(cs@, ws@, toks),
                0 <= i <= ws@.len(),
                span_ok(cs@, class_sp),
                span_ok(cs@, state_sp),
                span_ok(cs@, label_sp),
                span_ok(cs@, template_sp),
                span_ok(cs@, netvm_sp),
                span_text(cs@, class_sp) == last_value(toks.take(i as int), "class"@),
                span_text(cs@, state_sp) == last_value(toks.take(i as int), "state"@),
                span_text(cs@, label_sp) == last_value(toks.take(i as int), "label"@),
                span_text(cs@, template_sp) == last_value(toks.take(i as int), "template"@),
                span_text(cs@, netvm_sp) == last_value(toks.take(i as int), "netvm"@),
            decreases ws@.len() - i,
        {
            let (x, y) = ws[i];
            let ghost t = toks[i as int];
            proof {
                assert(toks.take(i + 1).drop_last() =~= toks.take(i as int));
                assert(toks.take(i + 1).last() == t);
            }
            let e = find_char(cs, x, y, '=');
            if e < y {
                proof {
                    assert(before_first(t, '=') =~= cs@.subrange(x as int, e as int));
                    assert(t.skip(e - x + 1) =~= cs@.subrange(e + 1, y as int));
                }
                note_value(cs, x, e, y, "class", &mut class_sp);
                note_value(cs, x, e, y, "state", &mut state_sp);
                note_value(cs, x, e, y, "label", &mut label_sp);
                note_value(cs, x, e, y, "template", &mut template_sp);
                note_value(cs, x, e, y, "netvm", &mut netvm_sp);
            }
            i += 1;
        }
        assert(toks.take(ws@.len() as int) =~= toks);
    } else {
        assert(toks =~= Seq::<Seq<char>>::empty());
    }
    let class = match class_sp {
        Some((x, y)) => {
            let v = string_of(cs, x, y);
            QubeClass::from_str(v.as_str())
        },
        None => QubeClass::Unknown(String::new()),
    };
    let state = match state_sp {
        Some((x, y)) => {
            let v = string_of(cs, x, y);
            QubeState::from_str(v.as_str())
        },
        None => QubeState::Unknown(String::new()),
    };
    let label = match label_sp {
        Some((x, y)) => string_of(cs, x, y),
        None => String::new(),
    };
    let template = match template_sp {
        Some((x, y)) => Some(string_of(cs, x, y)),
        None => None,
    };
    let netvm = match netvm_sp {
        Some((x, y)) => {
            if span_eq_str(cs, x, y, "None") {
                None
            } else {
                Some(string_of(cs, x, y))
            }
        },
        None => None,
    };
    QubeInfo { name, class, state, label, template, netvm }
}

/// One qube per non-blank line of `cs`.
fn parse_vm_lines(cs: &Vec<char>) -> (qs: Vec<QubeInfo>)
    ensures
        vm_list_is(qs@, cs@),
{
    let spans = line_spans(cs);
    let ghost lines = nonblank_lines(cs@);
    let mut qubes: Vec<QubeInfo> = Vec::new();
    let mut i: usize = 0;
    while i < spans.len()
        invariant
            spans_are(cs@, spans@, lines),
            lines == nonblank_lines(cs@),
            0 <= i <= spans@.len(),
            qubes@.len() == i,
            forall|j: int| 0 <= j < i ==> vm_line_is(#[trigger] qubes@[j], lines[j]),
        decreases spans@.len() - i,
    {
        let (x, y) = spans[i];
        let q = parse_vm_list_line(cs, x, y);
        qubes.push(q);
        i += 1;
    }
    qubes
}

/// Parses an `admin.vm.List` reply: one qube per non-blank line. Fails
/// exactly when the data is not UTF-8.
pub fn parse_vm_list(data: &[u8]) -> (r: AdminResult<Vec<QubeInfo>>)
    ensures
        !valid_utf8(data@) ==> r matches Err(AdminError::Parse(_)),
        valid_utf8(data@) ==> (r matches Ok(qs) && vm_list_is(qs@, decode_utf8(data@))),
{
    match str_from_utf8(data) {
        Ok(text) => {
            let cs = chars_of(text);
            Ok(parse_vm_lines(&cs))
        },
        Err(e) => Err(AdminError::Parse(utf8_error_text(&e))),
    }
}

// ── admin.vm.property.GetAll parser ──────────────────────────────────────────
//
// Format (one property per line):
//   propname default=yes type=bool value=False\n

/// The property that a `GetAll` line states: its name (the text before the
/// first `' '`) and the value of its last `value=` word; none where the line
/// has no such word.
pub open spec fn getall_entry(line: Seq<char>) -> Option<(Seq<char>, Seq<char>)> {
    match last_prefixed(rest_words(line), "value="@) {
        Some(v) => Some((before_first(line, ' '), v)),
        None => None,
    }
}

/// The properties that the lines `lines` of a `GetAll` reply state, each
/// line read in turn.
pub open spec fn getall_props(lines: Seq<Seq<char>>) -> PropsModel
    decreases lines.len(),
{
    if lines.len() == 0 {
        empty_props()
    } else {
        let p = getall_props(lines.drop_last());
        match getall_entry(lines.last()) {
            Some((n, v)) => apply_property(p, n, v),
            None => p,
        }
    }
}

/// The well-known properties that a property-list reply states are what their texts
/// give: each is read from the last value given for it.
pub proof fn lemma_getall_props_typed(lines: Seq<Seq<char>>)
    ensures
        typed_from_raw(getall_props(lines)),
    decreases lines.len(),
{
    if lines.len() > 0 {
        lemma_getall_props_typed(lines.drop_last());
        match getall_entry(lines.last()) {
            Some((n, v)) => lemma_apply_keeps_typed(getall_props(lines.drop_last()), n, v),
            None => {},
        }
    }
}

/// The properties that the non-blank lines of `cs` state.
fn parse_property_lines(cs: &Vec<char>) -> (p: QubeProperties)
    ensures
        p@ == getall_props(nonblank_lines(cs@)),
{
    let spans = line_spans(cs);
    let ghost lines = nonblank_lines(cs@);
    let mut props = QubeProperties::default();
    let mut i: usize = 0;
    while i < spans.len()
        invariant
            spans_are(cs@, spans@, lines),
            0 <= i <= spans@.len(),
            props@ == getall_props(lines.take(i as int)),
        decreases spans@.len() - i,
    {
        let (a, b) = spans[i];
        let ghost line = lines[i as int];
        proof {
            assert(lines.take(i + 1).drop_last() =~= lines.take(i as int));
            assert(lines.take(i + 1).last() == line);
        }
        let k = find_char(cs, a, b, ' ');
        let mut value_sp: Option<(usize, usize)> = None;
        let ghost toks = rest_words(line);
        if k < b {
            assert(after_first(line, ' ') == Some(cs@.subrange(k + 1, b as int))) by {
                assert(line.skip(k - a + 1) =~= cs@.subrange(k + 1, b as int));
            }
            let ws = word_spans(cs, k + 1, b);
            let mut j: usize = 0;
            while j < ws.len()
                invariant
                    k < b <= cs.len(),
                    toks == words(cs@.subrange(k + 1, b as int)),
                    spans_are(cs@, ws@, toks),
                    0 <= j <= ws@.len(),
                    span_ok(cs@, value_sp),
                    span_text(cs@, value_sp) == last_prefixed(toks.take(j as int), "value="@),
                decreases ws@.len() - j,
            {
                let (x, y) = ws[j];
                proof {
                    assert(toks.take(j + 1).drop_last() =~= toks.take(j as int));
                    assert(toks.take(j + 1).last() == toks[j as int]);
                }
                if span_has_prefix(cs, x, y, "value=") {
                    let ghost t = toks[j as int];
                    proof {
                        assert(t.skip("value="@.len() as int) =~= cs@.subrange(
                            x + "value="@.len(),
                            y as int,
                        ));
                    }
                    let l = chars_of("value=").len();
                    value_sp = Some((x + l, y));
                }
                j += 1;
            }
            assert(toks.take(ws@.len() as int) =~= toks);
        } else {
            assert(toks =~= Seq::<Seq<char>>::empty());
        }
        match value_sp {
            Some((x, y)) => {
                assert(before_first(line, ' ') =~= cs@.subrange(a as int, k as int));
                let v = string_of(cs, x, y);
                let flag = parse_bool(v.as_str());
                props.apply(cs, a, k, x, y, flag);
            },
            None => {},
        }
        i += 1;
    }
    assert(lines.take(spans@.len() as int) =~= lines);
    props
}

/// Parses an `admin.vm.property.GetAll` reply. Fails exactly when the data
/// is not UTF-8.
pub fn parse_properties(data: &[u8]) -> (r: AdminResult<QubeProperties>)
    ensures
        !valid_utf8(data@) ==> r matches Err(AdminError::Parse(_)),
        valid_utf8(data@) ==> (r matches Ok(p) && p@ == getall_props(
            nonblank_lines(decode_utf8(data@)),
        )),
        r matches Ok(p) ==> typed_from_raw(p@),
{
    proof {
        if valid_utf8(data@) {
            lemma_getall_props_typed(nonblank_lines(decode_utf8(data@)));
        }
    }
    match str_from_utf8(data) {
        Ok(text) => {
            let cs = chars_of(text);
            Ok(parse_property_lines(&cs))
        },
        Err(e) => Err(AdminError::Parse(utf8_error_text(&e))),
    }
}

/// The yes/no value that `s` writes, if it writes one.
fn parse_bool(s: &str) -> (r: Option<bool>)
    ensures
        r == flag_of(s@),
{
    if str_eq(s, "True") || str_eq(s, "true") || str_eq(s, "1") || str_eq(s, "yes") {
        Some(true)
    } else if str_eq(s, "False") || str_eq(s, "false") || str_eq(s, "0") || str_eq(s, "no") {
        Some(false)
    } else {
        None
    }
}

// ── current-state parser ─────────────────────────────────────────────────────
//
// Format (space-separated): state=Running mem=400 cpu_time=123456789

/// Memory use and CPU time of a running qube.
#[derive(Debug, Clone, Copy, Default)]
pub struct VmCurrentState {
    pub memory_kb: u64,
    pub cpu_time: u64,
}

/// The number that the last `key=` word of `toks` gives, 0 where there is
/// none or it is not a `u64`.
pub open spec fn number_of(toks: Seq<Seq<char>>, key: Seq<char>) -> u64 {
    match last_value(toks, key) {
        Some(v) => match parsed_u64(v) {
            Some(n) => n,
            None => 0,
        },
        None => 0,
    }
}

/// Parses a current-state reply: `mem=` gives the memory in KiB and
/// `cpu_time=` the CPU time, each 0 where absent or not a number. Fails
/// exactly when the data is not UTF-8.
pub fn parse_current_state(data: &[u8]) -> (r: AdminResult<VmCurrentState>)
    ensures
        !valid_utf8(data@) ==> r matches Err(AdminError::Parse(_)),
        valid_utf8(data@) ==> (r matches Ok(st) && st.memory_kb == number_of(
            words(decode_utf8(data@)),
            "mem"@,
        ) && st.cpu_time == number_of(words(decode_utf8(data@)), "cpu_time"@)),
{
    let text = match str_from_utf8(data) {
        Ok(text) => text,
        Err(e) => {
            return Err(AdminError::Parse(utf8_error_text(&e)));
        },
    };
    let cs = chars_of(text);
    let ws = word_spans(&cs, 0, cs.len());
    let ghost toks = words(cs@);
    assert(cs@.subrange(0, cs@.len() as int) =~= cs@);
    let mut mem_sp: Option<(usize, usize)> = None;
    let mut cpu_sp: Option<(usize, usize)> = None;
    let mut i: usize = 0;
    while i < ws.len()
        invariant
            toks == words(cs@),
            spans_are(cs@, ws@, toks),
            0 <= i <= ws@.len(),
            span_ok(cs@, mem_sp),
            span_ok(cs@, cpu_sp),
            span_text(cs@, mem_sp) == last_value(toks.take(i as int), "mem"@),
            span_text(cs@, cpu_sp) == last_value(toks.take(i as int), "cpu_time"@),
        decreases ws@.len() - i,
    {
        let (x, y) = ws[i];
        let ghost t = toks[i as int];
        proof {
            assert(toks.take(i + 1).drop_last() =~= toks.take(i as int));
            assert(toks.take(i + 1).last() == t);
        }
        let e = find_char(&cs, x, y, '=');
        if e < y {
            proof {
                assert(before_first(t, '=') =~= cs@.subrange(x as int, e as int));
                assert(t.skip(e - x + 1) =~= cs@.subrange(e + 1, y as int));
            }
            note_value(&cs, x, e, y, "mem", &mut mem_sp);
            note_value(&cs, x, e, y, "cpu_time", &mut cpu_sp);
        }
        i += 1;
    }
    assert(toks.take(ws@.len() as int) =~= toks);
    let memory_kb = match mem_sp {
        Some((x, y)) => match parse_u64_span(&cs, x, y) {
            Some(n) => n,
            None => 0,
        },
        None => 0,
    };
    let cpu_time = match cpu_sp {
        Some((x, y)) => match parse_u64_span(&cs, x, y) {
            Some(n) => n,
            None => 0,
        },
        None => 0,
    };
    Ok(VmCurrentState { memory_kb, cpu_time })
}

} // verus!
