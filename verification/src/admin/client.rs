//! The admin client: which call each operation makes (a qubesd socket
//! request, or a Qubes command-line tool where there is no socket), and
//! what each call's output means. Running a call is left to the caller.
use vstd::prelude::*;
use vstd::utf8::{decode_utf8, encode_utf8, valid_utf8};

use crate::admin::error::{AdminError, AdminResult};
use crate::admin::protocol::{
    decoded, lossy_text_is, reply_data, reply_error, request_bytes, str_from_utf8, string_from_utf8_lossy, utf8_error_text,
    utf8_lossy, vm_list_is, getall_props, parse_properties, parse_vm_list, push_bytes, Request,
    Response,
};
use crate::admin::types::{
    apply_property, empty_props, flag_of, lemma_apply_keeps_typed, opt_text, typed_from_raw,
    PropsModel, QubeClass, QubeInfo, QubeProperties, QubeState,
};
use crate::text::{
    chars_of, find_space, first_space, line_spans, nonblank_lines, pieces, push_str, span_eq_str,
    spans_are, split_spans, str_eq, string_of, trim, trim_span, Sep,
};

verus! {

/// Where the qubesd socket is.
pub const SOCKET_PATH: &'static str = "/var/run/qubes/qubesd.sock";

/// How the client reaches qubesd.
#[derive(Debug, Clone)]
enum AccessMode {
    Socket(String),
    Cli,
}

/// A client of the Qubes admin interface.
#[derive(Debug, Clone)]
pub struct AdminClient {
    mode: AccessMode,
}

/// One call to run: a request to write to the socket at `path` (reading the
/// whole reply after), or a program to run with its arguments.
#[derive(Debug, Clone)]
pub enum AdminCall {
    Socket { path: String, request: Vec<u8> },
    Command { program: String, args: Vec<String> },
}

/// What running a call gave: the whole socket reply, or how the program
/// ended (its exit status as text) and what it wrote.
#[derive(Debug, Clone)]
pub enum CallOutput {
    Socket(Vec<u8>),
    Command { program: String, success: bool, status: String, stdout: Vec<u8>, stderr: Vec<u8> },
}

/// `c` is the call that makes `method` on `arg` with `payload` over the
/// socket at `path`, or, where there is no socket, runs `program` with
/// `args`.
pub open spec fn call_is(
    c: AdminCall,
    path: Option<Seq<char>>,
    method: Seq<char>,
    arg: Seq<char>,
    payload: Seq<u8>,
    program: Seq<char>,
    args: Seq<Seq<char>>,
) -> bool {
    match path {
        Some(p) => c matches AdminCall::Socket { path: cp, request } && cp@ == p && request@
            == request_bytes(method, "dom0"@, arg, payload),
        None => c matches AdminCall::Command { program: pr, args: a } && pr@ == program
            && a@.len() == args.len() && forall|i: int|
            0 <= i < args.len() ==> (#[trigger] a@[i])@ == args[i],
    }
}

/// The texts of `v`, in order.
fn texts(v: Vec<&str>) -> (r: Vec<String>)
    ensures
        r@.len() == v@.len(),
        forall|i: int| 0 <= i < v@.len() ==> (#[trigger] r@[i])@ == v@[i]@,
{
    let mut r: Vec<String> = Vec::new();
    let mut i: usize = 0;
    while i < v.len()
        invariant
            0 <= i <= v@.len(),
            r@.len() == i,
            forall|j: int| 0 <= j < i ==> (#[trigger] r@[j])@ == v@[j]@,
        decreases v@.len() - i,
    {
        r.push(v[i].to_owned());
        i += 1;
    }
    r
}

impl AdminClient {
    /// The socket that the client uses, or none where it runs the tools.
    pub closed spec fn socket_path(self) -> Option<Seq<char>> {
        match self.mode {
            AccessMode::Socket(p) => Some(p@),
            AccessMode::Cli => None,
        }
    }

    /// A client that uses the qubesd socket where it exists, and the
    /// command-line tools otherwise.
    pub fn new(socket_exists: bool) -> (c: Self)
        ensures
            c.socket_path() == if socket_exists {
                Some(SOCKET_PATH@)
            } else {
                None
            },
    {
        if socket_exists {
            AdminClient { mode: AccessMode::Socket(SOCKET_PATH.to_owned()) }
        } else {
            AdminClient { mode: AccessMode::Cli }
        }
    }

    fn call(&self, method: &str, arg: &str, payload: &[u8], program: &str, args: Vec<&str>) -> (c: AdminCall)
        ensures
            call_is(
                c,
                self.socket_path(),
                method@,
                arg@,
                payload@,
                program@,
                args@.map_values(|s: &str| s@),
            ),
    {
        match &self.mode {
            AccessMode::Socket(p) => {
                let req = Request { method, destination: "dom0", arg, payload };
                AdminCall::Socket { path: p.clone(), request: req.encode() }
            },
            AccessMode::Cli => {
                let a = texts(args);
                AdminCall::Command { program: program.to_owned(), args: a }
            },
        }
    }

    /// The call that lists the qubes.
    pub fn list_qubes(&self) -> (c: AdminCall)
        ensures
            call_is(
                c,
                self.socket_path(),
                "admin.vm.List"@,
                ""@,
                Seq::empty(),
                "qvm-ls"@,
                seq!["--raw-data"@, "--fields"@, "name,class,state,label,template,netvm"@],
            ),
    {
        let empty: Vec<u8> = Vec::new();
        let c = self.call(
            "admin.vm.List",
            "",
            empty.as_slice(),
            "qvm-ls",
            vec!["--raw-data", "--fields", "name,class,state,label,template,netvm"],
        );
        c
    }

    /// The call that reads all properties of the qube `name`.
    pub fn get_properties(&self, name: &str) -> (c: AdminCall)
        ensures
            call_is(
                c,
                self.socket_path(),
                "admin.vm.property.GetAll"@,
                name@,
                Seq::empty(),
                "qvm-prefs"@,
                seq![name@],
            ),
    {
        let empty: Vec<u8> = Vec::new();
        self.call("admin.vm.property.GetAll", name, empty.as_slice(), "qvm-prefs", vec![name])
    }

    fn simple_op(&self, method: &str, vm: &str, program: &str, args: Vec<&str>) -> (c: AdminCall)
        ensures
            call_is(
                c,
                self.socket_path(),
                method@,
                vm@,
                Seq::empty(),
                program@,
                args@.map_values(|s: &str| s@),
            ),
    {
        let empty: Vec<u8> = Vec::new();
        self.call(method, vm, empty.as_slice(), program, args)
    }

    /// The call that starts the qube `name`.
    pub fn start(&self, name: &str) -> (c: AdminCall)
        ensures
            call_is(
                c,
                self.socket_path(),
                "admin.vm.Start"@,
                name@,
                Seq::empty(),
                "qvm-start"@,
                seq![name@],
            ),
    {
        self.simple_op("admin.vm.Start", name, "qvm-start", vec![name])
    }

    /// The call that shuts the qube `name` down.
    pub fn shutdown(&self, name: &str) -> (c: AdminCall)
        ensures
            call_is(
                c,
                self.socket_path(),
                "admin.vm.Shutdown"@,
                name@,
                Seq::empty(),
                "qvm-shutdown"@,
                seq![name@],
            ),
    {
        self.simple_op("admin.vm.Shutdown", name, "qvm-shutdown", vec![name])
    }

    /// The call that kills the qube `name`.
    pub fn kill(&self, name: &str) -> (c: AdminCall)
        ensures
            call_is(
                c,
                self.socket_path(),
                "admin.vm.Kill"@,
                name@,
                Seq::empty(),
                "qvm-kill"@,
                seq![name@],
            ),
    {
        self.simple_op("admin.vm.Kill", name, "qvm-kill", vec![name])
    }

    /// The call that pauses the qube `name`.
    pub fn pause(&self, name: &str) -> (c: AdminCall)
        ensures
            call_is(
                c,
                self.socket_path(),
                "admin.vm.Pause"@,
                name@,
                Seq::empty(),
                "qvm-pause"@,
                seq![name@],
            ),
    {
        self.simple_op("admin.vm.Pause", name, "qvm-pause", vec![name])
    }

    /// The call that removes the qube `name`.
    pub fn remove(&self, name: &str) -> (c: AdminCall)
        ensures
            call_is(
                c,
                self.socket_path(),
                "admin.vm.Remove"@,
                name@,
                Seq::empty(),
                "qvm-remove"@,
                seq!["--force"@, name@],
            ),
    {
        self.simple_op("admin.vm.Remove", name, "qvm-remove", vec!["--force", name])
    }

    /// The call that reads the resource use of all qubes.
    pub fn get_stats(&self) -> (c: AdminCall)
        ensures
            call_is(
                c,
                self.socket_path(),
                "admin.vm.stats"@,
                ""@,
                Seq::empty(),
                "xl"@,
                seq!["list"@],
            ),
    {
        let empty: Vec<u8> = Vec::new();
        self.call("admin.vm.stats", "", empty.as_slice(), "xl", vec!["list"])
    }

    /// The call that sets the property `property` of the qube `vm` to
    /// `value` (the socket payload is `property\0value`).
    pub fn set_property(&self, vm: &str, property: &str, value: &str) -> (c: AdminCall)
        ensures
            call_is(
                c,
                self.socket_path(),
                "admin.vm.property.Set"@,
                vm@,
                encode_utf8(property@) + seq![0u8] + encode_utf8(value@),
                "qvm-prefs"@,
                seq![vm@, property@, value@],
            ),
    {
        let mut payload: Vec<u8> = Vec::new();
        push_bytes(&mut payload, property.as_bytes());
        payload.push(0);
        push_bytes(&mut payload, value.as_bytes());
        assert(payload@ =~= encode_utf8(property@) + seq![0u8] + encode_utf8(value@));
        let args = vec![vm, property, value];
        assert(args@.map_values(|s: &str| s@) =~= seq![vm@, property@, value@]);
        self.call("admin.vm.property.Set", vm, payload.as_slice(), "qvm-prefs", args)
    }
}

/// What the socket reply `buf` gives: no bytes mean that the connection was
/// lost; any other reply is decoded.
pub fn socket_reply(buf: &[u8]) -> (r: AdminResult<Response>)
    ensures
        buf@.len() == 0 ==> r matches Err(AdminError::ConnectionLost),
        buf@.len() > 0 ==> decoded(buf@, r),
{
    if buf.len() == 0 {
        return Err(AdminError::ConnectionLost);
    }
    Response::decode(buf)
}

/// `r` is the failure of a socket reply `buf` that carries no data.
pub open spec fn socket_failure(buf: Seq<u8>, r: AdminResult<()>) -> bool {
    if buf.len() == 0 {
        r matches Err(AdminError::ConnectionLost)
    } else {
        r matches Err(e) && reply_error(buf, e)
    }
}

/// The error a failed command gives: `program exited with status status`.
pub open spec fn exit_error(program: Seq<char>, status: Seq<char>) -> Seq<char> {
    program + " exited with status "@ + status
}

/// `r` is what the output `out` of a call that only succeeds or fails gives.
pub open spec fn unit_reply_is(out: CallOutput, r: AdminResult<()>) -> bool {
    match out {
        CallOutput::Socket(buf) => if buf@.len() > 0 && reply_data(buf@) is Some {
            r is Ok
        } else {
            socket_failure(buf@, r)
        },
        CallOutput::Command { program, success, status, .. } => if success {
            r is Ok
        } else {
            r matches Err(AdminError::Protocol(m)) && m@ == exit_error(program@, status@)
        },
    }
}

/// What the output of a start, shutdown, kill, pause, remove or
/// property-set call means.
pub fn unit_reply(out: &CallOutput) -> (r: AdminResult<()>)
    ensures
        unit_reply_is(*out, r),
{
    match out {
        CallOutput::Socket(buf) => {
            match socket_reply(buf.as_slice()) {
                Ok(_) => Ok(()),
                Err(e) => Err(e),
            }
        },
        CallOutput::Command { program, success, status, .. } => {
            if *success {
                Ok(())
            } else {
                let mut m = String::new();
                push_str(&mut m, program.as_str());
                push_str(&mut m, " exited with status ");
                push_str(&mut m, status.as_str());
                Err(AdminError::Protocol(m))
            }
        },
    }
}

// ── qvm-ls --raw-data ────────────────────────────────────────────────────────
//
// One qube per line, fields separated by '|':
//   name|class|state|label|template|netvm

/// Column `i` of `cols`, or empty where there is none.
pub open spec fn column(cols: Seq<Seq<char>>, i: int) -> Seq<char> {
    if i < cols.len() {
        cols[i]
    } else {
        Seq::empty()
    }
}

/// `q` is what the `qvm-ls` line `line` describes: its `'|'`-separated
/// columns give name, class, state and label (missing ones empty); the
/// template and netvm columns count unless empty or `-` (or, for the netvm,
/// `None`).
pub open spec fn qvm_ls_line_is(q: QubeInfo, line: Seq<char>) -> bool {
    let cols = pieces(line, Sep::Char('|'));
    &&& q.name@ == column(cols, 0)
    &&& q.class.named_by(column(cols, 1))
    &&& q.state.named_by(column(cols, 2))
    &&& q.label@ == column(cols, 3)
    &&& opt_text(q.template) == if cols.len() > 4 && cols[4].len() > 0 && cols[4] != "-"@ {
        Some(cols[4])
    } else {
        None
    }
    &&& opt_text(q.netvm) == if cols.len() > 5 && cols[5].len() > 0 && cols[5] != "-"@ && cols[5]
        != "None"@ {
        Some(cols[5])
    } else {
        None
    }
}

/// `qs` lists, in order, one qube for each non-blank line of the `qvm-ls`
/// output `text`.
pub open spec fn qvm_ls_is(qs: Seq<QubeInfo>, text: Seq<char>) -> bool {
    let lines = nonblank_lines(text);
    &&& qs.len() == lines.len()
    &&& forall|i: int| 0 <= i < qs.len() ==> qvm_ls_line_is(#[trigger] qs[i], lines[i])
}

/// The text of column `i` of the spans `cols` of `cs`.
fn column_text(cs: &Vec<char>, cols: &Vec<(usize, usize)>, i: usize, ps: Ghost<Seq<Seq<char>>>) -> (r: String)
    requires
        spans_are(cs@, cols@, ps@),
    ensures
        r@ == column(ps@, i as int),
{
    if i < cols.len() {
        let (x, y) = cols[i];
        string_of(cs, x, y)
    } else {
        String::new()
    }
}

/// The qube that the `qvm-ls` line `cs[a..b]` describes.
fn parse_qvm_ls_line(cs: &Vec<char>, a: usize, b: usize) -> (q: QubeInfo)
    requires
        a <= b <= cs.len(),
    ensures
        qvm_ls_line_is(q, cs@.subrange(a as int, b as int)),
{
    let cols = split_spans(cs, a, b, Sep::Char('|'));
    let ghost ps = pieces(cs@.subrange(a as int, b as int), Sep::Char('|'));
    let name = column_text(cs, &cols, 0, Ghost(ps));
    let class_text = column_text(cs, &cols, 1, Ghost(ps));
    let state_text = column_text(cs, &cols, 2, Ghost(ps));
    let label = column_text(cs, &cols, 3, Ghost(ps));
    let template = if cols.len() > 4 {
        let (x, y) = cols[4];
        if x < y && !span_eq_str(cs, x, y, "-") {
            Some(string_of(cs, x, y))
        } else {
            None
        }
    } else {
        None
    };
    let netvm = if cols.len() > 5 {
        let (x, y) = cols[5];
        if x < y && !span_eq_str(cs, x, y, "-") && !span_eq_str(cs, x, y, "None") {
            Some(string_of(cs, x, y))
        } else {
            None
        }
    } else {
        None
    };
    QubeInfo {
        name,
        class: QubeClass::from_str(class_text.as_str()),
        state: QubeState::from_str(state_text.as_str()),
        label,
        template,
        netvm,
    }
}

/// One qube per non-blank line of the `qvm-ls` output `cs`.
fn parse_qvm_ls(cs: &Vec<char>) -> (qs: Vec<QubeInfo>)
    ensures
        qvm_ls_is(qs@, cs@),
{
    let spans = line_spans(cs);
    let ghost lines = nonblank_lines(cs@);
    let mut qubes: Vec<QubeInfo> = Vec::new();
    let mut i: usize = 0;
    while i < spans.len()
        invariant
            spans_are(cs@, spans@, lines),
            lines == nonblank_lines(cs@),
            0 <= i <= spans@.len(),
            qubes@.len() == i,
            forall|j: int| 0 <= j < i ==> qvm_ls_line_is(#[trigger] qubes@[j], lines[j]),
        decreases spans@.len() - i,
    {
        let (x, y) = spans[i];
        let q = parse_qvm_ls_line(cs, x, y);
        qubes.push(q);
        i += 1;
    }
    qubes
}

/// `r` is what the output `out` of a qube-list call gives.
pub open spec fn list_reply_is(out: CallOutput, r: AdminResult<Vec<QubeInfo>>) -> bool {
    match out {
        CallOutput::Socket(buf) => if buf@.len() == 0 {
            r matches Err(AdminError::ConnectionLost)
        } else {
            match reply_data(buf@) {
                Some(d) => if valid_utf8(d) {
                    r matches Ok(qs) && vm_list_is(qs@, decode_utf8(d))
                } else {
                    r matches Err(AdminError::Parse(_))
                },
                None => r matches Err(e) && reply_error(buf@, e),
            }
        },
        CallOutput::Command { success, stdout, stderr, .. } => if !success {
            r matches Err(AdminError::Protocol(m)) && lossy_text_is(m@, stderr@)
        } else if valid_utf8(stdout@) {
            r matches Ok(qs) && qvm_ls_is(qs@, decode_utf8(stdout@))
        } else {
            r matches Err(AdminError::Parse(_))
        },
    }
}

/// What the output of a qube-list call means.
pub fn list_qubes_reply(out: &CallOutput) -> (r: AdminResult<Vec<QubeInfo>>)
    ensures
        list_reply_is(*out, r),
{
    match out {
        CallOutput::Socket(buf) => {
            match socket_reply(buf.as_slice()) {
                Ok(resp) => parse_vm_list(resp.data.as_slice()),
                Err(e) => Err(e),
            }
        },
        CallOutput::Command { success, stdout, stderr, .. } => {
            if !*success {
                return Err(AdminError::Protocol(string_from_utf8_lossy(stderr.as_slice())));
            }
            match str_from_utf8(stdout.as_slice()) {
                Ok(text) => {
                    let cs = chars_of(text);
                    Ok(parse_qvm_ls(&cs))
                },
                Err(e) => Err(AdminError::Parse(utf8_error_text(&e))),
            }
        },
    }
}

// ── qvm-prefs ────────────────────────────────────────────────────────────────
//
// One property per line: name, whitespace, value. Lines starting with '#'
// are comments.

/// The property that a `qvm-prefs` line states: the text before its first
/// whitespace is the name and the rest, trimmed, the value; none for a
/// comment line.
pub open spec fn prefs_entry(line: Seq<char>) -> Option<(Seq<char>, Seq<char>)> {
    if line.len() > 0 && line[0] == '#' {
        None
    } else {
        let k = first_space(line);
        let key = trim(line.take(k));
        let val = if k < line.len() {
            trim(line.skip(k + 1))
        } else {
            Seq::empty()
        };
        if key.len() == 0 {
            None
        } else {
            Some((key, val))
        }
    }
}

/// The properties that the lines `lines` of `qvm-prefs` output state, each
/// line read in turn.
pub open spec fn prefs_props(lines: Seq<Seq<char>>) -> PropsModel
    decreases lines.len(),
{
    if lines.len() == 0 {
        empty_props()
    } else {
        let p = prefs_props(lines.drop_last());
        match prefs_entry(lines.last()) {
            Some((n, v)) => apply_property(p, n, v),
            None => p,
        }
    }
}

/// The well-known properties that `qvm-prefs` output states are what their texts
/// give: each is read from the last value given for it.
pub proof fn lemma_prefs_props_typed(lines: Seq<Seq<char>>)
    ensures
        typed_from_raw(prefs_props(lines)),
    decreases lines.len(),
{
    if lines.len() > 0 {
        lemma_prefs_props_typed(lines.drop_last());
        match prefs_entry(lines.last()) {
            Some((n, v)) => lemma_apply_keeps_typed(prefs_props(lines.drop_last()), n, v),
            None => {},
        }
    }
}

/// The yes/no value that `s` writes, if it writes one.
fn parse_bool_cli(s: &str) -> (r: Option<bool>)
    ensures
        r == flag_of(s@),
{
    if str_eq(s, "True") || str_eq(s, "true") || str_eq(s, "1") || str_eq(s, "yes") {
        Some(true)
    } else if str_eq(s, "False") || str_eq(s, "false") || str_eq(s, "0") || str_eq(s, "no") {
        Some(false)
    } else {
        None
    }
}

/// The properties that the non-blank lines of the `qvm-prefs` output `cs`
/// state.
fn parse_qvm_prefs(cs: &Vec<char>) -> (p: QubeProperties)
    ensures
        p@ == prefs_props(nonblank_lines(cs@)),
{
    let spans = line_spans(cs);
    let ghost lines = nonblank_lines(cs@);
    let mut props = QubeProperties::default();
    let mut i: usize = 0;
    while i < spans.len()
        invariant
            spans_are(cs@, spans@, lines),
            0 <= i <= spans@.len(),
            props@ == prefs_props(lines.take(i as int)),
        decreases spans@.len() - i,
    {
        let (a, b) = spans[i];
        let ghost line = lines[i as int];
        proof {
            assert(lines.take(i + 1).drop_last() =~= lines.take(i as int));
            assert(lines.take(i + 1).last() == line);
        }
        if !(a < b && cs[a] == '#') {
            let k = find_space(cs, a, b);
            assert(line.take(k - a) =~= cs@.subrange(a as int, k as int));
            let (k0, k1) = trim_span(cs, a, k);
            let (v0, v1) = if k < b {
                assert(line.skip(k - a + 1) =~= cs@.subrange(k + 1, b as int));
                trim_span(cs, k + 1, b)
            } else {
                assert(cs@.subrange(b as int, b as int) =~= Seq::<char>::empty());
                (b, b)
            };
            if k0 < k1 {
                let v = string_of(cs, v0, v1);
                let flag = parse_bool_cli(v.as_str());
                props.apply(cs, k0, k1, v0, v1, flag);
            }
        }
        i += 1;
    }
    assert(lines.take(spans@.len() as int) =~= lines);
    props
}

/// `r` is what the output `out` of a properties call gives.
pub open spec fn properties_reply_is(out: CallOutput, r: AdminResult<QubeProperties>) -> bool {
    match out {
        CallOutput::Socket(buf) => if buf@.len() == 0 {
            r matches Err(AdminError::ConnectionLost)
        } else {
            match reply_data(buf@) {
                Some(d) => if valid_utf8(d) {
                    r matches Ok(p) && p@ == getall_props(nonblank_lines(decode_utf8(d)))
                } else {
                    r matches Err(AdminError::Parse(_))
                },
                None => r matches Err(e) && reply_error(buf@, e),
            }
        },
        CallOutput::Command { success, stdout, stderr, .. } => if !success {
            r matches Err(AdminError::Protocol(m)) && lossy_text_is(m@, stderr@)
        } else if valid_utf8(stdout@) {
            r matches Ok(p) && p@ == prefs_props(nonblank_lines(decode_utf8(stdout@)))
        } else {
            r matches Err(AdminError::Parse(_))
        },
    }
}

/// What the output of a properties call means.
pub fn properties_reply(out: &CallOutput) -> (r: AdminResult<QubeProperties>)
    ensures
        properties_reply_is(*out, r),
        r matches Ok(p) ==> typed_from_raw(p@),
{
    match out {
        CallOutput::Socket(buf) => {
            match socket_reply(buf.as_slice()) {
                Ok(resp) => parse_properties(resp.data.as_slice()),
                Err(e) => Err(e),
            }
        },
        CallOutput::Command { success, stdout, stderr, .. } => {
            if !*success {
                return Err(AdminError::Protocol(string_from_utf8_lossy(stderr.as_slice())));
            }
            match str_from_utf8(stdout.as_slice()) {
                Ok(text) => {
                    let cs = chars_of(text);
                    proof {
                        lemma_prefs_props_typed(nonblank_lines(cs@));
                    }
                    Ok(parse_qvm_prefs(&cs))
                },
                Err(e) => Err(AdminError::Parse(utf8_error_text(&e))),
            }
        },
    }
}

} // verus!
