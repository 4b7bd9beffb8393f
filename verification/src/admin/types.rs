use vstd::prelude::*;

use crate::text::{parsed_u32, parsed_u64, str_eq, string_of, parse_u32_span, parse_u64_span, span_eq_str};
use crate::textmap::TextMap;

verus! {

/// The power state of a qube.
#[derive(Debug, Clone, PartialEq, Eq)]
pub enum QubeState {
    Running,
    Halted,
    Paused,
    Transient,
    Unknown(String),
}

impl QubeState {
    /// Whether `self` is the state that the text `s` names: each known state
    /// by its own name, and any other text as `Unknown` of that text.
    pub open spec fn named_by(self, s: Seq<char>) -> bool {
        match self {
            QubeState::Running => s == "Running"@,
            QubeState::Halted => s == "Halted"@,
            QubeState::Paused => s == "Paused"@,
            QubeState::Transient => s == "Transient"@,
            QubeState::Unknown(x) => x@ == s && s != "Running"@ && s != "Halted"@ && s
                != "Paused"@ && s != "Transient"@,
        }
    }

    /// The state that `s` names.
    pub fn from_str(s: &str) -> (r: Self)
        ensures
            r.named_by(s@),
    {
        if str_eq(s, "Running") {
            QubeState::Running
        } else if str_eq(s, "Halted") {
            QubeState::Halted
        } else if str_eq(s, "Paused") {
            QubeState::Paused
        } else if str_eq(s, "Transient") {
            QubeState::Transient
        } else {
            QubeState::Unknown(s.to_owned())
        }
    }

    /// The three-character column label of a state.
    pub open spec fn label(self) -> Seq<char> {
        match self {
            QubeState::Running => "RUN"@,
            QubeState::Halted => "OFF"@,
            QubeState::Paused => "PAU"@,
            QubeState::Transient => "..."@,
            QubeState::Unknown(_) => "???"@,
        }
    }

    /// The three-character column label of the state.
    pub fn short_label(&self) -> (r: &str)
        ensures
            r@ == self.label(),
    {
        match self {
            QubeState::Running => "RUN",
            QubeState::Halted => "OFF",
            QubeState::Paused => "PAU",
            QubeState::Transient => "...",
            QubeState::Unknown(_) => "???",
        }
    }

    /// Whether the state is `Running`.
    pub fn is_running(&self) -> (r: bool)
        ensures
            r == (*self is Running),
    {
        match self {
            QubeState::Running => true,
            _ => false,
        }
    }

    /// Whether the state is `Halted`.
    pub fn is_halted(&self) -> (r: bool)
        ensures
            r == (*self is Halted),
    {
        match self {
            QubeState::Halted => true,
            _ => false,
        }
    }
}

/// The class of a qube.
#[derive(Debug, Clone, PartialEq, Eq)]
pub enum QubeClass {
    AppVM,
    TemplateVM,
    StandaloneVM,
    DispVM,
    AdminVM,
    Unknown(String),
}

impl QubeClass {
    /// Whether `self` is the class that the text `s` names: each known class
    /// by its own name, and any other text as `Unknown` of that text.
    pub open spec fn named_by(self, s: Seq<char>) -> bool {
        match self {
            QubeClass::AppVM => s == "AppVM"@,
            QubeClass::TemplateVM => s == "TemplateVM"@,
            QubeClass::StandaloneVM => s == "StandaloneVM"@,
            QubeClass::DispVM => s == "DispVM"@,
            QubeClass::AdminVM => s == "AdminVM"@,
            QubeClass::Unknown(x) => x@ == s && s != "AppVM"@ && s != "TemplateVM"@ && s
                != "StandaloneVM"@ && s != "DispVM"@ && s != "AdminVM"@,
        }
    }

    /// The class that `s` names.
    pub fn from_str(s: &str) -> (r: Self)
        ensures
            r.named_by(s@),
    {
        if str_eq(s, "AppVM") {
            QubeClass::AppVM
        } else if str_eq(s, "TemplateVM") {
            QubeClass::TemplateVM
        } else if str_eq(s, "StandaloneVM") {
            QubeClass::StandaloneVM
        } else if str_eq(s, "DispVM") {
            QubeClass::DispVM
        } else if str_eq(s, "AdminVM") {
            QubeClass::AdminVM
        } else {
            QubeClass::Unknown(s.to_owned())
        }
    }

    /// The short column label of a class; an unknown class shows its own name.
    pub open spec fn label(self) -> Seq<char> {
        match self {
            QubeClass::AppVM => "AppVM"@,
            QubeClass::TemplateVM => "TmplVM"@,
            QubeClass::StandaloneVM => "StndVM"@,
            QubeClass::DispVM => "DispVM"@,
            QubeClass::AdminVM => "Admin"@,
            QubeClass::Unknown(s) => s@,
        }
    }

    /// The short column label of the class.
    pub fn short_label(&self) -> (r: &str)
        ensures
            r@ == self.label(),
    {
        match self {
            QubeClass::AppVM => "AppVM",
            QubeClass::TemplateVM => "TmplVM",
            QubeClass::StandaloneVM => "StndVM",
            QubeClass::DispVM => "DispVM",
            QubeClass::AdminVM => "Admin",
            QubeClass::Unknown(s) => s.as_str(),
        }
    }
}

/// One qube as the qube list shows it.
#[derive(Debug, Clone)]
pub struct QubeInfo {
    pub name: String,
    pub class: QubeClass,
    pub state: QubeState,
    pub label: String,
    pub template: Option<String>,
    pub netvm: Option<String>,
}

/// The text of an optional string.
pub open spec fn opt_text(o: Option<String>) -> Option<Seq<char>> {
    match o {
        Some(s) => Some(s@),
        None => None,
    }
}

/// The texts of a map's string values.
pub open spec fn text_values(m: Map<Seq<char>, String>) -> Map<Seq<char>, Seq<char>> {
    Map::new(|k: Seq<char>| m.dom().contains(k), |k: Seq<char>| m[k]@)
}

/// What the qube properties hold, as plain values.
pub struct PropsModel {
    pub memory: Option<u64>,
    pub maxmem: Option<u64>,
    pub vcpus: Option<u32>,
    pub autostart: Option<bool>,
    pub provides_network: Option<bool>,
    pub kernel: Option<Seq<char>>,
    pub default_dispvm: Option<Seq<char>>,
    pub raw: Map<Seq<char>, Seq<char>>,
}

/// No property known.
pub open spec fn empty_props() -> PropsModel {
    PropsModel {
        memory: None,
        maxmem: None,
        vcpus: None,
        autostart: None,
        provides_network: None,
        kernel: None,
        default_dispvm: None,
        raw: Map::empty(),
    }
}

/// The yes/no value that the text `v` writes, if it writes one.
pub open spec fn flag_of(v: Seq<char>) -> Option<bool> {
    if v == "True"@ || v == "true"@ || v == "1"@ || v == "yes"@ {
        Some(true)
    } else if v == "False"@ || v == "false"@ || v == "0"@ || v == "no"@ {
        Some(false)
    } else {
        None
    }
}

/// `p` after the property `name` was read with the value `v`: every
/// property is kept under its name in `raw`, and the known ones are also
/// read into their own fields.
pub open spec fn apply_property(p: PropsModel, name: Seq<char>, v: Seq<char>) -> PropsModel {
    let p = PropsModel { raw: p.raw.insert(name, v), ..p };
    if name == "memory"@ {
        PropsModel { memory: parsed_u64(v), ..p }
    } else if name == "maxmem"@ {
        PropsModel { maxmem: parsed_u64(v), ..p }
    } else if name == "vcpus"@ {
        PropsModel { vcpus: parsed_u32(v), ..p }
    } else if name == "autostart"@ {
        PropsModel { autostart: flag_of(v), ..p }
    } else if name == "provides_network"@ {
        PropsModel { provides_network: flag_of(v), ..p }
    } else if name == "kernel"@ {
        PropsModel { kernel: Some(v), ..p }
    } else if name == "default_dispvm"@ {
        PropsModel { default_dispvm: Some(v), ..p }
    } else {
        p
    }
}

/// The raw text of the property `name` of `p`, if it has one.
pub open spec fn raw_text(p: PropsModel, name: Seq<char>) -> Option<Seq<char>> {
    if p.raw.dom().contains(name) {
        Some(p.raw[name])
    } else {
        None
    }
}

/// The raw text of the property `name` of `p` read as a `u64`.
pub open spec fn raw_u64(p: PropsModel, name: Seq<char>) -> Option<u64> {
    match raw_text(p, name) {
        Some(t) => parsed_u64(t),
        None => None,
    }
}

/// The raw text of the property `name` of `p` read as a `u32`.
pub open spec fn raw_u32(p: PropsModel, name: Seq<char>) -> Option<u32> {
    match raw_text(p, name) {
        Some(t) => parsed_u32(t),
        None => None,
    }
}

/// The raw text of the property `name` of `p` read as yes/no.
pub open spec fn raw_flag(p: PropsModel, name: Seq<char>) -> Option<bool> {
    match raw_text(p, name) {
        Some(t) => flag_of(t),
        None => None,
    }
}

/// The typed fields of `p` are what its raw texts give: memory and maximum
/// memory read as `u64`, vCPUs as `u32`, autostart and provides-network as
/// yes/no, kernel and default DispVM as they are; none where there is no
/// such text (or it does not read).
pub open spec fn typed_from_raw(p: PropsModel) -> bool {
    &&& p.memory == raw_u64(p, "memory"@)
    &&& p.maxmem == raw_u64(p, "maxmem"@)
    &&& p.vcpus == raw_u32(p, "vcpus"@)
    &&& p.autostart == raw_flag(p, "autostart"@)
    &&& p.provides_network == raw_flag(p, "provides_network"@)
    &&& p.kernel == raw_text(p, "kernel"@)
    &&& p.default_dispvm == raw_text(p, "default_dispvm"@)
}

/// Reading one more property keeps the typed fields what the raw texts
/// give.
#[verifier::spinoff_prover]
pub(crate) proof fn lemma_apply_keeps_typed(p: PropsModel, name: Seq<char>, v: Seq<char>)
    requires
        typed_from_raw(p),
    ensures
        typed_from_raw(apply_property(p, name, v)),
{
    reveal_strlit("memory");
    reveal_strlit("maxmem");
    reveal_strlit("vcpus");
    reveal_strlit("autostart");
    reveal_strlit("provides_network");
    reveal_strlit("kernel");
    reveal_strlit("default_dispvm");
    // The keys differ in their first character, memory and maxmem in the
    // second.
    assert("memory"@[0] == 'm' && "memory"@[1] == 'e');
    assert("maxmem"@[0] == 'm' && "maxmem"@[1] == 'a');
    assert("vcpus"@[0] == 'v');
    assert("autostart"@[0] == 'a');
    assert("provides_network"@[0] == 'p');
    assert("kernel"@[0] == 'k');
    assert("default_dispvm"@[0] == 'd');
    let q = apply_property(p, name, v);
    assert(q.raw == p.raw.insert(name, v));
    assert(raw_text(q, name) == Some(v));
    if name != "autostart"@ {
        assert(raw_text(q, "autostart"@) == raw_text(p, "autostart"@));
    }
    if name != "provides_network"@ {
        assert(raw_text(q, "provides_network"@) == raw_text(p, "provides_network"@));
    }
}

/// The properties of a qube: the well-known ones read into typed fields,
/// and every property's text kept in `raw`.
#[derive(Debug, Clone)]
pub struct QubeProperties {
    pub memory: Option<u64>,
    pub maxmem: Option<u64>,
    pub vcpus: Option<u32>,
    pub autostart: Option<bool>,
    pub provides_network: Option<bool>,
    pub kernel: Option<String>,
    pub default_dispvm: Option<String>,
    pub raw: TextMap<String>,
}

impl View for QubeProperties {
    type V = PropsModel;

    open spec fn view(&self) -> PropsModel {
        PropsModel {
            memory: self.memory,
            maxmem: self.maxmem,
            vcpus: self.vcpus,
            autostart: self.autostart,
            provides_network: self.provides_network,
            kernel: opt_text(self.kernel),
            default_dispvm: opt_text(self.default_dispvm),
            raw: text_values(self.raw@),
        }
    }
}

impl Default for QubeProperties {
    fn default() -> (r: Self)
        ensures
            r@ == empty_props(),
    {
        let r = QubeProperties {
            memory: None,
            maxmem: None,
            vcpus: None,
            autostart: None,
            provides_network: None,
            kernel: None,
            default_dispvm: None,
            raw: TextMap::new(),
        };
        assert(text_values(r.raw@) =~= Map::<Seq<char>, Seq<char>>::empty());
        r
    }
}

impl QubeProperties {
    /// Records the property `cs[n0..n1]` with the value `cs[v0..v1]`, where
    /// `flag` is the yes/no value that the value writes.
    pub(crate) fn apply(&mut self, cs: &Vec<char>, n0: usize, n1: usize, v0: usize, v1: usize, flag: Option<bool>)
        requires
            n0 <= n1 <= cs.len(),
            v0 <= v1 <= cs.len(),
            flag == flag_of(cs@.subrange(v0 as int, v1 as int)),
        ensures
            final(self)@ == apply_property(
                old(self)@,
                cs@.subrange(n0 as int, n1 as int),
                cs@.subrange(v0 as int, v1 as int),
            ),
    {
        let ghost name = cs@.subrange(n0 as int, n1 as int);
        let ghost v = cs@.subrange(v0 as int, v1 as int);
        let key = string_of(cs, n0, n1);
        let val = string_of(cs, v0, v1);
        let ghost raw0 = self.raw@;
        self.raw.insert(key, val);
        assert(text_values(self.raw@) =~= text_values(raw0).insert(name, v));
        if span_eq_str(cs, n0, n1, "memory") {
            self.memory = parse_u64_span(cs, v0, v1);
        } else if span_eq_str(cs, n0, n1, "maxmem") {
            self.maxmem = parse_u64_span(cs, v0, v1);
        } else if span_eq_str(cs, n0, n1, "vcpus") {
            self.vcpus = parse_u32_span(cs, v0, v1);
        } else if span_eq_str(cs, n0, n1, "autostart") {
            self.autostart = flag;
        } else if span_eq_str(cs, n0, n1, "provides_network") {
            self.provides_network = flag;
        } else if span_eq_str(cs, n0, n1, "kernel") {
            self.kernel = Some(string_of(cs, v0, v1));
        } else if span_eq_str(cs, n0, n1, "default_dispvm") {
            self.default_dispvm = Some(string_of(cs, v0, v1));
        }
    }
}

} // verus!
