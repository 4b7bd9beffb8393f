//! The application state and its transitions: `App::update` takes one
//! action and returns the side effects that the caller is to carry out.
use std::sync::Arc;

use vstd::prelude::*;

use crate::action::{Action, OpKind, SideEffect};
use crate::detail::{editable_pairs, editable_rows, DetailRow};
use crate::admin::{AdminClient, AdminEvent, QubeClass, QubeInfo, QubeProperties, QubeState};
use crate::text::{
    chars_of, has_infix, has_prefix, push_str, sort_texts, span_has_infix, span_has_prefix, str_eq,
    text_le, texts_sorted,
};
use crate::textmap::TextMap;

verus! {

/// `std::time::Instant`, the time an operation was asked for; carried, never
/// read.
#[verifier::external_type_specification]
#[verifier::external_body]
pub struct ExInstant(std::time::Instant);

/// `Instant::now`: the current time; nothing is claimed of it.
#[verifier::external_body]
fn now() -> std::time::Instant {
    std::time::Instant::now()
}

/// What `str::to_lowercase` makes of `s`.
pub uninterp spec fn lowercase(s: Seq<char>) -> Seq<char>;

/// `str::to_lowercase`: the Unicode lower-case form of `s`; claimed to be
/// the named `lowercase(s)`.
#[verifier::external_body]
fn to_lowercase(s: &str) -> (r: String)
    ensures
        r@ == lowercase(s@),
{
    s.to_lowercase()
}

/// The tab that the qube table shows.
#[derive(Debug, Clone, Copy, PartialEq, Eq, Structural)]
pub enum ActiveView {
    QubeManager,
    ServiceManager,
    TemplateManager,
    WhonixManager,
}

/// The popup that is open, if any.
#[derive(Debug, Clone, PartialEq)]
pub enum Modal {
    /// No popup is open.
    Closed,
    Help,
    Detail,
    ConfirmDelete { vm_name: String },
    ConfirmKill { vm_name: String },
    /// `candidates` are "None" and the names of network-providing qubes.
    ChangeNetvm { vm_name: String, candidates: Vec<String>, selected: usize },
    EditProperty { vm_name: String, property: String, input: String },
}

/// An operation that was asked for and has not reported back.
#[derive(Debug)]
pub struct PendingOp {
    pub op_id: u64,
    pub vm_name: String,
    pub kind: OpKind,
    pub started: std::time::Instant,
}

/// How a status message is to be shown.
#[derive(Debug, Clone, Copy, PartialEq, Eq, Structural)]
pub enum MessageLevel {
    Info,
    Success,
    Warning,
    Error,
}

/// The message on the status line.
#[derive(Debug, Clone)]
pub struct StatusMessage {
    pub text: String,
    pub level: MessageLevel,
}

/// Whether the tab `view` shows the qube `q`, whose name in lower case is
/// `lc`: the qube tab shows plain qubes (no template, no admin qube, no
/// `sys-` name, no `whonix` in the name); the service tab admin qubes and
/// `sys-` qubes; the template tab templates; the Whonix tab qubes with
/// `whonix` in the name, in any case.
pub open spec fn keeps(view: ActiveView, q: QubeInfo, lc: Seq<char>) -> bool {
    let sys = has_prefix(q.name@, "sys-"@);
    let whonix = has_infix(lc, "whonix"@);
    match view {
        ActiveView::QubeManager => !(q.class is TemplateVM || q.class is AdminVM) && !sys && !whonix,
        ActiveView::ServiceManager => q.class is AdminVM || sys,
        ActiveView::TemplateManager => q.class is TemplateVM,
        ActiveView::WhonixManager => whonix,
    }
}

/// Whether the tab `view` shows the qube `q`.
pub open spec fn view_admits(view: ActiveView, q: QubeInfo) -> bool {
    keeps(view, q, lowercase(q.name@))
}

/// The indices, in order, of the first `n` qubes of `qs` that `view` shows.
pub open spec fn admitted(qs: Seq<QubeInfo>, view: ActiveView, n: int) -> Seq<usize>
    decreases n,
{
    if n <= 0 {
        Seq::empty()
    } else {
        let r = admitted(qs, view, n - 1);
        if view_admits(view, qs[n - 1]) {
            r.push((n - 1) as usize)
        } else {
            r
        }
    }
}

/// Whether the tab `view` shows the qube `q`, whose name in lower case is
/// `name_lc`.
pub fn view_keeps(view: ActiveView, q: &QubeInfo, name_lc: &str) -> (r: bool)
    ensures
        r == keeps(view, *q, name_lc@),
{
    let lcs = chars_of(name_lc);
    let pat = chars_of("whonix");
    let whonix = span_has_infix(&lcs, 0, lcs.len(), &pat);
    let ncs = chars_of(q.name.as_str());
    let sys = span_has_prefix(&ncs, 0, ncs.len(), "sys-");
    proof {
        assert(lcs@.subrange(0, lcs@.len() as int) =~= lcs@);
        assert(ncs@.subrange(0, ncs@.len() as int) =~= ncs@);
    }
    let template = match q.class {
        QubeClass::TemplateVM => true,
        _ => false,
    };
    let admin = match q.class {
        QubeClass::AdminVM => true,
        _ => false,
    };
    match view {
        ActiveView::QubeManager => !(template || admin) && !sys && !whonix,
        ActiveView::ServiceManager => admin || sys,
        ActiveView::TemplateManager => template,
        ActiveView::WhonixManager => whonix,
    }
}

/// Whether the tab `view` shows the qube `q`.
fn admits(view: ActiveView, q: &QubeInfo) -> (r: bool)
    ensures
        r == view_admits(view, *q),
{
    let lc = to_lowercase(q.name.as_str());
    view_keeps(view, q, lc.as_str())
}

/// Index of the first qube of `qs` named `name`, or `qs.len()`.
pub open spec fn first_named(qs: Seq<QubeInfo>, name: Seq<char>) -> int
    decreases qs.len(),
{
    if qs.len() == 0 {
        0
    } else if qs[0].name@ == name {
        0
    } else {
        1 + first_named(qs.drop_first(), name)
    }
}

proof fn lemma_first_named(qs: Seq<QubeInfo>, name: Seq<char>, k: int)
    requires
        0 <= k <= qs.len(),
        forall|j: int| 0 <= j < k ==> (#[trigger] qs[j]).name@ != name,
        k == qs.len() || qs[k].name@ == name,
    ensures
        first_named(qs, name) == k,
    decreases qs.len(),
{
    if qs.len() > 0 && k > 0 {
        assert forall|j: int| 0 <= j < k - 1 implies (#[trigger] qs.drop_first()[j]).name@ != name by {
            assert(qs.drop_first()[j] == qs[j + 1]);
        }
        lemma_first_named(qs.drop_first(), name, k - 1);
    }
}

/// Index of the first qube of `qs` named `name`, or `qs.len()`.
fn find_named(qs: &Vec<QubeInfo>, name: &str) -> (k: usize)
    ensures
        k == first_named(qs@, name@),
        k <= qs@.len(),
{
    let mut k: usize = 0;
    while k < qs.len() && !str_eq(qs[k].name.as_str(), name)
        invariant
            0 <= k <= qs@.len(),
            forall|j: int| 0 <= j < k ==> (#[trigger] qs@[j]).name@ != name@,
        decreases qs@.len() - k,
    {
        k += 1;
    }
    proof {
        lemma_first_named(qs@, name@, k as int);
    }
    k
}

/// The application state.
pub struct App {
    pub client: Arc<AdminClient>,
    pub active_view: ActiveView,
    pub qubes: Vec<QubeInfo>,
    pub filtered_indices: Vec<usize>,
    pub selected_index: usize,
    pub modal: Modal,
    pub detail_scroll: u16,
    /// Which row in the detail popup is highlighted (for editing).
    pub detail_row: usize,
    /// Ordered list of (property_key, display_label) rows shown in the detail popup.
    /// Rebuilt by the UI layer and stored here so App::update() can look up by index.
    pub detail_rows: Vec<(String, String)>,
    pub properties_cache: TextMap<QubeProperties>,
    pub pending_ops: Vec<PendingOp>,
    pub next_op_id: u64,
    pub status: Option<StatusMessage>,
    pub should_quit: bool,
}

impl App {
    /// What the application keeps true: the table lists exactly the qubes
    /// that the tab shows, in order; the selection is within the table
    /// where the table is not empty; the netvm picker's choice is one of
    /// its candidates; and pending operations have distinct ids, in
    /// increasing order, all below the next id.
    pub open spec fn inv(self) -> bool {
        &&& self.table_ok()
        &&& self.picker_ok()
        &&& self.ops_ok()
    }

    /// Where the netvm picker is open, its choice is one of its candidates.
    pub open spec fn picker_ok(self) -> bool {
        self.modal matches Modal::ChangeNetvm { candidates, selected, .. } ==> selected
            < candidates@.len()
    }

    /// The table lists exactly the qubes that the tab shows, in order, and
    /// the selection is within it where it is not empty.
    pub open spec fn table_ok(self) -> bool {
        &&& self.filtered_indices@ == admitted(self.qubes@, self.active_view, self.qubes@.len() as int)
        &&& self.filtered_indices@.len() > 0 ==> self.selected_index < self.filtered_indices@.len()
    }

    /// Pending operations have distinct ids, in increasing order, all below
    /// the next id.
    pub open spec fn ops_ok(self) -> bool {
        &&& forall|i: int|
            0 <= i < self.pending_ops@.len() ==> (#[trigger] self.pending_ops@[i]).op_id
                < self.next_op_id
        &&& forall|i: int, j: int|
            0 <= i < j < self.pending_ops@.len() ==> (#[trigger] self.pending_ops@[i]).op_id
                < (#[trigger] self.pending_ops@[j]).op_id
    }

    /// The qube under the selection, if any.
    pub open spec fn selected_spec(self) -> Option<QubeInfo> {
        if self.selected_index < self.filtered_indices@.len()
            && self.filtered_indices@[self.selected_index as int] < self.qubes@.len() {
            Some(self.qubes@[self.filtered_indices@[self.selected_index as int] as int])
        } else {
            None
        }
    }

    /// A fresh application: the qube tab, nothing loaded, nothing open.
    pub fn new(client: Arc<AdminClient>) -> (app: Self)
        ensures
            app.inv(),
            app.client == client,
            app.active_view == ActiveView::QubeManager,
            app.qubes@.len() == 0,
            app.filtered_indices@.len() == 0,
            app.selected_index == 0,
            app.modal == Modal::Closed,
            app.detail_scroll == 0,
            app.detail_row == 0,
            app.detail_rows@.len() == 0,
            app.properties_cache@ == Map::<Seq<char>, QubeProperties>::empty(),
            app.pending_ops@.len() == 0,
            app.next_op_id == 0,
            app.status is None,
            !app.should_quit,
    {
        let app = App {
            client,
            active_view: ActiveView::QubeManager,
            qubes: Vec::new(),
            filtered_indices: Vec::new(),
            selected_index: 0,
            modal: Modal::Closed,
            detail_scroll: 0,
            detail_row: 0,
            detail_rows: Vec::new(),
            properties_cache: TextMap::new(),
            pending_ops: Vec::new(),
            next_op_id: 0,
            status: None,
            should_quit: false,
        };
        assert(app.filtered_indices@ =~= admitted(app.qubes@, app.active_view, 0));
        app
    }

    /// The qube under the selection, if any.
    pub fn selected_qube(&self) -> (r: Option<&QubeInfo>)
        ensures
            r is Some == self.selected_spec() is Some,
            r matches Some(q) ==> *q == self.selected_spec()->0,
    {
        if self.selected_index < self.filtered_indices.len() {
            let i = self.filtered_indices[self.selected_index];
            if i < self.qubes.len() {
                return Some(&self.qubes[i]);
            }
        }
        None
    }

    /// Whether the step from `self` on `action` stays within the operation
    /// ids, the detail rows and the netvm picker's candidates.
    pub fn step_fits(&self, action: &Action) -> (r: bool)
        ensures
            r == self.can_step(*action),
    {
        let confirming = match self.modal {
            Modal::ConfirmDelete { .. } | Modal::ConfirmKill { .. } => match action {
                Action::Confirm => true,
                _ => false,
            },
            _ => false,
        };
        let starting = match self.modal {
            Modal::Closed => match action {
                Action::StartSelected | Action::ShutdownSelected | Action::PauseSelected => true,
                _ => false,
            },
            _ => false,
        };
        let moving_down = match self.modal {
            Modal::Detail => match action {
                Action::MoveDown => true,
                _ => false,
            },
            _ => false,
        };
        let choosing = match &self.modal {
            Modal::ChangeNetvm { candidates, selected, .. } => match action {
                Action::Confirm | Action::EditSubmit => *selected >= candidates.len(),
                Action::MoveDown => *selected == usize::MAX,
                _ => false,
            },
            _ => false,
        };
        (!(confirming || starting) || self.next_op_id < u64::MAX) && (!moving_down
            || self.detail_row < usize::MAX) && !choosing
    }

    /// Keeps the editable rows of the detail popup `rows` (property and
    /// label) as the rows that the edit key picks from, and keeps the
    /// highlighted row among them.
    pub fn set_detail_rows(&mut self, rows: &Vec<DetailRow>)
        ensures
            final(self).detail_rows@ == editable_rows(rows@),
            final(self).detail_row == if editable_rows(rows@).len() > 0 && old(self).detail_row
                >= editable_rows(rows@).len() {
                (editable_rows(rows@).len() - 1) as usize
            } else {
                old(self).detail_row
            },
            *final(self) == (App {
                detail_rows: final(self).detail_rows,
                detail_row: final(self).detail_row,
                ..*old(self)
            }),
            final(self).inv() == old(self).inv(),
    {
        self.detail_rows = editable_pairs(rows);
        if self.detail_rows.len() > 0 && self.detail_row >= self.detail_rows.len() {
            self.detail_row = self.detail_rows.len() - 1;
        }
    }

    /// Rebuilds the table's list from the qubes and the tab.
    pub fn rebuild_filtered(&mut self)
        ensures
            final(self).filtered_indices@ == admitted(
                old(self).qubes@,
                old(self).active_view,
                old(self).qubes@.len() as int,
            ),
            *final(self) == (App { filtered_indices: final(self).filtered_indices, ..*old(self) }),
    {
        let mut out: Vec<usize> = Vec::new();
        let mut i: usize = 0;
        while i < self.qubes.len()
            invariant
                0 <= i <= self.qubes@.len(),
                out@ == admitted(self.qubes@, self.active_view, i as int),
            decreases self.qubes@.len() - i,
        {
            if admits(self.active_view, &self.qubes[i]) {
                out.push(i);
            }
            i += 1;
        }
        self.filtered_indices = out;
    }
}

// ── What one step does ───────────────────────────────────────────────────────

/// `post` is `pre` with one more pending operation, on `name` and of kind
/// `kind`, under the next id.
pub open spec fn pushed_op(pre: App, post: App, name: String, kind: OpKind) -> bool {
    &&& post.next_op_id == pre.next_op_id + 1
    &&& post.pending_ops@.len() == pre.pending_ops@.len() + 1
    &&& post.pending_ops@.drop_last() == pre.pending_ops@
    &&& post.pending_ops@.last().op_id == pre.next_op_id
    &&& post.pending_ops@.last().vm_name == name
    &&& post.pending_ops@.last().kind == kind
    &&& post == (App { pending_ops: post.pending_ops, next_op_id: post.next_op_id, ..pre })
}

/// The text that the property `key` of the qube `vm` has in the cache, or
/// empty where there is none.
pub open spec fn cached_text(cache: Map<Seq<char>, QubeProperties>, vm: Seq<char>, key: Seq<char>) -> Seq<char> {
    if cache.dom().contains(vm) && cache[vm].raw@.dom().contains(key) {
        cache[vm].raw@[key]@
    } else {
        Seq::empty()
    }
}

/// Whether the cache says that the qube `name` provides network.
pub open spec fn cache_provides(cache: Map<Seq<char>, QubeProperties>, name: Seq<char>) -> bool {
    cache.dom().contains(name) && cache[name].provides_network == Some(true)
}

/// The names, in order, of the first `n` qubes of `qs` that could be the
/// netvm of the qube `me`: running ones, and ones that the cache says
/// provide network, but not `me` itself.
pub open spec fn netvm_choices(
    qs: Seq<QubeInfo>,
    cache: Map<Seq<char>, QubeProperties>,
    me: Seq<char>,
    n: int,
) -> Seq<String>
    decreases n,
{
    if n <= 0 {
        Seq::empty()
    } else {
        let r = netvm_choices(qs, cache, me, n - 1);
        let q = qs[n - 1];
        if (q.state is Running || cache_provides(cache, q.name@)) && q.name@ != me {
            r.push(q.name)
        } else {
            r
        }
    }
}

/// Index of the first member of `v` with the text `t`, or `v.len()`.
pub open spec fn first_text(v: Seq<String>, t: Seq<char>) -> int
    decreases v.len(),
{
    if v.len() == 0 {
        0
    } else if v[0]@ == t {
        0
    } else {
        1 + first_text(v.drop_first(), t)
    }
}

/// `m` is the netvm picker for the qube `q`: "None" first, then the
/// possible netvms sorted by name, with the qube's current netvm chosen
/// (the first entry where it has none or it is not a candidate).
pub open spec fn netvm_picker(pre: App, q: QubeInfo, m: Modal) -> bool {
    match m {
        Modal::ChangeNetvm { vm_name, candidates, selected } => {
            let c = candidates@;
            &&& vm_name == q.name
            &&& c.len() >= 1
            &&& c[0]@ == "None"@
            &&& texts_sorted(c.skip(1))
            &&& c.skip(1).to_multiset() == netvm_choices(
                pre.qubes@,
                pre.properties_cache@,
                q.name@,
                pre.qubes@.len() as int,
            ).to_multiset()
            &&& selected == match q.netvm {
                Some(n) => if first_text(c, n@) < c.len() {
                    first_text(c, n@)
                } else {
                    0
                },
                None => 0,
            }
        },
        _ => false,
    }
}

/// `qs` after the qube `name` (the first of that name) got the netvm
/// `value`, "None" meaning none.
pub open spec fn with_netvm(qs: Seq<QubeInfo>, name: Seq<char>, value: String) -> Seq<QubeInfo> {
    let i = first_named(qs, name);
    if i < qs.len() {
        qs.update(i, QubeInfo { netvm: if value@ == "None"@ { None } else { Some(value) }, ..qs[i] })
    } else {
        qs
    }
}

/// The state that an event of type `t` puts its qube in, if any.
pub open spec fn event_state(t: Seq<char>) -> Option<QubeState> {
    if t == "domain-start"@ {
        Some(QubeState::Running)
    } else if t == "domain-shutdown"@ || t == "domain-stopped"@ {
        Some(QubeState::Halted)
    } else if t == "domain-paused"@ {
        Some(QubeState::Paused)
    } else {
        None
    }
}

/// `qs` after the event `evt`: a start, shutdown, stop or pause event sets
/// the state of the first qube named by its subject.
pub open spec fn event_applied(qs: Seq<QubeInfo>, evt: AdminEvent) -> Seq<QubeInfo> {
    let i = first_named(qs, evt.subject@);
    match event_state(evt.event_type@) {
        Some(st) => if i < qs.len() {
            qs.update(i, QubeInfo { state: st, ..qs[i] })
        } else {
            qs
        },
        None => qs,
    }
}

/// Index of the first pending operation with id `id`, or `ops.len()`.
pub open spec fn first_op(ops: Seq<PendingOp>, id: u64) -> int
    decreases ops.len(),
{
    if ops.len() == 0 {
        0
    } else if ops[0].op_id == id {
        0
    } else {
        1 + first_op(ops.drop_first(), id)
    }
}

/// `post` is `pre` after the report that the operation `id` ended: the
/// operation (if pending) is dropped and the status line says
/// `<qube> <kind><tail>` at `level`.
pub open spec fn op_reported(pre: App, post: App, id: u64, tail: Seq<char>, level: MessageLevel) -> bool {
    let k = first_op(pre.pending_ops@, id);
    if k < pre.pending_ops@.len() {
        let op = pre.pending_ops@[k];
        &&& post == (App { pending_ops: post.pending_ops, status: post.status, ..pre })
        &&& post.pending_ops@ == pre.pending_ops@.remove(k)
        &&& post.status matches Some(m) && m.level == level && m.text@ == op.vm_name@ + " "@
            + op.kind.text() + tail
    } else {
        post == pre
    }
}

/// `post` is `pre` with the tab `view` shown from its first row.
pub open spec fn switched(pre: App, post: App, view: ActiveView) -> bool {
    &&& post == (App {
        active_view: view,
        selected_index: 0,
        filtered_indices: post.filtered_indices,
        ..pre
    })
    &&& post.filtered_indices@ == admitted(pre.qubes@, view, pre.qubes@.len() as int)
}

/// A step with a confirmation popup for `name` open: confirming starts the
/// operation `kind` with the effect `eff`; cancelling, quitting or the `n`
/// key (which asks for the netvm picker) close it.
pub open spec fn confirm_step(
    pre: App,
    action: Action,
    post: App,
    effects: Seq<SideEffect>,
    name: String,
    kind: OpKind,
    eff: SideEffect,
) -> bool {
    if action is Confirm {
        &&& pushed_op(App { modal: Modal::Closed, ..pre }, post, name, kind)
        &&& effects =~= seq![eff]
    } else if action is Cancel || action is Quit || action is ChangeNetvm {
        post == (App { modal: Modal::Closed, ..pre }) && effects.len() == 0
    } else {
        post == pre && effects.len() == 0
    }
}

/// A step with the help popup open: cancel, hide, show and quit close it,
/// quit also asking to quit.
pub open spec fn help_step(pre: App, action: Action, post: App, effects: Seq<SideEffect>) -> bool {
    &&& effects.len() == 0
    &&& if action is Cancel || action is HideHelp || action is ShowHelp || action is Quit {
        post == (App { modal: Modal::Closed, should_quit: pre.should_quit || action is Quit, ..pre })
    } else {
        post == pre
    }
}

/// A step with the detail popup open: arriving properties are cached (the
/// popup shows them); cancel, toggle, Enter and quit close it (quit also
/// asks to quit); up and down move the highlighted row; edit
/// opens the edit box on the highlighted property, filled with its cached
/// value.
pub open spec fn detail_step(pre: App, action: Action, post: App, effects: Seq<SideEffect>) -> bool {
    &&& effects.len() == 0
    &&& if let Action::PropertiesLoaded { name, props } = action {
        properties_arrived(pre, post, effects, name, props)
    } else if action is Cancel || action is ToggleDetail || action is EditSubmit || action is Quit {
        post == (App { modal: Modal::Closed, should_quit: pre.should_quit || action is Quit, ..pre })
    } else if action is MoveUp {
        let row = if pre.detail_row > 0 {
            (pre.detail_row - 1) as usize
        } else {
            pre.detail_row
        };
        post == (App {
            detail_row: row,
            detail_scroll: if (row as u16) < pre.detail_scroll {
                row as u16
            } else {
                pre.detail_scroll
            },
            ..pre
        })
    } else if action is MoveDown {
        post == (App {
            detail_row: if pre.detail_row + 1 < pre.detail_rows@.len() {
                (pre.detail_row + 1) as usize
            } else {
                pre.detail_row
            },
            ..pre
        })
    } else if action is EditProperty && pre.detail_row < pre.detail_rows@.len() {
        let key = pre.detail_rows@[pre.detail_row as int].0;
        let vm = match pre.selected_spec() {
            Some(q) => q.name@,
            None => Seq::empty(),
        };
        &&& post == (App { modal: post.modal, ..pre })
        &&& post.modal matches Modal::EditProperty { vm_name, property, input } && vm_name@ == vm
            && property == key && input@ == cached_text(pre.properties_cache@, vm, key@)
    } else {
        post == pre
    }
}

/// A step with the netvm picker for `name` open: up and down move the
/// choice; confirming sets the chosen netvm (also in the qube list at once),
/// drops the qube's cached properties and asks to set and re-read them;
/// cancel and quit close it (quit also asks to quit).
pub open spec fn netvm_step(
    pre: App,
    action: Action,
    post: App,
    effects: Seq<SideEffect>,
    name: String,
    candidates: Vec<String>,
    selected: usize,
) -> bool {
    if action is MoveUp {
        &&& post == (App {
            modal: Modal::ChangeNetvm {
                vm_name: name,
                candidates,
                selected: if selected > 0 {
                    (selected - 1) as usize
                } else {
                    selected
                },
            },
            ..pre
        })
        &&& effects.len() == 0
    } else if action is MoveDown {
        &&& post == (App {
            modal: Modal::ChangeNetvm {
                vm_name: name,
                candidates,
                selected: if selected + 1 < candidates@.len() {
                    (selected + 1) as usize
                } else {
                    selected
                },
            },
            ..pre
        })
        &&& effects.len() == 0
    } else if action is Confirm || action is EditSubmit {
        let value = candidates@[selected as int];
        &&& post == (App {
            modal: Modal::Closed,
            properties_cache: post.properties_cache,
            qubes: post.qubes,
            ..pre
        })
        &&& post.properties_cache@ == pre.properties_cache@.remove(name@)
        &&& post.qubes@ == with_netvm(pre.qubes@, name@, value)
        &&& effects.len() == 2
        &&& effects[0] matches SideEffect::SetProperty { vm, property, value: v } && vm == name
            && property@ == "netvm"@ && v == value
        &&& effects[1] == SideEffect::FetchProperties(name)
    } else if action is Cancel || action is Quit {
        &&& post == (App { modal: Modal::Closed, should_quit: pre.should_quit || action is Quit, ..pre })
        &&& effects.len() == 0
    } else {
        post == pre && effects.len() == 0
    }
}

/// A step with the edit box for `property` of `vm` open: typing appends,
/// backspace deletes the last character, submitting goes back to the detail
/// popup, drops the qube's cached properties and asks to set and re-read
/// them; cancel and quit go back to the detail popup.
pub open spec fn edit_step(
    pre: App,
    action: Action,
    post: App,
    effects: Seq<SideEffect>,
    vm: String,
    property: String,
    input: String,
) -> bool {
    match action {
        Action::EditChar(c) => {
            &&& post == (App { modal: post.modal, ..pre })
            &&& post.modal matches Modal::EditProperty { vm_name, property: p2, input: i2 }
                && vm_name == vm && p2 == property && i2@ == input@.push(c)
            &&& effects.len() == 0
        },
        Action::EditBackspace => {
            &&& post == (App { modal: post.modal, ..pre })
            &&& post.modal matches Modal::EditProperty { vm_name, property: p2, input: i2 }
                && vm_name == vm && p2 == property && i2@ == if input@.len() > 0 {
                input@.drop_last()
            } else {
                input@
            }
            &&& effects.len() == 0
        },
        Action::EditSubmit => {
            &&& post == (App {
                modal: Modal::Detail,
                properties_cache: post.properties_cache,
                ..pre
            })
            &&& post.properties_cache@ == pre.properties_cache@.remove(vm@)
            &&& effects =~= seq![
                SideEffect::SetProperty { vm: vm, property: property, value: input },
                SideEffect::FetchProperties(vm),
            ]
        },
        Action::Cancel | Action::Quit => {
            post == (App { modal: Modal::Detail, ..pre }) && effects.len() == 0
        },
        _ => post == pre && effects.len() == 0,
    }
}

/// `post` is `pre` with a pending operation of kind `kind` on the selected
/// qube `q` and the single effect `eff`.
pub open spec fn started_op(pre: App, post: App, effects: Seq<SideEffect>, q: QubeInfo, kind: OpKind, eff: SideEffect) -> bool {
    pushed_op(pre, post, q.name, kind) && effects =~= seq![eff]
}

/// `post` is `pre` with the properties `props` of the qube `name` cached,
/// and nothing to do.
pub open spec fn properties_arrived(
    pre: App,
    post: App,
    effects: Seq<SideEffect>,
    name: String,
    props: QubeProperties,
) -> bool {
    &&& post == (App { properties_cache: post.properties_cache, ..pre })
    &&& post.properties_cache@ == pre.properties_cache@.insert(name@, props)
    &&& effects.len() == 0
}

/// A step with no popup open.
pub open spec fn main_step(pre: App, action: Action, post: App, effects: Seq<SideEffect>) -> bool {
    let n = pre.filtered_indices@.len();
    let sel = pre.selected_index;
    match action {
        Action::Quit => post == (App { should_quit: true, ..pre }) && effects.len() == 0,
        Action::ShowHelp => post == (App { modal: Modal::Help, ..pre }) && effects.len() == 0,
        Action::HideHelp | Action::Cancel => post == pre && effects.len() == 0,
        Action::ToggleDetail | Action::EditSubmit => match pre.selected_spec() {
            Some(q) => {
                &&& post == (App { modal: Modal::Detail, detail_scroll: 0, detail_row: 0, ..pre })
                &&& if pre.properties_cache@.dom().contains(q.name@) {
                    effects.len() == 0
                } else {
                    effects =~= seq![SideEffect::FetchProperties(q.name)]
                }
            },
            None => post == pre && effects.len() == 0,
        },
        Action::MoveUp => post == (App {
            selected_index: if sel > 0 {
                (sel - 1) as usize
            } else {
                sel
            },
            ..pre
        }) && effects.len() == 0,
        Action::MoveDown => post == (App {
            selected_index: if n > 0 && sel < n - 1 {
                (sel + 1) as usize
            } else {
                sel
            },
            ..pre
        }) && effects.len() == 0,
        Action::MoveTop => post == (App { selected_index: 0, ..pre }) && effects.len() == 0,
        Action::MoveBottom => post == (App {
            selected_index: if n > 0 {
                (n - 1) as usize
            } else {
                sel
            },
            ..pre
        }) && effects.len() == 0,
        Action::SwitchToQubeManager => switched(pre, post, ActiveView::QubeManager) && effects.len() == 0,
        Action::SwitchToServiceManager => switched(pre, post, ActiveView::ServiceManager) && effects.len() == 0,
        Action::SwitchToTemplateManager => switched(pre, post, ActiveView::TemplateManager) && effects.len() == 0,
        Action::SwitchToWhonixManager => switched(pre, post, ActiveView::WhonixManager) && effects.len() == 0,
        Action::StartSelected => match pre.selected_spec() {
            Some(q) => if q.state is Halted {
                started_op(pre, post, effects, q, OpKind::Start, SideEffect::StartVm(q.name))
            } else {
                post == pre && effects.len() == 0
            },
            None => post == pre && effects.len() == 0,
        },
        Action::ShutdownSelected => match pre.selected_spec() {
            Some(q) => if q.state is Running {
                started_op(pre, post, effects, q, OpKind::Shutdown, SideEffect::ShutdownVm(q.name))
            } else {
                post == pre && effects.len() == 0
            },
            None => post == pre && effects.len() == 0,
        },
        Action::KillSelected => effects.len() == 0 && match pre.selected_spec() {
            Some(q) => if q.state is Running {
                post == (App { modal: Modal::ConfirmKill { vm_name: q.name }, ..pre })
            } else {
                post == pre
            },
            None => post == pre,
        },
        Action::PauseSelected => match pre.selected_spec() {
            Some(q) => if q.state is Running {
                started_op(pre, post, effects, q, OpKind::Start, SideEffect::PauseVm(q.name))
            } else if q.state is Paused {
                started_op(pre, post, effects, q, OpKind::Start, SideEffect::StartVm(q.name))
            } else {
                post == pre && effects.len() == 0
            },
            None => post == pre && effects.len() == 0,
        },
        Action::OpenTerminal => post == pre && match pre.selected_spec() {
            Some(q) => if q.state is Running {
                effects =~= seq![SideEffect::OpenTerminal(q.name)]
            } else {
                effects.len() == 0
            },
            None => effects.len() == 0,
        },
        Action::DeleteSelected => effects.len() == 0 && match pre.selected_spec() {
            Some(q) => if q.state is Halted {
                post == (App { modal: Modal::ConfirmDelete { vm_name: q.name }, ..pre })
            } else {
                &&& post == (App { status: post.status, ..pre })
                &&& post.status matches Some(m) && m.level == MessageLevel::Warning && m.text@
                    == "Shut down the qube before deleting"@
            },
            None => post == pre,
        },
        Action::ChangeNetvm => effects.len() == 0 && match pre.selected_spec() {
            Some(q) => post == (App { modal: post.modal, ..pre }) && netvm_picker(pre, q, post.modal),
            None => post == pre,
        },
        Action::QubeListLoaded(qs) => {
            let f = admitted(qs@, pre.active_view, qs@.len() as int);
            &&& post == (App {
                qubes: qs,
                filtered_indices: post.filtered_indices,
                selected_index: post.selected_index,
                ..pre
            })
            &&& post.filtered_indices@ == f
            &&& post.selected_index == if f.len() > 0 && sel > f.len() - 1 {
                (f.len() - 1) as usize
            } else {
                sel
            }
            &&& effects.len() == 0
        },
        Action::PropertiesLoaded { name, props } => properties_arrived(pre, post, effects, name, props),
        Action::OperationCompleted { op_id } => {
            &&& op_reported(pre, post, op_id, " \u{2014} done"@, MessageLevel::Success)
            &&& effects =~= seq![SideEffect::FetchQubeList]
        },
        Action::OperationFailed { op_id, error } => {
            &&& op_reported(pre, post, op_id, " failed: "@ + error@, MessageLevel::Error)
            &&& effects.len() == 0
        },
        Action::EventReceived(evt) => {
            &&& post == (App { qubes: post.qubes, ..pre })
            &&& post.qubes@ == event_applied(pre.qubes@, evt)
            &&& effects.len() == 0
        },
        _ => post == pre && effects.len() == 0,
    }
}

impl App {
    /// What one step from `pre` on `action` gives: the state `post` and the
    /// effects `effects`. While a popup is open, the popup takes the action.
    pub open spec fn step(pre: App, action: Action, post: App, effects: Seq<SideEffect>) -> bool {
        match pre.modal {
            Modal::ConfirmDelete { vm_name } => confirm_step(
                pre,
                action,
                post,
                effects,
                vm_name,
                OpKind::Delete,
                SideEffect::DeleteVm(vm_name),
            ),
            Modal::ConfirmKill { vm_name } => confirm_step(
                pre,
                action,
                post,
                effects,
                vm_name,
                OpKind::Kill,
                SideEffect::KillVm(vm_name),
            ),
            Modal::Help => help_step(pre, action, post, effects),
            Modal::Detail => detail_step(pre, action, post, effects),
            Modal::ChangeNetvm { vm_name, candidates, selected } => netvm_step(
                pre,
                action,
                post,
                effects,
                vm_name,
                candidates,
                selected,
            ),
            Modal::EditProperty { vm_name, property, input } => edit_step(
                pre,
                action,
                post,
                effects,
                vm_name,
                property,
                input,
            ),
            Modal::Closed => main_step(pre, action, post, effects),
        }
    }

    /// Whether the step from `self` on `action` starts an operation.
    pub open spec fn starts_op(self, action: Action) -> bool {
        ||| (self.modal is ConfirmDelete || self.modal is ConfirmKill) && action is Confirm
        ||| self.modal is Closed && (action is StartSelected || action is ShutdownSelected
            || action is PauseSelected)
    }

    /// The step from `self` on `action` does not run out of operation ids or
    /// of detail rows or of picker rows, and a confirmed netvm choice is one
    /// of the picker's candidates.
    pub open spec fn can_step(self, action: Action) -> bool {
        &&& self.starts_op(action) ==> self.next_op_id < u64::MAX
        &&& (self.modal is Detail && action is MoveDown) ==> self.detail_row < usize::MAX
        &&& (self.modal is ChangeNetvm && (action is Confirm || action is EditSubmit))
            ==> self.picker_ok()
        &&& action is MoveDown ==> (self.modal matches Modal::ChangeNetvm { selected, .. }
            ==> selected < usize::MAX)
    }
}

proof fn lemma_admitted_same(qs1: Seq<QubeInfo>, qs2: Seq<QubeInfo>, view: ActiveView, n: int)
    requires
        0 <= n <= qs1.len(),
        qs1.len() == qs2.len(),
        forall|i: int| 0 <= i < qs1.len() ==> (#[trigger] qs1[i]).name == qs2[i].name && qs1[i].class
            == qs2[i].class,
    ensures
        admitted(qs1, view, n) == admitted(qs2, view, n),
    decreases n,
{
    if n > 0 {
        lemma_admitted_same(qs1, qs2, view, n - 1);
        assert(qs1[n - 1].name == qs2[n - 1].name);
    }
}

proof fn lemma_first_text(v: Seq<String>, t: Seq<char>, k: int)
    requires
        0 <= k <= v.len(),
        forall|j: int| 0 <= j < k ==> (#[trigger] v[j])@ != t,
        k == v.len() || v[k]@ == t,
    ensures
        first_text(v, t) == k,
    decreases v.len(),
{
    if v.len() > 0 && k > 0 {
        assert forall|j: int| 0 <= j < k - 1 implies (#[trigger] v.drop_first()[j])@ != t by {
            assert(v.drop_first()[j] == v[j + 1]);
        }
        lemma_first_text(v.drop_first(), t, k - 1);
    }
}

proof fn lemma_first_op(ops: Seq<PendingOp>, id: u64, k: int)
    requires
        0 <= k <= ops.len(),
        forall|j: int| 0 <= j < k ==> (#[trigger] ops[j]).op_id != id,
        k == ops.len() || ops[k].op_id == id,
    ensures
        first_op(ops, id) == k,
    decreases ops.len(),
{
    if ops.len() > 0 && k > 0 {
        assert forall|j: int| 0 <= j < k - 1 implies (#[trigger] ops.drop_first()[j]).op_id != id by {
            assert(ops.drop_first()[j] == ops[j + 1]);
        }
        lemma_first_op(ops.drop_first(), id, k - 1);
    }
}

/// The qube tab shows a qube exactly when none of the service, template and
/// Whonix tabs shows it; so every qube shows in at least one tab.
pub proof fn lemma_qube_tab_is_the_rest(q: QubeInfo)
    ensures
        view_admits(ActiveView::QubeManager, q) <==> !view_admits(ActiveView::ServiceManager, q)
            && !view_admits(ActiveView::TemplateManager, q) && !view_admits(
            ActiveView::WhonixManager,
            q,
        ),
        view_admits(ActiveView::QubeManager, q) || view_admits(ActiveView::ServiceManager, q)
            || view_admits(ActiveView::TemplateManager, q) || view_admits(ActiveView::WhonixManager, q),
{
}

/// A qube is deleted or killed only on a confirmation, given while the
/// popup that asks to confirm that very operation on that very qube is open.
pub proof fn lemma_removal_needs_confirmation(
    pre: App,
    action: Action,
    post: App,
    effects: Seq<SideEffect>,
    i: int,
)
    requires
        App::step(pre, action, post, effects),
        0 <= i < effects.len(),
    ensures
        effects[i] matches SideEffect::DeleteVm(n) ==> action is Confirm && pre.modal == (
        Modal::ConfirmDelete { vm_name: n }),
        effects[i] matches SideEffect::KillVm(n) ==> action is Confirm && pre.modal == (
        Modal::ConfirmKill { vm_name: n }),
{
}

/// A property is set only together with a fresh read of the qube's
/// properties, and the qube's cached properties are dropped meanwhile.
pub proof fn lemma_set_property_refreshes(
    pre: App,
    action: Action,
    post: App,
    effects: Seq<SideEffect>,
    i: int,
)
    requires
        App::step(pre, action, post, effects),
        0 <= i < effects.len(),
    ensures
        effects[i] matches SideEffect::SetProperty { vm, .. } ==> {
            &&& !post.properties_cache@.dom().contains(vm@)
            &&& effects.contains(SideEffect::FetchProperties(vm))
        },
{
    // Where a property is set, the fresh read is the second effect.
    if effects[i] is SetProperty {
        assert(effects.len() == 2 && effects[1] is FetchProperties);
    }
}

/// Recording an operation under the next id, as every step that starts one
/// does, keeps the pending operations' ids distinct, increasing and below
/// the next id.
pub proof fn lemma_pushed_op_keeps_ids(pre: App, post: App, name: String, kind: OpKind)
    requires
        pushed_op(pre, post, name, kind),
        pre.ops_ok(),
    ensures
        post.ops_ok(),
{
    let n = pre.pending_ops@.len();
    assert forall|i: int| 0 <= i < n implies (#[trigger] post.pending_ops@[i]) == pre.pending_ops@[i] by {
        assert(post.pending_ops@.drop_last()[i] == post.pending_ops@[i]);
    }
}

/// A step never takes back an operation id: the next id stays or grows by
/// one.
pub proof fn lemma_op_ids_only_grow(pre: App, action: Action, post: App, effects: Seq<SideEffect>)
    requires
        App::step(pre, action, post, effects),
    ensures
        post.next_op_id == pre.next_op_id || post.next_op_id == pre.next_op_id + 1,
{
}

/// The template tab shows a qube exactly when it is a template, whatever
/// its name.
pub proof fn lemma_template_tab_is_the_templates(q: QubeInfo, lc: Seq<char>)
    ensures
        keeps(ActiveView::TemplateManager, q, lc) <==> q.class is TemplateVM,
        view_admits(ActiveView::TemplateManager, q) <==> q.class is TemplateVM,
{
}

/// The service tab shows the admin qubes and the qubes whose name begins
/// with `sys-`, whatever their class; the Whonix tab shows the qubes with
/// `whonix` in the lower-cased name, whatever their class; templates and
/// admin qubes never show in the qube tab.
pub proof fn lemma_other_tabs(q: QubeInfo, lc: Seq<char>)
    ensures
        keeps(ActiveView::ServiceManager, q, lc) <==> (q.class is AdminVM || has_prefix(
            q.name@,
            "sys-"@,
        )),
        keeps(ActiveView::WhonixManager, q, lc) <==> has_infix(lc, "whonix"@),
        q.class is TemplateVM || q.class is AdminVM ==> !keeps(ActiveView::QubeManager, q, lc),
        has_prefix(q.name@, "sys-"@) ==> !keeps(ActiveView::QubeManager, q, lc),
        has_infix(lc, "whonix"@) ==> !keeps(ActiveView::QubeManager, q, lc),
{
}

proof fn lemma_admitted_members(qs: Seq<QubeInfo>, view: ActiveView, n: int)
    requires
        0 <= n <= qs.len(),
        qs.len() <= usize::MAX,
    ensures
        admitted(qs, view, n).len() <= n,
        forall|k: int|
            0 <= k < admitted(qs, view, n).len() ==> {
                &&& 0 <= #[trigger] admitted(qs, view, n)[k] < n
                &&& view_admits(view, qs[admitted(qs, view, n)[k] as int])
            },
        forall|i: int|
            0 <= i < n && view_admits(view, #[trigger] qs[i]) ==> admitted(qs, view, n).contains(
                i as usize,
            ),
    decreases n,
{
    if n > 0 {
        lemma_admitted_members(qs, view, n - 1);
        let r = admitted(qs, view, n - 1);
        if view_admits(view, qs[n - 1]) {
            assert(r.push((n - 1) as usize)[r.len() as int] == (n - 1) as usize);
            assert forall|i: int| 0 <= i < n && view_admits(view, #[trigger] qs[i]) implies r.push(
                (n - 1) as usize,
            ).contains(i as usize) by {
                if i < n - 1 {
                    let k = choose|k: int| 0 <= k < r.len() && r[k] == i as usize;
                    assert(r.push((n - 1) as usize)[k] == i as usize);
                }
            }
        }
    }
}

/// A tab lists, by index into the qube list, exactly the qubes that it
/// shows: after switching to the template tab, the table holds every
/// template and nothing else.
pub proof fn lemma_switched_tab_lists_its_qubes(pre: App, view: ActiveView, post: App)
    requires
        switched(pre, post, view),
        pre.qubes@.len() <= usize::MAX,
    ensures
        forall|i: int|
            0 <= i < pre.qubes@.len() ==> (post.filtered_indices@.contains(i as usize)
                <==> view_admits(view, #[trigger] pre.qubes@[i])),
        forall|k: int|
            0 <= k < post.filtered_indices@.len() ==> #[trigger] post.filtered_indices@[k]
                < pre.qubes@.len(),
        view == ActiveView::TemplateManager ==> forall|i: int|
            0 <= i < pre.qubes@.len() ==> (post.filtered_indices@.contains(i as usize)
                <==> (#[trigger] pre.qubes@[i]).class is TemplateVM),
{
    let qs = pre.qubes@;
    lemma_admitted_members(qs, view, qs.len() as int);
    let f = post.filtered_indices@;
    assert forall|i: int| 0 <= i < qs.len() implies (f.contains(i as usize) <==> view_admits(
        view,
        #[trigger] qs[i],
    )) by {
        if f.contains(i as usize) {
            let k = choose|k: int| 0 <= k < f.len() && f[k] == i as usize;
            assert(view_admits(view, qs[f[k] as int]));
        }
    }
}

/// With no popup open, a step on the template tab key shows the templates,
/// every one of them, and only them.
pub proof fn lemma_template_tab_step(pre: App, post: App, effects: Seq<SideEffect>)
    requires
        App::step(pre, Action::SwitchToTemplateManager, post, effects),
        pre.modal is Closed,
        pre.qubes@.len() <= usize::MAX,
    ensures
        post.active_view == ActiveView::TemplateManager,
        effects.len() == 0,
        forall|i: int|
            0 <= i < pre.qubes@.len() ==> (post.filtered_indices@.contains(i as usize)
                <==> (#[trigger] pre.qubes@[i]).class is TemplateVM),
{
    lemma_switched_tab_lists_its_qubes(pre, ActiveView::TemplateManager, post);
}

/// With no popup open, the movement keys move the table's selection: up by
/// one unless at the top, down by one unless at the last row, to the first
/// row, to the last row; nothing else changes and nothing is asked for.
pub proof fn lemma_table_moves(pre: App, action: Action, post: App, effects: Seq<SideEffect>)
    requires
        App::step(pre, action, post, effects),
        pre.modal is Closed,
        pre.filtered_indices@.len() <= usize::MAX,
        action is MoveUp || action is MoveDown || action is MoveTop || action is MoveBottom,
    ensures
        effects.len() == 0,
        post.qubes == pre.qubes && post.filtered_indices == pre.filtered_indices,
        post.modal == pre.modal && post.active_view == pre.active_view,
        post.pending_ops == pre.pending_ops && post.next_op_id == pre.next_op_id,
        action is MoveUp && pre.selected_index > 0 ==> post.selected_index + 1 == pre.selected_index,
        action is MoveUp && pre.selected_index == 0 ==> post.selected_index == 0,
        action is MoveDown && pre.selected_index + 1 < pre.filtered_indices@.len()
            ==> post.selected_index == pre.selected_index + 1,
        action is MoveDown && pre.selected_index + 1 >= pre.filtered_indices@.len()
            ==> post.selected_index == pre.selected_index,
        action is MoveTop ==> post.selected_index == 0,
        action is MoveBottom && pre.filtered_indices@.len() > 0 ==> post.selected_index + 1
            == pre.filtered_indices@.len(),
        action is MoveBottom && pre.filtered_indices@.len() == 0 ==> post.selected_index
            == pre.selected_index,
{
}

/// With no popup open, moving down from a row that is not the last and then
/// up comes back to the same row.
pub proof fn lemma_down_then_up(
    s0: App,
    s1: App,
    s2: App,
    e1: Seq<SideEffect>,
    e2: Seq<SideEffect>,
)
    requires
        s0.modal is Closed,
        s0.selected_index + 1 < s0.filtered_indices@.len(),
        s0.filtered_indices@.len() <= usize::MAX,
        App::step(s0, Action::MoveDown, s1, e1),
        App::step(s1, Action::MoveUp, s2, e2),
    ensures
        s2.selected_index == s0.selected_index,
        s2 == s0,
{
}

proof fn lemma_netvm_choices(
    qs: Seq<QubeInfo>,
    cache: Map<Seq<char>, QubeProperties>,
    me: Seq<char>,
    n: int,
)
    requires
        0 <= n <= qs.len(),
    ensures
        forall|k: int|
            0 <= k < netvm_choices(qs, cache, me, n).len() ==> {
                &&& (#[trigger] netvm_choices(qs, cache, me, n)[k])@ != me
                &&& exists|j: int|
                    0 <= j < n && (#[trigger] qs[j]).name == netvm_choices(qs, cache, me, n)[k] && (
                    qs[j].state is Running || (cache.dom().contains(qs[j].name@)
                        && cache[qs[j].name@].provides_network == Some(true)))
            },
        forall|j: int|
            0 <= j < n && (#[trigger] qs[j]).name@ != me && (qs[j].state is Running || (
            cache.dom().contains(qs[j].name@) && cache[qs[j].name@].provides_network == Some(
                true,
            ))) ==> netvm_choices(qs, cache, me, n).contains(qs[j].name),
    decreases n,
{
    if n > 0 {
        lemma_netvm_choices(qs, cache, me, n - 1);
        let r = netvm_choices(qs, cache, me, n - 1);
        let q = qs[n - 1];
        if (q.state is Running || cache_provides(cache, q.name@)) && q.name@ != me {
            let r2 = r.push(q.name);
            assert forall|k: int| 0 <= k < r2.len() implies {
                &&& (#[trigger] r2[k])@ != me
                &&& exists|j: int|
                    0 <= j < n && (#[trigger] qs[j]).name == r2[k] && (qs[j].state is Running || (
                    cache.dom().contains(qs[j].name@) && cache[qs[j].name@].provides_network
                        == Some(true)))
            } by {
                if k < r.len() {
                    assert(r2[k] == r[k]);
                } else {
                    assert(qs[n - 1].name == r2[k]);
                }
            }
            assert forall|j: int|
                0 <= j < n && (#[trigger] qs[j]).name@ != me && (qs[j].state is Running || (
                cache.dom().contains(qs[j].name@) && cache[qs[j].name@].provides_network == Some(
                    true,
                ))) implies r2.contains(qs[j].name) by {
                if j < n - 1 {
                    let k = choose|k: int| 0 <= k < r.len() && r[k] == qs[j].name;
                    assert(r2[k] == qs[j].name);
                } else {
                    assert(r2[r.len() as int] == qs[j].name);
                }
            }
        }
    }
}

/// The netvm picker that the `n` key opens, with no popup open, is for the
/// selected qube: "None" comes first, and after it stand exactly the other
/// qubes that run or that the cache says provide network; the qube itself
/// is never offered as its own netvm.
pub proof fn lemma_netvm_picker_offers_others(
    pre: App,
    post: App,
    effects: Seq<SideEffect>,
)
    requires
        App::step(pre, Action::ChangeNetvm, post, effects),
        pre.modal is Closed,
        pre.selected_spec() is Some,
    ensures
        effects.len() == 0,
        post.modal matches Modal::ChangeNetvm { vm_name, candidates, selected } && {
            let q = pre.selected_spec()->0;
            let c = candidates@;
            let qs = pre.qubes@;
            let cache = pre.properties_cache@;
            &&& vm_name == q.name
            &&& c.len() >= 1
            &&& c[0]@ == "None"@
            &&& forall|k: int| 1 <= k < c.len() ==> (#[trigger] c[k])@ != q.name@
            &&& forall|k: int|
                1 <= k < c.len() ==> exists|j: int|
                    0 <= j < qs.len() && (#[trigger] qs[j]).name == #[trigger] c[k] && (
                    qs[j].state is Running || (cache.dom().contains(qs[j].name@)
                        && cache[qs[j].name@].provides_network == Some(true)))
            &&& forall|j: int|
                0 <= j < qs.len() && (#[trigger] qs[j]).name@ != q.name@ && (qs[j].state is Running
                    || (cache.dom().contains(qs[j].name@) && cache[qs[j].name@].provides_network
                    == Some(true))) ==> exists|k: int| 1 <= k < c.len() && c[k] == qs[j].name
        },
{
    broadcast use vstd::seq_lib::group_to_multiset_ensures;

    let q = pre.selected_spec()->0;
    let qs = pre.qubes@;
    let cache = pre.properties_cache@;
    lemma_netvm_choices(qs, cache, q.name@, qs.len() as int);
    let ch = netvm_choices(qs, cache, q.name@, qs.len() as int);
    if let Modal::ChangeNetvm { vm_name, candidates, selected } = post.modal {
        let c = candidates@;
        let t = c.skip(1);
        assert(t.to_multiset() == ch.to_multiset());
        assert forall|k: int| 1 <= k < c.len() implies {
            &&& (#[trigger] c[k])@ != q.name@
            &&& exists|j: int|
                0 <= j < qs.len() && (#[trigger] qs[j]).name == c[k] && (qs[j].state is Running || (
                cache.dom().contains(qs[j].name@) && cache[qs[j].name@].provides_network == Some(
                    true,
                )))
        } by {
            assert(t[k - 1] == c[k]);
            assert(t.contains(c[k]));
            assert(t.to_multiset().count(c[k]) > 0);
            assert(ch.contains(c[k]));
            let m = choose|m: int| 0 <= m < ch.len() && ch[m] == c[k];
            assert(ch[m]@ != q.name@);
        }
        assert forall|j: int|
            0 <= j < qs.len() && (#[trigger] qs[j]).name@ != q.name@ && (qs[j].state is Running || (
            cache.dom().contains(qs[j].name@) && cache[qs[j].name@].provides_network == Some(
                true,
            ))) implies exists|k: int| 1 <= k < c.len() && c[k] == qs[j].name by {
            assert(ch.contains(qs[j].name));
            assert(ch.to_multiset().count(qs[j].name) > 0);
            assert(t.contains(qs[j].name));
            let m = choose|m: int| 0 <= m < t.len() && t[m] == qs[j].name;
            assert(c[m + 1] == t[m]);
        }
    }
}

impl App {
    /// Records a pending operation of kind `kind` on `vm_name`.
    fn push_op(&mut self, vm_name: String, kind: OpKind)
        requires
            old(self).next_op_id < u64::MAX,
        ensures
            pushed_op(*old(self), *final(self), vm_name, kind),
            old(self).ops_ok() ==> final(self).ops_ok(),
    {
        let op_id = self.next_op_id;
        self.next_op_id += 1;
        let started = now();
        let ghost old_ops = self.pending_ops@;
        self.pending_ops.push(PendingOp { op_id, vm_name, kind, started });
        assert(self.pending_ops@.drop_last() =~= old_ops);
    }

    /// The name of the selected qube, where it is running.
    fn selected_running_name(&self) -> (r: Option<String>)
        ensures
            r == match self.selected_spec() {
                Some(q) => if q.state is Running {
                    Some(q.name)
                } else {
                    None
                },
                None => None,
            },
    {
        match self.selected_qube() {
            Some(q) => if q.state.is_running() {
                Some(q.name.clone())
            } else {
                None
            },
            None => None,
        }
    }

    /// The name of the selected qube, where it is halted.
    fn selected_halted_name(&self) -> (r: Option<String>)
        ensures
            r == match self.selected_spec() {
                Some(q) => if q.state is Halted {
                    Some(q.name)
                } else {
                    None
                },
                None => None,
            },
    {
        match self.selected_qube() {
            Some(q) => if q.state.is_halted() {
                Some(q.name.clone())
            } else {
                None
            },
            None => None,
        }
    }

    /// Effects of a change of selection: the properties of the newly
    /// selected qube are fetched where the detail popup is open and they are
    /// not cached.
    fn on_selection_changed(&self) -> (effects: Vec<SideEffect>)
        ensures
            effects@ == if self.modal is Detail && self.selected_spec() is Some
                && !self.properties_cache@.dom().contains(self.selected_spec()->0.name@) {
                seq![SideEffect::FetchProperties(self.selected_spec()->0.name)]
            } else {
                Seq::<SideEffect>::empty()
            },
    {
        match self.modal {
            Modal::Detail => {
                match self.selected_qube() {
                    Some(q) => {
                        let name = q.name.clone();
                        if !self.properties_cache.contains_key(name.as_str()) {
                            return vec![SideEffect::FetchProperties(name)];
                        }
                    },
                    None => {},
                }
            },
            _ => {},
        }
        vec![]
    }

    /// Sets the netvm of the first qube named `name` to `value` ("None"
    /// meaning none).
    fn set_netvm_of(&mut self, name: &String, value: &String)
        ensures
            final(self).qubes@ == with_netvm(old(self).qubes@, name@, *value),
            final(self).qubes@.len() == old(self).qubes@.len(),
            forall|i: int|
                0 <= i < old(self).qubes@.len() ==> (#[trigger] final(self).qubes@[i]).name
                    == old(self).qubes@[i].name && final(self).qubes@[i].class
                    == old(self).qubes@[i].class,
            *final(self) == (App { qubes: final(self).qubes, ..*old(self) }),
    {
        let i = find_named(&self.qubes, name.as_str());
        if i < self.qubes.len() {
            let ghost qs = self.qubes@;
            let mut q = self.qubes.remove(i);
            q.netvm = if str_eq(value.as_str(), "None") {
                None
            } else {
                Some(value.clone())
            };
            self.qubes.insert(i, q);
            assert(self.qubes@ =~= with_netvm(qs, name@, *value));
        }
    }

    /// Applies a qubesd event to the qube list.
    fn apply_event(&mut self, evt: AdminEvent)
        ensures
            final(self).qubes@ == event_applied(old(self).qubes@, evt),
            final(self).qubes@.len() == old(self).qubes@.len(),
            forall|i: int|
                0 <= i < old(self).qubes@.len() ==> (#[trigger] final(self).qubes@[i]).name
                    == old(self).qubes@[i].name && final(self).qubes@[i].class
                    == old(self).qubes@[i].class,
            *final(self) == (App { qubes: final(self).qubes, ..*old(self) }),
    {
        let t = evt.event_type.as_str();
        let st = if str_eq(t, "domain-start") {
            Some(QubeState::Running)
        } else if str_eq(t, "domain-shutdown") || str_eq(t, "domain-stopped") {
            Some(QubeState::Halted)
        } else if str_eq(t, "domain-paused") {
            Some(QubeState::Paused)
        } else {
            None
        };
        match st {
            Some(state) => {
                let i = find_named(&self.qubes, evt.subject.as_str());
                if i < self.qubes.len() {
                    let ghost qs = self.qubes@;
                    let mut q = self.qubes.remove(i);
                    q.state = state;
                    self.qubes.insert(i, q);
                    assert(self.qubes@ =~= event_applied(qs, evt));
                }
            },
            None => {},
        }
    }

    /// Drops the pending operation `id` and reports it on the status line as
    /// `<qube> <kind><tail>` at `level`.
    fn report_op(&mut self, id: u64, tail: &str, level: MessageLevel)
        ensures
            op_reported(*old(self), *final(self), id, tail@, level),
            old(self).ops_ok() ==> final(self).ops_ok(),
    {
        let mut k: usize = 0;
        while k < self.pending_ops.len() && self.pending_ops[k].op_id != id
            invariant
                0 <= k <= self.pending_ops@.len(),
                forall|j: int| 0 <= j < k ==> (#[trigger] self.pending_ops@[j]).op_id != id,
            decreases self.pending_ops@.len() - k,
        {
            k += 1;
        }
        proof {
            lemma_first_op(self.pending_ops@, id, k as int);
        }
        if k < self.pending_ops.len() {
            let ghost ops = self.pending_ops@;
            let op = self.pending_ops.remove(k);
            let mut text = String::new();
            push_str(&mut text, op.vm_name.as_str());
            push_str(&mut text, " ");
            push_str(&mut text, op.kind.name());
            push_str(&mut text, tail);
            self.status = Some(StatusMessage { text, level });
            proof {
                if old(self).ops_ok() {
                    assert forall|a: int, b: int| 0 <= a < b < self.pending_ops@.len() implies (
                    #[trigger] self.pending_ops@[a]).op_id < (#[trigger] self.pending_ops@[b]).op_id by {
                        let a0 = if a < k { a } else { a + 1 };
                        let b0 = if b < k { b } else { b + 1 };
                        assert(self.pending_ops@[a] == ops[a0]);
                        assert(self.pending_ops@[b] == ops[b0]);
                    }
                    assert forall|a: int| 0 <= a < self.pending_ops@.len() implies (
                    #[trigger] self.pending_ops@[a]).op_id < self.next_op_id by {
                        let a0 = if a < k { a } else { a + 1 };
                        assert(self.pending_ops@[a] == ops[a0]);
                    }
                }
            }
        }
    }
}

impl App {
    /// Opens the netvm picker for the selected qube, if any.
    fn open_netvm_picker(&mut self)
        requires
            old(self).modal is Closed,
        ensures
            match old(self).selected_spec() {
                Some(q) => *final(self) == (App { modal: final(self).modal, ..*old(self) })
                    && netvm_picker(*old(self), q, final(self).modal),
                None => *final(self) == *old(self),
            },
    {
        let (vm_name, current) = match self.selected_qube() {
            Some(q) => {
                let current = match &q.netvm {
                    Some(n) => Some(n.clone()),
                    None => None,
                };
                (q.name.clone(), current)
            },
            None => {
                return ;
            },
        };
        let ghost q = self.selected_spec()->0;
        let mut names: Vec<String> = Vec::new();
        let mut i: usize = 0;
        while i < self.qubes.len()
            invariant
                0 <= i <= self.qubes@.len(),
                vm_name == q.name,
                names@ == netvm_choices(self.qubes@, self.properties_cache@, q.name@, i as int),
            decreases self.qubes@.len() - i,
        {
            let x = &self.qubes[i];
            let provides = match self.properties_cache.get(x.name.as_str()) {
                Some(p) => match p.provides_network {
                    Some(true) => true,
                    _ => false,
                },
                None => false,
            };
            if (x.state.is_running() || provides) && !str_eq(x.name.as_str(), vm_name.as_str()) {
                names.push(x.name.clone());
            }
            i += 1;
        }
        let sorted = sort_texts(names);
        let ghost sorted_v = sorted@;
        let mut candidates = sorted;
        candidates.insert(0, "None".to_owned());
        assert(candidates@.skip(1) =~= sorted_v);
        let mut selected: usize = 0;
        match &current {
            Some(c) => {
                let mut j: usize = 0;
                while j < candidates.len() && !str_eq(candidates[j].as_str(), c.as_str())
                    invariant
                        0 <= j <= candidates@.len(),
                        forall|k: int| 0 <= k < j ==> (#[trigger] candidates@[k])@ != c@,
                    decreases candidates@.len() - j,
                {
                    j += 1;
                }
                proof {
                    lemma_first_text(candidates@, c@, j as int);
                }
                if j < candidates.len() {
                    selected = j;
                }
            },
            None => {},
        }
        self.modal = Modal::ChangeNetvm { vm_name, candidates, selected };
    }

    /// Shows the tab `view` from its first row.
    fn switch_to(&mut self, view: ActiveView)
        ensures
            switched(*old(self), *final(self), view),
    {
        self.active_view = view;
        self.selected_index = 0;
        self.rebuild_filtered();
    }

    /// Opens the detail popup on the selected qube (if any), asking for its
    /// properties where they are not cached.
    fn open_detail(&mut self) -> (effects: Vec<SideEffect>)
        requires
            old(self).modal is Closed,
        ensures
            main_step(*old(self), Action::ToggleDetail, *final(self), effects@),
    {
        let name = match self.selected_qube() {
            Some(q) => q.name.clone(),
            None => {
                return vec![];
            },
        };
        self.modal = Modal::Detail;
        self.detail_scroll = 0;
        self.detail_row = 0;
        if !self.properties_cache.contains_key(name.as_str()) {
            return vec![SideEffect::FetchProperties(name)];
        }
        vec![]
    }

    /// A step with no popup open.
    #[verifier::spinoff_prover]
    #[verifier::rlimit(40)]
    fn main_action(&mut self, action: Action) -> (effects: Vec<SideEffect>)
        requires
            old(self).modal is Closed,
            old(self).can_step(action),
        ensures
            main_step(*old(self), action, *final(self), effects@),
            old(self).table_ok() ==> final(self).table_ok(),
            old(self).ops_ok() ==> final(self).ops_ok(),
            final(self).picker_ok(),
    {
        let ghost pre = *self;
        match action {
            Action::Quit => {
                self.should_quit = true;
                vec![]
            },
            Action::ShowHelp => {
                self.modal = Modal::Help;
                vec![]
            },
            Action::HideHelp => {
                self.modal = Modal::Closed;
                vec![]
            },
            Action::Cancel => {
                self.modal = Modal::Closed;
                vec![]
            },
            // Enter — opens the detail popup (EditSubmit is also Enter; with
            // no edit box open it is taken as ToggleDetail).
            Action::ToggleDetail | Action::EditSubmit => self.open_detail(),
            Action::MoveUp => {
                if self.selected_index > 0 {
                    self.selected_index -= 1;
                    self.on_selection_changed()
                } else {
                    vec![]
                }
            },
            Action::MoveDown => {
                if self.filtered_indices.len() > 0 && self.selected_index < self.filtered_indices.len()
                    - 1 {
                    self.selected_index += 1;
                    self.on_selection_changed()
                } else {
                    vec![]
                }
            },
            Action::MoveTop => {
                self.selected_index = 0;
                self.on_selection_changed()
            },
            Action::MoveBottom => {
                if self.filtered_indices.len() > 0 {
                    self.selected_index = self.filtered_indices.len() - 1;
                }
                self.on_selection_changed()
            },
            Action::SwitchToQubeManager => {
                self.switch_to(ActiveView::QubeManager);
                vec![]
            },
            Action::SwitchToServiceManager => {
                self.switch_to(ActiveView::ServiceManager);
                vec![]
            },
            Action::SwitchToTemplateManager => {
                self.switch_to(ActiveView::TemplateManager);
                vec![]
            },
            Action::SwitchToWhonixManager => {
                self.switch_to(ActiveView::WhonixManager);
                vec![]
            },
            Action::StartSelected => {
                match self.selected_halted_name() {
                    Some(name) => {
                        self.push_op(name.clone(), OpKind::Start);
                        vec![SideEffect::StartVm(name)]
                    },
                    None => vec![],
                }
            },
            Action::ShutdownSelected => {
                match self.selected_running_name() {
                    Some(name) => {
                        self.push_op(name.clone(), OpKind::Shutdown);
                        vec![SideEffect::ShutdownVm(name)]
                    },
                    None => vec![],
                }
            },
            Action::KillSelected => {
                match self.selected_running_name() {
                    Some(name) => {
                        self.modal = Modal::ConfirmKill { vm_name: name };
                    },
                    None => {},
                }
                vec![]
            },
            Action::PauseSelected => {
                let (name, running, paused) = match self.selected_qube() {
                    Some(q) => (
                        q.name.clone(),
                        q.state.is_running(),
                        match q.state {
                            QubeState::Paused => true,
                            _ => false,
                        },
                    ),
                    None => {
                        return vec![];
                    },
                };
                if running {
                    self.push_op(name.clone(), OpKind::Start);
                    vec![SideEffect::PauseVm(name)]
                } else if paused {
                    // unpause — shown as a start
                    self.push_op(name.clone(), OpKind::Start);
                    vec![SideEffect::StartVm(name)]
                } else {
                    vec![]
                }
            },
            Action::OpenTerminal => {
                match self.selected_running_name() {
                    Some(name) => vec![SideEffect::OpenTerminal(name)],
                    None => vec![],
                }
            },
            Action::DeleteSelected => {
                let (name, halted) = match self.selected_qube() {
                    Some(q) => (q.name.clone(), q.state.is_halted()),
                    None => {
                        return vec![];
                    },
                };
                if halted {
                    self.modal = Modal::ConfirmDelete { vm_name: name };
                } else {
                    let mut text = String::new();
                    push_str(&mut text, "Shut down the qube before deleting");
                    self.status = Some(StatusMessage { text, level: MessageLevel::Warning });
                }
                vec![]
            },
            Action::ChangeNetvm => {
                self.open_netvm_picker();
                vec![]
            },
            Action::QubeListLoaded(qubes) => {
                self.qubes = qubes;
                self.rebuild_filtered();
                // Clamp selection
                if self.filtered_indices.len() > 0 && self.selected_index > self.filtered_indices.len() - 1 {
                    self.selected_index = self.filtered_indices.len() - 1;
                }
                vec![]
            },
            Action::PropertiesLoaded { name, props } => {
                self.properties_cache.insert(name, props);
                vec![]
            },
            Action::OperationCompleted { op_id } => {
                self.report_op(op_id, " \u{2014} done", MessageLevel::Success);
                // Refresh list after any op
                vec![SideEffect::FetchQubeList]
            },
            Action::OperationFailed { op_id, error } => {
                let mut tail = String::new();
                push_str(&mut tail, " failed: ");
                push_str(&mut tail, error.as_str());
                self.report_op(op_id, tail.as_str(), MessageLevel::Error);
                vec![]
            },
            Action::EventReceived(evt) => {
                self.apply_event(evt);
                proof {
                    lemma_admitted_same(self.qubes@, pre.qubes@, pre.active_view, pre.qubes@.len() as int);
                }
                vec![]
            },
            // Only meaningful inside popups, or not handled: ignored.
            _ => vec![],
        }
    }

    /// A step with the detail popup open (the popup already taken out of
    /// `self.modal`).
    fn detail_action(&mut self, action: Action) -> (effects: Vec<SideEffect>)
        requires
            old(self).modal is Closed,
            (App { modal: Modal::Detail, ..*old(self) }).can_step(action),
        ensures
            detail_step(App { modal: Modal::Detail, ..*old(self) }, action, *final(self), effects@),
    {
        match action {
            // Enter closes the popup as the toggle does.
            Action::Cancel | Action::ToggleDetail | Action::EditSubmit | Action::Quit => {
                if let Action::Quit = action {
                    self.should_quit = true;
                }
                vec![]
            },
            Action::MoveUp => {
                self.modal = Modal::Detail;
                if self.detail_row > 0 {
                    self.detail_row -= 1;
                }
                // Scroll up if needed
                if (self.detail_row as u16) < self.detail_scroll {
                    self.detail_scroll = self.detail_row as u16;
                }
                vec![]
            },
            Action::MoveDown => {
                self.modal = Modal::Detail;
                if self.detail_row + 1 < self.detail_rows.len() {
                    self.detail_row += 1;
                }
                vec![]
            },
            Action::PropertiesLoaded { name, props } => {
                self.modal = Modal::Detail;
                self.properties_cache.insert(name, props);
                vec![]
            },
            Action::EditProperty => {
                if self.detail_row < self.detail_rows.len() {
                    let key = self.detail_rows[self.detail_row].0.clone();
                    let vm_name = match self.selected_qube() {
                        Some(q) => q.name.clone(),
                        None => String::new(),
                    };
                    // Pre-fill current value from cache
                    let current = match self.properties_cache.get(vm_name.as_str()) {
                        Some(p) => match p.raw.get(key.as_str()) {
                            Some(v) => v.clone(),
                            None => String::new(),
                        },
                        None => String::new(),
                    };
                    self.modal = Modal::EditProperty { vm_name, property: key, input: current };
                } else {
                    self.modal = Modal::Detail;
                }
                vec![]
            },
            _ => {
                self.modal = Modal::Detail;
                vec![]
            },
        }
    }

    /// A step with the netvm picker for `vm_name` open (the popup already
    /// taken out of `self.modal`).
    fn netvm_action(&mut self, action: Action, vm_name: String, candidates: Vec<String>, selected: usize) -> (effects: Vec<SideEffect>)
        requires
            old(self).modal is Closed,
            (action is Confirm || action is EditSubmit) ==> selected < candidates@.len(),
            action is MoveDown ==> selected < usize::MAX,
        ensures
            selected < candidates@.len() ==> final(self).picker_ok(),
            netvm_step(
                App { modal: Modal::ChangeNetvm { vm_name, candidates, selected }, ..*old(self) },
                action,
                *final(self),
                effects@,
                vm_name,
                candidates,
                selected,
            ),
            final(self).qubes@.len() == old(self).qubes@.len(),
            forall|i: int|
                0 <= i < old(self).qubes@.len() ==> (#[trigger] final(self).qubes@[i]).name
                    == old(self).qubes@[i].name && final(self).qubes@[i].class
                    == old(self).qubes@[i].class,
    {
        match action {
            Action::MoveUp => {
                let mut sel = selected;
                if sel > 0 {
                    sel -= 1;
                }
                self.modal = Modal::ChangeNetvm { vm_name, candidates, selected: sel };
                vec![]
            },
            Action::MoveDown => {
                let mut sel = selected;
                let n = candidates.len();
                if sel + 1 < n {
                    sel += 1;
                }
                self.modal = Modal::ChangeNetvm { vm_name, candidates, selected: sel };
                vec![]
            },
            Action::Confirm | Action::EditSubmit => {
                let value = candidates[selected].clone();
                self.properties_cache.remove(vm_name.as_str());
                // Reflect immediately in the qube list
                self.set_netvm_of(&vm_name, &value);
                vec![
                    SideEffect::SetProperty {
                        vm: vm_name.clone(),
                        property: "netvm".to_owned(),
                        value,
                    },
                    SideEffect::FetchProperties(vm_name),
                ]
            },
            Action::Cancel | Action::Quit => {
                if let Action::Quit = action {
                    self.should_quit = true;
                }
                vec![]
            },
            _ => {
                self.modal = Modal::ChangeNetvm { vm_name, candidates, selected };
                vec![]
            },
        }
    }

    /// A step with the edit box open (the popup already taken out of
    /// `self.modal`).
    fn edit_action(&mut self, action: Action, vm_name: String, property: String, input: String) -> (effects: Vec<SideEffect>)
        requires
            old(self).modal is Closed,
        ensures
            edit_step(
                App { modal: Modal::EditProperty { vm_name, property, input }, ..*old(self) },
                action,
                *final(self),
                effects@,
                vm_name,
                property,
                input,
            ),
    {
        let mut input = input;
        match action {
            Action::EditChar(c) => {
                input.push(c);
                self.modal = Modal::EditProperty { vm_name, property, input };
                vec![]
            },
            Action::EditBackspace => {
                input.pop();
                self.modal = Modal::EditProperty { vm_name, property, input };
                vec![]
            },
            Action::EditSubmit => {
                self.modal = Modal::Detail;
                // Invalidate cache so fresh props are fetched after the set
                self.properties_cache.remove(vm_name.as_str());
                vec![
                    SideEffect::SetProperty { vm: vm_name.clone(), property, value: input },
                    SideEffect::FetchProperties(vm_name),
                ]
            },
            Action::Cancel | Action::Quit => {
                self.modal = Modal::Detail;
                vec![]
            },
            _ => {
                self.modal = Modal::EditProperty { vm_name, property, input };
                vec![]
            },
        }
    }

    /// Pure state mutation. Returns side effects that the caller will execute.
    pub fn update(&mut self, action: Action) -> (effects: Vec<SideEffect>)
        requires
            old(self).can_step(action),
        ensures
            App::step(*old(self), action, *final(self), effects@),
            old(self).table_ok() ==> final(self).table_ok(),
            old(self).picker_ok() ==> final(self).picker_ok(),
            old(self).ops_ok() ==> final(self).ops_ok(),
            old(self).inv() ==> final(self).inv(),
    {
        let ghost pre = *self;
        let mut modal = Modal::Closed;
        std::mem::swap(&mut modal, &mut self.modal);
        assert(pre == (App { modal: modal, ..*self }));
        // While a popup is open, it takes the action.
        match modal {
            Modal::ConfirmDelete { vm_name } => {
                match action {
                    Action::Confirm => {
                        self.push_op(vm_name.clone(), OpKind::Delete);
                        vec![SideEffect::DeleteVm(vm_name)]
                    },
                    // `n` answers no, as the popup says.
                    Action::Cancel | Action::Quit | Action::ChangeNetvm => vec![],
                    _ => {
                        self.modal = Modal::ConfirmDelete { vm_name };
                        vec![]
                    },
                }
            },
            Modal::ConfirmKill { vm_name } => {
                match action {
                    Action::Confirm => {
                        self.push_op(vm_name.clone(), OpKind::Kill);
                        vec![SideEffect::KillVm(vm_name)]
                    },
                    // `n` answers no, as the popup says.
                    Action::Cancel | Action::Quit | Action::ChangeNetvm => vec![],
                    _ => {
                        self.modal = Modal::ConfirmKill { vm_name };
                        vec![]
                    },
                }
            },
            Modal::Help => {
                match action {
                    Action::Cancel | Action::HideHelp | Action::ShowHelp | Action::Quit => {
                        if let Action::Quit = action {
                            self.should_quit = true;
                        }
                        vec![]
                    },
                    _ => {
                        self.modal = Modal::Help;
                        vec![]
                    },
                }
            },
            Modal::Detail => self.detail_action(action),
            Modal::ChangeNetvm { vm_name, candidates, selected } => {
                let effects = self.netvm_action(action, vm_name, candidates, selected);
                proof {
                    lemma_admitted_same(self.qubes@, pre.qubes@, pre.active_view, pre.qubes@.len() as int);
                }
                effects
            },
            Modal::EditProperty { vm_name, property, input } => self.edit_action(
                action,
                vm_name,
                property,
                input,
            ),
            Modal::Closed => self.main_action(action),
        }
    }
}

} // verus!
