use std::sync::Arc;

use qubes_tui::action::{Action, OpKind, SideEffect};
use qubes_tui::admin::client::{
    list_qubes_reply, properties_reply, socket_reply, unit_reply, AdminCall, CallOutput,
    SOCKET_PATH,
};
use qubes_tui::admin::protocol::parse_vm_list;
use qubes_tui::admin::types::{QubeClass, QubeInfo, QubeState};
use qubes_tui::admin::{AdminClient, AdminError, AdminEvent, QubeProperties};
use qubes_tui::app::{ActiveView, App, MessageLevel, Modal};
use qubes_tui::outcome::{
    list_outcome, op_id_of, op_outcome, properties_outcome, set_failure, terminal_call, NO_OP,
};
use qubes_tui::textmap::TextMap;

fn fresh() -> App {
    App::new(Arc::new(AdminClient::new(false)))
}

fn vm(name: &str, class: QubeClass, state: QubeState, netvm: Option<&str>) -> QubeInfo {
    QubeInfo {
        name: name.into(),
        class,
        state,
        label: "red".into(),
        template: None,
        netvm: netvm.map(|s| s.to_string()),
    }
}

fn loaded(qubes: Vec<QubeInfo>) -> App {
    let mut app = fresh();
    app.update(Action::QubeListLoaded(qubes));
    app
}

fn shown(app: &App) -> Vec<String> {
    app.filtered_indices.iter().map(|&i| app.qubes[i].name.clone()).collect()
}

fn tab(qubes: Vec<QubeInfo>, switch: Action) -> Vec<String> {
    let mut app = loaded(qubes);
    app.update(switch);
    shown(&app)
}

// ── Tabs ──────────────────────────────────────────────────────────────────────

#[test]
fn qube_tab_holds_what_no_other_tab_holds() {
    let all = vec![
        vm("personal", QubeClass::AppVM, QubeState::Halted, None),
        vm("sys-net", QubeClass::AppVM, QubeState::Running, None),
        vm("dom0", QubeClass::AdminVM, QubeState::Running, None),
        vm("fedora-41", QubeClass::TemplateVM, QubeState::Halted, None),
        vm("anon-WHONIX", QubeClass::AppVM, QubeState::Halted, None),
        vm("disp9", QubeClass::DispVM, QubeState::Running, None),
    ];
    let q = tab(all.clone(), Action::SwitchToQubeManager);
    let s = tab(all.clone(), Action::SwitchToServiceManager);
    let t = tab(all.clone(), Action::SwitchToTemplateManager);
    let w = tab(all.clone(), Action::SwitchToWhonixManager);
    assert_eq!(q, vec!["personal", "disp9"]);
    for x in &all {
        let in_other = s.contains(&x.name) || t.contains(&x.name) || w.contains(&x.name);
        assert_eq!(q.contains(&x.name), !in_other, "{}", x.name);
    }
    assert_eq!(w, vec!["anon-WHONIX"]);
}

#[test]
fn list_reload_clamps_selection() {
    let mut app = loaded(vec![
        vm("a", QubeClass::AppVM, QubeState::Halted, None),
        vm("b", QubeClass::AppVM, QubeState::Halted, None),
        vm("c", QubeClass::AppVM, QubeState::Halted, None),
    ]);
    app.update(Action::MoveBottom);
    assert_eq!(app.selected_index, 2);
    app.update(Action::QubeListLoaded(vec![vm("a", QubeClass::AppVM, QubeState::Halted, None)]));
    assert_eq!(app.selected_index, 0);
    app.update(Action::MoveUp);
    assert_eq!(app.selected_index, 0);
}

// ── Operations ────────────────────────────────────────────────────────────────

#[test]
fn delete_waits_for_confirmation() {
    let mut app = loaded(vec![vm("work", QubeClass::AppVM, QubeState::Halted, None)]);
    let effects = app.update(Action::DeleteSelected);
    assert!(effects.is_empty());
    assert_eq!(app.modal, Modal::ConfirmDelete { vm_name: "work".into() });
    // Other keys leave the popup open and do nothing.
    assert!(app.update(Action::StartSelected).is_empty());
    assert_eq!(app.modal, Modal::ConfirmDelete { vm_name: "work".into() });
    let effects = app.update(Action::Confirm);
    assert!(matches!(effects.as_slice(), [SideEffect::DeleteVm(n)] if n == "work"));
    assert_eq!(app.modal, Modal::Closed);
    assert_eq!(app.pending_ops.len(), 1);
    assert_eq!(app.pending_ops[0].op_id, 0);
    assert!(matches!(app.pending_ops[0].kind, OpKind::Delete));
}

#[test]
fn kill_cancelled_does_nothing() {
    let mut app = loaded(vec![vm("work", QubeClass::AppVM, QubeState::Running, None)]);
    app.update(Action::KillSelected);
    assert_eq!(app.modal, Modal::ConfirmKill { vm_name: "work".into() });
    assert!(app.update(Action::Cancel).is_empty());
    assert_eq!(app.modal, Modal::Closed);
    assert!(app.pending_ops.is_empty());
    assert_eq!(app.next_op_id, 0);
}

#[test]
fn delete_of_running_qube_warns() {
    let mut app = loaded(vec![vm("work", QubeClass::AppVM, QubeState::Running, None)]);
    assert!(app.update(Action::DeleteSelected).is_empty());
    assert_eq!(app.modal, Modal::Closed);
    let status = app.status.as_ref().unwrap();
    assert_eq!(status.text, "Shut down the qube before deleting");
    assert_eq!(status.level, MessageLevel::Warning);
}

#[test]
fn op_ids_are_distinct_and_grow() {
    let mut app = loaded(vec![
        vm("a", QubeClass::AppVM, QubeState::Halted, None),
        vm("b", QubeClass::AppVM, QubeState::Running, None),
    ]);
    let e1 = app.update(Action::StartSelected);
    assert!(matches!(e1.as_slice(), [SideEffect::StartVm(n)] if n == "a"));
    app.update(Action::MoveDown);
    let e2 = app.update(Action::ShutdownSelected);
    assert!(matches!(e2.as_slice(), [SideEffect::ShutdownVm(n)] if n == "b"));
    let e3 = app.update(Action::PauseSelected);
    assert!(matches!(e3.as_slice(), [SideEffect::PauseVm(n)] if n == "b"));
    let ids: Vec<u64> = app.pending_ops.iter().map(|o| o.op_id).collect();
    assert_eq!(ids, vec![0, 1, 2]);
    assert_eq!(app.next_op_id, 3);
}

#[test]
fn paused_qube_is_resumed_by_pause_key() {
    let mut app = loaded(vec![vm("a", QubeClass::AppVM, QubeState::Paused, None)]);
    let e = app.update(Action::PauseSelected);
    assert!(matches!(e.as_slice(), [SideEffect::StartVm(n)] if n == "a"));
    assert!(matches!(app.pending_ops[0].kind, OpKind::Start));
}

#[test]
fn completed_op_is_reported_and_list_refreshed() {
    let mut app = loaded(vec![vm("a", QubeClass::AppVM, QubeState::Halted, None)]);
    app.update(Action::StartSelected);
    let e = app.update(Action::OperationCompleted { op_id: 0 });
    assert!(matches!(e.as_slice(), [SideEffect::FetchQubeList]));
    assert!(app.pending_ops.is_empty());
    let status = app.status.as_ref().unwrap();
    assert_eq!(status.text, "a Start \u{2014} done");
    assert_eq!(status.level, MessageLevel::Success);
}

#[test]
fn failed_op_is_reported() {
    let mut app = loaded(vec![vm("a", QubeClass::AppVM, QubeState::Running, None)]);
    app.update(Action::ShutdownSelected);
    let e = app.update(Action::OperationFailed { op_id: 0, error: "boom".into() });
    assert!(e.is_empty());
    let status = app.status.as_ref().unwrap();
    assert_eq!(status.text, "a Shutdown failed: boom");
    assert_eq!(status.level, MessageLevel::Error);
    // A report for no pending operation changes nothing.
    let e = app.update(Action::OperationFailed { op_id: 7, error: "x".into() });
    assert!(e.is_empty());
    assert_eq!(app.status.as_ref().unwrap().text, "a Shutdown failed: boom");
}

#[test]
fn terminal_only_for_running_qube() {
    let mut app = loaded(vec![vm("a", QubeClass::AppVM, QubeState::Halted, None)]);
    assert!(app.update(Action::OpenTerminal).is_empty());
    let mut app = loaded(vec![vm("a", QubeClass::AppVM, QubeState::Running, None)]);
    let e = app.update(Action::OpenTerminal);
    assert!(matches!(e.as_slice(), [SideEffect::OpenTerminal(n)] if n == "a"));
}

#[test]
fn start_event_marks_qube_running() {
    let mut app = loaded(vec![vm("a", QubeClass::AppVM, QubeState::Halted, None)]);
    let mut properties = TextMap::new();
    properties.insert("x".to_string(), "y".to_string());
    app.update(Action::EventReceived(AdminEvent {
        subject: "a".into(),
        event_type: "domain-start".into(),
        properties,
    }));
    assert_eq!(app.qubes[0].state, QubeState::Running);
    app.update(Action::EventReceived(AdminEvent {
        subject: "a".into(),
        event_type: "domain-paused".into(),
        properties: TextMap::new(),
    }));
    assert_eq!(app.qubes[0].state, QubeState::Paused);
    app.update(Action::EventReceived(AdminEvent {
        subject: "a".into(),
        event_type: "something-else".into(),
        properties: TextMap::new(),
    }));
    assert_eq!(app.qubes[0].state, QubeState::Paused);
}

// ── Popups ────────────────────────────────────────────────────────────────────

#[test]
fn help_closes_and_quit_asks_to_quit() {
    let mut app = fresh();
    app.update(Action::ShowHelp);
    assert_eq!(app.modal, Modal::Help);
    app.update(Action::MoveDown);
    assert_eq!(app.modal, Modal::Help);
    app.update(Action::Quit);
    assert_eq!(app.modal, Modal::Closed);
    assert!(app.should_quit);
}

#[test]
fn netvm_picker_lists_none_then_sorted_providers() {
    let mut app = loaded(vec![
        vm("work", QubeClass::AppVM, QubeState::Halted, Some("sys-vpn")),
        vm("sys-vpn", QubeClass::AppVM, QubeState::Running, None),
        vm("sys-firewall", QubeClass::AppVM, QubeState::Running, None),
        vm("vault", QubeClass::AppVM, QubeState::Halted, None),
    ]);
    app.update(Action::ChangeNetvm);
    match &app.modal {
        Modal::ChangeNetvm { vm_name, candidates, selected } => {
            assert_eq!(vm_name, "work");
            assert_eq!(candidates, &vec!["None", "sys-firewall", "sys-vpn"]);
            assert_eq!(*selected, 2);
        }
        m => panic!("unexpected popup {m:?}"),
    }
    app.update(Action::MoveUp);
    let e = app.update(Action::Confirm);
    assert!(matches!(&e[0], SideEffect::SetProperty { vm, property, value }
        if vm == "work" && property == "netvm" && value == "sys-firewall"));
    assert!(matches!(&e[1], SideEffect::FetchProperties(n) if n == "work"));
    assert_eq!(app.modal, Modal::Closed);
    assert_eq!(app.qubes[0].netvm.as_deref(), Some("sys-firewall"));
}

#[test]
fn netvm_none_clears_netvm() {
    let mut app = loaded(vec![
        vm("work", QubeClass::AppVM, QubeState::Halted, Some("sys-net")),
        vm("sys-net", QubeClass::AppVM, QubeState::Running, None),
    ]);
    app.update(Action::ChangeNetvm);
    app.update(Action::MoveUp);
    app.update(Action::MoveUp);
    app.update(Action::EditSubmit);
    assert_eq!(app.qubes[0].netvm, None);
}

#[test]
fn edit_box_fills_types_and_submits() {
    let mut app = loaded(vec![vm("work", QubeClass::AppVM, QubeState::Halted, None)]);
    let mut props = QubeProperties::default();
    props.raw.insert("label".to_string(), "red".to_string());
    app.update(Action::PropertiesLoaded { name: "work".into(), props });
    let e = app.update(Action::ToggleDetail);
    assert!(e.is_empty());
    assert_eq!(app.modal, Modal::Detail);
    app.detail_rows = vec![("label".to_string(), "Label".to_string())];
    app.update(Action::EditProperty);
    assert_eq!(
        app.modal,
        Modal::EditProperty { vm_name: "work".into(), property: "label".into(), input: "red".into() }
    );
    app.update(Action::EditBackspace);
    app.update(Action::EditChar('x'));
    let e = app.update(Action::EditSubmit);
    assert!(matches!(&e[0], SideEffect::SetProperty { vm, property, value }
        if vm == "work" && property == "label" && value == "rex"));
    assert!(matches!(&e[1], SideEffect::FetchProperties(n) if n == "work"));
    assert_eq!(app.modal, Modal::Detail);
    assert!(!app.properties_cache.contains_key("work"));
    app.update(Action::Cancel);
    assert_eq!(app.modal, Modal::Closed);
}

#[test]
fn detail_rows_move_within_bounds() {
    let mut app = loaded(vec![vm("work", QubeClass::AppVM, QubeState::Halted, None)]);
    app.update(Action::ToggleDetail);
    app.detail_rows = vec![
        ("a".to_string(), "A".to_string()),
        ("b".to_string(), "B".to_string()),
    ];
    app.update(Action::MoveDown);
    app.update(Action::MoveDown);
    assert_eq!(app.detail_row, 1);
    app.update(Action::MoveUp);
    app.update(Action::MoveUp);
    assert_eq!(app.detail_row, 0);
    app.update(Action::ToggleDetail);
    assert_eq!(app.modal, Modal::Closed);
}

// ── Client calls and replies ──────────────────────────────────────────────────

#[test]
fn socket_client_frames_requests() {
    let c = AdminClient::new(true);
    match c.start("personal") {
        AdminCall::Socket { path, request } => {
            assert_eq!(path, SOCKET_PATH);
            assert_eq!(request, b"admin.vm.Start\0dom0\0personal\0");
        }
        other => panic!("unexpected call {other:?}"),
    }
    match c.set_property("personal", "label", "red") {
        AdminCall::Socket { request, .. } => {
            assert_eq!(request, b"admin.vm.property.Set\0dom0\0personal\0label\0red");
        }
        other => panic!("unexpected call {other:?}"),
    }
}

#[test]
fn cli_client_runs_tools() {
    let c = AdminClient::new(false);
    match c.remove("old") {
        AdminCall::Command { program, args } => {
            assert_eq!(program, "qvm-remove");
            assert_eq!(args, vec!["--force", "old"]);
        }
        other => panic!("unexpected call {other:?}"),
    }
    match c.list_qubes() {
        AdminCall::Command { program, args } => {
            assert_eq!(program, "qvm-ls");
            assert_eq!(args, vec!["--raw-data", "--fields", "name,class,state,label,template,netvm"]);
        }
        other => panic!("unexpected call {other:?}"),
    }
}

fn ran(success: bool, stdout: &[u8], stderr: &[u8]) -> CallOutput {
    CallOutput::Command {
        program: "qvm-start".into(),
        success,
        status: "exit status: 1".into(),
        stdout: stdout.to_vec(),
        stderr: stderr.to_vec(),
    }
}

#[test]
fn unit_replies() {
    assert!(unit_reply(&ran(true, b"", b"")).is_ok());
    match unit_reply(&ran(false, b"", b"")) {
        Err(AdminError::Protocol(m)) => assert_eq!(m, "qvm-start exited with status exit status: 1"),
        other => panic!("unexpected {other:?}"),
    }
    assert!(matches!(unit_reply(&CallOutput::Socket(vec![])), Err(AdminError::ConnectionLost)));
    assert!(unit_reply(&CallOutput::Socket(b"\x30\x00".to_vec())).is_ok());
    assert!(matches!(
        unit_reply(&CallOutput::Socket(b"\x32\x00E\x00\x00m".to_vec())),
        Err(AdminError::QubesDException { .. })
    ));
}

#[test]
fn qvm_ls_output_is_parsed() {
    let out = ran(true, b"dom0|AdminVM|Running|black|-|-\npersonal|AppVM|Halted|red|fedora-41|sys-firewall\n\nvault|AppVM|Halted|black||None\n", b"");
    let qs = list_qubes_reply(&out).unwrap();
    assert_eq!(qs.len(), 3);
    assert_eq!(qs[0].name, "dom0");
    assert_eq!(qs[0].class, QubeClass::AdminVM);
    assert!(qs[0].template.is_none() && qs[0].netvm.is_none());
    assert_eq!(qs[1].state, QubeState::Halted);
    assert_eq!(qs[1].template.as_deref(), Some("fedora-41"));
    assert_eq!(qs[1].netvm.as_deref(), Some("sys-firewall"));
    assert!(qs[2].template.is_none() && qs[2].netvm.is_none());
}

#[test]
fn failed_tool_reports_its_stderr() {
    match list_qubes_reply(&ran(false, b"", b"no such qube")) {
        Err(AdminError::Protocol(m)) => assert_eq!(m, "no such qube"),
        other => panic!("unexpected {other:?}"),
    }
    assert!(matches!(list_qubes_reply(&ran(true, b"\xff\xfe", b"")), Err(AdminError::Parse(_))));
}

#[test]
fn qvm_prefs_output_is_parsed() {
    let out = ran(true, b"# comment\nmemory     400\nautostart  True\nkernel   6.1  \n", b"");
    let p = properties_reply(&out).unwrap();
    assert_eq!(p.memory, Some(400));
    assert_eq!(p.autostart, Some(true));
    assert_eq!(p.kernel.as_deref(), Some("6.1"));
    assert_eq!(p.raw.get("memory").map(|s| s.as_str()), Some("400"));
    assert!(!p.raw.contains_key("#"));
}

#[test]
fn socket_reply_decodes() {
    assert!(matches!(socket_reply(b""), Err(AdminError::ConnectionLost)));
    let r = socket_reply(b"\x30\x00dom0 class=AdminVM state=Running label=black\n").unwrap();
    let qs = parse_vm_list(&r.data).unwrap();
    assert_eq!(qs[0].name, "dom0");
}

// ── Errors ────────────────────────────────────────────────────────────────────

#[test]
fn error_texts() {
    assert_eq!(AdminError::Protocol("x".into()).to_string(), "protocol error: x");
    assert_eq!(AdminError::Parse("y".into()).to_string(), "parse error: y");
    assert_eq!(AdminError::ConnectionLost.to_string(), "connection lost");
    assert_eq!(
        AdminError::QubesDException { exc_type: "E".into(), message: "m".into() }.to_string(),
        "qubesd exception (E): m"
    );
    let io = std::io::Error::new(std::io::ErrorKind::Other, "refused");
    assert_eq!(AdminError::Io(io).to_string(), "socket I/O error: refused");
}

#[test]
fn decode_error_texts() {
    match qubes_tui::admin::protocol::Response::decode(b"\x30") {
        Err(AdminError::Protocol(m)) => assert_eq!(m, "response too short (1 bytes)"),
        other => panic!("unexpected {other:?}"),
    }
    match qubes_tui::admin::protocol::Response::decode(b"\xab\x00") {
        Err(AdminError::Protocol(m)) => assert_eq!(m, "unknown response type byte 0xab"),
        other => panic!("unexpected {other:?}"),
    }
    match qubes_tui::admin::protocol::Response::decode(b"\x32\x00QubesException\x00trace\x00went wrong") {
        Err(AdminError::QubesDException { exc_type, message }) => {
            assert_eq!(exc_type, "QubesException");
            assert_eq!(message, "went wrong");
        }
        other => panic!("unexpected {other:?}"),
    }
}

#[test]
fn invalid_utf8_is_a_parse_error() {
    match parse_vm_list(b"\xc3\x28") {
        Err(AdminError::Parse(m)) => assert!(!m.is_empty()),
        other => panic!("unexpected {other:?}"),
    }
}

// ── Outcomes of background work ───────────────────────────────────────────────

#[test]
fn op_id_is_the_byte_sum() {
    assert_eq!(op_id_of(""), 0);
    assert_eq!(op_id_of("ab"), 97 + 98);
    assert_eq!(op_id_of("é"), 0xc3 + 0xa9);
}

#[test]
fn outcomes_report_back() {
    match list_outcome(Err(AdminError::ConnectionLost)) {
        Action::OperationFailed { op_id, error } => {
            assert_eq!(op_id, NO_OP);
            assert_eq!(error, "connection lost");
        }
        other => panic!("unexpected {other:?}"),
    }
    assert!(matches!(list_outcome(Ok(vec![])), Action::QubeListLoaded(v) if v.is_empty()));
    assert!(matches!(op_outcome(5, Ok(())), Action::OperationCompleted { op_id: 5 }));
    match op_outcome(5, Err(AdminError::Parse("p".into()))) {
        Action::OperationFailed { op_id, error } => {
            assert_eq!(op_id, 5);
            assert_eq!(error, "parse error: p");
        }
        other => panic!("unexpected {other:?}"),
    }
    match set_failure("label", &AdminError::Protocol("bad".into())) {
        Action::OperationFailed { op_id, error } => {
            assert_eq!(op_id, NO_OP);
            assert_eq!(error, "set label: protocol error: bad");
        }
        other => panic!("unexpected {other:?}"),
    }
    assert!(properties_outcome("a".into(), Err(AdminError::ConnectionLost)).is_none());
    assert!(matches!(
        properties_outcome("a".into(), Ok(QubeProperties::default())),
        Some(Action::PropertiesLoaded { name, .. }) if name == "a"
    ));
}

#[test]
fn terminal_call_runs_qvm_run() {
    match terminal_call("work") {
        AdminCall::Command { program, args } => {
            assert_eq!(program, "qvm-run");
            assert_eq!(args, vec!["--service", "--user=user", "work", "qubes.StartApp+qubes-run-terminal"]);
        }
        other => panic!("unexpected call {other:?}"),
    }
}

// ── TextMap ───────────────────────────────────────────────────────────────────

#[test]
fn text_map_reads_back_writes() {
    let mut m: TextMap<u32> = TextMap::new();
    assert!(m.is_empty());
    m.insert("a".into(), 1);
    m.insert("b".into(), 2);
    m.insert("a".into(), 3);
    assert_eq!(m.get("a"), Some(&3));
    assert_eq!(m.get("b"), Some(&2));
    assert_eq!(m.entries().len(), 2);
    m.remove("a");
    assert!(!m.contains_key("a"));
    assert_eq!(m.get("b"), Some(&2));
    assert_eq!(ActiveView::QubeManager, fresh().active_view);
}

#[test]
fn n_key_answers_no_to_confirmation() {
    let mut app = loaded(vec![vm("work", QubeClass::AppVM, QubeState::Halted, None)]);
    app.update(Action::DeleteSelected);
    assert!(app.update(Action::ChangeNetvm).is_empty());
    assert_eq!(app.modal, Modal::Closed);
    assert!(app.pending_ops.is_empty());
    assert!(!app.should_quit);
    let mut app = loaded(vec![vm("work", QubeClass::AppVM, QubeState::Running, None)]);
    app.update(Action::KillSelected);
    assert!(app.update(Action::ChangeNetvm).is_empty());
    assert_eq!(app.modal, Modal::Closed);
}

#[test]
fn enter_closes_detail_popup() {
    let mut app = loaded(vec![vm("work", QubeClass::AppVM, QubeState::Halted, None)]);
    app.update(Action::EditSubmit);
    assert_eq!(app.modal, Modal::Detail);
    assert!(app.update(Action::EditSubmit).is_empty());
    assert_eq!(app.modal, Modal::Closed);
}

#[test]
fn properties_arriving_in_detail_popup_are_cached() {
    let mut app = loaded(vec![vm("work", QubeClass::AppVM, QubeState::Halted, None)]);
    let e = app.update(Action::ToggleDetail);
    assert!(matches!(e.as_slice(), [SideEffect::FetchProperties(n)] if n == "work"));
    let mut props = QubeProperties::default();
    props.memory = Some(400);
    assert!(app.update(Action::PropertiesLoaded { name: "work".into(), props }).is_empty());
    assert_eq!(app.modal, Modal::Detail);
    assert_eq!(app.properties_cache.get("work").unwrap().memory, Some(400));
    app.update(Action::ShowHelp);
    app.update(Action::Cancel);
    app.update(Action::ShowHelp);
    assert_eq!(app.modal, Modal::Help);
    // Other popups ignore what arrives.
    app.update(Action::PropertiesLoaded { name: "other".into(), props: QubeProperties::default() });
    assert_eq!(app.modal, Modal::Help);
    assert!(!app.properties_cache.contains_key("other"));
    app.update(Action::Cancel);
    app.update(Action::PropertiesLoaded { name: "other".into(), props: QubeProperties::default() });
    assert!(app.properties_cache.contains_key("other"));
}

#[test]
fn confirm_popup_ignores_arriving_properties() {
    let mut app = loaded(vec![vm("work", QubeClass::AppVM, QubeState::Halted, None)]);
    app.update(Action::DeleteSelected);
    assert!(app.update(Action::PropertiesLoaded { name: "work".into(), props: QubeProperties::default() }).is_empty());
    assert_eq!(app.modal, Modal::ConfirmDelete { vm_name: "work".into() });
    assert!(!app.properties_cache.contains_key("work"));
}
