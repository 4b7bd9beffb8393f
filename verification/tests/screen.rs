use std::sync::Arc;

use qubes_tui::action::Action;
use qubes_tui::admin::client::CallOutput;
use qubes_tui::admin::stats::{parse_stats_socket, stats_reply};
use qubes_tui::admin::types::{QubeClass, QubeInfo, QubeState};
use qubes_tui::admin::{AdminClient, AdminError, QubeProperties};
use qubes_tui::app::{ActiveView, App, MessageLevel, Modal};
use qubes_tui::detail::{detail_rows_of, editable_pairs};
use qubes_tui::layout::{centered_rect, centered_rect_abs, compute, Area};
use qubes_tui::view::{
    confirm_message, label_color, level_color, pending_text, picker_height, spinner_char,
    state_color, tab_of, table_title, tabs, Shade, Tab,
};

fn work() -> QubeInfo {
    QubeInfo {
        name: "work".into(),
        class: QubeClass::AppVM,
        state: QubeState::Running,
        label: "blue".into(),
        template: Some("fedora-41".into()),
        netvm: None,
    }
}

fn row(rows: &[qubes_tui::detail::DetailRow], i: usize) -> (&str, &str, &str, bool) {
    (rows[i].key.as_str(), rows[i].label.as_str(), rows[i].value.as_str(), rows[i].editable)
}

// ── Detail rows ───────────────────────────────────────────────────────────────

#[test]
fn detail_rows_without_properties() {
    let rows = detail_rows_of(&work(), None);
    assert_eq!(rows.len(), 5);
    assert_eq!(row(&rows, 0), ("", "Class", "AppVM", false));
    assert_eq!(row(&rows, 1), ("", "State", "RUN", false));
    assert_eq!(row(&rows, 2), ("label", "Label", "blue", true));
    assert_eq!(row(&rows, 3), ("template", "Template", "fedora-41", true));
    assert_eq!(row(&rows, 4), ("netvm", "NetVM", "-", true));
}

#[test]
fn detail_rows_with_properties() {
    let mut p = QubeProperties::default();
    p.memory = Some(400);
    p.vcpus = Some(2);
    p.autostart = Some(false);
    p.kernel = Some("6.1".into());
    p.raw.insert("memory".into(), "400".into());
    p.raw.insert("zeta".into(), "z".into());
    p.raw.insert("alpha".into(), "a".into());
    p.raw.insert("kernel".into(), "6.1".into());
    let rows = detail_rows_of(&work(), Some(&p));
    assert_eq!(rows.len(), 11);
    assert_eq!(row(&rows, 5), ("memory", "Memory (MiB)", "400", true));
    assert_eq!(row(&rows, 6), ("vcpus", "vCPUs", "2", true));
    assert_eq!(row(&rows, 7), ("autostart", "Autostart", "false", true));
    assert_eq!(row(&rows, 8), ("kernel", "Kernel", "6.1", true));
    assert_eq!(row(&rows, 9), ("alpha", "alpha", "a", true));
    assert_eq!(row(&rows, 10), ("zeta", "zeta", "z", true));
    let pairs = editable_pairs(&rows);
    assert_eq!(pairs.len(), 9);
    assert_eq!(pairs[0], ("label".to_string(), "Label".to_string()));
}

#[test]
fn detail_rows_clamp_the_highlight() {
    let mut app = App::new(Arc::new(AdminClient::new(false)));
    app.detail_row = 7;
    let rows = detail_rows_of(&work(), None);
    app.set_detail_rows(&rows);
    assert_eq!(app.detail_rows.len(), 3);
    assert_eq!(app.detail_row, 2);
    assert_eq!(app.detail_rows[1].0, "template");
}

#[test]
fn step_fits_guards_op_ids() {
    let mut app = App::new(Arc::new(AdminClient::new(false)));
    app.next_op_id = u64::MAX;
    assert!(!app.step_fits(&Action::StartSelected));
    assert!(app.step_fits(&Action::MoveDown));
    app.modal = Modal::ConfirmKill { vm_name: "x".into() };
    assert!(!app.step_fits(&Action::Confirm));
    assert!(app.step_fits(&Action::Cancel));
    app.modal = Modal::ChangeNetvm { vm_name: "x".into(), candidates: vec!["None".into()], selected: 3 };
    assert!(!app.step_fits(&Action::Confirm));
    assert!(!app.step_fits(&Action::EditSubmit));
    assert!(app.step_fits(&Action::MoveUp));
    app.modal = Modal::ChangeNetvm { vm_name: "x".into(), candidates: vec!["None".into()], selected: usize::MAX };
    assert!(!app.step_fits(&Action::MoveDown));
}

// ── What the screen shows ─────────────────────────────────────────────────────

#[test]
fn colours_and_titles() {
    assert_eq!(label_color("orange"), Shade::Orange);
    assert_eq!(label_color("grey"), Shade::DarkGray);
    assert_eq!(label_color("black"), Shade::DarkGray);
    assert_eq!(label_color("purple"), Shade::Magenta);
    assert_eq!(label_color("pink"), Shade::Cyan);
    assert_eq!(state_color(&QubeState::Paused), Some(Shade::Yellow));
    assert_eq!(state_color(&QubeState::Unknown("x".into())), None);
    assert_eq!(level_color(MessageLevel::Error), Shade::Red);
    assert_eq!(table_title(tab_of(ActiveView::WhonixManager)), " Whonix ");
    assert_eq!(table_title(Tab::Disposables), " Disposables ");
    let t = tabs();
    assert_eq!(t.len(), 6);
    assert_eq!(t[1], (Tab::Services, "[2] Services"));
    assert_eq!(t[4], (Tab::Disposables, "[5] Disposables"));
    assert_eq!(t[5], (Tab::All, "[6] All"));
    assert_eq!(tab_of(ActiveView::QubeManager), Tab::Qubes);
}

#[test]
fn messages_and_counts() {
    let m = confirm_message(&Modal::ConfirmDelete { vm_name: "old".into() });
    assert_eq!(m.as_deref(), Some("Delete 'old'? This cannot be undone. [y/N]"));
    let m = confirm_message(&Modal::ConfirmKill { vm_name: "vm".into() });
    assert_eq!(m.as_deref(), Some("Force-kill 'vm'? [y/N]"));
    assert!(confirm_message(&Modal::Help).is_none());
    assert_eq!(pending_text(0), "");
    assert_eq!(pending_text(12), " ops: 12 pending");
    assert_eq!(spinner_char(0), '⠋');
    assert_eq!(spinner_char(260), '⠙');
    assert_eq!(spinner_char(999), '⠸');
}

#[test]
fn popup_placement() {
    let screen = Area { x: 0, y: 0, width: 100, height: 40 };
    assert_eq!(
        centered_rect_abs(50, 10, screen),
        Area { x: 25, y: 15, width: 50, height: 10 }
    );
    assert_eq!(
        centered_rect_abs(200, 100, screen),
        Area { x: 0, y: 0, width: 100, height: 40 }
    );
    assert_eq!(picker_height(3, 40), 9);
    assert_eq!(picker_height(50, 40), 36);
    assert_eq!(picker_height(3, 2), 0);
    let mid = centered_rect(50, 50, screen);
    assert_eq!(mid, Area { x: 25, y: 10, width: 50, height: 20 });
}

#[test]
fn screen_rows() {
    let a = compute(Area { x: 0, y: 0, width: 80, height: 24 });
    assert_eq!(a.tab_bar, Area { x: 0, y: 0, width: 80, height: 1 });
    assert_eq!(a.main_table, Area { x: 0, y: 1, width: 80, height: 21 });
    assert_eq!(a.key_hints, Area { x: 0, y: 22, width: 80, height: 1 });
    assert_eq!(a.status_bar, Area { x: 0, y: 23, width: 80, height: 1 });
}

// ── Resource use ──────────────────────────────────────────────────────────────

#[test]
fn stats_socket_pairs() {
    let data = b"work\0cpu_usage=125 mem_used=2097152\0\0ignored\0sys-net\0mem_used=x\0odd";
    let es = parse_stats_socket(data);
    assert_eq!(es.len(), 2);
    assert_eq!(es[0].name, "work");
    assert_eq!(es[0].cpu_usage.as_deref(), Some("125"));
    assert_eq!(es[0].mem_kb, 2048);
    assert_eq!(es[1].name, "sys-net");
    assert!(es[1].cpu_usage.is_none());
    assert_eq!(es[1].mem_kb, 0);
}

#[test]
fn stats_from_xl_list() {
    let out = CallOutput::Command {
        program: "xl".into(),
        success: true,
        status: "exit status: 0".into(),
        stdout: b"Name ID Mem VCPUs State Time(s)\nDomain-0 0 4096 4 r----- 100.0\nshort 1 2\nwork 3 400 2 -b---- 5.5\n".to_vec(),
        stderr: vec![],
    };
    let es = stats_reply(&out).unwrap();
    assert_eq!(es.len(), 2);
    assert_eq!(es[0].name, "Domain-0");
    assert_eq!(es[0].mem_kb, 4096 * 1024);
    assert_eq!(es[1].name, "work");
    assert_eq!(es[1].mem_kb, 400 * 1024);
    assert!(es[1].cpu_usage.is_none());
    let sock = stats_reply(&CallOutput::Socket(b"\x30\x00a\0cpu_usage=5\0".to_vec())).unwrap();
    assert_eq!(sock[0].cpu_usage.as_deref(), Some("5"));
    assert!(matches!(stats_reply(&CallOutput::Socket(vec![])), Err(AdminError::ConnectionLost)));
}

#[test]
fn padding_is_what_is_left() {
    assert_eq!(qubes_tui::view::pad_width(80, 30), 50);
    assert_eq!(qubes_tui::view::pad_width(10, 30), 0);
}
