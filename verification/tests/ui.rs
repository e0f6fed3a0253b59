use rport::ui::app::{Effect, RportApp, RuleEdit, UiEvent};
use rport::ui::client_manager::{task_status, ClientStatus, ManagedClient, TaskEvent};
use rport::ui::config::{ClientConfig, ForwardRule, UiConfig};
use rport::ui::format::{format_bytes, heading, list_label, parse_port, preview_token};
use rport::ui::log::{is_shown, LogStore, LogWriter, MAX_LOG_LINES};

fn reference_format(bytes: u64) -> String {
    let units = ["B", "KB", "MB", "GB", "TB"];
    if bytes == 0 {
        return "0 B".to_string();
    }
    let mut size = bytes as f64;
    let mut k = 0;
    while size >= 1024.0 && k < 4 {
        size /= 1024.0;
        k += 1;
    }
    if k == 0 {
        format!("{} {}", bytes, units[k])
    } else {
        format!("{:.1} {}", size, units[k])
    }
}

#[test]
fn bytes_are_written_as_floats_are() {
    let mut samples: Vec<u64> = vec![0, 1, 1023, 1024, 1025, 1075, 1076, 1126, 1127, u64::MAX];
    for shift in 0..64u32 {
        let p = 1u64 << shift;
        for d in [0u64, 1, 2, 3, 51, 52, 256, 512, 768, 1023, 1024, 1025] {
            samples.push(p.wrapping_add(d));
            samples.push(p.wrapping_sub(d));
            samples.push(p.wrapping_mul(3).wrapping_add(d));
            // Halfway between two tenths.
            samples.push(p / 4 * 5 + d);
            samples.push(p / 20 * 21 + d);
            samples.push(p / 4 * 7 + d);
        }
    }
    let mut x: u64 = 88172645463325252;
    for i in 0..20000u64 {
        x ^= x << 13;
        x ^= x >> 7;
        x ^= x << 17;
        samples.push(x >> (i % 60));
    }
    for n in samples {
        assert_eq!(format_bytes(n), reference_format(n), "{}", n);
    }
}

#[test]
fn bytes_in_units() {
    assert_eq!(format_bytes(0), "0 B");
    assert_eq!(format_bytes(1023), "1023 B");
    assert_eq!(format_bytes(1024), "1.0 KB");
    assert_eq!(format_bytes(1536), "1.5 KB");
    assert_eq!(format_bytes(1280), "1.2 KB");
    assert_eq!(format_bytes(1792), "1.8 KB");
    assert_eq!(format_bytes(1048575), "1024.0 KB");
    assert_eq!(format_bytes(1048576), "1.0 MB");
    assert_eq!(format_bytes(1 << 30), "1.0 GB");
    assert_eq!(format_bytes(1 << 40), "1.0 TB");
    assert_eq!(format_bytes(u64::MAX), "16777216.0 TB");
}

#[test]
fn ports_that_are_typed() {
    assert_eq!(parse_port("80", 1), 80);
    assert_eq!(parse_port("x", 1), 1);
    assert_eq!(parse_port("", 1), 1);
    assert_eq!(parse_port("65536", 1), 1);
}

#[test]
fn previews_and_labels() {
    assert_eq!(preview_token("12345678"), "12345678");
    assert_eq!(preview_token("123456789"), "12345678...");
    assert_eq!(preview_token("ääääx"), "ääää...");
    assert_eq!(preview_token(""), "");
    assert_eq!(list_label("", 3), "<unnamed-3>");
    assert_eq!(list_label("n", 3), "n");
    assert_eq!(heading(""), "<unnamed>");
    assert_eq!(heading("n"), "n");
}

#[test]
fn lines_are_kept_as_they_are_finished() {
    let mut store = LogStore::new();
    let mut w = LogWriter::new();
    assert_eq!(w.write(&mut store, b"one\ntw"), 6);
    assert_eq!(store.entries.len(), 1);
    assert_eq!(store.entries[0], "one");
    w.flush();
    assert_eq!(w.write(&mut store, b"o\n\n\nthree\n"), 10);
    assert_eq!(store.shown(""), vec!["one", "two", "three"]);
    store.clear();
    assert!(store.entries.is_empty());
}

#[test]
fn text_is_kept_as_it_is() {
    for text in ["a", "Grüße, 世界", "tab\there", "\u{10ffff}\r"] {
        let mut store = LogStore::new();
        let _ = LogWriter::new().write(&mut store, format!("{}\n", text).as_bytes());
        assert_eq!(store.shown(""), vec![text]);
    }
}

#[test]
fn bytes_that_are_no_text_are_replaced() {
    let mut store = LogStore::new();
    let mut w = LogWriter::new();
    let _ = w.write(&mut store, b"a\xffb\n");
    assert_eq!(store.entries[0], "a\u{fffd}b");
}

#[test]
fn an_unfinished_line_outlives_clearing() {
    for (before, line) in [(&b"u"[..], "ux"), (b"a\xff", "a\u{fffd}x"), (b"\xff", "\u{fffd}x"), (b"", "x")] {
        let mut store = LogStore::new();
        let mut w = LogWriter::new();
        let _ = w.write(&mut store, b"old\n");
        let _ = w.write(&mut store, before);
        store.clear();
        assert!(store.entries.is_empty());
        let _ = w.write(&mut store, b"x\n");
        assert_eq!(store.shown(""), vec![line]);
    }
}

#[test]
fn pieces_do_not_matter() {
    let text = b"alpha\nbeta\n\ngamma\ndelta";
    let mut whole = LogStore::new();
    let _ = LogWriter::new().write(&mut whole, text);
    for size in 1..text.len() {
        let mut store = LogStore::new();
        let mut w = LogWriter::new();
        for c in text.chunks(size) {
            assert_eq!(w.write(&mut store, c), c.len());
        }
        assert_eq!(store.entries, whole.entries);
    }
    assert_eq!(whole.entries.len(), 3);
}

#[test]
fn only_the_newest_lines_are_kept() {
    let mut store = LogStore::new();
    let mut w = LogWriter::new();
    for i in 0..MAX_LOG_LINES + 7 {
        let _ = w.write(&mut store, format!("{}\n", i).as_bytes());
    }
    assert_eq!(store.entries.len(), MAX_LOG_LINES);
    assert_eq!(store.entries[0], "7");
    assert_eq!(store.entries[MAX_LOG_LINES - 1], (MAX_LOG_LINES + 6).to_string());
}

#[test]
fn the_filter_does_not_mind_case() {
    let mut store = LogStore::new();
    store.push("An ERROR here".to_string());
    store.push("all fine".to_string());
    store.push("ÄRGER".to_string());
    assert_eq!(store.shown("error"), vec!["An ERROR here"]);
    assert_eq!(store.shown("FINE"), vec!["all fine"]);
    assert_eq!(store.shown("ärg"), vec!["ÄRGER"]);
    assert_eq!(store.shown("").len(), 3);
    assert_eq!(store.shown("nothing").len(), 0);
}

#[test]
fn a_filter_is_found_anywhere() {
    for line in ["", "a", "ab", "abc", "bca", "ccc", "cabc"] {
        for filter in ["", "a", "bc", "abc", "cc", "abcd"] {
            assert_eq!(is_shown(line, filter), filter.is_empty() || line.contains(filter));
        }
    }
}

fn named(name: &str, forwards: Vec<ForwardRule>) -> ClientConfig {
    ClientConfig {
        id: "i".to_string(),
        name: name.to_string(),
        server_addr: "srv".to_string(),
        token: "tok".to_string(),
        agent_id: "agent".to_string(),
        forwards,
    }
}

fn app(n: usize) -> RportApp {
    let mut clients = Vec::new();
    for i in 0..n {
        clients.push(named(&format!("c{}", i), vec![ForwardRule::default()]));
    }
    RportApp::new(UiConfig { clients })
}

fn status(a: &RportApp) -> String {
    a.status_message.clone().unwrap_or_default()
}

#[test]
fn defaults_of_the_configuration() {
    let r = ForwardRule::default();
    assert_eq!(
        (r.local_port, r.remote_host.as_str(), r.remote_port, r.enabled),
        (8080, "127.0.0.1", 80, true)
    );
    let c = ClientConfig::default();
    assert_eq!(c.name, "");
    assert_eq!(c.forwards.len(), 0);
    assert!(UiConfig::default().clients.is_empty());
    assert!(UiConfig::load(None).clients.is_empty());
    let one = UiConfig { clients: vec![named("x", vec![])] };
    assert_eq!(UiConfig::load(Some(one)).clients[0].name, "x");
}

#[test]
fn the_window_as_it_opens() {
    let a = app(2);
    assert_eq!(a.selected_idx, Some(0));
    assert!(a.show_logs);
    assert_eq!(a.summary(), "2 clients, 0 running");
    assert_eq!(a.dialog_title(), None);
    assert_eq!(a.log_button(), "Hide Log");
    let none = app(0);
    assert_eq!(none.selected_idx, None);
}

#[test]
fn clients_are_started_and_stopped() {
    let mut a = app(2);
    assert_eq!(a.update(UiEvent::StartClient(1)), vec![Effect::Launch(1)]);
    assert_eq!(status(&a), "Starting client 'c1'...");
    assert!(a.clients[1].is_running());
    assert_eq!(a.summary(), "2 clients, 1 running");
    assert_eq!(a.update(UiEvent::StartClient(1)), vec![]);
    assert_eq!(a.update(UiEvent::StartClient(9)), vec![]);
    assert_eq!(a.update(UiEvent::StopClient(1)), vec![Effect::Halt(1)]);
    assert_eq!(status(&a), "Stopped client 'c1'");
    assert!(!a.clients[1].is_running());
    assert_eq!(a.update(UiEvent::StopClient(1)), vec![Effect::Halt(1)]);
    assert_eq!(a.update(UiEvent::StopClient(9)), vec![]);
}

#[test]
fn a_client_is_added() {
    let mut a = app(1);
    let _ = a.update(UiEvent::OpenAddDialog);
    assert_eq!(a.dialog_title(), Some("Add Client"));
    let _ = a.update(UiEvent::DialogName("new".to_string()));
    let _ = a.update(UiEvent::DialogServer("s".to_string()));
    let _ = a.update(UiEvent::DialogToken("t".to_string()));
    let _ = a.update(UiEvent::DialogAgent("g".to_string()));
    let _ = a.update(UiEvent::DialogAddForward);
    let _ = a.update(UiEvent::DialogForward {
        index: 0,
        edit: RuleEdit::LocalPort("9000".to_string()),
    });
    let _ = a.update(UiEvent::DialogForward {
        index: 0,
        edit: RuleEdit::RemotePort("bad".to_string()),
    });
    let _ = a.update(UiEvent::DialogForward {
        index: 0,
        edit: RuleEdit::Host("h".to_string()),
    });
    let _ = a.update(UiEvent::DialogForward { index: 0, edit: RuleEdit::Enabled(false) });
    assert_eq!(
        a.update_as(UiEvent::SaveDialog, "fresh".to_string()),
        vec![Effect::Save]
    );
    assert_eq!(status(&a), "Added client 'new'");
    assert_eq!(a.selected_idx, Some(1));
    assert_eq!(a.dialog_title(), None);
    let c = &a.clients[1].config;
    assert_eq!(
        (c.id.as_str(), c.server_addr.as_str(), c.token.as_str(), c.agent_id.as_str()),
        ("fresh", "s", "t", "g")
    );
    let f = &c.forwards[0];
    assert_eq!(
        (f.local_port, f.remote_host.as_str(), f.remote_port, f.enabled),
        (9000, "h", 80, false)
    );
    assert_eq!(a.config.clients.len(), 2);
    assert_eq!(a.edit_config.name, "");
}

#[test]
fn an_added_client_gets_a_random_id() {
    let mut a = app(0);
    let _ = a.update(UiEvent::OpenAddDialog);
    let _ = a.update(UiEvent::SaveDialog);
    assert_eq!(a.clients[0].config.id.len(), 36);
}

#[test]
fn a_client_is_edited() {
    let mut a = app(2);
    let _ = a.update(UiEvent::StartClient(1));
    let _ = a.update(UiEvent::EditClient(1));
    assert_eq!(a.dialog_title(), Some("Edit Client"));
    assert_eq!(a.edit_config.name, "c1");
    let _ = a.update(UiEvent::DialogName("other".to_string()));
    assert_eq!(
        a.update(UiEvent::SaveDialog),
        vec![Effect::Halt(1), Effect::Save]
    );
    assert_eq!(status(&a), "Updated client 'other'");
    assert_eq!(a.clients[1].config.name, "other");
    assert_eq!(a.config.clients[1].name, "other");
    assert!(!a.clients[1].is_running());
    assert_eq!(a.edit_idx, None);
    let _ = a.update(UiEvent::EditClient(0));
    assert_eq!(a.update(UiEvent::CancelDialog), vec![]);
    assert_eq!(a.dialog_title(), None);
    assert_eq!(a.update(UiEvent::SaveDialog), vec![]);
}

#[test]
fn a_client_is_deleted() {
    let mut a = app(3);
    let _ = a.update(UiEvent::StartClient(2));
    let _ = a.update(UiEvent::AskDeleteClient(2));
    assert_eq!(a.take_delete_client(), Some(2));
    assert_eq!(a.take_delete_client(), None);
    assert_eq!(
        a.update(UiEvent::DeleteClient(2)),
        vec![Effect::Halt(2), Effect::Forget(2), Effect::Save]
    );
    assert_eq!(status(&a), "Deleted client 'c2'");
    assert_eq!(a.selected_idx, Some(1));
    assert_eq!(
        a.update(UiEvent::DeleteClient(0)),
        vec![Effect::Forget(0), Effect::Save]
    );
    assert_eq!(a.selected_idx, Some(0));
    assert_eq!(a.clients[0].config.name, "c1");
    let _ = a.update(UiEvent::DeleteClient(0));
    assert_eq!(a.selected_idx, None);
    assert!(a.config.clients.is_empty());
    let _ = a.update(UiEvent::AskDeleteClient(0));
    assert_eq!(a.take_delete_client(), None);
}

#[test]
fn forwards_are_edited_in_place() {
    let mut a = app(1);
    let edit = |e: RuleEdit| UiEvent::EditForward { index: 0, edit: e };
    assert_eq!(a.update(edit(RuleEdit::LocalPort("8080".to_string()))), vec![]);
    assert_eq!(a.update(edit(RuleEdit::LocalPort("x".to_string()))), vec![]);
    assert_eq!(
        a.update(edit(RuleEdit::LocalPort("1".to_string()))),
        vec![Effect::Save]
    );
    assert_eq!(
        a.update(edit(RuleEdit::RemotePort("2".to_string()))),
        vec![Effect::Save]
    );
    assert_eq!(
        a.update(edit(RuleEdit::Host("h".to_string()))),
        vec![Effect::Save]
    );
    assert_eq!(a.update(edit(RuleEdit::Enabled(false))), vec![Effect::Save]);
    let f = &a.config.clients[0].forwards[0];
    assert_eq!(
        (f.local_port, f.remote_host.as_str(), f.remote_port, f.enabled),
        (1, "h", 2, false)
    );
}

#[test]
fn a_forward_is_added_and_deleted() {
    let mut a = app(1);
    let _ = a.update(UiEvent::StartClient(0));
    let _ = a.update(UiEvent::OpenAddForward);
    assert!(a.show_add_forward);
    let _ = a.update(UiEvent::NewForward(RuleEdit::LocalPort("7".to_string())));
    assert_eq!(
        a.update(UiEvent::AddForward),
        vec![Effect::Halt(0), Effect::Save, Effect::Launch(0)]
    );
    assert_eq!(status(&a), "Added forward rule to 'c0'");
    assert!(!a.show_add_forward);
    assert!(a.clients[0].is_running());
    assert_eq!(a.clients[0].config.forwards.len(), 2);
    assert_eq!(a.config.clients[0].forwards[1].local_port, 7);
    let _ = a.update(UiEvent::AskDeleteForward(0));
    assert_eq!(a.take_delete_forward(), Some((0, 0)));
    assert_eq!(a.take_delete_forward(), None);
    assert_eq!(
        a.update(UiEvent::DeleteForward(0, 0)),
        vec![Effect::Halt(0), Effect::Launch(0), Effect::Save]
    );
    assert!(a.clients[0].is_running());
    assert_eq!(a.config.clients[0].forwards.len(), 1);
    assert_eq!(a.config.clients[0].forwards[0].local_port, 7);
    let _ = a.update(UiEvent::StopClient(0));
    assert_eq!(a.update(UiEvent::DeleteForward(0, 0)), vec![Effect::Save]);
    let _ = a.update(UiEvent::OpenAddForward);
    assert_eq!(a.update(UiEvent::CancelAddForward), vec![]);
    let mut none = app(0);
    assert_eq!(none.update(UiEvent::AddForward), vec![]);
}

#[test]
fn the_log_panel() {
    let mut a = app(0);
    assert_eq!(a.update(UiEvent::ClearLogs), vec![Effect::ClearLogs]);
    let _ = a.update(UiEvent::SetLogFilter("f".to_string()));
    assert_eq!(a.log_filter, "f");
    let _ = a.update(UiEvent::HideLogs);
    assert_eq!(a.log_button(), "Log");
    let _ = a.update(UiEvent::ToggleLogs);
    assert_eq!(a.log_button(), "Hide Log");
    let mut b = app(2);
    let _ = b.update(UiEvent::Select(1));
    assert_eq!(b.selected_idx, Some(1));
}

#[test]
fn statuses_of_clients() {
    let mut a = app(1);
    let _ = a.update(UiEvent::StatusChanged(0, ClientStatus::Connected));
    assert!(a.clients[0].is_running());
    let _ = a.update(UiEvent::StatusChanged(0, ClientStatus::Failed("x".to_string())));
    assert!(!a.clients[0].is_running());
    assert_eq!(a.clients[0].status.text(), "Failed: x");
    assert_eq!(a.clients[0].status.clone().icon(), "✕");
    assert_eq!(ClientStatus::Connected.text(), "Connected");
    assert_eq!(ClientStatus::Connecting.text(), "Connecting...");
    assert_eq!(ClientStatus::Disconnected.text(), "Disconnected");
    assert_eq!(ClientStatus::Connected.icon(), "●");
    assert_eq!(ClientStatus::Connecting.icon(), "◌");
    assert_eq!(ClientStatus::Disconnected.icon(), "○");
}

#[test]
fn what_happens_to_a_client() {
    assert_eq!(
        task_status(TaskEvent::NothingToForward).text(),
        "Failed: No enabled forward rules"
    );
    assert_eq!(
        task_status(TaskEvent::BindFailed { local_port: 80, error: "in use".to_string() }).text(),
        "Failed: Cannot bind 127.0.0.1:80: in use"
    );
    assert_eq!(task_status(TaskEvent::Established).text(), "Connected");
    assert_eq!(task_status(TaskEvent::Cancelled).text(), "Disconnected");
}

#[test]
fn only_enabled_forwards_are_launched() {
    let rule = |port: u16, enabled: bool| ForwardRule {
        local_port: port,
        remote_host: format!("h{}", port),
        remote_port: port + 1,
        enabled,
    };
    match ManagedClient::launch(&named("n", vec![rule(1, true), rule(2, false), rule(3, true)])) {
        Ok((client, forwards)) => {
            assert_eq!(client.server_url(), "srv");
            assert!(!client.waits_for_candidates());
            assert_eq!(forwards.len(), 2);
            assert_eq!(forwards[0].local_port, Some(1));
            assert_eq!(forwards[1].host, "h3");
            assert_eq!(forwards[1].port, 4);
        }
        Err(e) => panic!("Expected a launch, got {:?}", e),
    }
    assert!(matches!(
        ManagedClient::launch(&named("n", vec![rule(2, false)])),
        Err(TaskEvent::NothingToForward)
    ));
}

#[test]
fn starting_twice_launches_once() {
    let mut c = ManagedClient::new(named("n", vec![]));
    assert!(!c.is_running());
    assert!(c.start());
    assert!(!c.start());
    c.stop();
    assert!(c.start());
}
