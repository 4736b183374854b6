use std::collections::HashMap;

use rmux_server::client_registry::{
    attached_status_interval, client_owns_cursor, requester_uid, status_refresh_frame,
    ActiveAttachIdentity, ActiveAttachState, ActiveControlState, RefreshDelivery, RefreshError,
};
use rmux_server::client_sort::{parse_session_sort_order, sort_list_clients, SessionSortOrder};
use rmux_server::client_target::attached_client_matches_target;
use rmux_server::client_terminal::{
    client_environment_infers_utf8, client_environment_is_windows_terminal,
    client_environment_source, effective_client_terminal_context, launched_as_hidden_daemon,
    push_unique_terminal_feature, update_environment_patterns, ClientEnvironment,
    ClientTerminalContext, EnvironmentSource,
};
use rmux_server::clients::{
    attached_client_name, client_flag, clipboard_query_sequence, command_output_from_lines,
    format_attached_client_flags, format_client_flags, format_client_uid, format_client_user,
    format_control_client_flags, format_requester_uid, list_clients_snapshot,
    normalize_target_client, parse_client_flags, switch_target_selector_count, ActiveAttach,
    ActiveControl, AttachedClient, ClientFlags, ClientTerminal, ControlClient, ControlClientFlags,
    DefaultKeyTable, ListClientSnapshot, SwitchClientExt3Request, UserIdentity,
};
use rmux_server::windows_client;

fn client_snapshot(name: &str, order: u64) -> ListClientSnapshot {
    ListClientSnapshot {
        name: name.to_owned(),
        pid: u32::try_from(order).unwrap_or(0),
        tty: String::new(),
        control: false,
        session_name: None,
        order,
        width: 80,
        height: 24,
        termname: String::new(),
        termtype: String::new(),
        termfeatures: String::new(),
        utf8: true,
        key_table: None,
        uid: 0,
        user: UserIdentity::Uid(0),
        flags: String::new(),
    }
}

fn environment(variables: &[(&str, &str)]) -> ClientEnvironment {
    let mut environment = ClientEnvironment::new();
    for (name, value) in variables {
        environment.set(name, value);
    }
    environment
}

fn names(clients: &[ListClientSnapshot]) -> Vec<&str> {
    clients.iter().map(|client| client.name.as_str()).collect()
}

fn active_attach(id: u64, session_name: &str) -> ActiveAttach {
    ActiveAttach {
        id,
        session_name: session_name.to_owned(),
        uid: 1000,
        user: UserIdentity::Uid(1000),
        suspended: false,
        closing: false,
        flags: ClientFlags::default(),
        width: 80,
        height: 24,
        terminal: ClientTerminal {
            term_name: "xterm".to_owned(),
            utf8: true,
            explicit_features: "sync".to_owned(),
        },
        key_table_name: None,
        prompt: None,
        has_overlay: false,
        has_mode_tree: false,
        has_display_panes: false,
    }
}

fn active_control(id: u64, session_name: Option<&str>) -> ActiveControl {
    ActiveControl {
        id,
        session_name: session_name.map(str::to_owned),
        uid: 7,
        user: UserIdentity::Uid(7),
        flags: ControlClientFlags {
            no_output: false,
            wait_exit: false,
            pause_after_millis: None,
        },
        terminal: ClientTerminal {
            term_name: "screen".to_owned(),
            utf8: true,
            explicit_features: "mouse".to_owned(),
        },
    }
}

#[test]
fn list_clients_bare_reverse_does_not_reverse_default_order() {
    let mut clients = vec![client_snapshot("beta", 2), client_snapshot("alpha", 1)];

    sort_list_clients(&mut clients, None, true);
    let names = clients
        .iter()
        .map(|client| client.name.as_str())
        .collect::<Vec<_>>();
    assert_eq!(names, vec!["alpha", "beta"]);

    sort_list_clients(&mut clients, Some("name"), true);
    let names = clients
        .iter()
        .map(|client| client.name.as_str())
        .collect::<Vec<_>>();
    assert_eq!(names, vec!["beta", "alpha"]);
}

#[test]
fn windows_terminal_environment_enables_synchronized_rendering() {
    let environment = environment(&[("WT_SESSION", "session-id")]);
    let context =
        effective_client_terminal_context(Some(&environment), &ClientTerminalContext::default());

    assert!(context.utf8);
    assert_eq!(
        context.terminal_features,
        vec!["sync", "bpaste", "mouse", "clipboard"]
    );
}

#[test]
fn windows_terminal_features_are_not_duplicated() {
    let environment = environment(&[("WT_SESSION", "session-id")]);
    let context = effective_client_terminal_context(
        Some(&environment),
        &ClientTerminalContext {
            terminal_features: vec!["SYNC".to_owned(), "BPASTE".to_owned(), "MOUSE".to_owned()],
            utf8: false,
        },
    );

    assert!(context.utf8);
    assert_eq!(
        context.terminal_features,
        vec!["SYNC", "BPASTE", "MOUSE", "clipboard"]
    );
}

#[test]
fn windows_vt_outer_without_windows_terminal_still_advertises_mouse_and_bpaste() {
    let environment = environment(&[("SYSTEMROOT", "C:\\Windows")]);
    let context = windows_client::effective_client_terminal_context(
        Some(&environment),
        &ClientTerminalContext::default(),
    );

    for feature in ["sync", "bpaste", "mouse", "clipboard"] {
        assert!(
            context.terminal_features.iter().any(|f| f == feature),
            "missing {feature} for non-WT Windows outer: {:?}",
            context.terminal_features
        );
    }
}

#[test]
fn windows_client_formats_do_not_expose_synthetic_uid_zero() {
    let sid = UserIdentity::Sid("S-1-5-21-1000".into());

    assert_eq!(windows_client::format_client_uid(0), "");
    assert_eq!(windows_client::format_requester_uid(0), "");
    assert_eq!(windows_client::format_client_user(0, &sid), "S-1-5-21-1000");
}

#[test]
fn unix_client_formats_preserve_uid_values() {
    assert_eq!(format_client_uid(1234), "1234");
    assert_eq!(format_requester_uid(1234), "1234");
    assert!(!format_client_user(1234, None).is_empty());
}

#[test]
fn users_are_named_or_numbered() {
    assert_eq!(format_client_user(0, Some("root")), "root");
    assert_eq!(format_client_user(1234, None), "1234");
    assert_eq!(
        windows_client::format_client_user(5, &UserIdentity::Uid(42)),
        "42"
    );
    assert_eq!(format_client_uid(0), "0");
    assert_eq!(format_client_uid(u32::MAX), "4294967295");
}

#[test]
fn orders_are_read_in_any_case() {
    for (name, order) in [
        ("index", SessionSortOrder::Index),
        ("KEY", SessionSortOrder::Index),
        (" Name\t", SessionSortOrder::Name),
        ("title", SessionSortOrder::Name),
        ("activity", SessionSortOrder::Activity),
        ("creation", SessionSortOrder::Creation),
        ("modifier", SessionSortOrder::Modifier),
        ("order", SessionSortOrder::Order),
        ("\u{3000}size\u{a0}", SessionSortOrder::Size),
    ] {
        assert_eq!(parse_session_sort_order(Some(name)), Some(order), "{name}");
    }
    assert_eq!(parse_session_sort_order(Some("na me")), None);
    assert_eq!(parse_session_sort_order(Some("")), None);
    assert_eq!(parse_session_sort_order(None), None);
}

#[test]
fn clients_are_sorted_by_what_is_asked_for() {
    let wide = ListClientSnapshot {
        width: 100,
        height: 10,
        session_name: Some("zeta".to_owned()),
        ..client_snapshot("b", 3)
    };
    let tall = ListClientSnapshot {
        height: 50,
        session_name: Some("alpha".to_owned()),
        ..client_snapshot("c", 1)
    };
    let small = client_snapshot("a", 2);
    let start = vec![wide, tall, small];
    for (order, reversed, expected) in [
        (None, false, ["c", "a", "b"]),
        (None, true, ["c", "a", "b"]),
        (Some("unknown"), true, ["b", "a", "c"]),
        (Some("name"), false, ["a", "b", "c"]),
        (Some("size"), false, ["a", "c", "b"]),
        (Some("size"), true, ["b", "c", "a"]),
        (Some("activity"), false, ["a", "c", "b"]),
        (Some("index"), true, ["b", "a", "c"]),
    ] {
        let mut clients = start.clone();
        sort_list_clients(&mut clients, order, reversed);
        assert_eq!(names(&clients), expected, "{order:?} {reversed}");
    }
}

#[test]
fn clients_ordered_alike_are_sorted_by_name_and_stay_put() {
    let mut clients = vec![
        client_snapshot("b", 1),
        client_snapshot("a", 1),
        ListClientSnapshot {
            pid: 9,
            ..client_snapshot("a", 1)
        },
    ];
    sort_list_clients(&mut clients, Some("creation"), true);
    assert_eq!(names(&clients), ["a", "a", "b"]);
    assert_eq!((clients[0].pid, clients[1].pid), (1, 9));
}

#[test]
fn flags_are_listed_in_order() {
    let mut active = active_attach(1, "alpha");
    assert_eq!(
        format_attached_client_flags(&active),
        "attached,focused,UTF-8"
    );
    active.suspended = true;
    active.flags = ClientFlags {
        ignore_size: true,
        no_detach_on_destroy: true,
        read_only: true,
        active_pane: true,
    };
    active.terminal.utf8 = false;
    assert_eq!(
        format_attached_client_flags(&active),
        "attached,ignore-size,no-detach-on-destroy,read-only,active-pane,suspended"
    );
    let mut control = active_control(1, None);
    assert_eq!(format_control_client_flags(&control), "control-mode");
    control.session_name = Some("alpha".to_owned());
    control.flags = ControlClientFlags {
        no_output: true,
        wait_exit: true,
        pause_after_millis: Some(2999),
    };
    assert_eq!(
        format_control_client_flags(&control),
        "attached,focused,control-mode,no-output,wait-exit,pause-after=2,UTF-8"
    );
    assert_eq!(client_flag(false, "focused"), None);
    assert_eq!(client_flag(true, "focused"), Some("focused".to_owned()));
    assert_eq!(
        format_client_flags([
            None, None, None, None, None, None, None, None, None, None, None, None
        ]),
        ""
    );
}

#[test]
fn clients_are_listed_attached_first() {
    let attached = vec![
        AttachedClient {
            pid: 10,
            active: active_attach(5, "alpha"),
            tty: Some("/dev/pts/3".to_owned()),
            termfeatures: "256,sync".to_owned(),
        },
        AttachedClient {
            pid: 11,
            active: ActiveAttach {
                key_table_name: Some("copy-mode".to_owned()),
                ..active_attach(6, "beta")
            },
            tty: None,
            termfeatures: String::new(),
        },
    ];
    let control = vec![ControlClient {
        pid: 12,
        active: active_control(7, Some("alpha")),
    }];
    let tables = vec![DefaultKeyTable {
        session_name: "alpha".to_owned(),
        key_table: "root".to_owned(),
    }];
    let clients = list_clients_snapshot(&attached, &control, &tables);
    assert_eq!(names(&clients), ["/dev/pts/3", "11", "12"]);
    assert_eq!(
        clients[0],
        ListClientSnapshot {
            name: "/dev/pts/3".to_owned(),
            pid: 10,
            tty: "/dev/pts/3".to_owned(),
            control: false,
            session_name: Some("alpha".to_owned()),
            order: 5,
            width: 80,
            height: 24,
            termname: "xterm".to_owned(),
            termtype: String::new(),
            termfeatures: "256,sync".to_owned(),
            utf8: true,
            key_table: Some("root".to_owned()),
            uid: 1000,
            user: UserIdentity::Uid(1000),
            flags: "attached,focused,UTF-8".to_owned(),
        }
    );
    assert_eq!(clients[1].key_table, Some("copy-mode".to_owned()));
    assert_eq!(clients[1].tty, "");
    assert!(clients[2].control);
    assert_eq!((clients[2].width, clients[2].height), (0, 0));
    assert_eq!(clients[2].termfeatures, "mouse");
    assert_eq!(clients[2].key_table, None);
    assert_eq!(clients[2].flags, "attached,focused,control-mode,UTF-8");
}

#[test]
fn client_names_and_targets() {
    assert_eq!(
        attached_client_name(&Some("/dev/pts/1".to_owned()), 4),
        "/dev/pts/1"
    );
    assert_eq!(attached_client_name(&None, 4), "4");
    assert_eq!(normalize_target_client("client:"), "client");
    assert_eq!(normalize_target_client("client::"), "client:");
    assert_eq!(normalize_target_client("client"), "client");
    assert_eq!(normalize_target_client(""), "");
}

#[test]
fn targets_name_clients_by_device() {
    let device = Some("/dev/pts/3");
    for target in ["/dev/pts/3", "/dev//pts/3/", "/dev/./pts/3", "pts/3", "pts//3"] {
        assert!(attached_client_matches_target(device, target), "{target}");
    }
    for target in ["pts/4", "/pts/3", "./pts/3", "dev/pts/3", "", "3"] {
        assert!(!attached_client_matches_target(device, target), "{target}");
    }
    assert!(!attached_client_matches_target(None, "pts/3"));
    assert!(!attached_client_matches_target(Some("/tmp/tty"), "tty"));
    assert!(attached_client_matches_target(Some("./tty"), "./tty"));
    assert!(!attached_client_matches_target(Some("./tty"), "tty"));
}

#[test]
fn flags_are_parsed_with_read_only() {
    let named = ClientFlags {
        active_pane: true,
        ..ClientFlags::default()
    };
    assert_eq!(
        parse_client_flags::<String>(None, false),
        Ok(ClientFlags::default())
    );
    assert_eq!(
        parse_client_flags::<String>(Some(Ok(named)), true),
        Ok(ClientFlags {
            read_only: true,
            active_pane: true,
            ..ClientFlags::default()
        })
    );
    assert_eq!(
        parse_client_flags(Some(Err("unknown flag")), true),
        Err("unknown flag")
    );
}

#[test]
fn command_output_ends_every_line() {
    assert_eq!(command_output_from_lines(&Vec::new()), Vec::<u8>::new());
    assert_eq!(
        command_output_from_lines(&vec!["one".to_owned(), "zw\u{f6}lf".to_owned()]),
        "one\nzw\u{f6}lf\n".as_bytes()
    );
    assert_eq!(
        command_output_from_lines(&vec![String::new()]),
        b"\n".to_vec()
    );
}

#[test]
fn selectors_are_counted() {
    let mut request = SwitchClientExt3Request {
        target: None,
        last_session: false,
        next_session: false,
        previous_session: false,
    };
    assert_eq!(switch_target_selector_count(&request), 0);
    request.target = Some("alpha".to_owned());
    request.next_session = true;
    assert_eq!(switch_target_selector_count(&request), 2);
    request.last_session = true;
    request.previous_session = true;
    assert_eq!(switch_target_selector_count(&request), 4);
}

#[test]
fn the_clipboard_is_asked_for_by_sequence() {
    assert_eq!(clipboard_query_sequence(), b"\x1b]52;c;?\x1b\\");
}

#[test]
fn features_are_added_once() {
    let mut features = vec!["Mouse".to_owned()];
    push_unique_terminal_feature(&mut features, "mouse");
    push_unique_terminal_feature(&mut features, "sync");
    push_unique_terminal_feature(&mut features, "SYNC");
    assert_eq!(features, ["Mouse", "sync"]);
}

#[test]
fn utf8_is_inferred_from_the_environment() {
    for (variables, expected) in [
        (&[][..], false),
        (&[("RMUX", "/tmp/socket,1,0")][..], true),
        (&[("RMUX", "")][..], false),
        (&[("LANG", "en_US.UTF-8")][..], true),
        (&[("LANG", "de_DE.utf8")][..], true),
        (&[("LANG", "C")][..], false),
        (&[("LC_ALL", "C"), ("LANG", "en_US.UTF-8")][..], false),
        (&[("LC_ALL", ""), ("LC_CTYPE", "x.Utf-8")][..], true),
    ] {
        let environment = environment(variables);
        assert_eq!(
            client_environment_infers_utf8(Some(&environment)),
            expected,
            "{variables:?}"
        );
        let context =
            effective_client_terminal_context(Some(&environment), &ClientTerminalContext::default());
        assert_eq!(context.utf8, expected);
        assert!(context.terminal_features.is_empty());
    }
    assert!(!client_environment_infers_utf8(None));
}

#[test]
fn a_windows_terminal_names_its_session() {
    assert!(client_environment_is_windows_terminal(Some(&environment(
        &[("WT_SESSION", "x")]
    ))));
    assert!(!client_environment_is_windows_terminal(Some(
        &environment(&[("WT_SESSION", "")])
    )));
    assert!(!client_environment_is_windows_terminal(None));
}

#[test]
fn a_later_variable_replaces_an_earlier_one() {
    let environment = environment(&[("A", "1"), ("B", "2"), ("A", "3")]);
    assert_eq!(environment.get("A"), Some(&"3".to_owned()));
    assert_eq!(environment.get("B"), Some(&"2".to_owned()));
    assert_eq!(environment.get("C"), None);
}

#[test]
fn working_out_a_terminal_twice_changes_nothing() {
    let environment = environment(&[("WT_SESSION", "x")]);
    let once =
        effective_client_terminal_context(Some(&environment), &ClientTerminalContext::default());
    assert_eq!(
        effective_client_terminal_context(Some(&environment), &once),
        once
    );
}

#[test]
fn patterns_are_separated_by_white_space() {
    assert_eq!(
        update_environment_patterns(Some("  DISPLAY SSH_*\tX \n")),
        ["DISPLAY", "SSH_*", "X"]
    );
    assert!(update_environment_patterns(Some(" ")).is_empty());
    assert!(update_environment_patterns(None).is_empty());
}

#[test]
fn environments_come_from_the_right_process() {
    assert!(launched_as_hidden_daemon(&vec![
        "rmux".to_owned(),
        "--__internal-daemon".to_owned()
    ]));
    assert!(!launched_as_hidden_daemon(&vec!["rmux".to_owned()]));
    assert_eq!(
        client_environment_source(4, 5, true),
        EnvironmentSource::Process(4)
    );
    assert_eq!(
        client_environment_source(5, 5, true),
        EnvironmentSource::OwnProcess
    );
    assert_eq!(
        client_environment_source(5, 5, false),
        EnvironmentSource::Nothing
    );
}

#[test]
fn the_status_interval_is_off_at_zero() {
    assert_eq!(attached_status_interval(0), None);
    assert_eq!(attached_status_interval(15), Some(15));
}

#[test]
fn status_refreshes_reassert_the_pane_cursor() {
    let status = b"\x1b7\x1b[24;1Hstatus\x1b8".to_vec();
    let copy: &[u8] = b"\x1b[3;7H";
    let pane: &[u8] = b"\x1b[5;9H";
    assert_eq!(
        status_refresh_frame(status.clone(), false, None, Some(pane)),
        [&status[..], pane].concat()
    );
    assert_eq!(
        status_refresh_frame(status.clone(), false, Some(copy), Some(pane)),
        [&status[..], copy].concat()
    );
    assert_eq!(
        status_refresh_frame(status.clone(), true, Some(copy), Some(pane)),
        status
    );
    assert_eq!(
        status_refresh_frame(status.clone(), false, None, None),
        status
    );
    assert!(status_refresh_frame(Vec::new(), false, Some(copy), Some(pane)).is_empty());
}

fn registry() -> ActiveAttachState {
    let mut by_pid = HashMap::new();
    by_pid.insert(
        10,
        ActiveAttach {
            suspended: true,
            ..active_attach(5, "alpha")
        },
    );
    by_pid.insert(
        11,
        ActiveAttach {
            suspended: true,
            closing: true,
            ..active_attach(6, "beta")
        },
    );
    ActiveAttachState { by_pid }
}

#[test]
fn unlocking_clears_the_suspension_of_one_client() {
    let mut state = registry();
    state.handle_attached_unlock(10);
    state.handle_attached_unlock(99);
    assert!(!state.by_pid[&10].suspended);
    assert!(state.by_pid[&11].suspended);
    assert_eq!(state.by_pid.len(), 2);
}

#[test]
fn unlocking_by_identity_needs_the_attachment() {
    let identity = |attach_pid, attach_id| ActiveAttachIdentity {
        attach_pid,
        attach_id,
    };
    let mut state = registry();
    assert!(!state.handle_attached_unlock_for_identity(identity(10, 4)));
    assert!(!state.handle_attached_unlock_for_identity(identity(11, 6)));
    assert!(!state.handle_attached_unlock_for_identity(identity(12, 5)));
    assert!(state.by_pid[&10].suspended);
    assert!(state.handle_attached_unlock_for_identity(identity(10, 5)));
    assert!(!state.by_pid[&10].suspended);
}

#[test]
fn requests_run_as_their_client_or_the_owner() {
    let attached = registry();
    let mut by_pid = HashMap::new();
    by_pid.insert(20, active_control(1, None));
    let control = ActiveControlState { by_pid };
    assert_eq!(requester_uid(&attached, &control, 10, 3), 1000);
    assert_eq!(requester_uid(&attached, &control, 20, 3), 7);
    assert_eq!(requester_uid(&attached, &control, 30, 3), 3);
}

#[test]
fn refreshes_need_an_attached_client_and_its_session() {
    let state = registry();
    let plan = state
        .plan_status_refresh(10, Some(5), "alpha", true)
        .expect("a plan");
    assert!(!plan.client_owns_cursor);
    assert_eq!((plan.width, plan.height), (80, 24));
    assert_eq!(plan.key_table, None);
    assert_eq!(plan.prompt, None);
    assert_eq!(plan.terminal.term_name, "xterm");
    assert_eq!(
        plan.delivery,
        RefreshDelivery::Identity(ActiveAttachIdentity {
            attach_pid: 10,
            attach_id: 5,
        })
    );
    assert_eq!(
        state
            .plan_status_refresh(10, None, "alpha", true)
            .map(|plan| plan.delivery),
        Ok(RefreshDelivery::Process(10))
    );
    for (pid, expected, session) in [(12, None, "alpha"), (10, Some(4), "alpha"), (10, None, "beta")]
    {
        assert_eq!(
            state.plan_status_refresh(pid, expected, session, true),
            Err(RefreshError::AttachedClientRequired)
        );
    }
    assert_eq!(
        state.plan_status_refresh(10, None, "alpha", false),
        Err(RefreshError::SessionNotFound)
    );
}

#[test]
fn surfaces_that_draw_a_cursor_own_it() {
    let plain = active_attach(1, "alpha");
    assert!(!client_owns_cursor(&plain));
    for active in [
        ActiveAttach {
            prompt: Some(":".to_owned()),
            ..plain.clone()
        },
        ActiveAttach {
            has_overlay: true,
            ..plain.clone()
        },
        ActiveAttach {
            has_mode_tree: true,
            ..plain.clone()
        },
        ActiveAttach {
            has_display_panes: true,
            ..plain.clone()
        },
    ] {
        assert!(client_owns_cursor(&active));
    }
}
