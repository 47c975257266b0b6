use matter_example::app::{endpoint_default_label, state_path, App, Saved, Sent, Step};
use matter_example::app_model::{AppError, KeyCode, Turn};
use matter_example::endpoints::TlvValue;
use matter_example::invoker::{resolve, Request};
use matter_example::matter::MatterError;
use matter_example::setup_code::SetupCodeError;
use matter_example::state::{AppState, EndpointAlias, KnownDevice};
use matter_example::types::{
    Action, CommissionableDevice, CommissionedDevice, EndpointSummary, FocusPane, IpAddress, Modal,
    PendingCommission, PendingTask, Screen, StatusKind,
};

type Client = App<u32>;

fn new_app() -> Client {
    App::new(AppState::default())
}

fn press(app: &mut Client, key: KeyCode) -> Step<u32> {
    app.on_key(true, key).unwrap()
}

fn type_text(app: &mut Client, text: &str) {
    for c in text.chars() {
        press(app, KeyCode::Char(c));
    }
}

fn clear(app: &mut Client) {
    for _ in 0..80 {
        press(app, KeyCode::Backspace);
    }
}

fn waiting(name: &str) -> CommissionableDevice {
    CommissionableDevice {
        display_name: name.to_string(),
        device_type: "Light".to_string(),
        addresses: vec![IpAddress {
            v4: true,
            text: "10.0.0.5".to_string(),
        }],
        port: 5540,
        discriminator: None,
        vendor_id: None,
        product_id: None,
    }
}

fn operational(known: Option<KnownDevice>) -> CommissionedDevice {
    CommissionedDevice {
        display_name: "svc".to_string(),
        addresses: vec![IpAddress {
            v4: false,
            text: "fe80::1".to_string(),
        }],
        port: 5541,
        known,
    }
}

fn known(node_id: u64) -> KnownDevice {
    KnownDevice {
        label: "Hub".to_string(),
        node_id,
        last_address: "old".to_string(),
    }
}

fn endpoint(id: u16, label: Option<&str>, has_on_off: bool, actions: usize) -> EndpointSummary {
    EndpointSummary {
        id,
        label: label.map(str::to_string),
        device_types: vec!["Light".to_string()],
        has_on_off,
        on_off_state: None,
        actions: (0..actions)
            .map(|i| Action {
                action_id: Some(i as u16),
                name: Some(format!("a{i}")),
            })
            .collect(),
    }
}

fn managed() -> Client {
    let mut app = new_app();
    app.state.devices.push(known(9));
    app.device_opened(
        known(9),
        77,
        vec![endpoint(0, None, false, 0), endpoint(1, Some("Lamp"), true, 2)],
        123,
    );
    app
}

fn message(app: &Client) -> Option<&str> {
    match &app.modal {
        Some(Modal::Message(m)) => Some(m.as_str()),
        _ => None,
    }
}

fn endpoints(app: &Client) -> &Vec<EndpointSummary> {
    match &app.screen {
        Screen::Manage(m) => &m.endpoints,
        Screen::Overview => panic!("no device is open"),
    }
}

fn selected(app: &Client) -> usize {
    match &app.screen {
        Screen::Manage(m) => m.selected_endpoint,
        Screen::Overview => panic!("no device is open"),
    }
}

#[test]
fn a_client_starts_on_the_overview() {
    let app = new_app();
    assert!(matches!(app.screen, Screen::Overview));
    assert_eq!(app.status, "Press r to scan for devices.");
    assert_eq!(app.status_kind, StatusKind::Normal);
    assert_eq!(app.focus, FocusPane::Commissionable);
    assert!(app.modal.is_none() && app.pending_task.is_none() && !app.quit);
    assert_eq!(app.turn(), Turn::WaitForKey);
    assert_eq!(state_path(), "./client-state.toml");
}

#[test]
fn only_a_pressed_key_does_something() {
    let mut app = new_app();
    app.on_key(false, KeyCode::Char('q')).unwrap();
    assert!(!app.quit);
    press(&mut app, KeyCode::Char('q'));
    assert!(app.quit);
    assert_eq!(app.turn(), Turn::Quit);
}

#[test]
fn scanning_is_a_task() {
    let mut app = new_app();
    press(&mut app, KeyCode::Char('r'));
    assert_eq!(message(&app), Some("Scanning LAN for Matter devices..."));
    assert_eq!(app.status_kind, StatusKind::Progress);
    assert_eq!(app.turn(), Turn::RunTask);
    assert!(matches!(app.run_pending_task(), Ok(Step::Scan)));
    assert!(app.modal.is_none() && app.pending_task.is_none());
    app.selected_commissionable = 0;
    app.refresh_scan(Ok((vec![waiting("a"), waiting("b")], vec![operational(None)])));
    assert_eq!(app.status, "Found 2 commissionable and 1 commissioned device(s).");
    assert_eq!(app.status_kind, StatusKind::Success);
    app.refresh_scan(Err("no network".to_string()));
    assert_eq!(app.status, "Scan failed: no network");
    assert_eq!(app.status_kind, StatusKind::Error);
    assert_eq!(app.commissionable.len(), 2);
}

#[test]
fn selections_follow_the_lists() {
    let mut app = new_app();
    app.refresh_scan(Ok((vec![waiting("a"), waiting("b")], vec![operational(None)])));
    press(&mut app, KeyCode::Down);
    press(&mut app, KeyCode::Down);
    assert_eq!(app.selected_commissionable, 1);
    press(&mut app, KeyCode::Tab);
    assert_eq!(app.focus, FocusPane::Commissioned);
    press(&mut app, KeyCode::Down);
    assert_eq!(app.selected_commissioned, 0);
    press(&mut app, KeyCode::Left);
    press(&mut app, KeyCode::Right);
    press(&mut app, KeyCode::Left);
    press(&mut app, KeyCode::Up);
    press(&mut app, KeyCode::Up);
    assert_eq!(app.selected_commissionable, 0);
    press(&mut app, KeyCode::Down);
    app.refresh_scan(Ok((vec![waiting("a")], Vec::new())));
    assert_eq!(app.selected_commissionable, 0);
}

#[test]
fn commissioning_asks_for_a_setup_code() {
    let mut app = new_app();
    press(&mut app, KeyCode::Char('c'));
    assert!(app.modal.is_none());
    app.refresh_scan(Ok((vec![waiting("Bulb")], Vec::new())));
    press(&mut app, KeyCode::Char('c'));
    match &app.modal {
        Some(Modal::Input(d)) => {
            assert_eq!(d.title, "Commission Device");
            assert_eq!(d.value, "");
            assert_eq!(
                d.help,
                "Enter setup code: 8-digit passcode, manual pairing code, or MT: QR payload"
            );
        }
        _ => panic!("no dialog"),
    }
    // Keys are typed now, and quit nothing.
    type_text(&mut app, "20202021q");
    press(&mut app, KeyCode::Backspace);
    assert!(!app.quit);
    press(&mut app, KeyCode::Enter);
    assert_eq!(message(&app), Some("Starting commissioning..."));
    match app.run_pending_task() {
        Ok(Step::Commission(order)) => {
            assert_eq!(order.pin, 20202021);
            assert_eq!(order.node_id, 0x1001);
            assert_eq!(order.address, "10.0.0.5:5540");
        }
        _ => panic!("no order"),
    }
    assert_eq!(app.status, "Commissioning Bulb...");
}

#[test]
fn a_bad_setup_code_is_reported() {
    let mut app = new_app();
    app.refresh_scan(Ok((vec![waiting("Bulb")], Vec::new())));
    press(&mut app, KeyCode::Char('c'));
    type_text(&mut app, "123");
    press(&mut app, KeyCode::Enter);
    let error = app.run_pending_task().err().unwrap();
    assert_eq!(error, AppError::SetupCode(SetupCodeError::UnsupportedFormat));
    app.report_error(&error.message());
    assert_eq!(app.status_kind, StatusKind::Error);
    assert_eq!(message(&app), Some(app.status.as_str()));
    press(&mut app, KeyCode::Char('x'));
    assert!(app.modal.is_some());
    press(&mut app, KeyCode::Enter);
    assert!(app.modal.is_none());
    assert_eq!(app.status_kind, StatusKind::Error);
}

#[test]
fn errors_say_what_is_missing() {
    assert_eq!(AppError::EndpointNotFound.message(), "endpoint not found");
    assert_eq!(AppError::ActionOptionNotFound.message(), "action option not found");
    assert_eq!(AppError::CommissionableNotFound.message(), "commissionable device not found");
    assert_eq!(AppError::CommissionedNotFound.message(), "commissioned device not found");
    assert_eq!(AppError::SetupCode(SetupCodeError::Empty).message(), "setup code is empty");
    assert_eq!(
        AppError::Matter(MatterError::ActionWithoutId).message(),
        "action missing action_id"
    );
    let mut app = new_app();
    app.pending_task = Some(PendingTask::StartCommission {
        device_index: 3,
        setup_code: "20202021".to_string(),
    });
    assert_eq!(app.run_pending_task().err(), Some(AppError::CommissionableNotFound));
    let mut app = managed();
    app.pending_task = Some(PendingTask::EndpointOn { endpoint_index: 5 });
    assert_eq!(app.run_pending_task().err(), Some(AppError::EndpointNotFound));
}

fn pending(endpoints: Vec<EndpointSummary>) -> PendingCommission<u32> {
    PendingCommission {
        connection: 5,
        node_id: 0x1001,
        address: "10.0.0.5:5540".to_string(),
        device_label: "Detected".to_string(),
        fabric_label: "fabric".to_string(),
        endpoints,
    }
}

#[test]
fn a_commissioned_device_is_named_and_remembered() {
    let mut app = new_app();
    app.commission_started(pending(vec![
        endpoint(0, None, false, 0),
        endpoint(1, Some("Old"), true, 0),
    ]));
    clear(&mut app);
    type_text(&mut app, "  Desk lamp ");
    press(&mut app, KeyCode::Enter);
    match &app.modal {
        Some(Modal::CommissionFabricName { pending, value }) => {
            assert_eq!(pending.device_label, "Desk lamp");
            assert_eq!(value, "matter-client");
        }
        _ => panic!("no dialog"),
    }
    clear(&mut app);
    press(&mut app, KeyCode::Enter);
    match &app.modal {
        Some(Modal::CommissionEndpointName { pending, index, value }) => {
            assert_eq!(pending.fabric_label, "fabric");
            assert_eq!(*index, 0);
            assert_eq!(value, "Light");
        }
        _ => panic!("no dialog"),
    }
    clear(&mut app);
    press(&mut app, KeyCode::Enter);
    match &app.modal {
        Some(Modal::CommissionEndpointName { index, value, .. }) => {
            assert_eq!(*index, 1);
            assert_eq!(value, "Old");
        }
        _ => panic!("no dialog"),
    }
    type_text(&mut app, " 2");
    press(&mut app, KeyCode::Enter);
    assert_eq!(message(&app), Some("Finalizing commissioning..."));
    let pending = match app.run_pending_task() {
        Ok(Step::Finish { pending, invocation }) => {
            assert_eq!(invocation.command, 9);
            assert_eq!(invocation.payload[3..], *b"fabric");
            pending
        }
        _ => panic!("no finish"),
    };
    let saved = match app.finish_commission(pending) {
        Step::Save { contents, saved } => {
            assert_eq!(contents, app.state.save());
            saved
        }
        _ => panic!("nothing is stored"),
    };
    assert!(matches!(app.saved(saved), Step::Scan));
    assert_eq!(app.status, "Scanning LAN for Matter devices...");
    assert_eq!(app.state.fabric_label, "fabric");
    assert_eq!(app.state.devices[0].label, "Desk lamp");
    assert_eq!(app.state.devices[0].last_address, "10.0.0.5:5540");
    let (device, alias) = resolve(
        &app.state,
        &Request {
            device: "desk LAMP".to_string(),
            endpoint: "old 2".to_string(),
            action: String::new(),
        },
    )
    .unwrap();
    assert_eq!(device.node_id, 0x1001);
    assert_eq!(alias.endpoint_id, 1);
    assert_eq!(app.state.endpoint_aliases[0].label, "Light");
}

#[test]
fn a_device_without_endpoints_is_finished_after_its_fabric() {
    let mut app = new_app();
    app.commission_started(pending(Vec::new()));
    press(&mut app, KeyCode::Enter);
    press(&mut app, KeyCode::Enter);
    assert!(matches!(app.pending_task, Some(PendingTask::FinishCommission(_))));
}

#[test]
fn escape_cancels_every_dialog() {
    let dialogs: Vec<Box<dyn Fn(&mut Client)>> = vec![
        Box::new(|app| app.commission_started(pending(vec![endpoint(0, None, false, 0)]))),
        Box::new(|app| {
            app.commission_started(pending(vec![endpoint(0, None, false, 0)]));
            press(app, KeyCode::Enter);
        }),
        Box::new(|app| {
            app.commission_started(pending(vec![endpoint(0, None, false, 0)]));
            press(app, KeyCode::Enter);
            press(app, KeyCode::Enter);
        }),
        Box::new(|app| {
            press(app, KeyCode::Char('d'));
        }),
        Box::new(|app| {
            press(app, KeyCode::Char('f'));
        }),
        Box::new(|app| {
            press(app, KeyCode::Down);
            press(app, KeyCode::Char('a'));
        }),
        Box::new(|app| app.report_error("oops")),
    ];
    for open in dialogs {
        let mut app = managed();
        open(&mut app);
        assert!(app.modal.is_some());
        let before = app.state.save();
        assert!(matches!(press(&mut app, KeyCode::Esc), Step::Done));
        assert!(app.modal.is_none() && app.pending_task.is_none());
        assert_eq!(app.state.save(), before);
        assert!(matches!(app.screen, Screen::Manage(_)));
    }
}

#[test]
fn opening_needs_a_known_device() {
    let mut app = new_app();
    app.refresh_scan(Ok((Vec::new(), vec![operational(None), operational(Some(known(9)))])));
    press(&mut app, KeyCode::Enter);
    assert!(app.pending_task.is_none());
    press(&mut app, KeyCode::Tab);
    press(&mut app, KeyCode::Enter);
    assert_eq!(message(&app), Some("Connecting to device..."));
    assert!(matches!(app.run_pending_task(), Ok(Step::Done)));
    assert_eq!(app.status, "Selected device is not managed by this client.");
    press(&mut app, KeyCode::Down);
    press(&mut app, KeyCode::Char('m'));
    match app.run_pending_task() {
        Ok(Step::Open(device)) => {
            assert_eq!(device.node_id, 9);
            assert_eq!(device.label, "Hub");
            assert_eq!(device.last_address, "[fe80::1]:5541");
        }
        _ => panic!("nothing to open"),
    }
}

#[test]
fn an_open_device_has_its_aliases() {
    let mut app = new_app();
    app.state.endpoint_aliases.push(EndpointAlias {
        node_id: 9,
        endpoint_id: 1,
        label: "Desk".to_string(),
    });
    app.device_opened(known(9), 77, vec![endpoint(1, Some("Lamp"), true, 0)], 5);
    assert_eq!(endpoints(&app)[0].label.as_deref(), Some("Desk"));
    assert_eq!(
        app.status,
        "Connected.  o on  p off  a actions  n rename  f fabric  d decommission  b back"
    );
    match &app.screen {
        Screen::Manage(m) => assert_eq!((m.connection, m.last_endpoint_refresh), (77, 5)),
        Screen::Overview => panic!("no device is open"),
    }
    press(&mut app, KeyCode::Char('b'));
    assert!(matches!(app.screen, Screen::Overview));
    assert_eq!(app.status, "Returned to overview.");
}

#[test]
fn switches_are_switched() {
    let mut app = managed();
    press(&mut app, KeyCode::Char('o'));
    assert!(app.pending_task.is_none());
    press(&mut app, KeyCode::Down);
    press(&mut app, KeyCode::Down);
    assert_eq!(selected(&app), 1);
    press(&mut app, KeyCode::Char('o'));
    assert_eq!(message(&app), Some("Sending On to endpoint 1..."));
    match app.run_pending_task() {
        Ok(Step::Invoke { invocation, sent }) => {
            assert_eq!(
                (invocation.endpoint, invocation.cluster, invocation.command),
                (1, 6, 1)
            );
            assert!(matches!(app.sent(sent), Step::Done));
        }
        _ => panic!("nothing is sent"),
    }
    assert_eq!(app.status, "Sent On to endpoint 1.");
    press(&mut app, KeyCode::Char('p'));
    assert_eq!(message(&app), Some("Sending Off to endpoint 1..."));
    match app.run_pending_task() {
        Ok(Step::Invoke { invocation, sent }) => {
            assert_eq!(invocation.command, 0);
            app.sent(sent);
        }
        _ => panic!("nothing is sent"),
    }
    assert_eq!(app.status, "Sent Off to endpoint 1.");
    press(&mut app, KeyCode::Up);
    assert_eq!(selected(&app), 0);
}

#[test]
fn an_endpoint_is_renamed() {
    let mut app = managed();
    press(&mut app, KeyCode::Char('n'));
    match &app.modal {
        Some(Modal::Input(d)) => {
            assert_eq!(d.title, "Rename Endpoint 0");
            assert_eq!(d.value, "Light");
            assert_eq!(d.help, "Local alias stored by this client only");
        }
        _ => panic!("no dialog"),
    }
    clear(&mut app);
    type_text(&mut app, " Root ");
    match press(&mut app, KeyCode::Enter) {
        Step::Save { contents, saved } => {
            assert_eq!(contents, app.state.save());
            assert!(contents.contains("endpoint\t9\t0\tRoot\n"));
            assert!(matches!(app.saved(saved), Step::Done));
        }
        _ => panic!("nothing is stored"),
    }
    assert_eq!(endpoints(&app)[0].label.as_deref(), Some("Root"));
    assert_eq!(app.status, "Saved endpoint 0 label.");
    app.device_opened(known(9), 78, vec![endpoint(0, None, false, 0)], 6);
    assert_eq!(endpoints(&app)[0].label.as_deref(), Some("Root"));
}

#[test]
fn the_fabric_gets_a_label() {
    let mut app = managed();
    press(&mut app, KeyCode::Char('f'));
    clear(&mut app);
    type_text(&mut app, "den ");
    press(&mut app, KeyCode::Enter);
    assert_eq!(message(&app), Some("Updating fabric label..."));
    match app.run_pending_task() {
        Ok(Step::Invoke { invocation, sent }) => {
            assert_eq!(invocation.payload, vec![0x2c, 0, 3, b'd', b'e', b'n']);
            match app.sent(sent) {
                Step::Save { contents, saved } => {
                    assert!(contents.contains("fabric_label\tden\n"));
                    assert!(matches!(app.saved(saved), Step::Done));
                }
                _ => panic!("nothing is stored"),
            }
        }
        _ => panic!("nothing is sent"),
    }
    assert_eq!(app.status, "Fabric label updated.");
}

#[test]
fn actions_are_invoked() {
    let mut app = managed();
    press(&mut app, KeyCode::Char('a'));
    assert!(app.modal.is_none());
    assert_eq!(app.status, "Endpoint 0 has no Actions cluster entries.");
    press(&mut app, KeyCode::Down);
    app.on_key_with(true, KeyCode::Char('a'), &vec![1, 2]).unwrap();
    match &app.modal {
        Some(Modal::Action(d)) => assert_eq!(d.options.len(), 14),
        _ => panic!("no dialog"),
    }
    for _ in 0..7 {
        press(&mut app, KeyCode::Down);
    }
    press(&mut app, KeyCode::Up);
    press(&mut app, KeyCode::Down);
    press(&mut app, KeyCode::Enter);
    assert_eq!(message(&app), Some("Sending Actions cluster command..."));
    match app.run_pending_task() {
        Ok(Step::Invoke { invocation, sent }) => {
            assert_eq!(
                (invocation.endpoint, invocation.cluster, invocation.command),
                (1, 0x25, 0)
            );
            assert_eq!(invocation.payload, vec![0x25, 0, 1, 0, 0x26, 1, 2, 0, 0, 0]);
            app.sent(sent);
        }
        _ => panic!("nothing is sent"),
    }
    assert_eq!(app.status, "Sent \"Instant: a1\" to endpoint 1.");
}

#[test]
fn an_action_without_an_id_is_an_error() {
    let mut app = new_app();
    let mut broken = endpoint(1, None, false, 1);
    broken.actions[0].action_id = None;
    app.device_opened(known(9), 1, vec![broken], 0);
    assert_eq!(
        app.on_key(true, KeyCode::Char('a')).err(),
        Some(AppError::Matter(MatterError::ActionWithoutId))
    );
}

#[test]
fn decommissioning_is_confirmed_and_forgets_the_device() {
    let mut app = managed();
    app.state.devices.push(known(10));
    for node_id in [9, 10] {
        app.state.endpoint_aliases.push(EndpointAlias {
            node_id,
            endpoint_id: 1,
            label: "x".to_string(),
        });
    }
    press(&mut app, KeyCode::Char('d'));
    press(&mut app, KeyCode::Enter);
    press(&mut app, KeyCode::Char('n'));
    assert!(app.pending_task.is_none());
    assert_eq!(app.status, "Canceled.");
    press(&mut app, KeyCode::Char('d'));
    press(&mut app, KeyCode::Char('y'));
    assert_eq!(message(&app), Some("Decommissioning device..."));
    assert!(matches!(app.run_pending_task(), Ok(Step::ReadFabricIndex)));
    assert_eq!(
        app.fabric_index_read(&TlvValue::Nil).err(),
        Some(AppError::Matter(MatterError::FabricIndexNotAnInteger))
    );
    let sent = match app.fabric_index_read(&TlvValue::Int(2)) {
        Ok(Step::Invoke { invocation, sent }) => {
            assert_eq!(invocation.payload, vec![0x24, 0, 2]);
            sent
        }
        _ => panic!("nothing is sent"),
    };
    let saved = match app.sent(sent) {
        Step::Save { contents, saved } => {
            assert_eq!(contents, app.state.save());
            saved
        }
        _ => panic!("nothing is stored"),
    };
    assert_eq!(app.state.devices.len(), 1);
    assert_eq!(app.state.devices[0].node_id, 10);
    assert_eq!(app.state.endpoint_aliases.len(), 1);
    assert_eq!(app.state.endpoint_aliases[0].node_id, 10);
    assert!(matches!(app.saved(saved), Step::Scan));
    assert!(matches!(app.screen, Screen::Overview));
}

#[test]
fn tasks_of_a_closed_device_do_nothing() {
    let tasks: Vec<PendingTask<u32>> = vec![
        PendingTask::EndpointOn { endpoint_index: 0 },
        PendingTask::EndpointOff { endpoint_index: 0 },
        PendingTask::ChangeFabricLabel {
            label: "x".to_string(),
        },
        PendingTask::InvokeAction {
            endpoint_index: 0,
            command_id: 0,
            payload: Vec::new(),
            label: "x".to_string(),
        },
        PendingTask::Decommission,
        PendingTask::RefreshEndpoints,
        PendingTask::OpenSelectedCommissioned,
    ];
    for task in tasks {
        let mut app = new_app();
        app.queue_task(task, "working");
        assert!(matches!(app.run_pending_task(), Ok(Step::Done)));
        assert!(app.modal.is_none());
    }
    let app = new_app();
    assert!(matches!(app.fabric_index_read(&TlvValue::Int(1)), Ok(Step::Done)));
}

#[test]
fn endpoints_are_read_anew() {
    let mut app = managed();
    press(&mut app, KeyCode::Down);
    app.queue_task(PendingTask::RefreshEndpoints, "reading");
    assert!(matches!(app.run_pending_task(), Ok(Step::Reload)));
    app.endpoints_reloaded(vec![endpoint(4, None, false, 0)], 456);
    assert_eq!(selected(&app), 0);
    assert_eq!(endpoints(&app)[0].id, 4);
    match &app.screen {
        Screen::Manage(m) => assert_eq!(m.last_endpoint_refresh, 456),
        Screen::Overview => panic!("no device is open"),
    }
    let mut closed = new_app();
    closed.endpoints_reloaded(vec![endpoint(4, None, false, 0)], 1);
    assert!(matches!(closed.screen, Screen::Overview));
}

#[test]
fn what_is_sent_and_stored_is_said() {
    let mut app = new_app();
    app.sent(Sent::Off { endpoint: 3 });
    assert_eq!(app.status, "Sent Off to endpoint 3.");
    app.saved(Saved::EndpointLabel { endpoint: 3 });
    assert_eq!(app.status, "Saved endpoint 3 label.");
    assert_eq!(app.status_kind, StatusKind::Success);
    assert_eq!(endpoint_default_label(&endpoint(0, Some("x"), false, 0)), "x");
    assert_eq!(endpoint_default_label(&endpoint(0, None, false, 0)), "Light");
}

#[test]
fn a_renamed_endpoint_is_found_by_its_new_name() {
    let mut app = managed();
    for (endpoint_id, label) in [(1, "Lamp"), (0, "Old")] {
        app.state.endpoint_aliases.push(EndpointAlias {
            node_id: 9,
            endpoint_id,
            label: label.to_string(),
        });
    }
    press(&mut app, KeyCode::Char('n'));
    clear(&mut app);
    type_text(&mut app, " Root ");
    press(&mut app, KeyCode::Enter);
    let find = |state: &AppState, endpoint: &str| {
        resolve(
            state,
            &Request {
                device: "hub".to_string(),
                endpoint: endpoint.to_string(),
                action: "on".to_string(),
            },
        )
    };
    let (device, alias) = find(&app.state, "ROOT").unwrap();
    assert_eq!((device.node_id, alias.endpoint_id), (9, 0));
    assert_eq!(alias.label, "Root");
    assert!(find(&app.state, "Old").is_err());
    let stored = AppState::load(Some(&app.state.save())).unwrap();
    assert_eq!(find(&stored, "root").unwrap().1.endpoint_id, 0);
}

#[test]
fn names_are_found_when_a_node_had_names_before() {
    let mut app = new_app();
    let pending = pending(vec![endpoint(1, Some("New"), true, 0), endpoint(2, Some("Fan"), true, 0)]);
    let node_id = pending.node_id;
    for (endpoint_id, label) in [(7, "Gone"), (1, "Old")] {
        app.state.endpoint_aliases.push(EndpointAlias {
            node_id,
            endpoint_id,
            label: label.to_string(),
        });
    }
    let device = pending.device_label.clone();
    app.finish_commission(pending);
    for (name, endpoint_id) in [("new", 1), ("fan", 2), ("gone", 7)] {
        let request = Request {
            device: device.clone(),
            endpoint: name.to_string(),
            action: "on".to_string(),
        };
        assert_eq!(resolve(&app.state, &request).unwrap().1.endpoint_id, endpoint_id);
    }
}

#[test]
fn a_full_id_counter_stops_only_what_needs_an_id() {
    for (device_index, setup_code, error) in [
        (0, "123", AppError::SetupCode(SetupCodeError::UnsupportedFormat)),
        (5, "20202021", AppError::CommissionableNotFound),
    ] {
        let mut app = new_app();
        app.state.devices.push(known(u64::MAX));
        app.refresh_scan(Ok((vec![waiting("Bulb")], Vec::new())));
        app.queue_task(
            PendingTask::StartCommission {
                device_index,
                setup_code: setup_code.to_string(),
            },
            "Starting commissioning...",
        );
        assert!(!app.state.has_free_node_id());
        assert!(!app.needs_node_id());
        assert_eq!(app.run_pending_task().err(), Some(error));
        assert!(app.pending_task.is_none() && app.modal.is_none());
        assert!(matches!(app.run_pending_task(), Ok(Step::Done)));
    }
    let mut app = new_app();
    app.refresh_scan(Ok((vec![waiting("Bulb")], Vec::new())));
    assert!(!app.needs_node_id());
    app.queue_task(
        PendingTask::StartCommission {
            device_index: 0,
            setup_code: " 20202021 ".to_string(),
        },
        "Starting commissioning...",
    );
    assert!(app.needs_node_id());
}

#[test]
fn backspace_takes_back_what_was_typed() {
    let mut app = managed();
    press(&mut app, KeyCode::Char('n'));
    let value = |app: &Client| match &app.modal {
        Some(Modal::Input(d)) => d.value.clone(),
        _ => panic!("no dialog"),
    };
    let before = value(&app);
    app.on_modal_key(KeyCode::Char('é')).unwrap();
    assert_eq!(value(&app), format!("{before}é"));
    app.on_modal_key(KeyCode::Backspace).unwrap();
    assert_eq!(value(&app), before);
    clear(&mut app);
    press(&mut app, KeyCode::Backspace);
    assert_eq!(value(&app), "");
}
