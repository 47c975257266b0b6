use matter_example::endpoints::{
    collect_endpoint_ids, decode_action_list, decode_device_type_list, decode_server_list,
    EndpointLoad, TlvField, TlvValue,
};
use matter_example::matter::{
    build_action_dialog, build_action_dialog_with, cert_path, commissioned, credential_files,
    current_fabric_index, decommission_device, ensure_credentials, invoke_id_at, next_invoke_id,
    start_commission, update_fabric_label, AttributePath, CredentialStep, MatterError,
    ATTRIBUTE_ACTION_LIST, ATTRIBUTE_CURRENT_FABRIC_INDEX, ATTRIBUTE_DEVICE_TYPE_LIST,
    ATTRIBUTE_NODE_LABEL, ATTRIBUTE_PARTS_LIST, ATTRIBUTE_SERVER_LIST, CLUSTER_ACTIONS,
    CLUSTER_BASIC_INFORMATION, CLUSTER_BRIDGED_DEVICE_BASIC_INFORMATION, CLUSTER_DESCRIPTOR,
    CLUSTER_ON_OFF, CLUSTER_OPERATIONAL_CREDENTIALS, COMMAND_DISABLE_ACTION,
    COMMAND_ENABLE_ACTION, COMMAND_INSTANT_ACTION, COMMAND_OFF, COMMAND_ON, COMMAND_PAUSE_ACTION,
    COMMAND_REMOVE_FABRIC, COMMAND_RESUME_ACTION, COMMAND_START_ACTION, COMMAND_STOP_ACTION,
    COMMAND_TOGGLE, COMMAND_UPDATE_FABRIC_LABEL,
};
use matter_example::state::AppState;
use matter_example::types::{Action, CommissionableDevice, EndpointSummary, IpAddress};
use matc::clusters::{codec, defs};
use matc::tlv::{TlvItem, TlvItemValue};

fn field(tag: u8, value: TlvValue) -> TlvField {
    TlvField { tag, value }
}

fn ints(values: &[u64]) -> TlvValue {
    TlvValue::List(values.iter().map(|n| field(0, TlvValue::Int(*n))).collect())
}

fn text(s: &str) -> TlvValue {
    TlvValue::Text(s.to_string())
}

fn convert(value: &TlvValue) -> TlvItemValue {
    match value {
        TlvValue::Int(n) => TlvItemValue::Int(*n),
        TlvValue::Bool(b) => TlvItemValue::Bool(*b),
        TlvValue::Text(s) => TlvItemValue::String(s.clone()),
        TlvValue::Octets(o) => TlvItemValue::OctetString(o.clone()),
        TlvValue::List(fields) => TlvItemValue::List(
            fields
                .iter()
                .map(|f| TlvItem {
                    tag: f.tag,
                    value: convert(&f.value),
                })
                .collect(),
        ),
        TlvValue::Nil => TlvItemValue::Nil(),
        TlvValue::Invalid => TlvItemValue::Invalid(),
    }
}

fn samples() -> Vec<TlvValue> {
    vec![
        ints(&[]),
        ints(&[1, 2, 2, 0, 65537, u64::MAX]),
        TlvValue::List(vec![
            field(0, TlvValue::Bool(true)),
            field(7, TlvValue::Int(6)),
            field(0, text("x")),
            field(0, TlvValue::Octets(vec![1])),
            field(0, TlvValue::Nil),
            field(0, TlvValue::Invalid),
        ]),
        TlvValue::List(vec![
            field(
                0,
                TlvValue::List(vec![
                    field(1, text("Sunrise")),
                    field(0, TlvValue::Int(0x1_0000_000e)),
                    field(0, TlvValue::Int(5)),
                ]),
            ),
            field(0, TlvValue::List(vec![field(1, TlvValue::Int(9))])),
            field(0, TlvValue::List(vec![field(0, text("no id")), field(0, TlvValue::Int(1))])),
            field(0, TlvValue::Int(256)),
        ]),
        TlvValue::Int(3),
        text("x"),
        TlvValue::Nil,
    ]
}

#[test]
fn lists_are_read_as_the_protocol_library_reads_them() {
    for value in samples() {
        let other = convert(&value);
        assert_eq!(
            decode_server_list(&value),
            codec::descriptor_cluster::decode_server_list(&other).unwrap()
        );
        let mut ids = vec![0u16];
        for id in codec::descriptor_cluster::decode_parts_list(&other).unwrap() {
            if !ids.contains(&id) {
                ids.push(id);
            }
        }
        assert_eq!(collect_endpoint_ids(Some(&value)), ids);
        let types: Vec<String> = codec::descriptor_cluster::decode_device_type_list(&other)
            .unwrap()
            .into_iter()
            .filter_map(|item| item.device_type)
            .map(|id| {
                matc::clusters::dt_names::get_device_type_name(id)
                    .map(str::to_string)
                    .unwrap_or_else(|| format!("0x{id:04X}"))
            })
            .collect();
        assert_eq!(decode_device_type_list(&value), types);
        let actions: Vec<(Option<u16>, Option<String>)> =
            codec::actions_cluster::decode_action_list(&other)
                .unwrap()
                .into_iter()
                .map(|a| (a.action_id, a.name))
                .collect();
        let read: Vec<(Option<u16>, Option<String>)> = decode_action_list(&value)
            .into_iter()
            .map(|a| (a.action_id, a.name))
            .collect();
        assert_eq!(read, actions);
    }
    assert_eq!(collect_endpoint_ids(None), vec![0]);
}

#[test]
fn ids_are_those_of_the_protocol_library() {
    assert_eq!(CLUSTER_ON_OFF, defs::CLUSTER_ID_ON_OFF);
    assert_eq!(COMMAND_OFF, defs::CLUSTER_ON_OFF_CMD_ID_OFF);
    assert_eq!(COMMAND_ON, defs::CLUSTER_ON_OFF_CMD_ID_ON);
    assert_eq!(COMMAND_TOGGLE, defs::CLUSTER_ON_OFF_CMD_ID_TOGGLE);
    assert_eq!(CLUSTER_DESCRIPTOR, defs::CLUSTER_ID_DESCRIPTOR);
    assert_eq!(ATTRIBUTE_DEVICE_TYPE_LIST, defs::CLUSTER_DESCRIPTOR_ATTR_ID_DEVICETYPELIST);
    assert_eq!(ATTRIBUTE_SERVER_LIST, defs::CLUSTER_DESCRIPTOR_ATTR_ID_SERVERLIST);
    assert_eq!(ATTRIBUTE_PARTS_LIST, defs::CLUSTER_DESCRIPTOR_ATTR_ID_PARTSLIST);
    assert_eq!(CLUSTER_ACTIONS, defs::CLUSTER_ID_ACTIONS);
    assert_eq!(ATTRIBUTE_ACTION_LIST, defs::CLUSTER_ACTIONS_ATTR_ID_ACTIONLIST);
    assert_eq!(COMMAND_INSTANT_ACTION, defs::CLUSTER_ACTIONS_CMD_ID_INSTANTACTION);
    assert_eq!(COMMAND_START_ACTION, defs::CLUSTER_ACTIONS_CMD_ID_STARTACTION);
    assert_eq!(COMMAND_STOP_ACTION, defs::CLUSTER_ACTIONS_CMD_ID_STOPACTION);
    assert_eq!(COMMAND_PAUSE_ACTION, defs::CLUSTER_ACTIONS_CMD_ID_PAUSEACTION);
    assert_eq!(COMMAND_RESUME_ACTION, defs::CLUSTER_ACTIONS_CMD_ID_RESUMEACTION);
    assert_eq!(COMMAND_ENABLE_ACTION, defs::CLUSTER_ACTIONS_CMD_ID_ENABLEACTION);
    assert_eq!(COMMAND_DISABLE_ACTION, defs::CLUSTER_ACTIONS_CMD_ID_DISABLEACTION);
    assert_eq!(CLUSTER_BASIC_INFORMATION, defs::CLUSTER_ID_BASIC_INFORMATION);
    assert_eq!(
        CLUSTER_BRIDGED_DEVICE_BASIC_INFORMATION,
        defs::CLUSTER_ID_BRIDGED_DEVICE_BASIC_INFORMATION
    );
    assert_eq!(ATTRIBUTE_NODE_LABEL, defs::CLUSTER_BASIC_INFORMATION_ATTR_ID_NODELABEL);
    assert_eq!(
        ATTRIBUTE_NODE_LABEL,
        defs::CLUSTER_BRIDGED_DEVICE_BASIC_INFORMATION_ATTR_ID_NODELABEL
    );
    assert_eq!(CLUSTER_OPERATIONAL_CREDENTIALS, defs::CLUSTER_ID_OPERATIONAL_CREDENTIALS);
    assert_eq!(
        ATTRIBUTE_CURRENT_FABRIC_INDEX,
        defs::CLUSTER_OPERATIONAL_CREDENTIALS_ATTR_ID_CURRENTFABRICINDEX
    );
    assert_eq!(
        COMMAND_UPDATE_FABRIC_LABEL,
        defs::CLUSTER_OPERATIONAL_CREDENTIALS_CMD_ID_UPDATEFABRICLABEL
    );
    assert_eq!(
        COMMAND_REMOVE_FABRIC,
        defs::CLUSTER_OPERATIONAL_CREDENTIALS_CMD_ID_REMOVEFABRIC
    );
}

fn endpoint(actions: Vec<Action>) -> EndpointSummary {
    EndpointSummary {
        id: 4,
        label: None,
        device_types: Vec::new(),
        has_on_off: false,
        on_off_state: None,
        actions,
    }
}

fn action(id: Option<u16>, name: Option<&str>) -> Action {
    Action {
        action_id: id,
        name: name.map(str::to_string),
    }
}

#[test]
fn actions_have_seven_options_each() {
    let endpoint = endpoint(vec![action(Some(0x0102), Some("Party")), action(Some(3), None)]);
    let dialog = build_action_dialog_with(&endpoint, 5, &vec![0x01020304, 9]).unwrap();
    assert_eq!(dialog.title, "Endpoint 4 Actions");
    assert_eq!(dialog.endpoint_index, 5);
    assert_eq!(dialog.selected, 0);
    let labels: Vec<&str> = dialog.options.iter().map(|o| o.label.as_str()).collect();
    assert_eq!(
        labels,
        vec![
            "Instant: Party",
            "Start: Party",
            "Stop: Party",
            "Pause: Party",
            "Resume: Party",
            "Enable: Party",
            "Disable: Party",
            "Instant: unnamed",
            "Start: unnamed",
            "Stop: unnamed",
            "Pause: unnamed",
            "Resume: unnamed",
            "Enable: unnamed",
            "Disable: unnamed",
        ]
    );
    let commands: Vec<u32> = dialog.options.iter().map(|o| o.command_id).collect();
    assert_eq!(commands, vec![0, 2, 4, 5, 7, 8, 10, 0, 2, 4, 5, 7, 8, 10]);
    for option in &dialog.options[..7] {
        assert_eq!(option.payload, vec![0x25, 0, 2, 1, 0x26, 1, 4, 3, 2, 1]);
    }
    for option in &dialog.options[7..] {
        assert_eq!(option.payload, vec![0x25, 0, 3, 0, 0x26, 1, 9, 0, 0, 0]);
    }
}

#[test]
fn an_action_without_an_id_has_no_dialog() {
    let endpoint = endpoint(vec![action(Some(1), None), action(None, Some("x"))]);
    assert_eq!(
        build_action_dialog(&endpoint, 0).err(),
        Some(MatterError::ActionWithoutId)
    );
    assert_eq!(MatterError::ActionWithoutId.message(), "action missing action_id");
}

#[test]
fn a_dialog_that_is_built_now_differs_only_in_its_invocations() {
    let endpoint = endpoint(vec![action(Some(0x0102), Some("Party"))]);
    let dialog = build_action_dialog(&endpoint, 1).unwrap();
    assert_eq!(dialog.options.len(), 7);
    assert_eq!(dialog.options[6].label, "Disable: Party");
    assert_eq!(&dialog.options[6].payload[..6], &[0x25, 0, 2, 1, 0x26, 1]);
    assert_eq!(dialog.options[6].payload.len(), 10);
}

#[test]
fn invocations_are_numbered_by_the_clock() {
    assert_eq!(invoke_id_at(None), 1);
    assert_eq!(invoke_id_at(Some(5)), 5);
    assert_eq!(invoke_id_at(Some((1u128 << 40) + 7)), 7);
    let now = || {
        std::time::SystemTime::now()
            .duration_since(std::time::UNIX_EPOCH)
            .unwrap()
            .as_millis() as u32
    };
    let before = now();
    let id = next_invoke_id();
    assert!(id.wrapping_sub(before) <= now().wrapping_sub(before));
}

#[test]
fn fabric_commands_are_encoded() {
    let label = update_fabric_label("héllo").unwrap();
    assert_eq!(label.endpoint, 0);
    assert_eq!(label.cluster, 0x3e);
    assert_eq!(label.command, 9);
    assert_eq!(label.payload, vec![0x2c, 0, 6, b'h', 0xc3, 0xa9, b'l', b'l', b'o']);

    let remove = decommission_device(&TlvValue::Int(0x103)).unwrap();
    assert_eq!(remove.command, 10);
    assert_eq!(remove.payload, vec![0x24, 0, 3]);
    assert_eq!(
        decommission_device(&TlvValue::Nil).err(),
        Some(MatterError::FabricIndexNotAnInteger)
    );
    assert_eq!(MatterError::FabricIndexNotAnInteger.message(), "Expected UInt8");
    assert_eq!(MatterError::EncodingFailed.message(), "command cannot be encoded");
    assert_eq!(
        current_fabric_index(),
        AttributePath {
            endpoint: 0,
            cluster: 0x3e,
            attribute: 5
        }
    );
}

#[test]
fn a_long_label_keeps_the_lowest_byte_of_its_length() {
    let label = update_fabric_label(&"x".repeat(300)).unwrap();
    assert_eq!(label.payload.len(), 303);
    assert_eq!(label.payload[2], 44);
}

#[test]
fn credentials_are_made_where_they_are_missing() {
    assert_eq!(ensure_credentials(false, true, true), CredentialStep::Bootstrap);
    assert_eq!(ensure_credentials(true, false, true), CredentialStep::CreateUser);
    assert_eq!(ensure_credentials(true, true, false), CredentialStep::CreateUser);
    assert_eq!(ensure_credentials(true, true, true), CredentialStep::Ready);
    assert_eq!(cert_path(), "./pem");
    assert_eq!(
        credential_files(100),
        ("./pem/100-cert.pem".to_string(), "./pem/100-private.pem".to_string())
    );
}

/// A device that answers for some attributes.
fn answer(path: AttributePath) -> Option<TlvValue> {
    let AttributePath {
        endpoint,
        cluster,
        attribute,
    } = path;
    match (endpoint, cluster, attribute) {
        (0, 0x1d, 3) => Some(ints(&[2, 1, 2, 5])),
        (0, 0x1d, 1) => Some(ints(&[0x1d, 0x28])),
        (0, 0x1d, 0) => Some(TlvValue::List(vec![field(
            0,
            TlvValue::List(vec![field(0, TlvValue::Int(0x0e))]),
        )])),
        (0, 0x28, 5) => Some(text("Hub")),
        // The label of endpoint 2 comes from the bridge, its action list can be read.
        (2, 0x1d, 1) => Some(ints(&[6, 0x25])),
        (2, 0x1d, 0) => Some(ints(&[])),
        (2, 0x39, 5) => Some(text("Lamp")),
        (2, 0x28, 5) => Some(text("never asked for")),
        (2, 0x25, 0) => Some(TlvValue::List(vec![field(
            0,
            TlvValue::List(vec![field(0, TlvValue::Int(1)), field(1, text("Blink"))]),
        )])),
        // Endpoint 1 has no device types to read, endpoint 5 no action list.
        (1, 0x1d, 1) => Some(ints(&[6])),
        (5, 0x1d, 1) => Some(ints(&[0x25])),
        (5, 0x1d, 0) => Some(ints(&[])),
        (5, 0x39, 5) => Some(text("")),
        _ => None,
    }
}

fn run(load: EndpointLoad) -> (EndpointLoad, Vec<AttributePath>) {
    let mut load = load;
    let mut asked = Vec::new();
    while let Some(path) = load.request() {
        asked.push(path);
        load = load.answer(answer(path));
    }
    (load, asked)
}

#[test]
fn endpoints_are_read_one_attribute_after_the_other() {
    let (load, asked) = run(EndpointLoad::start());
    let ids: Vec<u16> = load.endpoints.iter().map(|e| e.id).collect();
    assert_eq!(ids, vec![0, 2]);
    let hub = &load.endpoints[0];
    assert_eq!(hub.label.as_deref(), Some("Hub"));
    assert_eq!(hub.device_types, vec!["Aggregator".to_string()]);
    assert!(!hub.has_on_off);
    assert!(hub.actions.is_empty());
    let lamp = &load.endpoints[1];
    assert_eq!(lamp.label.as_deref(), Some("Lamp"));
    assert!(lamp.has_on_off);
    assert_eq!(lamp.on_off_state, None);
    assert_eq!(lamp.actions[0].action_id, Some(1));
    assert_eq!(lamp.actions[0].name.as_deref(), Some("Blink"));
    let short: Vec<(u16, u32, u32)> =
        asked.iter().map(|p| (p.endpoint, p.cluster, p.attribute)).collect();
    assert_eq!(
        short,
        vec![
            (0, 0x1d, 3),
            (0, 0x1d, 1),
            (0, 0x1d, 0),
            (0, 0x39, 5),
            (0, 0x28, 5),
            (2, 0x1d, 1),
            (2, 0x1d, 0),
            (2, 0x39, 5),
            (2, 0x25, 0),
            (1, 0x1d, 1),
            (1, 0x1d, 0),
            (5, 0x1d, 1),
            (5, 0x1d, 0),
            (5, 0x39, 5),
            (5, 0x28, 5),
            (5, 0x25, 0),
        ]
    );
}

#[test]
fn a_silent_device_has_no_endpoints() {
    let mut load = EndpointLoad::start_with_label();
    while load.request().is_some() {
        load = load.answer(None);
    }
    assert!(load.endpoints.is_empty());
    assert_eq!(load.own_label, None);
}

#[test]
fn a_device_is_commissioned_under_the_next_node_id() {
    let state = AppState::default();
    let device = CommissionableDevice {
        display_name: "Found".to_string(),
        device_type: String::new(),
        addresses: vec![IpAddress {
            v4: true,
            text: "10.0.0.2".to_string(),
        }],
        port: 5540,
        discriminator: None,
        vendor_id: None,
        product_id: None,
    };
    let order = start_commission(&state, &device, 20202021);
    assert_eq!(order.pin, 20202021);
    assert_eq!(order.node_id, 0x1001);
    assert_eq!(order.controller_id, 100);
    assert_eq!(order.address, "10.0.0.2:5540");
    let (load, asked) = run(EndpointLoad::start_with_label());
    assert_eq!(asked[0].cluster, 0x39);
    let pending = commissioned(order, "connection", load);
    assert_eq!(pending.device_label, "Hub");
    assert_eq!(pending.fabric_label, "matter-client");
    assert_eq!(pending.endpoints.len(), 2);
    assert_eq!(pending.connection, "connection");

    let order = start_commission(&state, &device, 1);
    let silent = commissioned(order, (), EndpointLoad::start());
    assert_eq!(silent.device_label, "Found");
}
