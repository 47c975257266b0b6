use matter_example::invoker::{
    command_for, command_with, find_action_option, find_endpoint, on_off_command, parse_arguments,
    resolve, same_name, sent_message, InvokerError, Request,
};
use matter_example::matter::MatterError;
use matter_example::state::{AppState, EndpointAlias, KnownDevice};
use matter_example::types::{Action, ActionOption, EndpointSummary};

fn request(device: &str, endpoint: &str, action: &str) -> Request {
    Request {
        device: device.to_string(),
        endpoint: endpoint.to_string(),
        action: action.to_string(),
    }
}

fn state() -> AppState {
    let mut state = AppState::default();
    for (label, node_id) in [("Kitchen", 1), ("Hall", 2), ("hall", 3)] {
        state.devices.push(KnownDevice {
            label: label.to_string(),
            node_id,
            last_address: format!("10.0.0.{node_id}:5540"),
        });
    }
    for (node_id, endpoint_id, label) in [(1, 4, "Lamp"), (2, 5, "Lamp"), (2, 6, "lamp")] {
        state.endpoint_aliases.push(EndpointAlias {
            node_id,
            endpoint_id,
            label: label.to_string(),
        });
    }
    state
}

fn endpoint(has_on_off: bool, actions: &[(Option<u16>, &str)]) -> EndpointSummary {
    EndpointSummary {
        id: 7,
        label: None,
        device_types: Vec::new(),
        has_on_off,
        on_off_state: None,
        actions: actions
            .iter()
            .map(|(id, name)| Action {
                action_id: *id,
                name: Some(name.to_string()),
            })
            .collect(),
    }
}

fn option(label: &str, command_id: u32) -> ActionOption {
    ActionOption {
        label: label.to_string(),
        command_id,
        payload: vec![command_id as u8],
    }
}

#[test]
fn three_arguments_are_needed() {
    let args = |n: usize| -> Vec<String> { (0..n).map(|i| format!("arg{i}")).collect() };
    let message = |n: usize| parse_arguments(&args(n)).unwrap_err().message();
    assert_eq!(message(0), "missing device name");
    assert_eq!(message(1), "missing endpoint name");
    assert_eq!(message(2), "missing action");
    assert_eq!(message(4), "usage: invoker <device name> <endpoint name> <action>");
    let parsed = parse_arguments(&args(3)).unwrap();
    assert_eq!(parsed.device, "arg0");
    assert_eq!(parsed.endpoint, "arg1");
    assert_eq!(parsed.action, "arg2");
}

#[test]
fn names_are_the_same_but_for_case_and_blanks() {
    assert!(same_name(" Hall ", "hALL"));
    assert!(!same_name("Hall", "Hall 2"));
    assert!(same_name("", "  "));
}

#[test]
fn names_resolve_to_the_first_match() {
    let (device, alias) = resolve(&state(), &request("HALL", " Lamp", "on")).unwrap();
    assert_eq!(device.node_id, 2);
    assert_eq!(device.last_address, "10.0.0.2:5540");
    assert_eq!(alias.endpoint_id, 5);
    assert_eq!(
        resolve(&state(), &request("Attic", "Lamp", "on")).unwrap_err().message(),
        "device not found in state: Attic"
    );
    assert_eq!(
        resolve(&state(), &request("kitchen", "Fan", "on")).unwrap_err().message(),
        "endpoint not found in state for device \"Kitchen\": Fan"
    );
}

#[test]
fn names_resolve_the_same_after_a_round_trip_through_the_file() {
    let mut before = state();
    before.endpoint_aliases[0].label = "Lamp\r".to_string();
    let after = AppState::load(Some(&before.save())).unwrap();
    assert_eq!(after.endpoint_aliases[0].label, "Lamp");
    for s in [&before, &after] {
        let (device, alias) = resolve(s, &request("kitchen", "lamp", "on")).unwrap();
        assert_eq!((device.node_id, alias.endpoint_id), (1, 4));
    }
}

#[test]
fn a_saved_endpoint_can_be_gone() {
    let endpoints = vec![endpoint(true, &[])];
    assert_eq!(find_endpoint(&endpoints, 7, "Hall").unwrap().id, 7);
    assert_eq!(
        find_endpoint(&endpoints, 8, "Hall").unwrap_err().message(),
        "endpoint 8 is saved for \"Hall\" but was not found on the device"
    );
}

#[test]
fn on_off_words_are_commands() {
    let switch = endpoint(true, &[]);
    assert_eq!(on_off_command(&switch, " ON ").unwrap(), Some(1));
    assert_eq!(on_off_command(&switch, "off").unwrap(), Some(0));
    assert_eq!(on_off_command(&switch, "Toggle").unwrap(), Some(2));
    assert_eq!(on_off_command(&switch, "dim").unwrap(), None);
    let other = endpoint(false, &[]);
    assert_eq!(on_off_command(&other, "dim").unwrap(), None);
    assert_eq!(
        on_off_command(&other, "on").unwrap_err().message(),
        "endpoint does not support On/Off commands"
    );
}

#[test]
fn options_are_found_by_label_then_by_name() {
    let options = vec![
        option("Instant: Party", 0),
        option("Start: Party", 2),
        option("Start: Sleep", 3),
        option("Instant: Sleep: deep", 4),
    ];
    let found = |s: &str| find_action_option(&options, s).map(|o| o.command_id);
    assert_eq!(found("start: party ").unwrap(), 2);
    assert_eq!(found("party").unwrap(), 0);
    assert_eq!(found("sleep").unwrap(), 3);
    assert_eq!(found("Sleep: deep").unwrap(), 4);
    assert_eq!(
        found("wake").unwrap_err().message(),
        "action not found: wake. Available actions: Instant: Party, Start: Party, Start: Sleep, Instant: Sleep: deep"
    );
    assert_eq!(
        find_action_option(&Vec::new(), "x").unwrap_err().message(),
        "endpoint has no Actions cluster entries"
    );
}

#[test]
fn a_name_that_two_options_share_is_not_found() {
    let twice = vec![option("Start: a", 1), option("Stop: a", 2)];
    assert!(matches!(
        find_action_option(&twice, "a"),
        Err(InvokerError::ActionNotFound { .. })
    ));
    let instant = vec![option("Instant: a", 1), option("instant : a", 2), option("Stop: b", 3)];
    assert!(find_action_option(&instant, "a").is_err());
    let plain = vec![option("no colon", 1)];
    assert_eq!(find_action_option(&plain, "NO COLON").unwrap().command_id, 1);
    assert!(find_action_option(&plain, "colon").is_err());
}

#[test]
fn commands_are_made_for_actions() {
    let switch = endpoint(true, &[(Some(1), "On")]);
    let (invocation, label) = command_with(&switch, " ON ", &vec![5]).unwrap();
    assert_eq!((invocation.endpoint, invocation.cluster, invocation.command), (7, 6, 1));
    assert!(invocation.payload.is_empty());
    assert_eq!(label, "ON");

    let scene = endpoint(false, &[(Some(1), "Party")]);
    let (invocation, label) = command_with(&scene, "party", &vec![5]).unwrap();
    assert_eq!((invocation.endpoint, invocation.cluster, invocation.command), (7, 0x25, 0));
    assert_eq!(invocation.payload, vec![0x25, 0, 1, 0, 0x26, 1, 5, 0, 0, 0]);
    assert_eq!(label, "Instant: Party");

    let nameless = endpoint(false, &[(None, "Party")]);
    assert!(matches!(
        command_for(&nameless, "party"),
        Err(InvokerError::Matter(MatterError::ActionWithoutId))
    ));
    let (invocation, label) = command_for(&scene, "stop: party").unwrap();
    assert_eq!(invocation.command, 4);
    assert_eq!(label, "Stop: Party");
    assert_eq!(
        sent_message(&label, "Hall", "Lamp"),
        "Sent \"Stop: Party\" to Hall / Lamp."
    );
}
