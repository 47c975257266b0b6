use matter_example::app::App;
use matter_example::app_model::KeyCode;
use matter_example::state::{AppState, EndpointAlias, KnownDevice};
use matter_example::types::{
    Action, ActionDialog, ActionOption, CommissionableDevice, CommissionedDevice, EndpointSummary,
    IpAddress, PendingCommission, StatusKind,
};
use matter_example::ui::{
    centered, draw, draw_action_dialog, draw_input_box, focus_block, list_state,
    saved_devices_text, status_style, Color, Line, Panes, Style, Widget,
};

fn text(lines: &[Line]) -> Vec<String> {
    lines
        .iter()
        .map(|l| l.spans.iter().map(|s| s.text.as_str()).collect::<String>())
        .collect()
}

fn paragraph(widget: &Widget) -> Vec<String> {
    match widget {
        Widget::Paragraph { lines, .. } => text(lines),
        Widget::List { .. } => panic!("a list"),
    }
}

fn list(widget: &Widget) -> (Vec<Vec<String>>, Option<usize>) {
    match widget {
        Widget::List {
            items, selected, ..
        } => (items.iter().map(|i| text(i)).collect(), *selected),
        Widget::Paragraph { .. } => panic!("a paragraph"),
    }
}

fn title(widget: &Widget) -> Option<String> {
    let border = match widget {
        Widget::List { border, .. } => border,
        Widget::Paragraph { border, .. } => border,
    };
    border
        .title
        .as_ref()
        .map(|t| t.spans.iter().map(|s| s.text.as_str()).collect())
}

fn known(label: &str, node_id: u64) -> KnownDevice {
    KnownDevice {
        label: label.to_string(),
        node_id,
        last_address: "10.0.0.9:5540".to_string(),
    }
}

fn endpoint(id: u16, label: Option<&str>, has_on_off: bool) -> EndpointSummary {
    EndpointSummary {
        id,
        label: label.map(str::to_string),
        device_types: Vec::new(),
        has_on_off,
        on_off_state: None,
        actions: Vec::new(),
    }
}

fn overview() -> App<()> {
    let mut state = AppState::default();
    state.devices.push(known("Hub", 9));
    state.endpoint_aliases.push(EndpointAlias {
        node_id: 9,
        endpoint_id: 1,
        label: "Lamp".to_string(),
    });
    state.endpoint_aliases.push(EndpointAlias {
        node_id: 9,
        endpoint_id: 2,
        label: "Fan".to_string(),
    });
    let mut app = App::new(state);
    let ip = IpAddress {
        v4: true,
        text: "10.0.0.9".to_string(),
    };
    let seen = |display_name: &str, known: Option<KnownDevice>| CommissionedDevice {
        display_name: display_name.to_string(),
        addresses: Vec::new(),
        port: 1,
        known,
    };
    app.refresh_scan(Ok((
        vec![CommissionableDevice {
            display_name: "Bulb".to_string(),
            device_type: "Light".to_string(),
            addresses: vec![ip],
            port: 5540,
            discriminator: Some("3840".to_string()),
            vendor_id: None,
            product_id: Some("2".to_string()),
        }],
        vec![
            seen("svc", Some(known("Hub", 9))),
            seen("Hub node=9", Some(known("Hub", 9))),
            seen("Hu", Some(known("H\nu", 9))),
            seen("other", None),
        ],
    )));
    app
}

#[test]
fn the_overview_shows_what_was_found_and_what_is_saved() {
    let picture = draw(&overview());
    assert!(picture.dialog.is_none());
    let Panes::Overview {
        header,
        commissionable,
        commissioned,
        saved,
        footer,
    } = &picture.panes
    else {
        panic!("another screen");
    };
    assert_eq!(
        paragraph(header),
        vec![" Matter Client", "  Controller: 100   Fabric: matter-client"]
    );
    assert_eq!(title(commissionable).as_deref(), Some(" Commissionable "));
    assert_eq!(
        list(commissionable),
        (
            vec![vec![
                "Bulb".to_string(),
                "Light  10.0.0.9:5540".to_string(),
                "disc=3840  vid=-  pid=2".to_string()
            ]],
            Some(0)
        )
    );
    let (items, selected) = list(commissioned);
    assert_eq!(selected, Some(0));
    assert_eq!(items[0], vec!["Hub node=9", "127.0.0.1:1", "svc: svc"]);
    assert_eq!(items[1], vec!["Hub node=9", "127.0.0.1:1"]);
    assert_eq!(items[2].len(), 3);
    assert_eq!(items[3], vec!["other (unmanaged)", "127.0.0.1:1"]);
    assert_eq!(title(saved).as_deref(), Some(" Saved Devices "));
    assert_eq!(
        paragraph(saved),
        vec!["Hub  node=9  10.0.0.9:5540", "  ep1=Lamp  ep2=Fan"]
    );
    assert_eq!(
        paragraph(footer),
        vec![
            "Found 1 commissionable and 4 commissioned device(s).",
            "Tab/←/→ switch pane  ↑↓ select  r refresh  c commission  Enter/m manage  q quit"
        ]
    );
}

#[test]
fn nothing_saved_is_said() {
    assert_eq!(text(&saved_devices_text(&AppState::default())), vec!["No saved devices."]);
    let app: App<()> = App::new(AppState::default());
    let Panes::Overview { commissionable, .. } = draw(&app).panes else {
        panic!("another screen");
    };
    assert_eq!(list(&commissionable), (Vec::new(), None));
}

fn managed() -> App<()> {
    let mut app = App::new(AppState::default());
    let mut scenes = endpoint(2, Some("Scenes"), true);
    scenes.device_types = vec!["A".to_string(), "B".to_string()];
    scenes.actions = vec![
        Action {
            action_id: Some(4),
            name: Some("Party".to_string()),
        },
        Action {
            action_id: None,
            name: None,
        },
    ];
    app.device_opened(known("Hub", 9), (), vec![endpoint(0, None, false), scenes], 0);
    app
}

#[test]
fn the_screen_of_a_device_shows_its_endpoints() {
    let mut app = managed();
    app.on_key(true, KeyCode::Down).unwrap();
    let Panes::Manage {
        header,
        endpoints,
        details,
        footer,
    } = draw(&app).panes
    else {
        panic!("another screen");
    };
    assert_eq!(paragraph(&header), vec![" Hub", "  node=9   addr=10.0.0.9:5540"]);
    assert_eq!(title(&header).as_deref(), Some(" Managed Device "));
    let (items, selected) = list(&endpoints);
    assert_eq!(selected, Some(1));
    assert_eq!(items[0], vec!["ep0 unnamed", "no capabilities"]);
    assert_eq!(items[1], vec!["ep2 Scenes", "[on/off] [actions] "]);
    assert_eq!(
        paragraph(&details),
        vec![
            "Endpoint:  2",
            "Label:     Scenes",
            "Types:     A, B",
            "OnOff:     yes",
            "",
            "Actions:",
            "  Party (id=4)",
            "  unnamed (id=0)",
        ]
    );
    assert_eq!(
        paragraph(&footer)[1],
        "↑↓ select  o on  p off  a actions  n rename  f fabric  d decommission  b/Esc back"
    );
    app.on_key(true, KeyCode::Up).unwrap();
    let Panes::Manage { details, .. } = draw(&app).panes else {
        panic!("another screen");
    };
    assert_eq!(
        paragraph(&details),
        vec!["Endpoint:  0", "Label:     unnamed", "Types:     unknown type", "OnOff:     no"]
    );
    app.device_opened(known("Hub", 9), (), Vec::new(), 0);
    let Panes::Manage { details, .. } = draw(&app).panes else {
        panic!("another screen");
    };
    assert_eq!(paragraph(&details), vec!["No endpoints found."]);
}

fn dialog(app: &App<()>) -> Widget {
    draw(app).dialog.unwrap()
}

#[test]
fn dialogs_are_shown() {
    let mut app = managed();
    app.report_error("went wrong");
    assert_eq!(
        paragraph(&dialog(&app)),
        vec!["went wrong", "", "Press Enter or Esc to dismiss."]
    );
    assert_eq!(title(&dialog(&app)).as_deref(), Some(" Working… "));
    app.on_key(true, KeyCode::Esc).unwrap();

    app.on_key(true, KeyCode::Char('d')).unwrap();
    let confirm = dialog(&app);
    assert_eq!(title(&confirm).as_deref(), Some(" Decommission Device "));
    assert_eq!(
        paragraph(&confirm),
        vec![
            "Remove this client's fabric from the device? Press y to confirm.",
            "",
            "y = yes    n / Esc = cancel"
        ]
    );
    match &confirm {
        Widget::Paragraph { border, wrap, .. } => {
            assert_eq!(border.style.fg, Some(Color::Red));
            assert!(wrap);
        }
        Widget::List { .. } => panic!("a list"),
    }
    app.on_key(true, KeyCode::Esc).unwrap();

    app.on_key(true, KeyCode::Char('f')).unwrap();
    app.on_key(true, KeyCode::Char('!')).unwrap();
    assert_eq!(
        paragraph(&dialog(&app)),
        vec![
            "This label is written to the device's fabric entry",
            "",
            "> matter-client!█",
            "",
            "Enter = confirm    Esc = cancel"
        ]
    );
    app.on_key(true, KeyCode::Esc).unwrap();
}

#[test]
fn the_options_for_actions_are_listed() {
    let mut state = managed();
    let mut scenes = endpoint(2, None, false);
    scenes.actions.push(Action {
        action_id: Some(1),
        name: Some("Party".to_string()),
    });
    state.device_opened(known("Hub", 9), (), vec![scenes], 0);
    state.on_key(true, KeyCode::Char('a')).unwrap();
    state.on_key(true, KeyCode::Down).unwrap();
    let widget = dialog(&state);
    let (items, selected) = list(&widget);
    assert_eq!(items.len(), 7);
    assert_eq!(items[1], vec!["Start: Party"]);
    assert_eq!(selected, Some(1));
    assert_eq!(title(&widget).as_deref(), Some(" Endpoint 2 Actions "));
    match &widget {
        Widget::List {
            border, highlight, ..
        } => {
            let bottom = border.bottom.as_ref().unwrap();
            assert_eq!(bottom.spans.len(), 1);
            assert_eq!(bottom.spans[0].text, " ↑↓ select   Enter invoke   Esc cancel ");
            assert_eq!(
                *highlight,
                Style {
                    fg: Some(Color::Black),
                    bg: Some(Color::Magenta),
                    bold: true,
                    dim: false
                }
            );
        }
        Widget::Paragraph { .. } => panic!("a paragraph"),
    }
}

#[test]
fn the_dialogs_of_commissioning_are_shown() {
    let mut app: App<()> = App::new(AppState::default());
    app.commission_started(PendingCommission {
        connection: (),
        node_id: 4097,
        address: String::new(),
        device_label: "Bulb".to_string(),
        fabric_label: "home".to_string(),
        endpoints: vec![endpoint(0, None, false), endpoint(7, Some("x"), true)],
    });
    assert_eq!(title(&dialog(&app)).as_deref(), Some(" Commission — Device Name "));
    assert_eq!(
        paragraph(&dialog(&app))[0],
        "Give this device a local name.  Suggested: Bulb"
    );
    app.on_key(true, KeyCode::Enter).unwrap();
    assert_eq!(title(&dialog(&app)).as_deref(), Some(" Commission — Fabric Label "));
    assert_eq!(paragraph(&dialog(&app))[0], "Label written to node 4097. Default: home");
    app.on_key(true, KeyCode::Enter).unwrap();
    app.on_key(true, KeyCode::Enter).unwrap();
    assert_eq!(
        title(&dialog(&app)).as_deref(),
        Some(" Commission — Endpoint 7 Label  [2/2] ")
    );
    assert_eq!(
        paragraph(&dialog(&app))[0],
        "Local alias for this endpoint.  Press Enter to accept."
    );
    assert_eq!(paragraph(&dialog(&app))[2], "> x█");
}

#[test]
fn parts_have_their_styles() {
    assert_eq!(status_style(StatusKind::Success).fg, Some(Color::Green));
    assert_eq!(status_style(StatusKind::Progress).fg, Some(Color::Yellow));
    assert_eq!(status_style(StatusKind::Error).fg, Some(Color::Red));
    assert_eq!(status_style(StatusKind::Normal).fg, None);
    let focused = focus_block("t", true);
    assert_eq!(focused.style.fg, Some(Color::Cyan));
    assert!(focused.title.unwrap().spans[0].style.bold);
    let other = focus_block("t", false);
    assert_eq!(other.style.fg, Some(Color::DarkGray));
    assert!(!other.title.unwrap().spans[0].style.bold);
    assert_eq!(list_state(3, false), Some(3));
    assert_eq!(list_state(3, true), None);
    assert_eq!(centered(68), (16, 68, 16));
    assert_eq!(centered(41), (29, 41, 29));
}

#[test]
fn a_label_with_a_line_end_is_compared_as_it_is_shown() {
    let mut app: App<()> = App::new(AppState::default());
    app.refresh_scan(Ok((
        Vec::new(),
        vec![CommissionedDevice {
            display_name: "Hub node=9".to_string(),
            addresses: Vec::new(),
            port: 1,
            known: Some(known("H\nub", 9)),
        }],
    )));
    let Panes::Overview { commissioned, .. } = draw(&app).panes else {
        panic!("another screen");
    };
    assert_eq!(list(&commissioned).0[0].len(), 2);
}

fn spans(line: &Line) -> Vec<String> {
    line.spans.iter().map(|s| s.text.clone()).collect()
}

fn terminal_spans(line: &ratatui::text::Line) -> Vec<String> {
    line.spans.iter().map(|s| s.content.to_string()).collect()
}

#[test]
fn bare_texts_are_lines_as_the_terminal_library_makes_them() {
    for text in ["", "one", "one\ntwo", "\n", "a\r\nb\n", "a\r", "a\n\nb"] {
        let mut app: App<()> = App::new(AppState::default());
        app.report_error(text);
        let Widget::Paragraph { lines, .. } = dialog(&app) else {
            panic!("a list");
        };
        assert_eq!(spans(&lines[0]), terminal_spans(&ratatui::text::Line::from(text)));
        assert_eq!(spans(&lines[1]), terminal_spans(&ratatui::text::Line::from("")));
        assert!(lines[1].spans.is_empty());

        let Widget::Paragraph { border, lines, .. } = draw_input_box(text, "v", "h") else {
            panic!("a list");
        };
        let title = ratatui::text::Line::from(format!(" {text} "));
        assert_eq!(spans(&border.title.unwrap()), terminal_spans(&title));
        assert!(lines[1].spans.is_empty() && lines[3].spans.is_empty());

        let Widget::List { border, items, .. } = draw_action_dialog(&ActionDialog {
            title: text.to_string(),
            options: vec![ActionOption {
                label: text.to_string(),
                command_id: 0,
                payload: Vec::new(),
            }],
            endpoint_index: 0,
            selected: 0,
        }) else {
            panic!("a paragraph");
        };
        assert_eq!(spans(&border.title.unwrap()), terminal_spans(&title));
        let label = ratatui::text::Text::from(text.to_string());
        let shown: Vec<Vec<String>> = items[0].iter().map(spans).collect();
        let expected: Vec<Vec<String>> = label.lines.iter().map(terminal_spans).collect();
        assert_eq!(shown, expected);
    }
}
