//! The terminal client as a mathematical object: its state, and what every key and every piece of
//! outside work does to it.

use crate::endpoints::TlvValue;
use crate::matter;
use crate::matter::{
    CommissionOrderView, InvocationView, MatterError, CLUSTER_ACTIONS, CLUSTER_ON_OFF, COMMAND_OFF,
    COMMAND_ON,
};
use crate::number;
use crate::setup_code;
use crate::setup_code::SetupCodeError;
use crate::state;
use crate::state::{AppStateView, EndpointAliasView, KnownDeviceView};
use crate::text;
use crate::types::{
    ActionDialogView, CommissionableDeviceView, CommissionedDeviceView, ConfirmAction,
    ConfirmDialogView, EndpointSummaryView, FocusPane, InputDialogView, ManageStateView, ModalView,
    PendingCommissionView, PendingTaskView, ScreenView, StatusKind, SubmitAction,
};
use crate::utils;
use vstd::prelude::*;

verus! {

/// A key, as far as the client tells keys apart.
#[derive(Clone, Copy, Debug, PartialEq, Eq, Structural)]
pub enum KeyCode {
    Char(char),
    Enter,
    Esc,
    Tab,
    Left,
    Right,
    Up,
    Down,
    Backspace,
    Other,
}

/// What the client does next.
#[derive(Clone, Copy, Debug, PartialEq, Eq, Structural)]
pub enum Turn {
    Quit,
    RunTask,
    WaitForKey,
}

/// Why the client cannot do what it was asked for.
#[derive(Clone, Copy, Debug, PartialEq, Eq, Structural)]
pub enum AppError {
    EndpointNotFound,
    ActionOptionNotFound,
    CommissionableNotFound,
    CommissionedNotFound,
    SetupCode(SetupCodeError),
    Matter(MatterError),
}

impl AppError {
    /// The reason in words.
    pub open spec fn text(self) -> Seq<char> {
        match self {
            AppError::EndpointNotFound => "endpoint not found"@,
            AppError::ActionOptionNotFound => "action option not found"@,
            AppError::CommissionableNotFound => "commissionable device not found"@,
            AppError::CommissionedNotFound => "commissioned device not found"@,
            AppError::SetupCode(e) => e.text(),
            AppError::Matter(e) => e.text(),
        }
    }

    /// The reason in words.
    pub fn message(&self) -> (r: String)
        ensures
            r@ == self.text(),
    {
        match self {
            AppError::EndpointNotFound => "endpoint not found".to_string(),
            AppError::ActionOptionNotFound => "action option not found".to_string(),
            AppError::CommissionableNotFound => "commissionable device not found".to_string(),
            AppError::CommissionedNotFound => "commissioned device not found".to_string(),
            AppError::SetupCode(e) => e.message(),
            AppError::Matter(e) => e.message(),
        }
    }
}

/// The contents of the client.
#[verifier::ext_equal]
pub struct AppView<C> {
    pub state: AppStateView,
    pub screen: ScreenView<C>,
    pub focus: FocusPane,
    pub commissionable: Seq<CommissionableDeviceView>,
    pub commissioned: Seq<CommissionedDeviceView>,
    pub selected_commissionable: usize,
    pub selected_commissioned: usize,
    pub modal: Option<ModalView<C>>,
    pub pending_task: Option<PendingTaskView<C>>,
    pub status: Seq<char>,
    pub status_kind: StatusKind,
    pub quit: bool,
}

/// What a command that has been sent was for.
#[verifier::ext_equal]
pub enum SentView {
    On { endpoint: u16 },
    Off { endpoint: u16 },
    Action { endpoint: u16, label: Seq<char> },
    FabricLabel { label: Seq<char> },
    RemoveFabric { node_id: u64, label: Seq<char> },
}

/// What the state was stored for.
#[verifier::ext_equal]
pub enum SavedView {
    EndpointLabel { endpoint: u16 },
    FabricLabel,
    Decommissioned { label: Seq<char> },
    Commissioned { label: Seq<char>, node_id: u64 },
}

/// The outside work that comes next.
#[verifier::ext_equal]
pub enum StepView<C> {
    Done,
    Scan,
    Commission(CommissionOrderView),
    Open(KnownDeviceView),
    Reload,
    Invoke { invocation: InvocationView, sent: SentView },
    ReadFabricIndex,
    Finish { pending: PendingCommissionView<C>, invocation: InvocationView },
    Save { contents: Seq<char>, saved: SavedView },
}

// Invariant

/// Whether a selection denotes an entry of a list of this length, or is the first where the list
/// is empty.
pub open spec fn selection_ok(selected: usize, len: nat) -> bool {
    selected == 0 || selected < len
}

impl<C> AppView<C> {
    /// What holds of the client at all times: every selection denotes an entry, and a dialog that
    /// names an endpoint has that endpoint.
    pub open spec fn wf(self) -> bool {
        &&& selection_ok(self.selected_commissionable, self.commissionable.len())
        &&& selection_ok(self.selected_commissioned, self.commissioned.len())
        &&& self.screen matches ScreenView::Manage(m) ==> selection_ok(
            m.selected_endpoint,
            m.endpoints.len(),
        )
        &&& match self.modal {
            Some(ModalView::Action(dialog)) => selection_ok(dialog.selected, dialog.options.len()),
            Some(ModalView::CommissionEndpointName { pending, index, value }) => index
                < pending.endpoints.len(),
            _ => true,
        }
    }
}

// Parts of transitions

/// The client when it starts.
pub open spec fn started<C>(state: AppStateView) -> AppView<C> {
    AppView {
        state,
        screen: ScreenView::Overview,
        focus: FocusPane::Commissionable,
        commissionable: seq![],
        commissioned: seq![],
        selected_commissionable: 0,
        selected_commissioned: 0,
        modal: None,
        pending_task: None,
        status: "Press r to scan for devices."@,
        status_kind: StatusKind::Normal,
        quit: false,
    }
}

/// What the client does next: it ends when it was told to, and runs the task that is due before it
/// takes another key.
pub open spec fn next_turn<C>(a: AppView<C>) -> Turn {
    if a.quit {
        Turn::Quit
    } else if a.pending_task is Some {
        Turn::RunTask
    } else {
        Turn::WaitForKey
    }
}

/// The client with another status.
pub open spec fn with_status<C>(a: AppView<C>, status: Seq<char>, kind: StatusKind) -> AppView<C> {
    AppView { status, status_kind: kind, ..a }
}

/// The client with a dialog.
pub open spec fn with_modal<C>(a: AppView<C>, modal: ModalView<C>) -> AppView<C> {
    AppView { modal: Some(modal), ..a }
}

/// The client with a task to run, and a message that says so.
pub open spec fn queued<C>(a: AppView<C>, task: PendingTaskView<C>, message: Seq<char>) -> AppView<
    C,
> {
    AppView {
        pending_task: Some(task),
        modal: Some(ModalView::Message(message)),
        status: message,
        status_kind: StatusKind::Progress,
        ..a
    }
}

/// The client when something has gone wrong.
pub open spec fn failed<C>(a: AppView<C>, message: Seq<char>) -> AppView<C> {
    AppView {
        modal: Some(ModalView::Message(message)),
        status: message,
        status_kind: StatusKind::Error,
        ..a
    }
}

/// The selection before this one.
pub open spec fn previous(selected: usize) -> usize {
    if selected > 0 {
        (selected - 1) as usize
    } else {
        0
    }
}

/// The selection behind this one in a list of this length; the last entry stays selected.
pub open spec fn next(selected: usize, len: nat) -> usize {
    if len == 0 {
        0
    } else if selected + 1 < len {
        (selected + 1) as usize
    } else {
        (len - 1) as usize
    }
}

/// The selection that stays in a list of this length.
pub open spec fn clamped(selected: usize, len: nat) -> usize {
    if len == 0 {
        0
    } else if selected < len {
        selected
    } else {
        (len - 1) as usize
    }
}

/// The name under which an endpoint is offered: its label, else its device types.
pub open spec fn default_label(endpoint: EndpointSummaryView) -> Seq<char> {
    match endpoint.label {
        Some(label) => label,
        None => utils::device_types_text(endpoint.device_types),
    }
}

/// A text with one more character.
pub open spec fn typed(value: Seq<char>, c: char) -> Seq<char> {
    value.push(c)
}

/// A text without its last character.
pub open spec fn erased(value: Seq<char>) -> Seq<char> {
    if value.len() > 0 {
        value.drop_last()
    } else {
        value
    }
}

/// The text of a field after a key that edits it; none for a key that does not.
pub open spec fn edited(value: Seq<char>, key: KeyCode) -> Option<Seq<char>> {
    match key {
        KeyCode::Char(c) => Some(typed(value, c)),
        KeyCode::Backspace => Some(erased(value)),
        _ => None,
    }
}

// Keys on the overview

/// What a key does on the overview.
pub open spec fn overview_key<C>(a: AppView<C>, key: KeyCode) -> AppView<C> {
    match key {
        KeyCode::Char('q') => AppView { quit: true, ..a },
        KeyCode::Char('r') => queued(
            a,
            PendingTaskView::RefreshScan,
            "Scanning LAN for Matter devices..."@,
        ),
        KeyCode::Tab | KeyCode::Left | KeyCode::Right => AppView {
            focus: match a.focus {
                FocusPane::Commissionable => FocusPane::Commissioned,
                FocusPane::Commissioned => FocusPane::Commissionable,
            },
            ..a
        },
        KeyCode::Up => match a.focus {
            FocusPane::Commissionable => AppView {
                selected_commissionable: previous(a.selected_commissionable),
                ..a
            },
            FocusPane::Commissioned => AppView {
                selected_commissioned: previous(a.selected_commissioned),
                ..a
            },
        },
        KeyCode::Down => match a.focus {
            FocusPane::Commissionable => AppView {
                selected_commissionable: next(a.selected_commissionable, a.commissionable.len()),
                ..a
            },
            FocusPane::Commissioned => AppView {
                selected_commissioned: next(a.selected_commissioned, a.commissioned.len()),
                ..a
            },
        },
        KeyCode::Char('c') => if a.focus == FocusPane::Commissionable && a.commissionable.len()
            > 0 {
            with_modal(
                a,
                ModalView::Input(
                    InputDialogView {
                        title: "Commission Device"@,
                        value: seq![],
                        help:
                            "Enter setup code: 8-digit passcode, manual pairing code, or MT: QR payload"@,
                        submit: SubmitAction::CommissionSetupCode {
                            device_index: a.selected_commissionable,
                        },
                    },
                ),
            )
        } else {
            a
        },
        KeyCode::Char('m') | KeyCode::Enter => if a.focus == FocusPane::Commissioned
            && a.commissioned.len() > 0 {
            queued(a, PendingTaskView::OpenSelectedCommissioned, "Connecting to device..."@)
        } else {
            a
        },
        _ => a,
    }
}

// Keys on the screen of a device

/// The client with another selection among the endpoints of its device.
pub open spec fn with_selected<C>(a: AppView<C>, m: ManageStateView<C>, selected: usize) -> AppView<
    C,
> {
    AppView {
        screen: ScreenView::Manage(ManageStateView { selected_endpoint: selected, ..m }),
        ..a
    }
}

/// What a key does on the screen of a device. `invokes` are the ids of the invocations that a
/// dialog for actions needs.
pub open spec fn manage_key<C>(
    a: AppView<C>,
    m: ManageStateView<C>,
    key: KeyCode,
    invokes: Seq<u32>,
) -> (AppView<C>, Result<StepView<C>, AppError>) {
    let k = m.selected_endpoint;
    let has_endpoint = k < m.endpoints.len();
    let endpoint = m.endpoints[k as int];
    let id = number::decimal_text(endpoint.id as nat);
    let done = Ok::<StepView<C>, AppError>(StepView::Done);
    match key {
        KeyCode::Esc | KeyCode::Char('b') => (
            with_status(
                AppView { screen: ScreenView::Overview, ..a },
                "Returned to overview."@,
                StatusKind::Normal,
            ),
            done,
        ),
        KeyCode::Up => (with_selected(a, m, previous(k)), done),
        KeyCode::Down => (with_selected(a, m, next(k, m.endpoints.len())), done),
        KeyCode::Char('o') => if has_endpoint && endpoint.has_on_off {
            (
                queued(
                    a,
                    PendingTaskView::EndpointOn { endpoint_index: k },
                    "Sending On to endpoint "@ + id + "..."@,
                ),
                done,
            )
        } else {
            (a, done)
        },
        KeyCode::Char('p') => if has_endpoint && endpoint.has_on_off {
            (
                queued(
                    a,
                    PendingTaskView::EndpointOff { endpoint_index: k },
                    "Sending Off to endpoint "@ + id + "..."@,
                ),
                done,
            )
        } else {
            (a, done)
        },
        KeyCode::Char('n') => if has_endpoint {
            (
                with_modal(
                    a,
                    ModalView::Input(
                        InputDialogView {
                            title: "Rename Endpoint "@ + id,
                            value: default_label(endpoint),
                            help: "Local alias stored by this client only"@,
                            submit: SubmitAction::RenameEndpoint { endpoint_index: k },
                        },
                    ),
                ),
                done,
            )
        } else {
            (a, done)
        },
        KeyCode::Char('f') => (
            with_modal(
                a,
                ModalView::Input(
                    InputDialogView {
                        title: "Update Fabric Label"@,
                        value: a.state.fabric_label,
                        help: "This label is written to the device's fabric entry"@,
                        submit: SubmitAction::ChangeFabricLabel,
                    },
                ),
            ),
            done,
        ),
        KeyCode::Char('a') => if !has_endpoint {
            (a, done)
        } else if endpoint.actions.len() > 0 {
            match matter::action_dialog(endpoint, k, invokes) {
                Ok(dialog) => (with_modal(a, ModalView::Action(dialog)), done),
                Err(e) => (a, Err(AppError::Matter(e))),
            }
        } else {
            (
                with_status(
                    a,
                    "Endpoint "@ + id + " has no Actions cluster entries."@,
                    StatusKind::Normal,
                ),
                done,
            )
        },
        KeyCode::Char('d') => (
            with_modal(
                a,
                ModalView::Confirm(
                    ConfirmDialogView {
                        title: "Decommission Device"@,
                        message:
                            "Remove this client's fabric from the device? Press y to confirm."@,
                        confirm: ConfirmAction::Decommission,
                    },
                ),
            ),
            done,
        ),
        _ => (a, done),
    }
}

// Keys on a dialog

/// The client when a dialog has been canceled.
pub open spec fn canceled<C>(a: AppView<C>) -> AppView<C> {
    with_status(a, "Canceled."@, StatusKind::Normal)
}

/// The client when commissioning has been canceled.
pub open spec fn commissioning_canceled<C>(a: AppView<C>) -> AppView<C> {
    with_status(a, "Commissioning canceled."@, StatusKind::Normal)
}

/// The endpoints of which one has another label.
pub open spec fn relabelled(
    endpoints: Seq<EndpointSummaryView>,
    k: int,
    label: Seq<char>,
) -> Seq<EndpointSummaryView> {
    endpoints.update(k, EndpointSummaryView { label: Some(label), ..endpoints[k] })
}

/// The state in which an endpoint of a node has an alias.
pub open spec fn state_with_alias(
    s: AppStateView,
    node_id: u64,
    endpoint_id: u16,
    label: Seq<char>,
) -> AppStateView {
    AppStateView {
        endpoint_aliases: utils::with_alias(
            s.endpoint_aliases,
            EndpointAliasView { node_id, endpoint_id, label },
        ),
        ..s
    }
}

/// What submitting an input dialog does. The dialog is closed.
pub open spec fn submitted<C>(a: AppView<C>, dialog: InputDialogView) -> (
    AppView<C>,
    Result<StepView<C>, AppError>,
) {
    let done = Ok::<StepView<C>, AppError>(StepView::Done);
    match dialog.submit {
        SubmitAction::CommissionSetupCode { device_index } => (
            queued(
                a,
                PendingTaskView::StartCommission { device_index, setup_code: dialog.value },
                "Starting commissioning..."@,
            ),
            done,
        ),
        SubmitAction::RenameEndpoint { endpoint_index } => match a.screen {
            ScreenView::Overview => (a, done),
            ScreenView::Manage(m) => if endpoint_index >= m.endpoints.len() {
                (a, Err(AppError::EndpointNotFound))
            } else {
                let label = text::trimmed(dialog.value);
                let id = m.endpoints[endpoint_index as int].id;
                let s = state_with_alias(a.state, m.device.node_id, id, label);
                (
                    AppView {
                        screen: ScreenView::Manage(
                            ManageStateView {
                                endpoints: relabelled(m.endpoints, endpoint_index as int, label),
                                ..m
                            },
                        ),
                        state: s,
                        ..a
                    },
                    Ok(
                        StepView::Save {
                            contents: state::saved_text(s),
                            saved: SavedView::EndpointLabel { endpoint: id },
                        },
                    ),
                )
            },
        },
        SubmitAction::ChangeFabricLabel => (
            queued(
                a,
                PendingTaskView::ChangeFabricLabel { label: text::trimmed(dialog.value) },
                "Updating fabric label..."@,
            ),
            done,
        ),
    }
}

/// What confirming a dialog does. The dialog is closed.
pub open spec fn confirmed<C>(a: AppView<C>, confirm: ConfirmAction) -> AppView<C> {
    match confirm {
        ConfirmAction::Decommission => queued(
            a,
            PendingTaskView::Decommission,
            "Decommissioning device..."@,
        ),
    }
}

/// What choosing an option does. The dialog is closed.
pub open spec fn option_chosen<C>(a: AppView<C>, dialog: ActionDialogView) -> (
    AppView<C>,
    Result<StepView<C>, AppError>,
) {
    if dialog.selected >= dialog.options.len() {
        (a, Err(AppError::ActionOptionNotFound))
    } else {
        let option = dialog.options[dialog.selected as int];
        (
            queued(
                a,
                PendingTaskView::InvokeAction {
                    endpoint_index: dialog.endpoint_index,
                    command_id: option.command_id,
                    payload: option.payload,
                    label: option.label,
                },
                "Sending Actions cluster command..."@,
            ),
            Ok(StepView::Done),
        )
    }
}

/// What was typed, without whitespace around it; what was there before where nothing is left.
pub open spec fn unless_blank(value: Seq<char>, before: Seq<char>) -> Seq<char> {
    if text::trimmed(value).len() > 0 {
        text::trimmed(value)
    } else {
        before
    }
}

/// The dialog for the name of an endpoint of a device that is being commissioned, or the end of
/// the dialogs where there is no such endpoint.
pub open spec fn naming<C>(a: AppView<C>, pending: PendingCommissionView<C>, k: int) -> AppView<C> {
    if k < pending.endpoints.len() {
        with_modal(
            a,
            ModalView::CommissionEndpointName {
                pending,
                index: k as usize,
                value: default_label(pending.endpoints[k]),
            },
        )
    } else {
        queued(a, PendingTaskView::FinishCommission(pending), "Finalizing commissioning..."@)
    }
}

/// What a key does while a dialog is open. The dialog is closed unless it stays open or another
/// one is opened.
pub open spec fn modal_key<C>(before: AppView<C>, modal: ModalView<C>, key: KeyCode) -> (
    AppView<C>,
    Result<StepView<C>, AppError>,
) {
    let a = AppView { modal: None::<ModalView<C>>, ..before };
    let stay = (with_modal(a, modal), Ok::<StepView<C>, AppError>(StepView::Done));
    let done = Ok::<StepView<C>, AppError>(StepView::Done);
    match modal {
        ModalView::Message(message) => match key {
            KeyCode::Enter | KeyCode::Esc => (AppView { status: message, ..a }, done),
            _ => stay,
        },
        ModalView::Confirm(dialog) => match key {
            KeyCode::Char('y') => (confirmed(a, dialog.confirm), done),
            KeyCode::Char('n') | KeyCode::Esc => (canceled(a), done),
            _ => stay,
        },
        ModalView::Input(dialog) => match key {
            KeyCode::Esc => (canceled(a), done),
            KeyCode::Enter => submitted(a, dialog),
            _ => match edited(dialog.value, key) {
                Some(value) => (
                    with_modal(a, ModalView::Input(InputDialogView { value, ..dialog })),
                    done,
                ),
                None => stay,
            },
        },
        ModalView::Action(dialog) => match key {
            KeyCode::Esc => (canceled(a), done),
            KeyCode::Up => (
                with_modal(
                    a,
                    ModalView::Action(
                        ActionDialogView { selected: previous(dialog.selected), ..dialog },
                    ),
                ),
                done,
            ),
            KeyCode::Down => (
                with_modal(
                    a,
                    ModalView::Action(
                        ActionDialogView {
                            selected: next(dialog.selected, dialog.options.len()),
                            ..dialog
                        },
                    ),
                ),
                done,
            ),
            KeyCode::Enter => option_chosen(a, dialog),
            _ => stay,
        },
        ModalView::CommissionDeviceName { pending, value } => match key {
            KeyCode::Esc => (commissioning_canceled(a), done),
            KeyCode::Enter => (
                with_modal(
                    a,
                    ModalView::CommissionFabricName {
                        pending: PendingCommissionView {
                            device_label: unless_blank(value, pending.device_label),
                            ..pending
                        },
                        value: a.state.fabric_label,
                    },
                ),
                done,
            ),
            _ => match edited(value, key) {
                Some(value) => (
                    with_modal(a, ModalView::CommissionDeviceName { pending, value }),
                    done,
                ),
                None => stay,
            },
        },
        ModalView::CommissionFabricName { pending, value } => match key {
            KeyCode::Esc => (commissioning_canceled(a), done),
            KeyCode::Enter => (
                naming(
                    a,
                    PendingCommissionView {
                        fabric_label: unless_blank(value, pending.fabric_label),
                        ..pending
                    },
                    0,
                ),
                done,
            ),
            _ => match edited(value, key) {
                Some(value) => (
                    with_modal(a, ModalView::CommissionFabricName { pending, value }),
                    done,
                ),
                None => stay,
            },
        },
        ModalView::CommissionEndpointName { pending, index, value } => match key {
            KeyCode::Esc => (commissioning_canceled(a), done),
            KeyCode::Enter => (
                naming(
                    a,
                    PendingCommissionView {
                        endpoints: if text::trimmed(value).len() > 0 {
                            relabelled(pending.endpoints, index as int, text::trimmed(value))
                        } else {
                            pending.endpoints
                        },
                        ..pending
                    },
                    index + 1,
                ),
                done,
            ),
            _ => match edited(value, key) {
                Some(value) => (
                    with_modal(a, ModalView::CommissionEndpointName { pending, index, value }),
                    done,
                ),
                None => stay,
            },
        },
    }
}

/// What a key event does: nothing unless the key is pressed; an open dialog takes every key.
pub open spec fn key_result<C>(a: AppView<C>, pressed: bool, key: KeyCode, invokes: Seq<u32>) -> (
    AppView<C>,
    Result<StepView<C>, AppError>,
) {
    if !pressed {
        (a, Ok(StepView::Done))
    } else {
        match a.modal {
            Some(modal) => modal_key(a, modal, key),
            None => match a.screen {
                ScreenView::Overview => (overview_key(a, key), Ok(StepView::Done)),
                ScreenView::Manage(m) => manage_key(a, m, key, invokes),
            },
        }
    }
}

/// How many ids of invocations a key needs.
pub open spec fn invokes_needed<C>(a: AppView<C>, pressed: bool, key: KeyCode) -> nat {
    match a.screen {
        ScreenView::Manage(m) => if pressed && a.modal is None && key == KeyCode::Char('a')
            && m.selected_endpoint < m.endpoints.len() {
            m.endpoints[m.selected_endpoint as int].actions.len()
        } else {
            0
        },
        ScreenView::Overview => 0,
    }
}

// Tasks

/// The client while it scans.
pub open spec fn scanning<C>(a: AppView<C>) -> AppView<C> {
    with_status(a, "Scanning LAN for Matter devices..."@, StatusKind::Progress)
}

/// The command to a cluster of one of the endpoints of the device that is managed.
pub open spec fn endpoint_command<C>(
    a: AppView<C>,
    endpoint_index: usize,
    cluster: u32,
    command: u32,
    payload: Seq<u8>,
    sent: spec_fn(u16) -> SentView,
) -> (AppView<C>, Result<StepView<C>, AppError>) {
    match a.screen {
        ScreenView::Overview => (a, Ok(StepView::Done)),
        ScreenView::Manage(m) => if endpoint_index >= m.endpoints.len() {
            (a, Err(AppError::EndpointNotFound))
        } else {
            let id = m.endpoints[endpoint_index as int].id;
            (
                a,
                Ok(
                    StepView::Invoke {
                        invocation: InvocationView { endpoint: id, cluster, command, payload },
                        sent: sent(id),
                    },
                ),
            )
        },
    }
}

/// What opening the selected device does.
pub open spec fn opening<C>(a: AppView<C>) -> (AppView<C>, Result<StepView<C>, AppError>) {
    if a.commissioned.len() == 0 {
        (a, Ok(StepView::Done))
    } else if a.selected_commissioned >= a.commissioned.len() {
        (a, Err(AppError::CommissionedNotFound))
    } else {
        let device = a.commissioned[a.selected_commissioned as int];
        match device.known {
            None => (
                with_status(
                    a,
                    "Selected device is not managed by this client."@,
                    StatusKind::Normal,
                ),
                Ok(StepView::Done),
            ),
            Some(known) => (
                a,
                Ok(
                    StepView::Open(
                        KnownDeviceView {
                            last_address: utils::socket_text(
                                utils::preferred(device.addresses),
                                device.port,
                            ),
                            ..known
                        },
                    ),
                ),
            ),
        }
    }
}

/// What running the task that is due does: up to the outside work that it needs.
pub open spec fn task_result<C>(before: AppView<C>) -> (AppView<C>, Result<StepView<C>, AppError>) {
    match before.pending_task {
        None => (before, Ok(StepView::Done)),
        Some(task) => {
            let a = AppView {
                pending_task: None::<PendingTaskView<C>>,
                modal: None::<ModalView<C>>,
                ..before
            };
            match task {
                PendingTaskView::RefreshScan => (scanning(a), Ok(StepView::Scan)),
                PendingTaskView::StartCommission {
                    device_index,
                    setup_code,
                } => match setup_code::setup_passcode(text::trimmed(setup_code)) {
                    Err(e) => (a, Err(AppError::SetupCode(e))),
                    Ok(pin) => if device_index >= a.commissionable.len() {
                        (a, Err(AppError::CommissionableNotFound))
                    } else {
                        let device = a.commissionable[device_index as int];
                        (
                            with_status(
                                a,
                                "Commissioning "@ + device.display_name + "..."@,
                                StatusKind::Progress,
                            ),
                            Ok(
                                StepView::Commission(
                                    matter::commission_order(a.state, device, pin as u32),
                                ),
                            ),
                        )
                    },
                },
                PendingTaskView::OpenSelectedCommissioned => opening(a),
                PendingTaskView::EndpointOn { endpoint_index } => endpoint_command(
                    a,
                    endpoint_index,
                    CLUSTER_ON_OFF,
                    COMMAND_ON,
                    seq![],
                    |endpoint: u16| SentView::On { endpoint },
                ),
                PendingTaskView::EndpointOff { endpoint_index } => endpoint_command(
                    a,
                    endpoint_index,
                    CLUSTER_ON_OFF,
                    COMMAND_OFF,
                    seq![],
                    |endpoint: u16| SentView::Off { endpoint },
                ),
                PendingTaskView::ChangeFabricLabel { label } => match a.screen {
                    ScreenView::Overview => (a, Ok(StepView::Done)),
                    ScreenView::Manage(_) => (
                        a,
                        Ok(
                            StepView::Invoke {
                                invocation: matter::label_invocation(label),
                                sent: SentView::FabricLabel { label },
                            },
                        ),
                    ),
                },
                PendingTaskView::InvokeAction {
                    endpoint_index,
                    command_id,
                    payload,
                    label,
                } => endpoint_command(
                    a,
                    endpoint_index,
                    CLUSTER_ACTIONS,
                    command_id,
                    payload,
                    |endpoint: u16| SentView::Action { endpoint, label },
                ),
                PendingTaskView::Decommission => match a.screen {
                    ScreenView::Overview => (a, Ok(StepView::Done)),
                    ScreenView::Manage(_) => (a, Ok(StepView::ReadFabricIndex)),
                },
                PendingTaskView::FinishCommission(pending) => (
                    a,
                    Ok(
                        StepView::Finish {
                            pending,
                            invocation: matter::label_invocation(pending.fabric_label),
                        },
                    ),
                ),
                PendingTaskView::RefreshEndpoints => match a.screen {
                    ScreenView::Overview => (a, Ok(StepView::Done)),
                    ScreenView::Manage(_) => (a, Ok(StepView::Reload)),
                },
            }
        },
    }
}

/// Whether the task that is due needs an id for a new device: its setup code can be read, and the
/// device that it is for is there.
pub open spec fn needs_node_id<C>(a: AppView<C>) -> bool {
    match a.pending_task {
        Some(PendingTaskView::StartCommission { device_index, setup_code }) => {
            &&& setup_code::setup_passcode(text::trimmed(setup_code)) is Ok
            &&& device_index < a.commissionable.len()
        },
        _ => false,
    }
}

// Outside work that has been done

/// The client after a scan.
pub open spec fn scanned<C>(
    a: AppView<C>,
    outcome: Result<(Seq<CommissionableDeviceView>, Seq<CommissionedDeviceView>), Seq<char>>,
) -> AppView<C> {
    match outcome {
        Ok((commissionable, commissioned)) => AppView {
            commissionable,
            commissioned,
            selected_commissionable: clamped(a.selected_commissionable, commissionable.len()),
            selected_commissioned: clamped(a.selected_commissioned, commissioned.len()),
            status: "Found "@ + number::decimal_text(commissionable.len()) + " commissionable and "@
                + number::decimal_text(commissioned.len()) + " commissioned device(s)."@,
            status_kind: StatusKind::Success,
            ..a
        },
        Err(message) => with_status(a, "Scan failed: "@ + message, StatusKind::Error),
    }
}

/// The client when a device has joined the fabric: it asks for the name of the device.
pub open spec fn joined<C>(a: AppView<C>, pending: PendingCommissionView<C>) -> AppView<C> {
    with_modal(a, ModalView::CommissionDeviceName { pending, value: pending.device_label })
}

/// The client when it is connected to a device and has read its endpoints.
pub open spec fn opened<C>(
    a: AppView<C>,
    device: KnownDeviceView,
    connection: C,
    endpoints: Seq<EndpointSummaryView>,
    now: u64,
) -> AppView<C> {
    with_status(
        AppView {
            screen: ScreenView::Manage(
                ManageStateView {
                    device,
                    connection,
                    endpoints: utils::under_aliases(
                        a.state.endpoint_aliases,
                        device.node_id,
                        endpoints,
                    ),
                    selected_endpoint: 0,
                    last_endpoint_refresh: now,
                },
            ),
            ..a
        },
        "Connected.  o on  p off  a actions  n rename  f fabric  d decommission  b back"@,
        StatusKind::Success,
    )
}

/// The client when it has read the endpoints of its device anew.
pub open spec fn reloaded<C>(
    a: AppView<C>,
    endpoints: Seq<EndpointSummaryView>,
    now: u64,
) -> AppView<C> {
    match a.screen {
        ScreenView::Overview => a,
        ScreenView::Manage(m) => AppView {
            screen: ScreenView::Manage(
                ManageStateView {
                    endpoints: utils::under_aliases(
                        a.state.endpoint_aliases,
                        m.device.node_id,
                        endpoints,
                    ),
                    selected_endpoint: clamped(m.selected_endpoint, endpoints.len()),
                    last_endpoint_refresh: now,
                    ..m
                },
            ),
            ..a
        },
    }
}

/// What reading the index of the fabric leads to.
pub open spec fn index_read<C>(a: AppView<C>, value: TlvValue) -> Result<StepView<C>, AppError> {
    match a.screen {
        ScreenView::Overview => Ok(StepView::Done),
        ScreenView::Manage(m) => match matter::decommission_invocation(value) {
            Err(e) => Err(AppError::Matter(e)),
            Ok(invocation) => Ok(
                StepView::Invoke {
                    invocation,
                    sent: SentView::RemoveFabric {
                        node_id: m.device.node_id,
                        label: m.device.label,
                    },
                },
            ),
        },
    }
}

/// The state without a node.
pub open spec fn state_without(s: AppStateView, node_id: u64) -> AppStateView {
    AppStateView {
        devices: s.devices.filter(|d: KnownDeviceView| d.node_id != node_id),
        endpoint_aliases: s.endpoint_aliases.filter(|a: EndpointAliasView| a.node_id != node_id),
        ..s
    }
}

/// What a command that has been sent leads to.
pub open spec fn sent<C>(a: AppView<C>, what: SentView) -> (AppView<C>, StepView<C>) {
    match what {
        SentView::On { endpoint } => (
            with_status(
                a,
                "Sent On to endpoint "@ + number::decimal_text(endpoint as nat) + "."@,
                StatusKind::Success,
            ),
            StepView::Done,
        ),
        SentView::Off { endpoint } => (
            with_status(
                a,
                "Sent Off to endpoint "@ + number::decimal_text(endpoint as nat) + "."@,
                StatusKind::Success,
            ),
            StepView::Done,
        ),
        SentView::Action { endpoint, label } => (
            with_status(
                a,
                "Sent \""@ + label + "\" to endpoint "@ + number::decimal_text(endpoint as nat)
                    + "."@,
                StatusKind::Success,
            ),
            StepView::Done,
        ),
        SentView::FabricLabel { label } => {
            let s = AppStateView { fabric_label: label, ..a.state };
            (
                AppView { state: s, ..a },
                StepView::Save { contents: state::saved_text(s), saved: SavedView::FabricLabel },
            )
        },
        SentView::RemoveFabric { node_id, label } => {
            let s = state_without(a.state, node_id);
            (
                AppView { state: s, ..a },
                StepView::Save {
                    contents: state::saved_text(s),
                    saved: SavedView::Decommissioned { label },
                },
            )
        },
    }
}

/// The aliases with those of the endpoints of a node.
pub open spec fn with_names(
    aliases: Seq<EndpointAliasView>,
    node_id: u64,
    endpoints: Seq<EndpointSummaryView>,
) -> Seq<EndpointAliasView>
    decreases endpoints.len(),
{
    if endpoints.len() == 0 {
        aliases
    } else {
        let e = endpoints.last();
        utils::with_alias(
            with_names(aliases, node_id, endpoints.drop_last()),
            EndpointAliasView { node_id, endpoint_id: e.id, label: default_label(e) },
        )
    }
}

/// The state in which a device that has been commissioned is known.
pub open spec fn state_with<C>(s: AppStateView, pending: PendingCommissionView<C>) -> AppStateView {
    AppStateView {
        controller_id: s.controller_id,
        fabric_label: pending.fabric_label,
        devices: utils::with_device(
            s.devices,
            KnownDeviceView {
                label: pending.device_label,
                node_id: pending.node_id,
                last_address: pending.address,
            },
        ),
        endpoint_aliases: with_names(s.endpoint_aliases, pending.node_id, pending.endpoints),
    }
}

/// What the end of commissioning leads to.
pub open spec fn finished<C>(a: AppView<C>, pending: PendingCommissionView<C>) -> (
    AppView<C>,
    StepView<C>,
) {
    let s = state_with(a.state, pending);
    (
        AppView { state: s, ..a },
        StepView::Save {
            contents: state::saved_text(s),
            saved: SavedView::Commissioned {
                label: pending.device_label,
                node_id: pending.node_id,
            },
        },
    )
}

/// What a state that has been stored leads to.
pub open spec fn stored<C>(a: AppView<C>, what: SavedView) -> (AppView<C>, StepView<C>) {
    match what {
        SavedView::EndpointLabel { endpoint } => (
            with_status(
                a,
                "Saved endpoint "@ + number::decimal_text(endpoint as nat) + " label."@,
                StatusKind::Success,
            ),
            StepView::Done,
        ),
        SavedView::FabricLabel => (
            with_status(a, "Fabric label updated."@, StatusKind::Success),
            StepView::Done,
        ),
        SavedView::Decommissioned { label } => (
            scanning(
                with_status(
                    AppView { screen: ScreenView::Overview, ..a },
                    "Decommissioned "@ + label + "."@,
                    StatusKind::Success,
                ),
            ),
            StepView::Scan,
        ),
        SavedView::Commissioned { label, node_id } => (
            scanning(
                with_status(
                    a,
                    "Commissioned \""@ + label + "\" (node_id="@ + number::decimal_text(
                        node_id as nat,
                    ) + ")."@,
                    StatusKind::Success,
                ),
            ),
            StepView::Scan,
        ),
    }
}

} // verus!
