//! The terminal client: what it does with keys, and with the outcome of the outside work that it
//! asks for.

use crate::app_laws;
use crate::app_model;
use crate::app_model::{AppError, AppView, KeyCode, SavedView, SentView, StepView, Turn};
use crate::endpoints::TlvValue;
use crate::matter;
use crate::matter::{
    build_action_dialog_with, decommission_device, start_commission, update_fabric_label,
    CommissionOrder, Invocation, CLUSTER_ACTIONS, CLUSTER_ON_OFF, COMMAND_OFF, COMMAND_ON,
};
use crate::number;
use crate::number::decimal;
use crate::setup_code::parse_setup_code;
use crate::state;
use crate::state::{AppState, EndpointAlias, EndpointAliasView, KnownDevice, KnownDeviceView};
use crate::text::{chars_of, trim};
use crate::types::{
    ActionDialog, CommissionableDevice, CommissionedDevice, ConfirmAction, ConfirmDialog,
    EndpointSummary, FocusPane, InputDialog, InputDialogView, ManageState, Modal, ModalView,
    PendingCommission, PendingTask, Screen, ScreenView, StatusKind, SubmitAction,
};
use crate::utils::{
    apply_endpoint_aliases, clamp_selection, first_socket_addr, format_device_types, next_index,
    upsert_endpoint_alias, upsert_known_device,
};
use vstd::prelude::*;

verus! {

/// The file in which the state is stored.
pub fn state_path() -> (r: String)
    ensures
        r@ == "./client-state.toml"@,
{
    "./client-state.toml".to_string()
}

/// The terminal client. `C` is a connection to a device.
pub struct App<C> {
    pub state: AppState,
    pub screen: Screen<C>,
    pub focus: FocusPane,
    pub commissionable: Vec<CommissionableDevice>,
    pub commissioned: Vec<CommissionedDevice>,
    pub selected_commissionable: usize,
    pub selected_commissioned: usize,
    pub modal: Option<Modal<C>>,
    pub pending_task: Option<PendingTask<C>>,
    pub status: String,
    pub status_kind: StatusKind,
    pub quit: bool,
}

impl<C> DeepView for App<C> {
    type V = AppView<C>;

    open spec fn deep_view(&self) -> AppView<C> {
        AppView {
            state: self.state.deep_view(),
            screen: self.screen.deep_view(),
            focus: self.focus,
            commissionable: self.commissionable.deep_view(),
            commissioned: self.commissioned.deep_view(),
            selected_commissionable: self.selected_commissionable,
            selected_commissioned: self.selected_commissioned,
            modal: self.modal.deep_view(),
            pending_task: self.pending_task.deep_view(),
            status: self.status@,
            status_kind: self.status_kind,
            quit: self.quit,
        }
    }
}

/// What a command that has been sent was for.
pub enum Sent {
    On { endpoint: u16 },
    Off { endpoint: u16 },
    Action { endpoint: u16, label: String },
    FabricLabel { label: String },
    RemoveFabric { node_id: u64, label: String },
}

impl DeepView for Sent {
    type V = SentView;

    open spec fn deep_view(&self) -> SentView {
        match self {
            Sent::On { endpoint } => SentView::On { endpoint: *endpoint },
            Sent::Off { endpoint } => SentView::Off { endpoint: *endpoint },
            Sent::Action { endpoint, label } => SentView::Action {
                endpoint: *endpoint,
                label: label@,
            },
            Sent::FabricLabel { label } => SentView::FabricLabel { label: label@ },
            Sent::RemoveFabric { node_id, label } => SentView::RemoveFabric {
                node_id: *node_id,
                label: label@,
            },
        }
    }
}

/// What the state was stored for.
pub enum Saved {
    EndpointLabel { endpoint: u16 },
    FabricLabel,
    Decommissioned { label: String },
    Commissioned { label: String, node_id: u64 },
}

impl DeepView for Saved {
    type V = SavedView;

    open spec fn deep_view(&self) -> SavedView {
        match self {
            Saved::EndpointLabel { endpoint } => SavedView::EndpointLabel { endpoint: *endpoint },
            Saved::FabricLabel => SavedView::FabricLabel,
            Saved::Decommissioned { label } => SavedView::Decommissioned { label: label@ },
            Saved::Commissioned { label, node_id } => SavedView::Commissioned {
                label: label@,
                node_id: *node_id,
            },
        }
    }
}

/// The outside work that comes next, and after which the client is to be told how it went:
/// nothing; a scan; the commissioning of a device; a connection to a known device; reading the
/// endpoints of the device that is managed; a command to it; reading its fabric index; the command
/// that ends commissioning; storing the state.
pub enum Step<C> {
    Done,
    Scan,
    Commission(CommissionOrder),
    Open(KnownDevice),
    Reload,
    Invoke { invocation: Invocation, sent: Sent },
    ReadFabricIndex,
    Finish { pending: PendingCommission<C>, invocation: Invocation },
    Save { contents: String, saved: Saved },
}

impl<C> DeepView for Step<C> {
    type V = StepView<C>;

    open spec fn deep_view(&self) -> StepView<C> {
        match self {
            Step::Done => StepView::Done,
            Step::Scan => StepView::Scan,
            Step::Commission(order) => StepView::Commission(order.deep_view()),
            Step::Open(device) => StepView::Open(device.deep_view()),
            Step::Reload => StepView::Reload,
            Step::Invoke { invocation, sent } => StepView::Invoke {
                invocation: invocation.deep_view(),
                sent: sent.deep_view(),
            },
            Step::ReadFabricIndex => StepView::ReadFabricIndex,
            Step::Finish { pending, invocation } => StepView::Finish {
                pending: pending.deep_view(),
                invocation: invocation.deep_view(),
            },
            Step::Save { contents, saved } => StepView::Save {
                contents: contents@,
                saved: saved.deep_view(),
            },
        }
    }
}

/// A result, as it is modelled.
pub open spec fn result_view<C>(r: Result<Step<C>, AppError>) -> Result<StepView<C>, AppError> {
    match r {
        Ok(step) => Ok(step.deep_view()),
        Err(e) => Err(e),
    }
}

/// The name under which an endpoint is offered.
pub fn endpoint_default_label(endpoint: &EndpointSummary) -> (r: String)
    ensures
        r@ == app_model::default_label(endpoint.deep_view()),
{
    match &endpoint.label {
        Some(label) => label.clone(),
        None => format_device_types(&endpoint.device_types),
    }
}

/// A text around a number.
fn with_number(before: &str, n: u64, after: &str) -> (r: String)
    ensures
        r@ == before@ + number::decimal_text(n as nat) + after@,
{
    let mut r: String = before.to_string();
    r.append(decimal(n).as_str());
    r.append(after);
    r
}

/// A text between two others.
fn between(before: &str, s: &str, after: &str) -> (r: String)
    ensures
        r@ == before@ + s@ + after@,
{
    let mut r: String = before.to_string();
    r.append(s);
    r.append(after);
    r
}

impl<C> App<C> {
    /// The client when it starts.
    pub fn new(state: AppState) -> (r: App<C>)
        ensures
            r.deep_view() == app_model::started::<C>(state.deep_view()),
            r.deep_view().wf(),
    {
        let r = App {
            state,
            screen: Screen::Overview,
            focus: FocusPane::Commissionable,
            commissionable: Vec::new(),
            commissioned: Vec::new(),
            selected_commissionable: 0,
            selected_commissioned: 0,
            modal: None,
            pending_task: None,
            status: "Press r to scan for devices.".to_string(),
            status_kind: StatusKind::Normal,
            quit: false,
        };
        assert(r.deep_view() =~= app_model::started::<C>(state.deep_view()));
        r
    }

    /// Has a task run after the next redraw, and says so.
    pub fn queue_task(&mut self, task: PendingTask<C>, message: &str)
        ensures
            final(self).deep_view() == app_model::queued(
                old(self).deep_view(),
                task.deep_view(),
                message@,
            ),
    {
        self.pending_task = Some(task);
        self.modal = Some(Modal::Message(message.to_string()));
        self.status = message.to_string();
        self.status_kind = StatusKind::Progress;
    }

    fn set_status(&mut self, status: String, kind: StatusKind)
        ensures
            final(self).deep_view() == app_model::with_status(
                old(self).deep_view(),
                status@,
                kind,
            ),
    {
        self.status = status;
        self.status_kind = kind;
    }

    /// What the client does next: it ends, runs the task that is due, or waits for a key.
    pub fn turn(&self) -> (r: Turn)
        ensures
            r == app_model::next_turn(self.deep_view()),
    {
        if self.quit {
            Turn::Quit
        } else if self.pending_task.is_some() {
            Turn::RunTask
        } else {
            Turn::WaitForKey
        }
    }

    /// Says that something has gone wrong.
    pub fn report_error(&mut self, message: &str)
        ensures
            final(self).deep_view() == app_model::failed(old(self).deep_view(), message@),
            old(self).deep_view().wf() ==> final(self).deep_view().wf(),
    {
        self.modal = Some(Modal::Message(message.to_string()));
        self.status = message.to_string();
        self.status_kind = StatusKind::Error;
    }

    fn on_overview_key(&mut self, key: KeyCode)
        requires
            old(self).deep_view().wf(),
        ensures
            final(self).deep_view() == app_model::overview_key(old(self).deep_view(), key),
    {
        match key {
            KeyCode::Char('q') => {
                self.quit = true;
            },
            KeyCode::Char('r') => {
                self.queue_task(PendingTask::RefreshScan, "Scanning LAN for Matter devices...");
            },
            KeyCode::Tab | KeyCode::Left | KeyCode::Right => {
                self.focus = match self.focus {
                    FocusPane::Commissionable => FocusPane::Commissioned,
                    FocusPane::Commissioned => FocusPane::Commissionable,
                };
            },
            KeyCode::Up => match self.focus {
                FocusPane::Commissionable => {
                    self.selected_commissionable = step_back(self.selected_commissionable);
                },
                FocusPane::Commissioned => {
                    self.selected_commissioned = step_back(self.selected_commissioned);
                },
            },
            KeyCode::Down => match self.focus {
                FocusPane::Commissionable => {
                    self.selected_commissionable = step_on(
                        self.selected_commissionable,
                        self.commissionable.len(),
                    );
                },
                FocusPane::Commissioned => {
                    self.selected_commissioned = step_on(
                        self.selected_commissioned,
                        self.commissioned.len(),
                    );
                },
            },
            KeyCode::Char('c') => {
                if self.focus == FocusPane::Commissionable && self.commissionable.len() > 0 {
                    let dialog = InputDialog {
                        title: "Commission Device".to_string(),
                        value: String::new(),
                        help:
                            "Enter setup code: 8-digit passcode, manual pairing code, or MT: QR payload".to_string(),
                        submit: SubmitAction::CommissionSetupCode {
                            device_index: self.selected_commissionable,
                        },
                    };
                    assert(dialog.value@ =~= seq![]);
                    self.modal = Some(Modal::Input(dialog));
                }
            },
            KeyCode::Char('m') | KeyCode::Enter => {
                if self.focus == FocusPane::Commissioned && self.commissioned.len() > 0 {
                    self.queue_task(PendingTask::OpenSelectedCommissioned, "Connecting to device...");
                }
            },
            _ => {},
        }
    }

    fn on_manage_key(&mut self, key: KeyCode, invokes: &Vec<u32>) -> (r: Result<Step<C>, AppError>)
        requires
            old(self).deep_view().wf(),
            old(self).modal is None,
            invokes@.len() >= app_model::invokes_needed(old(self).deep_view(), true, key),
            old(self).screen is Manage,
        ensures
            (final(self).deep_view(), result_view(r)) == app_model::manage_key(
                old(self).deep_view(),
                old(self).deep_view().screen->Manage_0,
                key,
                invokes@,
            ),
    {
        match key {
            KeyCode::Esc | KeyCode::Char('b') => {
                self.screen = Screen::Overview;
                self.set_status("Returned to overview.".to_string(), StatusKind::Normal);
            },
            KeyCode::Up => {
                if let Screen::Manage(manage) = &mut self.screen {
                    manage.selected_endpoint = step_back(manage.selected_endpoint);
                }
            },
            KeyCode::Down => {
                if let Screen::Manage(manage) = &mut self.screen {
                    manage.selected_endpoint = step_on(
                        manage.selected_endpoint,
                        manage.endpoints.len(),
                    );
                }
            },
            KeyCode::Char('o') => {
                if let Some((index, id)) = self.selected_switch() {
                    let message = with_number("Sending On to endpoint ", id as u64, "...");
                    self.queue_task(
                        PendingTask::EndpointOn { endpoint_index: index },
                        message.as_str(),
                    );
                }
            },
            KeyCode::Char('p') => {
                if let Some((index, id)) = self.selected_switch() {
                    let message = with_number("Sending Off to endpoint ", id as u64, "...");
                    self.queue_task(
                        PendingTask::EndpointOff { endpoint_index: index },
                        message.as_str(),
                    );
                }
            },
            KeyCode::Char('n') => {
                if let Some(dialog) = self.rename_dialog() {
                    self.modal = Some(Modal::Input(dialog));
                }
            },
            KeyCode::Char('f') => {
                self.modal = Some(
                    Modal::Input(
                        InputDialog {
                            title: "Update Fabric Label".to_string(),
                            value: self.state.fabric_label.clone(),
                            help: "This label is written to the device's fabric entry".to_string(),
                            submit: SubmitAction::ChangeFabricLabel,
                        },
                    ),
                );
            },
            KeyCode::Char('a') => {
                return self.open_actions(invokes);
            },
            KeyCode::Char('d') => {
                self.modal = Some(
                    Modal::Confirm(
                        ConfirmDialog {
                            title: "Decommission Device".to_string(),
                            message:
                                "Remove this client's fabric from the device? Press y to confirm.".to_string(),
                            confirm: ConfirmAction::Decommission,
                        },
                    ),
                );
            },
            _ => {},
        }
        Ok(Step::Done)
    }

    /// The selected endpoint and its id, where it can be switched.
    fn selected_switch(&self) -> (r: Option<(usize, u16)>)
        ensures
            ({
                match self.deep_view().screen {
                    ScreenView::Manage(m) => {
                        let k = m.selected_endpoint;
                        let endpoint = m.endpoints[k as int];
                        r == if k < m.endpoints.len() && endpoint.has_on_off {
                            Some((k, endpoint.id))
                        } else {
                            None
                        }
                    },
                    ScreenView::Overview => r is None,
                }
            }),
    {
        if let Screen::Manage(manage) = &self.screen {
            let k: usize = manage.selected_endpoint;
            if k < manage.endpoints.len() {
                assert(manage.endpoints.deep_view()[k as int]
                    == manage.endpoints@[k as int].deep_view());
                if manage.endpoints[k].has_on_off {
                    return Some((k, manage.endpoints[k].id));
                }
            }
        }
        None
    }

    /// The dialog for the alias of the selected endpoint.
    fn rename_dialog(&self) -> (r: Option<InputDialog>)
        requires
            self.screen is Manage,
        ensures
            ({
                let m = self.deep_view().screen->Manage_0;
                let k = m.selected_endpoint;
                let endpoint = m.endpoints[k as int];
                r.deep_view() == if k < m.endpoints.len() {
                    Some(
                        InputDialogView {
                            title: "Rename Endpoint "@ + number::decimal_text(endpoint.id as nat),
                            value: app_model::default_label(endpoint),
                            help: "Local alias stored by this client only"@,
                            submit: SubmitAction::RenameEndpoint { endpoint_index: k },
                        },
                    )
                } else {
                    None
                }
            }),
    {
        if let Screen::Manage(manage) = &self.screen {
            let k: usize = manage.selected_endpoint;
            if k < manage.endpoints.len() {
                assert(manage.endpoints.deep_view()[k as int]
                    == manage.endpoints@[k as int].deep_view());
                let endpoint = &manage.endpoints[k];
                let mut title: String = "Rename Endpoint ".to_string();
                title.append(decimal(endpoint.id as u64).as_str());
                return Some(
                    InputDialog {
                        title,
                        value: endpoint_default_label(endpoint),
                        help: "Local alias stored by this client only".to_string(),
                        submit: SubmitAction::RenameEndpoint { endpoint_index: k },
                    },
                );
            }
        }
        None
    }

    /// Opens the dialog for the actions of the selected endpoint.
    fn open_actions(&mut self, invokes: &Vec<u32>) -> (r: Result<Step<C>, AppError>)
        requires
            old(self).modal is None,
            invokes@.len() >= app_model::invokes_needed(
                old(self).deep_view(),
                true,
                KeyCode::Char('a'),
            ),
            old(self).screen is Manage,
        ensures
            (final(self).deep_view(), result_view(r)) == app_model::manage_key(
                old(self).deep_view(),
                old(self).deep_view().screen->Manage_0,
                KeyCode::Char('a'),
                invokes@,
            ),
    {
        if let Screen::Manage(manage) = &self.screen {
            let k: usize = manage.selected_endpoint;
            if k < manage.endpoints.len() {
                assert(manage.endpoints.deep_view()[k as int]
                    == manage.endpoints@[k as int].deep_view());
                let endpoint = &manage.endpoints[k];
                assert(endpoint.deep_view().actions.len() == endpoint.actions@.len());
                if endpoint.actions.len() > 0 {
                    match build_action_dialog_with(endpoint, k, invokes) {
                        Ok(dialog) => {
                            self.modal = Some(Modal::Action(dialog));
                        },
                        Err(e) => {
                            return Err(AppError::Matter(e));
                        },
                    }
                } else {
                    let message = with_number(
                        "Endpoint ",
                        endpoint.id as u64,
                        " has no Actions cluster entries.",
                    );
                    self.set_status(message, StatusKind::Normal);
                }
            }
        }
        Ok(Step::Done)
    }

    fn cancel(&mut self)
        ensures
            final(self).deep_view() == app_model::canceled(old(self).deep_view()),
    {
        self.set_status("Canceled.".to_string(), StatusKind::Normal);
    }

    fn cancel_commissioning(&mut self)
        ensures
            final(self).deep_view() == app_model::commissioning_canceled(old(self).deep_view()),
    {
        self.set_status("Commissioning canceled.".to_string(), StatusKind::Normal);
    }

    fn run_input_submit(&mut self, dialog: InputDialog) -> (r: Result<Step<C>, AppError>)
        ensures
            (final(self).deep_view(), result_view(r)) == app_model::submitted(
                old(self).deep_view(),
                dialog.deep_view(),
            ),
    {
        match dialog.submit {
            SubmitAction::CommissionSetupCode { device_index } => {
                self.queue_task(
                    PendingTask::StartCommission { device_index, setup_code: dialog.value },
                    "Starting commissioning...",
                );
                Ok(Step::Done)
            },
            SubmitAction::RenameEndpoint { endpoint_index } => {
                let label = trim(dialog.value.as_str());
                let id: u16;
                let node_id: u64;
                if let Screen::Manage(manage) = &mut self.screen {
                    if endpoint_index >= manage.endpoints.len() {
                        return Err(AppError::EndpointNotFound);
                    }
                    let ghost all = manage.endpoints.deep_view();
                    assert(all[endpoint_index as int]
                        == manage.endpoints@[endpoint_index as int].deep_view());
                    id = manage.endpoints[endpoint_index].id;
                    node_id = manage.device.node_id;
                    manage.endpoints[endpoint_index].label = Some(label.clone());
                    assert(manage.endpoints.deep_view() =~= app_model::relabelled(
                        all,
                        endpoint_index as int,
                        label@,
                    ));
                } else {
                    return Ok(Step::Done);
                }
                upsert_endpoint_alias(
                    &mut self.state.endpoint_aliases,
                    EndpointAlias { node_id, endpoint_id: id, label },
                );
                Ok(
                    Step::Save {
                        contents: self.state.save(),
                        saved: Saved::EndpointLabel { endpoint: id },
                    },
                )
            },
            SubmitAction::ChangeFabricLabel => {
                let label = trim(dialog.value.as_str());
                self.queue_task(PendingTask::ChangeFabricLabel { label }, "Updating fabric label...");
                Ok(Step::Done)
            },
        }
    }

    fn run_confirm(&mut self, confirm: ConfirmAction)
        ensures
            final(self).deep_view() == app_model::confirmed(old(self).deep_view(), confirm),
    {
        match confirm {
            ConfirmAction::Decommission => {
                self.queue_task(PendingTask::Decommission, "Decommissioning device...");
            },
        }
    }

    fn run_action_submit(&mut self, dialog: ActionDialog) -> (r: Result<Step<C>, AppError>)
        ensures
            (final(self).deep_view(), result_view(r)) == app_model::option_chosen(
                old(self).deep_view(),
                dialog.deep_view(),
            ),
    {
        if dialog.selected >= dialog.options.len() {
            return Err(AppError::ActionOptionNotFound);
        }
        let option = &dialog.options[dialog.selected];
        assert(dialog.options.deep_view()[dialog.selected as int] == option.deep_view());
        let payload = option.payload.clone();
        assert(payload@ =~= option.payload@);
        self.queue_task(
            PendingTask::InvokeAction {
                endpoint_index: dialog.endpoint_index,
                command_id: option.command_id,
                payload,
                label: option.label.clone(),
            },
            "Sending Actions cluster command...",
        );
        Ok(Step::Done)
    }

    /// Asks for the name of an endpoint of a device that is being commissioned, or ends the
    /// dialogs.
    fn name_endpoint(&mut self, pending: PendingCommission<C>, index: usize)
        ensures
            final(self).deep_view() == app_model::naming(
                old(self).deep_view(),
                pending.deep_view(),
                index as int,
            ),
    {
        if index < pending.endpoints.len() {
            assert(pending.endpoints.deep_view()[index as int]
                == pending.endpoints@[index as int].deep_view());
            let value = endpoint_default_label(&pending.endpoints[index]);
            self.modal = Some(Modal::CommissionEndpointName { pending, index, value });
        } else {
            self.queue_task(PendingTask::FinishCommission(pending), "Finalizing commissioning...");
        }
    }

    /// Handles a key while a dialog is open.
    pub fn on_modal_key(&mut self, key: KeyCode) -> (r: Result<Step<C>, AppError>)
        requires
            old(self).deep_view().wf(),
            old(self).modal is Some,
        ensures
            (final(self).deep_view(), result_view(r)) == app_model::modal_key(
                old(self).deep_view(),
                old(self).deep_view().modal.unwrap(),
                key,
            ),
            final(self).deep_view().wf(),
    {
        let modal = match self.modal.take() {
            Some(modal) => modal,
            None => {
                return Ok(Step::Done);
            },
        };
        match modal {
            Modal::Message(message) => match key {
                KeyCode::Enter | KeyCode::Esc => {
                    self.status = message;
                },
                _ => {
                    self.modal = Some(Modal::Message(message));
                },
            },
            Modal::Confirm(dialog) => match key {
                KeyCode::Char('y') => {
                    self.run_confirm(dialog.confirm);
                },
                KeyCode::Char('n') | KeyCode::Esc => {
                    self.cancel();
                },
                _ => {
                    self.modal = Some(Modal::Confirm(dialog));
                },
            },
            Modal::Input(dialog) => {
                return self.on_input_key(dialog, key);
            },
            Modal::Action(dialog) => {
                return self.on_action_key(dialog, key);
            },
            Modal::CommissionDeviceName { pending, value } => match key {
                KeyCode::Esc => {
                    self.cancel_commissioning();
                },
                KeyCode::Enter => {
                    let device_label = or_before(value.as_str(), pending.device_label);
                    self.modal = Some(
                        Modal::CommissionFabricName {
                            pending: PendingCommission {
                                connection: pending.connection,
                                node_id: pending.node_id,
                                address: pending.address,
                                device_label,
                                fabric_label: pending.fabric_label,
                                endpoints: pending.endpoints,
                            },
                            value: self.state.fabric_label.clone(),
                        },
                    );
                },
                _ => {
                    let value = edit(value, key);
                    self.modal = Some(Modal::CommissionDeviceName { pending, value });
                },
            },
            Modal::CommissionFabricName { pending, value } => match key {
                KeyCode::Esc => {
                    self.cancel_commissioning();
                },
                KeyCode::Enter => {
                    let fabric_label = or_before(value.as_str(), pending.fabric_label);
                    self.name_endpoint(
                        PendingCommission {
                            connection: pending.connection,
                            node_id: pending.node_id,
                            address: pending.address,
                            device_label: pending.device_label,
                            fabric_label,
                            endpoints: pending.endpoints,
                        },
                        0,
                    );
                },
                _ => {
                    let value = edit(value, key);
                    self.modal = Some(Modal::CommissionFabricName { pending, value });
                },
            },
            Modal::CommissionEndpointName { pending, index, value } => {
                self.on_endpoint_name_key(pending, index, value, key);
            },
        }
        Ok(Step::Done)
    }

    fn on_endpoint_name_key(
        &mut self,
        pending: PendingCommission<C>,
        index: usize,
        value: String,
        key: KeyCode,
    )
        requires
            index < pending.endpoints@.len(),
            old(self).modal is None,
        ensures
            (
                final(self).deep_view(),
                Ok::<StepView<C>, AppError>(StepView::Done),
            ) == app_model::modal_key(
                old(self).deep_view(),
                ModalView::CommissionEndpointName {
                    pending: pending.deep_view(),
                    index,
                    value: value@,
                },
                key,
            ),
    {
        match key {
            KeyCode::Esc => {
                self.cancel_commissioning();
            },
            KeyCode::Enter => {
                let label = trim(value.as_str());
                let mut endpoints = pending.endpoints;
                let ghost all = endpoints.deep_view();
                let count: usize = endpoints.len();
                if chars_of(label.as_str()).len() > 0 {
                    assert(all[index as int] == endpoints@[index as int].deep_view());
                    endpoints[index].label = Some(label);
                    assert(endpoints.deep_view() =~= app_model::relabelled(
                        all,
                        index as int,
                        label@,
                    ));
                }
                self.name_endpoint(
                    PendingCommission {
                        connection: pending.connection,
                        node_id: pending.node_id,
                        address: pending.address,
                        device_label: pending.device_label,
                        fabric_label: pending.fabric_label,
                        endpoints,
                    },
                    index + 1,
                );
            },
            _ => {
                let value = edit(value, key);
                self.modal = Some(Modal::CommissionEndpointName { pending, index, value });
            },
        }
    }

    fn on_input_key(&mut self, dialog: InputDialog, key: KeyCode) -> (r: Result<
        Step<C>,
        AppError,
    >)
        requires
            old(self).modal is None,
        ensures
            (final(self).deep_view(), result_view(r)) == app_model::modal_key(
                old(self).deep_view(),
                ModalView::Input(dialog.deep_view()),
                key,
            ),
    {
        match key {
            KeyCode::Esc => {
                self.cancel();
            },
            KeyCode::Enter => {
                return self.run_input_submit(dialog);
            },
            _ => {
                self.modal = Some(
                    Modal::Input(
                        InputDialog {
                            title: dialog.title,
                            value: edit(dialog.value, key),
                            help: dialog.help,
                            submit: dialog.submit,
                        },
                    ),
                );
            },
        }
        Ok(Step::Done)
    }

    fn on_action_key(&mut self, dialog: ActionDialog, key: KeyCode) -> (r: Result<
        Step<C>,
        AppError,
    >)
        requires
            old(self).modal is None,
            app_model::selection_ok(dialog.selected, dialog.options@.len()),
        ensures
            (final(self).deep_view(), result_view(r)) == app_model::modal_key(
                old(self).deep_view(),
                ModalView::Action(dialog.deep_view()),
                key,
            ),
    {
        let count: usize = dialog.options.len();
        let selected: usize = match key {
            KeyCode::Up => step_back(dialog.selected),
            KeyCode::Down => step_on(dialog.selected, count),
            _ => dialog.selected,
        };
        match key {
            KeyCode::Esc => {
                self.cancel();
            },
            KeyCode::Enter => {
                return self.run_action_submit(dialog);
            },
            _ => {
                self.modal = Some(
                    Modal::Action(
                        ActionDialog {
                            title: dialog.title,
                            endpoint_index: dialog.endpoint_index,
                            options: dialog.options,
                            selected,
                        },
                    ),
                );
            },
        }
        Ok(Step::Done)
    }

    /// What a key event does, with the ids of the invocations that a dialog for actions needs.
    pub fn on_key_with(&mut self, pressed: bool, key: KeyCode, invokes: &Vec<u32>) -> (r: Result<
        Step<C>,
        AppError,
    >)
        requires
            old(self).deep_view().wf(),
            invokes@.len() >= app_model::invokes_needed(old(self).deep_view(), pressed, key),
        ensures
            (final(self).deep_view(), result_view(r)) == app_model::key_result(
                old(self).deep_view(),
                pressed,
                key,
                invokes@,
            ),
            final(self).deep_view().wf(),
    {
        proof {
            app_laws::keys_keep_the_invariant(self.deep_view(), pressed, key, invokes@);
        }
        if !pressed {
            return Ok(Step::Done);
        }
        if self.modal.is_some() {
            return self.on_modal_key(key);
        }
        match &self.screen {
            Screen::Overview => {
                self.on_overview_key(key);
                Ok(Step::Done)
            },
            Screen::Manage(_) => self.on_manage_key(key, invokes),
        }
    }

    /// How many ids of invocations a key needs.
    fn count_invokes(&self, pressed: bool, key: KeyCode) -> (r: usize)
        ensures
            r == app_model::invokes_needed(self.deep_view(), pressed, key),
    {
        if pressed && self.modal.is_none() && key == KeyCode::Char('a') {
            if let Screen::Manage(manage) = &self.screen {
                let k: usize = manage.selected_endpoint;
                if k < manage.endpoints.len() {
                    assert(manage.endpoints.deep_view()[k as int]
                        == manage.endpoints@[k as int].deep_view());
                    return manage.endpoints[k].actions.len();
                }
            }
        }
        0
    }

    /// What a key event does. A dialog for actions gets the ids of invocations that are made now.
    pub fn on_key(&mut self, pressed: bool, key: KeyCode) -> (r: Result<Step<C>, AppError>)
        requires
            old(self).deep_view().wf(),
        ensures
            exists|invokes: Seq<u32>|
                invokes.len() == app_model::invokes_needed(old(self).deep_view(), pressed, key) && (
                final(self).deep_view(), result_view(r)) == #[trigger] app_model::key_result(
                    old(self).deep_view(),
                    pressed,
                    key,
                    invokes,
                ),
            final(self).deep_view().wf(),
    {
        let invokes = matter::invoke_ids(self.count_invokes(pressed, key));
        self.on_key_with(pressed, key, &invokes)
    }

    /// Whether the task that is due needs an id for a new device.
    pub fn needs_node_id(&self) -> (r: bool)
        ensures
            r == app_model::needs_node_id(self.deep_view()),
    {
        match &self.pending_task {
            Some(PendingTask::StartCommission { device_index, setup_code }) => {
                parse_setup_code(trim(setup_code.as_str()).as_str()).is_ok() && *device_index
                    < self.commissionable.len()
            },
            _ => false,
        }
    }

    /// Runs the task that is due, up to the outside work that it needs.
    pub fn run_pending_task(&mut self) -> (r: Result<Step<C>, AppError>)
        requires
            old(self).deep_view().wf(),
            app_model::needs_node_id(old(self).deep_view()) ==> state::has_free_id(
                old(self).deep_view().state.devices,
            ),
        ensures
            (final(self).deep_view(), result_view(r)) == app_model::task_result(
                old(self).deep_view(),
            ),
            final(self).deep_view().wf(),
    {
        let task = match self.pending_task.take() {
            Some(task) => task,
            None => {
                return Ok(Step::Done);
            },
        };
        self.modal = None;
        match task {
            PendingTask::RefreshScan => {
                self.begin_scan();
                Ok(Step::Scan)
            },
            PendingTask::StartCommission { device_index, setup_code } => {
                match parse_setup_code(trim(setup_code.as_str()).as_str()) {
                    Err(e) => Err(AppError::SetupCode(e)),
                    Ok(pin) => {
                        if device_index >= self.commissionable.len() {
                            return Err(AppError::CommissionableNotFound);
                        }
                        let device = &self.commissionable[device_index];
                        assert(self.commissionable.deep_view()[device_index as int]
                            == device.deep_view());
                        let status = between(
                            "Commissioning ",
                            device.display_name.as_str(),
                            "...",
                        );
                        let order = start_commission(&self.state, device, pin);
                        self.set_status(status, StatusKind::Progress);
                        Ok(Step::Commission(order))
                    },
                }
            },
            PendingTask::OpenSelectedCommissioned => self.open_selected_commissioned(),
            PendingTask::EndpointOn { endpoint_index } => {
                let payload: Vec<u8> = Vec::new();
                assert(payload@ =~= seq![]);
                match self.endpoint_id(endpoint_index) {
                    Err(e) => Err(e),
                    Ok(None) => Ok(Step::Done),
                    Ok(Some(endpoint)) => Ok(
                        Step::Invoke {
                            invocation: Invocation {
                                endpoint,
                                cluster: CLUSTER_ON_OFF,
                                command: COMMAND_ON,
                                payload,
                            },
                            sent: Sent::On { endpoint },
                        },
                    ),
                }
            },
            PendingTask::EndpointOff { endpoint_index } => {
                let payload: Vec<u8> = Vec::new();
                assert(payload@ =~= seq![]);
                match self.endpoint_id(endpoint_index) {
                    Err(e) => Err(e),
                    Ok(None) => Ok(Step::Done),
                    Ok(Some(endpoint)) => Ok(
                        Step::Invoke {
                            invocation: Invocation {
                                endpoint,
                                cluster: CLUSTER_ON_OFF,
                                command: COMMAND_OFF,
                                payload,
                            },
                            sent: Sent::Off { endpoint },
                        },
                    ),
                }
            },
            PendingTask::ChangeFabricLabel { label } => match &self.screen {
                Screen::Overview => Ok(Step::Done),
                Screen::Manage(_) => match update_fabric_label(label.as_str()) {
                    Err(e) => Err(AppError::Matter(e)),
                    Ok(invocation) => Ok(
                        Step::Invoke { invocation, sent: Sent::FabricLabel { label } },
                    ),
                },
            },
            PendingTask::InvokeAction { endpoint_index, command_id, payload, label } => {
                match self.endpoint_id(endpoint_index) {
                    Err(e) => Err(e),
                    Ok(None) => Ok(Step::Done),
                    Ok(Some(endpoint)) => Ok(
                        Step::Invoke {
                            invocation: Invocation {
                                endpoint,
                                cluster: CLUSTER_ACTIONS,
                                command: command_id,
                                payload,
                            },
                            sent: Sent::Action { endpoint, label },
                        },
                    ),
                }
            },
            PendingTask::Decommission => match &self.screen {
                Screen::Overview => Ok(Step::Done),
                Screen::Manage(_) => Ok(Step::ReadFabricIndex),
            },
            PendingTask::FinishCommission(pending) => {
                match update_fabric_label(pending.fabric_label.as_str()) {
                    Err(e) => Err(AppError::Matter(e)),
                    Ok(invocation) => Ok(Step::Finish { pending, invocation }),
                }
            },
            PendingTask::RefreshEndpoints => match &self.screen {
                Screen::Overview => Ok(Step::Done),
                Screen::Manage(_) => Ok(Step::Reload),
            },
        }
    }

    fn begin_scan(&mut self)
        ensures
            final(self).deep_view() == app_model::scanning(old(self).deep_view()),
    {
        self.set_status("Scanning LAN for Matter devices...".to_string(), StatusKind::Progress);
    }

    /// The id of an endpoint of the device that is managed; nothing where none is managed.
    fn endpoint_id(&self, endpoint_index: usize) -> (r: Result<Option<u16>, AppError>)
        ensures
            r == match self.deep_view().screen {
                ScreenView::Overview => Ok::<Option<u16>, AppError>(None),
                ScreenView::Manage(m) => if endpoint_index >= m.endpoints.len() {
                    Err(AppError::EndpointNotFound)
                } else {
                    Ok(Some(m.endpoints[endpoint_index as int].id))
                },
            },
    {
        match &self.screen {
            Screen::Overview => Ok(None),
            Screen::Manage(manage) => {
                if endpoint_index >= manage.endpoints.len() {
                    Err(AppError::EndpointNotFound)
                } else {
                    assert(manage.endpoints.deep_view()[endpoint_index as int]
                        == manage.endpoints@[endpoint_index as int].deep_view());
                    Ok(Some(manage.endpoints[endpoint_index].id))
                }
            },
        }
    }

    fn open_selected_commissioned(&mut self) -> (r: Result<Step<C>, AppError>)
        ensures
            (final(self).deep_view(), result_view(r)) == app_model::opening(old(self).deep_view()),
    {
        if self.commissioned.len() == 0 {
            return Ok(Step::Done);
        }
        let k: usize = self.selected_commissioned;
        if k >= self.commissioned.len() {
            return Err(AppError::CommissionedNotFound);
        }
        let commissioned = &self.commissioned[k];
        assert(self.commissioned.deep_view()[k as int] == commissioned.deep_view());
        match &commissioned.known {
            None => {
                self.set_status(
                    "Selected device is not managed by this client.".to_string(),
                    StatusKind::Normal,
                );
                Ok(Step::Done)
            },
            Some(known) => Ok(
                Step::Open(
                    KnownDevice {
                        label: known.label.clone(),
                        node_id: known.node_id,
                        last_address: first_socket_addr(&commissioned.addresses, commissioned.port),
                    },
                ),
            ),
        }
    }

    /// Takes the outcome of a scan: the devices that were found, or why the scan has failed.
    pub fn refresh_scan(
        &mut self,
        outcome: Result<(Vec<CommissionableDevice>, Vec<CommissionedDevice>), String>,
    )
        requires
            old(self).deep_view().wf(),
        ensures
            final(self).deep_view() == app_model::scanned(
                old(self).deep_view(),
                match outcome {
                    Ok(found) => Ok((found.0.deep_view(), found.1.deep_view())),
                    Err(message) => Err(message@),
                },
            ),
            final(self).deep_view().wf(),
    {
        match outcome {
            Ok((commissionable, commissioned)) => {
                self.selected_commissionable = clamp_selection(
                    self.selected_commissionable,
                    commissionable.len(),
                );
                self.selected_commissioned = clamp_selection(
                    self.selected_commissioned,
                    commissioned.len(),
                );
                let mut status: String = "Found ".to_string();
                status.append(decimal(commissionable.len() as u64).as_str());
                status.append(" commissionable and ");
                status.append(decimal(commissioned.len() as u64).as_str());
                status.append(" commissioned device(s).");
                self.commissionable = commissionable;
                self.commissioned = commissioned;
                self.set_status(status, StatusKind::Success);
            },
            Err(message) => {
                let status = between("Scan failed: ", message.as_str(), "");
                proof {
                    reveal_strlit("");
                    assert(status@ =~= "Scan failed: "@ + message@);
                }
                self.set_status(status, StatusKind::Error);
            },
        }
    }

    /// Takes a device that has joined the fabric, and asks for its name.
    pub fn commission_started(&mut self, pending: PendingCommission<C>)
        requires
            old(self).deep_view().wf(),
        ensures
            final(self).deep_view() == app_model::joined(
                old(self).deep_view(),
                pending.deep_view(),
            ),
            final(self).deep_view().wf(),
    {
        let value = pending.device_label.clone();
        self.modal = Some(Modal::CommissionDeviceName { pending, value });
    }

    /// Takes the connection to a device and what has been read of its endpoints.
    pub fn device_opened(
        &mut self,
        device: KnownDevice,
        connection: C,
        endpoints: Vec<EndpointSummary>,
        now: u64,
    )
        requires
            old(self).deep_view().wf(),
        ensures
            final(self).deep_view() == app_model::opened(
                old(self).deep_view(),
                device.deep_view(),
                connection,
                endpoints.deep_view(),
                now,
            ),
            final(self).deep_view().wf(),
    {
        let mut endpoints = endpoints;
        apply_endpoint_aliases(&self.state, device.node_id, &mut endpoints);
        self.screen = Screen::Manage(
            ManageState {
                device,
                connection,
                endpoints,
                selected_endpoint: 0,
                last_endpoint_refresh: now,
            },
        );
        self.set_status(
            "Connected.  o on  p off  a actions  n rename  f fabric  d decommission  b back".to_string(),
            StatusKind::Success,
        );
    }

    /// Takes what has been read anew of the endpoints of the device that is managed.
    pub fn endpoints_reloaded(&mut self, endpoints: Vec<EndpointSummary>, now: u64)
        requires
            old(self).deep_view().wf(),
        ensures
            final(self).deep_view() == app_model::reloaded(
                old(self).deep_view(),
                endpoints.deep_view(),
                now,
            ),
            final(self).deep_view().wf(),
    {
        let mut endpoints = endpoints;
        if let Screen::Manage(manage) = &mut self.screen {
            let ghost before = endpoints.deep_view();
            apply_endpoint_aliases(&self.state, manage.device.node_id, &mut endpoints);
            assert(endpoints.deep_view().len() == endpoints@.len());
            assert(before.len() == endpoints@.len());
            manage.selected_endpoint = clamp_selection(manage.selected_endpoint, endpoints.len());
            manage.endpoints = endpoints;
            manage.last_endpoint_refresh = now;
        }
    }

    /// Takes the index of the fabric on the device that is managed.
    pub fn fabric_index_read(&self, value: &TlvValue) -> (r: Result<Step<C>, AppError>)
        ensures
            result_view(r) == app_model::index_read(self.deep_view(), *value),
    {
        match &self.screen {
            Screen::Overview => Ok(Step::Done),
            Screen::Manage(manage) => match decommission_device(value) {
                Err(e) => Err(AppError::Matter(e)),
                Ok(invocation) => Ok(
                    Step::Invoke {
                        invocation,
                        sent: Sent::RemoveFabric {
                            node_id: manage.device.node_id,
                            label: manage.device.label.clone(),
                        },
                    },
                ),
            },
        }
    }

    /// Takes note of a command that has been sent.
    pub fn sent(&mut self, what: Sent) -> (r: Step<C>)
        requires
            old(self).deep_view().wf(),
        ensures
            (final(self).deep_view(), r.deep_view()) == app_model::sent(
                old(self).deep_view(),
                what.deep_view(),
            ),
            final(self).deep_view().wf(),
    {
        match what {
            Sent::On { endpoint } => {
                self.set_status(
                    with_number("Sent On to endpoint ", endpoint as u64, "."),
                    StatusKind::Success,
                );
                Step::Done
            },
            Sent::Off { endpoint } => {
                self.set_status(
                    with_number("Sent Off to endpoint ", endpoint as u64, "."),
                    StatusKind::Success,
                );
                Step::Done
            },
            Sent::Action { endpoint, label } => {
                let mut status = between("Sent \"", label.as_str(), "\" to endpoint ");
                status.append(decimal(endpoint as u64).as_str());
                status.append(".");
                self.set_status(status, StatusKind::Success);
                Step::Done
            },
            Sent::FabricLabel { label } => {
                self.state.fabric_label = label;
                Step::Save { contents: self.state.save(), saved: Saved::FabricLabel }
            },
            Sent::RemoveFabric { node_id, label } => {
                remove_devices(&mut self.state.devices, node_id);
                remove_aliases(&mut self.state.endpoint_aliases, node_id);
                Step::Save { contents: self.state.save(), saved: Saved::Decommissioned { label } }
            },
        }
    }

    /// Takes note that the fabric on a device that is being commissioned has its label.
    pub fn finish_commission(&mut self, pending: PendingCommission<C>) -> (r: Step<C>)
        requires
            old(self).deep_view().wf(),
        ensures
            (final(self).deep_view(), r.deep_view()) == app_model::finished(
                old(self).deep_view(),
                pending.deep_view(),
            ),
            final(self).deep_view().wf(),
    {
        self.state.fabric_label = pending.fabric_label;
        upsert_known_device(
            &mut self.state.devices,
            KnownDevice {
                label: pending.device_label.clone(),
                node_id: pending.node_id,
                last_address: pending.address,
            },
        );
        name_endpoints(&mut self.state.endpoint_aliases, pending.node_id, &pending.endpoints);
        Step::Save {
            contents: self.state.save(),
            saved: Saved::Commissioned { label: pending.device_label, node_id: pending.node_id },
        }
    }

    /// Takes note that the state has been stored.
    pub fn saved(&mut self, what: Saved) -> (r: Step<C>)
        requires
            old(self).deep_view().wf(),
        ensures
            (final(self).deep_view(), r.deep_view()) == app_model::stored(
                old(self).deep_view(),
                what.deep_view(),
            ),
            final(self).deep_view().wf(),
    {
        match what {
            Saved::EndpointLabel { endpoint } => {
                self.set_status(
                    with_number("Saved endpoint ", endpoint as u64, " label."),
                    StatusKind::Success,
                );
                Step::Done
            },
            Saved::FabricLabel => {
                self.set_status("Fabric label updated.".to_string(), StatusKind::Success);
                Step::Done
            },
            Saved::Decommissioned { label } => {
                self.screen = Screen::Overview;
                self.set_status(
                    between("Decommissioned ", label.as_str(), "."),
                    StatusKind::Success,
                );
                self.begin_scan();
                Step::Scan
            },
            Saved::Commissioned { label, node_id } => {
                let mut status = between("Commissioned \"", label.as_str(), "\" (node_id=");
                status.append(decimal(node_id).as_str());
                status.append(").");
                self.set_status(status, StatusKind::Success);
                self.begin_scan();
                Step::Scan
            },
        }
    }
}

/// Removes the devices with a node id.
fn remove_devices(devices: &mut Vec<KnownDevice>, node_id: u64)
    ensures
        final(devices).deep_view() == old(devices).deep_view().filter(
            |d: KnownDeviceView| d.node_id != node_id,
        ),
{
    let ghost p = |d: KnownDeviceView| d.node_id != node_id;
    let ghost all = devices.deep_view();
    let mut kept: Vec<KnownDevice> = Vec::new();
    let mut i: usize = 0;
    assert(all.take(0).filter(p) =~= seq![]) by {
        reveal(Seq::filter);
    }
    assert(kept.deep_view() =~= seq![]);
    while i < devices.len()
        invariant
            i <= devices.len(),
            all == devices.deep_view(),
            *devices == *old(devices),
            p == (|d: KnownDeviceView| d.node_id != node_id),
            kept.deep_view() == all.take(i as int).filter(p),
        decreases devices.len() - i,
    {
        let ghost before = kept.deep_view();
        assert(all[i as int] == devices@[i as int].deep_view());
        assert(all.take(i + 1).drop_last() =~= all.take(i as int));
        if devices[i].node_id != node_id {
            kept.push(devices[i].clone());
            assert(kept.deep_view() =~= before.push(all[i as int]));
        }
        assert(kept.deep_view() == all.take(i + 1).filter(p)) by {
            reveal(Seq::filter);
        }
        i += 1;
    }
    assert(all.take(i as int) =~= all);
    *devices = kept;
}

/// Removes the aliases of a node.
fn remove_aliases(aliases: &mut Vec<EndpointAlias>, node_id: u64)
    ensures
        final(aliases).deep_view() == old(aliases).deep_view().filter(
            |a: EndpointAliasView| a.node_id != node_id,
        ),
{
    let ghost p = |a: EndpointAliasView| a.node_id != node_id;
    let ghost all = aliases.deep_view();
    let mut kept: Vec<EndpointAlias> = Vec::new();
    let mut i: usize = 0;
    assert(all.take(0).filter(p) =~= seq![]) by {
        reveal(Seq::filter);
    }
    assert(kept.deep_view() =~= seq![]);
    while i < aliases.len()
        invariant
            i <= aliases.len(),
            all == aliases.deep_view(),
            *aliases == *old(aliases),
            p == (|a: EndpointAliasView| a.node_id != node_id),
            kept.deep_view() == all.take(i as int).filter(p),
        decreases aliases.len() - i,
    {
        let ghost before = kept.deep_view();
        let alias = &aliases[i];
        assert(all[i as int] == alias.deep_view());
        assert(all.take(i + 1).drop_last() =~= all.take(i as int));
        if alias.node_id != node_id {
            kept.push(
                EndpointAlias {
                    node_id: alias.node_id,
                    endpoint_id: alias.endpoint_id,
                    label: alias.label.clone(),
                },
            );
            assert(kept.deep_view() =~= before.push(all[i as int]));
        }
        assert(kept.deep_view() == all.take(i + 1).filter(p)) by {
            reveal(Seq::filter);
        }
        i += 1;
    }
    assert(all.take(i as int) =~= all);
    *aliases = kept;
}

/// Gives the endpoints of a node their names.
fn name_endpoints(
    aliases: &mut Vec<EndpointAlias>,
    node_id: u64,
    endpoints: &Vec<EndpointSummary>,
)
    ensures
        final(aliases).deep_view() == app_model::with_names(
            old(aliases).deep_view(),
            node_id,
            endpoints.deep_view(),
        ),
{
    let ghost all = endpoints.deep_view();
    let ghost before = aliases.deep_view();
    let mut i: usize = 0;
    assert(all.take(0) =~= seq![]);
    while i < endpoints.len()
        invariant
            i <= endpoints.len(),
            all == endpoints.deep_view(),
            aliases.deep_view() == app_model::with_names(before, node_id, all.take(i as int)),
        decreases endpoints.len() - i,
    {
        assert(all[i as int] == endpoints@[i as int].deep_view());
        assert(all.take(i + 1).drop_last() =~= all.take(i as int));
        upsert_endpoint_alias(
            aliases,
            EndpointAlias {
                node_id,
                endpoint_id: endpoints[i].id,
                label: endpoint_default_label(&endpoints[i]),
            },
        );
        i += 1;
    }
    assert(all.take(i as int) =~= all);
}

/// The text of a field after a key.
fn edit(value: String, key: KeyCode) -> (r: String)
    ensures
        r@ == match app_model::edited(value@, key) {
            Some(edited) => edited,
            None => value@,
        },
{
    let mut r = value;
    match key {
        KeyCode::Char(c) => {
            r.push(c);
        },
        KeyCode::Backspace => {
            r.pop();
        },
        _ => {},
    }
    r
}

/// What was typed, without whitespace around it; what was there before where nothing is left.
fn or_before(value: &str, before: String) -> (r: String)
    ensures
        r@ == app_model::unless_blank(value@, before@),
{
    let trimmed = trim(value);
    if chars_of(trimmed.as_str()).len() > 0 {
        trimmed
    } else {
        before
    }
}

/// The selection before this one.
fn step_back(selected: usize) -> (r: usize)
    ensures
        r == app_model::previous(selected),
{
    if selected > 0 {
        selected - 1
    } else {
        0
    }
}

/// The selection behind this one.
fn step_on(selected: usize, len: usize) -> (r: usize)
    requires
        app_model::selection_ok(selected, len as nat),
    ensures
        r == app_model::next(selected, len as nat),
{
    next_index(selected, len)
}

} // verus!
