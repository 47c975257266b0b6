//! The devices, dialogs and tasks of the terminal client.

use crate::state::{KnownDevice, KnownDeviceView};
use vstd::prelude::*;

verus! {

/// The list that the keys act on.
#[derive(Clone, Copy, Debug, PartialEq, Eq, Structural)]
pub enum FocusPane {
    Commissionable,
    Commissioned,
}

/// What happens with the text of an input dialog.
#[derive(Clone, Copy, Debug, PartialEq, Eq, Structural)]
pub enum SubmitAction {
    CommissionSetupCode { device_index: usize },
    RenameEndpoint { endpoint_index: usize },
    ChangeFabricLabel,
}

/// What happens when a dialog is confirmed.
#[derive(Clone, Copy, Debug, PartialEq, Eq, Structural)]
pub enum ConfirmAction {
    Decommission,
}

/// Drives the color of the status bar.
#[derive(Clone, Copy, Debug, PartialEq, Eq, Structural)]
pub enum StatusKind {
    Normal,
    Success,
    Progress,
    Error,
}

/// An IP address: whether it is of version 4, and how it is written.
#[derive(Debug)]
pub struct IpAddress {
    pub v4: bool,
    pub text: String,
}

/// A device that waits to be commissioned.
#[derive(Debug)]
pub struct CommissionableDevice {
    pub display_name: String,
    pub device_type: String,
    pub addresses: Vec<IpAddress>,
    pub port: u16,
    pub discriminator: Option<String>,
    pub vendor_id: Option<String>,
    pub product_id: Option<String>,
}

/// A device that has been commissioned, by this client or by another one.
#[derive(Debug)]
pub struct CommissionedDevice {
    pub display_name: String,
    pub addresses: Vec<IpAddress>,
    pub port: u16,
    pub known: Option<KnownDevice>,
}

/// An entry of the Actions cluster.
#[derive(Debug)]
pub struct Action {
    pub action_id: Option<u16>,
    pub name: Option<String>,
}

/// What the client shows of an endpoint.
#[derive(Debug)]
pub struct EndpointSummary {
    pub id: u16,
    pub label: Option<String>,
    pub device_types: Vec<String>,
    pub has_on_off: bool,
    pub on_off_state: Option<bool>,
    pub actions: Vec<Action>,
}

/// A device that is being managed, over a connection `C`.
pub struct ManageState<C> {
    pub device: KnownDevice,
    pub connection: C,
    pub endpoints: Vec<EndpointSummary>,
    pub selected_endpoint: usize,
    pub last_endpoint_refresh: u64,
}

/// A device that has joined the fabric and is still to be named.
pub struct PendingCommission<C> {
    pub connection: C,
    pub node_id: u64,
    pub address: String,
    pub device_label: String,
    pub fabric_label: String,
    pub endpoints: Vec<EndpointSummary>,
}

/// A dialog that asks for a line of text.
#[derive(Debug)]
pub struct InputDialog {
    pub title: String,
    pub value: String,
    pub help: String,
    pub submit: SubmitAction,
}

/// A dialog that asks for a confirmation.
#[derive(Debug)]
pub struct ConfirmDialog {
    pub title: String,
    pub message: String,
    pub confirm: ConfirmAction,
}

/// A command that can be sent to the Actions cluster.
#[derive(Debug)]
pub struct ActionOption {
    pub label: String,
    pub command_id: u32,
    pub payload: Vec<u8>,
}

/// A dialog that asks for one of several commands.
#[derive(Debug)]
pub struct ActionDialog {
    pub title: String,
    pub endpoint_index: usize,
    pub options: Vec<ActionOption>,
    pub selected: usize,
}

/// What fills the terminal behind the dialogs.
pub enum Screen<C> {
    Overview,
    Manage(ManageState<C>),
}

/// The dialog that is open.
pub enum Modal<C> {
    Input(InputDialog),
    Message(String),
    Confirm(ConfirmDialog),
    Action(ActionDialog),
    CommissionDeviceName { pending: PendingCommission<C>, value: String },
    CommissionFabricName { pending: PendingCommission<C>, value: String },
    CommissionEndpointName { pending: PendingCommission<C>, index: usize, value: String },
}

/// Work that runs after the next redraw.
pub enum PendingTask<C> {
    RefreshScan,
    StartCommission { device_index: usize, setup_code: String },
    OpenSelectedCommissioned,
    EndpointOn { endpoint_index: usize },
    EndpointOff { endpoint_index: usize },
    ChangeFabricLabel { label: String },
    InvokeAction { endpoint_index: usize, command_id: u32, payload: Vec<u8>, label: String },
    Decommission,
    FinishCommission(PendingCommission<C>),
    RefreshEndpoints,
}

/// The contents of an [`IpAddress`].
#[verifier::ext_equal]
pub struct IpAddressView {
    pub v4: bool,
    pub text: Seq<char>,
}

impl DeepView for IpAddress {
    type V = IpAddressView;

    open spec fn deep_view(&self) -> IpAddressView {
        IpAddressView {
            v4: self.v4,
            text: self.text@,
        }
    }
}

/// The contents of a [`CommissionableDevice`].
#[verifier::ext_equal]
pub struct CommissionableDeviceView {
    pub display_name: Seq<char>,
    pub device_type: Seq<char>,
    pub addresses: Seq<IpAddressView>,
    pub port: u16,
    pub discriminator: Option<Seq<char>>,
    pub vendor_id: Option<Seq<char>>,
    pub product_id: Option<Seq<char>>,
}

impl DeepView for CommissionableDevice {
    type V = CommissionableDeviceView;

    open spec fn deep_view(&self) -> CommissionableDeviceView {
        CommissionableDeviceView {
            display_name: self.display_name@,
            device_type: self.device_type@,
            addresses: self.addresses.deep_view(),
            port: self.port,
            discriminator: self.discriminator.deep_view(),
            vendor_id: self.vendor_id.deep_view(),
            product_id: self.product_id.deep_view(),
        }
    }
}

/// The contents of a [`CommissionedDevice`].
#[verifier::ext_equal]
pub struct CommissionedDeviceView {
    pub display_name: Seq<char>,
    pub addresses: Seq<IpAddressView>,
    pub port: u16,
    pub known: Option<KnownDeviceView>,
}

impl DeepView for CommissionedDevice {
    type V = CommissionedDeviceView;

    open spec fn deep_view(&self) -> CommissionedDeviceView {
        CommissionedDeviceView {
            display_name: self.display_name@,
            addresses: self.addresses.deep_view(),
            port: self.port,
            known: self.known.deep_view(),
        }
    }
}

/// The contents of an [`Action`].
#[verifier::ext_equal]
pub struct ActionView {
    pub action_id: Option<u16>,
    pub name: Option<Seq<char>>,
}

impl DeepView for Action {
    type V = ActionView;

    open spec fn deep_view(&self) -> ActionView {
        ActionView {
            action_id: self.action_id,
            name: self.name.deep_view(),
        }
    }
}

/// The contents of an [`EndpointSummary`].
#[verifier::ext_equal]
pub struct EndpointSummaryView {
    pub id: u16,
    pub label: Option<Seq<char>>,
    pub device_types: Seq<Seq<char>>,
    pub has_on_off: bool,
    pub on_off_state: Option<bool>,
    pub actions: Seq<ActionView>,
}

impl DeepView for EndpointSummary {
    type V = EndpointSummaryView;

    open spec fn deep_view(&self) -> EndpointSummaryView {
        EndpointSummaryView {
            id: self.id,
            label: self.label.deep_view(),
            device_types: self.device_types.deep_view(),
            has_on_off: self.has_on_off,
            on_off_state: self.on_off_state,
            actions: self.actions.deep_view(),
        }
    }
}

/// The contents of a [`ManageState`].
#[verifier::ext_equal]
pub struct ManageStateView<C> {
    pub device: KnownDeviceView,
    pub connection: C,
    pub endpoints: Seq<EndpointSummaryView>,
    pub selected_endpoint: usize,
    pub last_endpoint_refresh: u64,
}

impl<C> DeepView for ManageState<C> {
    type V = ManageStateView<C>;

    open spec fn deep_view(&self) -> ManageStateView<C> {
        ManageStateView {
            device: self.device.deep_view(),
            connection: self.connection,
            endpoints: self.endpoints.deep_view(),
            selected_endpoint: self.selected_endpoint,
            last_endpoint_refresh: self.last_endpoint_refresh,
        }
    }
}

/// The contents of a [`PendingCommission`].
#[verifier::ext_equal]
pub struct PendingCommissionView<C> {
    pub connection: C,
    pub node_id: u64,
    pub address: Seq<char>,
    pub device_label: Seq<char>,
    pub fabric_label: Seq<char>,
    pub endpoints: Seq<EndpointSummaryView>,
}

impl<C> DeepView for PendingCommission<C> {
    type V = PendingCommissionView<C>;

    open spec fn deep_view(&self) -> PendingCommissionView<C> {
        PendingCommissionView {
            connection: self.connection,
            node_id: self.node_id,
            address: self.address@,
            device_label: self.device_label@,
            fabric_label: self.fabric_label@,
            endpoints: self.endpoints.deep_view(),
        }
    }
}

/// The contents of an [`InputDialog`].
#[verifier::ext_equal]
pub struct InputDialogView {
    pub title: Seq<char>,
    pub value: Seq<char>,
    pub help: Seq<char>,
    pub submit: SubmitAction,
}

impl DeepView for InputDialog {
    type V = InputDialogView;

    open spec fn deep_view(&self) -> InputDialogView {
        InputDialogView {
            title: self.title@,
            value: self.value@,
            help: self.help@,
            submit: self.submit,
        }
    }
}

/// The contents of a [`ConfirmDialog`].
#[verifier::ext_equal]
pub struct ConfirmDialogView {
    pub title: Seq<char>,
    pub message: Seq<char>,
    pub confirm: ConfirmAction,
}

impl DeepView for ConfirmDialog {
    type V = ConfirmDialogView;

    open spec fn deep_view(&self) -> ConfirmDialogView {
        ConfirmDialogView {
            title: self.title@,
            message: self.message@,
            confirm: self.confirm,
        }
    }
}

/// The contents of an [`ActionOption`].
#[verifier::ext_equal]
pub struct ActionOptionView {
    pub label: Seq<char>,
    pub command_id: u32,
    pub payload: Seq<u8>,
}

impl DeepView for ActionOption {
    type V = ActionOptionView;

    open spec fn deep_view(&self) -> ActionOptionView {
        ActionOptionView {
            label: self.label@,
            command_id: self.command_id,
            payload: self.payload@,
        }
    }
}

/// The contents of an [`ActionDialog`].
#[verifier::ext_equal]
pub struct ActionDialogView {
    pub title: Seq<char>,
    pub endpoint_index: usize,
    pub options: Seq<ActionOptionView>,
    pub selected: usize,
}

impl DeepView for ActionDialog {
    type V = ActionDialogView;

    open spec fn deep_view(&self) -> ActionDialogView {
        ActionDialogView {
            title: self.title@,
            endpoint_index: self.endpoint_index,
            options: self.options.deep_view(),
            selected: self.selected,
        }
    }
}

/// The contents of a [`Screen`].
#[verifier::ext_equal]
pub enum ScreenView<C> {
    Overview,
    Manage(ManageStateView<C>),
}

impl<C> DeepView for Screen<C> {
    type V = ScreenView<C>;

    open spec fn deep_view(&self) -> ScreenView<C> {
        match self {
            Screen::Overview => ScreenView::Overview,
            Screen::Manage(x) => ScreenView::Manage(x.deep_view()),
        }
    }
}

/// The contents of a [`Modal`].
#[verifier::ext_equal]
pub enum ModalView<C> {
    Input(InputDialogView),
    Message(Seq<char>),
    Confirm(ConfirmDialogView),
    Action(ActionDialogView),
    CommissionDeviceName { pending: PendingCommissionView<C>, value: Seq<char> },
    CommissionFabricName { pending: PendingCommissionView<C>, value: Seq<char> },
    CommissionEndpointName { pending: PendingCommissionView<C>, index: usize, value: Seq<char> },
}

impl<C> DeepView for Modal<C> {
    type V = ModalView<C>;

    open spec fn deep_view(&self) -> ModalView<C> {
        match self {
            Modal::Input(x) => ModalView::Input(x.deep_view()),
            Modal::Message(x) => ModalView::Message(x@),
            Modal::Confirm(x) => ModalView::Confirm(x.deep_view()),
            Modal::Action(x) => ModalView::Action(x.deep_view()),
            Modal::CommissionDeviceName { pending, value } => ModalView::CommissionDeviceName {
                pending: pending.deep_view(),
                value: value@,
            },
            Modal::CommissionFabricName { pending, value } => ModalView::CommissionFabricName {
                pending: pending.deep_view(),
                value: value@,
            },
            Modal::CommissionEndpointName { pending, index, value } => ModalView::CommissionEndpointName {
                pending: pending.deep_view(),
                index: *index,
                value: value@,
            },
        }
    }
}

/// The contents of a [`PendingTask`].
#[verifier::ext_equal]
pub enum PendingTaskView<C> {
    RefreshScan,
    StartCommission { device_index: usize, setup_code: Seq<char> },
    OpenSelectedCommissioned,
    EndpointOn { endpoint_index: usize },
    EndpointOff { endpoint_index: usize },
    ChangeFabricLabel { label: Seq<char> },
    InvokeAction { endpoint_index: usize, command_id: u32, payload: Seq<u8>, label: Seq<char> },
    Decommission,
    FinishCommission(PendingCommissionView<C>),
    RefreshEndpoints,
}

impl<C> DeepView for PendingTask<C> {
    type V = PendingTaskView<C>;

    open spec fn deep_view(&self) -> PendingTaskView<C> {
        match self {
            PendingTask::RefreshScan => PendingTaskView::RefreshScan,
            PendingTask::StartCommission { device_index, setup_code } => PendingTaskView::StartCommission {
                device_index: *device_index,
                setup_code: setup_code@,
            },
            PendingTask::OpenSelectedCommissioned => PendingTaskView::OpenSelectedCommissioned,
            PendingTask::EndpointOn { endpoint_index } => PendingTaskView::EndpointOn {
                endpoint_index: *endpoint_index,
            },
            PendingTask::EndpointOff { endpoint_index } => PendingTaskView::EndpointOff {
                endpoint_index: *endpoint_index,
            },
            PendingTask::ChangeFabricLabel { label } => PendingTaskView::ChangeFabricLabel {
                label: label@,
            },
            PendingTask::InvokeAction { endpoint_index, command_id, payload, label } => PendingTaskView::InvokeAction {
                endpoint_index: *endpoint_index,
                command_id: *command_id,
                payload: payload@,
                label: label@,
            },
            PendingTask::Decommission => PendingTaskView::Decommission,
            PendingTask::FinishCommission(x) => PendingTaskView::FinishCommission(x.deep_view()),
            PendingTask::RefreshEndpoints => PendingTaskView::RefreshEndpoints,
        }
    }
}

} // verus!
