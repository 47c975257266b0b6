//! What the client asks of a Matter device and what it makes of the answers.

use crate::endpoints::{EndpointLoad, EndpointLoadView, TlvValue};
use crate::number;
use crate::number::decimal;
use crate::state;
use crate::state::{AppState, AppStateView};
use crate::trusted;
use crate::trusted::millis_since_epoch;
use crate::types::{
    ActionDialog, ActionDialogView, ActionOption, ActionOptionView, ActionView,
    CommissionableDevice, CommissionableDeviceView, EndpointSummary, EndpointSummaryView, PendingCommission,
    PendingCommissionView,
};
use crate::utils;
use crate::utils::first_socket_addr;
use matc::clusters::codec::actions_cluster::{
    encode_disable_action, encode_enable_action, encode_instant_action, encode_pause_action,
    encode_resume_action, encode_start_action, encode_stop_action,
};
use matc::clusters::codec::operational_credential_cluster::{
    encode_remove_fabric, encode_update_fabric_label,
};
use vstd::prelude::*;

verus! {

/// Why a device cannot be asked for something.
#[derive(Clone, Copy, Debug, PartialEq, Eq, Structural)]
pub enum MatterError {
    ActionWithoutId,
    FabricIndexNotAnInteger,
    EncodingFailed,
}

impl MatterError {
    /// The reason in words.
    pub open spec fn text(self) -> Seq<char> {
        match self {
            MatterError::ActionWithoutId => "action missing action_id"@,
            MatterError::FabricIndexNotAnInteger => "Expected UInt8"@,
            MatterError::EncodingFailed => "command cannot be encoded"@,
        }
    }

    /// The reason in words.
    pub fn message(&self) -> (r: String)
        ensures
            r@ == self.text(),
    {
        match self {
            MatterError::ActionWithoutId => "action missing action_id".to_string(),
            MatterError::FabricIndexNotAnInteger => "Expected UInt8".to_string(),
            MatterError::EncodingFailed => "command cannot be encoded".to_string(),
        }
    }
}

// Clusters, attributes and commands

pub const CLUSTER_ON_OFF: u32 = 0x06;

pub const COMMAND_OFF: u32 = 0;

pub const COMMAND_ON: u32 = 1;

pub const COMMAND_TOGGLE: u32 = 2;

pub const CLUSTER_DESCRIPTOR: u32 = 0x1D;

pub const ATTRIBUTE_DEVICE_TYPE_LIST: u32 = 0;

pub const ATTRIBUTE_SERVER_LIST: u32 = 1;

pub const ATTRIBUTE_PARTS_LIST: u32 = 3;

pub const CLUSTER_ACTIONS: u32 = 0x25;

pub const ATTRIBUTE_ACTION_LIST: u32 = 0;

pub const COMMAND_INSTANT_ACTION: u32 = 0;

pub const COMMAND_START_ACTION: u32 = 2;

pub const COMMAND_STOP_ACTION: u32 = 4;

pub const COMMAND_PAUSE_ACTION: u32 = 5;

pub const COMMAND_RESUME_ACTION: u32 = 7;

pub const COMMAND_ENABLE_ACTION: u32 = 8;

pub const COMMAND_DISABLE_ACTION: u32 = 0x0A;

pub const CLUSTER_BASIC_INFORMATION: u32 = 0x28;

pub const CLUSTER_BRIDGED_DEVICE_BASIC_INFORMATION: u32 = 0x39;

pub const ATTRIBUTE_NODE_LABEL: u32 = 5;

pub const CLUSTER_OPERATIONAL_CREDENTIALS: u32 = 0x3E;

pub const ATTRIBUTE_CURRENT_FABRIC_INDEX: u32 = 5;

pub const COMMAND_UPDATE_FABRIC_LABEL: u32 = 9;

pub const COMMAND_REMOVE_FABRIC: u32 = 0x0A;

/// An attribute of a cluster of an endpoint.
#[derive(Clone, Copy, Debug, PartialEq, Eq, Structural)]
pub struct AttributePath {
    pub endpoint: u16,
    pub cluster: u32,
    pub attribute: u32,
}

/// A command to a cluster of an endpoint.
#[derive(Debug)]
pub struct Invocation {
    pub endpoint: u16,
    pub cluster: u32,
    pub command: u32,
    pub payload: Vec<u8>,
}

/// The contents of an [`Invocation`].
#[verifier::ext_equal]
pub struct InvocationView {
    pub endpoint: u16,
    pub cluster: u32,
    pub command: u32,
    pub payload: Seq<u8>,
}

impl DeepView for Invocation {
    type V = InvocationView;

    open spec fn deep_view(&self) -> InvocationView {
        InvocationView {
            endpoint: self.endpoint,
            cluster: self.cluster,
            command: self.command,
            payload: self.payload@,
        }
    }
}

// Actions

/// The id of an invocation that is made so many milliseconds after the epoch.
pub open spec fn invoke_id(millis: Option<u128>) -> nat {
    match millis {
        Some(millis) => millis as nat % 0x1_0000_0000,
        None => 1,
    }
}

/// The id of an invocation that is made so many milliseconds after the epoch.
pub fn invoke_id_at(millis: Option<u128>) -> (r: u32)
    ensures
        r == invoke_id(millis),
{
    match millis {
        Some(millis) => (millis % 0x1_0000_0000) as u32,
        None => 1,
    }
}

/// The id of an invocation that is made now.
pub fn next_invoke_id() -> (r: u32)
    ensures
        exists|millis: Option<u128>| r == #[trigger] invoke_id(millis),
{
    let millis = millis_since_epoch();
    invoke_id_at(millis)
}

/// The seven things that can be done with an action.
pub open spec fn action_verbs() -> Seq<(Seq<char>, u32)> {
    seq![
        ("Instant"@, COMMAND_INSTANT_ACTION),
        ("Start"@, COMMAND_START_ACTION),
        ("Stop"@, COMMAND_STOP_ACTION),
        ("Pause"@, COMMAND_PAUSE_ACTION),
        ("Resume"@, COMMAND_RESUME_ACTION),
        ("Enable"@, COMMAND_ENABLE_ACTION),
        ("Disable"@, COMMAND_DISABLE_ACTION),
    ]
}

/// The name under which an action is shown.
pub open spec fn action_name(action: ActionView) -> Seq<char> {
    match action.name {
        Some(name) => name,
        None => "unnamed"@,
    }
}

/// The options for one action.
pub open spec fn options_for(
    action_id: u16,
    name: Seq<char>,
    invoke: u32,
) -> Seq<ActionOptionView> {
    action_verbs().map_values(
        |verb: (Seq<char>, u32)|
            ActionOptionView {
                label: verb.0 + ": "@ + name,
                command_id: verb.1,
                payload: trusted::action_payload(action_id, Some(invoke)),
            },
    )
}

/// The options for actions, each with the id of its invocation; none where an action has no id.
pub open spec fn action_options(actions: Seq<ActionView>, invokes: Seq<u32>) -> Result<
    Seq<ActionOptionView>,
    MatterError,
>
    decreases actions.len(),
{
    if actions.len() == 0 {
        Ok(seq![])
    } else {
        match action_options(actions.drop_last(), invokes) {
            Err(e) => Err(e),
            Ok(options) => match actions.last().action_id {
                None => Err(MatterError::ActionWithoutId),
                Some(id) => Ok(
                    options + options_for(
                        id,
                        action_name(actions.last()),
                        invokes[actions.len() - 1],
                    ),
                ),
            },
        }
    }
}

/// The dialog that offers what can be done with the actions of an endpoint.
pub open spec fn action_dialog(
    endpoint: EndpointSummaryView,
    endpoint_index: usize,
    invokes: Seq<u32>,
) -> Result<ActionDialogView, MatterError> {
    match action_options(endpoint.actions, invokes) {
        Err(e) => Err(e),
        Ok(options) => Ok(
            ActionDialogView {
                title: "Endpoint "@ + number::decimal_text(endpoint.id as nat) + " Actions"@,
                endpoint_index,
                options,
                selected: 0,
            },
        ),
    }
}

fn push_option(
    options: &mut Vec<ActionOption>,
    verb: &str,
    name: &str,
    command_id: u32,
    payload: anyhow::Result<Vec<u8>>,
) -> (r: Result<(), MatterError>)
    ensures
        payload matches Ok(bytes) ==> r is Ok && final(options).deep_view() == old(
            options,
        ).deep_view().push(
            ActionOptionView { label: verb@ + ": "@ + name@, command_id, payload: bytes@ },
        ),
        payload is Err ==> r == Err::<(), MatterError>(MatterError::EncodingFailed)
            && final(options).deep_view() == old(options).deep_view(),
{
    match payload {
        Ok(payload) => {
            let mut label: String = verb.to_string();
            label.append(": ");
            label.append(name);
            options.push(ActionOption { label, command_id, payload });
            assert(options.deep_view() =~= old(options).deep_view().push(
                ActionOptionView { label: verb@ + ": "@ + name@, command_id, payload: payload@ },
            ));
            Ok(())
        },
        Err(_) => Err(MatterError::EncodingFailed),
    }
}

fn push_options(
    options: &mut Vec<ActionOption>,
    action_id: u16,
    name: &str,
    invoke: u32,
) -> (r: Result<(), MatterError>)
    ensures
        r is Ok,
        final(options).deep_view() == old(options).deep_view() + options_for(
            action_id,
            name@,
            invoke,
        ),
{
    let id = Some(invoke);
    push_option(options, "Instant", name, COMMAND_INSTANT_ACTION, encode_instant_action(action_id, id))?;
    push_option(options, "Start", name, COMMAND_START_ACTION, encode_start_action(action_id, id))?;
    push_option(options, "Stop", name, COMMAND_STOP_ACTION, encode_stop_action(action_id, id))?;
    push_option(options, "Pause", name, COMMAND_PAUSE_ACTION, encode_pause_action(action_id, id))?;
    push_option(options, "Resume", name, COMMAND_RESUME_ACTION, encode_resume_action(action_id, id))?;
    push_option(options, "Enable", name, COMMAND_ENABLE_ACTION, encode_enable_action(action_id, id))?;
    push_option(options, "Disable", name, COMMAND_DISABLE_ACTION, encode_disable_action(action_id, id))?;
    assert(options.deep_view() =~= old(options).deep_view() + options_for(action_id, name@, invoke));
    Ok(())
}

/// Builds the dialog for the actions of an endpoint from the ids of the invocations.
pub fn build_action_dialog_with(
    endpoint: &EndpointSummary,
    endpoint_index: usize,
    invokes: &Vec<u32>,
) -> (r: Result<ActionDialog, MatterError>)
    requires
        invokes@.len() >= endpoint.actions@.len(),
    ensures
        match r {
            Ok(dialog) => action_dialog(endpoint.deep_view(), endpoint_index, invokes@) == Ok::<
                ActionDialogView,
                MatterError,
            >(dialog.deep_view()),
            Err(e) => action_dialog(endpoint.deep_view(), endpoint_index, invokes@) == Err::<
                ActionDialogView,
                MatterError,
            >(e),
        },
{
    let ghost actions = endpoint.actions.deep_view();
    let mut options: Vec<ActionOption> = Vec::new();
    let mut i: usize = 0;
    assert(options.deep_view() =~= seq![]);
    while i < endpoint.actions.len()
        invariant
            i <= endpoint.actions.len(),
            invokes@.len() >= endpoint.actions@.len(),
            actions == endpoint.actions.deep_view(),
            action_options(actions.take(i as int), invokes@) == Ok::<
                Seq<ActionOptionView>,
                MatterError,
            >(options.deep_view()),
        decreases endpoint.actions.len() - i,
    {
        let action = &endpoint.actions[i];
        assert(actions[i as int] == action.deep_view());
        assert(actions.take(i + 1).drop_last() =~= actions.take(i as int));
        match action.action_id {
            Some(id) => {
                let name = match &action.name {
                    Some(name) => name.clone(),
                    None => "unnamed".to_string(),
                };
                push_options(&mut options, id, name.as_str(), invokes[i])?;
            },
            None => {
                proof {
                    lemma_options_fail(actions, invokes@, i + 1);
                }
                return Err(MatterError::ActionWithoutId);
            },
        }
        i += 1;
    }
    assert(actions.take(i as int) =~= actions);
    let mut title: String = "Endpoint ".to_string();
    title.append(decimal(endpoint.id as u64).as_str());
    title.append(" Actions");
    Ok(ActionDialog { title, endpoint_index, options, selected: 0 })
}

proof fn lemma_options_fail(actions: Seq<ActionView>, invokes: Seq<u32>, n: int)
    requires
        0 <= n <= actions.len(),
        action_options(actions.take(n), invokes) is Err,
    ensures
        action_options(actions, invokes) == action_options(actions.take(n), invokes),
    decreases actions.len() - n,
{
    if n < actions.len() {
        assert(actions.take(n + 1).drop_last() =~= actions.take(n));
        lemma_options_fail(actions, invokes, n + 1);
    } else {
        assert(actions.take(n) =~= actions);
    }
}

/// Builds the dialog for the actions of an endpoint. Every action gets the id of an invocation that
/// is made now.
pub fn build_action_dialog(endpoint: &EndpointSummary, endpoint_index: usize) -> (r: Result<
    ActionDialog,
    MatterError,
>)
    ensures
        exists|invokes: Seq<u32>|
            invokes.len() == endpoint.actions@.len() && match r {
                Ok(dialog) => #[trigger] action_dialog(
                    endpoint.deep_view(),
                    endpoint_index,
                    invokes,
                ) == Ok::<ActionDialogView, MatterError>(dialog.deep_view()),
                Err(e) => action_dialog(endpoint.deep_view(), endpoint_index, invokes) == Err::<
                    ActionDialogView,
                    MatterError,
                >(e),
            },
{
    let invokes = invoke_ids(endpoint.actions.len());
    build_action_dialog_with(endpoint, endpoint_index, &invokes)
}

/// So many ids of invocations.
pub(crate) fn invoke_ids(n: usize) -> (r: Vec<u32>)
    ensures
        r@.len() == n,
{
    let mut r: Vec<u32> = Vec::new();
    while r.len() < n
        invariant
            r@.len() <= n,
        decreases n - r.len(),
    {
        r.push(next_invoke_id());
    }
    r
}

// The fabric of a device

/// The command that gives the fabric on a device a label.
pub open spec fn label_invocation(label: Seq<char>) -> InvocationView {
    InvocationView {
        endpoint: 0,
        cluster: CLUSTER_OPERATIONAL_CREDENTIALS,
        command: COMMAND_UPDATE_FABRIC_LABEL,
        payload: trusted::label_payload(label),
    }
}

/// The command that gives the fabric on a device a label.
pub fn update_fabric_label(label: &str) -> (r: Result<Invocation, MatterError>)
    ensures
        r is Ok,
        r->Ok_0.deep_view() == label_invocation(label@),
{
    match encode_update_fabric_label(label.to_string()) {
        Ok(payload) => Ok(
            Invocation {
                endpoint: 0,
                cluster: CLUSTER_OPERATIONAL_CREDENTIALS,
                command: COMMAND_UPDATE_FABRIC_LABEL,
                payload,
            },
        ),
        Err(_) => Err(MatterError::EncodingFailed),
    }
}

/// Where a device says which of its fabrics it is being asked on.
pub open spec fn fabric_index_path() -> AttributePath {
    AttributePath {
        endpoint: 0,
        cluster: CLUSTER_OPERATIONAL_CREDENTIALS,
        attribute: ATTRIBUTE_CURRENT_FABRIC_INDEX,
    }
}

/// Where a device says which of its fabrics it is being asked on.
pub fn current_fabric_index() -> (r: AttributePath)
    ensures
        r == fabric_index_path(),
{
    AttributePath {
        endpoint: 0,
        cluster: CLUSTER_OPERATIONAL_CREDENTIALS,
        attribute: ATTRIBUTE_CURRENT_FABRIC_INDEX,
    }
}

/// The command that removes a fabric from a device.
pub open spec fn remove_invocation(fabric_index: u8) -> InvocationView {
    InvocationView {
        endpoint: 0,
        cluster: CLUSTER_OPERATIONAL_CREDENTIALS,
        command: COMMAND_REMOVE_FABRIC,
        payload: seq![0x24u8, 0u8, fabric_index],
    }
}

/// The command that removes from a device the fabric that it is being asked on.
pub open spec fn decommission_invocation(fabric_index: TlvValue) -> Result<
    InvocationView,
    MatterError,
> {
    match fabric_index {
        TlvValue::Int(n) => Ok(remove_invocation((n % 0x100) as u8)),
        _ => Err(MatterError::FabricIndexNotAnInteger),
    }
}

/// The command that removes from a device the fabric that it is being asked on.
pub fn decommission_device(fabric_index: &TlvValue) -> (r: Result<Invocation, MatterError>)
    ensures
        match r {
            Ok(invocation) => decommission_invocation(*fabric_index) == Ok::<
                InvocationView,
                MatterError,
            >(invocation.deep_view()),
            Err(e) => decommission_invocation(*fabric_index) == Err::<InvocationView, MatterError>(
                e,
            ),
        },
{
    match fabric_index {
        TlvValue::Int(n) => {
            let index: u8 = (*n % 0x100) as u8;
            match encode_remove_fabric(index) {
                Ok(payload) => Ok(
                    Invocation {
                        endpoint: 0,
                        cluster: CLUSTER_OPERATIONAL_CREDENTIALS,
                        command: COMMAND_REMOVE_FABRIC,
                        payload,
                    },
                ),
                Err(_) => Err(MatterError::EncodingFailed),
            }
        },
        _ => Err(MatterError::FabricIndexNotAnInteger),
    }
}

// Credentials

/// What is still to be done before the credentials of a controller are there.
#[derive(Clone, Copy, Debug, PartialEq, Eq, Structural)]
pub enum CredentialStep {
    Bootstrap,
    CreateUser,
    Ready,
}

/// What is to be done next, by what is there: the directory, the certificate of the controller and
/// its key.
pub fn ensure_credentials(has_directory: bool, has_certificate: bool, has_key: bool) -> (r:
    CredentialStep)
    ensures
        r == if !has_directory {
            CredentialStep::Bootstrap
        } else if !has_certificate || !has_key {
            CredentialStep::CreateUser
        } else {
            CredentialStep::Ready
        },
{
    if !has_directory {
        CredentialStep::Bootstrap
    } else if !has_certificate || !has_key {
        CredentialStep::CreateUser
    } else {
        CredentialStep::Ready
    }
}

/// The directory of the credentials.
pub open spec fn certificate_directory() -> Seq<char> {
    "./pem"@
}

/// The directory of the credentials.
pub fn cert_path() -> (r: String)
    ensures
        r@ == certificate_directory(),
{
    "./pem".to_string()
}

/// A file of a controller among the credentials.
pub open spec fn credential_path(controller_id: u64, ending: Seq<char>) -> Seq<char> {
    certificate_directory() + "/"@ + number::decimal_text(controller_id as nat) + ending
}

fn credential_file(controller_id: u64, ending: &str) -> (r: String)
    ensures
        r@ == credential_path(controller_id, ending@),
{
    let mut r = cert_path();
    r.append("/");
    r.append(decimal(controller_id).as_str());
    r.append(ending);
    r
}

/// The files with the certificate and the key of a controller.
pub fn credential_files(controller_id: u64) -> (r: (String, String))
    ensures
        r.0@ == credential_path(controller_id, "-cert.pem"@),
        r.1@ == credential_path(controller_id, "-private.pem"@),
{
    (credential_file(controller_id, "-cert.pem"), credential_file(controller_id, "-private.pem"))
}

// Commissioning

/// What a device is commissioned with.
#[derive(Debug)]
pub struct CommissionOrder {
    pub pin: u32,
    pub node_id: u64,
    pub controller_id: u64,
    pub address: String,
    pub display_name: String,
    pub fabric_label: String,
}

/// The contents of a [`CommissionOrder`].
#[verifier::ext_equal]
pub struct CommissionOrderView {
    pub pin: u32,
    pub node_id: u64,
    pub controller_id: u64,
    pub address: Seq<char>,
    pub display_name: Seq<char>,
    pub fabric_label: Seq<char>,
}

impl DeepView for CommissionOrder {
    type V = CommissionOrderView;

    open spec fn deep_view(&self) -> CommissionOrderView {
        CommissionOrderView {
            pin: self.pin,
            node_id: self.node_id,
            controller_id: self.controller_id,
            address: self.address@,
            display_name: self.display_name@,
            fabric_label: self.fabric_label@,
        }
    }
}

/// What a device that was found is commissioned with.
pub open spec fn commission_order(
    state: AppStateView,
    device: CommissionableDeviceView,
    pin: u32,
) -> CommissionOrderView {
    CommissionOrderView {
        pin,
        node_id: state::next_id(state.devices) as u64,
        controller_id: state.controller_id,
        address: utils::socket_text(utils::preferred(device.addresses), device.port),
        display_name: device.display_name,
        fabric_label: state.fabric_label,
    }
}

/// What a device that was found is commissioned with.
pub fn start_commission(state: &AppState, device: &CommissionableDevice, pin: u32) -> (r:
    CommissionOrder)
    requires
        state::has_free_id(state.deep_view().devices),
    ensures
        r.deep_view() == commission_order(state.deep_view(), device.deep_view(), pin),
{
    CommissionOrder {
        pin,
        node_id: state.next_node_id(),
        controller_id: state.controller_id,
        address: first_socket_addr(&device.addresses, device.port),
        display_name: device.display_name.clone(),
        fabric_label: state.fabric_label.clone(),
    }
}

/// A device that has joined the fabric, with what has been read of it.
pub open spec fn pending_commission<C>(
    order: CommissionOrderView,
    connection: C,
    load: EndpointLoadView,
) -> PendingCommissionView<C> {
    PendingCommissionView {
        connection,
        node_id: order.node_id,
        address: order.address,
        device_label: match load.own_label {
            Some(label) => label,
            None => order.display_name,
        },
        fabric_label: order.fabric_label,
        endpoints: load.endpoints,
    }
}

/// A device that has joined the fabric, with what has been read of it.
pub fn commissioned<C>(order: CommissionOrder, connection: C, load: EndpointLoad) -> (r:
    PendingCommission<C>)
    ensures
        r.deep_view() == pending_commission(order.deep_view(), connection, load.deep_view()),
{
    PendingCommission {
        connection,
        node_id: order.node_id,
        address: order.address,
        device_label: match load.own_label {
            Some(label) => label,
            None => order.display_name,
        },
        fabric_label: order.fabric_label,
        endpoints: load.endpoints,
    }
}

} // verus!
