//! What comes of a row of keys: which device is commissioned, opened or asked, and for what.

use crate::app_model;
use crate::app_model::{AppError, AppView, KeyCode, SentView, StepView, Turn};
use crate::endpoints::{EndpointLoadView, TlvValue};
use crate::matter;
use crate::matter::{CommissionOrderView, MatterError};
use crate::number;
use crate::setup_code;
use crate::setup_code_laws;
use crate::state;
use crate::state::{EndpointAliasView, KnownDeviceView};
use crate::text;
use crate::types::{
    ActionDialogView, ActionOptionView, ActionView, CommissionableDeviceView,
    CommissionedDeviceView, EndpointSummaryView, FocusPane, InputDialogView,
    ModalView, PendingCommissionView, PendingTaskView, ScreenView, StatusKind,
};
use crate::utils;
use vstd::prelude::*;

verus! {

// Rows of keys

/// The client after a key.
pub open spec fn press<C>(a: AppView<C>, key: KeyCode) -> AppView<C> {
    app_model::key_result(a, true, key, seq![]).0
}

/// The client after the characters of a text have been typed.
pub open spec fn type_in<C>(a: AppView<C>, s: Seq<char>) -> AppView<C>
    decreases s.len(),
{
    if s.len() == 0 {
        a
    } else {
        press(type_in(a, s.drop_last()), KeyCode::Char(s.last()))
    }
}

/// The client after a key has been pressed so many times.
pub open spec fn press_often<C>(a: AppView<C>, key: KeyCode, n: nat) -> AppView<C>
    decreases n,
{
    if n == 0 {
        a
    } else {
        press(press_often(a, key, (n - 1) as nat), key)
    }
}

/// The client with an input dialog that holds another text.
spec fn holding<C>(a: AppView<C>, dialog: InputDialogView, value: Seq<char>) -> AppView<C> {
    AppView { modal: Some(ModalView::Input(InputDialogView { value, ..dialog })), ..a }
}

proof fn lemma_typed<C>(a: AppView<C>, dialog: InputDialogView, s: Seq<char>)
    requires
        a.modal == Some(ModalView::<C>::Input(dialog)),
    ensures
        type_in(a, s) == holding(a, dialog, dialog.value + s),
    decreases s.len(),
{
    if s.len() == 0 {
        assert(dialog.value + s =~= dialog.value);
        assert(holding(a, dialog, dialog.value + s) =~= a);
    } else {
        lemma_typed(a, dialog, s.drop_last());
        assert((dialog.value + s.drop_last()).push(s.last()) =~= dialog.value + s);
        assert(type_in(a, s) =~= holding(a, dialog, dialog.value + s));
    }
}

// Commissioning

/// Whether the client shows the overview, with the focus on the devices that wait to be
/// commissioned, and one of them is selected.
pub open spec fn selects_waiting<C>(a: AppView<C>) -> bool {
    &&& a.modal is None
    &&& a.screen is Overview
    &&& a.focus == FocusPane::Commissionable
    &&& a.selected_commissionable < a.commissionable.len()
}

/// The device that is commissioned is the one that was selected when `c` was pressed, with the
/// passcode of the text that was typed then, under a node id that no device has, and on behalf of
/// this controller. A text that is no setup code is an error.
pub proof fn selected_device_is_commissioned<C>(a: AppView<C>, s: Seq<char>)
    requires
        selects_waiting(a),
        state::has_free_id(a.state.devices),
    ensures
        ({
            let device = a.commissionable[a.selected_commissionable as int];
            let b = press(type_in(press(a, KeyCode::Char('c')), s), KeyCode::Enter);
            let (c, r) = app_model::task_result(b);
            match setup_code::setup_passcode(s) {
                Err(e) => r == Err::<StepView<C>, AppError>(AppError::SetupCode(e)),
                Ok(passcode) => r matches Ok(StepView::Commission(order)) && {
                    &&& order.display_name == device.display_name
                    &&& order.address == utils::socket_text(
                        utils::preferred(device.addresses),
                        device.port,
                    )
                    &&& order.pin == passcode
                    &&& order.controller_id == a.state.controller_id
                    &&& order.fabric_label == a.state.fabric_label
                    &&& forall|i: int|
                        0 <= i < a.state.devices.len() ==> (#[trigger] a.state.devices[i]).node_id
                            < order.node_id
                    &&& c.status == "Commissioning "@ + device.display_name + "..."@
                    &&& c.status_kind == StatusKind::Progress
                    &&& c.state == a.state
                },
            }
        }),
{
    let b = press(a, KeyCode::Char('c'));
    let dialog = b.modal.unwrap()->Input_0;
    lemma_typed(b, dialog, s);
    assert(dialog.value + s =~= s);
    setup_code::outer_space_does_not_matter(s);
    setup_code_laws::passcode_fits(s);
    state::next_id_is_fresh(a.state.devices);
}

/// A device that has joined the fabric is the one that was ordered, at the address and under the
/// node id of the order. It is offered under the label that it has, or under its name where it has
/// none, with the endpoints that were read.
pub proof fn joined_device_is_the_ordered_one<C>(
    order: CommissionOrderView,
    connection: C,
    load: EndpointLoadView,
)
    ensures
        ({
            let pending = matter::pending_commission(order, connection, load);
            &&& pending.node_id == order.node_id
            &&& pending.address == order.address
            &&& pending.connection == connection
            &&& pending.fabric_label == order.fabric_label
            &&& pending.endpoints == load.endpoints
            &&& load.own_label is None ==> pending.device_label == order.display_name
            &&& load.own_label is Some ==> Some(pending.device_label) == load.own_label
        }),
{
}

/// Whether a label is what was typed without whitespace around it, or what was there before where
/// nothing but whitespace was typed.
pub open spec fn is_chosen(label: Seq<char>, s: Seq<char>, before: Seq<char>) -> bool {
    if text::trimmed(s).len() > 0 {
        label == text::trimmed(s)
    } else {
        label == before
    }
}

/// Whether two devices that are being commissioned differ in nothing but their labels.
pub open spec fn same_but_for_labels<C>(
    p: PendingCommissionView<C>,
    q: PendingCommissionView<C>,
) -> bool {
    &&& p.node_id == q.node_id
    &&& p.address == q.address
    &&& p.connection == q.connection
}

/// The names that are typed while a device is commissioned are those that it gets: the first is that
/// of the device, the second that of the fabric, and each of the others that of the endpoint at
/// hand. None of them changes the others.
pub proof fn typed_names_are_kept<C>(a: AppView<C>)
    requires
        a.wf(),
    ensures
        a.modal matches Some(ModalView::CommissionDeviceName { pending, value }) ==> {
            press(a, KeyCode::Enter).modal matches Some(
                ModalView::CommissionFabricName { pending: next, value: offered },
            ) && {
                &&& is_chosen(next.device_label, value, pending.device_label)
                &&& same_but_for_labels(next, pending)
                &&& next.fabric_label == pending.fabric_label
                &&& next.endpoints == pending.endpoints
                &&& offered == a.state.fabric_label
            }
        },
        a.modal matches Some(ModalView::CommissionFabricName { pending, value }) ==> {
            let b = press(a, KeyCode::Enter);
            match b.modal {
                Some(ModalView::CommissionEndpointName { pending: next, index, value: offered }) => {
                    &&& pending.endpoints.len() > 0
                    &&& index == 0
                    &&& offered == app_model::default_label(pending.endpoints[0])
                    &&& fabric_named(next, pending, value)
                },
                _ => pending.endpoints.len() == 0 && (b.pending_task matches Some(
                    PendingTaskView::FinishCommission(next),
                ) && fabric_named(next, pending, value)),
            }
        },
        a.modal matches Some(ModalView::CommissionEndpointName { pending, index, value })
            ==> (pending.endpoints.len() <= usize::MAX ==> {
            let b = press(a, KeyCode::Enter);
            match b.modal {
                Some(
                    ModalView::CommissionEndpointName { pending: next, index: behind, value: offered },
                ) => {
                    &&& behind == index + 1
                    &&& behind < pending.endpoints.len()
                    &&& offered == app_model::default_label(pending.endpoints[behind as int])
                    &&& endpoint_named(next, pending, index as int, value)
                },
                _ => index + 1 == pending.endpoints.len() && (b.pending_task matches Some(
                    PendingTaskView::FinishCommission(next),
                ) && endpoint_named(next, pending, index as int, value)),
            }
        }),
{
}

/// Whether a device has got a fabric label and is otherwise as it was.
pub open spec fn fabric_named<C>(
    next: PendingCommissionView<C>,
    before: PendingCommissionView<C>,
    s: Seq<char>,
) -> bool {
    &&& is_chosen(next.fabric_label, s, before.fabric_label)
    &&& same_but_for_labels(next, before)
    &&& next.device_label == before.device_label
    &&& next.endpoints == before.endpoints
}

/// Whether an endpoint of a device has got a label, and the device is otherwise as it was.
pub open spec fn endpoint_named<C>(
    next: PendingCommissionView<C>,
    before: PendingCommissionView<C>,
    k: int,
    s: Seq<char>,
) -> bool {
    &&& same_but_for_labels(next, before)
    &&& next.device_label == before.device_label
    &&& next.fabric_label == before.fabric_label
    &&& next.endpoints.len() == before.endpoints.len()
    &&& forall|i: int|
        0 <= i < before.endpoints.len() && i != k ==> #[trigger] next.endpoints[i]
            == before.endpoints[i]
    &&& next.endpoints[k].id == before.endpoints[k].id
    &&& if text::trimmed(s).len() > 0 {
        next.endpoints[k].label == Some(text::trimmed(s))
    } else {
        next.endpoints[k] == before.endpoints[k]
    }
}

// A device that is managed

/// Whether the client shows the screen of a device and one of its endpoints is selected.
pub open spec fn selects_endpoint<C>(a: AppView<C>) -> bool {
    &&& a.modal is None
    &&& a.screen matches ScreenView::Manage(m) && m.selected_endpoint < m.endpoints.len()
}

/// The endpoint that is selected.
pub open spec fn selected<C>(a: AppView<C>) -> EndpointSummaryView {
    let m = a.screen->Manage_0;
    m.endpoints[m.selected_endpoint as int]
}

/// Whether a step sends a command without fields to the On/Off cluster of an endpoint.
pub open spec fn switches<C>(
    r: Result<StepView<C>, AppError>,
    endpoint: u16,
    command: int,
) -> bool {
    r matches Ok(StepView::Invoke { invocation, sent }) && {
        &&& invocation.endpoint == endpoint
        &&& invocation.cluster == 0x06
        &&& invocation.command == command
        &&& invocation.payload.len() == 0
    }
}

/// The keys `o` and `p` switch the endpoint that is selected on and off, if it can be switched, and
/// do nothing otherwise. The client then says which endpoint it has switched.
pub proof fn selected_endpoint_is_switched<C>(a: AppView<C>)
    requires
        selects_endpoint(a),
    ensures
        ({
            let e = selected(a);
            let on = app_model::task_result(press(a, KeyCode::Char('o')));
            let off = app_model::task_result(press(a, KeyCode::Char('p')));
            let id = number::decimal_text(e.id as nat);
            if e.has_on_off {
                &&& switches(on.1, e.id, 1)
                &&& switches(off.1, e.id, 0)
                &&& app_model::sent(on.0, on.1->Ok_0->sent).0.status == "Sent On to endpoint "@ + id
                    + "."@
                &&& app_model::sent(off.0, off.1->Ok_0->sent).0.status == "Sent Off to endpoint "@
                    + id + "."@
            } else {
                &&& press(a, KeyCode::Char('o')) == a
                &&& press(a, KeyCode::Char('p')) == a
            }
        }),
{
}

/// The ids of the commands on an action, in the order in which they are offered.
pub open spec fn action_command(j: int) -> int {
    seq![0int, 2, 4, 5, 7, 8, 10][j]
}

/// What the commands on an action are called, in the order in which they are offered.
pub open spec fn action_verb(j: int) -> Seq<char> {
    seq![
        "Instant"@,
        "Start"@,
        "Stop"@,
        "Pause"@,
        "Resume"@,
        "Enable"@,
        "Disable"@,
    ][j]
}

/// Whether an option sends a command on an action: `j` says which, and the payload holds the id of
/// the action and that of the invocation, the least significant bytes first.
pub open spec fn is_option(
    option: ActionOptionView,
    action: ActionView,
    j: int,
    invoke: u32,
) -> bool {
    &&& option.command_id == action_command(j)
    &&& option.label == action_verb(j) + ": "@ + match action.name {
        Some(name) => name,
        None => "unnamed"@,
    }
    &&& option.payload.len() == 10
    &&& action.action_id matches Some(id) && id == option.payload[2] + 256 * option.payload[3]
    &&& invoke == option.payload[6] + 256 * option.payload[7] + 65536 * option.payload[8]
        + 16777216 * option.payload[9]
}

proof fn lemma_payload(id: u16, invoke: u32)
    ensures
        ({
            let p = crate::trusted::action_payload(id, Some(invoke));
            &&& p.len() == 10
            &&& id == p[2] + 256 * p[3]
            &&& invoke == p[6] + 256 * p[7] + 65536 * p[8] + 16777216 * p[9]
        }),
{
    reveal_with_fuel(number::low_bytes, 5);
    let n = id as nat;
    let v = invoke as nat;
    let p = crate::trusted::action_payload(id, Some(invoke));
    let a = number::low_bytes(n, 2);
    let b = number::low_bytes(v, 4);
    assert(a =~= seq![(n % 256) as u8, (n / 256 % 256) as u8]);
    assert(b =~= seq![
        (v % 256) as u8,
        (v / 256 % 256) as u8,
        (v / 256 / 256 % 256) as u8,
        (v / 256 / 256 / 256 % 256) as u8,
    ]);
    assert(p[2] == a[0] && p[3] == a[1]);
    assert(p[6] == b[0] && p[7] == b[1] && p[8] == b[2] && p[9] == b[3]);
}

/// There are seven options for each action, in the order of the actions; an action without an id is
/// an error.
pub proof fn options_are_those_of_the_actions(actions: Seq<ActionView>, invokes: Seq<u32>)
    ensures
        match matter::action_options(actions, invokes) {
            Ok(options) => {
                &&& options.len() == 7 * actions.len()
                &&& forall|i: int, j: int|
                    0 <= i < actions.len() && 0 <= j < 7 ==> is_option(
                        #[trigger] options[7 * i + j],
                        actions[i],
                        j,
                        invokes[i],
                    )
            },
            Err(e) => e == MatterError::ActionWithoutId && exists|i: int|
                0 <= i < actions.len() && (#[trigger] actions[i]).action_id is None,
        },
    decreases actions.len(),
{
    if actions.len() > 0 {
        let front = actions.drop_last();
        let last = actions.last();
        let n = front.len() as int;
        options_are_those_of_the_actions(front, invokes);
        match matter::action_options(front, invokes) {
            Err(_) => {
                let i = choose|i: int|
                    0 <= i < front.len() && (#[trigger] front[i]).action_id is None;
                assert(actions[i].action_id is None);
            },
            Ok(before) => match last.action_id {
                None => {
                    assert(actions[n].action_id is None);
                },
                Some(id) => {
                    let more = matter::options_for(id, matter::action_name(last), invokes[n]);
                    let options = before + more;
                    lemma_payload(id, invokes[n]);
                    assert(more.len() == 7);
                    assert forall|i: int, j: int|
                        0 <= i < actions.len() && 0 <= j < 7 implies is_option(
                        #[trigger] options[7 * i + j],
                        actions[i],
                        j,
                        invokes[i],
                    ) by {
                        if i < n {
                            assert(options[7 * i + j] == before[7 * i + j]);
                            assert(actions[i] == front[i]);
                        } else {
                            assert(options[7 * i + j] == more[j]);
                        }
                    }
                },
            },
        }
    }
}

/// The client with an action dialog in which another option is selected.
spec fn choosing<C>(a: AppView<C>, dialog: ActionDialogView, k: nat) -> AppView<C> {
    AppView {
        modal: Some(ModalView::Action(ActionDialogView { selected: k as usize, ..dialog })),
        ..a
    }
}

proof fn lemma_chosen<C>(a: AppView<C>, dialog: ActionDialogView, k: nat)
    requires
        a.modal == Some(ModalView::<C>::Action(dialog)),
        dialog.selected == 0,
        k < dialog.options.len(),
        k <= usize::MAX,
    ensures
        press_often(a, KeyCode::Down, k) == choosing(a, dialog, k),
    decreases k,
{
    if k == 0 {
        assert(choosing(a, dialog, k) =~= a);
    } else {
        lemma_chosen(a, dialog, (k - 1) as nat);
        assert(press_often(a, KeyCode::Down, k) =~= choosing(a, dialog, k));
    }
}

/// The key `a` offers the actions of the endpoint that is selected. The option that is reached with
/// the down key is the one that is sent when Enter is pressed: to the Actions cluster of that
/// endpoint, with the action and the command that the option stands for.
pub proof fn chosen_action_is_invoked<C>(a: AppView<C>, invokes: Seq<u32>, i: int, j: int)
    requires
        selects_endpoint(a),
        forall|k: int|
            0 <= k < selected(a).actions.len() ==> (#[trigger] selected(a).actions[k]).action_id is Some,
        0 <= i < selected(a).actions.len(),
        0 <= j < 7,
        7 * i + j <= usize::MAX,
    ensures
        ({
            let e = selected(a);
            let b = app_model::key_result(a, true, KeyCode::Char('a'), invokes).0;
            let c = press(press_often(b, KeyCode::Down, (7 * i + j) as nat), KeyCode::Enter);
            app_model::task_result(c).1 matches Ok(StepView::Invoke { invocation, sent }) && {
                &&& invocation.endpoint == e.id
                &&& invocation.cluster == 0x25
                &&& invocation.command == action_command(j)
                &&& invocation.payload.len() == 10
                &&& e.actions[i].action_id matches Some(id) && id == invocation.payload[2] + 256
                    * invocation.payload[3]
                &&& sent matches SentView::Action { endpoint, label } && endpoint == e.id
            }
        }),
{
    let e = selected(a);
    let m = a.screen->Manage_0;
    options_are_those_of_the_actions(e.actions, invokes);
    let dialog = matter::action_dialog(e, m.selected_endpoint, invokes)->Ok_0;
    let b = app_model::key_result(a, true, KeyCode::Char('a'), invokes).0;
    lemma_chosen(b, dialog, (7 * i + j) as nat);
    assert(is_option(dialog.options[7 * i + j], e.actions[i], j, invokes[i]));
}

/// The key `n` renames the endpoint that is selected: what is typed behind the name that it has so
/// far becomes its alias, without whitespace around it, and every other alias stays.
pub proof fn selected_endpoint_is_renamed<C>(a: AppView<C>, s: Seq<char>)
    requires
        selects_endpoint(a),
    ensures
        ({
            let e = selected(a);
            let m = a.screen->Manage_0;
            let b = press(type_in(press(a, KeyCode::Char('n')), s), KeyCode::Enter);
            let alias = EndpointAliasView {
                node_id: m.device.node_id,
                endpoint_id: e.id,
                label: text::trimmed(app_model::default_label(e) + s),
            };
            &&& b.state.endpoint_aliases.contains(alias)
            &&& forall|x: EndpointAliasView| #[trigger]
                a.state.endpoint_aliases.contains(x) && (x.node_id != m.device.node_id
                    || x.endpoint_id != e.id) ==> b.state.endpoint_aliases.contains(x)
            &&& b.state.devices == a.state.devices
        }),
{
    let b = press(a, KeyCode::Char('n'));
    let dialog = b.modal.unwrap()->Input_0;
    lemma_typed(b, dialog, s);
    let e = selected(a);
    let m = a.screen->Manage_0;
    let alias = EndpointAliasView {
        node_id: m.device.node_id,
        endpoint_id: e.id,
        label: text::trimmed(app_model::default_label(e) + s),
    };
    lemma_with_alias(a.state.endpoint_aliases, alias);
}

proof fn lemma_with_alias(aliases: Seq<EndpointAliasView>, alias: EndpointAliasView)
    ensures
        utils::with_alias(aliases, alias).contains(alias),
        forall|x: EndpointAliasView| #[trigger]
            aliases.contains(x) && (x.node_id != alias.node_id || x.endpoint_id
                != alias.endpoint_id) ==> utils::with_alias(aliases, alias).contains(x),
{
    let p = |a: EndpointAliasView| utils::names_endpoint(a, alias.node_id, alias.endpoint_id);
    let k = crate::lists::place(aliases, p);
    crate::lists::lemma_place(aliases, p);
    let next = utils::with_alias(aliases, alias);
    assert(next[k] == alias);
    assert forall|x: EndpointAliasView| #[trigger]
        aliases.contains(x) && (x.node_id != alias.node_id || x.endpoint_id
            != alias.endpoint_id) implies next.contains(x) by {
        let i = choose|i: int| 0 <= i < aliases.len() && aliases[i] == x;
        assert(next[i] == x);
    }
}

/// The key `f` gives the fabric on the device another label: what is typed behind the label that
/// this client uses so far, without whitespace around it. It is sent to the device as a text, and
/// once it has been sent the client uses it too.
pub proof fn fabric_label_is_sent_and_kept<C>(a: AppView<C>, s: Seq<char>)
    requires
        selects_endpoint(a),
    ensures
        ({
            let label = text::trimmed(a.state.fabric_label + s);
            let utf8 = vstd::utf8::encode_utf8(label);
            let b = press(type_in(press(a, KeyCode::Char('f')), s), KeyCode::Enter);
            let (c, r) = app_model::task_result(b);
            r matches Ok(StepView::Invoke { invocation, sent }) && {
                &&& invocation.endpoint == 0
                &&& invocation.cluster == 0x3E
                &&& invocation.command == 9
                &&& invocation.payload.skip(3) == utf8
                &&& invocation.payload[2] == utf8.len() % 256
                &&& c.state == a.state
                &&& app_model::sent(c, sent).0.state.fabric_label == label
                &&& app_model::sent(c, sent).0.state.devices == a.state.devices
                &&& app_model::sent(c, sent).0.state.endpoint_aliases == a.state.endpoint_aliases
            }
        }),
{
    let b = press(a, KeyCode::Char('f'));
    let dialog = b.modal.unwrap()->Input_0;
    lemma_typed(b, dialog, s);
    let label = text::trimmed(a.state.fabric_label + s);
    let utf8 = vstd::utf8::encode_utf8(label);
    let payload = crate::trusted::label_payload(label);
    assert(payload.skip(3) =~= utf8);
}

/// The key `d` and then `y` remove the fabric of this client from the device that is managed: the
/// device is asked for the index of the fabric, and the fabric with this very index is removed from
/// it. The device that is forgotten then is that device. With `n` nothing comes of it.
pub proof fn managed_device_is_decommissioned<C>(a: AppView<C>, answer: TlvValue)
    requires
        selects_endpoint(a),
    ensures
        ({
            let m = a.screen->Manage_0;
            let asked = press(a, KeyCode::Char('d'));
            let (c, r) = app_model::task_result(press(asked, KeyCode::Char('y')));
            &&& r == Ok::<StepView<C>, AppError>(StepView::ReadFabricIndex)
            &&& match app_model::index_read(c, answer) {
                Ok(StepView::Invoke { invocation, sent }) => {
                    &&& answer matches TlvValue::Int(n) && invocation.payload[2] == n % 256
                    &&& invocation.payload.len() == 3
                    &&& invocation.endpoint == 0
                    &&& invocation.cluster == 0x3E
                    &&& invocation.command == 0x0A
                    &&& sent == SentView::RemoveFabric {
                        node_id: m.device.node_id,
                        label: m.device.label,
                    }
                },
                Ok(_) => false,
                Err(_) => answer !is Int,
            }
            &&& press(asked, KeyCode::Char('n')).pending_task == a.pending_task
            &&& press(asked, KeyCode::Char('n')).modal is None
            &&& press(asked, KeyCode::Char('n')).state == a.state
        }),
{
}

// Opening a device

/// Whether the client shows the overview, with the focus on the commissioned devices, and one of
/// them is selected.
pub open spec fn selects_commissioned<C>(a: AppView<C>) -> bool {
    &&& a.modal is None
    &&& a.screen is Overview
    &&& a.focus == FocusPane::Commissioned
    &&& a.selected_commissioned < a.commissioned.len()
}

/// The keys Enter and `m` open the device that is selected, if this client knows it, at the socket
/// address at which it has been found. A device that is not known is not opened.
pub proof fn selected_device_is_opened<C>(a: AppView<C>)
    requires
        selects_commissioned(a),
    ensures
        press(a, KeyCode::Enter) == press(a, KeyCode::Char('m')),
        ({
            let device = a.commissioned[a.selected_commissioned as int];
            let (c, r) = app_model::task_result(press(a, KeyCode::Enter));
            match device.known {
                Some(known) => r matches Ok(StepView::Open(opened)) && {
                    &&& opened.node_id == known.node_id
                    &&& opened.label == known.label
                    &&& opened.last_address == utils::socket_text(
                        utils::preferred(device.addresses),
                        device.port,
                    )
                },
                None => r == Ok::<StepView<C>, AppError>(StepView::Done) && c.screen is Overview,
            }
        }),
{
}

/// A device that has been opened is shown with all its endpoints, in their order. Each has the alias
/// that is remembered of it, or its own label where there is none, and is otherwise as it was read.
pub proof fn opened_device_is_shown<C>(
    a: AppView<C>,
    device: KnownDeviceView,
    connection: C,
    endpoints: Seq<EndpointSummaryView>,
    now: u64,
)
    ensures
        app_model::opened(a, device, connection, endpoints, now).screen matches ScreenView::Manage(m)
            && {
            &&& m.device == device
            &&& m.connection == connection
            &&& m.selected_endpoint == 0
            &&& m.endpoints.len() == endpoints.len()
            &&& forall|i: int|
                0 <= i < endpoints.len() ==> is_under_alias(
                    #[trigger] m.endpoints[i],
                    endpoints[i],
                    a.state.endpoint_aliases,
                    device.node_id,
                )
        },
{
    let m = app_model::opened(a, device, connection, endpoints, now).screen->Manage_0;
    assert forall|i: int| 0 <= i < endpoints.len() implies is_under_alias(
        #[trigger] m.endpoints[i],
        endpoints[i],
        a.state.endpoint_aliases,
        device.node_id,
    ) by {
        let aliases = a.state.endpoint_aliases;
        crate::lists::lemma_place(
            aliases,
            |x: EndpointAliasView| utils::names_endpoint(x, device.node_id, endpoints[i].id),
        );
    }
}

/// Whether an endpoint is shown under its alias: the first that is remembered of it, or its own
/// label where there is none. Everything else of it is as it was.
pub open spec fn is_under_alias(
    shown: EndpointSummaryView,
    read: EndpointSummaryView,
    aliases: Seq<EndpointAliasView>,
    node_id: u64,
) -> bool {
    &&& shown.id == read.id
    &&& shown.device_types == read.device_types
    &&& shown.has_on_off == read.has_on_off
    &&& shown.on_off_state == read.on_off_state
    &&& shown.actions == read.actions
    &&& {
        ||| exists|k: int|
            0 <= k < aliases.len() && (#[trigger] aliases[k]).node_id == node_id
                && aliases[k].endpoint_id == read.id && shown.label == Some(aliases[k].label)
                && forall|l: int|
                0 <= l < k ==> (#[trigger] aliases[l]).node_id != node_id || aliases[l].endpoint_id
                    != read.id
        ||| shown.label == read.label && forall|l: int|
            0 <= l < aliases.len() ==> (#[trigger] aliases[l]).node_id != node_id
                || aliases[l].endpoint_id != read.id
    }
}

/// When a device is read anew, its endpoints are those that have been read, under their aliases; the
/// device and the connection stay, and so does the selection where there is still an endpoint.
pub proof fn reloaded_device_is_shown<C>(
    a: AppView<C>,
    endpoints: Seq<EndpointSummaryView>,
    now: u64,
)
    requires
        a.screen is Manage,
    ensures
        ({
            let before = a.screen->Manage_0;
            app_model::reloaded(a, endpoints, now).screen matches ScreenView::Manage(m) && {
                &&& m.device == before.device
                &&& m.connection == before.connection
                &&& m.endpoints == app_model::opened(
                    a,
                    before.device,
                    before.connection,
                    endpoints,
                    now,
                ).screen->Manage_0.endpoints
                &&& before.selected_endpoint < endpoints.len() ==> m.selected_endpoint
                    == before.selected_endpoint
                &&& 0 < endpoints.len() <= before.selected_endpoint ==> m.selected_endpoint + 1
                    == endpoints.len()
            }
        }),
{
}

/// Once a device has been commissioned the client remembers it: its name, its node id and its
/// address; the label of its fabric; and the name of each of its endpoints. It forgets no other
/// device and no name of an endpoint of another one.
pub proof fn commissioned_device_is_remembered<C>(
    a: AppView<C>,
    pending: PendingCommissionView<C>,
)
    requires
        forall|i: int, j: int|
            0 <= i < j < pending.endpoints.len() ==> (#[trigger] pending.endpoints[i]).id != (
            #[trigger] pending.endpoints[j]).id,
    ensures
        ({
            let s = app_model::finished(a, pending).0.state;
            &&& exists|k: int|
                0 <= k < s.devices.len() && (#[trigger] s.devices[k]).label == pending.device_label
                    && s.devices[k].node_id == pending.node_id && s.devices[k].last_address
                    == pending.address
            &&& s.fabric_label == pending.fabric_label
            &&& s.controller_id == a.state.controller_id
            &&& forall|i: int|
                0 <= i < pending.endpoints.len() ==> s.endpoint_aliases.contains(
                    EndpointAliasView {
                        node_id: pending.node_id,
                        endpoint_id: (#[trigger] pending.endpoints[i]).id,
                        label: app_model::default_label(pending.endpoints[i]),
                    },
                )
            &&& forall|d: KnownDeviceView| #[trigger]
                a.state.devices.contains(d) && d.node_id != pending.node_id ==> s.devices.contains(
                    d,
                )
            &&& forall|x: EndpointAliasView| #[trigger]
                a.state.endpoint_aliases.contains(x) && x.node_id != pending.node_id
                    ==> s.endpoint_aliases.contains(x)
        }),
{
    let s = app_model::finished(a, pending).0.state;
    let devices = a.state.devices;
    let p = |d: KnownDeviceView| d.node_id == pending.node_id;
    let k = crate::lists::place(devices, p);
    crate::lists::lemma_place(devices, p);
    assert(s.devices[k].label == pending.device_label);
    assert forall|d: KnownDeviceView| #[trigger]
        devices.contains(d) && d.node_id != pending.node_id implies s.devices.contains(d) by {
        let i = choose|i: int| 0 <= i < devices.len() && devices[i] == d;
        assert(s.devices[i] == d);
    }
    lemma_named_endpoints(a.state.endpoint_aliases, pending.node_id, pending.endpoints);
}

proof fn lemma_named_endpoints(
    aliases: Seq<EndpointAliasView>,
    node_id: u64,
    endpoints: Seq<EndpointSummaryView>,
)
    requires
        forall|i: int, j: int|
            0 <= i < j < endpoints.len() ==> (#[trigger] endpoints[i]).id != (
            #[trigger] endpoints[j]).id,
    ensures
        ({
            let next = app_model::with_names(aliases, node_id, endpoints);
            &&& forall|i: int|
                0 <= i < endpoints.len() ==> next.contains(
                    EndpointAliasView {
                        node_id,
                        endpoint_id: (#[trigger] endpoints[i]).id,
                        label: app_model::default_label(endpoints[i]),
                    },
                )
            &&& forall|x: EndpointAliasView| #[trigger]
                aliases.contains(x) && x.node_id != node_id ==> next.contains(x)
        }),
    decreases endpoints.len(),
{
    if endpoints.len() > 0 {
        let front = endpoints.drop_last();
        let last = endpoints.last();
        let n = endpoints.len() - 1;
        let alias = EndpointAliasView {
            node_id,
            endpoint_id: last.id,
            label: app_model::default_label(last),
        };
        assert forall|i: int, j: int| 0 <= i < j < front.len() implies (#[trigger] front[i]).id != (
        #[trigger] front[j]).id by {
            assert(endpoints[i].id != endpoints[j].id);
        }
        lemma_named_endpoints(aliases, node_id, front);
        let before = app_model::with_names(aliases, node_id, front);
        let next = app_model::with_names(aliases, node_id, endpoints);
        lemma_with_alias(before, alias);
        assert forall|i: int| 0 <= i < endpoints.len() implies next.contains(
            EndpointAliasView {
                node_id,
                endpoint_id: (#[trigger] endpoints[i]).id,
                label: app_model::default_label(endpoints[i]),
            },
        ) by {
            if i < n {
                assert(endpoints[i].id != endpoints[n].id);
                assert(before.contains(
                    EndpointAliasView {
                        node_id,
                        endpoint_id: front[i].id,
                        label: app_model::default_label(front[i]),
                    },
                ));
            }
        }
        assert forall|x: EndpointAliasView| #[trigger]
            aliases.contains(x) && x.node_id != node_id implies next.contains(x) by {
            assert(before.contains(x));
        }
    }
}

// Moving about

/// The down key moves the selection of the list that has the focus by one, up to the last entry, and
/// the up key moves it back, up to the first. The other list keeps its selection, and nothing else
/// changes.
pub proof fn selection_moves_by_one<C>(a: AppView<C>)
    requires
        a.wf(),
        a.modal is None,
        a.screen is Overview,
        a.commissionable.len() <= usize::MAX,
        a.commissioned.len() <= usize::MAX,
    ensures
        ({
            let down = press(a, KeyCode::Down);
            let up = press(a, KeyCode::Up);
            if a.focus == FocusPane::Commissionable {
                let n = a.commissionable.len();
                &&& moves_down(a.selected_commissionable, down.selected_commissionable, n)
                &&& moves_up(a.selected_commissionable, up.selected_commissionable)
                &&& down == (AppView {
                    selected_commissionable: down.selected_commissionable,
                    ..a
                })
                &&& up == (AppView { selected_commissionable: up.selected_commissionable, ..a })
            } else {
                let n = a.commissioned.len();
                &&& moves_down(a.selected_commissioned, down.selected_commissioned, n)
                &&& moves_up(a.selected_commissioned, up.selected_commissioned)
                &&& down == (AppView { selected_commissioned: down.selected_commissioned, ..a })
                &&& up == (AppView { selected_commissioned: up.selected_commissioned, ..a })
            }
        }),
{
    let down = press(a, KeyCode::Down);
    let up = press(a, KeyCode::Up);
    if a.focus == FocusPane::Commissionable {
        assert(down =~= AppView { selected_commissionable: down.selected_commissionable, ..a });
        assert(up =~= AppView { selected_commissionable: up.selected_commissionable, ..a });
    } else {
        assert(down =~= AppView { selected_commissioned: down.selected_commissioned, ..a });
        assert(up =~= AppView { selected_commissioned: up.selected_commissioned, ..a });
    }
}

/// Whether a selection has moved down by one, or stays where it is at the end of the list.
pub open spec fn moves_down(before: usize, after: usize, len: nat) -> bool {
    if before + 1 < len {
        after == before + 1
    } else {
        after == before
    }
}

/// Whether a selection has moved up by one, or stays where it is at the beginning of the list.
pub open spec fn moves_up(before: usize, after: usize) -> bool {
    if before > 0 {
        after == before - 1
    } else {
        after == 0
    }
}

/// On the screen of a device the keys move the selection among its endpoints in the same way, and
/// the device and its endpoints stay as they are.
pub proof fn endpoint_selection_moves_by_one<C>(a: AppView<C>)
    requires
        a.wf(),
        a.modal is None,
        a.screen matches ScreenView::Manage(m) && m.endpoints.len() <= usize::MAX,
    ensures
        ({
            let m = a.screen->Manage_0;
            let down = press(a, KeyCode::Down).screen;
            let up = press(a, KeyCode::Up).screen;
            &&& down is Manage
            &&& up is Manage
            &&& moves_down(
                m.selected_endpoint,
                down->Manage_0.selected_endpoint,
                m.endpoints.len(),
            )
            &&& moves_up(m.selected_endpoint, up->Manage_0.selected_endpoint)
            &&& down->Manage_0.endpoints == m.endpoints && up->Manage_0.endpoints == m.endpoints
            &&& down->Manage_0.device == m.device && up->Manage_0.device == m.device
            &&& down->Manage_0.connection == m.connection && up->Manage_0.connection == m.connection
        }),
{
}

/// Tab moves the focus to the other list, and a second time back; the arrows to the side do the same.
pub proof fn tab_switches_the_focus<C>(a: AppView<C>)
    requires
        a.modal is None,
        a.screen is Overview,
    ensures
        press(a, KeyCode::Tab).focus != a.focus,
        press(press(a, KeyCode::Tab), KeyCode::Tab) == a,
        press(a, KeyCode::Left) == press(a, KeyCode::Tab),
        press(a, KeyCode::Right) == press(a, KeyCode::Tab),
{
    assert(press(press(a, KeyCode::Tab), KeyCode::Tab) =~= a);
}

/// The key `q` ends the client, on the overview alone; no other key does. Before the client takes
/// another key it runs the task that is due. The key `r` makes it scan. The keys `b` and Escape lead
/// from a device back to the overview, and nothing is forgotten on the way.
pub proof fn client_ends_scans_and_goes_back<C>(a: AppView<C>, key: KeyCode)
    requires
        a.modal is None,
        !a.quit,
    ensures
        press(a, key).quit <==> a.screen is Overview && key == KeyCode::Char('q'),
        app_model::next_turn(a) == Turn::RunTask <==> a.pending_task is Some,
        app_model::next_turn(a) == Turn::WaitForKey <==> a.pending_task is None,
        a.screen is Overview ==> app_model::next_turn(press(a, KeyCode::Char('q'))) == Turn::Quit,
        a.screen is Overview ==> app_model::task_result(press(a, KeyCode::Char('r'))).1 == Ok::<
            StepView<C>,
            AppError,
        >(StepView::Scan),
        a.screen is Manage && (key == KeyCode::Esc || key == KeyCode::Char('b')) ==> press(
            a,
            key,
        ).screen is Overview && press(a, key).state == a.state && press(a, key).commissioned
            == a.commissioned && press(a, key).commissionable == a.commissionable,
{
}

/// After a scan the client shows what has been found, and every selection that still denotes an
/// entry stays. A scan that fails changes neither the lists nor the selections, and says so.
pub proof fn scan_shows_what_was_found<C>(
    a: AppView<C>,
    commissionable: Seq<CommissionableDeviceView>,
    commissioned: Seq<CommissionedDeviceView>,
    message: Seq<char>,
)
    ensures
        ({
            let b = app_model::scanned(a, Ok((commissionable, commissioned)));
            let c = app_model::scanned(a, Err(message));
            &&& b.commissionable == commissionable
            &&& b.commissioned == commissioned
            &&& b.state == a.state
            &&& b.status_kind == StatusKind::Success
            &&& stays_in(a.selected_commissionable, b.selected_commissionable, commissionable.len())
            &&& stays_in(a.selected_commissioned, b.selected_commissioned, commissioned.len())
            &&& c.commissionable == a.commissionable
            &&& c.commissioned == a.commissioned
            &&& c.selected_commissionable == a.selected_commissionable
            &&& c.selected_commissioned == a.selected_commissioned
            &&& c.status_kind == StatusKind::Error
            &&& c.status == "Scan failed: "@ + message
        }),
{
}

/// Whether a selection stays where it is in a list of this length, or is the last entry where the
/// list has become too short.
pub open spec fn stays_in(before: usize, after: usize, len: nat) -> bool {
    if before < len {
        after == before
    } else if 0 < len <= usize::MAX {
        after + 1 == len
    } else {
        len == 0 ==> after == 0
    }
}

/// What has gone wrong is shown, both in a dialog and as the status, and nothing else changes.
pub proof fn errors_are_shown<C>(a: AppView<C>, message: Seq<char>)
    ensures
        app_model::failed(a, message).modal == Some(ModalView::<C>::Message(message)),
        app_model::failed(a, message).status == message,
        app_model::failed(a, message).status_kind == StatusKind::Error,
        app_model::failed(a, message).state == a.state,
        app_model::failed(a, message).screen == a.screen,
        app_model::failed(a, message).pending_task == a.pending_task,
{
}

} // verus!
