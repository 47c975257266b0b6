//! What holds of the terminal client whatever is done with it.

use crate::app_model;
use crate::app_model::{AppError, AppView, KeyCode, SentView, StepView};
use crate::invoker;
use crate::invoker::{InvokerErrorView, RequestView};
use crate::lists;
use crate::state;
use crate::state::{AppStateView, EndpointAliasView, KnownDeviceView};
use crate::state_laws;
use crate::text;
use crate::types::{
    ConfirmAction, EndpointSummaryView, ModalView, PendingCommissionView, PendingTaskView,
    ScreenView, SubmitAction,
};
use crate::utils;
use crate::utils_laws;
use vstd::prelude::*;

verus! {

// Keys

/// No key breaks the invariant.
pub proof fn keys_keep_the_invariant<C>(
    a: AppView<C>,
    pressed: bool,
    key: KeyCode,
    invokes: Seq<u32>,
)
    requires
        a.wf(),
    ensures
        app_model::key_result(a, pressed, key, invokes).0.wf(),
{
}

/// A key that is released or repeated does nothing.
pub proof fn only_pressed_keys_count<C>(a: AppView<C>, key: KeyCode, invokes: Seq<u32>)
    ensures
        app_model::key_result(a, false, key, invokes) == (
            a,
            Ok::<StepView<C>, AppError>(StepView::Done),
        ),
{
}

/// While a dialog is open no key reaches what is behind it: the client does not quit, the lists,
/// their selections and the focus stay, and the screen stays what it is.
pub proof fn dialogs_take_every_key<C>(
    a: AppView<C>,
    pressed: bool,
    key: KeyCode,
    invokes: Seq<u32>,
)
    requires
        a.modal is Some,
    ensures
        ({
            let b = app_model::key_result(a, pressed, key, invokes).0;
            &&& b.quit == a.quit
            &&& b.focus == a.focus
            &&& b.commissionable == a.commissionable
            &&& b.commissioned == a.commissioned
            &&& b.selected_commissionable == a.selected_commissionable
            &&& b.selected_commissioned == a.selected_commissioned
            &&& (b.screen is Manage <==> a.screen is Manage)
        }),
{
}

/// Escape closes any dialog, and nothing comes of it: no task, no change to what is remembered, no
/// outside work.
pub proof fn escape_cancels<C>(a: AppView<C>, invokes: Seq<u32>)
    requires
        a.modal is Some,
    ensures
        ({
            let (b, r) = app_model::key_result(a, true, KeyCode::Esc, invokes);
            &&& b.modal is None
            &&& b.pending_task == a.pending_task
            &&& b.state == a.state
            &&& b.screen == a.screen
            &&& r == Ok::<StepView<C>, AppError>(StepView::Done)
        }),
{
}

/// Whether a dialog holds a line of text.
pub open spec fn takes_text<C>(modal: ModalView<C>) -> bool {
    modal is Input || modal is CommissionDeviceName || modal is CommissionFabricName
        || modal is CommissionEndpointName
}

/// The line of text in a dialog.
pub open spec fn typed<C>(modal: ModalView<C>) -> Seq<char> {
    match modal {
        ModalView::Input(dialog) => dialog.value,
        ModalView::CommissionDeviceName { pending, value } => value,
        ModalView::CommissionFabricName { pending, value } => value,
        ModalView::CommissionEndpointName { pending, index, value } => value,
        _ => seq![],
    }
}

/// A character that is typed into a dialog stands at the end of its text, and the next backspace
/// takes it back: the client is what it was. A backspace where there is no text changes nothing.
pub proof fn backspace_undoes_typing<C>(a: AppView<C>, c: char, invokes: Seq<u32>)
    requires
        a.modal matches Some(modal) && takes_text(modal),
    ensures
        ({
            let done = Ok::<StepView<C>, AppError>(StepView::Done);
            let (b, r) = app_model::key_result(a, true, KeyCode::Char(c), invokes);
            &&& r == done
            &&& b.modal matches Some(modal) && takes_text(modal) && typed(modal) == typed(
                a.modal.unwrap(),
            ).push(c)
            &&& app_model::key_result(b, true, KeyCode::Backspace, invokes) == (a, done)
            &&& typed(a.modal.unwrap()).len() == 0 ==> app_model::key_result(
                a,
                true,
                KeyCode::Backspace,
                invokes,
            ) == (a, done)
        }),
{
    let value = typed(a.modal.unwrap());
    assert(value.push(c).drop_last() =~= value);
    let b = app_model::key_result(a, true, KeyCode::Char(c), invokes).0;
    assert(app_model::key_result(b, true, KeyCode::Backspace, invokes).0 =~= a);
    if value.len() == 0 {
        assert(app_model::key_result(a, true, KeyCode::Backspace, invokes).0 =~= a);
    }
}

/// A device is only ever decommissioned after the question whether to do so has been answered with
/// `y`.
pub proof fn decommissioning_is_confirmed<C>(
    a: AppView<C>,
    pressed: bool,
    key: KeyCode,
    invokes: Seq<u32>,
)
    requires
        a.pending_task != Some(PendingTaskView::<C>::Decommission),
        app_model::key_result(a, pressed, key, invokes).0.pending_task == Some(
            PendingTaskView::<C>::Decommission,
        ),
    ensures
        pressed,
        key == KeyCode::Char('y'),
        a.modal matches Some(ModalView::Confirm(dialog)) && dialog.confirm
            == ConfirmAction::Decommission,
{
}

/// A task is run once: whatever comes of it, it is no longer due, and the dialog that was open is
/// closed. Without a task nothing happens. Only a device that has joined the fabric opens a dialog:
/// the one that asks for its name, with the label of the device in it.
pub proof fn tasks_are_run_once<C>(a: AppView<C>, pending: PendingCommissionView<C>)
    ensures
        app_model::task_result(a).0.pending_task is None,
        a.pending_task is None ==> app_model::task_result(a) == (
            a,
            Ok::<StepView<C>, AppError>(StepView::Done),
        ),
        a.pending_task is Some ==> app_model::task_result(a).0.modal is None,
        app_model::joined(a, pending).modal == Some(
            ModalView::CommissionDeviceName { pending, value: pending.device_label },
        ),
        app_model::joined(a, pending).pending_task == a.pending_task,
{
}

// What is remembered

/// A key changes nothing of what is remembered but the aliases of endpoints.
pub proof fn keys_leave_devices_alone<C>(
    a: AppView<C>,
    pressed: bool,
    key: KeyCode,
    invokes: Seq<u32>,
)
    ensures
        ({
            let b = app_model::key_result(a, pressed, key, invokes).0;
            &&& b.state.devices == a.state.devices
            &&& b.state.controller_id == a.state.controller_id
            &&& b.state.fabric_label == a.state.fabric_label
        }),
{
}

/// Whether what is remembered is what is about to be stored.
pub open spec fn stores<C>(b: AppView<C>, step: StepView<C>) -> bool {
    step matches StepView::Save { contents, saved } && contents == state::saved_text(b.state)
}

/// Whenever a key, a command that was sent or the end of commissioning changes what is remembered,
/// it is stored, as it then is.
pub proof fn changes_are_stored<C>(
    a: AppView<C>,
    pressed: bool,
    key: KeyCode,
    invokes: Seq<u32>,
    what: SentView,
    pending: PendingCommissionView<C>,
)
    ensures
        ({
            let (b, r) = app_model::key_result(a, pressed, key, invokes);
            b.state != a.state ==> (r matches Ok(step) && stores(b, step))
        }),
        ({
            let (b, step) = app_model::sent(a, what);
            b.state != a.state ==> stores(b, step)
        }),
        ({
            let (b, step) = app_model::finished(a, pending);
            stores(b, step)
        }),
        app_model::task_result(a).0.state == a.state,
{
}

/// Once the fabric has been removed from a device, neither the device nor an alias of one of its
/// endpoints is remembered, and everything else is.
pub proof fn decommissioned_device_is_forgotten<C>(a: AppView<C>, node_id: u64, label: Seq<char>)
    ensures
        ({
            let b = app_model::sent(a, SentView::RemoveFabric { node_id, label }).0;
            &&& forall|i: int|
                0 <= i < b.state.devices.len() ==> (#[trigger] b.state.devices[i]).node_id
                    != node_id
            &&& forall|i: int|
                0 <= i < b.state.endpoint_aliases.len() ==> (
                #[trigger] b.state.endpoint_aliases[i]).node_id != node_id
            &&& forall|d: KnownDeviceView| #[trigger]
                a.state.devices.contains(d) && d.node_id != node_id ==> b.state.devices.contains(d)
            &&& forall|e: EndpointAliasView| #[trigger]
                a.state.endpoint_aliases.contains(e) && e.node_id != node_id
                    ==> b.state.endpoint_aliases.contains(e)
        }),
{
    let b = app_model::sent(a, SentView::RemoveFabric { node_id, label }).0;
    let p = |d: KnownDeviceView| d.node_id != node_id;
    let q = |e: EndpointAliasView| e.node_id != node_id;
    let devices = a.state.devices;
    let aliases = a.state.endpoint_aliases;
    assert forall|i: int| 0 <= i < b.state.devices.len() implies (
    #[trigger] b.state.devices[i]).node_id != node_id by {
        devices.lemma_filter_pred(p, i);
    }
    assert forall|i: int| 0 <= i < b.state.endpoint_aliases.len() implies (
    #[trigger] b.state.endpoint_aliases[i]).node_id != node_id by {
        aliases.lemma_filter_pred(q, i);
    }
    assert forall|d: KnownDeviceView| #[trigger]
        devices.contains(d) && d.node_id != node_id implies b.state.devices.contains(d) by {
        let i = choose|i: int| 0 <= i < devices.len() && devices[i] == d;
        devices.lemma_filter_contains(p, i);
    }
    assert forall|e: EndpointAliasView| #[trigger]
        aliases.contains(e) && e.node_id != node_id implies b.state.endpoint_aliases.contains(e) by {
        let i = choose|i: int| 0 <= i < aliases.len() && aliases[i] == e;
        aliases.lemma_filter_contains(q, i);
    }
}

/// An endpoint that has been renamed has its new name on the screen, and has it again whenever the
/// device is opened later.
pub proof fn renamed_endpoint_keeps_its_name<C>(
    a: AppView<C>,
    invokes: Seq<u32>,
    endpoints: Seq<EndpointSummaryView>,
    i: int,
)
    requires
        a.modal matches Some(ModalView::Input(dialog)) && a.screen matches ScreenView::Manage(m)
            && dialog.submit matches SubmitAction::RenameEndpoint { endpoint_index }
            && endpoint_index < m.endpoints.len() && 0 <= i < endpoints.len() && endpoints[i].id
            == m.endpoints[endpoint_index as int].id,
    ensures
        ({
            let b = app_model::key_result(a, true, KeyCode::Enter, invokes).0;
            let dialog = a.modal.unwrap()->Input_0;
            let k = dialog.submit->RenameEndpoint_endpoint_index as int;
            let m = a.screen->Manage_0;
            &&& b.screen matches ScreenView::Manage(n) && n.endpoints[k].label == Some(
                text::trimmed(dialog.value),
            )
            &&& utils::under_aliases(
                b.state.endpoint_aliases,
                m.device.node_id,
                endpoints,
            )[i].label == Some(text::trimmed(dialog.value))
        }),
{
    let dialog = a.modal.unwrap()->Input_0;
    let k = dialog.submit->RenameEndpoint_endpoint_index as int;
    let m = a.screen->Manage_0;
    let id = m.endpoints[k].id;
    utils_laws::added_alias_is_used(
        a.state.endpoint_aliases,
        EndpointAliasView {
            node_id: m.device.node_id,
            endpoint_id: id,
            label: text::trimmed(dialog.value),
        },
        m.device.node_id,
        id,
    );
}

/// An endpoint that has been renamed is found by its new name, as long as the names are told apart:
/// the name of the device leads to the device that is open, and no other endpoint of it has the
/// name.
pub proof fn renamed_endpoint_is_found_by_name<C>(
    a: AppView<C>,
    invokes: Seq<u32>,
    request: RequestView,
)
    requires
        a.modal matches Some(ModalView::Input(dialog)) && a.screen matches ScreenView::Manage(m)
            && dialog.submit matches SubmitAction::RenameEndpoint { endpoint_index }
            && endpoint_index < m.endpoints.len() && invoker::names_match(
            text::trimmed(dialog.value),
            request.endpoint,
        ) && {
            let at = invoker::device_place(a.state.devices, request.device);
            at < a.state.devices.len() && a.state.devices[at].node_id == m.device.node_id
        } && told_apart(
            a.state.endpoint_aliases,
            m.device.node_id,
            m.endpoints[endpoint_index as int].id,
            request.endpoint,
        ),
    ensures
        ({
            let b = app_model::key_result(a, true, KeyCode::Enter, invokes).0;
            let dialog = a.modal.unwrap()->Input_0;
            let k = dialog.submit->RenameEndpoint_endpoint_index as int;
            let m = a.screen->Manage_0;
            invoker::resolved(b.state, request) == Ok::<
                (KnownDeviceView, EndpointAliasView),
                InvokerErrorView,
            >(
                (
                    a.state.devices[invoker::device_place(a.state.devices, request.device)],
                    EndpointAliasView {
                        node_id: m.device.node_id,
                        endpoint_id: m.endpoints[k].id,
                        label: text::trimmed(dialog.value),
                    },
                ),
            )
        }),
{
    let dialog = a.modal.unwrap()->Input_0;
    let k = dialog.submit->RenameEndpoint_endpoint_index as int;
    let m = a.screen->Manage_0;
    lemma_added_name(
        a.state.endpoint_aliases,
        EndpointAliasView {
            node_id: m.device.node_id,
            endpoint_id: m.endpoints[k].id,
            label: text::trimmed(dialog.value),
        },
        request.endpoint,
    );
}

/// Whether no alias of a node has a name, but perhaps that of one endpoint.
pub open spec fn told_apart(
    aliases: Seq<EndpointAliasView>,
    node_id: u64,
    endpoint_id: u16,
    name: Seq<char>,
) -> bool {
    forall|i: int|
        0 <= i < aliases.len() && (#[trigger] aliases[i]).node_id == node_id
            && aliases[i].endpoint_id != endpoint_id ==> !invoker::names_match(
            aliases[i].label,
            name,
        )
}

proof fn lemma_added_name(
    aliases: Seq<EndpointAliasView>,
    alias: EndpointAliasView,
    name: Seq<char>,
)
    requires
        invoker::names_match(alias.label, name),
        told_apart(aliases, alias.node_id, alias.endpoint_id, name),
    ensures
        ({
            let next = utils::with_alias(aliases, alias);
            let at = invoker::alias_place(next, alias.node_id, name);
            at < next.len() && next[at] == alias
        }),
{
    let next = utils::with_alias(aliases, alias);
    let p = |a: EndpointAliasView| utils::names_endpoint(a, alias.node_id, alias.endpoint_id);
    let q = |a: EndpointAliasView|
        a.node_id == alias.node_id && invoker::names_match(a.label, name);
    let k = lists::place(aliases, p);
    lists::lemma_place(aliases, p);
    assert forall|i: int| 0 <= i < k implies !q(#[trigger] next[i]) by {
        assert(next[i] == aliases[i]);
        assert(!p(aliases[i]));
    }
    lists::lemma_place_is(next, q, k);
}

// Commissioning

/// How many dialogs are left before commissioning is finished; none for other dialogs.
pub open spec fn dialogs_left<C>(modal: ModalView<C>) -> int {
    match modal {
        ModalView::CommissionDeviceName { pending, value } => pending.endpoints.len() as int + 2,
        ModalView::CommissionFabricName { pending, value } => pending.endpoints.len() as int + 1,
        ModalView::CommissionEndpointName { pending, index, value } => pending.endpoints.len()
            - index,
        _ => 0,
    }
}

/// The device that a dialog of commissioning is about.
pub open spec fn device_of<C>(modal: ModalView<C>) -> PendingCommissionView<C> {
    match modal {
        ModalView::CommissionDeviceName { pending, value } => pending,
        ModalView::CommissionFabricName { pending, value } => pending,
        ModalView::CommissionEndpointName { pending, index, value } => pending,
        _ => arbitrary(),
    }
}

/// Whether two devices that are being commissioned are the same, whatever their labels.
pub open spec fn same_device<C>(
    p: PendingCommissionView<C>,
    q: PendingCommissionView<C>,
) -> bool {
    &&& p.node_id == q.node_id
    &&& p.address == q.address
    &&& p.connection == q.connection
    &&& p.endpoints.len() == q.endpoints.len()
    &&& forall|i: int|
        0 <= i < p.endpoints.len() ==> (#[trigger] p.endpoints[i]).id == q.endpoints[i].id
}

/// Confirming the dialogs of commissioning one after the other, whatever is typed in them, leads
/// to the end of commissioning of the same device: every Enter leaves one dialog less, and the last
/// one queues the task that finishes.
pub proof fn enter_leads_through_commissioning<C>(a: AppView<C>, invokes: Seq<u32>)
    requires
        a.wf(),
        a.modal matches Some(modal) && dialogs_left(modal) > 0 && device_of(modal).endpoints.len()
            <= usize::MAX,
    ensures
        ({
            let (b, r) = app_model::key_result(a, true, KeyCode::Enter, invokes);
            let modal = a.modal.unwrap();
            &&& r == Ok::<StepView<C>, AppError>(StepView::Done)
            &&& b.state == a.state
            &&& if dialogs_left(modal) > 1 {
                b.modal matches Some(next) && dialogs_left(next) == dialogs_left(modal) - 1
                    && same_device(device_of(modal), device_of(next))
            } else {
                b.pending_task matches Some(PendingTaskView::FinishCommission(pending))
                    && same_device(device_of(modal), pending)
            }
        }),
{
}

/// The alias that an endpoint of a device gets at the end of commissioning.
pub open spec fn alias_for(node_id: u64, endpoint: EndpointSummaryView) -> EndpointAliasView {
    EndpointAliasView {
        node_id,
        endpoint_id: endpoint.id,
        label: app_model::default_label(endpoint),
    }
}

/// Whether some alias is that of an endpoint.
pub open spec fn has_alias(
    aliases: Seq<EndpointAliasView>,
    node_id: u64,
    endpoint_id: u16,
) -> bool {
    exists|i: int|
        0 <= i < aliases.len() && utils::names_endpoint(#[trigger] aliases[i], node_id, endpoint_id)
}

proof fn lemma_without_alias(
    aliases: Seq<EndpointAliasView>,
    node_id: u64,
    endpoints: Seq<EndpointSummaryView>,
    id: u16,
)
    requires
        !has_alias(aliases, node_id, id),
        forall|i: int| 0 <= i < endpoints.len() ==> (#[trigger] endpoints[i]).id != id,
    ensures
        !has_alias(app_model::with_names(aliases, node_id, endpoints), node_id, id),
    decreases endpoints.len(),
{
    if endpoints.len() > 0 {
        let front = endpoints.drop_last();
        let alias = alias_for(node_id, endpoints.last());
        lemma_without_alias(aliases, node_id, front, id);
        let before = app_model::with_names(aliases, node_id, front);
        let next = utils::with_alias(before, alias);
        lists::lemma_place(
            before,
            |a: EndpointAliasView| utils::names_endpoint(a, alias.node_id, alias.endpoint_id),
        );
        assert(alias.endpoint_id != id);
        assert forall|i: int| 0 <= i < next.len() implies !utils::names_endpoint(
            #[trigger] next[i],
            node_id,
            id,
        ) by {
            if next[i] != alias {
                assert(next[i] == before[i]);
            }
        }
    }
}

proof fn lemma_names_told_apart(
    aliases: Seq<EndpointAliasView>,
    node_id: u64,
    endpoints: Seq<EndpointSummaryView>,
    id: u16,
    name: Seq<char>,
)
    requires
        told_apart(aliases, node_id, id, name),
        forall|i: int|
            0 <= i < endpoints.len() ==> !invoker::names_match(
                app_model::default_label(#[trigger] endpoints[i]),
                name,
            ),
    ensures
        told_apart(app_model::with_names(aliases, node_id, endpoints), node_id, id, name),
    decreases endpoints.len(),
{
    if endpoints.len() > 0 {
        let front = endpoints.drop_last();
        let alias = alias_for(node_id, endpoints.last());
        lemma_names_told_apart(aliases, node_id, front, id, name);
        let before = app_model::with_names(aliases, node_id, front);
        let next = utils::with_alias(before, alias);
        lists::lemma_place(
            before,
            |a: EndpointAliasView| utils::names_endpoint(a, alias.node_id, alias.endpoint_id),
        );
        assert(!invoker::names_match(alias.label, name));
        assert forall|i: int|
            0 <= i < next.len() && (#[trigger] next[i]).node_id == node_id && next[i].endpoint_id
                != id implies !invoker::names_match(next[i].label, name) by {
            if next[i] != alias {
                assert(next[i] == before[i]);
            }
        }
    }
}

proof fn lemma_name_is_found(
    aliases: Seq<EndpointAliasView>,
    node_id: u64,
    endpoints: Seq<EndpointSummaryView>,
    k: int,
    name: Seq<char>,
)
    requires
        0 <= k < endpoints.len(),
        invoker::names_match(app_model::default_label(endpoints[k]), name),
        told_apart(aliases, node_id, endpoints[k].id, name),
        forall|i: int|
            0 <= i < endpoints.len() && i != k && invoker::names_match(
                app_model::default_label(#[trigger] endpoints[i]),
                name,
            ) ==> k < i && !has_alias(aliases, node_id, endpoints[i].id),
        forall|i: int, j: int|
            0 <= i < j < endpoints.len() ==> (#[trigger] endpoints[i]).id != (
            #[trigger] endpoints[j]).id,
    ensures
        ({
            let next = app_model::with_names(aliases, node_id, endpoints);
            let at = invoker::alias_place(next, node_id, name);
            at < next.len() && next[at] == alias_for(node_id, endpoints[k])
        }),
    decreases endpoints.len(),
{
    let front = endpoints.drop_last();
    let last = endpoints.last();
    let alias = alias_for(node_id, last);
    let before = app_model::with_names(aliases, node_id, front);
    if k == front.len() {
        assert forall|i: int| 0 <= i < front.len() implies !invoker::names_match(
            app_model::default_label(#[trigger] front[i]),
            name,
        ) by {
            assert(front[i] == endpoints[i]);
        }
        lemma_names_told_apart(aliases, node_id, front, last.id, name);
        lemma_added_name(before, alias, name);
    } else {
        assert forall|i: int|
            0 <= i < front.len() && i != k && invoker::names_match(
                app_model::default_label(#[trigger] front[i]),
                name,
            ) implies k < i && !has_alias(aliases, node_id, front[i].id) by {
            assert(front[i] == endpoints[i]);
        }
        assert forall|i: int, j: int| 0 <= i < j < front.len() implies (#[trigger] front[i]).id != (
        #[trigger] front[j]).id by {
            assert(endpoints[i].id != endpoints[j].id);
        }
        lemma_name_is_found(aliases, node_id, front, k, name);
        let next = utils::with_alias(before, alias);
        let p = |a: EndpointAliasView| utils::names_endpoint(a, node_id, last.id);
        let q = |a: EndpointAliasView| a.node_id == node_id && invoker::names_match(a.label, name);
        let at = lists::place(before, q);
        let s = lists::place(before, p);
        lists::lemma_place(before, q);
        lists::lemma_place(before, p);
        assert(endpoints[k].id != endpoints[endpoints.len() - 1].id);
        if q(alias) {
            assert(endpoints[endpoints.len() - 1] == last);
            assert forall|i: int| 0 <= i < front.len() implies (#[trigger] front[i]).id
                != last.id by {
                assert(endpoints[i].id != endpoints[endpoints.len() - 1].id);
            }
            lemma_without_alias(aliases, node_id, front, last.id);
            assert(s == before.len());
        }
        assert(next[at] == before[at]);
        assert forall|i: int| 0 <= i < at implies !q(#[trigger] next[i]) by {
            if i != s {
                assert(next[i] == before[i]);
            }
            assert(!q(before[i]));
        }
        lists::lemma_place_is(next, q, at);
    }
}

/// A device that has just been commissioned is found again by its name, and each of its endpoints
/// by the name that it was given, as long as the names are told apart: no other device has the name
/// of the device; no alias that is remembered of another endpoint of the node has the name of the
/// endpoint; and another endpoint that is given the same name comes later and has no alias yet.
pub proof fn commissioned_device_is_found_by_name<C>(
    a: AppView<C>,
    pending: PendingCommissionView<C>,
    k: int,
    request: RequestView,
)
    requires
        0 <= k < pending.endpoints.len(),
        invoker::names_match(pending.device_label, request.device),
        invoker::names_match(app_model::default_label(pending.endpoints[k]), request.endpoint),
        forall|i: int|
            0 <= i < a.state.devices.len() && (#[trigger] a.state.devices[i]).node_id
                != pending.node_id ==> !invoker::names_match(
                a.state.devices[i].label,
                request.device,
            ),
        told_apart(
            a.state.endpoint_aliases,
            pending.node_id,
            pending.endpoints[k].id,
            request.endpoint,
        ),
        forall|i: int|
            0 <= i < pending.endpoints.len() && i != k && invoker::names_match(
                app_model::default_label(#[trigger] pending.endpoints[i]),
                request.endpoint,
            ) ==> k < i && !has_alias(
                a.state.endpoint_aliases,
                pending.node_id,
                pending.endpoints[i].id,
            ),
        forall|i: int, j: int|
            0 <= i < j < pending.endpoints.len() ==> (#[trigger] pending.endpoints[i]).id != (
            #[trigger] pending.endpoints[j]).id,
    ensures
        invoker::resolved(app_model::finished(a, pending).0.state, request) == Ok::<
            (KnownDeviceView, EndpointAliasView),
            InvokerErrorView,
        >(
            (
                KnownDeviceView {
                    label: pending.device_label,
                    node_id: pending.node_id,
                    last_address: pending.address,
                },
                alias_for(pending.node_id, pending.endpoints[k]),
            ),
        ),
{
    let s = app_model::finished(a, pending).0.state;
    let device = KnownDeviceView {
        label: pending.device_label,
        node_id: pending.node_id,
        last_address: pending.address,
    };
    let p = |d: KnownDeviceView| d.node_id == device.node_id;
    let q = |d: KnownDeviceView| invoker::names_match(d.label, request.device);
    let devices = a.state.devices;
    let at = lists::place(devices, p);
    lists::lemma_place(devices, p);
    assert forall|i: int| 0 <= i < at implies !q(#[trigger] s.devices[i]) by {
        assert(s.devices[i] == devices[i]);
        assert(!p(devices[i]));
    }
    assert(s.devices[at] == device);
    lists::lemma_place_is(s.devices, q, at);
    lemma_name_is_found(
        a.state.endpoint_aliases,
        pending.node_id,
        pending.endpoints,
        k,
        request.endpoint,
    );
}

/// What names resolve to does not change when the state is stored and loaded again: the same device
/// and the same endpoint are found, or the same names are missing.
pub proof fn stored_names_resolve(s: AppStateView, request: RequestView)
    ensures
        state::stored_state(state::saved_text(s)) matches Ok(t) && match (
            invoker::resolved(s, request),
            invoker::resolved(t, request),
        ) {
            (Ok((d, a)), Ok((e, b))) => e == state_laws::device_back(d) && b
                == state_laws::alias_back(a),
            (Err(e), Err(f)) => e == f,
            _ => false,
        },
{
    state_laws::stored_state_loads(s);
    let t = state_laws::state_back(s);
    let p = |d: KnownDeviceView| invoker::names_match(d.label, request.device);
    let i = invoker::device_place(s.devices, request.device);
    lists::lemma_place(s.devices, p);
    assert forall|j: int| 0 <= j < i implies !p(#[trigger] t.devices[j]) by {
        assert(t.devices[j] == state_laws::device_back(s.devices[j]));
        assert(!p(s.devices[j]));
    }
    if i < s.devices.len() {
        assert(t.devices[i] == state_laws::device_back(s.devices[i]));
        assert(p(s.devices[i]));
    }
    lists::lemma_place_is(t.devices, p, i);
    if i < s.devices.len() {
        let node_id = s.devices[i].node_id;
        let q = |a: EndpointAliasView|
            a.node_id == node_id && invoker::names_match(a.label, request.endpoint);
        let k = invoker::alias_place(s.endpoint_aliases, node_id, request.endpoint);
        lists::lemma_place(s.endpoint_aliases, q);
        assert forall|j: int| 0 <= j < s.endpoint_aliases.len() implies q(
            #[trigger] t.endpoint_aliases[j],
        ) == q(s.endpoint_aliases[j]) by {
            let label = s.endpoint_aliases[j].label;
            assert(t.endpoint_aliases[j] == state_laws::alias_back(s.endpoint_aliases[j]));
            if label.len() > 0 && label.last() == '\r' {
                text::trimmed_without_last_space(label);
            }
        }
        assert forall|j: int| 0 <= j < k implies !q(#[trigger] t.endpoint_aliases[j]) by {
            assert(!q(s.endpoint_aliases[j]));
        }
        lists::lemma_place_is(t.endpoint_aliases, q, k);
        if k < s.endpoint_aliases.len() {
            assert(t.endpoint_aliases[k] == state_laws::alias_back(s.endpoint_aliases[k]));
        }
    }
}

} // verus!
