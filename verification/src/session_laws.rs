//! What the calls of the client come to, one after the other.

use crate::app::{result_view, App, Saved, Sent, Step};
use crate::app_model::{AppError, AppView, KeyCode, SentView, StepView, Turn};
use crate::flow_laws;
use crate::flow_laws::{selected, selects_endpoint, selects_waiting};
use crate::number;
use crate::setup_code;
use crate::setup_code_laws;
use crate::state;
use crate::state::{AppState, KnownDevice};
use crate::types::{
    CommissionableDevice, CommissionedDevice, EndpointSummary, InputDialogView, ModalView,
    PendingTask, PendingTaskView, Screen, ScreenView,
};
use crate::ui_laws;
use crate::utils;
use vstd::prelude::*;

verus! {

/// The client with another text in the dialog that is open.
pub open spec fn with_typed<C>(a: AppView<C>, value: Seq<char>) -> AppView<C> {
    match a.modal {
        Some(ModalView::Input(d)) => AppView {
            modal: Some(ModalView::Input(InputDialogView { value, ..d })),
            ..a
        },
        _ => a,
    }
}

/// After `c`, a text and Enter, the task that is run orders the device that was selected, by its name
/// and at its address, with the passcode of the text.
pub proof fn order_is_for_the_selected_device<C>(
    asking: &mut App<C>,
    typed: Seq<char>,
    answering: &mut App<C>,
    running: &mut App<C>,
    invokes: &Vec<u32>,
    asked: Result<Step<C>, AppError>,
    answered: Result<Step<C>, AppError>,
    r: Result<Step<C>, AppError>,
)
    requires
        selects_waiting(old(asking).deep_view()),
        state::has_free_id(old(asking).deep_view().state.devices),
        call_ensures(App::<C>::on_key_with, (asking, true, KeyCode::Char('c'), invokes), asked),
        old(answering).deep_view() == with_typed(final(asking).deep_view(), typed),
        call_ensures(App::<C>::on_key_with, (answering, true, KeyCode::Enter, invokes), answered),
        *old(running) == *final(answering),
        call_ensures(App::<C>::run_pending_task, (running,), r),
    ensures
        ({
            let a = old(asking).deep_view();
            let device = a.commissionable[a.selected_commissionable as int];
            match setup_code::setup_passcode(typed) {
                Err(e) => r == Err::<Step<C>, AppError>(AppError::SetupCode(e)),
                Ok(passcode) => r matches Ok(Step::Commission(order)) && {
                    &&& order.display_name@ == device.display_name
                    &&& order.address@ == utils::socket_text(
                        utils::preferred(device.addresses),
                        device.port,
                    )
                    &&& order.pin == passcode
                },
            }
        }),
{
    let a = old(asking).deep_view();
    setup_code::outer_space_does_not_matter(typed);
    setup_code_laws::passcode_fits(typed);
}

/// The task that switches an endpoint, and the one that invokes an action on it, are sent to the id of
/// the endpoint that stands at the place that the task names.
pub proof fn endpoint_tasks_go_to_their_endpoint<C>(
    app: &mut App<C>,
    index: usize,
    r: Result<Step<C>, AppError>,
)
    requires
        old(app).screen matches Screen::Manage(m) && index < m.endpoints@.len(),
        match old(app).pending_task {
            Some(PendingTask::EndpointOn { endpoint_index }) => endpoint_index == index,
            Some(PendingTask::EndpointOff { endpoint_index }) => endpoint_index == index,
            Some(
                PendingTask::InvokeAction { endpoint_index, command_id, payload, label },
            ) => endpoint_index == index,
            _ => false,
        },
        call_ensures(App::<C>::run_pending_task, (app,), r),
    ensures
        r matches Ok(Step::Invoke { invocation, sent }) && {
            &&& invocation.endpoint == old(app).screen->Manage_0.endpoints@[index as int].id
            &&& match old(app).pending_task {
                Some(PendingTask::EndpointOn { endpoint_index }) => {
                    &&& invocation.cluster == 6
                    &&& invocation.command == 1
                    &&& invocation.payload@.len() == 0
                    &&& sent == (Sent::On { endpoint: invocation.endpoint })
                },
                Some(PendingTask::EndpointOff { endpoint_index }) => {
                    &&& invocation.cluster == 6
                    &&& invocation.command == 0
                    &&& invocation.payload@.len() == 0
                    &&& sent == (Sent::Off { endpoint: invocation.endpoint })
                },
                Some(PendingTask::InvokeAction { endpoint_index, command_id, payload, label }) => {
                    &&& invocation.cluster == 37
                    &&& invocation.command == command_id
                    &&& invocation.payload@ == payload@
                },
                _ => true,
            }
        },
{
    let a = old(app).deep_view();
    let m = old(app).screen->Manage_0;
    assert(m.endpoints.deep_view()[index as int] == m.endpoints@[index as int].deep_view());
}

/// A task that names an endpoint or a device that is not there is an error, and nothing is sent.
pub proof fn tasks_for_nothing_fail<C>(
    app: &mut App<C>,
    index: usize,
    r: Result<Step<C>, AppError>,
)
    requires
        call_ensures(App::<C>::run_pending_task, (app,), r),
    ensures
        old(app).deep_view().screen matches ScreenView::Manage(m) ==> index >= m.endpoints.len()
            ==> match old(app).deep_view().pending_task {
            Some(PendingTaskView::EndpointOn { endpoint_index }) => endpoint_index == index ==> r
                == Err::<Step<C>, AppError>(AppError::EndpointNotFound),
            Some(PendingTaskView::EndpointOff { endpoint_index }) => endpoint_index == index ==> r
                == Err::<Step<C>, AppError>(AppError::EndpointNotFound),
            Some(
                PendingTaskView::InvokeAction { endpoint_index, command_id, payload, label },
            ) => endpoint_index == index ==> r == Err::<Step<C>, AppError>(
                AppError::EndpointNotFound,
            ),
            _ => true,
        },
        old(app).deep_view().pending_task matches Some(
            PendingTaskView::StartCommission { device_index, setup_code },
        ) ==> device_index >= old(app).deep_view().commissionable.len() ==> r is Err,
{
    assert(result_view(r) is Err ==> r is Err);
}

/// Running a task changes neither what is remembered nor what is listed, selected and shown, and
/// leaves no task behind.
pub proof fn running_a_task_changes_no_list<C>(app: &mut App<C>, r: Result<Step<C>, AppError>)
    requires
        call_ensures(App::<C>::run_pending_task, (app,), r),
    ensures
        ({
            let a = old(app).deep_view();
            let b = final(app).deep_view();
            &&& b.pending_task is None
            &&& b.state == a.state
            &&& b.screen == a.screen
            &&& b.focus == a.focus
            &&& b.commissionable == a.commissionable
            &&& b.commissioned == a.commissioned
            &&& b.selected_commissionable == a.selected_commissionable
            &&& b.selected_commissioned == a.selected_commissioned
            &&& b.quit == a.quit
        }),
{
}

/// A device is ordered exactly when an id for a new device is needed.
pub proof fn ids_are_needed_for_orders<C>(
    app: &mut App<C>,
    needed: bool,
    r: Result<Step<C>, AppError>,
)
    requires
        call_ensures(App::<C>::needs_node_id, (old(app),), needed),
        call_ensures(App::<C>::run_pending_task, (app,), r),
    ensures
        needed <==> r matches Ok(Step::Commission(order)),
{
    if let Ok(step) = r {
        assert(result_view(r) == Ok::<StepView<C>, AppError>(step.deep_view()));
    }
}

/// The other keys do nothing: not on the overview, not on the screen of a device, and not in a
/// dialog.
pub proof fn other_keys_do_nothing<C>(
    app: &mut App<C>,
    key: KeyCode,
    invokes: &Vec<u32>,
    r: Result<Step<C>, AppError>,
)
    requires
        call_ensures(App::<C>::on_key_with, (app, true, key, invokes), r),
        match old(app).deep_view().modal {
            None => match old(app).deep_view().screen {
                ScreenView::Overview => !is_arrow(key) && key != KeyCode::Enter && key
                    != KeyCode::Tab && key != KeyCode::Char('q') && key != KeyCode::Char('r') && key
                    != KeyCode::Char('c') && key != KeyCode::Char('m'),
                ScreenView::Manage(m) => key != KeyCode::Up && key != KeyCode::Down && key
                    != KeyCode::Esc && key != KeyCode::Char('b') && key != KeyCode::Char('o') && key
                    != KeyCode::Char('p') && key != KeyCode::Char('n') && key != KeyCode::Char('f')
                    && key != KeyCode::Char('a') && key != KeyCode::Char('d'),
            },
            Some(ModalView::Message(message)) => key != KeyCode::Enter && key != KeyCode::Esc,
            Some(ModalView::Confirm(d)) => key != KeyCode::Esc && key != KeyCode::Char('y') && key
                != KeyCode::Char('n'),
            Some(ModalView::Action(d)) => key != KeyCode::Up && key != KeyCode::Down && key
                != KeyCode::Esc && key != KeyCode::Enter,
            Some(_) => key != KeyCode::Esc && key != KeyCode::Enter && key != KeyCode::Backspace
                && !(key is Char),
        },
    ensures
        final(app).deep_view() == old(app).deep_view(),
        r == Ok::<Step<C>, AppError>(Step::Done),
{
    let a = old(app).deep_view();
    assert(result_view(r) == Ok::<StepView<C>, AppError>(StepView::Done));
    assert(final(app).deep_view() =~= a);
}

/// Whether a key is an arrow.
pub open spec fn is_arrow(key: KeyCode) -> bool {
    key == KeyCode::Up || key == KeyCode::Down || key == KeyCode::Left || key == KeyCode::Right
}

/// The keys that do something with what is selected do nothing where nothing is selected.
pub proof fn nothing_is_done_with_nothing<C>(
    app: &mut App<C>,
    key: KeyCode,
    invokes: &Vec<u32>,
    r: Result<Step<C>, AppError>,
)
    requires
        call_ensures(App::<C>::on_key_with, (app, true, key, invokes), r),
        old(app).deep_view().modal is None,
        match old(app).deep_view().screen {
            ScreenView::Overview => {
                ||| key == KeyCode::Char('c') && (old(app).focus is Commissioned
                    || old(app).commissionable@.len() == 0)
                ||| (key == KeyCode::Enter || key == KeyCode::Char('m')) && (
                old(app).focus is Commissionable || old(app).commissioned@.len() == 0)
            },
            ScreenView::Manage(m) => m.selected_endpoint >= m.endpoints.len() && (key
                == KeyCode::Char('o') || key == KeyCode::Char('p') || key == KeyCode::Char('n')
                || key == KeyCode::Char('a')),
        },
    ensures
        final(app).deep_view() == old(app).deep_view(),
        r == Ok::<Step<C>, AppError>(Step::Done),
{
    assert(old(app).deep_view().commissionable.len() == old(app).commissionable@.len());
    assert(old(app).deep_view().commissioned.len() == old(app).commissioned@.len());
    assert(result_view(r) == Ok::<StepView<C>, AppError>(StepView::Done));
}

/// The client starts on the overview, with what is remembered and nothing else, and waits for a key.
pub proof fn client_starts_idle<C>(state: AppState, app: App<C>, turn: Turn)
    requires
        call_ensures(App::<C>::new, (state,), app),
        call_ensures(App::<C>::turn, (&app,), turn),
    ensures
        app.deep_view().state == state.deep_view(),
        app.screen is Overview,
        app.commissionable@.len() == 0,
        app.commissioned@.len() == 0,
        app.modal is None,
        app.focus is Commissionable,
        turn is WaitForKey,
{
    assert(app.deep_view().commissionable.len() == app.commissionable@.len());
    assert(app.deep_view().commissioned.len() == app.commissioned@.len());
    assert(app.deep_view().modal is None ==> app.modal is None);
    assert(app.deep_view().screen is Overview ==> app.screen is Overview);
}

/// A client that has been told to end ends; a task that has been queued is run next otherwise, and
/// is announced until then.
pub proof fn queued_task_is_next<C>(
    app: &mut App<C>,
    task: PendingTask<C>,
    message: &str,
    turn: Turn,
)
    requires
        call_ensures(App::<C>::queue_task, (app, task, message), ()),
        call_ensures(App::<C>::turn, (final(app),), turn),
    ensures
        final(app).deep_view().pending_task == Some(task.deep_view()),
        final(app).status@ == message@,
        final(app).status_kind is Progress,
        final(app).deep_view().modal == Some(ModalView::<C>::Message(message@)),
        final(app).deep_view().state == old(app).deep_view().state,
        final(app).deep_view().screen == old(app).deep_view().screen,
        old(app).quit <==> turn is Quit,
        !old(app).quit <==> turn is RunTask,
{
}

/// The dialogs offer what is there so far: the one that renames an endpoint its name, or its types
/// where it has none; the one for the label of the fabric that label; and the one for a setup code
/// nothing.
pub proof fn dialogs_offer_what_is_there<C>(
    app: &mut App<C>,
    key: KeyCode,
    invokes: &Vec<u32>,
    r: Result<Step<C>, AppError>,
)
    requires
        call_ensures(App::<C>::on_key_with, (app, true, key, invokes), r),
        key == KeyCode::Char('n') && selects_endpoint(old(app).deep_view()) || key
            == KeyCode::Char('f') && old(app).deep_view().screen is Manage
            && old(app).deep_view().modal is None || key == KeyCode::Char('c') && selects_waiting(
            old(app).deep_view(),
        ),
    ensures
        final(app).deep_view().modal matches Some(ModalView::Input(d)) && {
            let a = old(app).deep_view();
            &&& key == KeyCode::Char('f') ==> d.value == a.state.fabric_label
            &&& key == KeyCode::Char('c') ==> d.value.len() == 0
            &&& key == KeyCode::Char('n') ==> {
                &&& selected(a).label matches Some(label) ==> d.value == label
                &&& selected(a).label is None && selected(a).device_types.len() > 0 ==> d.value
                    == ui_laws::listed(selected(a).device_types)
                &&& selected(a).label is None && selected(a).device_types.len() == 0 ==> d.value
                    == "unknown type"@
            }
        },
        r == Ok::<Step<C>, AppError>(Step::Done),
{
    let a = old(app).deep_view();
    assert(result_view(r) == Ok::<StepView<C>, AppError>(StepView::Done));
    if key == KeyCode::Char('n') && selected(a).device_types.len() > 0 {
        ui_laws::lemma_listed(selected(a).device_types);
    }
}

/// A command that has been sent is confirmed with the endpoint that it was sent to.
pub proof fn sent_commands_are_confirmed<C>(app: &mut App<C>, what: Sent, r: Step<C>)
    requires
        call_ensures(App::<C>::sent, (app, what), r),
    ensures
        match what {
            Sent::On { endpoint } => final(app).status@ == "Sent On to endpoint "@
                + number::decimal_text(endpoint as nat) + "."@ && final(app).status_kind is Success
                && r is Done,
            Sent::Off { endpoint } => final(app).status@ == "Sent Off to endpoint "@
                + number::decimal_text(endpoint as nat) + "."@ && final(app).status_kind is Success
                && r is Done,
            Sent::Action { endpoint, label } => final(app).status@ == "Sent \""@ + label@
                + "\" to endpoint "@ + number::decimal_text(endpoint as nat) + "."@
                && final(app).status_kind is Success && r is Done,
            Sent::FabricLabel { label } => {
                &&& final(app).state.fabric_label@ == label@
                &&& r is Save
                &&& final(app).deep_view().state.devices == old(app).deep_view().state.devices
            },
            Sent::RemoveFabric { node_id, label } => r is Save,
        },
        final(app).deep_view().screen == old(app).deep_view().screen,
{
    let a = final(app).deep_view();
    assert(a.status == final(app).status@);
    assert(a.state.fabric_label == final(app).state.fabric_label@);
    assert(r.deep_view() is Done ==> r is Done);
    assert(r.deep_view() is Save ==> r is Save);
}

/// Once a state has been stored, the client says what for. After a device has been commissioned or
/// decommissioned it scans anew, and a device that has been decommissioned is no longer shown.
pub proof fn stored_state_is_confirmed<C>(app: &mut App<C>, what: Saved, r: Step<C>)
    requires
        call_ensures(App::<C>::saved, (app, what), r),
    ensures
        match what {
            Saved::EndpointLabel { endpoint } => final(app).status@ == "Saved endpoint "@
                + number::decimal_text(endpoint as nat) + " label."@ && r is Done,
            Saved::FabricLabel => final(app).status@ == "Fabric label updated."@ && r is Done,
            Saved::Decommissioned { label } => r is Scan && final(app).deep_view().screen
                is Overview,
            Saved::Commissioned { label, node_id } => r is Scan && final(app).deep_view().screen
                == old(app).deep_view().screen,
        },
        final(app).deep_view().state == old(app).deep_view().state,
        r is Done ==> final(app).status_kind is Success,
        r is Scan ==> final(app).status_kind is Progress,
{
    let a = final(app).deep_view();
    assert(a.status == final(app).status@);
    assert(r.deep_view() is Done <==> r is Done);
    assert(r.deep_view() is Scan <==> r is Scan);
}

/// The title of the dialog that is open, if it has one.
pub open spec fn dialog_title<C>(a: AppView<C>) -> Option<Seq<char>> {
    match a.modal {
        Some(ModalView::Input(d)) => Some(d.title),
        Some(ModalView::Confirm(d)) => Some(d.title),
        Some(ModalView::Action(d)) => Some(d.title),
        _ => None,
    }
}

/// A dialog says what it is for: which endpoint is renamed, or whose actions are offered. Where an
/// endpoint has no actions, that is said of this endpoint.
pub proof fn dialogs_say_what_they_are_for<C>(
    app: &mut App<C>,
    key: KeyCode,
    invokes: &Vec<u32>,
    r: Result<Step<C>, AppError>,
)
    requires
        call_ensures(App::<C>::on_key_with, (app, true, key, invokes), r),
        selects_endpoint(old(app).deep_view()),
        r is Ok,
    ensures
        ({
            let e = selected(old(app).deep_view());
            let id = number::decimal_text(e.id as nat);
            let b = final(app).deep_view();
            &&& key == KeyCode::Char('n') ==> dialog_title(b) == Some("Rename Endpoint "@ + id)
            &&& key == KeyCode::Char('f') ==> dialog_title(b) == Some("Update Fabric Label"@)
            &&& key == KeyCode::Char('d') ==> dialog_title(b) == Some("Decommission Device"@)
            &&& key == KeyCode::Char('a') && e.actions.len() > 0 ==> dialog_title(b) == Some(
                "Endpoint "@ + id + " Actions"@,
            )
            &&& key == KeyCode::Char('a') && e.actions.len() == 0 ==> b.modal is None && b.status
                == "Endpoint "@ + id + " has no Actions cluster entries."@
            &&& key == KeyCode::Char('o') && e.has_on_off ==> b.status == "Sending On to endpoint "@
                + id + "..."@
            &&& key == KeyCode::Char('p') && e.has_on_off ==> b.status
                == "Sending Off to endpoint "@ + id + "..."@
        }),
{
    assert(result_view(r) is Ok);
}

/// A message that has been read stands in the status. A dialog that has been canceled is said to
/// have been canceled.
pub proof fn closed_dialogs_leave_a_status<C>(
    app: &mut App<C>,
    key: KeyCode,
    invokes: &Vec<u32>,
    r: Result<Step<C>, AppError>,
)
    requires
        call_ensures(App::<C>::on_key_with, (app, true, key, invokes), r),
        old(app).deep_view().modal is Some,
        key == KeyCode::Esc,
    ensures
        final(app).deep_view().modal is None,
        final(app).status@ == match old(app).deep_view().modal->0 {
            ModalView::Message(message) => message,
            ModalView::Input(_) | ModalView::Confirm(_) | ModalView::Action(_) => "Canceled."@,
            _ => "Commissioning canceled."@,
        },
        r == Ok::<Step<C>, AppError>(Step::Done),
{
    assert(result_view(r) == Ok::<StepView<C>, AppError>(StepView::Done));
    assert(final(app).deep_view().status == final(app).status@);
}

/// After a scan the client says how many devices of each kind have been found.
pub proof fn found_devices_are_counted<C>(
    app: &mut App<C>,
    waiting: Vec<CommissionableDevice>,
    commissioned: Vec<CommissionedDevice>,
)
    requires
        call_ensures(App::<C>::refresh_scan, (app, Ok((waiting, commissioned))), ()),
    ensures
        final(app).status@ == "Found "@ + number::decimal_text(waiting@.len())
            + " commissionable and "@ + number::decimal_text(commissioned@.len())
            + " commissioned device(s)."@,
        final(app).deep_view().commissionable == waiting.deep_view(),
        final(app).deep_view().commissioned == commissioned.deep_view(),
        final(app).deep_view().screen == old(app).deep_view().screen,
{
    assert(final(app).deep_view().status == final(app).status@);
    assert(waiting.deep_view().len() == waiting@.len());
    assert(commissioned.deep_view().len() == commissioned@.len());
}

/// Every task leads to the outside work that it is for. The one that ends commissioning writes the
/// label that was chosen to the device that was commissioned.
pub proof fn tasks_lead_to_their_work<C>(app: &mut App<C>, r: Result<Step<C>, AppError>)
    requires
        call_ensures(App::<C>::run_pending_task, (app,), r),
    ensures
        match old(app).deep_view().pending_task {
            None => r == Ok::<Step<C>, AppError>(Step::Done) && final(app).deep_view() == old(
                app,
            ).deep_view(),
            Some(PendingTaskView::RefreshScan) => r == Ok::<Step<C>, AppError>(Step::Scan),
            Some(PendingTaskView::RefreshEndpoints) => r == Ok::<Step<C>, AppError>(
                if old(app).deep_view().screen is Manage {
                    Step::Reload
                } else {
                    Step::Done
                },
            ),
            Some(PendingTaskView::Decommission) => r == Ok::<Step<C>, AppError>(
                if old(app).deep_view().screen is Manage {
                    Step::ReadFabricIndex
                } else {
                    Step::Done
                },
            ),
            Some(PendingTaskView::FinishCommission(due)) => r matches Ok(
                Step::Finish { pending, invocation },
            ) && {
                &&& pending.deep_view() == due
                &&& invocation.endpoint == 0
                &&& invocation.cluster == 62
                &&& invocation.command == 9
                &&& invocation.payload@.skip(3) == vstd::utf8::encode_utf8(due.fabric_label)
            },
            Some(PendingTaskView::ChangeFabricLabel { label }) => old(app).deep_view().screen
                is Manage ==> (r matches Ok(Step::Invoke { invocation, sent }) && {
                &&& invocation.endpoint == 0
                &&& invocation.cluster == 62
                &&& invocation.command == 9
                &&& invocation.payload@.skip(3) == vstd::utf8::encode_utf8(label)
                &&& sent.deep_view() == (SentView::FabricLabel { label })
            }),
            _ => true,
        },
{
    if let Ok(step) = r {
        assert(result_view(r) == Ok::<StepView<C>, AppError>(step.deep_view()));
        if let Step::Finish { pending, invocation } = step {
            let bytes = vstd::utf8::encode_utf8(pending.deep_view().fabric_label);
            assert(invocation.deep_view().payload.skip(3) =~= bytes);
        }
        if let Step::Invoke { invocation, sent } = step {
            if let SentView::FabricLabel { label } = sent.deep_view() {
                let bytes = vstd::utf8::encode_utf8(label);
                assert(invocation.deep_view().payload.skip(3) =~= bytes);
            }
        }
    }
}

/// A device that has been opened is shown with its connection, with its first endpoint selected, and
/// as read just now.
pub proof fn opened_device_is_managed<C>(
    app: &mut App<C>,
    device: KnownDevice,
    connection: C,
    endpoints: Vec<EndpointSummary>,
    now: u64,
)
    requires
        call_ensures(App::<C>::device_opened, (app, device, connection, endpoints, now), ()),
    ensures
        final(app).deep_view().screen matches ScreenView::Manage(m) && {
            &&& m.device == device.deep_view()
            &&& m.connection == connection
            &&& m.selected_endpoint == 0
            &&& m.last_endpoint_refresh == now
            &&& m.endpoints.len() == endpoints@.len()
            &&& forall|i: int|
                0 <= i < endpoints@.len() ==> (#[trigger] m.endpoints[i]).id == endpoints@[i].id
        },
        final(app).deep_view().state == old(app).deep_view().state,
{
    let m = final(app).deep_view().screen->Manage_0;
    let given = endpoints.deep_view();
    assert(given.len() == endpoints@.len());
    flow_laws::opened_device_is_shown(
        old(app).deep_view(),
        device.deep_view(),
        connection,
        given,
        now,
    );
    assert forall|i: int| 0 <= i < endpoints@.len() implies (#[trigger] m.endpoints[i]).id
        == endpoints@[i].id by {
        assert(given[i] == endpoints@[i].deep_view());
    }
}

/// A device that has been read anew is still the same, and counts as read just now.
pub proof fn reloaded_device_stays<C>(app: &mut App<C>, endpoints: Vec<EndpointSummary>, now: u64)
    requires
        old(app).deep_view().screen is Manage,
        call_ensures(App::<C>::endpoints_reloaded, (app, endpoints, now), ()),
    ensures
        final(app).deep_view().screen matches ScreenView::Manage(m) && {
            let before = old(app).deep_view().screen->Manage_0;
            &&& m.device == before.device
            &&& m.connection == before.connection
            &&& m.last_endpoint_refresh == now
            &&& m.endpoints.len() == endpoints@.len()
            &&& before.selected_endpoint < endpoints@.len() ==> m.selected_endpoint
                == before.selected_endpoint
        },
        final(app).deep_view().state == old(app).deep_view().state,
        final(app).deep_view().status == old(app).deep_view().status,
{
    assert(endpoints.deep_view().len() == endpoints@.len());
}

} // verus!
