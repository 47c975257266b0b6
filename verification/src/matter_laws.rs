//! What is asked of devices, and with whose credentials.

use crate::endpoints::{EndpointLoad, TlvValue};
use crate::matter;
use crate::matter::{AttributePath, CommissionOrder, CredentialStep, Invocation, MatterError};
use crate::number;
use crate::number_laws;
use crate::state;
use crate::state::AppState;
use crate::types::{CommissionableDevice, PendingCommission};
use crate::utils;
use vstd::prelude::*;

verus! {

// Invocations

/// Invocations that are made at different times have different ids, unless 49 days or more lie
/// between them.
pub proof fn invocations_are_told_apart(a: u128, b: u128, r: u32, s: u32)
    requires
        a < b < a + 0x1_0000_0000,
        call_ensures(matter::invoke_id_at, (Some(a),), r),
        call_ensures(matter::invoke_id_at, (Some(b),), s),
    ensures
        r != s,
        s - r == b - a || s + 0x1_0000_0000 - r == b - a,
        a < 0x1_0000_0000 ==> r == a,
{
}

/// A label for the fabric is written to the operational credentials of the root endpoint, as text
/// behind its length.
pub proof fn label_is_written(label: &str, r: Result<Invocation, MatterError>)
    requires
        call_ensures(matter::update_fabric_label, (label,), r),
    ensures
        r matches Ok(i) && {
            let bytes = vstd::utf8::encode_utf8(label@);
            &&& i.endpoint == 0
            &&& i.cluster == 62
            &&& i.command == 9
            &&& i.payload@.len() == 3 + bytes.len()
            &&& i.payload@.skip(3) == bytes
            &&& bytes.len() < 256 ==> i.payload@[2] == bytes.len()
            &&& i.payload@[0] == 44
            &&& i.payload@[1] == 0
        },
{
    let i = r->Ok_0.deep_view();
    let bytes = vstd::utf8::encode_utf8(label@);
    assert(i.payload.skip(3) =~= bytes);
}

/// The fabric that is removed is the one whose index has been read, from the place where a device
/// tells on which of its fabrics it is being asked.
pub proof fn own_fabric_is_removed(
    asked: AttributePath,
    answer: TlvValue,
    r: Result<Invocation, MatterError>,
)
    requires
        call_ensures(matter::current_fabric_index, (), asked),
        call_ensures(matter::decommission_device, (&answer,), r),
    ensures
        asked.endpoint == 0,
        asked.cluster == 62,
        asked.attribute == 5,
        answer matches TlvValue::Int(n) ==> (r matches Ok(i) && {
            &&& i.endpoint == asked.endpoint
            &&& i.cluster == asked.cluster
            &&& i.command == 10
            &&& i.payload@.len() == 3
            &&& i.payload@[0] == 36
            &&& i.payload@[1] == 0
            &&& n < 256 ==> i.payload@[2] == n
        }),
        !(answer is Int) ==> r == Err::<Invocation, MatterError>(
            MatterError::FabricIndexNotAnInteger,
        ),
{
    if let Ok(i) = r {
        assert(i.deep_view().payload == i.payload@);
    }
}

// Credentials

/// The credentials are ready exactly when all that they consist of is there, and a user is created
/// only where there is a place for it.
pub proof fn credentials_are_complete(
    has_directory: bool,
    has_certificate: bool,
    has_key: bool,
    r: CredentialStep,
)
    requires
        call_ensures(
            matter::ensure_credentials,
            (has_directory, has_certificate, has_key),
            r,
        ),
    ensures
        r is Ready <==> has_directory && has_certificate && has_key,
        r is Bootstrap <==> !has_directory,
        r is CreateUser ==> has_directory && !(has_certificate && has_key),
{
}

/// The files of a controller lie in the directory of the credentials and are named after it, so that
/// two controllers share none.
pub proof fn controllers_share_no_file(
    a: u64,
    b: u64,
    directory: String,
    of_a: (String, String),
    of_b: (String, String),
)
    requires
        a != b,
        call_ensures(matter::cert_path, (), directory),
        call_ensures(matter::credential_files, (a,), of_a),
        call_ensures(matter::credential_files, (b,), of_b),
    ensures
        of_a.0@ == directory@ + "/"@ + number::decimal_text(a as nat) + "-cert.pem"@,
        of_a.1@ == directory@ + "/"@ + number::decimal_text(a as nat) + "-private.pem"@,
        of_a.0@ != of_b.0@,
        of_a.1@ != of_b.1@,
{
    lemma_named_apart(directory@ + "/"@, a, b, "-cert.pem"@);
    lemma_named_apart(directory@ + "/"@, a, b, "-private.pem"@);
}

proof fn lemma_named_apart(front: Seq<char>, a: u64, b: u64, back: Seq<char>)
    requires
        a != b,
    ensures
        front + number::decimal_text(a as nat) + back != front + number::decimal_text(b as nat)
            + back,
{
    let x = number::decimal_text(a as nat);
    let y = number::decimal_text(b as nat);
    let s = front + x + back;
    let t = front + y + back;
    let n = front.len() as int;
    if s == t {
        assert(s.len() == t.len());
        assert(s.subrange(n, n + x.len()) =~= x);
        assert(t.subrange(n, n + y.len()) =~= y);
        number_laws::decimal_stands_for_the_number(a as nat);
        number_laws::decimal_stands_for_the_number(b as nat);
    }
}

// Commissioning

/// The order to commission a device carries its name and its address, the passcode that was given,
/// an id above all that are known, and the controller and the fabric of this client.
pub proof fn order_is_for_the_device(
    s: &AppState,
    device: &CommissionableDevice,
    pin: u32,
    r: CommissionOrder,
    address: String,
)
    requires
        state::has_free_id(s.deep_view().devices),
        call_ensures(matter::start_commission, (s, device, pin), r),
        call_ensures(utils::first_socket_addr, (&device.addresses, device.port), address),
    ensures
        r.pin == pin,
        r.display_name@ == device.display_name@,
        r.address@ == address@,
        r.controller_id == s.controller_id,
        r.fabric_label@ == s.fabric_label@,
        forall|i: int| 0 <= i < s.devices@.len() ==> (#[trigger] s.devices@[i]).node_id < r.node_id,
        s.devices@.len() == 0 ==> r.node_id == 4097,
{
    let devices = s.devices.deep_view();
    state::next_id_is_fresh(devices);
    assert(devices.len() == s.devices@.len());
    lemma_next_id_fits(s);
    assert forall|i: int| 0 <= i < s.devices@.len() implies (#[trigger] s.devices@[i]).node_id
        < r.node_id by {
        assert(devices[i] == s.devices@[i].deep_view());
    }
    assert(r.deep_view().display_name == r.display_name@);
}

proof fn lemma_next_id_fits(s: &AppState)
    requires
        state::has_free_id(s.deep_view().devices),
    ensures
        0 <= state::next_id(s.deep_view().devices) <= u64::MAX,
{
    state::next_id_is_fresh(s.deep_view().devices);
}

/// A device that has been commissioned keeps what it was ordered with, and has the endpoints that
/// were read of it.
pub proof fn commissioned_device_keeps_its_order<C>(
    order: CommissionOrder,
    connection: C,
    load: EndpointLoad,
    r: PendingCommission<C>,
)
    requires
        call_ensures(matter::commissioned::<C>, (order, connection, load), r),
    ensures
        r.node_id == order.node_id,
        r.address@ == order.address@,
        r.fabric_label@ == order.fabric_label@,
        r.connection == connection,
        r.endpoints.deep_view() == load.deep_view().endpoints,
        load.deep_view().own_label is None ==> r.device_label@ == order.display_name@,
        load.deep_view().own_label matches Some(label) ==> r.device_label@ == label,
{
    let v = r.deep_view();
    assert(v.device_label == r.device_label@);
    assert(v.address == r.address@);
}

} // verus!
