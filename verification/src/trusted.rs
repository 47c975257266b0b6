//! Everything that this library believes without proof.

use crate::number;
use vstd::prelude::*;

verus! {

/// `String::push` of std: the given character is appended, the rest stays as it was.
pub assume_specification[ String::push ](s: &mut String, ch: char)
    ensures
        final(s)@ == old(s)@.push(ch),
;

/// `String::pop` of std: the last character leaves the string and is returned; on an empty
/// string nothing happens and there is nothing to return.
pub assume_specification[ String::pop ](s: &mut String) -> (r: Option<char>)
    ensures
        old(s)@.len() == 0 ==> r is None && final(s)@ == old(s)@,
        old(s)@.len() > 0 ==> r == Some(old(s)@.last()) && final(s)@ == old(s)@.drop_last(),
;

/// The error type of `anyhow`, which the crate `matc` reports its failures with.
#[verifier::external_type_specification]
#[verifier::external_body]
pub struct ExAnyhowError(anyhow::Error);

/// Whether every character is a decimal digit.
pub open spec fn all_digits(s: Seq<char>) -> bool {
    forall|i: int| 0 <= i < s.len() ==> '0' <= #[trigger] s[i] <= '9'
}

/// The number that a row of decimal digits stands for.
pub open spec fn digits_value(s: Seq<char>) -> nat
    decreases s.len(),
{
    if s.len() == 0 {
        0
    } else {
        digits_value(s.drop_last()) * 10 + (s.last() as nat - '0' as nat) as nat
    }
}

/// The passcode in a manual pairing code. Its lower fourteen bits come from the digits two to six,
/// the bits above them are the digits seven to ten.
pub open spec fn manual_passcode(code: Seq<char>) -> nat {
    digits_value(code.subrange(1, 6)) % 16384 + digits_value(code.subrange(6, 10)) * 16384
}

/// `matc::onboarding::decode_manual_pairing_code`, of which only the passcode is kept. On ten or
/// more digits it succeeds; the check digit and everything behind the tenth digit is not looked at.
/// Shorter codes, on which it panics, are left out.
#[verifier::external_body]
pub(crate) fn decode_manual_pairing_code(code: &str) -> (r: Result<u32, anyhow::Error>)
    requires
        code@.len() >= 10,
        all_digits(code@),
    ensures
        r is Ok,
        r->Ok_0 == manual_passcode(code@),
{
    matc::onboarding::decode_manual_pairing_code(code).map(|info| info.passcode)
}

/// The name that `matc::clusters::dt_names::get_device_type_name` has for a device type.
pub uninterp spec fn device_type_name(id: u32) -> Option<Seq<char>>;

/// `matc::clusters::dt_names::get_device_type_name`, a table from the ids of device types to their
/// names. That the id alone decides is all that is claimed; the entries of the table are not stated.
#[verifier::external_body]
pub(crate) fn get_device_type_name(id: u32) -> (r: Option<String>)
    ensures
        r.deep_view() == device_type_name(id),
{
    matc::clusters::dt_names::get_device_type_name(id).map(str::to_string)
}

/// The payload of a command on an action: the id of the action as field 0 in two bytes and, where
/// there is one, the id of the invocation as field 1 in four bytes. A field begins with a byte that
/// says what it is and with its tag.
pub open spec fn action_payload(action_id: u16, invoke_id: Option<u32>) -> Seq<u8> {
    let id = seq![0x25u8, 0u8] + number::low_bytes(action_id as nat, 2);
    match invoke_id {
        Some(invoke) => id + seq![0x26u8, 1u8] + number::low_bytes(invoke as nat, 4),
        None => id,
    }
}

/// The encoder of the command `InstantAction`: it succeeds, with the payload that every command on an
/// action has.
pub assume_specification[ matc::clusters::codec::actions_cluster::encode_instant_action ](
    action_id: u16,
    invoke_id: Option<u32>,
) -> (r: anyhow::Result<Vec<u8>>)
    ensures
        r is Ok,
        r->Ok_0@ == action_payload(action_id, invoke_id),
;

/// The encoder of the command `StartAction`: it succeeds, with the payload that every command on an
/// action has.
pub assume_specification[ matc::clusters::codec::actions_cluster::encode_start_action ](
    action_id: u16,
    invoke_id: Option<u32>,
) -> (r: anyhow::Result<Vec<u8>>)
    ensures
        r is Ok,
        r->Ok_0@ == action_payload(action_id, invoke_id),
;

/// The encoder of the command `StopAction`: it succeeds, with the payload that every command on an
/// action has.
pub assume_specification[ matc::clusters::codec::actions_cluster::encode_stop_action ](
    action_id: u16,
    invoke_id: Option<u32>,
) -> (r: anyhow::Result<Vec<u8>>)
    ensures
        r is Ok,
        r->Ok_0@ == action_payload(action_id, invoke_id),
;

/// The encoder of the command `PauseAction`: it succeeds, with the payload that every command on an
/// action has.
pub assume_specification[ matc::clusters::codec::actions_cluster::encode_pause_action ](
    action_id: u16,
    invoke_id: Option<u32>,
) -> (r: anyhow::Result<Vec<u8>>)
    ensures
        r is Ok,
        r->Ok_0@ == action_payload(action_id, invoke_id),
;

/// The encoder of the command `ResumeAction`: it succeeds, with the payload that every command on an
/// action has.
pub assume_specification[ matc::clusters::codec::actions_cluster::encode_resume_action ](
    action_id: u16,
    invoke_id: Option<u32>,
) -> (r: anyhow::Result<Vec<u8>>)
    ensures
        r is Ok,
        r->Ok_0@ == action_payload(action_id, invoke_id),
;

/// The encoder of the command `EnableAction`: it succeeds, with the payload that every command on an
/// action has.
pub assume_specification[ matc::clusters::codec::actions_cluster::encode_enable_action ](
    action_id: u16,
    invoke_id: Option<u32>,
) -> (r: anyhow::Result<Vec<u8>>)
    ensures
        r is Ok,
        r->Ok_0@ == action_payload(action_id, invoke_id),
;

/// The encoder of the command `DisableAction`: it succeeds, with the payload that every command on an
/// action has.
pub assume_specification[ matc::clusters::codec::actions_cluster::encode_disable_action ](
    action_id: u16,
    invoke_id: Option<u32>,
) -> (r: anyhow::Result<Vec<u8>>)
    ensures
        r is Ok,
        r->Ok_0@ == action_payload(action_id, invoke_id),
;

/// The payload of a command with a text as field 0: its length, of which only the lowest byte is
/// written, and its bytes.
pub open spec fn label_payload(label: Seq<char>) -> Seq<u8> {
    let bytes = vstd::utf8::encode_utf8(label);
    seq![0x2Cu8, 0u8, (bytes.len() % 256) as u8] + bytes
}

/// The encoder of the command `UpdateFabricLabel`: it succeeds, with the label as its only field.
pub assume_specification[ matc::clusters::codec::operational_credential_cluster::encode_update_fabric_label ](
    label: String,
) -> (r: anyhow::Result<Vec<u8>>)
    ensures
        r is Ok,
        r->Ok_0@ == label_payload(label@),
;

/// The encoder of the command `RemoveFabric`: it succeeds, with the index of the fabric as its only
/// field, in one byte.
pub assume_specification[ matc::clusters::codec::operational_credential_cluster::encode_remove_fabric ](
    fabric_index: u8,
) -> (r: anyhow::Result<Vec<u8>>)
    ensures
        r is Ok,
        r->Ok_0@ == seq![0x24u8, 0u8, fabric_index],
;

/// `std::time::SystemTime::elapsed` on the Unix epoch, in milliseconds; nothing where the clock
/// stands before the epoch. What the clock shows is not stated.
#[verifier::external_body]
pub(crate) fn millis_since_epoch() -> (r: Option<u128>) {
    std::time::UNIX_EPOCH.elapsed().ok().map(|d| d.as_millis())
}

} // verus!
