//! What a device announces, as it is listed.

use crate::text::same_text;
use vstd::prelude::*;

verus! {

/// What the key of an announced property stands for, as it is listed behind the property.
pub open spec fn description(key: Seq<char>) -> Seq<char> {
    if key == "D"@ {
        " (Discriminator)"@
    } else if key == "V"@ {
        " (Vendor ID)"@
    } else if key == "P"@ {
        " (Product ID)"@
    } else if key == "CM"@ {
        " (Commissioning Mode)"@
    } else if key == "CRA"@ {
        " (Commissioning Rotating ID)"@
    } else if key == "T"@ {
        " (TCP Supported)"@
    } else {
        ""@
    }
}

/// What the key of an announced property stands for.
pub fn property_description(key: &str) -> (r: String)
    ensures
        r@ == description(key@),
{
    if same_text(key, "D") {
        " (Discriminator)".to_string()
    } else if same_text(key, "V") {
        " (Vendor ID)".to_string()
    } else if same_text(key, "P") {
        " (Product ID)".to_string()
    } else if same_text(key, "CM") {
        " (Commissioning Mode)".to_string()
    } else if same_text(key, "CRA") {
        " (Commissioning Rotating ID)".to_string()
    } else if same_text(key, "T") {
        " (TCP Supported)".to_string()
    } else {
        "".to_string()
    }
}

/// The line on which an announced property is listed.
pub fn property_line(key: &str, value: &str) -> (r: String)
    ensures
        r@ == "    - "@ + key@ + ": "@ + value@ + description(key@),
{
    let mut r: String = "    - ".to_string();
    r.append(key);
    r.append(": ");
    r.append(value);
    r.append(property_description(key).as_str());
    r
}

} // verus!
