//! The two-element result shape the surrounding call boundary expects:
//! a boolean failure flag rendered as text, then the payload.

use vstd::prelude::*;

verus! {

/// Packs a result for the call boundary: the failure flag as `"true"`
/// or `"false"`, then the payload or message.
pub fn create_response_vector(error: bool, data: String) -> (r: Vec<String>)
    ensures
        r@.len() == 2,
        r@[0]@ == if error {
            "true"@
        } else {
            "false"@
        },
        r@[1] == data,
{
    let flag = if error {
        String::from_str("true")
    } else {
        String::from_str("false")
    };
    let mut r: Vec<String> = Vec::new();
    r.push(flag);
    r.push(data);
    r
}

/// The answer to a network switch: which network is now in use.
pub fn switch_network_response(use_testnet: bool) -> (r: Vec<String>)
    ensures
        r@.len() == 2,
        r@[0]@ == "false"@,
        r@[1]@ == if use_testnet {
            "Switched to testnet network"@
        } else {
            "Switched to default network"@
        },
{
    let message = if use_testnet {
        String::from_str("Switched to testnet network")
    } else {
        String::from_str("Switched to default network")
    };
    create_response_vector(false, message)
}

} // verus!
