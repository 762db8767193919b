//! Reading pool identifiers: hexadecimal text, with or without a leading
//! `0x`, of forty digits for an address and sixty-four for a pool id.

use crate::messages::PoolIdentifier;
use crate::startup_coordinator::StartupError;
use crate::text::str_equals;
use vstd::prelude::*;
use vstd::slice::slice_subrange;
use vstd::string::StringExecFns;

verus! {

/// The error of the `hex` crate's decoding functions.
#[verifier::external_type_specification]
#[verifier::external_body]
pub struct ExFromHexError(hex::FromHexError);

/// The value of a hexadecimal digit, in either case.
pub open spec fn hex_digit(c: u8) -> Option<u8> {
    if 0x30 <= c <= 0x39 {
        Some((c - 0x30) as u8)
    } else if 0x41 <= c <= 0x46 {
        Some((c - 0x41 + 10) as u8)
    } else if 0x61 <= c <= 0x66 {
        Some((c - 0x61 + 10) as u8)
    } else {
        None
    }
}

/// Whether every byte of `text` is a hexadecimal digit.
pub open spec fn is_hex(text: Seq<u8>) -> bool {
    forall|i: int| 0 <= i < text.len() ==> hex_digit(#[trigger] text[i]) is Some
}

/// The bytes that hexadecimal text stands for, two digits to the byte, the
/// first digit of each pair the higher.
pub open spec fn hex_bytes(text: Seq<u8>) -> Seq<u8> {
    Seq::new(
        text.len() / 2,
        |i: int| (hex_digit(text[2 * i]).unwrap() * 16 + hex_digit(text[2 * i + 1]).unwrap()) as u8,
    )
}

/// Decodes hexadecimal text into `out` with `hex::decode_to_slice`. It
/// succeeds exactly on text of twice as many hexadecimal digits as `out` has
/// bytes, and `out` then holds the bytes that the text stands for. A failure
/// may leave any bytes in `out`.
#[verifier::external_body]
fn decode_to_slice(text: &[u8], out: &mut Vec<u8>) -> (failure: Option<hex::FromHexError>)
    ensures
        failure is None <==> (text@.len() == 2 * old(out)@.len() && is_hex(text@)),
        failure is None ==> final(out)@ == hex_bytes(text@),
        failure is Some ==> final(out)@.len() == old(out)@.len(),
{
    hex::decode_to_slice(text, out.as_mut_slice()).err()
}

/// The text without a leading `0x`.
pub open spec fn without_prefix(text: Seq<u8>) -> Seq<u8> {
    if text.len() >= 2 && text[0] == 0x30 && text[1] == 0x78 {
        text.subrange(2, text.len() as int)
    } else {
        text
    }
}

/// The number of hexadecimal digits in the identifier of a pool of
/// `protocol`, if the protocol is known.
pub open spec fn identifier_digits(protocol: Seq<char>) -> Option<nat> {
    if protocol == "uniswap_v2"@ || protocol == "uniswap_v3"@ {
        Some(40)
    } else if protocol == "uniswap_v4"@ {
        Some(64)
    } else {
        None
    }
}

/// Whether `text` names a pool of `protocol`: the protocol is known, and the
/// text, a leading `0x` apart, is hexadecimal and of the length that the
/// protocol asks for.
pub open spec fn names_pool(text: Seq<u8>, protocol: Seq<char>) -> bool {
    identifier_digits(protocol) matches Some(digits) && without_prefix(text).len() == digits
        && is_hex(without_prefix(text))
}

/// Whether `identifier` is the one that `text` names for `protocol`.
pub open spec fn is_named_by(identifier: PoolIdentifier, text: Seq<u8>, protocol: Seq<char>) -> bool {
    match identifier {
        PoolIdentifier::Address(address) => protocol != "uniswap_v4"@ && address@ == hex_bytes(
            without_prefix(text),
        ),
        PoolIdentifier::PoolId(pool_id) => protocol == "uniswap_v4"@ && pool_id@ == hex_bytes(
            without_prefix(text),
        ),
    }
}

fn decode_digits(digits: &[u8], length: usize) -> (bytes: Option<Vec<u8>>)
    ensures
        bytes is Some <==> digits@.len() == 2 * length && is_hex(digits@),
        bytes matches Some(decoded) ==> decoded@ == hex_bytes(digits@) && decoded@.len() == length,
{
    let mut out: Vec<u8> = Vec::new();
    let mut i: usize = 0;
    while i < length
        invariant
            i <= length,
            out@.len() == i,
        decreases length - i,
    {
        out.push(0u8);
        i += 1;
    }
    match decode_to_slice(digits, &mut out) {
        None => Some(out),
        Some(_) => None,
    }
}

/// Reads the identifier of a pool of `protocol` from `id_str`: an address of
/// twenty bytes for the first two protocols, a pool id of thirty-two bytes for
/// the third. Every failure is a `PoolFactory` error.
pub fn parse_pool_identifier(id_str: &str, protocol: &str) -> (result: Result<
    PoolIdentifier,
    StartupError,
>)
    ensures
        names_pool(vstd::utf8::encode_utf8(id_str@), protocol@) ==> (result matches Ok(identifier)
            && is_named_by(identifier, vstd::utf8::encode_utf8(id_str@), protocol@)),
        !names_pool(vstd::utf8::encode_utf8(id_str@), protocol@) ==> (result matches Err(
            StartupError::PoolFactory(_),
        )),
{
    let text = id_str.as_bytes();
    let digits = if text.len() >= 2 && text[0] == 0x30 && text[1] == 0x78 {
        slice_subrange(text, 2, text.len())
    } else {
        text
    };
    proof {
        crate::event_processor::lemma_protocol_names_differ();
    }
    if str_equals(protocol, "uniswap_v2") || str_equals(protocol, "uniswap_v3") {
        if digits.len() != 40 {
            let mut message = String::from_str("Invalid address length: ");
            message.append(digits.len().to_string().as_str());
            return Err(StartupError::PoolFactory(message));
        }
        match decode_digits(digits, 20) {
            Some(decoded) => {
                let mut address = [0u8;20];
                let mut i: usize = 0;
                while i < 20
                    invariant
                        i <= 20,
                        decoded@.len() == 20,
                        forall|k: int| 0 <= k < i ==> address@[k] == decoded@[k],
                    decreases 20 - i,
                {
                    address[i] = decoded[i];
                    i += 1;
                }
                assert(address@ =~= decoded@);
                Ok(PoolIdentifier::Address(address))
            },
            None => Err(StartupError::PoolFactory(String::from_str("Invalid hex"))),
        }
    } else if str_equals(protocol, "uniswap_v4") {
        if digits.len() != 64 {
            let mut message = String::from_str("Invalid pool ID length: ");
            message.append(digits.len().to_string().as_str());
            return Err(StartupError::PoolFactory(message));
        }
        match decode_digits(digits, 32) {
            Some(decoded) => {
                let mut pool_id = [0u8;32];
                let mut i: usize = 0;
                while i < 32
                    invariant
                        i <= 32,
                        decoded@.len() == 32,
                        forall|k: int| 0 <= k < i ==> pool_id@[k] == decoded@[k],
                    decreases 32 - i,
                {
                    pool_id[i] = decoded[i];
                    i += 1;
                }
                assert(pool_id@ =~= decoded@);
                Ok(PoolIdentifier::PoolId(pool_id))
            },
            None => Err(StartupError::PoolFactory(String::from_str("Invalid hex"))),
        }
    } else {
        let mut message = String::from_str("Unknown protocol: ");
        message.append(protocol);
        Err(StartupError::PoolFactory(message))
    }
}

} // verus!
