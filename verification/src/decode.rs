//! Decoding of the bytes that a contract hands over: method names and public keys.
use std::string::FromUtf8Error;

use borsh::BorshDeserialize;
use vstd::prelude::*;
use vstd::utf8::{decode_utf8, valid_utf8};

use crate::types::{HostError, PublicKey};
use crate::view::{views, PublicKeyView};

verus! {

/// The error of `String::from_utf8`, carried but not looked into.
#[verifier::external_type_specification]
#[verifier::external_body]
pub struct ExFromUtf8Error(FromUtf8Error);

/// The error of `BorshDeserialize::try_from_slice`, carried but not looked into.
#[verifier::external_type_specification]
#[verifier::external_body]
pub struct ExIoError(std::io::Error);

/// `String::from_utf8` succeeds on valid UTF-8 and on nothing else; the string
/// then holds the characters that the bytes encode.
pub assume_specification[ String::from_utf8 ](vec: Vec<u8>) -> (res: Result<
    String,
    FromUtf8Error,
>)
    ensures
        res is Ok <==> valid_utf8(vec@),
        res matches Ok(s) ==> s@ == decode_utf8(vec@),
;

/// The public key that `bytes` encode: a byte that tells the curve, 0 for ed25519
/// and 1 for secp256k1, then the 32 or 64 bytes of the key and nothing after them.
/// `None` if `bytes` are no such encoding.
pub open spec fn decode_public_key(bytes: Seq<u8>) -> Option<PublicKeyView> {
    if bytes.len() == 33 && bytes[0] == 0 {
        Some(PublicKeyView::ED25519(bytes.skip(1)))
    } else if bytes.len() == 65 && bytes[0] == 1 {
        Some(PublicKeyView::SECP256K1(bytes.skip(1)))
    } else {
        None
    }
}

/// Calls `BorshDeserialize::try_from_slice` for `near_crypto::PublicKey`. It
/// succeeds exactly on the encodings that `decode_public_key` describes, and gives
/// back the key that it describes.
#[verifier::external_body]
fn public_key_try_from_slice(bytes: &[u8]) -> (res: Result<PublicKey, std::io::Error>)
    ensures
        res is Ok <==> decode_public_key(bytes@) is Some,
        res matches Ok(key) ==> decode_public_key(bytes@) == Some(key@),
{
    match near_crypto::PublicKey::try_from_slice(bytes)? {
        near_crypto::PublicKey::ED25519(key) => Ok(PublicKey::ED25519(key.0)),
        near_crypto::PublicKey::SECP256K1(key) => Ok(PublicKey::SECP256K1(key.into())),
    }
}

/// The method name that `method_name` encodes in UTF-8.
pub(crate) fn method_name_from_utf8(method_name: Vec<u8>) -> (res: Result<String, HostError>)
    ensures
        match res {
            Ok(name) => valid_utf8(method_name@) && name@ == decode_utf8(method_name@),
            Err(e) => !valid_utf8(method_name@) && e == HostError::InvalidMethodName,
        },
{
    match String::from_utf8(method_name) {
        Ok(name) => Ok(name),
        Err(_) => Err(HostError::InvalidMethodName),
    }
}

/// Every one of `method_names` is valid UTF-8.
pub open spec fn valid_method_names(method_names: Seq<Vec<u8>>) -> bool {
    forall|i: int| 0 <= i < method_names.len() ==> valid_utf8(#[trigger] method_names[i]@)
}

/// The method names that `method_names` encode in UTF-8.
pub open spec fn decode_method_names(method_names: Seq<Vec<u8>>) -> Seq<Seq<char>> {
    Seq::new(method_names.len(), |i: int| decode_utf8(method_names[i]@))
}

/// The method names that `method_names` encode in UTF-8.
pub(crate) fn method_names_from_utf8(method_names: Vec<Vec<u8>>) -> (res: Result<
    Vec<String>,
    HostError,
>)
    ensures
        match res {
            Ok(names) => valid_method_names(method_names@) && views(names@) == decode_method_names(
                method_names@,
            ),
            Err(e) => !valid_method_names(method_names@) && e == HostError::InvalidMethodName,
        },
{
    let mut names: Vec<String> = Vec::new();
    for method_name in iter: method_names
        invariant
            iter.seq() == method_names@,
            names@.len() == iter.index(),
            forall|i: int|
                0 <= i < names@.len() ==> valid_utf8(#[trigger] method_names@[i]@) && names@[i]@
                    == decode_utf8(method_names@[i]@),
    {
        match method_name_from_utf8(method_name) {
            Ok(name) => names.push(name),
            Err(e) => return Err(e),
        }
    }
    assert(views(names@) =~= decode_method_names(method_names@));
    Ok(names)
}

/// The public key that `public_key` encodes.
pub(crate) fn public_key_from_bytes(public_key: &[u8]) -> (res: Result<PublicKey, HostError>)
    ensures
        match res {
            Ok(key) => decode_public_key(public_key@) == Some(key@),
            Err(e) => decode_public_key(public_key@) is None && e == HostError::InvalidPublicKey,
        },
{
    match public_key_try_from_slice(public_key) {
        Ok(key) => Ok(key),
        Err(_) => Err(HostError::InvalidPublicKey),
    }
}

} // verus!
