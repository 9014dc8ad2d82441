//! The key that the control plane gives a tenant: an Argon2 hash of the
//! tenant's name and namespace, written in URL-safe base64, regrouped into
//! five-bit values and wrapped in Bech32. The three encodings are those of the crates `argon2`, `base64`
//! and `bech32`; Verus does not check what this file says of them.
use vstd::prelude::*;
use vstd::utf8::encode_utf8;

verus! {

/// The bytes that `Argon2::default()` hashes a password and a salt into for
/// an output of the given length, where it accepts the three.
pub uninterp spec fn argon2_digest(password: Seq<u8>, salt: Seq<u8>, length: nat) -> Option<
    Seq<u8>,
>;

/// What the `URL_SAFE_NO_PAD` engine of `base64` encodes bytes into.
pub uninterp spec fn base64_url(bytes: Seq<u8>) -> Seq<char>;

/// The five-bit values that `ToBase32::to_base32` regroups bytes into, each
/// written as a byte.
pub uninterp spec fn five_bit_groups(data: Seq<u8>) -> Seq<u8>;

/// The Bech32 text that `bech32::encode` makes of a human-readable part and
/// of five-bit values, where it accepts the part and the values.
pub uninterp spec fn bech32_text(hrp: Seq<char>, groups: Seq<u8>) -> Option<Seq<char>>;

/// Calls `Argon2::hash_password_into` on `Argon2::default()`. The contract
/// names the hash for an output as long as the buffer and says that the call
/// leaves it in the buffer; where the call fails, it fails before it writes,
/// and the buffer is as it was.
#[verifier::external_body]
fn argon2_hash_into(password: &[u8], salt: &[u8], output: &mut Vec<u8>)
    ensures
        final(output)@ == match argon2_digest(password@, salt@, old(output)@.len()) {
            Some(bytes) => bytes,
            None => old(output)@,
        },
{
    let _ = argon2::Argon2::default().hash_password_into(password, salt, output.as_mut_slice());
}

/// Calls `Engine::encode` on `base64`'s `URL_SAFE_NO_PAD`: the contract
/// names the text and says that the call returns it.
#[verifier::external_body]
fn base64_encode(bytes: &[u8]) -> (text: String)
    ensures
        text@ == base64_url(bytes@),
{
    base64::Engine::encode(&base64::engine::general_purpose::URL_SAFE_NO_PAD, bytes)
}

/// Calls `ToBase32::to_base32` of `bech32` on bytes and hands each five-bit
/// value out as a byte: the contract names the values and says that the
/// call returns them.
#[verifier::external_body]
fn to_base32(data: &[u8]) -> (groups: Vec<u8>)
    ensures
        groups@ == five_bit_groups(data@),
{
    bech32::ToBase32::to_base32(&data).into_iter().map(|group| group.to_u8()).collect()
}

/// Calls `bech32::encode` for the `Bech32` variant on five-bit values: the
/// contract names the text and says that the call returns it, or nothing
/// where a byte is no five-bit value or the call fails.
#[verifier::external_body]
fn bech32_encode(hrp: &str, groups: &[u8]) -> (text: Option<String>)
    ensures
        match text {
            Some(encoded) => bech32_text(hrp@, groups@) == Some(encoded@),
            None => bech32_text(hrp@, groups@) is None,
        },
{
    let values: Result<Vec<bech32::u5>, bech32::Error> =
        groups.iter().map(|group| bech32::u5::try_from_u8(*group)).collect();
    match values {
        Ok(values) => bech32::encode(hrp, values, bech32::Variant::Bech32).ok(),
        Err(_) => None,
    }
}

/// Sixteen zero bytes.
pub open spec fn blank_hash() -> Seq<u8> {
    Seq::new(16, |i: int| 0u8)
}

/// The human-readable part of every key.
pub open spec fn key_hrp() -> Seq<char> {
    "dmtr_kupo"@
}

/// The key of the tenant `name` in `namespace` under `salt`. The password
/// is the name followed by the namespace, the hash has sixteen bytes. Where
/// Argon2 turns the inputs down, the key is made of sixteen zero bytes in
/// place of the hash.
pub open spec fn api_key_of(name: Seq<char>, namespace: Seq<char>, salt: Seq<char>) -> Option<
    Seq<char>,
> {
    let hash = match argon2_digest(encode_utf8(name + namespace), encode_utf8(salt), 16) {
        Some(bytes) => bytes,
        None => blank_hash(),
    };
    bech32_text(key_hrp(), five_bit_groups(encode_utf8(base64_url(hash))))
}

fn zero_hash() -> (bytes: Vec<u8>)
    ensures
        bytes@ == blank_hash(),
{
    let mut bytes: Vec<u8> = Vec::new();
    let mut i: usize = 0;
    while i < 16
        invariant
            i <= 16,
            bytes@.len() == i,
            forall|j: int| 0 <= j < i ==> bytes@[j] == 0u8,
        decreases 16 - i,
    {
        bytes.push(0u8);
        i += 1;
    }
    assert(bytes@ =~= blank_hash());
    bytes
}

/// The key of the tenant `name` in `namespace` under `salt`.
pub fn generate_api_key(name: &str, namespace: &str, salt: &str) -> (key: Option<String>)
    ensures
        match key {
            Some(text) => api_key_of(name@, namespace@, salt@) == Some(text@),
            None => api_key_of(name@, namespace@, salt@) is None,
        },
{
    let mut password = String::from_str(name);
    password.append(namespace);
    let mut hash = zero_hash();
    argon2_hash_into(password.as_str().as_bytes(), salt.as_bytes(), &mut hash);
    let encoded = base64_encode(hash.as_slice());
    let groups = to_base32(encoded.as_str().as_bytes());
    bech32_encode("dmtr_kupo", groups.as_slice())
}

} // verus!
