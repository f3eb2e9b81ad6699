//! The signature that answers the server's challenge: RSA with SHA-512, made
//! with the private key of the identity file.

use vstd::prelude::*;

verus! {

/// The errors that OpenSSL reports.
#[verifier::external_type_specification]
#[verifier::external_body]
pub struct ExErrorStack(openssl::error::ErrorStack);

/// The longest PEM text that OpenSSL takes.
pub const MAX_PEM_LEN: usize = 0x7fff_ffff;

/// openssl's `Rsa::private_key_from_pem`, `PKey::from_rsa`, `Signer::new`
/// with `MessageDigest::sha512`, and `Signer::sign_oneshot_to_vec`, one after
/// the other. Nothing is claimed of the outcome: it is for the OpenSSL of
/// this machine to say which keys it takes. The first panics on a PEM text
/// longer than a C `int` counts.
#[verifier::external_body]
pub(crate) fn rsa_sha512_sign(pem: &[u8], challenge: &[u8]) -> (r: Result<
    Vec<u8>,
    openssl::error::ErrorStack,
>)
    requires
        pem@.len() <= MAX_PEM_LEN,
{
    let keypair = openssl::rsa::Rsa::private_key_from_pem(pem)?;
    let keypair = openssl::pkey::PKey::from_rsa(keypair)?;
    let mut signer = openssl::sign::Signer::new(openssl::hash::MessageDigest::sha512(), &keypair)?;
    signer.sign_oneshot_to_vec(challenge)
}

} // verus!
