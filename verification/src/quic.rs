//! The identity and the limits of the QUIC endpoint.

use crate::text::join_text;
use vstd::prelude::*;
use vstd::string::*;

verus! {

/// How many streams of each kind a peer may hold open.
pub const MAX_CONCURRENT_STREAMS: u32 = 10_000;

/// How many bytes a peer may have under way on one stream.
pub const MAX_STREAM_WINDOW: u32 = 20_971_520;

/// How many bytes may be under way on one connection, in each direction.
pub const MAX_CONN_WINDOW: u32 = 134_217_728;

/// After how many seconds of silence a connection is given up.
pub const MAX_IDLE_SECS: u64 = 90;

/// How many seconds of silence are broken by a sign of life.
pub const KEEP_ALIVE_SECS: u64 = 10;

/// The protocol that both sides must name.
pub fn alpn_protocol() -> (name: String)
    ensures
        name@ == "file-storage-v1"@,
{
    "file-storage-v1".to_owned()
}

/// Rows of bytes as plain values.
pub open spec fn byte_rows(rows: Seq<Vec<u8>>) -> Seq<Seq<u8>> {
    rows.map_values(|row: Vec<u8>| row@)
}

/// What a parser of PEM texts gave, as plain values.
pub open spec fn pem_result(r: Result<Vec<Vec<u8>>, String>) -> Result<Seq<Seq<u8>>, Seq<char>> {
    match r {
        Ok(rows) => Ok(byte_rows(rows@)),
        Err(e) => Err(e@),
    }
}

/// What `rustls_pemfile::certs` gives for a text.
pub uninterp spec fn pem_certificates(pem: Seq<char>) -> Result<Seq<Seq<u8>>, Seq<char>>;

/// What `rustls_pemfile::pkcs8_private_keys` gives for a text.
pub uninterp spec fn pem_pkcs8_keys(pem: Seq<char>) -> Result<Seq<Seq<u8>>, Seq<char>>;

/// What `rustls_pemfile::rsa_private_keys` gives for a text.
pub uninterp spec fn pem_rsa_keys(pem: Seq<char>) -> Result<Seq<Seq<u8>>, Seq<char>>;

/// `rustls_pemfile::certs` on a text: the certificates in it, or the error in its
/// `Debug` form, named `pem_certificates`.
#[verifier::external_body]
fn certs(pem: &str) -> (r: Result<Vec<Vec<u8>>, String>)
    ensures
        pem_result(r) == pem_certificates(pem@),
{
    match rustls_pemfile::certs(&mut pem.as_bytes()) {
        Ok(rows) => Ok(rows),
        Err(e) => Err(format!("{:?}", e)),
    }
}

/// `rustls_pemfile::pkcs8_private_keys` on a text: the PKCS#8 keys in it, or the
/// text of the error, named `pem_pkcs8_keys`.
#[verifier::external_body]
fn pkcs8_private_keys(pem: &str) -> (r: Result<Vec<Vec<u8>>, String>)
    ensures
        pem_result(r) == pem_pkcs8_keys(pem@),
{
    match rustls_pemfile::pkcs8_private_keys(&mut pem.as_bytes()) {
        Ok(rows) => Ok(rows),
        Err(e) => Err(e.to_string()),
    }
}

/// `rustls_pemfile::rsa_private_keys` on a text: the PKCS#1 keys in it, or the
/// text of the error, named `pem_rsa_keys`.
#[verifier::external_body]
fn rsa_private_keys(pem: &str) -> (r: Result<Vec<Vec<u8>>, String>)
    ensures
        pem_result(r) == pem_rsa_keys(pem@),
{
    match rustls_pemfile::rsa_private_keys(&mut pem.as_bytes()) {
        Ok(rows) => Ok(rows),
        Err(e) => Err(e.to_string()),
    }
}

/// A certificate and its private key, in DER.
#[derive(Debug)]
pub struct NodeIdentity {
    pub certificate: Vec<u8>,
    pub private_key: Vec<u8>,
}

/// The identity that parsed PEM texts give: the first certificate, and the first
/// key in PKCS#8 or, where there is none, in PKCS#1. Otherwise what is wrong.
pub open spec fn identity_of(
    certificates: Result<Seq<Seq<u8>>, Seq<char>>,
    pkcs8: Result<Seq<Seq<u8>>, Seq<char>>,
    rsa: Result<Seq<Seq<u8>>, Seq<char>>,
    cert_file: Seq<char>,
    key_file: Seq<char>,
) -> Result<(Seq<u8>, Seq<u8>), Seq<char>> {
    match certificates {
        Err(e) => Err("Failed to parse certificate PEM: "@ + e),
        Ok(rows) => if rows.len() == 0 {
            Err("No certificates found in certificate file: "@ + cert_file)
        } else {
            match pkcs8 {
                Ok(keys) if keys.len() > 0 => Ok((rows[0], keys[0])),
                _ => match rsa {
                    Err(e) => Err(
                        "Failed to parse private key PEM (tried PKCS8 and PKCS1): "@ + e,
                    ),
                    Ok(keys) => if keys.len() == 0 {
                        Err("No private keys found in key file: "@ + key_file)
                    } else {
                        Ok((rows[0], keys[0]))
                    },
                },
            }
        },
    }
}

/// An identity as plain values.
pub open spec fn identity_result(r: Result<NodeIdentity, String>) -> Result<
    (Seq<u8>, Seq<u8>),
    Seq<char>,
> {
    match r {
        Ok(identity) => Ok((identity.certificate@, identity.private_key@)),
        Err(e) => Err(e@),
    }
}

fn first_row(rows: &Vec<Vec<u8>>) -> (row: Vec<u8>)
    requires
        rows@.len() > 0,
    ensures
        row@ == byte_rows(rows@)[0],
{
    vstd::slice::slice_to_vec(rows[0].as_slice())
}

/// Picks the identity from parsed PEM texts.
pub fn pick_identity(
    certificates: &Result<Vec<Vec<u8>>, String>,
    pkcs8: &Result<Vec<Vec<u8>>, String>,
    rsa: &Result<Vec<Vec<u8>>, String>,
    cert_file: &str,
    key_file: &str,
) -> (r: Result<NodeIdentity, String>)
    ensures
        identity_result(r) == identity_of(
            pem_result(*certificates),
            pem_result(*pkcs8),
            pem_result(*rsa),
            cert_file@,
            key_file@,
        ),
{
    let certificate = match certificates {
        Err(e) => {
            return Err(join_text("Failed to parse certificate PEM: ", e.as_str()));
        },
        Ok(rows) => {
            if rows.len() == 0 {
                return Err(join_text("No certificates found in certificate file: ", cert_file));
            }
            first_row(rows)
        },
    };
    match pkcs8 {
        Ok(keys) => {
            if keys.len() > 0 {
                return Ok(NodeIdentity { certificate, private_key: first_row(keys) });
            }
        },
        Err(_) => {},
    }
    match rsa {
        Err(e) => Err(
            join_text("Failed to parse private key PEM (tried PKCS8 and PKCS1): ", e.as_str()),
        ),
        Ok(keys) => {
            if keys.len() == 0 {
                Err(join_text("No private keys found in key file: ", key_file))
            } else {
                Ok(NodeIdentity { certificate, private_key: first_row(keys) })
            }
        },
    }
}

/// Reads the node's identity from the texts of its certificate and key files.
pub fn configure_certificates(cert_pem: &str, key_pem: &str, cert_file: &str, key_file: &str) -> (r:
    Result<NodeIdentity, String>)
    ensures
        identity_result(r) == identity_of(
            pem_certificates(cert_pem@),
            pem_pkcs8_keys(key_pem@),
            pem_rsa_keys(key_pem@),
            cert_file@,
            key_file@,
        ),
{
    pick_identity(
        &certs(cert_pem),
        &pkcs8_private_keys(key_pem),
        &rsa_private_keys(key_pem),
        cert_file,
        key_file,
    )
}

/// An identity is a certificate and a key that are there: the first certificate, and
/// the first key in PKCS#8 or, only where there is none, the first in PKCS#1.
pub proof fn law_identity_is_the_first_of_each(
    certificates: Seq<Vec<u8>>,
    pkcs8: Result<Seq<Seq<u8>>, Seq<char>>,
    rsa: Result<Seq<Seq<u8>>, Seq<char>>,
    cert_file: Seq<char>,
    key_file: Seq<char>,
    identity: NodeIdentity,
)
    requires
        identity_result(Ok(identity)) == identity_of(
            Ok(byte_rows(certificates)),
            pkcs8,
            rsa,
            cert_file,
            key_file,
        ),
    ensures
        certificates.len() > 0 && identity.certificate@ == certificates[0]@,
        pkcs8 matches Ok(keys) ==> (keys.len() > 0 ==> identity.private_key@ == keys[0]),
        !(pkcs8 matches Ok(keys) && keys.len() > 0) ==> (rsa matches Ok(keys) && keys.len() > 0
            && identity.private_key@ == keys[0]),
{
}

/// There is an identity exactly where there is a certificate and a key of either kind;
/// else it is told which is missing and from which file, certificates first.
pub proof fn law_missing_identity_is_told_of(
    certificates: Result<Seq<Seq<u8>>, Seq<char>>,
    pkcs8: Result<Seq<Seq<u8>>, Seq<char>>,
    rsa: Result<Seq<Seq<u8>>, Seq<char>>,
    cert_file: Seq<char>,
    key_file: Seq<char>,
)
    ensures
        ({
            let r = identity_of(certificates, pkcs8, rsa, cert_file, key_file);
            let certified = certificates matches Ok(rows) && rows.len() > 0;
            let keyed = (pkcs8 matches Ok(keys) && keys.len() > 0) || (rsa matches Ok(keys)
                && keys.len() > 0);
            &&& r is Ok <==> certified && keyed
            &&& certificates matches Err(e) ==> r == Err::<(Seq<u8>, Seq<u8>), Seq<char>>(
                "Failed to parse certificate PEM: "@ + e,
            )
            &&& certificates matches Ok(rows) ==> (rows.len() == 0 ==> r == Err::<
                (Seq<u8>, Seq<u8>),
                Seq<char>,
            >("No certificates found in certificate file: "@ + cert_file))
            &&& certified && !keyed ==> (rsa matches Err(e) ==> r == Err::<
                (Seq<u8>, Seq<u8>),
                Seq<char>,
            >("Failed to parse private key PEM (tried PKCS8 and PKCS1): "@ + e))
            &&& certified && !keyed ==> (rsa is Ok ==> r == Err::<(Seq<u8>, Seq<u8>), Seq<char>>(
                "No private keys found in key file: "@ + key_file,
            ))
        }),
{
}

/// What a parser gave is seen as it is: its rows in order and byte by byte, or its
/// error.
pub proof fn law_parsed_rows_are_seen_whole(r: Result<Vec<Vec<u8>>, String>)
    ensures
        r matches Ok(rows) ==> (pem_result(r) matches Ok(seen) && seen.len() == rows@.len() && (
        forall|i: int| 0 <= i < rows@.len() ==> #[trigger] seen[i] == rows@[i]@)),
        r matches Err(e) ==> pem_result(r) == Err::<Seq<Seq<u8>>, Seq<char>>(e@),
{
}

/// Silence is broken often enough that a connection is not given up for it, a stream's
/// window takes many chunks and a connection's window many streams.
pub proof fn law_limits_fit_together()
    ensures
        KEEP_ALIVE_SECS == 10 && MAX_IDLE_SECS == 90,
        3 * KEEP_ALIVE_SECS < MAX_IDLE_SECS,
        MAX_STREAM_WINDOW == 20 * crate::models::CHUNK_SIZE,
        MAX_CONN_WINDOW == 128 * crate::models::CHUNK_SIZE,
        MAX_STREAM_WINDOW < MAX_CONN_WINDOW,
        MAX_CONCURRENT_STREAMS == 10_000,
{
}

} // verus!
