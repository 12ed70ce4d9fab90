//! The certificates of a server identity that is read from a file.
//!
//! The file is in PEM form: sections of base64 text between marker lines. The
//! certificates are the decoded contents of its certificate sections, in
//! order; a file whose sections cannot be decoded is unreadable.
use vstd::prelude::*;
use crate::setup::ConfigError;

verus! {

/// The certificates in the bytes of a PEM file, each as its decoded bytes, in
/// the order of the file, or `None` where a section of the file is malformed.
pub uninterp spec fn pem_certificates(pem: Seq<u8>) -> Option<Seq<Seq<u8>>>;

/// A list of byte vectors as a sequence of byte sequences.
pub open spec fn chain_view(chain: Seq<Vec<u8>>) -> Seq<Seq<u8>> {
    chain.map_values(|cert: Vec<u8>| cert@)
}

/// `rustls_pemfile::certs`, run to its end over the bytes of a file: the
/// decoded contents of every certificate section, in order, or `None` as soon
/// as a section fails to parse. What comes back depends on the bytes alone.
#[verifier::external_body]
fn read_pem_certificates(pem: &Vec<u8>) -> (parsed: Option<Vec<Vec<u8>>>)
    ensures
        match parsed {
            Some(chain) => pem_certificates(pem@) == Some(chain_view(chain@)),
            None => pem_certificates(pem@) is None,
        },
{
    let mut reader: &[u8] = pem.as_slice();
    let sections: Result<Vec<_>, _> = rustls_pemfile::certs(&mut reader).collect();
    match sections {
        Ok(certs) => Some(certs.iter().map(|cert| cert.as_ref().to_vec()).collect()),
        Err(_) => None,
    }
}

/// Turns what was parsed from a certificate file into the chain to present,
/// or into the fault that ends the run.
pub fn certificates_from(parsed: Option<Vec<Vec<u8>>>) -> (chain: Result<Vec<Vec<u8>>, ConfigError>)
    ensures
        match chain {
            Ok(certs) => parsed == Some(certs),
            Err(e) => parsed is None && e == ConfigError::UnreadableCredentials,
        },
{
    match parsed {
        Some(certs) => Ok(certs),
        None => Err(ConfigError::UnreadableCredentials),
    }
}

/// Reads the certificates from the bytes of a PEM file.
pub fn load_certificates(pem: &Vec<u8>) -> (chain: Result<Vec<Vec<u8>>, ConfigError>)
    ensures
        match chain {
            Ok(certs) => pem_certificates(pem@) == Some(chain_view(certs@)),
            Err(e) => pem_certificates(pem@) is None && e == ConfigError::UnreadableCredentials,
        },
{
    certificates_from(read_pem_certificates(pem))
}

} // verus!
