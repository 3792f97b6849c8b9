//! Certificate artifacts as the listener consumes them: a leaf certificate
//! and its private key, PEM- or DER-encoded.
use vstd::prelude::*;

verus! {

/// A PEM-encoded leaf certificate and private key.
#[derive(Debug)]
pub struct Cert {
    pub cert: String,
    pub key: String,
}

/// A DER-encoded leaf certificate and private key.
#[derive(Debug)]
pub struct SingleCert {
    pub cert: Vec<u8>,
    pub key: Vec<u8>,
}

impl Cert {
    /// Packs the two PEM strings.
    pub fn new(cert: String, key: String) -> (r: Cert)
        ensures
            r.cert == cert,
            r.key == key,
    {
        Cert { cert, key }
    }
}

impl SingleCert {
    /// Packs the two DER byte strings.
    pub fn new(cert: Vec<u8>, key: Vec<u8>) -> (r: SingleCert)
        ensures
            r.cert == cert,
            r.key == key,
    {
        SingleCert { cert, key }
    }
}

} // verus!
