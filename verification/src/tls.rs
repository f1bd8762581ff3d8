//! The identity of the server: its certificates and its private key.

use crate::boundary::certificates_in;
use crate::boundary::pem_certificates;
use crate::boundary::pem_private_key;
use crate::boundary::private_key_in;
use vstd::prelude::*;
use vstd::string::*;

verus! {

/// A private key in its DER form, by the format that it is in.
pub enum PrivateKey {
    Pkcs1(Vec<u8>),
    Sec1(Vec<u8>),
    Pkcs8(Vec<u8>),
    /// A format that has none of the names above.
    Other(Vec<u8>),
}

/// What a [`PrivateKey`] holds.
#[verifier::ext_equal]
pub enum PrivateKeyView {
    Pkcs1(Seq<u8>),
    Sec1(Seq<u8>),
    Pkcs8(Seq<u8>),
    Other(Seq<u8>),
}

impl View for PrivateKey {
    type V = PrivateKeyView;

    open spec fn view(&self) -> PrivateKeyView {
        match self {
            PrivateKey::Pkcs1(der) => PrivateKeyView::Pkcs1(der@),
            PrivateKey::Sec1(der) => PrivateKeyView::Sec1(der@),
            PrivateKey::Pkcs8(der) => PrivateKeyView::Pkcs8(der@),
            PrivateKey::Other(der) => PrivateKeyView::Other(der@),
        }
    }
}

/// The byte strings in `v`, in order.
pub open spec fn byte_strings(v: Seq<Vec<u8>>) -> Seq<Seq<u8>> {
    v.map_values(|b: Vec<u8>| b@)
}

/// What the server shows that it is: the DER certificates of its chain, in the
/// order of the file, and the private key that goes with them.
pub struct TlsIdentity {
    pub certificates: Vec<Vec<u8>>,
    pub key: PrivateKey,
}

/// What a [`TlsIdentity`] holds.
#[verifier::ext_equal]
pub struct TlsIdentityView {
    pub certificates: Seq<Seq<u8>>,
    pub key: PrivateKeyView,
}

impl View for TlsIdentity {
    type V = TlsIdentityView;

    open spec fn view(&self) -> TlsIdentityView {
        TlsIdentityView { certificates: byte_strings(self.certificates@), key: self.key@ }
    }
}

/// Why there is no identity to serve under.
#[derive(Debug)]
pub enum TlsError {
    /// The certificate file is not well formed, for this reason.
    Certificate(String),
    /// The key file is not well formed, for this reason.
    PrivateKey(String),
    /// There is no private key in the key file.
    NoPrivateKey,
}

/// What a [`TlsError`] says.
#[verifier::ext_equal]
pub enum TlsErrorView {
    Certificate(Seq<char>),
    PrivateKey(Seq<char>),
    NoPrivateKey,
}

impl View for TlsError {
    type V = TlsErrorView;

    open spec fn view(&self) -> TlsErrorView {
        match self {
            TlsError::Certificate(e) => TlsErrorView::Certificate(e@),
            TlsError::PrivateKey(e) => TlsErrorView::PrivateKey(e@),
            TlsError::NoPrivateKey => TlsErrorView::NoPrivateKey,
        }
    }
}

/// The identity that what was read in the certificate file and in the key file
/// makes. The certificate file is judged first.
pub open spec fn identity_of(
    certificates: Result<Seq<Seq<u8>>, Seq<char>>,
    key: Result<Option<PrivateKeyView>, Seq<char>>,
) -> Result<TlsIdentityView, TlsErrorView> {
    match certificates {
        Err(e) => Err(TlsErrorView::Certificate(e)),
        Ok(certificates) => match key {
            Err(e) => Err(TlsErrorView::PrivateKey(e)),
            Ok(None) => Err(TlsErrorView::NoPrivateKey),
            Ok(Some(key)) => Ok(TlsIdentityView { certificates, key }),
        },
    }
}

/// What the result of making an identity says.
pub open spec fn outcome(r: Result<TlsIdentity, TlsError>) -> Result<
    TlsIdentityView,
    TlsErrorView,
> {
    match r {
        Ok(identity) => Ok(identity@),
        Err(e) => Err(e@),
    }
}

/// The identity that what was read in the certificate file and in the key file
/// makes. The certificate file is judged first.
pub fn make_identity(
    certificates: Result<Vec<Vec<u8>>, String>,
    key: Result<Option<PrivateKey>, String>,
) -> (r: Result<TlsIdentity, TlsError>)
    ensures
        outcome(r) == identity_of(
            match certificates {
                Ok(c) => Ok(byte_strings(c@)),
                Err(e) => Err(e@),
            },
            match key {
                Ok(Some(k)) => Ok(Some(k@)),
                Ok(None) => Ok(None),
                Err(e) => Err(e@),
            },
        ),
{
    let certificates = match certificates {
        Ok(c) => c,
        Err(e) => {
            return Err(TlsError::Certificate(e));
        },
    };
    match key {
        Ok(Some(key)) => Ok(TlsIdentity { certificates, key }),
        Ok(None) => Err(TlsError::NoPrivateKey),
        Err(e) => Err(TlsError::PrivateKey(e)),
    }
}

/// Reads the server's identity in a PEM certificate file and a PEM key file,
/// given as their bytes.
pub fn read_identity(cert_pem: &[u8], key_pem: &[u8]) -> (r: Result<TlsIdentity, TlsError>)
    ensures
        outcome(r) == identity_of(pem_certificates(cert_pem@), pem_private_key(key_pem@)),
{
    make_identity(certificates_in(cert_pem), private_key_in(key_pem))
}

impl TlsError {
    /// What was being done when the error came up, in words. `key_path` is the
    /// key file as it is to be named to the user.
    pub fn message(&self, key_path: &str) -> (r: String)
        ensures
            r@ == (match self@ {
                TlsErrorView::Certificate(_) => "Failed to parse TLS certificate"@,
                TlsErrorView::PrivateKey(_) => "Failed to parse TLS private key"@,
                TlsErrorView::NoPrivateKey => "No private key found in "@ + key_path@,
            }),
    {
        match self {
            TlsError::Certificate(_) => "Failed to parse TLS certificate".to_owned(),
            TlsError::PrivateKey(_) => "Failed to parse TLS private key".to_owned(),
            TlsError::NoPrivateKey => {
                let mut r = "No private key found in ".to_owned();
                r.append(key_path);
                r
            },
        }
    }
}

} // verus!
