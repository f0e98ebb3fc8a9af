//! Keys and certificates out of PEM files.

use vstd::prelude::*;

verus! {

/// The bytes of every item of a list.
pub open spec fn item_bytes(items: Seq<Vec<u8>>) -> Seq<Seq<u8>> {
    items.map_values(|i: Vec<u8>| i@)
}

/// The view of items that were read, or of why they could not be.
pub open spec fn read_items(r: Result<Vec<Vec<u8>>, String>) -> Result<Seq<Seq<u8>>, Seq<char>> {
    match r {
        Ok(items) => Ok(item_bytes(items@)),
        Err(why) => Err(why@),
    }
}

// ---------------------------------------------------------------------------
// reading PEM
// ---------------------------------------------------------------------------

/// The certificates in a PEM text, or the first problem in it.
pub uninterp spec fn pem_certificates(pem: Seq<u8>) -> Result<Seq<Seq<u8>>, Seq<char>>;

/// The private keys in PKCS #8 form in a PEM text, or the first problem in it.
pub uninterp spec fn pem_pkcs8_keys(pem: Seq<u8>) -> Result<Seq<Seq<u8>>, Seq<char>>;

/// The private keys in RSA form in a PEM text, or the first problem in it.
pub uninterp spec fn pem_rsa_keys(pem: Seq<u8>) -> Result<Seq<Seq<u8>>, Seq<char>>;

/// Whether a certificate can be a root of trust.
pub uninterp spec fn root_accepted(der: Seq<u8>) -> bool;

/// `rustls_pemfile::certs`: the bytes of the certificates in a PEM text, in
/// their order, or what is said of the first problem in it. What they are
/// depends on the text alone.
#[verifier::external_body]
fn certificate_list(pem: &[u8]) -> (r: Result<Vec<Vec<u8>>, String>)
    ensures
        read_items(r) == pem_certificates(pem@),
{
    let mut reader: &[u8] = pem;
    rustls_pemfile::certs(&mut reader)
        .map(|found| found.map(|der| der.to_vec()).map_err(|e| e.to_string()))
        .collect()
}

/// `rustls_pemfile::pkcs8_private_keys`: the bytes of the PKCS #8 keys in a
/// PEM text, in their order, or what is said of the first problem in it. What
/// they are depends on the text alone.
#[verifier::external_body]
fn pkcs8_keys(pem: &[u8]) -> (r: Result<Vec<Vec<u8>>, String>)
    ensures
        read_items(r) == pem_pkcs8_keys(pem@),
{
    let mut reader: &[u8] = pem;
    rustls_pemfile::pkcs8_private_keys(&mut reader)
        .map(|found| found.map(|k| k.secret_pkcs8_der().to_vec()).map_err(|e| e.to_string()))
        .collect()
}

/// `rustls_pemfile::rsa_private_keys`: the bytes of the RSA keys in a PEM
/// text, in their order, or what is said of the first problem in it. What they
/// are depends on the text alone.
#[verifier::external_body]
fn rsa_keys(pem: &[u8]) -> (r: Result<Vec<Vec<u8>>, String>)
    ensures
        read_items(r) == pem_rsa_keys(pem@),
{
    let mut reader: &[u8] = pem;
    rustls_pemfile::rsa_private_keys(&mut reader)
        .map(|found| found.map(|k| k.secret_pkcs1_der().to_vec()).map_err(|e| e.to_string()))
        .collect()
}

/// rustls's `RootCertStore::add`: whether a store takes the certificate. That
/// depends on the certificate alone.
#[verifier::external_body]
fn accepts_root(der: &[u8]) -> (r: bool)
    ensures
        r == root_accepted(der@),
{
    let mut store = pgwire::tokio::tokio_rustls::rustls::RootCertStore::empty();
    let cert = pgwire::tokio::tokio_rustls::rustls::pki_types::CertificateDer::from(der);
    store.add(cert).is_ok()
}

// ---------------------------------------------------------------------------
// serving TLS
// ---------------------------------------------------------------------------

/// The certificates in a PEM text, in their order, or the first problem in it.
pub fn certificates(pem: &[u8]) -> (r: Result<Vec<Vec<u8>>, String>)
    ensures
        read_items(r) == pem_certificates(pem@),
{
    certificate_list(pem)
}

/// A private key.
#[derive(Debug, Clone, PartialEq, Eq)]
pub enum PrivateKey {
    Pkcs8(Vec<u8>),
    Rsa(Vec<u8>),
}

/// The view of a private key.
#[verifier::ext_equal]
pub enum KeyView {
    Pkcs8(Seq<u8>),
    Rsa(Seq<u8>),
}

impl View for PrivateKey {
    type V = KeyView;

    open spec fn view(&self) -> KeyView {
        match self {
            PrivateKey::Pkcs8(der) => KeyView::Pkcs8(der@),
            PrivateKey::Rsa(der) => KeyView::Rsa(der@),
        }
    }
}

/// Why there is no private key.
#[derive(Debug, Clone, PartialEq, Eq)]
pub enum KeyError {
    /// The PKCS #8 keys cannot be read.
    Pkcs8(String),
    /// The RSA keys cannot be read.
    Rsa(String),
    /// There is no key.
    Missing,
}

/// The view of why there is no private key.
#[verifier::ext_equal]
pub enum KeyErrorView {
    Pkcs8(Seq<char>),
    Rsa(Seq<char>),
    Missing,
}

impl View for KeyError {
    type V = KeyErrorView;

    open spec fn view(&self) -> KeyErrorView {
        match self {
            KeyError::Pkcs8(why) => KeyErrorView::Pkcs8(why@),
            KeyError::Rsa(why) => KeyErrorView::Rsa(why@),
            KeyError::Missing => KeyErrorView::Missing,
        }
    }
}

impl KeyErrorView {
    /// What is said of the error.
    pub open spec fn message(self) -> Seq<char> {
        match self {
            KeyErrorView::Pkcs8(why) => "pkcs8 key: "@ + why,
            KeyErrorView::Rsa(why) => "rsa key: "@ + why,
            KeyErrorView::Missing => "no private key found in key file"@,
        }
    }
}

impl KeyError {
    /// What is said of the error.
    pub fn message(&self) -> (r: String)
        ensures
            r@ == self@.message(),
    {
        match self {
            KeyError::Pkcs8(why) => {
                let mut r = "pkcs8 key: ".to_owned();
                r.append(why.as_str());
                r
            },
            KeyError::Rsa(why) => {
                let mut r = "rsa key: ".to_owned();
                r.append(why.as_str());
                r
            },
            KeyError::Missing => "no private key found in key file".to_owned(),
        }
    }
}

/// The private key to serve TLS with, among those of a key file: the first in
/// PKCS #8 form or, without one, the last in RSA form.
pub open spec fn chosen_key(
    pkcs8: Result<Seq<Seq<u8>>, Seq<char>>,
    rsa: Result<Seq<Seq<u8>>, Seq<char>>,
) -> Result<KeyView, KeyErrorView> {
    match pkcs8 {
        Err(why) => Err(KeyErrorView::Pkcs8(why)),
        Ok(keys) => if keys.len() > 0 {
            Ok(KeyView::Pkcs8(keys.first()))
        } else {
            match rsa {
                Err(why) => Err(KeyErrorView::Rsa(why)),
                Ok(keys) => if keys.len() > 0 {
                    Ok(KeyView::Rsa(keys.last()))
                } else {
                    Err(KeyErrorView::Missing)
                },
            }
        },
    }
}

/// The view of a private key that was looked for.
pub open spec fn found_key(r: Result<PrivateKey, KeyError>) -> Result<KeyView, KeyErrorView> {
    match r {
        Ok(key) => Ok(key@),
        Err(e) => Err(e@),
    }
}

/// Choose among the keys in PKCS #8 form and those in RSA form. The latter
/// matter only where there are none of the former.
pub fn choose_key(pkcs8: Result<Vec<Vec<u8>>, String>, rsa: Result<Vec<Vec<u8>>, String>) -> (r:
    Result<PrivateKey, KeyError>)
    ensures
        found_key(r) == chosen_key(read_items(pkcs8), read_items(rsa)),
{
    let mut keys = match pkcs8 {
        Ok(keys) => keys,
        Err(why) => {
            return Err(KeyError::Pkcs8(why));
        },
    };
    if keys.len() > 0 {
        return Ok(PrivateKey::Pkcs8(keys.remove(0)));
    }
    let mut keys = match rsa {
        Ok(keys) => keys,
        Err(why) => {
            return Err(KeyError::Rsa(why));
        },
    };
    match keys.pop() {
        Some(der) => Ok(PrivateKey::Rsa(der)),
        None => Err(KeyError::Missing),
    }
}

/// The private key in a PEM text. Only a text without keys in PKCS #8 form is
/// read for keys in RSA form.
pub fn private_key(pem: &[u8]) -> (r: Result<PrivateKey, KeyError>)
    ensures
        found_key(r) == chosen_key(pem_pkcs8_keys(pem@), pem_rsa_keys(pem@)),
{
    let pkcs8 = pkcs8_keys(pem);
    let none = match &pkcs8 {
        Ok(keys) => keys.len() == 0,
        Err(_) => false,
    };
    if none {
        choose_key(pkcs8, rsa_keys(pem))
    } else {
        choose_key(pkcs8, Ok(Vec::new()))
    }
}

// ---------------------------------------------------------------------------
// connecting over TLS
// ---------------------------------------------------------------------------

/// The roots to verify servers against, given the certificates of a CA file
/// and whether each of them can be a root. Without roots there is no TLS.
pub open spec fn chosen_roots(
    certificates: Result<Seq<Seq<u8>>, Seq<char>>,
    accepted: bool,
) -> Option<Seq<Seq<u8>>> {
    match certificates {
        Ok(roots) if accepted => Some(roots),
        _ => None,
    }
}

/// Whether every certificate can be a root of trust.
pub open spec fn all_accepted(certificates: Seq<Seq<u8>>) -> bool {
    forall|i: int| 0 <= i < certificates.len() ==> root_accepted(#[trigger] certificates[i])
}

/// The roots that a CA file gives: all its certificates, each of which has to
/// be accepted. `None` stands for a file that cannot be read.
pub open spec fn roots_of(ca: Option<Seq<u8>>) -> Option<Seq<Seq<u8>>> {
    match ca {
        Some(pem) => chosen_roots(
            pem_certificates(pem),
            pem_certificates(pem) is Ok && all_accepted(pem_certificates(pem)->Ok_0),
        ),
        None => None,
    }
}

/// The view of roots.
pub open spec fn opt_items(roots: Option<Vec<Vec<u8>>>) -> Option<Seq<Seq<u8>>> {
    match roots {
        Some(roots) => Some(item_bytes(roots@)),
        None => None,
    }
}

/// The view of optional bytes.
pub open spec fn opt_bytes(bytes: Option<&[u8]>) -> Option<Seq<u8>> {
    match bytes {
        Some(bytes) => Some(bytes@),
        None => None,
    }
}

/// The roots, given the certificates of a CA file and whether each of them can
/// be a root.
pub fn choose_roots(certificates: Result<Vec<Vec<u8>>, String>, accepted: bool) -> (r: Option<
    Vec<Vec<u8>>,
>)
    ensures
        opt_items(r) == chosen_roots(read_items(certificates), accepted),
{
    match certificates {
        Ok(roots) => if accepted {
            Some(roots)
        } else {
            None
        },
        Err(_) => None,
    }
}

/// The roots to verify servers against, out of a CA file's contents; `None`
/// leaves connections without TLS. `ca` is `None` when the file cannot be read.
pub fn roots(ca: Option<&[u8]>) -> (r: Option<Vec<Vec<u8>>>)
    ensures
        opt_items(r) == roots_of(opt_bytes(ca)),
{
    let found = match ca {
        Some(pem) => certificate_list(pem),
        None => {
            return None;
        },
    };
    let accepted = match &found {
        Ok(list) => accepts_all(list),
        Err(_) => false,
    };
    choose_roots(found, accepted)
}

fn accepts_all(list: &Vec<Vec<u8>>) -> (r: bool)
    ensures
        r == all_accepted(item_bytes(list@)),
{
    let ghost items = item_bytes(list@);
    let mut i: usize = 0;
    while i < list.len()
        invariant
            i <= list.len(),
            items == item_bytes(list@),
            forall|j: int| 0 <= j < i ==> root_accepted(#[trigger] items[j]),
        decreases list.len() - i,
    {
        assert(items[i as int] == list@[i as int]@);
        if !accepts_root(list[i].as_slice()) {
            return false;
        }
        i += 1;
    }
    true
}

/// The key of a file: the first PKCS#8 key, else the last RSA key. What cannot
/// be read is told apart from what is not there.
pub proof fn law_chosen_key(
    pkcs8: Seq<Seq<u8>>,
    rsa: Seq<Seq<u8>>,
    other: Result<Seq<Seq<u8>>, Seq<char>>,
    why: Seq<char>,
)
    ensures
        pkcs8.len() > 0 ==> chosen_key(Ok(pkcs8), other) == Ok::<KeyView, KeyErrorView>(
            KeyView::Pkcs8(pkcs8[0]),
        ),
        pkcs8.len() == 0 && rsa.len() > 0 ==> chosen_key(Ok(pkcs8), Ok(rsa)) == Ok::<
            KeyView,
            KeyErrorView,
        >(KeyView::Rsa(rsa[rsa.len() - 1])),
        pkcs8.len() == 0 && rsa.len() == 0 ==> chosen_key(Ok(pkcs8), Ok(rsa)) == Err::<
            KeyView,
            KeyErrorView,
        >(KeyErrorView::Missing),
        chosen_key(Err(why), other) == Err::<KeyView, KeyErrorView>(KeyErrorView::Pkcs8(why)),
        pkcs8.len() == 0 ==> chosen_key(Ok(pkcs8), Err(why)) == Err::<KeyView, KeyErrorView>(
            KeyErrorView::Rsa(why),
        ),
        KeyErrorView::Missing.message() == "no private key found in key file"@,
        KeyErrorView::Pkcs8(why).message() == "pkcs8 key: "@ + why,
        KeyErrorView::Rsa(why).message() == "rsa key: "@ + why,
{
}

/// The trusted roots of a file are all of its certificates, in their order, and
/// none when one of them cannot be read or is refused.
pub proof fn law_roots(pem: Seq<u8>, other: Seq<u8>, certificates: Seq<Seq<u8>>, i: int)
    requires
        pem_certificates(pem) == Ok::<Seq<Seq<u8>>, Seq<char>>(certificates),
    ensures
        roots_of(None) is None,
        pem_certificates(other) is Err ==> roots_of(Some(other)) is None,
        (forall|k: int| 0 <= k < certificates.len() ==> root_accepted(#[trigger] certificates[k]))
            ==> roots_of(Some(pem)) == Some(certificates),
        0 <= i < certificates.len() && !root_accepted(certificates[i]) ==> roots_of(
            Some(pem),
        ) is None,
{
}

} // verus!
