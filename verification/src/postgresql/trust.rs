//! Root certificates that the server's certificate is verified against.

use crate::postgresql::error::PgError;
use rustls::pki_types::pem::PemObject;
use vstd::prelude::*;

verus! {

/// The certificates of a PEM file in order, if each of its sections can be read.
pub uninterp spec fn pem_certificates(pem: Seq<u8>) -> Option<Seq<Seq<u8>>>;

/// Whether a certificate in DER can be a trust anchor.
pub uninterp spec fn anchors(certificate: Seq<u8>) -> bool;

/// The bytes of some certificates.
pub open spec fn bytes_of(certificates: Seq<Vec<u8>>) -> Seq<Seq<u8>> {
    certificates.map_values(|certificate: Vec<u8>| certificate@)
}

/// `rustls::pki_types::CertificateDer::pem_slice_iter`, read to its end: the certificates in
/// DER, or nothing when a section cannot be read. Sections of other kinds are passed over.
#[verifier::external_body]
fn read_pem(pem: &[u8]) -> (r: Option<Vec<Vec<u8>>>)
    ensures
        match r {
            Some(certificates) => pem_certificates(pem@) == Some(bytes_of(certificates@)),
            None => pem_certificates(pem@) is None,
        },
{
    rustls::pki_types::CertificateDer::pem_slice_iter(pem)
        .map(|read| read.map(|certificate| certificate.to_vec()))
        .collect::<Result<Vec<Vec<u8>>, _>>()
        .ok()
}

/// `rustls::RootCertStore::add` to an empty store: whether the certificate is taken.
#[verifier::external_body]
fn is_anchor(certificate: &Vec<u8>) -> (found: bool)
    ensures
        found == anchors(certificate@),
{
    rustls::RootCertStore::empty().add(certificate.as_slice().into()).is_ok()
}

/// The roots of a PEM file, if it can be used: it is readable, holds a certificate, and each
/// of its certificates can be a trust anchor.
pub open spec fn roots_of(pem: Seq<u8>) -> Option<Seq<Seq<u8>>> {
    match pem_certificates(pem) {
        None => None,
        Some(certificates) => if usable(
            certificates.len(),
            certificates.map_values(|certificate: Seq<u8>| anchors(certificate)),
        ) {
            Some(certificates)
        } else {
            None
        },
    }
}

/// Whether that many certificates can be used, given which of them can be trust anchors: none
/// of them may be unfit, and one is needed.
pub open spec fn usable(count: nat, fit: Seq<bool>) -> bool {
    count > 0 && forall|i: int| 0 <= i < fit.len() ==> #[trigger] fit[i]
}

/// Decides whether certificates can be used, given which of them can be trust anchors.
pub fn all_usable(count: usize, fit: &Vec<bool>) -> (found: bool)
    ensures
        found == usable(count as nat, fit@),
{
    if count == 0 {
        return false;
    }
    let mut i: usize = 0;
    while i < fit.len()
        invariant
            i <= fit@.len(),
            forall|j: int| 0 <= j < i ==> #[trigger] fit@[j],
        decreases fit.len() - i,
    {
        if !fit[i] {
            return false;
        }
        i += 1;
    }
    true
}

/// Reads the roots of a PEM file.
pub fn trusted_roots(pem: &[u8]) -> (r: Result<Vec<Vec<u8>>, PgError>)
    ensures
        match r {
            Ok(roots) => roots_of(pem@) == Some(bytes_of(roots@)),
            Err(error) => error == PgError::Tls && roots_of(pem@) is None,
        },
{
    let certificates = match read_pem(pem) {
        None => {
            return Err(PgError::Tls);
        },
        Some(certificates) => certificates,
    };
    let ghost all = bytes_of(certificates@);
    let mut fit: Vec<bool> = Vec::new();
    let mut i: usize = 0;
    while i < certificates.len()
        invariant
            i <= certificates@.len(),
            all == bytes_of(certificates@),
            fit@.len() == i,
            forall|j: int| 0 <= j < i ==> (#[trigger] fit@[j]) == anchors(all[j]),
        decreases certificates.len() - i,
    {
        fit.push(is_anchor(&certificates[i]));
        i += 1;
    }
    assert(fit@ =~= all.map_values(|certificate: Seq<u8>| anchors(certificate)));
    if all_usable(certificates.len(), &fit) {
        Ok(certificates)
    } else {
        Err(PgError::Tls)
    }
}

/// A PEM file's certificates are its roots exactly when it can be read, holds one at least,
/// and each of them can be a trust anchor; and then they are its roots, all and in order.
pub proof fn law_roots_are_all_the_certificates(pem: Seq<u8>)
    ensures
        roots_of(pem) is Some <==> (pem_certificates(pem) matches Some(certificates)
            && certificates.len() >= 1 && forall|i: int|
            0 <= i < certificates.len() ==> anchors(#[trigger] certificates[i])),
        roots_of(pem) matches Some(roots) ==> pem_certificates(pem) == Some(roots),
{
    if pem_certificates(pem) is Some {
        let certificates = pem_certificates(pem)->0;
        let fit = certificates.map_values(|certificate: Seq<u8>| anchors(certificate));
        assert forall|i: int| 0 <= i < certificates.len() implies #[trigger] fit[i] == anchors(
            certificates[i],
        ) by {}
        if usable(certificates.len(), fit) {
            assert forall|i: int| 0 <= i < certificates.len() implies anchors(
                #[trigger] certificates[i],
            ) by {
                assert(fit[i]);
            }
        }
        if forall|i: int| 0 <= i < certificates.len() ==> anchors(#[trigger] certificates[i]) {
            assert forall|i: int| 0 <= i < fit.len() implies #[trigger] fit[i] by {
                assert(anchors(certificates[i]));
            }
        }
    }
}

} // verus!
