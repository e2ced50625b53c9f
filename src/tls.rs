use vstd::prelude::*;

verus! {

#[verifier::external_type_specification]
#[verifier::external_body]
pub struct ExRootCertStore(rustls::RootCertStore);

#[verifier::external_type_specification]
#[verifier::external_body]
pub struct ExClientConfig(rustls::ClientConfig);

#[verifier::external_type_specification]
#[verifier::external_body]
pub struct ExTlsError(rustls::Error);

/// The DER bodies of the certificate sections that rustls-pemfile reads from
/// a PEM text, or `None` when a section cannot be read.
pub uninterp spec fn pem_certificates(pem: Seq<u8>) -> Option<Seq<Seq<u8>>>;

/// Whether rustls takes the DER certificate as a trust anchor.
pub uninterp spec fn trust_anchor_accepts(der: Seq<u8>) -> bool;

/// The trust anchor (subject, public key and name constraints) that rustls
/// extracts from a DER certificate.
pub uninterp spec fn anchor_of(der: Seq<u8>) -> Seq<u8>;

/// The trust anchors a root store holds, in the order they were added.
pub uninterp spec fn root_anchors(store: rustls::RootCertStore) -> Seq<Seq<u8>>;

/// The trust anchors a client configuration checks server certificates
/// against.
pub uninterp spec fn config_anchors(config: rustls::ClientConfig) -> Seq<Seq<u8>>;

/// Whether a client configuration offers a client certificate.
pub uninterp spec fn offers_client_certificate(config: rustls::ClientConfig) -> bool;

/// The anchors of the certificates, in order.
pub open spec fn anchors_of(certs: Seq<Seq<u8>>) -> Seq<Seq<u8>> {
    certs.map_values(|c: Seq<u8>| anchor_of(c))
}

/// Relies on rustls_pemfile::certs over an in-memory reader, collected until
/// the first error: the outcome depends on the bytes alone.
#[verifier::external_body]
fn read_certificates(pem: &[u8]) -> (r: Option<Vec<Vec<u8>>>)
    ensures
        r is Some <==> pem_certificates(pem@) is Some,
        r matches Some(v) ==> v.deep_view() == pem_certificates(pem@)->Some_0,
{
    let mut reader: &[u8] = pem;
    rustls_pemfile::certs(&mut reader).map(|c| c.map(|d| d.to_vec())).collect::<Result<
        Vec<Vec<u8>>,
        _,
    >>().ok()
}

/// Relies on rustls::RootCertStore::empty: a store with no anchors.
#[verifier::external_body]
fn empty_root_store() -> (r: rustls::RootCertStore)
    ensures
        root_anchors(r) == Seq::<Seq<u8>>::empty(),
{
    rustls::RootCertStore::empty()
}

/// Relies on rustls::RootCertStore::add: whether the certificate is taken
/// depends on its DER bytes alone; the anchor of a taken one is appended,
/// and a refused one leaves the store as it was.
#[verifier::external_body]
fn add_root(store: &mut rustls::RootCertStore, der: &Vec<u8>) -> (r: Result<(), rustls::Error>)
    ensures
        r is Ok <==> trust_anchor_accepts(der@),
        r is Ok ==> root_anchors(*final(store)) == root_anchors(*old(store)).push(anchor_of(der@)),
        r is Err ==> root_anchors(*final(store)) == root_anchors(*old(store)),
{
    store.add(rustls_pki_types::CertificateDer::from(der.clone()))
}

/// Relies on rustls::ClientConfig::builder: server certificates are checked
/// against the store's anchors (`with_root_certificates`), and no client
/// certificate is offered (`with_no_client_auth`).
#[verifier::external_body]
fn client_config_with_roots(store: rustls::RootCertStore) -> (r: rustls::ClientConfig)
    ensures
        config_anchors(r) == root_anchors(store),
        !offers_client_certificate(r),
{
    rustls::ClientConfig::builder().with_root_certificates(store).with_no_client_auth()
}

/// Why no transport-security context could be built.
#[derive(Clone, Copy, Debug, PartialEq, Eq, Structural)]
pub enum CertificateError {
    /// The certificate file could not be read.
    Unreadable,
    /// A PEM section could not be read.
    Unparsable,
    /// The file holds no certificate.
    NoCertificates,
    /// A certificate was refused as a trust anchor.
    Rejected,
}

/// The outcome of building trust anchors from a PEM text.
pub open spec fn anchors_outcome(parsed: Option<Seq<Seq<u8>>>) -> Result<(), CertificateError> {
    match parsed {
        None => Err(CertificateError::Unparsable),
        Some(certs) => if certs.len() == 0 {
            Err(CertificateError::NoCertificates)
        } else if exists|i: int| 0 <= i < certs.len() && !trust_anchor_accepts(#[trigger] certs[i]) {
            Err(CertificateError::Rejected)
        } else {
            Ok(())
        },
    }
}

/// Checks what was read from a PEM text: it must be readable and hold at
/// least one certificate.
pub fn check_certificates(parsed: Option<Vec<Vec<u8>>>) -> (r: Result<Vec<Vec<u8>>, CertificateError>)
    ensures
        r == match parsed {
            None => Err(CertificateError::Unparsable),
            Some(v) => if v@.len() == 0 {
                Err(CertificateError::NoCertificates)
            } else {
                Ok(v)
            },
        },
{
    match parsed {
        None => Err(CertificateError::Unparsable),
        Some(v) => if v.len() == 0 {
            Err(CertificateError::NoCertificates)
        } else {
            Ok(v)
        },
    }
}

/// Builds the trust anchors from the PEM text of a CA certificate file: on
/// success, exactly the anchors of the certificates read, in file order.
pub fn build_root_store(pem: &[u8]) -> (r: Result<rustls::RootCertStore, CertificateError>)
    ensures
        match anchors_outcome(pem_certificates(pem@)) {
            Ok(_) => r matches Ok(store) && root_anchors(store) == anchors_of(
                pem_certificates(pem@)->Some_0,
            ),
            Err(e) => r == Err::<rustls::RootCertStore, CertificateError>(e),
        },
{
    let certs = match check_certificates(read_certificates(pem)) {
        Ok(v) => v,
        Err(e) => return Err(e),
    };
    let ghost parsed = pem_certificates(pem@)->Some_0;
    let mut store = empty_root_store();
    let mut i: usize = 0;
    while i < certs.len()
        invariant
            i <= certs@.len(),
            certs@.len() > 0,
            certs.deep_view() == parsed,
            pem_certificates(pem@) == Some(parsed),
            forall|k: int| 0 <= k < i ==> trust_anchor_accepts(#[trigger] parsed[k]),
            root_anchors(store) == anchors_of(parsed.subrange(0, i as int)),
        decreases certs@.len() - i,
    {
        assert(certs@[i as int]@ == parsed[i as int]);
        match add_root(&mut store, &certs[i]) {
            Ok(()) => {},
            Err(_) => return Err(CertificateError::Rejected),
        }
        i += 1;
        assert(anchors_of(parsed.subrange(0, i as int)) =~= anchors_of(parsed.subrange(0, i - 1)).push(
            anchor_of(parsed[i - 1]),
        ));
    }
    assert(parsed.subrange(0, i as int) =~= parsed);
    Ok(store)
}

/// Builds the transport-security context for the broker connection from the
/// PEM text of the CA certificate: server certificates are checked against
/// exactly the anchors of the certificates read, and no client certificate
/// is offered.
pub fn tls_client_config(pem: &[u8]) -> (r: Result<rustls::ClientConfig, CertificateError>)
    ensures
        match anchors_outcome(pem_certificates(pem@)) {
            Ok(_) => r matches Ok(config) && config_anchors(config) == anchors_of(
                pem_certificates(pem@)->Some_0,
            ) && !offers_client_certificate(config),
            Err(e) => r == Err::<rustls::ClientConfig, CertificateError>(e),
        },
{
    match build_root_store(pem) {
        Ok(store) => Ok(client_config_with_roots(store)),
        Err(e) => Err(e),
    }
}

} // verus!
