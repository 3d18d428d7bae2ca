//! Where a server's TLS material comes from, which item of a PEM file is its
//! private key, and the client-certificate check that lets every client in.
use crate::server::config::{ServerConfig, SslConfig};
use rustls_pemfile::Item;
use std::sync::Arc;
use vstd::prelude::*;

verus! {

/// A client-certificate check that accepts every client, asks none for a
/// certificate, and offers the signature schemes of `supported_verify_schemes`.
#[derive(Debug)]
pub struct AllowAny {}

/// The signature schemes a client may sign with.
#[derive(Clone, Copy, PartialEq, Eq, Structural, Debug)]
pub enum VerifyScheme {
    EcdsaNistp521Sha512,
    EcdsaNistp384Sha384,
    EcdsaNistp256Sha256,
    RsaPkcs1Sha256,
    RsaPkcs1Sha384,
    RsaPkcs1Sha512,
    RsaPssSha512,
    RsaPssSha384,
    RsaPssSha256,
    Ed25519,
}

/// The schemes `AllowAny` offers, strongest ECDSA first.
pub open spec fn offered_schemes() -> Seq<VerifyScheme> {
    seq![
        VerifyScheme::EcdsaNistp521Sha512,
        VerifyScheme::EcdsaNistp384Sha384,
        VerifyScheme::EcdsaNistp256Sha256,
        VerifyScheme::RsaPkcs1Sha256,
        VerifyScheme::RsaPkcs1Sha384,
        VerifyScheme::RsaPkcs1Sha512,
        VerifyScheme::RsaPssSha512,
        VerifyScheme::RsaPssSha384,
        VerifyScheme::RsaPssSha256,
        VerifyScheme::Ed25519,
    ]
}

impl AllowAny {
    /// A shared handle to the check.
    pub fn new() -> (check: Arc<Self>)
        ensures
            *check == (AllowAny {}),
    {
        Arc::new(AllowAny {})
    }

    /// Clients are never made to show a certificate.
    pub fn client_auth_mandatory(&self) -> (mandatory: bool)
        ensures
            !mandatory,
    {
        false
    }

    /// The distinguished names (DER bytes) hinted to clients as trusted
    /// roots: none.
    pub fn root_hint_subjects(&self) -> (subjects: &[Vec<u8>])
        ensures
            subjects@.len() == 0,
    {
        let none: &[Vec<u8>] = &[];
        assert(none@ =~= Seq::<Vec<u8>>::empty());
        none
    }

    /// Every client certificate is accepted.
    pub fn verify_client_cert(&self) -> (accepted: bool)
        ensures
            accepted,
    {
        true
    }

    /// The signature schemes offered: see `offered_schemes`.
    pub fn supported_verify_schemes(&self) -> (schemes: Vec<VerifyScheme>)
        ensures
            schemes@ == offered_schemes(),
    {
        let schemes = vec![
            VerifyScheme::EcdsaNistp521Sha512,
            VerifyScheme::EcdsaNistp384Sha384,
            VerifyScheme::EcdsaNistp256Sha256,
            VerifyScheme::RsaPkcs1Sha256,
            VerifyScheme::RsaPkcs1Sha384,
            VerifyScheme::RsaPkcs1Sha512,
            VerifyScheme::RsaPssSha512,
            VerifyScheme::RsaPssSha384,
            VerifyScheme::RsaPssSha256,
            VerifyScheme::Ed25519,
        ];
        assert(schemes@ =~= offered_schemes());
        schemes
    }
}

/// The environment variables a server may take its TLS material from, each
/// as it was found or absent.
#[derive(Debug, Default, Clone)]
pub struct SslEnv {
    /// `PRIVATE_CA_CRT`
    pub private_ca_crt: Option<String>,
    /// `PRIVATE_CA_KEY`
    pub private_ca_key: Option<String>,
    /// `SSL_DOMAIN`
    pub ssl_domain: Option<String>,
    /// `SSL_CRT_NAME`
    pub ssl_crt_name: Option<String>,
    /// `SSL_CERTS`
    pub ssl_certs: Option<String>,
    /// `SSL_PRIVATE_KEY`
    pub ssl_private_key: Option<String>,
    /// `SSL_ROOT_CERTS`
    pub ssl_root_certs: Option<String>,
}

/// Where a server's certificate, key and root certificates come from.
#[derive(Debug, Clone, PartialEq)]
pub enum SslSource {
    /// PEM text of the certificate chain, the key and the root certificates.
    Given { certs: String, key: String, root_certs: String },
    /// A certificate for `domain` under the subject `name`, to be made and
    /// signed with a private CA; the CA's certificate is the root.
    CaSigned { ca_crt: String, ca_key: String, domain: String, name: String },
}

/// Why a server has no TLS material.
#[derive(Debug, Clone, Copy, PartialEq, Eq, Structural)]
pub enum SslSourceError {
    /// Neither the settings nor the environment name any.
    InvalidSslConfig,
}

/// Where the TLS material comes from: the settings' own, else a certificate
/// signed with the private CA that the environment names together with a
/// domain and a subject, else the certificates and key that the environment
/// holds; with none of these, there is none.
pub open spec fn ssl_source_of(config: Option<SslConfig>, env: SslEnv) -> Result<SslSource, SslSourceError> {
    match config {
        Some(c) => Ok(SslSource::Given { certs: c.certs, key: c.key, root_certs: c.root_certs }),
        None => if env.private_ca_crt is Some && env.private_ca_key is Some && env.ssl_domain is Some
            && env.ssl_crt_name is Some {
            Ok(
                SslSource::CaSigned {
                    ca_crt: env.private_ca_crt->0,
                    ca_key: env.private_ca_key->0,
                    domain: env.ssl_domain->0,
                    name: env.ssl_crt_name->0,
                },
            )
        } else if env.ssl_certs is Some && env.ssl_private_key is Some && env.ssl_root_certs is Some {
            Ok(
                SslSource::Given {
                    certs: env.ssl_certs->0,
                    key: env.ssl_private_key->0,
                    root_certs: env.ssl_root_certs->0,
                },
            )
        } else {
            Err(SslSourceError::InvalidSslConfig)
        },
    }
}

/// Where the TLS material comes from: see `ssl_source_of`.
pub fn ssl_source(config: Option<SslConfig>, env: SslEnv) -> (source: Result<SslSource, SslSourceError>)
    ensures
        source == ssl_source_of(config, env),
{
    match config {
        Some(c) => Ok(SslSource::Given { certs: c.certs, key: c.key, root_certs: c.root_certs }),
        None => match (env.private_ca_crt, env.private_ca_key, env.ssl_domain, env.ssl_crt_name) {
            (Some(ca_crt), Some(ca_key), Some(domain), Some(name)) => Ok(
                SslSource::CaSigned { ca_crt, ca_key, domain, name },
            ),
            _ => match (env.ssl_certs, env.ssl_private_key, env.ssl_root_certs) {
                (Some(certs), Some(key), Some(root_certs)) => Ok(SslSource::Given { certs, key, root_certs }),
                _ => Err(SslSourceError::InvalidSslConfig),
            },
        },
    }
}

/// The name a server's certificate is filed under: its TLS settings' domain,
/// or `localhost`.
pub fn certificate_name(config: &ServerConfig) -> (name: String)
    ensures
        name@ == (match config.ssl_config {
            Some(c) => c.domain@,
            None => "localhost"@,
        }),
{
    match &config.ssl_config {
        Some(c) => c.domain.clone(),
        None => String::from_str("localhost"),
    }
}

/// What kind of item a PEM section holds.
#[derive(Clone, Copy, PartialEq, Eq, Structural, Debug)]
pub enum PemKind {
    Pkcs8Key,
    Pkcs1Key,
    Sec1Key,
    X509Certificate,
    Crl,
    Csr,
    Other,
}

/// The kinds of private key.
#[derive(Clone, Copy, PartialEq, Eq, Structural, Debug)]
pub enum KeyKind {
    Pkcs8,
    Pkcs1,
    Sec1,
}

/// The key kind of a PEM item, if it holds a private key.
pub open spec fn key_kind_of(kind: PemKind) -> Option<KeyKind> {
    match kind {
        PemKind::Pkcs8Key => Some(KeyKind::Pkcs8),
        PemKind::Pkcs1Key => Some(KeyKind::Pkcs1),
        PemKind::Sec1Key => Some(KeyKind::Sec1),
        _ => None,
    }
}

/// The key kind of a PEM item, if it holds a private key.
pub fn handle_item(kind: PemKind) -> (key: Option<KeyKind>)
    ensures
        key == key_kind_of(kind),
{
    match kind {
        PemKind::Pkcs8Key => Some(KeyKind::Pkcs8),
        PemKind::Pkcs1Key => Some(KeyKind::Pkcs1),
        PemKind::Sec1Key => Some(KeyKind::Sec1),
        _ => None,
    }
}

/// Why no private key was found.
#[derive(Clone, Copy, PartialEq, Eq, Structural, Debug)]
pub enum KeyError {
    /// No item of the file holds a private key.
    NotFound,
}

/// The first item, in file order, that holds a private key, with its kind;
/// an error if there is none.
pub fn first_private_key(items: &Vec<PemKind>) -> (found: Result<(usize, KeyKind), KeyError>)
    ensures
        match found {
            Ok((i, k)) => i < items@.len() && key_kind_of(items@[i as int]) == Some(k)
                && forall|j: int| 0 <= j < i ==> key_kind_of(#[trigger] items@[j]) is None,
            Err(_) => forall|j: int| 0 <= j < items@.len() ==> key_kind_of(#[trigger] items@[j]) is None,
        },
{
    let mut i: usize = 0;
    while i < items.len()
        invariant
            i <= items@.len(),
            forall|j: int| 0 <= j < i ==> key_kind_of(#[trigger] items@[j]) is None,
        decreases items.len() - i,
    {
        if let Some(k) = handle_item(items[i]) {
            return Ok((i, k));
        }
        i = i + 1;
    }
    Err(KeyError::NotFound)
}

/// The sections of a PEM text, in order: the kind of each and the DER bytes
/// it holds (none for a section that is not understood or cannot be decoded).
pub uninterp spec fn pem_sections(bytes: Seq<u8>) -> Seq<(PemKind, Seq<u8>)>;

/// The sections as kinds and byte sequences.
pub open spec fn sections_view(items: Seq<(PemKind, Vec<u8>)>) -> Seq<(PemKind, Seq<u8>)> {
    items.map_values(|it: (PemKind, Vec<u8>)| (it.0, it.1@))
}

/// `rustls_pemfile::read_all`: every section of the text, each decoded or an
/// error, until none is left. Reading from bytes in memory makes the result
/// a function of the bytes; what it is, section by section, is named
/// `pem_sections`, and not stated further.
#[verifier::external_body]
fn pem_items(bytes: &[u8]) -> (items: Vec<(PemKind, Vec<u8>)>)
    ensures
        sections_view(items@) == pem_sections(bytes@),
{
    let mut reader = std::io::BufReader::new(bytes);
    rustls_pemfile::read_all(&mut reader).map(|item| match item {
        Ok(Item::Pkcs8Key(k)) => (PemKind::Pkcs8Key, k.secret_pkcs8_der().to_vec()),
        Ok(Item::Pkcs1Key(k)) => (PemKind::Pkcs1Key, k.secret_pkcs1_der().to_vec()),
        Ok(Item::Sec1Key(k)) => (PemKind::Sec1Key, k.secret_sec1_der().to_vec()),
        Ok(Item::X509Certificate(c)) => (PemKind::X509Certificate, c.to_vec()),
        Ok(Item::Crl(c)) => (PemKind::Crl, c.to_vec()),
        Ok(Item::Csr(c)) => (PemKind::Csr, c.to_vec()),
        _ => (PemKind::Other, Vec::new()),
    }).collect()
}

/// The DER bytes of the certificate sections, in order.
pub open spec fn certificates_of(sections: Seq<(PemKind, Seq<u8>)>) -> Seq<Seq<u8>>
    decreases sections.len(),
{
    if sections.len() == 0 {
        Seq::empty()
    } else {
        certificates_of(sections.drop_last()) + if sections.last().0 == PemKind::X509Certificate {
            seq![sections.last().1]
        } else {
            Seq::empty()
        }
    }
}

/// The certificates of a PEM text, as `rustls_pemfile::certs` yields them
/// (the certificate sections of `read_all`), with the sections that cannot be
/// read left out.
pub fn load_certs(bytes: &[u8]) -> (certs: Vec<Vec<u8>>)
    ensures
        certs@.map_values(|c: Vec<u8>| c@) == certificates_of(pem_sections(bytes@)),
{
    let items = pem_items(bytes);
    let ghost sections = sections_view(items@);
    let mut certs: Vec<Vec<u8>> = Vec::new();
    let mut rest = items;
    let mut taken: usize = 0;
    let total = rest.len();
    assert(rest@ =~= items@.skip(0));
    assert(sections.take(0) =~= Seq::<(PemKind, Seq<u8>)>::empty());
    while rest.len() > 0
        invariant
            sections == sections_view(items@),
            total == items@.len(),
            taken <= total,
            rest@ == items@.skip(taken as int),
            certs@.map_values(|c: Vec<u8>| c@) == certificates_of(sections.take(taken as int)),
        decreases rest.len(),
    {
        let (kind, der) = rest.remove(0);
        let ghost before = certs@;
        proof {
            assert(sections.take(taken + 1 as int).drop_last() =~= sections.take(taken as int));
            assert(sections.take(taken + 1 as int).last() == sections[taken as int]);
            assert(sections[taken as int] == (kind, der@));
            assert(rest@ =~= items@.skip(taken + 1 as int));
        }
        if kind == PemKind::X509Certificate {
            certs.push(der);
            assert(certs@.map_values(|c: Vec<u8>| c@) =~= before.map_values(|c: Vec<u8>| c@).push(certs@.last()@));
        }
        taken = taken + 1;
    }
    assert(sections.take(taken as int) =~= sections);
    certs
}

/// The first private key of a PEM text, with its kind and DER bytes; an
/// error when no section holds one.
pub fn load_private_key(bytes: &[u8]) -> (key: Result<(KeyKind, Vec<u8>), KeyError>)
    ensures
        match key {
            Ok((k, der)) => exists|i: int|
                0 <= i < pem_sections(bytes@).len() && key_kind_of(#[trigger] pem_sections(bytes@)[i].0) == Some(k)
                    && pem_sections(bytes@)[i].1 == der@ && forall|j: int|
                    0 <= j < i ==> key_kind_of(#[trigger] pem_sections(bytes@)[j].0) is None,
            Err(_) => forall|j: int|
                0 <= j < pem_sections(bytes@).len() ==> key_kind_of(#[trigger] pem_sections(bytes@)[j].0) is None,
        },
{
    let items = pem_items(bytes);
    let ghost sections = sections_view(items@);
    let mut kinds: Vec<PemKind> = Vec::new();
    let mut i: usize = 0;
    while i < items.len()
        invariant
            i <= items@.len(),
            kinds@.len() == i,
            forall|j: int| 0 <= j < i ==> kinds@[j] == items@[j].0,
        decreases items.len() - i,
    {
        kinds.push(items[i].0);
        i = i + 1;
    }
    match first_private_key(&kinds) {
        Ok((i, k)) => {
            let der = items[i].1.clone();
            proof {
                assert(sections[i as int] == (items@[i as int].0, items@[i as int].1@));
                assert(der@ == items@[i as int].1@);
                assert(key_kind_of(pem_sections(bytes@)[i as int].0) == Some(k));
                assert forall|j: int| 0 <= j < i implies key_kind_of(#[trigger] sections[j].0) is None by {
                    assert(kinds@[j] == items@[j].0);
                }
            }
            Ok((k, der))
        },
        Err(e) => {
            proof {
                assert forall|j: int| 0 <= j < sections.len() implies key_kind_of(#[trigger] sections[j].0) is None by {
                    assert(kinds@[j] == items@[j].0);
                }
            }
            Err(e)
        },
    }
}

/// Whether `rustls_pki_types::DnsName::try_from` accepts the text as a DNS name.
pub uninterp spec fn dns_name_valid(name: Seq<char>) -> bool;

/// `rustls_pki_types::DnsName::try_from(&str)`: whether the text is a valid
/// DNS name. The rules it checks are named `dns_name_valid` and not stated.
#[verifier::external_body]
fn is_dns_name(name: &str) -> (valid: bool)
    ensures
        valid == dns_name_valid(name@),
{
    rustls_pki_types::DnsName::try_from(name).is_ok()
}

/// Why an identity cannot be added to a resolver.
#[derive(Clone, Copy, PartialEq, Eq, Structural, Debug)]
pub enum ResolverError {
    /// The name is not a DNS name.
    BadDnsName,
    /// The identity's end-entity certificate cannot be parsed.
    BadEntityCert,
}

/// The position of the first entry named `name`, looking from `from` on.
pub open spec fn entry_index<K: ?Sized>(entries: Seq<(Seq<char>, Arc<K>)>, name: Seq<char>, from: int) -> Option<int>
    decreases entries.len() - from,
{
    if from < 0 || from >= entries.len() {
        None
    } else if entries[from].0 == name {
        Some(from)
    } else {
        entry_index(entries, name, from + 1)
    }
}

/// The identity of the first entry named `name`.
pub open spec fn entry_for<K: ?Sized>(entries: Seq<(Seq<char>, Arc<K>)>, name: Seq<char>) -> Option<Arc<K>> {
    match entry_index(entries, name, 0) {
        Some(i) => Some(entries[i].1),
        None => None,
    }
}

/// The entries with `key` filed under `name`: in place of the entry of that
/// name, or after the others.
pub open spec fn put_entry<K: ?Sized>(entries: Seq<(Seq<char>, Arc<K>)>, name: Seq<char>, key: Arc<K>) -> Seq<(Seq<char>, Arc<K>)> {
    match entry_index(entries, name, 0) {
        Some(i) => entries.update(i, (name, key)),
        None => entries.push((name, key)),
    }
}

/// The identity served for a client: the one filed under the name it asks
/// for, else the first one added.
pub open spec fn resolved<K: ?Sized>(entries: Seq<(Seq<char>, Arc<K>)>, server_name: Option<Seq<char>>) -> Option<Arc<K>> {
    match server_name {
        Some(n) => match entry_for(entries, n) {
            Some(k) => Some(k),
            None => if entries.len() > 0 {
                Some(entries[0].1)
            } else {
                None
            },
        },
        None => if entries.len() > 0 {
            Some(entries[0].1)
        } else {
            None
        },
    }
}

proof fn lemma_entry_index<K: ?Sized>(entries: Seq<(Seq<char>, Arc<K>)>, name: Seq<char>, from: int)
    requires
        0 <= from,
    ensures
        match entry_index(entries, name, from) {
            Some(i) => from <= i < entries.len() && entries[i].0 == name && forall|j: int|
                from <= j < i ==> entries[j].0 != name,
            None => forall|j: int| from <= j < entries.len() ==> entries[j].0 != name,
        },
    decreases entries.len() - from,
{
    if from < entries.len() && entries[from].0 != name {
        lemma_entry_index(entries, name, from + 1);
    }
}

/// The identities a TLS server offers, filed under their DNS names in the
/// order added; the first one added also answers clients whose name matches
/// none.
pub struct CertResolver<K: ?Sized> {
    by_name: Vec<(String, Arc<K>)>,
}

impl<K: ?Sized> View for CertResolver<K> {
    type V = Seq<(Seq<char>, Arc<K>)>;

    closed spec fn view(&self) -> Seq<(Seq<char>, Arc<K>)> {
        self.by_name@.map_values(|e: (String, Arc<K>)| (e.0@, e.1))
    }
}

impl<K: ?Sized> CertResolver<K> {
    /// A resolver with no identities.
    pub fn new() -> (resolver: Self)
        ensures
            resolver@.len() == 0,
    {
        let resolver = CertResolver { by_name: Vec::new() };
        assert(resolver@ =~= Seq::<(Seq<char>, Arc<K>)>::empty());
        resolver
    }

    fn position(&self, name: &String) -> (found: Option<usize>)
        ensures
            self@.len() == self.by_name@.len(),
            found matches Some(i) ==> i < self.by_name@.len() && self@[i as int] == (self.by_name@[i as int].0@, self.by_name@[i as int].1),
            match found {
                Some(i) => entry_index(self@, name@, 0) == Some(i as int),
                None => entry_index(self@, name@, 0) is None,
            },
    {
        proof {
            lemma_entry_index(self@, name@, 0);
        }
        let mut i: usize = 0;
        while i < self.by_name.len()
            invariant
                forall|j: int| 0 <= j < i && j < self@.len() ==> self@[j].0 != name@,
                self@.len() == self.by_name@.len(),
            decreases self.by_name.len() - i,
        {
            if self.by_name[i].0 == *name {
                assert(self@[i as int].0 == name@);
                proof {
                    lemma_entry_index(self@, name@, 0);
                    match entry_index(self@, name@, 0) {
                        Some(k) => {
                            if k < i {
                            } else if k > i {
                            }
                        },
                        None => {},
                    }
                }
                return Some(i);
            }
            i = i + 1;
        }
        None
    }

    /// Files `key` under the lower-case form of `name`, replacing the
    /// identity of that name, if any; refused, with nothing changed, when
    /// `name` is not a DNS name or the identity's certificate cannot be
    /// parsed (`entity_cert_parses`).
    pub fn add(&mut self, name: &str, key: Arc<K>, entity_cert_parses: bool) -> (added: Result<(), ResolverError>)
        ensures
            !dns_name_valid(name@) ==> added == Err::<(), ResolverError>(ResolverError::BadDnsName) && final(self)@ == old(self)@,
            dns_name_valid(name@) && !entity_cert_parses ==> added == Err::<(), ResolverError>(ResolverError::BadEntityCert)
                && final(self)@ == old(self)@,
            dns_name_valid(name@) && entity_cert_parses ==> added is Ok && final(self)@ == put_entry(
                old(self)@,
                crate::text::ascii_lower_seq(name@),
                key,
            ),
    {
        if !is_dns_name(name) {
            return Err(ResolverError::BadDnsName);
        }
        if !entity_cert_parses {
            return Err(ResolverError::BadEntityCert);
        }
        let lower = crate::text::string_of(&crate::codegen::lower_chars(name));
        let ghost before = self@;
        match self.position(&lower) {
            Some(i) => {
                self.by_name.set(i, (lower, key));
                assert(self@ =~= before.update(i as int, (crate::text::ascii_lower_seq(name@), key)));
            },
            None => {
                self.by_name.push((lower, key));
                assert(self@ =~= before.push((crate::text::ascii_lower_seq(name@), key)));
            },
        }
        Ok(())
    }

    /// The identity served for a client: see `resolved`.
    pub fn resolve(&self, server_name: Option<&str>) -> (key: Option<Arc<K>>)
        ensures
            key == resolved(self@, match server_name {
                Some(n) => Some(n@),
                None => None,
            }),
    {
        assert(self@.len() == self.by_name@.len());
        assert(self.by_name@.len() > 0 ==> self@[0] == (self.by_name@[0].0@, self.by_name@[0].1));
        let first = if self.by_name.len() > 0 {
            Some(crate::arc_clone(&self.by_name[0].1))
        } else {
            None
        };
        match server_name {
            Some(n) => {
                let wanted = String::from_str(n);
                match self.position(&wanted) {
                    Some(i) => Some(crate::arc_clone(&self.by_name[i].1)),
                    None => first,
                }
            },
            None => first,
        }
    }
}

/// What is filed can be found: after filing `key` under `name`, a client
/// asking for `name` gets `key`; a client asking for no name, or for a name
/// not filed, gets the first identity filed.
pub proof fn law_resolve_after_add<K: ?Sized>(entries: Seq<(Seq<char>, Arc<K>)>, name: Seq<char>, key: Arc<K>, other: Seq<char>)
    ensures
        resolved(put_entry(entries, name, key), Some(name)) == Some(key),
        resolved(put_entry(entries, name, key), None) == Some(put_entry(entries, name, key)[0].1),
        entry_for(put_entry(entries, name, key), other) is None ==> resolved(put_entry(entries, name, key), Some(other))
            == Some(put_entry(entries, name, key)[0].1),
        entries.len() > 0 ==> put_entry(entries, name, key)[0].1 == (if entries[0].0 == name {
            key
        } else {
            entries[0].1
        }),
{
    lemma_entry_index(entries, name, 0);
    let after = put_entry(entries, name, key);
    lemma_entry_index(after, name, 0);
    match entry_index(entries, name, 0) {
        Some(i) => {
            assert(after[i].0 == name);
            match entry_index(after, name, 0) {
                Some(k) => {
                    if k < i {
                        assert(after[k] == entries[k]);
                    }
                    if k > i {
                        assert(after[i].0 == name);
                    }
                },
                None => {
                    assert(after[i].0 == name);
                },
            }
        },
        None => {
            let last = entries.len() as int;
            assert(after[last].0 == name);
            match entry_index(after, name, 0) {
                Some(k) => {
                    if k < last {
                        assert(after[k] == entries[k]);
                    }
                },
                None => {},
            }
        },
    }
}

/// Where the TLS material comes from, by precedence: settings given in the
/// configuration win over the environment, whatever it holds; else a
/// private CA named in full (`PRIVATE_CA_CRT`, `PRIVATE_CA_KEY`,
/// `SSL_DOMAIN`, `SSL_CRT_NAME`) wins over certificates in the environment;
/// else `SSL_CERTS`, `SSL_PRIVATE_KEY` and `SSL_ROOT_CERTS` together; with
/// none of these there is no TLS material.
pub proof fn law_ssl_source_precedence(config: Option<SslConfig>, env: SslEnv)
    ensures
        config matches Some(c) ==> ssl_source_of(config, env) == Ok::<SslSource, SslSourceError>(
            SslSource::Given { certs: c.certs, key: c.key, root_certs: c.root_certs },
        ),
        config is None && env.private_ca_crt is Some && env.private_ca_key is Some && env.ssl_domain is Some
            && env.ssl_crt_name is Some ==> ssl_source_of(config, env) == Ok::<SslSource, SslSourceError>(
            SslSource::CaSigned {
                ca_crt: env.private_ca_crt->0,
                ca_key: env.private_ca_key->0,
                domain: env.ssl_domain->0,
                name: env.ssl_crt_name->0,
            },
        ),
        config is None && !(env.private_ca_crt is Some && env.private_ca_key is Some && env.ssl_domain is Some
            && env.ssl_crt_name is Some) && env.ssl_certs is Some && env.ssl_private_key is Some
            && env.ssl_root_certs is Some ==> ssl_source_of(config, env) == Ok::<SslSource, SslSourceError>(
            SslSource::Given {
                certs: env.ssl_certs->0,
                key: env.ssl_private_key->0,
                root_certs: env.ssl_root_certs->0,
            },
        ),
        config is None && !(env.private_ca_crt is Some && env.private_ca_key is Some && env.ssl_domain is Some
            && env.ssl_crt_name is Some) && !(env.ssl_certs is Some && env.ssl_private_key is Some
            && env.ssl_root_certs is Some) ==> ssl_source_of(config, env) == Err::<SslSource, SslSourceError>(
            SslSourceError::InvalidSslConfig,
        ),
{
}

/// PKCS#8, PKCS#1 and SEC1 items are private keys of those kinds; no other
/// PEM item is a key.
pub proof fn law_key_kinds(kind: PemKind)
    ensures
        key_kind_of(PemKind::Pkcs8Key) == Some(KeyKind::Pkcs8),
        key_kind_of(PemKind::Pkcs1Key) == Some(KeyKind::Pkcs1),
        key_kind_of(PemKind::Sec1Key) == Some(KeyKind::Sec1),
        kind != PemKind::Pkcs8Key && kind != PemKind::Pkcs1Key && kind != PemKind::Sec1Key ==> key_kind_of(kind) is None,
{
}

/// The certificates of a PEM text are the bytes of its certificate
/// sections, in order, and nothing else.
pub proof fn law_certificates_are_the_certificate_sections(sections: Seq<(PemKind, Seq<u8>)>)
    ensures
        certificates_of(sections) == sections.filter_map(
            |x: (PemKind, Seq<u8>)|
                if x.0 == PemKind::X509Certificate {
                    Some(x.1)
                } else {
                    None
                },
        ),
    decreases sections.len(),
{
    if sections.len() > 0 {
        law_certificates_are_the_certificate_sections(sections.drop_last());
    }
}

} // verus!
