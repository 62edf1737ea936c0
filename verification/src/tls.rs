//! The TLS settings of the listener: what the configuration must hold, and
//! what the listener is set up with.

use vstd::prelude::*;

verus! {

/// A key-exchange group of TLS.
#[derive(Clone, Copy, Debug, PartialEq, Eq, Structural)]
pub enum NamedGroup {
    /// The post-quantum group.
    Kyber768,
    /// The classical group.
    X25519,
}

/// A version of the TLS protocol.
#[derive(Clone, Copy, Debug, PartialEq, Eq, Structural)]
pub enum ProtocolVersion {
    TLSv1_3,
}

/// A value that the TLS section of the configuration lacks.
#[derive(Clone, Copy, Debug, PartialEq, Eq, Structural)]
pub enum ConfigError {
    /// `tls.certs` is not set.
    MissingCerts,
    /// `tls.key` is not set.
    MissingKey,
}

/// What the listener is set up with.
#[derive(Debug, PartialEq, Eq)]
pub struct TlsConfig {
    /// The path of the certificate chain.
    pub certs: String,
    /// The path of the private key.
    pub key: String,
    /// The key-exchange groups, the preferred one first.
    pub key_share_groups: Vec<NamedGroup>,
    /// The protocol versions that are offered.
    pub versions: Vec<ProtocolVersion>,
}

/// The key-exchange groups of the listener: the post-quantum group, then the
/// classical one to fall back on.
pub open spec fn preferred_groups() -> Seq<NamedGroup> {
    seq![NamedGroup::Kyber768, NamedGroup::X25519]
}

/// The TLS setup for a configuration. Both the certificates and the key must
/// be set; where both are missing, the certificates are reported. The
/// listener prefers the post-quantum key exchange and speaks TLS 1.3 only.
pub fn load_tls_config(certs: Option<String>, key: Option<String>) -> (config: Result<TlsConfig, ConfigError>)
    ensures
        match config {
            Ok(tls) => Some(tls.certs) == certs && Some(tls.key) == key && tls.key_share_groups@
                == preferred_groups() && tls.versions@ == seq![ProtocolVersion::TLSv1_3],
            Err(error) => if certs is None {
                error == ConfigError::MissingCerts
            } else {
                key is None && error == ConfigError::MissingKey
            },
        },
{
    let Some(certs) = certs else {
        return Err(ConfigError::MissingCerts);
    };
    let Some(key) = key else {
        return Err(ConfigError::MissingKey);
    };
    let mut key_share_groups = Vec::new();
    key_share_groups.push(NamedGroup::Kyber768);
    key_share_groups.push(NamedGroup::X25519);
    let mut versions = Vec::new();
    versions.push(ProtocolVersion::TLSv1_3);
    assert(key_share_groups@ =~= preferred_groups());
    assert(versions@ =~= seq![ProtocolVersion::TLSv1_3]);
    Ok(TlsConfig { certs, key, key_share_groups, versions })
}

} // verus!
