//! TLS configuration and certificate expiry monitoring. Times are milliseconds
//! since the UNIX epoch; durations are milliseconds.

use vstd::prelude::*;
use crate::ids::{clock_reading, now_millis};

verus! {

/// Thirty days in milliseconds: the default renewal threshold.
pub const THIRTY_DAYS_MS: u64 = 2592000000u64;

/// Metadata of a TLS certificate.
#[derive(Debug, Clone, PartialEq, Eq)]
pub struct CertificateInfo {
    /// Certificate file path.
    pub cert_path: String,
    /// Private key file path.
    pub key_path: String,
    /// Expiration time, when known.
    pub expires_at: Option<i64>,
    /// Whether the certificate is valid.
    pub is_valid: bool,
}

/// Time left before expiry at `now`, when the expiry is known and not yet past.
pub open spec fn time_left(info: CertificateInfo, now: i64) -> Option<int> {
    match info.expires_at {
        Some(e) => if e >= now { Some(e - now) } else { None },
        None => None,
    }
}

/// Renewal is due at `now` under a threshold: the certificate has expired already or
/// expires less than the threshold later.
pub open spec fn renewal_due(info: CertificateInfo, now: i64, threshold: u64) -> bool {
    info.expires_at matches Some(e) && (e <= now || e - now < threshold)
}

/// The certificate expires less than `within` after `now`.
pub open spec fn expires_within(info: CertificateInfo, now: i64, within: u64) -> bool {
    time_left(info, now) matches Some(t) && t < within
}

impl CertificateInfo {
    /// Certificate information with unknown expiry, not yet valid.
    pub fn new(cert_path: String, key_path: String) -> (r: Self)
        ensures
            r == (CertificateInfo { cert_path, key_path, expires_at: None, is_valid: false }),
    {
        CertificateInfo { cert_path, key_path, expires_at: None, is_valid: false }
    }

    /// Whether the certificate has expired at `now`.
    pub fn is_expired_at(&self, now: i64) -> (r: bool)
        ensures
            r == (self.expires_at matches Some(e) && now > e),
    {
        match self.expires_at {
            Some(e) => now > e,
            None => false,
        }
    }

    /// Whether the certificate has expired now (never, when the expiry is unknown).
    pub fn is_expired(&self) -> (r: bool)
        ensures
            exists|now: i64|
                #[trigger] clock_reading(now) && r == (
                self.expires_at matches Some(e) && now > e),
    {
        let now = now_millis();
        self.is_expired_at(now)
    }

    /// Time left before expiry at `now`.
    pub fn time_until_expiration_at(&self, now: i64) -> (r: Option<u64>)
        ensures
            r matches Some(t) ==> time_left(*self, now) == Some(t as int),
            r is None ==> time_left(*self, now) is None,
    {
        match self.expires_at {
            Some(e) => if e >= now {
                Some(((e as i128) - (now as i128)) as u64)
            } else {
                None
            },
            None => None,
        }
    }

    /// Time left before expiry now.
    pub fn time_until_expiration(&self) -> (r: Option<u64>)
        ensures
            exists|now: i64|
                #[trigger] clock_reading(now) && match r {
                    Some(t) => time_left(*self, now) == Some(t as int),
                    None => time_left(*self, now) is None,
                },
    {
        let now = now_millis();
        self.time_until_expiration_at(now)
    }

    /// Whether the certificate expires less than `within` after `now`.
    pub fn expires_soon_at(&self, now: i64, within: u64) -> (r: bool)
        ensures
            r == expires_within(*self, now, within),
    {
        match self.time_until_expiration_at(now) {
            Some(t) => t < within,
            None => false,
        }
    }

    /// Whether the certificate expires less than `within` from now.
    pub fn expires_soon(&self, within: u64) -> (r: bool)
        ensures
            exists|now: i64|
                #[trigger] clock_reading(now) && r
                    == expires_within(*self, now, within),
    {
        let now = now_millis();
        self.expires_soon_at(now, within)
    }
}

/// Minimum TLS version.
#[derive(Debug, Clone, Copy, PartialEq, Eq)]
pub enum TlsVersion {
    Tls12,
    Tls13,
}

/// TLS configuration.
#[derive(Debug, Clone, PartialEq, Eq)]
pub struct TlsConfig {
    pub enabled: bool,
    pub cert_path: String,
    pub key_path: String,
    pub min_tls_version: TlsVersion,
    pub client_auth: bool,
    pub ca_cert_path: Option<String>,
    /// Renew when less than this much time is left.
    pub renewal_threshold: u64,
    pub auto_renewal: bool,
}

/// TLS errors.
#[derive(Debug, Clone, PartialEq, Eq)]
pub enum TlsError {
    CertificateNotFound(String),
    KeyNotFound(String),
    CaCertNotFound(String),
    MissingCaCert,
    CertificateParseError(String),
    KeyParseError(String),
    IoError(String),
}

impl TlsError {
    /// The displayed text of the error.
    pub fn message(&self) -> (r: String)
        ensures
            r@ == match *self {
                TlsError::CertificateNotFound(p) => "Certificate file not found: "@ + p@,
                TlsError::KeyNotFound(p) => "Private key file not found: "@ + p@,
                TlsError::CaCertNotFound(p) => "CA certificate file not found: "@ + p@,
                TlsError::MissingCaCert => "Client authentication enabled but CA certificate path not provided"@,
                TlsError::CertificateParseError(m) => "Failed to parse certificate: "@ + m@,
                TlsError::KeyParseError(m) => "Failed to parse private key: "@ + m@,
                TlsError::IoError(m) => "I/O error: "@ + m@,
            },
    {
        let (prefix, rest): (&str, Option<&String>) = match self {
            TlsError::CertificateNotFound(p) => ("Certificate file not found: ", Some(p)),
            TlsError::KeyNotFound(p) => ("Private key file not found: ", Some(p)),
            TlsError::CaCertNotFound(p) => ("CA certificate file not found: ", Some(p)),
            TlsError::MissingCaCert => ("Client authentication enabled but CA certificate path not provided", None),
            TlsError::CertificateParseError(m) => ("Failed to parse certificate: ", Some(m)),
            TlsError::KeyParseError(m) => ("Failed to parse private key: ", Some(m)),
            TlsError::IoError(m) => ("I/O error: ", Some(m)),
        };
        let mut r = String::from_str(prefix);
        if let Some(t) = rest {
            r.append(t.as_str());
        }
        r
    }
}

/// The outcome of validating a TLS configuration, given which files exist.
pub open spec fn tls_check(c: TlsConfig, cert_exists: bool, key_exists: bool, ca_exists: bool) -> Result<(), TlsError> {
    if !c.enabled {
        Ok(())
    } else if !cert_exists {
        Err(TlsError::CertificateNotFound(c.cert_path))
    } else if !key_exists {
        Err(TlsError::KeyNotFound(c.key_path))
    } else if c.client_auth {
        match c.ca_cert_path {
            Some(p) => if ca_exists { Ok(()) } else { Err(TlsError::CaCertNotFound(p)) },
            None => Err(TlsError::MissingCaCert),
        }
    } else {
        Ok(())
    }
}

impl TlsConfig {
    /// The defaults: disabled, `cert.pem` / `key.pem`, TLS 1.2, no client authentication,
    /// thirty-day renewal threshold, no automatic renewal.
    pub fn new() -> (r: Self)
        ensures
            !r.enabled,
            r.cert_path@ == "cert.pem"@,
            r.key_path@ == "key.pem"@,
            r.min_tls_version == TlsVersion::Tls12,
            !r.client_auth,
            r.ca_cert_path is None,
            r.renewal_threshold == THIRTY_DAYS_MS,
            !r.auto_renewal,
    {
        TlsConfig {
            enabled: false,
            cert_path: String::from_str("cert.pem"),
            key_path: String::from_str("key.pem"),
            min_tls_version: TlsVersion::Tls12,
            client_auth: false,
            ca_cert_path: None,
            renewal_threshold: THIRTY_DAYS_MS,
            auto_renewal: false,
        }
    }

    /// The defaults, enabled and restricted to TLS 1.3.
    pub fn tls13_only() -> (r: Self)
        ensures
            r.enabled,
            r.min_tls_version == TlsVersion::Tls13,
            r.cert_path@ == "cert.pem"@,
            r.key_path@ == "key.pem"@,
            !r.client_auth,
            r.ca_cert_path is None,
            r.renewal_threshold == THIRTY_DAYS_MS,
            !r.auto_renewal,
    {
        TlsConfig { enabled: true, min_tls_version: TlsVersion::Tls13, ..Self::new() }
    }

    /// An enabled TLS 1.2 configuration with the given files.
    pub fn production(cert_path: String, key_path: String) -> (r: Self)
        ensures
            r == (TlsConfig {
                enabled: true,
                cert_path,
                key_path,
                min_tls_version: TlsVersion::Tls12,
                client_auth: false,
                ca_cert_path: None,
                renewal_threshold: THIRTY_DAYS_MS,
                auto_renewal: false,
            }),
    {
        TlsConfig {
            enabled: true,
            cert_path,
            key_path,
            min_tls_version: TlsVersion::Tls12,
            client_auth: false,
            ca_cert_path: None,
            renewal_threshold: THIRTY_DAYS_MS,
            auto_renewal: false,
        }
    }

    /// Enable or disable TLS.
    pub fn with_enabled(self, enabled: bool) -> (r: Self)
        ensures
            r == (TlsConfig { enabled, ..self }),
    {
        TlsConfig { enabled, ..self }
    }

    /// Set the certificate path.
    pub fn with_cert_path(self, path: String) -> (r: Self)
        ensures
            r == (TlsConfig { cert_path: path, ..self }),
    {
        TlsConfig { cert_path: path, ..self }
    }

    /// Set the private key path.
    pub fn with_key_path(self, path: String) -> (r: Self)
        ensures
            r == (TlsConfig { key_path: path, ..self }),
    {
        TlsConfig { key_path: path, ..self }
    }

    /// Set the minimum TLS version.
    pub fn with_min_tls_version(self, version: TlsVersion) -> (r: Self)
        ensures
            r == (TlsConfig { min_tls_version: version, ..self }),
    {
        TlsConfig { min_tls_version: version, ..self }
    }

    /// Enable client authentication with the given CA certificate.
    pub fn with_client_auth(self, ca_cert_path: String) -> (r: Self)
        ensures
            r == (TlsConfig { client_auth: true, ca_cert_path: Some(ca_cert_path), ..self }),
    {
        TlsConfig { client_auth: true, ca_cert_path: Some(ca_cert_path), ..self }
    }

    /// Set the renewal threshold.
    pub fn with_renewal_threshold(self, threshold: u64) -> (r: Self)
        ensures
            r == (TlsConfig { renewal_threshold: threshold, ..self }),
    {
        TlsConfig { renewal_threshold: threshold, ..self }
    }

    /// Enable or disable automatic renewal.
    pub fn with_auto_renewal(self, enable: bool) -> (r: Self)
        ensures
            r == (TlsConfig { auto_renewal: enable, ..self }),
    {
        TlsConfig { auto_renewal: enable, ..self }
    }

    /// Validate the configuration given whether the certificate, key and CA files exist:
    /// a disabled configuration is always valid; otherwise the files must exist, and a
    /// CA path must be given (and exist) when client authentication is on.
    pub fn validate(&self, cert_exists: bool, key_exists: bool, ca_exists: bool) -> (r: Result<(), TlsError>)
        ensures
            r == tls_check(*self, cert_exists, key_exists, ca_exists),
    {
        if !self.enabled {
            return Ok(());
        }
        if !cert_exists {
            return Err(TlsError::CertificateNotFound(self.cert_path.clone()));
        }
        if !key_exists {
            return Err(TlsError::KeyNotFound(self.key_path.clone()));
        }
        if self.client_auth {
            match &self.ca_cert_path {
                Some(p) => {
                    if !ca_exists {
                        return Err(TlsError::CaCertNotFound(p.clone()));
                    }
                },
                None => {
                    return Err(TlsError::MissingCaCert);
                },
            }
        }
        Ok(())
    }
}

/// Tracks the expiry of a certificate.
#[derive(Debug, Clone, PartialEq, Eq)]
pub struct CertificateMonitor {
    cert_info: CertificateInfo,
    enabled: bool,
    renewal_threshold: u64,
}

impl CertificateMonitor {
    /// The monitored certificate.
    pub closed spec fn info(&self) -> CertificateInfo {
        self.cert_info
    }

    /// Whether monitoring is on.
    pub closed spec fn on(&self) -> bool {
        self.enabled
    }

    /// The renewal threshold.
    pub closed spec fn threshold(&self) -> u64 {
        self.renewal_threshold
    }

    /// A monitor, enabled.
    pub fn new(cert_info: CertificateInfo, renewal_threshold: u64) -> (r: Self)
        ensures
            r.info() == cert_info,
            r.on(),
            r.threshold() == renewal_threshold,
    {
        CertificateMonitor { cert_info, enabled: true, renewal_threshold }
    }

    /// Whether the certificate needs renewal at `now`: monitoring is on and it has
    /// expired already or expires within the threshold.
    pub fn needs_renewal_at(&self, now: i64) -> (r: bool)
        ensures
            r == (self.on() && renewal_due(self.info(), now, self.threshold())),
    {
        if !self.enabled {
            return false;
        }
        if self.cert_info.is_expired_at(now) || (self.cert_info.expires_at == Some(now)) {
            return true;
        }
        self.cert_info.expires_soon_at(now, self.renewal_threshold)
    }

    /// Whether the certificate needs renewal now.
    pub fn needs_renewal(&self) -> (r: bool)
        ensures
            exists|now: i64|
                #[trigger] clock_reading(now) && r == (
                self.on() && renewal_due(self.info(), now, self.threshold())),
    {
        let now = now_millis();
        self.needs_renewal_at(now)
    }

    /// The monitored certificate.
    pub fn cert_info(&self) -> (r: &CertificateInfo)
        ensures
            *r == self.info(),
    {
        &self.cert_info
    }

    /// Turn monitoring on or off.
    pub fn set_enabled(&mut self, enabled: bool)
        ensures
            final(self).on() == enabled,
            final(self).info() == old(self).info(),
            final(self).threshold() == old(self).threshold(),
    {
        self.enabled = enabled;
    }

    /// Whether monitoring is on.
    pub fn is_enabled(&self) -> (r: bool)
        ensures
            r == self.on(),
    {
        self.enabled
    }
}

/// Check a certificate and key pair from the results of reading their files: the
/// error of the certificate first, then that of the key; both read is success.
pub fn validate_cert_key_pair(cert: Result<Vec<u8>, TlsError>, key: Result<Vec<u8>, TlsError>) -> (r: Result<(), TlsError>)
    ensures
        match (cert, key) {
            (Err(e), _) => r == Err::<(), TlsError>(e),
            (Ok(_), Err(e)) => r == Err::<(), TlsError>(e),
            (Ok(_), Ok(_)) => r is Ok,
        },
{
    match cert {
        Err(e) => Err(e),
        Ok(_) => match key {
            Err(e) => Err(e),
            Ok(_) => Ok(()),
        },
    }
}

impl Default for TlsConfig {
    fn default() -> (r: Self)
        ensures
            !r.enabled,
            r.cert_path@ == "cert.pem"@,
            r.key_path@ == "key.pem"@,
            r.min_tls_version == TlsVersion::Tls12,
            !r.client_auth,
            r.ca_cert_path is None,
            r.renewal_threshold == THIRTY_DAYS_MS,
            !r.auto_renewal,
    {
        TlsConfig::new()
    }
}

} // verus!
