use dag_engine::tls::{CertificateInfo, CertificateMonitor, TlsConfig, TlsVersion};

const DAY_MS: u64 = 24 * 60 * 60 * 1000;

fn now_ms() -> i64 {
    chrono::Utc::now().timestamp_millis()
}

#[test]
fn test_tls_config_builder() {
    let config = TlsConfig::new()
        .with_enabled(true)
        .with_cert_path("/path/to/cert.pem".to_string())
        .with_key_path("/path/to/key.pem".to_string())
        .with_min_tls_version(TlsVersion::Tls13)
        .with_auto_renewal(true);
    assert!(config.enabled);
    assert_eq!(config.cert_path, "/path/to/cert.pem");
    assert_eq!(config.key_path, "/path/to/key.pem");
    assert_eq!(config.min_tls_version, TlsVersion::Tls13);
    assert!(config.auto_renewal);
}

#[test]
fn test_certificate_info_expired() {
    let mut cert_info = CertificateInfo::new("cert.pem".to_string(), "key.pem".to_string());
    cert_info.expires_at = Some(0);
    assert!(cert_info.is_expired());
    cert_info.expires_at = Some(now_ms() + 3_600_000);
    assert!(!cert_info.is_expired());
}

#[test]
fn test_certificate_info_expires_soon() {
    let mut cert_info = CertificateInfo::new("cert.pem".to_string(), "key.pem".to_string());
    cert_info.expires_at = Some(now_ms() + (10 * DAY_MS) as i64);
    assert!(cert_info.expires_soon(30 * DAY_MS));
    assert!(!cert_info.expires_soon(5 * DAY_MS));
}

#[test]
fn test_certificate_monitor() {
    let cert_info = CertificateInfo::new("cert.pem".to_string(), "key.pem".to_string());
    let mut monitor = CertificateMonitor::new(cert_info, 30 * DAY_MS);
    assert!(monitor.is_enabled());
    monitor.set_enabled(false);
    assert!(!monitor.is_enabled());
}

#[test]
fn expired_certificate_needs_renewal() {
    let mut info = CertificateInfo::new("c.pem".to_string(), "k.pem".to_string());
    info.expires_at = Some(1_000);
    let mut m = CertificateMonitor::new(info, 10_000);
    assert!(m.needs_renewal_at(5_000));
    assert!(m.needs_renewal_at(1_000));
    assert!(m.needs_renewal_at(0));
    m.set_enabled(false);
    assert!(!m.needs_renewal_at(5_000));
}
