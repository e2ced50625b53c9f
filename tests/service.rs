use iot_ingest::api::{
    health_check, latest_reply, recent_limit, recent_reply, ApiResponse, RECENT_LIMIT,
    STATUS_NOT_FOUND, STATUS_OK, STATUS_SERVER_ERROR,
};
use iot_ingest::config::{parse_u16, Config, ConfigError};
use iot_ingest::reading::{SensorData, SensorReading, Timestamp};
use iot_ingest::store::StoreError;
use iot_ingest::subscriber::{backoff_delay_ms, step, LinkAction, LinkEvent, LinkState, BACKOFF_MAX_MS};
use iot_ingest::tls::{check_certificates, tls_client_config, CertificateError};

fn row() -> SensorData {
    SensorData {
        id: 4,
        reading: SensorReading {
            co: Some(1),
            no2: Some(2),
            temperature: None,
            humidity: None,
            timestamp: Timestamp { seconds: 10, nanos: 0 },
        },
    }
}

#[test]
fn success_envelope() {
    let r = ApiResponse::success(5u8);
    assert!(r.success);
    assert_eq!(r.data, 5);
    assert_eq!(r.message, "Success");
    let f = ApiResponse::failure(0u8, "nope");
    assert!(!f.success);
    assert_eq!(f.message, "nope");
}

#[test]
fn health_is_always_ok() {
    let r = health_check();
    assert_eq!(r.status, STATUS_OK);
    assert!(r.body.success);
    assert_eq!(r.body.data, "Server is running");
}

#[test]
fn latest_reply_statuses() {
    let ok = latest_reply(Ok(Some(row())));
    assert_eq!((ok.status, ok.body.data), (STATUS_OK, Some(row())));
    let none = latest_reply(Ok(None));
    assert_eq!(none.status, STATUS_NOT_FOUND);
    assert_eq!(none.body.message, "No sensor data found");
    let err = latest_reply(Err(StoreError::Backend));
    assert_eq!(err.status, STATUS_SERVER_ERROR);
    assert!(!err.body.success);
    assert_eq!(err.body.message, "Database error");
}

#[test]
fn recent_reply_statuses() {
    let ok = recent_reply(Ok(vec![row()]));
    assert_eq!(ok.status, STATUS_OK);
    assert_eq!(ok.body.data, vec![row()]);
    let empty = recent_reply(Ok(Vec::new()));
    assert_eq!(empty.status, STATUS_OK);
    assert!(empty.body.success);
    let err = recent_reply(Err(StoreError::Backend));
    assert_eq!(err.status, STATUS_SERVER_ERROR);
    assert!(err.body.data.is_empty());
}

#[test]
fn recent_limit_defaults_to_one_hundred() {
    assert_eq!(recent_limit(None), 100);
    assert_eq!(RECENT_LIMIT, 100);
    assert_eq!(recent_limit(Some(7)), 7);
}

#[test]
fn port_parsing() {
    assert_eq!(parse_u16("8080"), Some(8080));
    assert_eq!(parse_u16("+80"), Some(80));
    assert_eq!(parse_u16("0065535"), Some(65535));
    assert_eq!(parse_u16("65536"), None);
    assert_eq!(parse_u16("123456789012"), None);
    assert_eq!(parse_u16(""), None);
    assert_eq!(parse_u16("+"), None);
    assert_eq!(parse_u16("-1"), None);
    assert_eq!(parse_u16("80a"), None);
    assert_eq!(parse_u16(" 80"), None);
}

#[test]
fn config_from_values() {
    let c = Config::from_values("u", "SECRET-REDACTED", "db", "5432", "iot", "4848", "broker", "1883", "id-1", "sensors/#").unwrap();
    assert_eq!(c.database_url, "postgres://u:SECRET-REDACTED@db:5432/iot");
    assert_eq!(c.port, 4848);
    assert_eq!(c.mqtt_host, "broker");
    assert_eq!(c.mqtt_port, 1883);
    assert_eq!(c.mqtt_client_id, "id-1");
    assert_eq!(c.mqtt_topic, "sensors/#");
}

#[test]
fn config_invalid_ports_are_errors() {
    let bad_port = Config::from_values("a", "b", "c", "d", "e", "x", "h", "8883", "i", "t");
    assert_eq!(bad_port.unwrap_err(), ConfigError::InvalidPort);
    let bad_mqtt = Config::from_values("a", "b", "c", "d", "e", "9000", "h", "", "i", "t");
    assert_eq!(bad_mqtt.unwrap_err(), ConfigError::InvalidMqttPort);
    let both = Config::from_values("a", "b", "c", "d", "e", "70000", "h", "-1", "i", "t");
    assert_eq!(both.unwrap_err(), ConfigError::InvalidPort);
}

#[test]
fn link_connects_subscribes_and_receives() {
    let (s, a) = step(LinkState::Disconnected, LinkEvent::Start);
    assert_eq!((s, a), (LinkState::Connecting { attempt: 0 }, LinkAction::Connect));
    let (s, a) = step(s, LinkEvent::ConnAck);
    assert_eq!((s, a), (LinkState::Connected, LinkAction::Subscribe));
    let (s, a) = step(s, LinkEvent::SubAck);
    assert_eq!((s, a), (LinkState::Subscribed, LinkAction::Nothing));
    let (s, a) = step(s, LinkEvent::Publish);
    assert_eq!((s, a), (LinkState::Receiving, LinkAction::Process));
    let (s, a) = step(s, LinkEvent::PingResp);
    assert_eq!((s, a), (LinkState::Receiving, LinkAction::Nothing));
}

#[test]
fn link_faults_return_to_connecting() {
    let (s, a) = step(LinkState::Receiving, LinkEvent::TransportError);
    assert_eq!((s, a), (LinkState::Connecting { attempt: 1 }, LinkAction::Retry { attempt: 1 }));
    let (s, a) = step(s, LinkEvent::TransportError);
    assert_eq!((s, a), (LinkState::Connecting { attempt: 2 }, LinkAction::Retry { attempt: 2 }));
    let (s, _) = step(LinkState::Connecting { attempt: u32::MAX }, LinkEvent::TransportError);
    assert_eq!(s, LinkState::Connecting { attempt: u32::MAX });
}

#[test]
fn link_shutdown_is_terminal() {
    let (s, a) = step(LinkState::Subscribed, LinkEvent::Shutdown);
    assert_eq!((s, a), (LinkState::ShutdownRequested, LinkAction::Stop));
    let (s, a) = step(s, LinkEvent::ConnAck);
    assert_eq!((s, a), (LinkState::ShutdownRequested, LinkAction::Nothing));
}

#[test]
fn backoff_grows_and_is_bounded() {
    assert_eq!(backoff_delay_ms(1, 0), 250);
    assert_eq!(backoff_delay_ms(1, 250), 500);
    assert_eq!(backoff_delay_ms(1, 251), 250);
    assert_eq!(backoff_delay_ms(3, 0), 1000);
    assert_eq!(backoff_delay_ms(100, 0), 15_000);
    assert_eq!(backoff_delay_ms(u32::MAX, 15_000), BACKOFF_MAX_MS);
    for attempt in 0..40u32 {
        assert!(backoff_delay_ms(attempt, u64::MAX) <= BACKOFF_MAX_MS);
    }
}

#[test]
fn empty_certificate_file_is_refused() {
    assert!(matches!(tls_client_config(b""), Err(CertificateError::NoCertificates)));
    assert!(matches!(tls_client_config(b"no pem here\n"), Err(CertificateError::NoCertificates)));
}

#[test]
fn unreadable_certificate_section_is_refused() {
    let pem = b"-----BEGIN CERTIFICATE-----\n!!!!\n-----END CERTIFICATE-----\n";
    assert!(matches!(tls_client_config(pem), Err(CertificateError::Unparsable)));
}

#[test]
fn non_certificate_der_is_rejected() {
    let pem = b"-----BEGIN CERTIFICATE-----\nAAAA\n-----END CERTIFICATE-----\n";
    assert!(matches!(tls_client_config(pem), Err(CertificateError::Rejected)));
}

#[test]
fn certificate_list_checks() {
    assert_eq!(check_certificates(None), Err(CertificateError::Unparsable));
    assert_eq!(check_certificates(Some(Vec::new())), Err(CertificateError::NoCertificates));
    assert_eq!(check_certificates(Some(vec![vec![1u8]])), Ok(vec![vec![1u8]]));
}
