use music_backend::config::{
    health_endpoint, listen_address, listen_host, listen_port, log_level, max_audio_bytes,
    parse_env_u64, request_body_limit, uploads_root,
};

fn set(s: &str) -> Option<String> {
    Some(s.to_string())
}

#[test]
fn settings_have_defaults() {
    assert_eq!(uploads_root(None), "uploads");
    assert_eq!(uploads_root(set("/var/music")), "/var/music");
    assert_eq!(uploads_root(set("")), "");
    assert_eq!(listen_host(None), "0.0.0.0");
    assert_eq!(listen_host(set("127.0.0.1")), "127.0.0.1");
    assert_eq!(log_level(None), "info");
    assert_eq!(log_level(set("debug")), "debug");
}

#[test]
fn numeric_settings_fall_back() {
    assert_eq!(parse_env_u64(None, 3), 3);
    assert_eq!(parse_env_u64(set("12"), 3), 12);
    assert_eq!(parse_env_u64(set("twelve"), 3), 3);
    assert_eq!(parse_env_u64(set("-1"), 3), 3);
    assert_eq!(parse_env_u64(set("18446744073709551616"), 3), 3);
    assert_eq!(max_audio_bytes(None), 26214400);
    assert_eq!(max_audio_bytes(set("1000")), 1000);
    assert_eq!(listen_port(None), 8085);
    assert_eq!(listen_port(set("80")), 80);
    assert_eq!(listen_port(set("65535")), 65535);
    assert_eq!(listen_port(set("65536")), 8085);
}

#[test]
fn addresses_and_limits() {
    assert_eq!(listen_address("0.0.0.0", 8085), "0.0.0.0:8085");
    assert_eq!(request_body_limit(26214400), 26215424);
    assert_eq!(request_body_limit(0), 1024);
}

#[test]
fn health_is_ok() {
    let reply = health_endpoint();
    assert_eq!(reply.status.number(), 200);
    assert_eq!(reply.body.status, "ok");
}
