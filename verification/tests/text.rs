use shack_amqp_monitor::text::{append_decimal, log_format, AccessInfo, LogRecord, OptFmt};

fn decimal(n: u64) -> String {
    let mut text = "n=".to_string();
    append_decimal(&mut text, n);
    text
}

#[test]
fn numbers_print_in_decimal() {
    for n in [0, 7, 10, 99, 100, 1_234_567_890, u64::MAX] {
        assert_eq!(decimal(n), format!("n={}", n));
    }
}

#[test]
fn optional_values_print_as_a_dash_where_missing() {
    assert_eq!(OptFmt(Some("127.0.0.1:80".to_string())).fmt(), "127.0.0.1:80");
    assert_eq!(OptFmt(Some(String::new())).fmt(), "");
    assert_eq!(OptFmt(None).fmt(), "-");
}

#[test]
fn access_line() {
    let info = AccessInfo {
        remote_addr: OptFmt(Some("10.0.0.1:5123".to_string())),
        method: "GET".to_string(),
        path: "/api/v1/history/alias/x".to_string(),
        version: "HTTP/1.1".to_string(),
        status: 404,
        referer: OptFmt(None),
        user_agent: OptFmt(Some("curl/8.0".to_string())),
        elapsed: "1.5ms".to_string(),
    };
    assert_eq!(
        info.to_line(),
        "10.0.0.1:5123 \"GET /api/v1/history/alias/x HTTP/1.1\" 404 \"-\" \"curl/8.0\" 1.5ms"
    );
}

#[test]
fn log_line() {
    let record = LogRecord {
        now: "2021-05-01 12:00:00.000".to_string(),
        level: "INFO".to_string(),
        target: "api".to_string(),
        file: Some("src/main.rs".to_string()),
        line: Some(42),
        args: "started".to_string(),
    };
    assert_eq!(
        log_format(&record),
        "[2021-05-01 12:00:00.000] INFO [api] src/main.rs:42: started"
    );
}

#[test]
fn log_line_without_a_place() {
    let record = LogRecord {
        now: "t".to_string(),
        level: "WARN".to_string(),
        target: "x".to_string(),
        file: None,
        line: None,
        args: String::new(),
    };
    assert_eq!(log_format(&record), "[t] WARN [x] <unnamed>:0: ");
}
