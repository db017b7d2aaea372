use rptemp::client::{
    build_http_request, is_cpu_label, is_success_status, mentions_cpu, next_report_step,
    reportable_temp, saturate_temp, sensor_report, Configuration, ReportOutcome, ReportProgress,
    ReportStep,
};
use rptemp::host::HostTemp;
use rptemp::level::{is_level_name, resolve_log_level, LevelFilter};

fn round_temp(temp: f32) -> u8 {
    saturate_temp(temp.round() as i32)
}

#[test]
fn round_temp_rounds_to_nearest_degree() {
    assert_eq!(round_temp(45.4), 45);
    assert_eq!(round_temp(45.5), 46);
    assert_eq!(round_temp(45.6), 46);
}

#[test]
fn round_temp_saturates_below_zero() {
    assert_eq!(round_temp(-5.0), 0);
}

#[test]
fn round_temp_saturates_above_u8_max() {
    assert_eq!(round_temp(300.0), 255);
}

#[test]
fn round_temp_handles_nan() {
    assert_eq!(round_temp(f32::NAN), 0);
}

#[test]
fn saturate_temp_keeps_what_fits() {
    assert_eq!(saturate_temp(0), 0);
    assert_eq!(saturate_temp(255), 255);
    assert_eq!(saturate_temp(256), 255);
    assert_eq!(saturate_temp(-1), 0);
    assert_eq!(saturate_temp(i32::MIN), 0);
    assert_eq!(saturate_temp(i32::MAX), 255);
}

#[test]
fn host_temp_display_formats_host_and_temp() {
    let payload = HostTemp {
        host: "raspberrypi".to_string(),
        temp: 42,
        time: 0,
    };
    assert_eq!(payload.to_string(), "Host: raspberrypi reports temp of 42");
}

#[test]
fn build_http_request_includes_expected_headers_and_body() {
    let body = r#"{"host":"pi","temp":42,"time":0}"#;
    let request = build_http_request("192.168.1.10", 5555, body);

    assert!(request.starts_with("POST /temp HTTP/1.1\r\n"));
    assert!(request.contains("Host: 192.168.1.10:5555\r\n"));
    assert!(request.contains("Content-Type: application/json\r\n"));
    assert!(request.contains(&format!("Content-Length: {}\r\n", body.len())));
    assert!(request.contains("Connection: close\r\n"));
    assert!(request.ends_with(body));
}

#[test]
fn build_http_request_gives_the_whole_request() {
    assert_eq!(
        build_http_request("pi", 80, "{}"),
        "POST /temp HTTP/1.1\r\nHost: pi:80\r\nContent-Type: application/json\r\n\
         Content-Length: 2\r\nConnection: close\r\n\r\n{}"
    );
}

#[test]
fn build_http_request_counts_bytes_of_the_body() {
    let body = "\u{e9}\u{20ac}";
    let request = build_http_request("pi", 65535, body);
    assert!(request.contains("Content-Length: 5\r\n"));
    assert!(request.contains("Host: pi:65535\r\n"));
    let head_end = request.find("\r\n\r\n").unwrap() + 4;
    assert_eq!(&request[head_end..], body);
}

#[test]
fn is_success_status_accepts_http_200() {
    assert!(is_success_status("HTTP/1.1 200 OK\r\n"));
}

#[test]
fn is_success_status_rejects_non_200() {
    assert!(!is_success_status("HTTP/1.1 404 Not Found\r\n"));
    assert!(!is_success_status("HTTP/1.1 500 Internal Server Error\r\n"));
}

#[test]
fn is_success_status_rejects_empty_or_garbage() {
    assert!(!is_success_status(""));
    assert!(!is_success_status("not a status line"));
}

#[test]
fn is_success_status_wants_the_whole_prefix() {
    assert!(is_success_status("HTTP/1.1 200"));
    assert!(!is_success_status("HTTP/1.1 20"));
    assert!(!is_success_status("HTTP/1.0 200 OK\r\n"));
    assert!(!is_success_status(" HTTP/1.1 200 OK\r\n"));
    for status in 100..1000 {
        assert_eq!(
            is_success_status(&format!("HTTP/1.1 {status} x\r\n")),
            status == 200
        );
    }
}

#[test]
fn resolve_log_level_parses_valid_level() {
    assert_eq!(resolve_log_level("debug"), LevelFilter::Debug);
}

#[test]
fn resolve_log_level_is_case_insensitive() {
    assert_eq!(resolve_log_level("WARN"), LevelFilter::Warn);
}

#[test]
fn resolve_log_level_defaults_to_info_for_invalid_name() {
    assert_eq!(resolve_log_level("bogus"), LevelFilter::Info);
}

#[test]
fn resolve_log_level_knows_every_level() {
    assert_eq!(resolve_log_level("off"), LevelFilter::Off);
    assert_eq!(resolve_log_level("Error"), LevelFilter::Error);
    assert_eq!(resolve_log_level("wArN"), LevelFilter::Warn);
    assert_eq!(resolve_log_level("INFO"), LevelFilter::Info);
    assert_eq!(resolve_log_level("Debug"), LevelFilter::Debug);
    assert_eq!(resolve_log_level("trace"), LevelFilter::Trace);
    assert_eq!(resolve_log_level(""), LevelFilter::Info);
    assert_eq!(resolve_log_level(" off"), LevelFilter::Info);
    assert!(is_level_name("oFF"));
    assert!(!is_level_name("bogus"));
    assert!(!is_level_name("warning"));
}

fn read_from(log_level: &str) -> Configuration {
    Configuration {
        monitor_host: "192.168.1.10".to_string(),
        monitor_port: 1234,
        report_freq: 7,
        log_level: log_level.to_string(),
    }
}

fn is_client_default(config: &Configuration) -> bool {
    config.monitor_host == "localhost"
        && config.monitor_port == 5555
        && config.report_freq == 30
        && config.log_level == "info"
}

#[test]
fn client_configuration_is_kept_if_valid() {
    assert!(read_from("warn").is_valid());
    let config = Configuration::or_default(Some(read_from("warn")));
    assert_eq!(config.monitor_host, "192.168.1.10");
    assert_eq!(config.monitor_port, 1234);
    assert_eq!(config.report_freq, 7);
    assert_eq!(config.log_level, "warn");
    assert_eq!(config.monitor_address(), "192.168.1.10:1234");
}

#[test]
fn client_configuration_falls_back_to_default() {
    assert!(is_client_default(&Configuration::default()));
    assert!(is_client_default(&Configuration::or_default(None)));
    assert!(!read_from("bogus").is_valid());
    assert!(is_client_default(&Configuration::or_default(Some(read_from("bogus")))));
    assert!(Configuration::default().is_valid());
    assert_eq!(Configuration::default().monitor_address(), "localhost:5555");
}

#[test]
fn cpu_labels_are_found_in_any_case() {
    assert!(is_cpu_label("cpu"));
    assert!(is_cpu_label("CPU thermal"));
    assert!(is_cpu_label("coretemp cPu 0"));
    assert!(!is_cpu_label("gpu"));
    assert!(!is_cpu_label("cp"));
    assert!(!is_cpu_label(""));
    assert!(is_cpu_label("\u{c9}CPU"));
    assert!(mentions_cpu("the cpu"));
    assert!(!mentions_cpu("the CPU"));
}

#[test]
fn cpu_sensors_with_a_reading_are_reported() {
    assert_eq!(reportable_temp("CPU", Some(41)), Some(41));
    assert_eq!(reportable_temp("CPU", Some(300)), Some(255));
    assert_eq!(reportable_temp("CPU", None), None);
    assert_eq!(reportable_temp("nvme", Some(40)), None);
}

#[test]
fn sensor_report_carries_host_temperature_and_time() {
    let report = sensor_report("pi", "CPU thermal", Some(300), 17).unwrap();
    assert_eq!(report.host, "pi");
    assert_eq!(report.temp, 255);
    assert_eq!(report.time, 17);
    assert!(sensor_report("pi", "CPU thermal", None, 17).is_none());
    assert!(sensor_report("pi", "nvme", Some(40), 17).is_none());
}

#[test]
fn report_is_accepted_when_every_step_goes_well() {
    let mut step = ReportStep::Connect;
    for expected in [
        ReportStep::Serialize,
        ReportStep::Send,
        ReportStep::ReadStatus,
    ] {
        assert_eq!(
            next_report_step(step, true, ""),
            ReportProgress::Next(expected)
        );
        step = expected;
    }
    assert_eq!(
        next_report_step(step, true, "HTTP/1.1 200 OK\r\n"),
        ReportProgress::Finished(ReportOutcome::Accepted)
    );
    assert_eq!(
        next_report_step(step, true, "HTTP/1.1 500 Internal Server Error\r\n"),
        ReportProgress::Finished(ReportOutcome::Rejected)
    );
}

#[test]
fn report_ends_at_the_step_that_fails() {
    for step in [
        ReportStep::Connect,
        ReportStep::Serialize,
        ReportStep::Send,
        ReportStep::ReadStatus,
    ] {
        assert_eq!(
            next_report_step(step, false, "HTTP/1.1 200 OK\r\n"),
            ReportProgress::Finished(ReportOutcome::Failed(step))
        );
    }
}
