use std::time::{SystemTime, UNIX_EPOCH};

use rptemp::clock::{
    current_instant, instant_of, is_active_at, is_host_active, receipt_timestamp,
    seconds_since_epoch, EARLIEST_INSTANT, MAX_TIMESTAMP,
};
use rptemp::host::HostTemp;
use rptemp::level::{resolve_log_level, LevelFilter};
use rptemp::monitor::{
    fan_payload, health_check, report_temp, Action, Configuration, Event, Phase,
};
use rptemp::table::HostTable;

const SECOND: i128 = 1_000_000_000;

fn now_secs() -> u64 {
    SystemTime::now()
        .duration_since(UNIX_EPOCH)
        .unwrap()
        .as_secs()
}

fn report(host: &str, temp: u8, time: u64) -> HostTemp {
    HostTemp {
        host: host.to_string(),
        temp,
        time,
    }
}

#[test]
fn is_host_active_true_for_current_timestamp() {
    assert!(is_host_active(now_secs()));
}

#[test]
fn is_host_active_true_for_one_minute_ago() {
    assert!(is_host_active(now_secs() - 60));
}

#[test]
fn is_host_active_false_for_five_minutes_ago() {
    assert!(!is_host_active(now_secs() - 5 * 60));
}

#[test]
fn is_host_active_false_for_epoch() {
    assert!(!is_host_active(0));
}

#[test]
fn is_host_active_true_for_future_timestamp() {
    assert!(is_host_active(now_secs() + 60));
}

#[test]
fn is_active_at_turns_false_after_three_minutes() {
    assert!(is_active_at(1000, 1180 * SECOND));
    assert!(!is_active_at(1000, 1180 * SECOND + 1));
    assert!(!is_active_at(999, 1180 * SECOND));
    assert!(is_active_at(1000, 0));
    assert!(is_active_at(0, -SECOND));
    assert!(is_active_at(MAX_TIMESTAMP, 1180 * SECOND));
}

#[test]
fn is_active_at_is_false_without_a_threshold() {
    assert!(is_active_at(0, EARLIEST_INSTANT + 180 * SECOND));
    assert!(!is_active_at(0, EARLIEST_INSTANT + 180 * SECOND - 1));
    assert!(!is_active_at(0, i128::MIN));
}

#[test]
fn current_instant_is_the_system_time() {
    let before = now_secs();
    let secs = seconds_since_epoch(current_instant()).unwrap();
    assert!(before <= secs && secs <= now_secs());
}

#[test]
fn readings_before_the_epoch_are_negative_instants() {
    assert_eq!(instant_of(Ok(7)), 7);
    assert_eq!(instant_of(Ok(0)), 0);
    assert_eq!(instant_of(Err(7)), -7);
}

#[test]
fn receipt_timestamps_are_held_to_the_clock() {
    assert_eq!(receipt_timestamp(1_999_999_999), 1);
    assert_eq!(receipt_timestamp(-1), 0);
    assert_eq!(receipt_timestamp(i64::MAX as i128 * SECOND * 2), MAX_TIMESTAMP);
    assert_eq!(seconds_since_epoch(2 * SECOND), Some(2));
    assert_eq!(seconds_since_epoch(-1), None);
}

#[test]
fn host_temp_display_format() {
    let host = HostTemp {
        host: "raspberrypi".to_string(),
        temp: 42,
        time: 0,
    };
    assert_eq!(host.to_string(), "Host: raspberrypi reports temp of 42");
}

#[test]
fn main_resolve_log_level_parses_valid_level() {
    assert_eq!(resolve_log_level("debug"), LevelFilter::Debug);
}

#[test]
fn main_resolve_log_level_is_case_insensitive() {
    assert_eq!(resolve_log_level("WARN"), LevelFilter::Warn);
}

#[test]
fn main_resolve_log_level_defaults_to_info_for_invalid_name() {
    assert_eq!(resolve_log_level("bogus"), LevelFilter::Info);
}

#[test]
fn health_check_returns_ok() {
    let (status, body) = health_check();
    assert_eq!(status, 200);
    assert_eq!(body, "OK");
}

#[test]
fn report_temp_stores_host_and_returns_ok() {
    let mut hosts = HostTable::new();
    let (status, body) = report_temp(
        Some(&mut hosts),
        report("host-a", 55, now_secs()),
        now_secs(),
    );

    assert_eq!(status, 200);
    assert_eq!(body, "OK");
    assert_eq!(hosts.get("host-a").unwrap().temp, 55);
}

#[test]
fn report_temp_overwrites_existing_host() {
    let mut hosts = HostTable::new();
    for temp in [10, 20] {
        report_temp(
            Some(&mut hosts),
            report("host-b", temp, now_secs()),
            now_secs(),
        );
    }

    assert_eq!(hosts.len(), 1);
    assert_eq!(hosts.get("host-b").unwrap().temp, 20);
}

#[test]
fn report_temp_returns_500_when_lock_is_poisoned() {
    let (status, body) = report_temp(None, report("host-c", 30, now_secs()), now_secs());

    assert_eq!(status, 500);
    assert_eq!(body, "Error processing request");
}

#[test]
fn report_temp_stamps_the_time_of_receipt() {
    let mut hosts = HostTable::new();
    report_temp(Some(&mut hosts), report("host-d", 30, 5), 1000);
    let kept = hosts.get("host-d").unwrap();
    assert_eq!(kept.host, "host-d");
    assert_eq!(kept.time, 1000);
}

#[test]
fn table_keeps_hosts_apart() {
    let mut hosts = HostTable::new();
    assert!(hosts.is_empty());
    assert!(hosts.get("a").is_none());
    hosts.insert(report("a", 1, 10));
    hosts.insert(report("b", 2, 20));
    hosts.insert(report("a", 3, 30));
    assert!(!hosts.is_empty());
    assert_eq!(hosts.len(), 2);
    assert_eq!(hosts.get("a").unwrap().temp, 3);
    assert_eq!(hosts.get("b").unwrap().time, 20);
    assert!(hosts.get("c").is_none());
    assert_eq!(hosts.reports().len(), 2);
}

#[test]
fn sweep_drops_silent_hosts_and_finds_the_hottest() {
    let mut hosts = HostTable::new();
    hosts.insert(report("old", 90, 1000));
    hosts.insert(report("warm", 50, 1100));
    hosts.insert(report("older", 95, 999));
    hosts.insert(report("cool", 40, 1200));

    let sweep = hosts.sweep_at(1180 * SECOND);
    assert_eq!(sweep.max_temp, 90);
    assert_eq!(sweep.removed, vec!["older".to_string()]);
    assert_eq!(hosts.len(), 3);

    let sweep = hosts.sweep_at(1181 * SECOND);
    assert_eq!(sweep.max_temp, 50);
    assert_eq!(sweep.removed, vec!["old".to_string()]);

    let again = hosts.sweep_at(1181 * SECOND);
    assert_eq!(again.max_temp, 50);
    assert!(again.removed.is_empty());
    assert_eq!(hosts.len(), 2);

    let sweep = hosts.sweep_at(2000 * SECOND);
    assert_eq!(sweep.max_temp, 0);
    assert_eq!(sweep.removed.len(), 2);
    assert!(hosts.is_empty());
}

#[test]
fn sweep_goes_by_the_system_clock() {
    let mut hosts = HostTable::new();
    hosts.insert(report("live", 61, now_secs()));
    hosts.insert(report("gone", 99, now_secs() - 300));
    let sweep = hosts.sweep();
    assert_eq!(sweep.max_temp, 61);
    assert_eq!(sweep.removed, vec!["gone".to_string()]);
    assert!(hosts.get("live").is_some());
}

#[test]
fn fan_payload_is_decimal() {
    assert_eq!(fan_payload(0), "0");
    assert_eq!(fan_payload(9), "9");
    assert_eq!(fan_payload(10), "10");
    assert_eq!(fan_payload(255), "255");
    for temp in 0..=255u8 {
        assert_eq!(fan_payload(temp), temp.to_string());
    }
}

fn monitor_configuration(log_level: &str) -> Configuration {
    Configuration {
        usb_vendor_id: 4292,
        usb_product_id: 60000,
        port: 8080,
        target_temp: 50,
        log_level: log_level.to_string(),
    }
}

fn is_monitor_default(config: &Configuration) -> bool {
    config.usb_vendor_id == 0xFFFF
        && config.usb_product_id == 0xFFFF
        && config.port == 5555
        && config.target_temp == 45
        && config.log_level == "info"
}

#[test]
fn monitor_configuration_is_kept_if_valid() {
    let config = Configuration::or_default(Some(monitor_configuration("Trace")));
    assert_eq!(config.usb_vendor_id, 4292);
    assert_eq!(config.usb_product_id, 60000);
    assert_eq!(config.port, 8080);
    assert_eq!(config.target_temp, 50);
    assert_eq!(config.log_level, "Trace");
}

#[test]
fn monitor_configuration_falls_back_to_default() {
    assert!(is_monitor_default(&Configuration::default()));
    assert!(is_monitor_default(&Configuration::or_default(None)));
    assert!(!monitor_configuration("loud").is_valid());
    assert!(is_monitor_default(&Configuration::or_default(Some(
        monitor_configuration("loud")
    ))));
    assert!(Configuration::default().is_valid());
}

#[test]
fn loop_runs_a_round() {
    let mut phase = Phase::start();
    assert_eq!(phase.action(), Action::Connect);
    phase = phase.next(Event::Connected);
    assert_eq!(phase, Phase::Greeting);
    assert_eq!(phase.action(), Action::Read);
    phase = phase.next(Event::ReadOk);
    assert_eq!(phase.action(), Action::Sleep(15));
    phase = phase.next(Event::Slept);
    assert_eq!(phase.action(), Action::Sweep);
    phase = phase.next(Event::Swept(61));
    assert_eq!(phase.action(), Action::Write(61));
    phase = phase.next(Event::Written);
    assert_eq!(phase, Phase::Listening);
    assert_eq!(phase.action(), Action::Read);
    phase = phase.next(Event::ReadOk);
    assert_eq!(phase, Phase::Resting);
}

#[test]
fn loop_retries_until_connected() {
    for greeted in [false, true] {
        let mut phase = Phase::Connecting { greeted };
        for _ in 0..3 {
            phase = phase.next(Event::ConnectFailed);
            assert_eq!(phase.action(), Action::Sleep(5));
            phase = phase.next(Event::Slept);
            assert_eq!(phase, Phase::Connecting { greeted });
        }
        let connected = phase.next(Event::Connected);
        assert_eq!(
            connected,
            if greeted { Phase::Resting } else { Phase::Greeting }
        );
    }
}

#[test]
fn loop_reconnects_after_a_failure() {
    let lost = Phase::Connecting { greeted: true };
    assert_eq!(Phase::Greeting.next(Event::ReadFailed), lost);
    assert_eq!(Phase::Listening.next(Event::ReadFailed), lost);
    assert_eq!(
        Phase::Telling { max_temp: 40 }.next(Event::WriteFailed),
        lost
    );
}

#[test]
fn loop_skips_a_round_without_the_table() {
    assert_eq!(
        Phase::Sweeping.next(Event::TableUnavailable),
        Phase::Resting
    );
}

#[test]
fn loop_ignores_what_it_did_not_ask_for() {
    assert_eq!(Phase::Resting.next(Event::Swept(80)), Phase::Resting);
    assert_eq!(
        Phase::start().next(Event::Written),
        Phase::Connecting { greeted: false }
    );
}

#[test]
fn loop_reads_the_greeting_once() {
    let mut phase = Phase::Greeting.next(Event::ReadFailed);
    phase = phase.next(Event::ConnectFailed).next(Event::Slept);
    assert_eq!(phase.next(Event::Connected), Phase::Resting);
}
