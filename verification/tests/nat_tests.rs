use ip_gacha_roll::ipv4::Ipv4;
use ip_gacha_roll::nat_monitor::{
    duckdns_base_url, duckdns_task_body, duckdns_task_url, interval_secs, nat_status_report, positive_secs,
    MonitorRegistry, NatMonitor, NatRecovery, RecoveryAction, RollOutcome, DEFAULT_NAT_CHECK_INTERVAL_SECS,
};

#[test]
fn interval_defaults_when_missing_or_invalid() {
    assert_eq!(interval_secs(None), DEFAULT_NAT_CHECK_INTERVAL_SECS);
    assert_eq!(interval_secs(Some("invalid")), DEFAULT_NAT_CHECK_INTERVAL_SECS);
    assert_eq!(interval_secs(Some("0")), DEFAULT_NAT_CHECK_INTERVAL_SECS);
    assert_eq!(interval_secs(Some("60")), 60);
    assert_eq!(positive_secs(Some("2"), 3), 2);
    assert_eq!(positive_secs(Some("0"), 3), 3);
}

#[test]
fn positive_secs_follows_the_integer_grammar() {
    assert_eq!(positive_secs(Some("+15"), 3), 15);
    assert_eq!(positive_secs(Some("-15"), 3), 3);
    assert_eq!(positive_secs(Some(" 15"), 3), 3);
    assert_eq!(positive_secs(Some(""), 3), 3);
    assert_eq!(positive_secs(Some("18446744073709551615"), 3), u64::MAX);
    assert_eq!(positive_secs(Some("18446744073709551616"), 3), 3);
}

#[test]
fn nat_status_reports_reachability() {
    let (text, state) = nat_status_report(Ok((Ipv4::new(203, 0, 113, 7), true)));
    assert_eq!(text, "IP: 203.0.113.7 nat: ✅");
    assert_eq!(state, Some(true));
    let (text, state) = nat_status_report(Ok((Ipv4::new(203, 0, 113, 7), false)));
    assert_eq!(text, "IP: 203.0.113.7 nat: ❌");
    assert_eq!(state, Some(false));
    let (text, state) = nat_status_report(Err("timed out".to_string()));
    assert_eq!(text, "Error: timed out");
    assert_eq!(state, None);
}

#[test]
fn duckdns_address_and_body() {
    assert_eq!(duckdns_base_url(None), "http://192.168.1.58:3000");
    assert_eq!(duckdns_base_url(Some(String::new())), "http://192.168.1.58:3000");
    assert_eq!(duckdns_base_url(Some("http://dns:1".to_string())), "http://dns:1");
    assert_eq!(duckdns_task_url("http://dns:1//"), "http://dns:1/api/task");
    assert_eq!(duckdns_task_url("http://dns:1"), "http://dns:1/api/task");
    assert_eq!(duckdns_task_url("/"), "/api/task");
    assert_eq!(duckdns_task_body(), r#"{"domain":"akorz.duckdns.org","interval":"0"}"#);
}

#[test]
fn status_is_sent_only_when_it_changes() {
    let mut m = NatMonitor::new();
    assert!(m.record(Some(true), false));
    assert!(!m.record(Some(true), false));
    assert!(m.record(None, false));
    assert!(m.record(Some(true), false));
}

#[test]
fn exhausted_recovery_is_not_repeated_until_state_changes() {
    let mut m = NatMonitor::new();
    assert!(m.should_recover(Some(false)));
    assert!(m.record(Some(false), true));
    assert!(!m.should_recover(Some(false)));
    assert!(!m.record(Some(false), false));
    assert!(!m.should_recover(Some(false)));
    assert!(m.record(Some(true), false));
    assert!(m.should_recover(Some(false)));
    assert!(!m.should_recover(Some(true)));
    assert!(!m.should_recover(None));
}

fn finish_text(a: RecoveryAction) -> (String, Option<bool>) {
    match a {
        RecoveryAction::Finish(t, s) => (t, s),
        _ => panic!("recovery should be over"),
    }
}

#[test]
fn recovery_gives_up_after_the_allowed_rerolls() {
    let (mut r, first) = NatRecovery::start(3);
    assert!(matches!(first, RecoveryAction::Roll));
    let mut rolls = 1;
    loop {
        assert!(matches!(r.after_roll(&RollOutcome::Rolled), RecoveryAction::CheckStatus));
        assert!(matches!(r.after_status("IP: 1.2.3.4 nat: ❌", Some(false)), RecoveryAction::Wait));
        match r.after_wait() {
            RecoveryAction::Roll => rolls += 1,
            other => {
                let (t, s) = finish_text(other);
                assert_eq!(t, "NAT remains unreachable after 3 roll attempts.");
                assert_eq!(s, Some(false));
                break;
            }
        }
    }
    assert_eq!(rolls, 3);
}

#[test]
fn recovery_reports_success_and_dns() {
    let (mut r, _) = NatRecovery::start(3);
    assert!(matches!(r.after_roll(&RollOutcome::Failed("boom".to_string())), RecoveryAction::Wait));
    assert!(matches!(r.after_wait(), RecoveryAction::Roll));
    assert!(matches!(r.after_status("ok", Some(true)), RecoveryAction::UpdateDns));
    let (t, s) = finish_text(r.after_dns("IP: 1.2.3.4 nat: ✅", Ok(())));
    assert_eq!(t, "NAT recovered and DuckDNS updated 2/3: IP: 1.2.3.4 nat: ✅");
    assert_eq!(s, Some(true));
    let (t, s) = finish_text(r.after_dns("IP: 1.2.3.4 nat: ✅", Err("refused".to_string())));
    assert_eq!(t, "NAT recovered, but DuckDNS update failed: refused; IP: 1.2.3.4 nat: ✅");
    assert_eq!(s, Some(true));
}

#[test]
fn recovery_stops_on_dry_run_or_failed_check() {
    let (r, _) = NatRecovery::start(2);
    let (t, s) = finish_text(r.after_roll(&RollOutcome::DryRun));
    assert_eq!(t, "NAT recovery skipped: DRY_RUN is set.");
    assert_eq!(s, Some(false));
    let (t, s) = finish_text(r.after_status("Error: offline", None));
    assert_eq!(t, "NAT check failed after roll attempt 1/2: Error: offline");
    assert_eq!(s, None);
    let (_, none) = NatRecovery::start(0);
    let (t, _) = finish_text(none);
    assert_eq!(t, "NAT remains unreachable after 0 roll attempts.");
}

#[test]
fn registry_keeps_one_monitor_per_chat() {
    let mut reg: MonitorRegistry<u32> = MonitorRegistry::new();
    assert_eq!(reg.start(7, 1), None);
    assert_eq!(reg.start(8, 2), None);
    assert_eq!(reg.start(7, 3), Some(1));
    assert_eq!(reg.stop(7), Some(3));
    assert_eq!(reg.stop(7), None);
    assert_eq!(reg.stop(8), Some(2));
}
