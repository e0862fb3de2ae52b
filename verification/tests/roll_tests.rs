use std::time::Duration;

use ip_gacha_roll::bot::{answer_followup, bot_action, checking_nat_message, health_port, AnswerFollowup, BotAction, BotCommand};
use ip_gacha_roll::check_nat::check_nat_result;
use ip_gacha_roll::ipv4::Ipv4;
use ip_gacha_roll::roll::{
    edit_status_step, probe_candidate, probe_reachable, restarting_message, roll_config, roll_followup,
    roll_login_result, roll_result_message, telegram_retry_delay, waiting_message, EditStep, RequestErrorKind,
    RollFollowup,
};

#[test]
fn telegram_retry_respects_rate_limits() {
    assert_eq!(
        telegram_retry_delay(&RequestErrorKind::RetryAfter(3)).map(Duration::from_secs),
        Some(Duration::from_secs(3))
    );
}

#[test]
fn retry_delays_by_error() {
    assert_eq!(telegram_retry_delay(&RequestErrorKind::Network), Some(1));
    assert_eq!(telegram_retry_delay(&RequestErrorKind::MessageNotModified), None);
    assert_eq!(telegram_retry_delay(&RequestErrorKind::Other("bad".to_string())), None);
    assert!(matches!(edit_status_step(&Ok(())), EditStep::Done));
    assert!(matches!(edit_status_step(&Err(RequestErrorKind::MessageNotModified)), EditStep::Done));
    assert!(matches!(edit_status_step(&Err(RequestErrorKind::RetryAfter(5))), EditStep::RetryAfter(5)));
    assert!(matches!(edit_status_step(&Err(RequestErrorKind::Other("x".to_string()))), EditStep::Fail));
}

#[test]
fn roll_test_hello_world() {
    assert_eq!(restarting_message(), "🔄 Restarting PPPoE connection…");
}

#[test]
fn nat_test_hello_world() {
    assert_eq!(checking_nat_message(), "Checking NAT...");
}

#[test]
fn roll_configuration_from_environment() {
    let e = roll_config(None, None, None, None).err().unwrap();
    assert_eq!(e, "ROUTER_PASS environment variable not set");
    let c = roll_config(None, None, Some("pw".to_string()), Some("true".to_string())).ok().unwrap();
    assert_eq!(c.router_ip, "192.168.1.1");
    assert_eq!(c.router_user, "admin");
    assert_eq!(c.router_pass, "pw");
    assert!(c.dry_run);
    let c = roll_config(Some("10.0.0.1"), Some("root"), Some("pw".to_string()), Some("TRUE".to_string())).ok().unwrap();
    assert_eq!(c.router_ip, "10.0.0.1");
    assert_eq!(c.router_user, "root");
    assert!(!c.dry_run);
    assert_eq!(roll_login_result(Ok(false)), Err("Router authentication failed".to_string()));
    assert_eq!(roll_login_result(Ok(true)), Ok(()));
}

#[test]
fn roll_messages() {
    assert_eq!(waiting_message(), "⏳ Waiting for a new reachable IP…");
    match roll_followup(Err("no password".to_string())) {
        RollFollowup::Report(t) => assert_eq!(t, "❌ no password"),
        RollFollowup::AwaitNewIp => panic!(),
    }
    match roll_followup(Ok(true)) {
        RollFollowup::Report(t) => assert_eq!(t, "✅ Dry run: router was not restarted."),
        RollFollowup::AwaitNewIp => panic!(),
    }
    assert!(matches!(roll_followup(Ok(false)), RollFollowup::AwaitNewIp));
    assert_eq!(roll_result_message(Some(Ipv4::new(1, 2, 3, 4))), "✅ New reachable IP: 1.2.3.4");
    assert_eq!(
        roll_result_message(None),
        "⚠️ No new reachable IP after 100 seconds. Check /nat or roll again."
    );
}

#[test]
fn probes_only_new_addresses() {
    let old = Ipv4::new(192, 0, 2, 1);
    let new = Ipv4::new(192, 0, 2, 2);
    assert_eq!(probe_candidate(Some(old), Some(old)), None);
    assert_eq!(probe_candidate(Some(old), Some(new)), Some(new));
    assert_eq!(probe_candidate(None, Some(old)), Some(old));
    assert_eq!(probe_candidate(Some(old), None), None);
    assert!(probe_reachable(&Ok(true)));
    assert!(!probe_reachable(&Ok(false)));
    assert!(!probe_reachable(&Err("x".to_string())));
}

#[test]
fn bot_commands_and_port() {
    match bot_action(BotCommand::Start, 300) {
        BotAction::Send(t) => assert_eq!(t, "Welcome to ip-gacha-roll bot."),
        _ => panic!(),
    }
    assert!(matches!(bot_action(BotCommand::Help, 300), BotAction::SendHelp));
    assert!(matches!(bot_action(BotCommand::Roll, 300), BotAction::Roll));
    assert!(matches!(bot_action(BotCommand::Nat, 300), BotAction::CheckNat));
    assert!(matches!(bot_action(BotCommand::NatWatch("60".to_string()), 300), BotAction::StartMonitor(60)));
    assert!(matches!(bot_action(BotCommand::NatWatch(String::new()), 300), BotAction::StartMonitor(300)));
    assert!(matches!(bot_action(BotCommand::NatWatch("0".to_string()), 120), BotAction::StartMonitor(120)));
    assert!(matches!(bot_action(BotCommand::NatStop, 300), BotAction::StopMonitor));
    assert!(matches!(answer_followup(Ok(())), AnswerFollowup::Done));
    match answer_followup(Err("Network error".to_string())) {
        AnswerFollowup::ReportError(e) => assert_eq!(e, "Network error"),
        AnswerFollowup::Done => panic!(),
    }
    assert_eq!(health_port(None), 8000);
    assert_eq!(health_port(Some("9000")), 9000);
    assert_eq!(health_port(Some("70000")), 8000);
    assert_eq!(health_port(Some("x")), 8000);
}

#[test]
fn check_nat_reports() {
    let r = check_nat_result(Ok((Ipv4::new(8, 8, 4, 4), true))).ok().unwrap();
    assert_eq!(r.ip, "8.8.4.4");
    assert!(r.nat);
    let e = check_nat_result(Err("no route".to_string())).err().unwrap();
    assert_eq!(e.detail, "no route");
}
