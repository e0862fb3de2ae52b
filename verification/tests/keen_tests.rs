use ip_gacha_roll::keen::{auth_accepted, challenge_response, http_reply, keen_run_step, reroll_request, AuthStep, KeenClient, KeenRunStep};

#[test]
fn challenge_answer_is_sha256_of_challenge_and_md5() {
    assert_eq!(
        challenge_response("admin", "Keenetic Giga", "secret", "ABCDEF"),
        "637cf0a7161e08cbe270d24612b840f0c25eec97e3167b5986d0270c7cc759d9"
    );
}

#[test]
fn login_asks_for_the_challenge_only_on_401() {
    let client = KeenClient::new("192.168.1.1".to_string()).unwrap();
    match client.auth_step(401, "admin", "admin", None, None) {
        AuthStep::Respond(url, p) => {
            assert_eq!(url, "http://192.168.1.1/auth");
            assert_eq!(p.login, "admin");
            assert_eq!(p.password, "6716a2b32fe33108822c64fc15d94edb7718c51c6b3dda9a257e734b37436b47");
        }
        AuthStep::Done(_) => panic!("a 401 asks for the challenge"),
    }
    assert!(matches!(client.auth_step(200, "admin", "admin", None, None), AuthStep::Done(true)));
    assert!(matches!(client.auth_step(403, "admin", "admin", None, None), AuthStep::Done(false)));
    assert!(auth_accepted(200));
    assert!(!auth_accepted(401));
}

#[test]
fn urls_go_to_the_router() {
    let client = KeenClient::new("192.168.1.1".to_string()).unwrap();
    assert_eq!(client.ip_addr, "192.168.1.1");
    assert_eq!(client.url("auth"), "http://192.168.1.1/auth");
    assert_eq!(client.url("rci/show/interface/PPPoE0"), "http://192.168.1.1/rci/show/interface/PPPoE0");
    assert_eq!(client.auth_url(), "http://192.168.1.1/auth");
    assert_eq!(client.interface_url(), "http://192.168.1.1/rci/show/interface/PPPoE0");
}

#[test]
fn reroll_is_posted_to_rci() {
    let client = KeenClient::new("192.168.1.1".to_string()).unwrap();
    let (url, commands) = client.reroll_target(false);
    assert_eq!(url, "http://192.168.1.1/rci/");
    assert_eq!(commands.len(), 2);
    assert_eq!(commands[0].parse, "interface PPPoE0 down");
    assert_eq!(commands[1].parse, "interface PPPoE0 up");
    let (url, commands) = client.reroll_target(true);
    assert_eq!(url, "http://192.168.1.1/rci/");
    assert_eq!(commands.len(), 1);
    assert_eq!(commands[0].parse, "interface PPPoE0 up");
}

#[test]
fn reroll_restarts_the_interface_unless_dry_run() {
    let real = reroll_request(false);
    assert_eq!(real.len(), 2);
    assert_eq!(real[0].parse, "interface PPPoE0 down");
    assert_eq!(real[1].parse, "interface PPPoE0 up");
    let dry = reroll_request(true);
    assert_eq!(dry.len(), 1);
    assert_eq!(dry[0].parse, "interface PPPoE0 up");
}

#[test]
fn replies_to_requests() {
    assert_eq!(http_reply(Ok(Some("body".to_string()))), "body");
    assert_eq!(http_reply(Ok(None)), "Failed to get response text");
    assert_eq!(http_reply(Err("connection refused".to_string())), "connection refused");
}

fn reply(step: KeenRunStep) -> String {
    match step {
        KeenRunStep::Reply(t) => t,
        _ => panic!("expected a reply"),
    }
}

#[test]
fn front_end_commands() {
    assert!(matches!(keen_run_step(Ok(true), "get_interface", false), KeenRunStep::GetInterface));
    assert!(matches!(keen_run_step(Ok(true), "reroll", true), KeenRunStep::Reroll(true)));
    assert_eq!(reply(keen_run_step(Ok(true), "dance", false)), "Unknown command");
    assert_eq!(reply(keen_run_step(Ok(false), "reroll", false)), r#"{"detail":"Authentication failed"}"#);
    assert_eq!(reply(keen_run_step(Err("timeout".to_string()), "reroll", false)), "timeout");
}
