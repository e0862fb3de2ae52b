//! The `/roll` command: rerolling the PPPoE connection on request and
//! waiting for a new address that answers from outside.
use vstd::prelude::*;
use vstd::string::StringExecFns;
use crate::ipv4::{Ipv4, has_new_ip, ipv4_text};
use crate::text::same_text;

verus! {

/// Seconds that `/roll` waits for a new reachable address.
pub const ROLL_READY_TIMEOUT_SECS: u64 = 100;

/// Seconds between two looks for the new address.
pub const ROLL_CHECK_INTERVAL_SECS: u64 = 2;

/// Seconds to wait before editing a message again after a network error.
pub const TELEGRAM_RETRY_DELAY_SECS: u64 = 1;

/// The kinds of error that a request to Telegram ends in, as far as
/// retrying goes.
pub enum RequestErrorKind {
    /// The request did not reach Telegram.
    Network,
    /// Flood control: retry after this many seconds.
    RetryAfter(u32),
    /// The edit would not change the message.
    MessageNotModified,
    /// Any other error, with its text.
    Other(String),
}

/// How long to wait before trying a failed request again: a second after a
/// network error, what Telegram asked for under flood control, and not at
/// all otherwise.
pub fn telegram_retry_delay(error: &RequestErrorKind) -> (res: Option<u64>)
    ensures
        match error {
            RequestErrorKind::Network => res == Some(TELEGRAM_RETRY_DELAY_SECS),
            RequestErrorKind::RetryAfter(s) => res == Some(*s as u64),
            _ => res == None::<u64>,
        },
{
    match error {
        RequestErrorKind::Network => Some(TELEGRAM_RETRY_DELAY_SECS),
        RequestErrorKind::RetryAfter(seconds) => Some(*seconds as u64),
        _ => None,
    }
}

/// What follows an attempt to edit a status message.
pub enum EditStep {
    /// The message shows the text.
    Done,
    /// Try again after this many seconds.
    RetryAfter(u64),
    /// Give up with the error.
    Fail,
}

/// What follows an attempt to edit a status message: an edit that went
/// through, or that would not have changed the message, is done; an error
/// with a retry delay is retried after it; any other error fails.
pub fn edit_status_step(result: &Result<(), RequestErrorKind>) -> (res: EditStep)
    ensures
        match result {
            Ok(()) => res is Done,
            Err(RequestErrorKind::MessageNotModified) => res is Done,
            Err(RequestErrorKind::Network) => res == EditStep::RetryAfter(TELEGRAM_RETRY_DELAY_SECS),
            Err(RequestErrorKind::RetryAfter(s)) => res == EditStep::RetryAfter(*s as u64),
            Err(RequestErrorKind::Other(_)) => res is Fail,
        },
{
    match result {
        Ok(()) => EditStep::Done,
        Err(RequestErrorKind::MessageNotModified) => EditStep::Done,
        Err(error) => match telegram_retry_delay(error) {
            Some(delay) => EditStep::RetryAfter(delay),
            None => EditStep::Fail,
        },
    }
}

/// How a reroll reaches the router.
pub struct RollConfig {
    pub router_ip: String,
    pub router_user: String,
    pub router_pass: String,
    pub dry_run: bool,
}

/// The configuration of a reroll from the environment: the router's
/// address and login default to `192.168.1.1` and `admin`; the password
/// must be set; it is a dry run exactly where `DRY_RUN` is `true`.
pub fn roll_config(
    router_ip: Option<&str>,
    router_user: Option<&str>,
    router_pass: Option<String>,
    dry_run: Option<String>,
) -> (res: Result<RollConfig, String>)
    ensures
        router_pass is None ==> (res matches Err(e) && e@ == "ROUTER_PASS environment variable not set"@),
        router_pass matches Some(p) ==> (res matches Ok(c) && c.router_pass == p
            && c.router_ip@ == (match router_ip { Some(ip) => ip@, None => "192.168.1.1"@ })
            && c.router_user@ == (match router_user { Some(u) => u@, None => "admin"@ })
            && c.dry_run == (dry_run matches Some(v) && v@ == "true"@)),
{
    let pass = match router_pass {
        Some(p) => p,
        None => return Err("ROUTER_PASS environment variable not set".to_owned()),
    };
    let ip = match router_ip {
        Some(ip) => ip.to_owned(),
        None => "192.168.1.1".to_owned(),
    };
    let user = match router_user {
        Some(u) => u.to_owned(),
        None => "admin".to_owned(),
    };
    let dry = match &dry_run {
        Some(v) => same_text(v.as_str(), "true"),
        None => false,
    };
    Ok(RollConfig { router_ip: ip, router_user: user, router_pass: pass, dry_run: dry })
}

/// Whether the reroll may go on after the login: a failed login stops it
/// with its error, a refused one with `Router authentication failed`.
pub fn roll_login_result(auth: Result<bool, String>) -> (res: Result<(), String>)
    ensures
        match auth {
            Ok(true) => res is Ok,
            Ok(false) => res matches Err(e) && e@ == "Router authentication failed"@,
            Err(e) => res == Err::<(), String>(e),
        },
{
    match auth {
        Ok(true) => Ok(()),
        Ok(false) => Err("Router authentication failed".to_owned()),
        Err(e) => Err(e),
    }
}

/// What `/roll` does once the reroll returned.
pub enum RollFollowup {
    /// Show this text; the command is over.
    Report(String),
    /// Tell the chat to wait, then look for a new reachable address.
    AwaitNewIp,
}

/// The text shown while the connection restarts.
pub open spec fn restarting_text() -> Seq<char> {
    "🔄 Restarting PPPoE connection…"@
}

/// The text shown while `/roll` looks for the new address.
pub open spec fn waiting_text() -> Seq<char> {
    "⏳ Waiting for a new reachable IP…"@
}

/// The text shown after a dry run.
pub open spec fn dry_run_text() -> Seq<char> {
    "✅ Dry run: router was not restarted."@
}

/// The text shown where no new reachable address came in time.
pub open spec fn no_new_ip_text() -> Seq<char> {
    "⚠️ No new reachable IP after 100 seconds. Check /nat or roll again."@
}

/// The first text of `/roll`.
pub fn restarting_message() -> (res: String)
    ensures
        res@ == restarting_text(),
{
    "🔄 Restarting PPPoE connection…".to_owned()
}

/// The text shown while `/roll` looks for the new address.
pub fn waiting_message() -> (res: String)
    ensures
        res@ == waiting_text(),
{
    "⏳ Waiting for a new reachable IP…".to_owned()
}

/// What follows a reroll: its error is shown after `❌ `; a dry run is
/// reported as such; a real reroll is followed by the wait for the new
/// address.
pub fn roll_followup(result: Result<bool, String>) -> (res: RollFollowup)
    ensures
        match result {
            Err(e) => res matches RollFollowup::Report(t) && t@ == "❌ "@ + e@,
            Ok(true) => res matches RollFollowup::Report(t) && t@ == dry_run_text(),
            Ok(false) => res is AwaitNewIp,
        },
{
    match result {
        Err(e) => {
            let mut text = String::new();
            text.append("❌ ");
            text.append(e.as_str());
            RollFollowup::Report(text)
        },
        Ok(true) => RollFollowup::Report("✅ Dry run: router was not restarted.".to_owned()),
        Ok(false) => RollFollowup::AwaitNewIp,
    }
}

/// The last text of `/roll`: the new reachable address, or the warning
/// that none came in time.
pub fn roll_result_message(ip: Option<Ipv4>) -> (res: String)
    ensures
        match ip {
            Some(ip) => res@ == "✅ New reachable IP: "@ + ipv4_text(ip),
            None => res@ == no_new_ip_text(),
        },
{
    match ip {
        Some(ip) => {
            let mut text = String::new();
            text.append("✅ New reachable IP: ");
            let ip_text = ip.to_string();
            text.append(ip_text.as_str());
            text
        },
        None => "⚠️ No new reachable IP after 100 seconds. Check /nat or roll again.".to_owned(),
    }
}

/// The address worth probing in one look: the one fetched, where it could
/// be fetched and differs from the address before the reroll.
pub fn probe_candidate(previous_ip: Option<Ipv4>, fetched: Option<Ipv4>) -> (res: Option<Ipv4>)
    ensures
        match fetched {
            Some(ip) => if previous_ip != Some(ip) { res == Some(ip) } else { res == None::<Ipv4> },
            None => res == None::<Ipv4>,
        },
{
    match fetched {
        Some(ip) => if has_new_ip(previous_ip, ip) { Some(ip) } else { None },
        None => None,
    }
}

/// Whether a probe found the address reachable: only a successful probe
/// that connected counts.
pub fn probe_reachable(probe: &Result<bool, String>) -> (res: bool)
    ensures
        res == (probe matches Ok(true)),
{
    match probe {
        Ok(reachable) => *reachable,
        Err(_) => false,
    }
}

} // verus!
