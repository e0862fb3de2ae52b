//! NAT monitoring: how often to check, what a check reports, when to
//! recover an unreachable address by rerolling, and where DuckDNS is told.
use vstd::prelude::*;
use vstd::string::{StringExecFns, StringSliceAdditionalSpecFns, StrSliceExecFns};
use crate::ipv4::{Ipv4, ipv4_text};
use std::collections::HashMap;
use crate::text::{decimal_digits, lemma_decimal_roundtrip, decimal_text, parse_u64, push_decimal, spec_parse_u64};

verus! {

/// Seconds between two checks where `NAT_CHECK_INTERVAL_SECS` is not set.
pub const DEFAULT_NAT_CHECK_INTERVAL_SECS: u64 = 300;

/// Rerolls of one recovery where `NAT_FIX_MAX_ATTEMPTS` is not set.
pub const DEFAULT_NAT_FIX_MAX_ATTEMPTS: u64 = 3;

/// Seconds to wait after a failed reroll where `NAT_FIX_WAIT_SECS` is not
/// set.
pub const DEFAULT_NAT_FIX_WAIT_SECS: u64 = 10;

/// The DuckDNS updater where `DUCKDNS_UI_URL` is not set.
pub const DUCKDNS_UI_URL: &'static str = "http://192.168.1.58:3000";

/// The domain that DuckDNS keeps pointed at the public address.
pub const DUCKDNS_DOMAIN: &'static str = "akorz.duckdns.org";

/// The number of seconds that a setting gives: its value where it is set to
/// a positive whole number, else the default.
pub open spec fn spec_positive_secs(value: Option<Seq<u8>>, default: u64) -> u64 {
    match value {
        Some(text) => match spec_parse_u64(text) {
            Some(n) => if n > 0 { n } else { default },
            None => default,
        },
        None => default,
    }
}

/// The bytes of an optional text.
pub open spec fn option_bytes(value: Option<&str>) -> Option<Seq<u8>> {
    match value {
        Some(s) => Some(s.spec_bytes()),
        None => None,
    }
}

/// The number of seconds that the setting `value` gives: its value where
/// it parses as a positive `u64`, else `default`.
pub fn positive_secs(value: Option<&str>, default: u64) -> (res: u64)
    ensures
        res == spec_positive_secs(option_bytes(value), default),
{
    match value {
        Some(text) => match parse_u64(text) {
            Some(n) => if n > 0 { n } else { default },
            None => default,
        },
        None => default,
    }
}

/// The interval between two NAT checks that `NAT_CHECK_INTERVAL_SECS`
/// gives: 300 seconds unless it is set to a positive number.
pub fn interval_secs(value: Option<&str>) -> (res: u64)
    ensures
        res == spec_positive_secs(option_bytes(value), DEFAULT_NAT_CHECK_INTERVAL_SECS),
{
    positive_secs(value, DEFAULT_NAT_CHECK_INTERVAL_SECS)
}

/// Every positive whole number is taken as given, whatever the default;
/// zero, and text that is no number, give the default; and a result other
/// than the default is always the number that the text spells.
pub proof fn law_positive_secs(n: u64, default: u64, text: Seq<u8>)
    ensures
        n > 0 ==> spec_positive_secs(Some(decimal_digits(n as nat)), default) == n,
        spec_positive_secs(Some(decimal_digits(0)), default) == default,
        spec_positive_secs(None, default) == default,
        spec_parse_u64(text) is None ==> spec_positive_secs(Some(text), default) == default,
        spec_positive_secs(Some(text), default) != default ==> spec_parse_u64(text) == Some(
            spec_positive_secs(Some(text), default),
        ) && spec_positive_secs(Some(text), default) > 0,
{
    lemma_decimal_roundtrip(n as nat);
    lemma_decimal_roundtrip(0);
}

/// The text of a NAT check that reached the address.
pub open spec fn status_text(ip: Ipv4, reachable: bool) -> Seq<char> {
    "IP: "@ + ipv4_text(ip) + " nat: "@ + if reachable { "✅"@ } else { "❌"@ }
}

/// The text of a NAT check that failed.
pub open spec fn error_text(error: Seq<char>) -> Seq<char> {
    "Error: "@ + error
}

/// What one NAT check reports: for an address and whether it answered from
/// outside, `IP: {ip} nat: ✅` (or `❌`) and the answer; for an error
/// while fetching or probing the address, `Error: {error}` and no answer.
pub fn nat_status_report(probe: Result<(Ipv4, bool), String>) -> (res: (String, Option<bool>))
    ensures
        match probe {
            Ok((ip, reachable)) => res.0@ == status_text(ip, reachable) && res.1 == Some(reachable),
            Err(e) => res.0@ == error_text(e@) && res.1 == None::<bool>,
        },
{
    match probe {
        Ok((ip, reachable)) => {
            let mut text = String::new();
            text.append("IP: ");
            let ip_text = ip.to_string();
            text.append(ip_text.as_str());
            text.append(" nat: ");
            if reachable {
                text.append("✅");
            } else {
                text.append("❌");
            }
            (text, Some(reachable))
        },
        Err(e) => {
            let mut text = String::new();
            text.append("Error: ");
            text.append(e.as_str());
            (text, None)
        },
    }
}

/// The address of the DuckDNS updater: `DUCKDNS_UI_URL` where it is set and
/// not empty, else the default.
pub fn duckdns_base_url(configured: Option<String>) -> (res: String)
    ensures
        match configured {
            Some(url) => if url@.len() > 0 { res == url } else { res@ == DUCKDNS_UI_URL@ },
            None => res@ == DUCKDNS_UI_URL@,
        },
{
    match configured {
        Some(url) => if url.as_str().is_empty() { DUCKDNS_UI_URL.to_owned() } else { url },
        None => DUCKDNS_UI_URL.to_owned(),
    }
}

/// `s` without the slashes at its end.
pub open spec fn trim_end_slashes(s: Seq<char>) -> Seq<char>
    decreases s.len(),
{
    if s.len() > 0 && s.last() == '/' {
        trim_end_slashes(s.drop_last())
    } else {
        s
    }
}

/// Trimming removes slashes and nothing else, and all of them at the end:
/// the result is a prefix of the text, everything cut off is a `/`, the
/// result does not end in `/`, and a text that does not end in `/` is kept
/// whole.
pub proof fn law_trim_end_slashes(s: Seq<char>)
    ensures
        trim_end_slashes(s).len() <= s.len(),
        trim_end_slashes(s) == s.subrange(0, trim_end_slashes(s).len() as int),
        forall|i: int| trim_end_slashes(s).len() <= i < s.len() ==> s[i] == '/',
        trim_end_slashes(s).len() == 0 || trim_end_slashes(s).last() != '/',
        (s.len() == 0 || s.last() != '/') ==> trim_end_slashes(s) == s,
    decreases s.len(),
{
    if s.len() > 0 && s.last() == '/' {
        let p = s.drop_last();
        law_trim_end_slashes(p);
        let t = trim_end_slashes(p);
        assert(t =~= s.subrange(0, t.len() as int));
        assert forall|i: int| t.len() <= i < s.len() implies s[i] == '/' by {
            if i < p.len() {
                assert(s[i] == p[i]);
            }
        }
    } else {
        assert(s.subrange(0, s.len() as int) =~= s);
    }
}

/// The endpoint that starts a DuckDNS update: the base address without
/// trailing slashes, then `/api/task`.
pub fn duckdns_task_url(base: &str) -> (res: String)
    ensures
        res@ == trim_end_slashes(base@) + "/api/task"@,
{
    let mut k = base.unicode_len();
    assert(base@.subrange(0, k as int) =~= base@);
    while k > 0 && base.get_char(k - 1) == '/'
        invariant
            k <= base@.len(),
            trim_end_slashes(base@) == trim_end_slashes(base@.subrange(0, k as int)),
        decreases k,
    {
        proof {
            let t = base@.subrange(0, k as int);
            assert(t.drop_last() =~= base@.subrange(0, k - 1));
        }
        k = k - 1;
    }
    proof {
        let t = base@.subrange(0, k as int);
        if k > 0 {
            assert(t.last() == base@[k - 1]);
        }
    }
    let mut url = String::new();
    url.append(base.substring_char(0, k));
    url.append("/api/task");
    url
}

/// The JSON body that asks DuckDNS to update the domain now.
pub fn duckdns_task_body() -> (res: String)
    ensures
        res@ == "{\"domain\":\""@ + DUCKDNS_DOMAIN@ + "\",\"interval\":\"0\"}"@,
{
    let mut body = String::new();
    body.append("{\"domain\":\"");
    body.append(DUCKDNS_DOMAIN);
    body.append("\",\"interval\":\"0\"}");
    body
}

/// What the monitor remembers between two checks.
#[derive(Clone, Copy, Debug, PartialEq, Eq, Structural)]
pub struct NatMonitor {
    /// The state last reported to the chat, where one was.
    pub previous: Option<Option<bool>>,
    /// Whether the last recovery gave up with the address still unreachable.
    pub recovery_exhausted: bool,
}

/// Whether a check that found `state` starts a recovery: the address is
/// unreachable and the last recovery has not already given up on it.
pub open spec fn spec_should_recover(m: NatMonitor, state: Option<bool>) -> bool {
    state == Some(false) && !m.recovery_exhausted
}

/// The monitor after a check that ended in `state`, where `recovered` says
/// whether a recovery ran (and `state` is then what it ended in), and
/// whether the chat is told: only when the state differs from the one it
/// was last told.
pub open spec fn spec_record(m: NatMonitor, state: Option<bool>, recovered: bool) -> (NatMonitor, bool) {
    let exhausted = if recovered {
        state == Some(false)
    } else if state != Some(false) {
        false
    } else {
        m.recovery_exhausted
    };
    (NatMonitor { previous: Some(state), recovery_exhausted: exhausted }, m.previous != Some(state))
}

impl NatMonitor {
    /// A monitor that has reported nothing yet.
    pub fn new() -> (m: Self)
        ensures
            m.previous == None::<Option<bool>>,
            !m.recovery_exhausted,
    {
        NatMonitor { previous: None, recovery_exhausted: false }
    }

    /// Whether a check that found `state` starts a recovery.
    pub fn should_recover(&self, state: Option<bool>) -> (res: bool)
        ensures
            res == spec_should_recover(*self, state),
    {
        match state {
            Some(false) => !self.recovery_exhausted,
            _ => false,
        }
    }

    /// Records the outcome of a check (after the recovery, where one ran);
    /// returns whether the chat is to be told.
    pub fn record(&mut self, state: Option<bool>, recovered: bool) -> (notify: bool)
        ensures
            (*final(self), notify) == spec_record(*old(self), state, recovered),
    {
        let unreachable = match state {
            Some(false) => true,
            _ => false,
        };
        if recovered {
            self.recovery_exhausted = unreachable;
        } else if !unreachable {
            self.recovery_exhausted = false;
        }
        let notify = match self.previous {
            Some(previous) => match (previous, state) {
                (Some(x), Some(y)) => x != y,
                (None, None) => false,
                _ => true,
            },
            None => true,
        };
        self.previous = Some(state);
        notify
    }
}

/// The chat is told a state only when it changes: after a check has been
/// recorded, another check with the same outcome stays silent.
pub proof fn law_status_sent_on_change(m: NatMonitor, state: Option<bool>, first: bool, second: bool)
    ensures
        !spec_record(spec_record(m, state, first).0, state, second).1,
        spec_record(m, state, first).1 == (m.previous != Some(state)),
{
}

/// A recovery starts only for an unreachable address, and always for one
/// while the last recovery has not given up.
pub proof fn law_recover_only_unreachable(m: NatMonitor, state: Option<bool>)
    ensures
        spec_should_recover(m, state) ==> state == Some(false),
        spec_should_recover(m, state) ==> !m.recovery_exhausted,
        !m.recovery_exhausted ==> spec_should_recover(m, Some(false)),
        !spec_should_recover(m, Some(true)),
        !spec_should_recover(m, None),
{
}

/// After a recovery the monitor counts as given up exactly when the
/// recovery ended with the address unreachable: one that made the address
/// reachable, or whose check failed, leaves the next unreachable check free
/// to recover again. A check without recovery that finds the address
/// reachable or unknown re-arms recovery; one that finds it unreachable
/// keeps the earlier verdict. Every record remembers the state it was given.
pub proof fn law_record_exhaustion(m: NatMonitor, state: Option<bool>, recovered: bool)
    ensures
        spec_record(m, state, true).0.recovery_exhausted == (state == Some(false)),
        spec_should_recover(spec_record(m, Some(true), true).0, Some(false)),
        spec_should_recover(spec_record(m, None, true).0, Some(false)),
        state != Some(false) ==> !spec_record(m, state, false).0.recovery_exhausted,
        spec_record(m, Some(false), false).0.recovery_exhausted == m.recovery_exhausted,
        spec_record(m, state, recovered).0.previous == Some(state),
        spec_record(NatMonitor { previous: None, recovery_exhausted: m.recovery_exhausted }, state, recovered).1,
{
}

/// A recovery that gave up is not repeated while the address stays
/// unreachable, and is armed again once a check finds it otherwise.
pub proof fn law_exhausted_recovery_waits(m: NatMonitor, other: Option<bool>)
    requires
        other != Some(false),
    ensures
        ({
            let gave_up = spec_record(m, Some(false), true).0;
            &&& !spec_should_recover(gave_up, Some(false))
            &&& !spec_should_recover(spec_record(gave_up, Some(false), false).0, Some(false))
            &&& spec_should_recover(spec_record(gave_up, other, false).0, Some(false))
        }),
{
}

/// What a reroll during a recovery came to.
pub enum RollOutcome {
    /// The connection was restarted.
    Rolled,
    /// `DRY_RUN` is set: nothing was restarted.
    DryRun,
    /// The reroll failed with this error.
    Failed(String),
}

/// What a recovery does next.
pub enum RecoveryAction {
    /// Reroll the PPPoE connection.
    Roll,
    /// Check whether the address is reachable now.
    CheckStatus,
    /// The address is reachable: ask DuckDNS to update the domain.
    UpdateDns,
    /// Wait the configured time, then ask `after_wait`.
    Wait,
    /// The recovery is over: report this text and this state.
    Finish(String, Option<bool>),
}

/// A recovery of an unreachable address: rerolls, each followed by a
/// check, until the address is reachable or the attempts run out.
pub struct NatRecovery {
    attempts: u64,
    attempt: u64,
}

/// The counters of a recovery.
pub struct RecoveryCount {
    /// How many rerolls the recovery may make.
    pub attempts: u64,
    /// The number of the current reroll; 0 before the first.
    pub attempt: u64,
}

impl View for NatRecovery {
    type V = RecoveryCount;

    closed spec fn view(&self) -> RecoveryCount {
        RecoveryCount { attempts: self.attempts, attempt: self.attempt }
    }
}

/// `NAT recovery skipped: DRY_RUN is set.`
pub open spec fn dry_run_text() -> Seq<char> {
    "NAT recovery skipped: DRY_RUN is set."@
}

/// `{attempt}/{attempts}`.
pub open spec fn attempt_text(attempt: u64, attempts: u64) -> Seq<char> {
    decimal_text(attempt as nat) + "/"@ + decimal_text(attempts as nat)
}

/// `NAT recovered and DuckDNS updated {attempt}/{attempts}: {message}`.
pub open spec fn recovered_text(attempt: u64, attempts: u64, message: Seq<char>) -> Seq<char> {
    "NAT recovered and DuckDNS updated "@ + attempt_text(attempt, attempts) + ": "@ + message
}

/// `NAT recovered, but DuckDNS update failed: {error}; {message}`.
pub open spec fn dns_failed_text(error: Seq<char>, message: Seq<char>) -> Seq<char> {
    "NAT recovered, but DuckDNS update failed: "@ + error + "; "@ + message
}

/// `NAT check failed after roll attempt {attempt}/{attempts}: {message}`.
pub open spec fn check_failed_text(attempt: u64, attempts: u64, message: Seq<char>) -> Seq<char> {
    "NAT check failed after roll attempt "@ + attempt_text(attempt, attempts) + ": "@ + message
}

/// `NAT remains unreachable after {attempts} roll attempts.`
pub open spec fn unreachable_text(attempts: u64) -> Seq<char> {
    "NAT remains unreachable after "@ + decimal_text(attempts as nat) + " roll attempts."@
}

fn push_attempt(out: &mut String, attempt: u64, attempts: u64)
    ensures
        final(out)@ == old(out)@ + attempt_text(attempt, attempts),
{
    push_decimal(out, attempt);
    out.append("/");
    push_decimal(out, attempts);
}

/// A recovery when it starts.
pub open spec fn spec_start(attempts: u64) -> RecoveryCount {
    RecoveryCount { attempts, attempt: if attempts > 0 { 1 } else { 0 } }
}

/// A recovery after a wait: one reroll further, while attempts are left.
pub open spec fn spec_wait(r: RecoveryCount) -> RecoveryCount {
    if r.attempt < r.attempts {
        RecoveryCount { attempts: r.attempts, attempt: (r.attempt + 1) as u64 }
    } else {
        r
    }
}

/// A recovery after `waits` waits.
pub open spec fn spec_waited(attempts: u64, waits: nat) -> RecoveryCount
    decreases waits,
{
    if waits == 0 {
        spec_start(attempts)
    } else {
        spec_wait(spec_waited(attempts, (waits - 1) as nat))
    }
}

/// A recovery rerolls at most `attempts` times: a reroll is started exactly
/// when the counter of rerolls goes up by one, and however many waits there
/// are, the counter stops at `attempts`.
pub proof fn law_rolls_within_attempts(attempts: u64, waits: nat)
    ensures
        spec_waited(attempts, waits).attempts == attempts,
        spec_waited(attempts, waits).attempt == if waits + 1 < attempts { (waits + 1) as int } else { attempts as int },
    decreases waits,
{
    if waits > 0 {
        law_rolls_within_attempts(attempts, (waits - 1) as nat);
    }
}

impl NatRecovery {
    /// No more rerolls were started than the recovery may make.
    #[verifier::type_invariant]
    spec fn wf(&self) -> bool {
        self.attempt <= self.attempts
    }

    /// The number of the current reroll; 0 before the first.
    pub fn attempt(&self) -> (res: u64)
        ensures
            res == self@.attempt,
            res <= self@.attempts,
    {
        proof {
            use_type_invariant(self);
        }
        self.attempt
    }

    /// How many rerolls the recovery may make.
    pub fn attempts(&self) -> (res: u64)
        ensures
            res == self@.attempts,
    {
        self.attempts
    }

    /// A recovery that may make `attempts` rerolls, and its first action:
    /// the first reroll, or, where no reroll is allowed, the report that the
    /// address stays unreachable.
    pub fn start(attempts: u64) -> (res: (NatRecovery, RecoveryAction))
        ensures
            res.0@ == spec_start(attempts),
            attempts > 0 ==> res.1 is Roll,
            attempts == 0 ==> (res.1 matches RecoveryAction::Finish(t, s)
                && t@ == unreachable_text(attempts) && s == Some(false)),
    {
        if attempts > 0 {
            (NatRecovery { attempts, attempt: 1 }, RecoveryAction::Roll)
        } else {
            (NatRecovery { attempts, attempt: 0 }, Self::give_up(attempts))
        }
    }

    fn give_up(attempts: u64) -> (res: RecoveryAction)
        ensures
            res matches RecoveryAction::Finish(t, s) && t@ == unreachable_text(attempts) && s == Some(false),
    {
        let mut text = String::new();
        text.append("NAT remains unreachable after ");
        push_decimal(&mut text, attempts);
        text.append(" roll attempts.");
        RecoveryAction::Finish(text, Some(false))
    }

    /// What follows a reroll: a dry run ends the recovery, since nothing
    /// can change; a restart is followed by a check; a failed reroll by the
    /// wait.
    pub fn after_roll(&self, outcome: &RollOutcome) -> (res: RecoveryAction)
        ensures
            match outcome {
                RollOutcome::Rolled => res is CheckStatus,
                RollOutcome::DryRun => res matches RecoveryAction::Finish(t, s) && t@ == dry_run_text()
                    && s == Some(false),
                RollOutcome::Failed(_) => res is Wait,
            },
    {
        match outcome {
            RollOutcome::Rolled => RecoveryAction::CheckStatus,
            RollOutcome::DryRun => RecoveryAction::Finish("NAT recovery skipped: DRY_RUN is set.".to_owned(), Some(false)),
            RollOutcome::Failed(_) => RecoveryAction::Wait,
        }
    }

    /// What follows the check after a reroll: a reachable address is
    /// published to DuckDNS; a check that could not be made ends the
    /// recovery with its text; an address still unreachable waits for the
    /// next reroll.
    pub fn after_status(&self, message: &str, state: Option<bool>) -> (res: RecoveryAction)
        ensures
            state == Some(true) ==> res is UpdateDns,
            state == Some(false) ==> res is Wait,
            state == None::<bool> ==> (res matches RecoveryAction::Finish(t, s)
                && t@ == check_failed_text(self@.attempt, self@.attempts, message@) && s == None::<bool>),
    {
        match state {
            Some(true) => RecoveryAction::UpdateDns,
            Some(false) => RecoveryAction::Wait,
            None => {
                let mut text = String::new();
                text.append("NAT check failed after roll attempt ");
                push_attempt(&mut text, self.attempt, self.attempts);
                text.append(": ");
                text.append(message);
                RecoveryAction::Finish(text, None)
            },
        }
    }

    /// The end of a recovery that made the address reachable, once DuckDNS
    /// was asked to update: the address counts as reachable either way, and
    /// the text says whether the update went through.
    pub fn after_dns(&self, message: &str, update: Result<(), String>) -> (res: RecoveryAction)
        ensures
            match update {
                Ok(()) => res matches RecoveryAction::Finish(t, s)
                    && t@ == recovered_text(self@.attempt, self@.attempts, message@) && s == Some(true),
                Err(e) => res matches RecoveryAction::Finish(t, s)
                    && t@ == dns_failed_text(e@, message@) && s == Some(true),
            },
    {
        let mut text = String::new();
        match update {
            Ok(()) => {
                text.append("NAT recovered and DuckDNS updated ");
                push_attempt(&mut text, self.attempt, self.attempts);
                text.append(": ");
                text.append(message);
            },
            Err(e) => {
                text.append("NAT recovered, but DuckDNS update failed: ");
                text.append(e.as_str());
                text.append("; ");
                text.append(message);
            },
        }
        RecoveryAction::Finish(text, Some(true))
    }

    /// What follows the wait: the next reroll while attempts are left, else
    /// the report that the address stays unreachable.
    pub fn after_wait(&mut self) -> (res: RecoveryAction)
        ensures
            final(self)@ == spec_wait(old(self)@),
            old(self)@.attempt < old(self)@.attempts ==> res is Roll,
            old(self)@.attempt >= old(self)@.attempts ==> (res matches RecoveryAction::Finish(t, s)
                && t@ == unreachable_text(old(self)@.attempts) && s == Some(false)),
    {
        proof {
            use_type_invariant(&*self);
        }
        if self.attempt < self.attempts {
            self.attempt = self.attempt + 1;
            RecoveryAction::Roll
        } else {
            Self::give_up(self.attempts)
        }
    }
}

/// The running monitors, one per chat at most, by chat id; `H` is what
/// stops a monitor.
pub struct MonitorRegistry<H> {
    monitors: HashMap<i64, H>,
}

impl<H> View for MonitorRegistry<H> {
    type V = Map<i64, H>;

    closed spec fn view(&self) -> Map<i64, H> {
        self.monitors@
    }
}

/// What `m` holds for `chat`, where it holds something.
pub open spec fn entry<H>(m: Map<i64, H>, chat: i64) -> Option<H> {
    if m.contains_key(chat) {
        Some(m[chat])
    } else {
        None
    }
}

impl<H> MonitorRegistry<H> {
    /// No monitor runs.
    pub fn new() -> (r: Self)
        ensures
            r@ == Map::<i64, H>::empty(),
    {
        MonitorRegistry { monitors: HashMap::new() }
    }

    /// Registers the monitor of `chat`; returns the one it replaces, which
    /// the caller stops.
    pub fn start(&mut self, chat: i64, monitor: H) -> (previous: Option<H>)
        ensures
            final(self)@ == old(self)@.insert(chat, monitor),
            previous == entry(old(self)@, chat),
    {
        broadcast use vstd::std_specs::hash::group_hash_axioms;
        self.monitors.insert(chat, monitor)
    }

    /// Unregisters the monitor of `chat` and hands it back to be stopped;
    /// `None` where no monitor ran there.
    pub fn stop(&mut self, chat: i64) -> (removed: Option<H>)
        ensures
            final(self)@ == old(self)@.remove(chat),
            removed == entry(old(self)@, chat),
    {
        broadcast use vstd::std_specs::hash::group_hash_axioms;
        self.monitors.remove(&chat)
    }
}

/// Starting a monitor and then stopping it finds it, leaves the other chats
/// as they were, and a second stop finds nothing.
pub proof fn law_start_then_stop<H>(m: Map<i64, H>, chat: i64, monitor: H)
    ensures
        entry(m.insert(chat, monitor), chat) == Some(monitor),
        m.insert(chat, monitor).remove(chat) == m.remove(chat),
        entry(m.insert(chat, monitor).remove(chat), chat) == None::<H>,
{
    assert(m.insert(chat, monitor).remove(chat) =~= m.remove(chat));
}

/// A second start for the same chat hands back the first monitor to be
/// stopped, so at most one monitor runs per chat.
pub proof fn law_start_replaces<H>(m: Map<i64, H>, chat: i64, first: H, second: H)
    ensures
        entry(m.insert(chat, first), chat) == Some(first),
        m.insert(chat, first).insert(chat, second) == m.insert(chat, second),
{
    assert(m.insert(chat, first).insert(chat, second) =~= m.insert(chat, second));
}

} // verus!
