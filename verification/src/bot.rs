//! The Telegram bot's commands and its health-check endpoint.
use vstd::prelude::*;
use crate::nat_monitor::{option_bytes, positive_secs, spec_positive_secs};
use crate::text::{parse_u16, spec_parse_u16};

verus! {

/// The port of the health check where `HEALTH_CHECK_PORT` is not set.
pub const DEFAULT_HEALTH_CHECK_PORT: u16 = 8000;

/// The commands that the bot answers.
#[derive(Clone, Debug)]
pub enum BotCommand {
    Start,
    Help,
    Roll,
    Nat,
    /// `/natwatch [secs]`, with the text after the command.
    NatWatch(String),
    /// `/natstop`.
    NatStop,
}

/// What the bot does for a command.
pub enum BotAction {
    /// Send this text.
    Send(String),
    /// Send the list of commands.
    SendHelp,
    /// Reroll the connection (`/roll`).
    Roll,
    /// Check the NAT (`/nat`).
    CheckNat,
    /// Start (or restart) the NAT monitor of the chat, checking every so
    /// many seconds.
    StartMonitor(u64),
    /// Stop the NAT monitor of the chat.
    StopMonitor,
}

/// The greeting of `/start`.
pub open spec fn welcome_text() -> Seq<char> {
    "Welcome to ip-gacha-roll bot."@
}

/// The first text of `/nat`.
pub open spec fn checking_nat_text() -> Seq<char> {
    "Checking NAT..."@
}

/// What the bot does for `command`, where `default_interval` is the
/// configured interval of the NAT monitor: `/natwatch` starts the monitor
/// with the interval given after it where that is a positive number, else
/// with the default; `/natstop` stops it.
pub fn bot_action(command: BotCommand, default_interval: u64) -> (res: BotAction)
    ensures
        match command {
            BotCommand::Start => res matches BotAction::Send(t) && t@ == welcome_text(),
            BotCommand::Help => res is SendHelp,
            BotCommand::Roll => res is Roll,
            BotCommand::Nat => res is CheckNat,
            BotCommand::NatWatch(arg) => res == BotAction::StartMonitor(
                spec_positive_secs(Some(vstd::utf8::encode_utf8(arg@)), default_interval),
            ),
            BotCommand::NatStop => res is StopMonitor,
        },
{
    match command {
        BotCommand::Start => BotAction::Send("Welcome to ip-gacha-roll bot.".to_owned()),
        BotCommand::Help => BotAction::SendHelp,
        BotCommand::Roll => BotAction::Roll,
        BotCommand::Nat => BotAction::CheckNat,
        BotCommand::NatWatch(arg) => BotAction::StartMonitor(positive_secs(Some(arg.as_str()), default_interval)),
        BotCommand::NatStop => BotAction::StopMonitor,
    }
}

/// What the bot does once a command was handled: nothing more where it
/// went through; where it failed, the error's text is sent back to the chat.
/// Either way the update counts as answered.
pub enum AnswerFollowup {
    Done,
    ReportError(String),
}

/// What follows the handling of a command that ended in `outcome`.
pub fn answer_followup(outcome: Result<(), String>) -> (res: AnswerFollowup)
    ensures
        match outcome {
            Ok(()) => res is Done,
            Err(e) => res == AnswerFollowup::ReportError(e),
        },
{
    match outcome {
        Ok(()) => AnswerFollowup::Done,
        Err(e) => AnswerFollowup::ReportError(e),
    }
}

/// The first text of `/nat`, shown while the check runs.
pub fn checking_nat_message() -> (res: String)
    ensures
        res@ == checking_nat_text(),
{
    "Checking NAT...".to_owned()
}

/// The port of the health check: `HEALTH_CHECK_PORT` where it parses as a
/// port number, else 8000.
pub fn health_port(value: Option<&str>) -> (res: u16)
    ensures
        res == match option_bytes(value) {
            Some(text) => match spec_parse_u16(text) {
                Some(p) => p,
                None => DEFAULT_HEALTH_CHECK_PORT,
            },
            None => DEFAULT_HEALTH_CHECK_PORT,
        },
{
    match value {
        Some(text) => match parse_u16(text) {
            Some(port) => port,
            None => DEFAULT_HEALTH_CHECK_PORT,
        },
        None => DEFAULT_HEALTH_CHECK_PORT,
    }
}

} // verus!
