//! Router connection settings of the desktop front end.
use vstd::prelude::*;

verus! {

/// Login of the router's administrator when none is configured.
pub const ROUTER_USER: &'static str = "admin";

/// Password of the router's administrator when none is configured.
pub const ROUTER_PASS: &'static str = "admin";

/// Address of the router when none is configured.
pub const ROUTER_IP: &'static str = "192.168.1.1";

/// Where the router is and how to log in to it.
pub struct Settings {
    pub router_ip: String,
    pub user: String,
    pub pass: String,
    /// Whether a reroll only brings the interface up instead of restarting it.
    pub dry_run: bool,
}

impl Settings {
    /// The factory defaults of a Keenetic router: `admin`/`admin` at
    /// `192.168.1.1`, with real rerolls.
    pub fn new() -> (s: Self)
        ensures
            s.router_ip@ == ROUTER_IP@,
            s.user@ == ROUTER_USER@,
            s.pass@ == ROUTER_PASS@,
            !s.dry_run,
    {
        Settings {
            router_ip: ROUTER_IP.to_owned(),
            user: ROUTER_USER.to_owned(),
            pass: ROUTER_PASS.to_owned(),
            dry_run: false,
        }
    }
}

/// The settings that the caller passed, or the defaults where it passed none.
pub fn get_settings(settings: Option<Settings>) -> (s: Settings)
    ensures
        match settings {
            Some(given) => s == given,
            None => {
                &&& s.router_ip@ == ROUTER_IP@
                &&& s.user@ == ROUTER_USER@
                &&& s.pass@ == ROUTER_PASS@
                &&& !s.dry_run
            },
        },
{
    match settings {
        Some(settings) => settings,
        None => Settings::new(),
    }
}

} // verus!
