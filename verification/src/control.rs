//! Decisions of the daemon around the monitoring cycles: what a wake-up
//! leads to, what systemd is told, how long to wait, and the banner.

use vstd::prelude::*;
use crate::scan::has_prefix;
use crate::text::{dec, push_dec, push_str};

verus! {

/// What the daemon does when it wakes.
#[derive(Clone, Copy, Debug, PartialEq, Eq, Structural)]
pub enum Wake {
    /// A termination signal came: stop.
    Shutdown,
    /// A hang-up signal came: reload the configuration, then go on.
    Reload,
    /// Nothing came: run a cycle.
    Watchdog,
}

/// Termination wins over reloading.
pub fn wake_action(term: bool, hup: bool) -> (w: Wake)
    ensures
        w == (if term {
            Wake::Shutdown
        } else if hup {
            Wake::Reload
        } else {
            Wake::Watchdog
        }),
{
    if term {
        Wake::Shutdown
    } else if hup {
        Wake::Reload
    } else {
        Wake::Watchdog
    }
}

pub open spec fn sd_states_spec(w: Wake) -> Seq<Seq<char>> {
    match w {
        Wake::Shutdown => seq!["STOPPING=1\nSTATUS=Shutting down..."@],
        Wake::Reload => seq!["RELOADING=1\nSTATUS=Config reloaded"@, "READY=1\nSTATUS=Monitoring..."@],
        Wake::Watchdog => seq!["WATCHDOG=1\nSTATUS=Monitoring..."@],
    }
}

/// The states systemd is told of, in order, at a wake-up.
pub fn sd_states(w: Wake) -> (v: Vec<&'static str>)
    ensures
        v@.map_values(|s: &str| s@) == sd_states_spec(w),
{
    let mut v: Vec<&'static str> = Vec::new();
    match w {
        Wake::Shutdown => {
            v.push("STOPPING=1\nSTATUS=Shutting down...");
        },
        Wake::Reload => {
            v.push("RELOADING=1\nSTATUS=Config reloaded");
            v.push("READY=1\nSTATUS=Monitoring...");
        },
        Wake::Watchdog => {
            v.push("WATCHDOG=1\nSTATUS=Monitoring...");
        },
    }
    assert(v@.map_values(|s: &str| s@) =~= sd_states_spec(w));
    v
}

/// The state systemd is told of once monitoring starts.
pub fn sd_ready() -> (s: &'static str)
    ensures
        s@ == "READY=1\nSTATUS=Monitoring..."@,
{
    "READY=1\nSTATUS=Monitoring..."
}

/// The datagram that tells systemd a state, with the process id.
pub fn sd_message(state: &str, pid: u32) -> (m: String)
    ensures
        m@ == state@ + "\nMAINPID="@ + dec(pid as nat),
{
    let mut m = String::new();
    push_str(&mut m, state);
    push_str(&mut m, "\nMAINPID=");
    push_dec(&mut m, pid as u128);
    m
}

/// Whether a notification socket path is accepted: an abstract socket
/// (`@...`) or one under `/run/`.
pub fn notify_socket_accepted(path: &str) -> (b: bool)
    ensures
        b == (has_prefix(path@, "@"@) || has_prefix(path@, "/run/"@)),
{
    crate::scan::starts_with(path, "@") || crate::scan::starts_with(path, "/run/")
}

/// How long to wait, in microseconds, for the rest of an interval of
/// `interval_secs` seconds after `elapsed_us` of work; nothing when the
/// work took the whole interval or longer.
pub fn remaining_wait_us(interval_secs: u64, elapsed_us: u64) -> (r: Option<u128>)
    ensures
        r == (if elapsed_us as int <= interval_secs as int * 1000000 {
            Some((interval_secs as int * 1000000 - elapsed_us) as u128)
        } else {
            None::<u128>
        }),
{
    let total: u128 = interval_secs as u128 * 1000000;
    if (elapsed_us as u128) <= total {
        Some(total - elapsed_us as u128)
    } else {
        None
    }
}

/// Whether this run must be the only running instance: every run but
/// `--init`, `--test`, a dry run and completion generation.
pub fn needs_single_instance(init: bool, test: bool, dry_run: bool, completions: bool) -> (b: bool)
    ensures
        b == !(init || test || dry_run || completions),
{
    !(init || test || dry_run || completions)
}

/// The banner printed at start and after each reload.
pub open spec fn banner_spec(
    version: Seq<char>,
    dry_run: bool,
    config_display: Seq<char>,
    log_path: Seq<char>,
    interval_secs: u64,
) -> Seq<char> {
    "🔍 sema "@ + version + (if dry_run {
        " (dry-run)"@
    } else {
        ""@
    }) + "\n──────────────────────────────────\nconfig:  "@ + config_display + "\nlog:     "@
        + log_path + "\ninterval: "@ + dec(interval_secs as nat) + "s\n"@
}

pub fn banner(
    version: &str,
    dry_run: bool,
    config_display: &str,
    log_path: &str,
    interval_secs: u64,
) -> (b: String)
    ensures
        b@ == banner_spec(version@, dry_run, config_display@, log_path@, interval_secs),
{
    let mut b = String::new();
    push_str(&mut b, "🔍 sema ");
    push_str(&mut b, version);
    if dry_run {
        push_str(&mut b, " (dry-run)");
    } else {
        proof {
            reveal_strlit("");
            assert(b@ + ""@ =~= b@);
        }
    }
    push_str(&mut b, "\n──────────────────────────────────\nconfig:  ");
    push_str(&mut b, config_display);
    push_str(&mut b, "\nlog:     ");
    push_str(&mut b, log_path);
    push_str(&mut b, "\ninterval: ");
    push_dec(&mut b, interval_secs as u128);
    push_str(&mut b, "s\n");
    b
}

} // verus!
