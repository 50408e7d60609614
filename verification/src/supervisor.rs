//! The supervisor's rules: when the session is opened anew.
//!
//! The supervisor keeps one session alive for the configuration in force and
//! the exporter alive for the life of the process. It is told what happened
//! — the configuration was read again, the session ended, the exporter ended
//! — and says what is to be done. Reading files, sleeping and starting tasks
//! are left to the caller.

use crate::config::{session_parameters_equal, session_parameters_same, Configuration};
use vstd::prelude::*;

verus! {

/// Seconds to wait before a session that ended is opened again.
pub const RESTART_SECONDS: u64 = 2;

/// What reading the configuration again led to.
#[derive(Debug, Clone, Copy, PartialEq, Eq, Structural)]
pub enum Reload {
    /// The configuration could not be read. The one in force stays, and so
    /// does the session.
    LoadFailed,
    /// The configuration read equals the one in force. The session stays.
    Unchanged,
    /// The configuration read differs and is now in force. The session is to
    /// be opened anew, once.
    Restart,
}

/// The rule of reloading. A configuration that could not be read changes
/// nothing; one that equals the configuration in force, in its connection
/// parameters and in its settings, changes nothing either; any other takes
/// its place and the session is opened anew.
pub open spec fn spec_reload_outcome(
    loaded: bool,
    same_session: bool,
    same_settings: bool,
) -> Reload {
    if !loaded {
        Reload::LoadFailed
    } else if same_session && same_settings {
        Reload::Unchanged
    } else {
        Reload::Restart
    }
}

/// Decides what reading the configuration again leads to: `loaded` says
/// whether it could be read, `same_session` whether its connection
/// parameters equal those in force, `same_settings` whether its settings do.
pub fn reload_outcome(loaded: bool, same_session: bool, same_settings: bool) -> (r: Reload)
    ensures
        r == spec_reload_outcome(loaded, same_session, same_settings),
{
    if !loaded {
        Reload::LoadFailed
    } else if same_session && same_settings {
        Reload::Unchanged
    } else {
        Reload::Restart
    }
}

/// What reading the configuration again leads to, where `current` is in
/// force and `loaded` was read, or could not be read.
pub open spec fn reload_of(current: Configuration, loaded: Option<Configuration>) -> Reload {
    match loaded {
        None => Reload::LoadFailed,
        Some(new) => spec_reload_outcome(
            true,
            session_parameters_same(new.irc, current.irc),
            new.settings() == current.settings(),
        ),
    }
}

/// Takes in a configuration that was read again after a reload signal;
/// `loaded` is `None` where it could not be read.
///
/// The result is what `reload_of` says, and the configuration in force is
/// replaced by the one read exactly where the result is `Restart`.
pub fn handle_reload_signal(config: &mut Configuration, loaded: Option<Configuration>) -> (r:
    Reload)
    ensures
        r == reload_of(*old(config), loaded),
        r == Reload::Restart ==> loaded == Some(*final(config)),
        r != Reload::Restart ==> *final(config) == *old(config),
{
    match loaded {
        None => reload_outcome(false, false, false),
        Some(new_config) => {
            let same_session = session_parameters_equal(&new_config.irc, &config.irc);
            let same_settings = new_config.same_settings(config);
            let r = reload_outcome(true, same_session, same_settings);
            match r {
                Reload::Restart => {
                    *config = new_config;
                },
                _ => {},
            }
            r
        },
    }
}

/// What the supervisor is told.
pub enum SupervisorEvent {
    /// A reload was asked for and the configuration was read again; `None`
    /// where it could not be read.
    ReloadSignal { loaded: Option<Configuration> },
    /// The session ended, with or without an error.
    SessionEnded,
    /// The exporter ended: it could not listen, or it stopped.
    ExporterEnded,
}

/// What the supervisor has done.
#[derive(Debug, Clone, Copy, PartialEq, Eq, Structural)]
pub enum SupervisorAction {
    /// Nothing changes.
    Continue,
    /// The session in being, if any, is to be dropped, and after
    /// `delay_seconds` a new one opened with the configuration in force.
    RestartSession { delay_seconds: u64 },
    /// The process is to end.
    Shutdown,
}

/// The action that follows from an event, where `current` is the
/// configuration in force.
pub open spec fn spec_action(current: Configuration, event: SupervisorEvent) -> SupervisorAction {
    match event {
        SupervisorEvent::ReloadSignal { loaded } => match reload_of(current, loaded) {
            Reload::Restart => SupervisorAction::RestartSession { delay_seconds: 0 },
            _ => SupervisorAction::Continue,
        },
        SupervisorEvent::SessionEnded => SupervisorAction::RestartSession {
            delay_seconds: RESTART_SECONDS,
        },
        SupervisorEvent::ExporterEnded => SupervisorAction::Shutdown,
    }
}

/// Takes in one event.
///
/// A session that ended is opened again after a fixed delay, every time and
/// without limit. The end of the exporter ends the process. A reload opens
/// the session anew, at once, exactly where the configuration read differs
/// from the one in force, and then the one read is in force. The second
/// result is what the reload led to, or `None` for the other events.
pub fn supervise(config: &mut Configuration, event: SupervisorEvent) -> (r: (
    SupervisorAction,
    Option<Reload>,
))
    ensures
        r.0 == spec_action(*old(config), event),
        match event {
            SupervisorEvent::ReloadSignal { loaded } => {
                &&& r.1 == Some(reload_of(*old(config), loaded))
                &&& (r.1 == Some(Reload::Restart) ==> loaded == Some(*final(config)))
                &&& (r.1 != Some(Reload::Restart) ==> *final(config) == *old(config))
            },
            _ => r.1 is None && *final(config) == *old(config),
        },
{
    match event {
        SupervisorEvent::ReloadSignal { loaded } => {
            let reload = handle_reload_signal(config, loaded);
            let action = match reload {
                Reload::Restart => SupervisorAction::RestartSession { delay_seconds: 0 },
                _ => SupervisorAction::Continue,
            };
            (action, Some(reload))
        },
        SupervisorEvent::SessionEnded => (
            SupervisorAction::RestartSession { delay_seconds: RESTART_SECONDS },
            None,
        ),
        SupervisorEvent::ExporterEnded => (SupervisorAction::Shutdown, None),
    }
}

} // verus!
