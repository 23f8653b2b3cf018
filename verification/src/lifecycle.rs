//! The proxy listener's lifecycle: which status changes are allowed, when a
//! configuration change rotates the live connections, and how many client
//! connections are admitted at once.
use vstd::prelude::*;
use vstd::string::*;

use crate::error::Error;
use crate::model::{AppConfig, ProxyStatus};
use crate::text::str_eq;

verus! {

/// The most client connections served at once.
pub const MAX_CLIENT_CONNECTIONS: usize = 256;

/// Whether a new client connection is admitted while `active` are served.
pub fn admit_client(active: usize) -> (r: bool)
    ensures
        r == (active < MAX_CLIENT_CONNECTIONS),
{
    active < MAX_CLIENT_CONNECTIONS
}

/// The client connections being served, never more than the maximum.
pub struct ConnectionSlots {
    active: usize,
}

impl ConnectionSlots {
    /// At most the maximum number of connections is counted.
    #[verifier::type_invariant]
    spec fn within_cap(&self) -> bool {
        self.active <= MAX_CLIENT_CONNECTIONS
    }

    /// How many connections are being served.
    pub closed spec fn active(&self) -> usize {
        self.active
    }

    /// No connection served yet.
    pub fn new() -> (r: Self)
        ensures
            r.active() == 0,
    {
        ConnectionSlots { active: 0 }
    }

    /// A connection arrived: it is admitted, and counted, exactly when fewer
    /// than the maximum are being served; otherwise it is rejected.
    pub fn try_admit(&mut self) -> (r: bool)
        ensures
            r == (old(self).active() < MAX_CLIENT_CONNECTIONS),
            final(self).active() == if r {
                old(self).active() + 1
            } else {
                old(self).active() as int
            },
            final(self).active() <= MAX_CLIENT_CONNECTIONS,
    {
        proof {
            use_type_invariant(&*self);
        }
        if admit_client(self.active) {
            self.active = self.active + 1;
            true
        } else {
            false
        }
    }

    /// An admitted connection closed: its slot is free again.
    pub fn release(&mut self)
        requires
            old(self).active() > 0,
        ensures
            final(self).active() == old(self).active() - 1,
    {
        proof {
            use_type_invariant(&*self);
        }
        self.active = self.active - 1;
    }

    /// How many connections are being served.
    pub fn count(&self) -> (r: usize)
        ensures
            r == self.active(),
            r <= MAX_CLIENT_CONNECTIONS,
    {
        proof {
            use_type_invariant(self);
        }
        self.active
    }
}

/// The text of an optional name, for comparing by content.
pub open spec fn name_view(name: Option<String>) -> Option<Seq<char>> {
    match name {
        Some(n) => Some(n@),
        None => None,
    }
}

/// Two routing script names are the same for rotation exactly when both are
/// absent or both name the same text.
pub proof fn law_routing_names_compare_by_text(a: Option<String>, b: Option<String>)
    ensures
        name_view(a) == name_view(b) <==> (a.is_none() && b.is_none()) || (a matches Some(x) && b matches Some(y)
            && x@ == y@),
{
}

/// Whether two optional names are the same text.
fn same_name(a: &Option<String>, b: &Option<String>) -> (r: bool)
    ensures
        r == (name_view(*a) == name_view(*b)),
{
    match (a, b) {
        (Some(x), Some(y)) => str_eq(x.as_str(), y.as_str()),
        (None, None) => true,
        _ => false,
    }
}

/// Replacing the configuration rotates every live connection, tunnel and
/// upstream pool exactly when the proxy runs and the active Session or the
/// selected routing script actually changes; an identical update does not.
pub fn config_change_rotates(current: &AppConfig, next: &AppConfig, status: &ProxyStatus) -> (r: bool)
    ensures
        r == ((*status matches ProxyStatus::Running { .. }) && (current.active_session_id
            != next.active_session_id || name_view(current.routing_script_name) != name_view(
            next.routing_script_name,
        ))),
{
    let running = match status {
        ProxyStatus::Running { .. } => true,
        _ => false,
    };
    let changed = current.active_session_id != next.active_session_id || !same_name(
        &current.routing_script_name,
        &next.routing_script_name,
    );
    running && changed
}

/// Whether the proxy is at rest: stopped, or failed to start.
pub open spec fn at_rest(status: ProxyStatus) -> bool {
    status matches ProxyStatus::Stopped || status matches ProxyStatus::Failed { .. }
}

/// The proxy can be started (and its CA regenerated) only when it is stopped
/// or failed; while it starts, runs or stops, it cannot.
pub proof fn law_only_a_resting_proxy_starts(message: String, host: String, port: u16, started_at: u64)
    ensures
        at_rest(ProxyStatus::Stopped),
        at_rest(ProxyStatus::Failed { message }),
        !at_rest(ProxyStatus::Starting),
        !at_rest(ProxyStatus::Stopping),
        !at_rest(ProxyStatus::Running { host, port, started_at }),
{
}

fn is_at_rest(status: &ProxyStatus) -> (r: bool)
    ensures
        r == at_rest(*status),
{
    match status {
        ProxyStatus::Stopped => true,
        ProxyStatus::Failed { .. } => true,
        _ => false,
    }
}

/// Starting the proxy: allowed only at rest, when the status becomes
/// `Starting`; otherwise it is refused and the status stays.
pub fn begin_start(status: &ProxyStatus) -> (r: Result<ProxyStatus, Error>)
    ensures
        at_rest(*status) ==> r == Ok::<ProxyStatus, Error>(ProxyStatus::Starting),
        !at_rest(*status) ==> r == Err::<ProxyStatus, Error>(Error::ProxyAlreadyRunning),
{
    if is_at_rest(status) {
        Ok(ProxyStatus::Starting)
    } else {
        Err(Error::ProxyAlreadyRunning)
    }
}

/// The status once binding the listener is over: running on the bound host
/// and port, or failed with the bind error.
pub fn bind_outcome(bound: Result<(String, u16), String>, started_at: u64) -> (r: ProxyStatus)
    ensures
        match bound {
            Ok((host, port)) => r == (ProxyStatus::Running { host, port, started_at }),
            Err(message) => r == (ProxyStatus::Failed { message }),
        },
{
    match bound {
        Ok((host, port)) => ProxyStatus::Running { host, port, started_at },
        Err(message) => ProxyStatus::Failed { message },
    }
}

/// Stopping the proxy: a stopped proxy stays stopped and there is nothing to
/// shut down (`None`); any other status goes through `Stopping`.
pub fn begin_stop(status: &ProxyStatus) -> (r: Option<ProxyStatus>)
    ensures
        (*status matches ProxyStatus::Stopped) ==> r.is_none(),
        !(*status matches ProxyStatus::Stopped) ==> r == Some(ProxyStatus::Stopping),
{
    match status {
        ProxyStatus::Stopped => None,
        _ => Some(ProxyStatus::Stopping),
    }
}

/// Regenerating the CA needs the proxy at rest.
pub fn ensure_proxy_stopped(status: &ProxyStatus) -> (r: Result<(), Error>)
    ensures
        at_rest(*status) ==> r.is_ok(),
        !at_rest(*status) ==> r == Err::<(), Error>(Error::ProxyMustBeStopped),
{
    if is_at_rest(status) {
        Ok(())
    } else {
        Err(Error::ProxyMustBeStopped)
    }
}

} // verus!
