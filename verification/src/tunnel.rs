//! The SSH tunnel to the Saga voice API: what the daemon checks and what it
//! runs to set the tunnel up.
use vstd::prelude::*;
use vstd::string::*;

verus! {

/// Both ends of the tunnel.
pub struct TunnelConfig {
    pub saga_host: String,
    pub saga_voice_ip: String,
    pub saga_voice_port: String,
    pub local_port: String,
}

/// `port:ip:remote_port`, the forwarding that `ssh -L` takes.
pub open spec fn forwarding(c: TunnelConfig) -> Seq<char> {
    c.local_port@ + ":"@ + c.saga_voice_ip@ + ":"@ + c.saga_voice_port@
}

impl TunnelConfig {
    /// The health endpoint at the local end of the tunnel.
    pub fn health_url(&self) -> (r: String)
        ensures
            r@ == "http://localhost:"@ + self.local_port@ + "/health"@,
    {
        String::from_str("http://localhost:").concat(self.local_port.as_str()).concat("/health")
    }

    /// The `pkill -f` pattern that matches an earlier tunnel on this port.
    pub fn pkill_pattern(&self) -> (r: String)
        ensures
            r@ == "ssh.*-L.*"@ + forwarding(*self),
    {
        String::from_str("ssh.*-L.*").concat(self.bind_spec().as_str())
    }

    /// The forwarding that `ssh -L` takes.
    pub fn bind_spec(&self) -> (r: String)
        ensures
            r@ == forwarding(*self),
    {
        self.local_port.clone().concat(":").concat(self.saga_voice_ip.as_str()).concat(":").concat(
            self.saga_voice_port.as_str(),
        )
    }

    /// The login that the tunnel runs through.
    pub fn ssh_target(&self) -> (r: String)
        ensures
            r@ == "root@"@ + self.saga_host@,
    {
        String::from_str("root@").concat(self.saga_host.as_str())
    }
}

/// Where setting up the tunnel stands.
#[derive(Clone, Copy, PartialEq, Eq, Structural, Debug)]
pub enum TunnelState {
    /// Nothing done yet.
    Idle,
    /// Waiting for the first health check.
    FirstCheck,
    /// Waiting for an earlier tunnel on the port to be killed.
    Killing,
    /// Waiting for `ssh` to be spawned.
    Spawning,
    /// Waiting for the health check through the new tunnel.
    SecondCheck,
    /// Over.
    Done,
}

/// What happened since the last step.
#[derive(Clone, Copy, PartialEq, Eq, Structural, Debug)]
pub enum TunnelEvent {
    /// Setting up begins.
    Begin,
    /// The health endpoint answered with success, or not.
    Health(bool),
    /// `pkill` ran, whatever it found.
    Killed,
    /// `ssh` was spawned, or could not be.
    Spawned(bool),
}

/// What to do next.
#[derive(Debug, PartialEq, Eq)]
pub enum TunnelStep {
    /// Check the health endpoint at this URL.
    Check(String),
    /// The tunnel is already up: use it, with no process of our own.
    Reuse,
    /// Run `pkill -f` with this pattern.
    Kill(String),
    /// Run `ssh -f -N -L` with this forwarding and this login.
    Spawn(String, String),
    /// Wait a second, then check the health endpoint at this URL again.
    Recheck(String),
    /// The tunnel is up through the spawned process.
    Ready,
    /// Setting up failed with this message.
    Fail(String),
}

/// The mathematical value of a [`TunnelStep`].
pub enum TunnelStepView {
    Check(Seq<char>),
    Reuse,
    Kill(Seq<char>),
    Spawn(Seq<char>, Seq<char>),
    Recheck(Seq<char>),
    Ready,
    Fail(Seq<char>),
}

impl View for TunnelStep {
    type V = TunnelStepView;

    open spec fn view(&self) -> TunnelStepView {
        match self {
            TunnelStep::Check(u) => TunnelStepView::Check(u@),
            TunnelStep::Reuse => TunnelStepView::Reuse,
            TunnelStep::Kill(p) => TunnelStepView::Kill(p@),
            TunnelStep::Spawn(b, t) => TunnelStepView::Spawn(b@, t@),
            TunnelStep::Recheck(u) => TunnelStepView::Recheck(u@),
            TunnelStep::Ready => TunnelStepView::Ready,
            TunnelStep::Fail(m) => TunnelStepView::Fail(m@),
        }
    }
}

/// The health endpoint at the local end of the tunnel.
pub open spec fn health_url_spec(c: TunnelConfig) -> Seq<char> {
    "http://localhost:"@ + c.local_port@ + "/health"@
}

/// The events that can follow each state.
pub open spec fn tunnel_accepts(state: TunnelState, event: TunnelEvent) -> bool {
    match state {
        TunnelState::Idle => event is Begin,
        TunnelState::FirstCheck => event is Health,
        TunnelState::Killing => event is Killed,
        TunnelState::Spawning => event is Spawned,
        TunnelState::SecondCheck => event is Health,
        TunnelState::Done => false,
    }
}

/// Setting up the tunnel: a tunnel whose health endpoint already answers is
/// reused; otherwise an earlier tunnel on the port is killed, `ssh` is
/// spawned, and the endpoint is checked once more.
pub open spec fn tunnel_spec(c: TunnelConfig, state: TunnelState, event: TunnelEvent) -> (
    TunnelState,
    TunnelStepView,
) {
    let url = health_url_spec(c);
    match event {
        TunnelEvent::Begin => (TunnelState::FirstCheck, TunnelStepView::Check(url)),
        TunnelEvent::Health(up) => if state == TunnelState::FirstCheck {
            if up {
                (TunnelState::Done, TunnelStepView::Reuse)
            } else {
                (TunnelState::Killing, TunnelStepView::Kill("ssh.*-L.*"@ + forwarding(c)))
            }
        } else if up {
            (TunnelState::Done, TunnelStepView::Ready)
        } else {
            (
                TunnelState::Done,
                TunnelStepView::Fail(
                    "Cannot reach Voice API at "@ + url + ". Check SSH connection."@,
                ),
            )
        },
        TunnelEvent::Killed => (
            TunnelState::Spawning,
            TunnelStepView::Spawn(forwarding(c), "root@"@ + c.saga_host@),
        ),
        TunnelEvent::Spawned(ok) => if ok {
            (TunnelState::SecondCheck, TunnelStepView::Recheck(url))
        } else {
            (TunnelState::Done, TunnelStepView::Fail("Failed to spawn SSH tunnel"@))
        },
    }
}

/// The next step in setting up the tunnel, and the state that it leaves.
pub fn tunnel_next(config: &TunnelConfig, state: TunnelState, event: TunnelEvent) -> (r: (
    TunnelState,
    TunnelStep,
))
    requires
        tunnel_accepts(state, event),
    ensures
        (r.0, r.1@) == tunnel_spec(*config, state, event),
{
    match event {
        TunnelEvent::Begin => (TunnelState::FirstCheck, TunnelStep::Check(config.health_url())),
        TunnelEvent::Health(up) => {
            if state == TunnelState::FirstCheck {
                if up {
                    (TunnelState::Done, TunnelStep::Reuse)
                } else {
                    (TunnelState::Killing, TunnelStep::Kill(config.pkill_pattern()))
                }
            } else if up {
                (TunnelState::Done, TunnelStep::Ready)
            } else {
                let message = String::from_str("Cannot reach Voice API at ").concat(
                    config.health_url().as_str(),
                ).concat(". Check SSH connection.");
                (TunnelState::Done, TunnelStep::Fail(message))
            }
        },
        TunnelEvent::Killed => (
            TunnelState::Spawning,
            TunnelStep::Spawn(config.bind_spec(), config.ssh_target()),
        ),
        TunnelEvent::Spawned(ok) => {
            if ok {
                (TunnelState::SecondCheck, TunnelStep::Recheck(config.health_url()))
            } else {
                (TunnelState::Done, TunnelStep::Fail(String::from_str("Failed to spawn SSH tunnel")))
            }
        },
    }
}

} // verus!
