//! Immutable node parameters, and the binding policy derived from them.

use vstd::prelude::*;

use crate::addr::IpAddress;

verus! {

/// The node's configuration.
///
/// If `listener_ip` is set, then either `desired_listening_port` is set or
/// `allow_random_port` is true: that is the configuration invariant `wf`.
pub struct Config {
    /// An optional human-readable identifier. When absent, the node is
    /// assigned a sequential numeric name at construction.
    pub name: Option<String>,
    /// The IP to listen on; absence means the node is outbound-only.
    pub listener_ip: Option<IpAddress>,
    /// The preferred listening port.
    pub desired_listening_port: Option<u16>,
    /// Whether to fall back to an OS-chosen port (port 0) when the desired
    /// port is unavailable or unset.
    pub allow_random_port: bool,
    /// The cap on active plus pending connections.
    pub max_connections: u16,
}

/// The ghost value of a `Config`.
#[verifier::ext_equal]
pub struct ConfigView {
    pub name: Option<Seq<char>>,
    pub listener_ip: Option<IpAddress>,
    pub desired_listening_port: Option<u16>,
    pub allow_random_port: bool,
    pub max_connections: u16,
}

impl ConfigView {
    /// The configuration invariant.
    pub open spec fn wf(self) -> bool {
        self.listener_ip is Some ==> (self.desired_listening_port is Some
            || self.allow_random_port)
    }
}

impl View for Config {
    type V = ConfigView;

    open spec fn view(&self) -> ConfigView {
        ConfigView {
            name: match self.name {
                Some(n) => Some(n@),
                None => None,
            },
            listener_ip: self.listener_ip,
            desired_listening_port: self.desired_listening_port,
            allow_random_port: self.allow_random_port,
            max_connections: self.max_connections,
        }
    }
}

impl Config {
    /// The configuration invariant.
    pub open spec fn wf(self) -> bool {
        self@.wf()
    }
}

/// What a listener should be bound to, derived from a `Config`.
#[derive(Clone, Copy, PartialEq, Eq, Structural, Debug)]
pub enum BindPlan {
    /// The node is outbound-only: no listener is bound.
    NoListener,
    /// Bind the desired port; if that fails and `fall_back_to_random` is
    /// true, bind port 0 instead, otherwise propagate the error.
    BindDesired { ip: IpAddress, port: u16, fall_back_to_random: bool },
    /// Bind port 0 directly and let the OS choose.
    BindRandom { ip: IpAddress },
}

impl Config {
    /// The binding policy: with no listener IP the node is outbound-only;
    /// with a desired port, bind it, falling back to a random port exactly
    /// when `allow_random_port` holds; with no desired port, bind a random
    /// port directly.
    pub fn bind_plan(&self) -> (plan: BindPlan)
        requires
            self.wf(),
        ensures
            plan == spec_bind_plan(*self),
    {
        match (&self.listener_ip, &self.desired_listening_port) {
            (None, _) => BindPlan::NoListener,
            (Some(ip), Some(port)) => BindPlan::BindDesired {
                ip: *ip,
                port: *port,
                fall_back_to_random: self.allow_random_port,
            },
            (Some(ip), None) => BindPlan::BindRandom { ip: *ip },
        }
    }
}

/// The binding policy as a function of the configuration.
pub open spec fn spec_bind_plan(c: Config) -> BindPlan {
    match (c.listener_ip, c.desired_listening_port) {
        (None, _) => BindPlan::NoListener,
        (Some(ip), Some(port)) => BindPlan::BindDesired {
            ip,
            port,
            fall_back_to_random: c.allow_random_port,
        },
        (Some(ip), None) => BindPlan::BindRandom { ip },
    }
}

/// When random ports are disallowed, the plan never falls back to one: a
/// bind failure of the desired port is propagated as a construction error.
pub proof fn lemma_no_random_port_without_permission(c: Config)
    requires
        c.wf(),
        !c.allow_random_port,
    ensures
        !(spec_bind_plan(c) is BindRandom),
        spec_bind_plan(c) matches BindPlan::BindDesired { fall_back_to_random, .. }
            ==> !fall_back_to_random,
{
}

} // verus!
