//! Declarative host firewall policy.
use vstd::prelude::*;

use super::swap::{find_package, has_package};
use super::{InitSystem, SystemManifest};
use crate::text::str_eq;

verus! {

/// Portage atom that ships `/sbin/nft` and the OpenRC `nftables` service.
pub const NFTABLES_PACKAGE: &'static str = "net-firewall/nftables";

/// OpenRC service that loads the saved ruleset at boot.
pub const NFTABLES_SERVICE: &'static str = "nftables";

pub open spec fn nftables_package() -> Seq<char> {
    "net-firewall/nftables"@
}

pub open spec fn nftables_service() -> Seq<char> {
    "nftables"@
}

/// Firewall policy, restricted to chain policies and numeric ports so that
/// every manifest renders to a ruleset that can be validated and regenerated.
#[derive(Debug, Clone, PartialEq, Eq)]
pub enum Firewall {
    /// No managed firewall.
    Disabled,
    Nftables {
        incoming: FirewallPolicy,
        forwarding: FirewallPolicy,
        outgoing: FirewallPolicy,
        /// Accept ICMPv4 and ICMPv6.
        allow_icmp: bool,
        /// TCP ports accepted from any source.
        tcp_ports: Vec<u16>,
        /// UDP ports accepted from any source.
        udp_ports: Vec<u16>,
    },
}

impl Default for Firewall {
    fn default() -> (r: Self)
        ensures
            r is Disabled,
    {
        Firewall::Disabled
    }
}

#[derive(Debug, Clone, Copy, PartialEq, Eq, Structural)]
pub enum FirewallPolicy {
    Accept,
    Drop,
}

pub open spec fn policy_keyword(p: FirewallPolicy) -> Seq<char> {
    match p {
        FirewallPolicy::Accept => "accept"@,
        FirewallPolicy::Drop => "drop"@,
    }
}

impl FirewallPolicy {
    /// The nftables chain-policy keyword.
    pub fn keyword(self) -> (r: &'static str)
        ensures
            r@ == policy_keyword(self),
    {
        match self {
            FirewallPolicy::Accept => "accept",
            FirewallPolicy::Drop => "drop",
        }
    }
}

#[derive(Debug, Clone, PartialEq, Eq)]
pub enum FirewallValidationError {
    /// A declared port is 0.
    ZeroPort { protocol: &'static str },
    /// The nftables package is not declared.
    MissingPackage,
    /// The nftables service is not in the OpenRC default runlevel.
    MissingService,
    /// The init system is not OpenRC.
    UnsupportedInit(InitSystem),
}

pub open spec fn init_debug(i: InitSystem) -> Seq<char> {
    match i {
        InitSystem::Systemd => "Systemd"@,
        InitSystem::Openrc => "Openrc"@,
    }
}

pub open spec fn firewall_error_text(e: FirewallValidationError) -> Seq<char> {
    match e {
        FirewallValidationError::ZeroPort { protocol } => "firewall "@ + protocol@
            + "_ports contains 0, which is not a valid port"@,
        FirewallValidationError::MissingPackage => "firewall is enabled but "@ + NFTABLES_PACKAGE@
            + " is not in packages"@,
        FirewallValidationError::MissingService => "firewall is enabled but \""@ + NFTABLES_SERVICE@
            + "\" is not in services.openrc.default"@,
        FirewallValidationError::UnsupportedInit(i) =>
            "nftables firewall provisioning requires OpenRC (configured init system: "@ + init_debug(i)
            + ")"@,
    }
}

impl FirewallValidationError {
    /// The human-readable error message.
    pub fn message(&self) -> (r: String)
        ensures
            r@ == firewall_error_text(*self),
    {
        let mut v: Vec<char> = Vec::new();
        match self {
            FirewallValidationError::ZeroPort { protocol } => {
                crate::text::push_str(&mut v, "firewall ");
                crate::text::push_str(&mut v, protocol);
                crate::text::push_str(&mut v, "_ports contains 0, which is not a valid port");
            },
            FirewallValidationError::MissingPackage => {
                crate::text::push_str(&mut v, "firewall is enabled but ");
                crate::text::push_str(&mut v, NFTABLES_PACKAGE);
                crate::text::push_str(&mut v, " is not in packages");
            },
            FirewallValidationError::MissingService => {
                crate::text::push_str(&mut v, "firewall is enabled but \"");
                crate::text::push_str(&mut v, NFTABLES_SERVICE);
                crate::text::push_str(&mut v, "\" is not in services.openrc.default");
            },
            FirewallValidationError::UnsupportedInit(i) => {
                crate::text::push_str(
                    &mut v,
                    "nftables firewall provisioning requires OpenRC (configured init system: ",
                );
                match i {
                    InitSystem::Systemd => crate::text::push_str(&mut v, "Systemd"),
                    InitSystem::Openrc => crate::text::push_str(&mut v, "Openrc"),
                }
                crate::text::push_str(&mut v, ")");
            },
        }
        crate::text::string_of(&v)
    }
}

pub open spec fn has_zero(ports: Seq<u16>) -> bool {
    exists|i: int| 0 <= i < ports.len() && ports[i] == 0
}

/// What validating the policy alone yields: `None` for success, or the
/// protocol whose port list holds a zero (TCP checked first).
pub open spec fn zero_port_protocol(f: Firewall) -> Option<Seq<char>> {
    match f {
        Firewall::Disabled => None,
        Firewall::Nftables { tcp_ports, udp_ports, .. } => if has_zero(tcp_ports@) {
            Some("tcp"@)
        } else if has_zero(udp_ports@) {
            Some("udp"@)
        } else {
            None
        },
    }
}

fn contains_zero(ports: &Vec<u16>) -> (r: bool)
    ensures
        r == has_zero(ports@),
{
    let mut i: usize = 0;
    while i < ports.len()
        invariant
            i <= ports.len(),
            forall|k: int| 0 <= k < i ==> ports@[k] != 0,
        decreases ports.len() - i,
    {
        if ports[i] == 0 {
            return true;
        }
        i = i + 1;
    }
    false
}

impl Firewall {
    pub fn enabled(&self) -> (r: bool)
        ensures
            r == !(*self is Disabled),
    {
        match self {
            Firewall::Disabled => false,
            _ => true,
        }
    }

    /// Validates the policy itself: every declared port must be a real port.
    pub fn validate(&self) -> (r: Result<(), FirewallValidationError>)
        ensures
            match zero_port_protocol(*self) {
                None => r is Ok,
                Some(p) => r matches Err(FirewallValidationError::ZeroPort { protocol }) && protocol@ == p,
            },
    {
        match self {
            Firewall::Disabled => Ok(()),
            Firewall::Nftables { tcp_ports, udp_ports, .. } => {
                if contains_zero(tcp_ports) {
                    return Err(FirewallValidationError::ZeroPort { protocol: "tcp" });
                }
                if contains_zero(udp_ports) {
                    return Err(FirewallValidationError::ZeroPort { protocol: "udp" });
                }
                Ok(())
            },
        }
    }
}

/// An enabled firewall is well-formed, runs under OpenRC, and has its
/// package declared and its service in the default runlevel.
pub open spec fn firewall_ok(m: crate::manifest::SystemManifest) -> bool {
    m.firewall is Disabled || (zero_port_protocol(m.firewall) is None && m.init_system == InitSystem::Openrc
        && crate::manifest::swap::has_package(m.packages@, nftables_package()) && has_string(
        m.services.openrc.default@,
        nftables_service(),
    ))
}

pub open spec fn has_string(v: Seq<String>, s: Seq<char>) -> bool {
    exists|i: int| 0 <= i < v.len() && v[i]@ == s
}

pub fn contains_string(v: &Vec<String>, s: &str) -> (r: bool)
    ensures
        r == has_string(v@, s@),
{
    let mut i: usize = 0;
    while i < v.len()
        invariant
            i <= v.len(),
            forall|k: int| 0 <= k < i ==> v@[k]@ != s@,
        decreases v.len() - i,
    {
        if str_eq(v[i].as_str(), s) {
            return true;
        }
        i = i + 1;
    }
    false
}

impl SystemManifest {
    /// Validates that an enabled firewall is installable and bootable: the
    /// policy is well-formed, the init system is OpenRC, the nftables package
    /// is declared, and its service is in the default runlevel.
    pub fn validate_firewall(&self) -> (r: Result<(), FirewallValidationError>)
        ensures
            if self.firewall is Disabled {
                r is Ok
            } else if zero_port_protocol(self.firewall) is Some {
                r matches Err(FirewallValidationError::ZeroPort { protocol }) && protocol@
                    == zero_port_protocol(self.firewall).unwrap()
            } else if self.init_system != InitSystem::Openrc {
                r == Err::<(), FirewallValidationError>(
                    FirewallValidationError::UnsupportedInit(self.init_system),
                )
            } else if !has_package(self.packages@, nftables_package()) {
                r == Err::<(), FirewallValidationError>(FirewallValidationError::MissingPackage)
            } else if !has_string(self.services.openrc.default@, nftables_service()) {
                r == Err::<(), FirewallValidationError>(FirewallValidationError::MissingService)
            } else {
                r is Ok
            },
    {
        if !self.firewall.enabled() {
            return Ok(());
        }
        self.firewall.validate()?;
        if self.init_system != InitSystem::Openrc {
            return Err(FirewallValidationError::UnsupportedInit(self.init_system));
        }
        if !find_package(&self.packages, NFTABLES_PACKAGE) {
            return Err(FirewallValidationError::MissingPackage);
        }
        if !contains_string(&self.services.openrc.default, NFTABLES_SERVICE) {
            return Err(FirewallValidationError::MissingService);
        }
        Ok(())
    }
}

} // verus!
