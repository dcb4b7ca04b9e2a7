//! The authorization service: lifecycle state around one membership
//! registry, plus the deterministic overlay-address derivation.
//!
//! The service is an explicit state handle.  Initialize installs a freshly
//! validated registry together with the engine's own authority address;
//! reload swaps only the registry; queries decide authorization and fail
//! closed on every ambiguous condition.  Reading and decoding the
//! configuration file happens outside the engine: the lifecycle operations
//! take the decoded document (or its absence) as an argument, so every
//! decision made here is checked for every possible outcome of that read.

use crate::config::Config;
use crate::config::ControllerConfig;
use crate::config::config_valid;
use crate::config::registry_map;
use crate::config::spec_manages;
use vstd::prelude::*;

verus! {

/// Result of an authorization query: not authorized, or authorized together
/// with the derived 128-bit overlay address.
pub struct AuthResult {
    pub authorized: bool,
    pub ipv6_bytes: [u8; 16],
}

/// The overlay address layout: marker byte `0xFD`, the eight identifier
/// bytes most-significant first, marker bytes `0x99 0x93`, then the low
/// five bytes of the member address most-significant first.
pub open spec fn overlay_address(network_id: u64, node_id: u64) -> Seq<u8> {
    seq![
        0xFDu8,
        ((network_id >> 56) & 0xFF) as u8,
        ((network_id >> 48) & 0xFF) as u8,
        ((network_id >> 40) & 0xFF) as u8,
        ((network_id >> 32) & 0xFF) as u8,
        ((network_id >> 24) & 0xFF) as u8,
        ((network_id >> 16) & 0xFF) as u8,
        ((network_id >> 8) & 0xFF) as u8,
        (network_id & 0xFF) as u8,
        0x99u8,
        0x93u8,
        ((node_id >> 32) & 0xFF) as u8,
        ((node_id >> 24) & 0xFF) as u8,
        ((node_id >> 16) & 0xFF) as u8,
        ((node_id >> 8) & 0xFF) as u8,
        (node_id & 0xFF) as u8,
    ]
}

/// The all-zero placeholder returned with every "not authorized" answer.
pub open spec fn zero_address() -> Seq<u8> {
    Seq::new(16, |i: int| 0u8)
}

/// Computes the deterministic overlay address for a member on a network.
/// Pure: the result is a function of the two arguments alone.
pub fn compute_mesh_ip(network_id: u64, node_id: u64) -> (r: [u8; 16])
    ensures
        r@ == overlay_address(network_id, node_id),
{
    let bytes: [u8; 16] = [
        0xFD,
        ((network_id >> 56) & 0xFF) as u8,
        ((network_id >> 48) & 0xFF) as u8,
        ((network_id >> 40) & 0xFF) as u8,
        ((network_id >> 32) & 0xFF) as u8,
        ((network_id >> 24) & 0xFF) as u8,
        ((network_id >> 16) & 0xFF) as u8,
        ((network_id >> 8) & 0xFF) as u8,
        (network_id & 0xFF) as u8,
        0x99,
        0x93,
        ((node_id >> 32) & 0xFF) as u8,
        ((node_id >> 24) & 0xFF) as u8,
        ((node_id >> 16) & 0xFF) as u8,
        ((node_id >> 8) & 0xFF) as u8,
        (node_id & 0xFF) as u8,
    ];
    proof {
        assert(bytes@ =~= overlay_address(network_id, node_id));
    }
    bytes
}

/// Any two results of the overlay derivation for the same identifier and
/// member address are identical, byte for byte.
pub proof fn lemma_overlay_deterministic(a1: Seq<u8>, a2: Seq<u8>, network_id: u64, node_id: u64)
    requires
        a1 == overlay_address(network_id, node_id),
        a2 == overlay_address(network_id, node_id),
    ensures
        a1 == a2,
{
}

/// An initialized engine: the registry, the engine's own authority address,
/// and the home location its configuration was loaded from.
struct Controller {
    config: ControllerConfig,
    controller_addr: u64,
    home_path: String,
}

/// Abstract image of the service state.
pub enum AuthorityView {
    Uninitialized,
    Initialized { registry: Map<u64, Set<u64>>, authority: u64, home: Seq<char> },
}

/// The authority address of a state; an uninitialized engine has none, and
/// zero stands in for it where a value is forced.
pub open spec fn authority_of(v: AuthorityView) -> u64 {
    match v {
        AuthorityView::Uninitialized => 0,
        AuthorityView::Initialized { authority, .. } => authority,
    }
}

/// The home location of a state.
pub open spec fn home_of(v: AuthorityView) -> Seq<char> {
    match v {
        AuthorityView::Uninitialized => Seq::empty(),
        AuthorityView::Initialized { home, .. } => home,
    }
}

/// Whether a query must answer "authorized": only an initialized engine
/// whose authority address is embedded in the identifier, for a network it
/// has configured, with the member in that network's set.
pub open spec fn spec_query_authorized(v: AuthorityView, nwid: u64, member_addr: u64) -> bool {
    match v {
        AuthorityView::Uninitialized => false,
        AuthorityView::Initialized { registry, authority, .. } => spec_manages(
            registry,
            nwid,
            authority,
        ) && registry[nwid].contains(member_addr),
    }
}

/// The authorization service: one engine state, replaced only as a whole by
/// initialize or, registry alone, by reload.  Every operation fails closed.
pub struct AuthorityState {
    state: Option<Controller>,
}

impl View for AuthorityState {
    type V = AuthorityView;

    closed spec fn view(&self) -> AuthorityView {
        match self.state {
            None => AuthorityView::Uninitialized,
            Some(c) => AuthorityView::Initialized {
                registry: c.config@,
                authority: c.controller_addr,
                home: c.home_path@,
            },
        }
    }
}

impl AuthorityState {
    /// A fresh engine; every query fails closed until initialize succeeds.
    pub fn new() -> (s: AuthorityState)
        ensures
            s@ == AuthorityView::Uninitialized,
    {
        AuthorityState { state: None }
    }

    /// Installs a freshly built state from a decoded configuration document;
    /// `document` is absent when the file could not be read or decoded.  On
    /// any failure the previous state is kept in full: no partial state is
    /// ever installed.
    pub fn initialize(
        &mut self,
        controller_addr: u64,
        home_path: String,
        document: Option<Config>,
    ) -> (r: bool)
        ensures
            r <==> (document is Some && config_valid(document.unwrap().networks@)),
            !r ==> *final(self) == *old(self),
            r ==> final(self)@ == (AuthorityView::Initialized {
                registry: registry_map(document.unwrap().networks@),
                authority: controller_addr,
                home: home_path@,
            }),
    {
        match document {
            None => false,
            Some(config) => match ControllerConfig::from_config(&config) {
                Err(_) => false,
                Ok(built) => {
                    self.state = Some(
                        Controller { config: built, controller_addr, home_path },
                    );
                    true
                },
            },
        }
    }

    /// Swaps in a registry rebuilt from a freshly decoded document, keeping
    /// the authority address and home location.  Fails, keeping the previous
    /// state in full, when the engine is uninitialized, the document is
    /// absent, or validation rejects it; a failed reload changes no
    /// authorization decision.
    pub fn reload(&mut self, document: Option<Config>) -> (r: bool)
        ensures
            r <==> (old(self)@ is Initialized && document is Some && config_valid(
                document.unwrap().networks@,
            )),
            !r ==> *final(self) == *old(self),
            !r ==> forall|n: u64, a: u64|
                spec_query_authorized(final(self)@, n, a) == spec_query_authorized(
                    old(self)@,
                    n,
                    a,
                ),
            r ==> final(self)@ == (AuthorityView::Initialized {
                registry: registry_map(document.unwrap().networks@),
                authority: authority_of(old(self)@),
                home: home_of(old(self)@),
            }),
    {
        let (controller_addr, home_path) = match &self.state {
            None => {
                return false;
            },
            Some(c) => (c.controller_addr, c.home_path.clone()),
        };
        match document {
            None => false,
            Some(config) => match ControllerConfig::from_config(&config) {
                Err(_) => false,
                Ok(built) => {
                    self.state = Some(
                        Controller { config: built, controller_addr, home_path },
                    );
                    true
                },
            },
        }
    }

    /// Decides one join request.  Not authorized whenever the engine is
    /// uninitialized, the engine's authority does not manage the network, or
    /// the member is not in the network's set; otherwise authorized with the
    /// derived overlay address.  The placeholder address is all zeros.
    pub fn query(&self, nwid: u64, member_addr: u64) -> (r: AuthResult)
        ensures
            r.authorized == spec_query_authorized(self@, nwid, member_addr),
            r.authorized ==> r.ipv6_bytes@ == overlay_address(nwid, member_addr),
            !r.authorized ==> r.ipv6_bytes@ == zero_address(),
            self@ is Uninitialized ==> !r.authorized,
    {
        match &self.state {
            None => AuthResult { authorized: false, ipv6_bytes: zero_bytes() },
            Some(c) => {
                if !c.config.manages_network(nwid, c.controller_addr) {
                    AuthResult { authorized: false, ipv6_bytes: zero_bytes() }
                } else if !c.config.is_authorized(nwid, member_addr) {
                    AuthResult { authorized: false, ipv6_bytes: zero_bytes() }
                } else {
                    AuthResult {
                        authorized: true,
                        ipv6_bytes: compute_mesh_ip(nwid, member_addr),
                    }
                }
            },
        }
    }

    /// The configured authority address; absent before a successful
    /// initialize.
    pub fn introspect(&self) -> (r: Option<u64>)
        ensures
            self@ is Initialized ==> r == Some(authority_of(self@)),
            self@ is Uninitialized ==> r is None,
    {
        match &self.state {
            None => None,
            Some(c) => Some(c.controller_addr),
        }
    }

    /// The home location configuration was loaded from; absent before a
    /// successful initialize.  Reload re-reads from this location.
    pub fn config_home(&self) -> (r: Option<&String>)
        ensures
            self@ is Initialized ==> (r matches Some(h) && h@ == home_of(self@)),
            self@ is Uninitialized ==> r is None,
    {
        match &self.state {
            None => None,
            Some(c) => Some(&c.home_path),
        }
    }
}

/// The all-zero 16-byte address.
fn zero_bytes() -> (r: [u8; 16])
    ensures
        r@ == zero_address(),
{
    let bytes: [u8; 16] = [0; 16];
    proof {
        assert(bytes@ =~= zero_address());
    }
    bytes
}

} // verus!
