//! Session state: the local network identity, the hosts the last scan
//! discovered, and the flood parameters — together with the validated
//! transition from a user's target choice to a flood plan.

use vstd::prelude::*;
use crate::codec::arp_frame;
use crate::codec::OP_REQUEST;
use crate::flood::FloodConfig;
use crate::flood::FloodStep;
use crate::flood::build_flood_plan;
use crate::flood::plan_shape;
use crate::net::Mac;
use crate::net::parse_mac;
use crate::net::spec_parse_mac;
use crate::scanner::DiscoveredHost;

verus! {

/// The local interface's identity, fixed for the process lifetime: its IPv4
/// address, subnet prefix length, and hardware address.
#[derive(Clone, Copy, PartialEq, Eq, Structural, Debug)]
pub struct NetworkIdentity {
    pub ip: u32,
    pub prefix: u8,
    pub mac: Mac,
}

/// Why a target choice was rejected and no flood worker may start.
#[derive(Clone, Copy, PartialEq, Eq, Structural, Debug)]
pub enum SelectError {
    /// No scan has stored any host yet.
    NoScanResults,
    /// The zero-based index is negative or not below the host count.
    IndexOutOfRange,
    /// The stored hardware-address text of the chosen host does not parse.
    BadHardwareText,
}

/// One interactive session: identity, last scan results, flood parameters.
pub struct Session {
    pub identity: NetworkIdentity,
    pub hosts: Vec<DiscoveredHost>,
    pub config: FloodConfig,
}

impl Session {
    pub fn new(identity: NetworkIdentity, config: FloodConfig) -> (s: Session)
        ensures
            s.identity == identity,
            s.config == config,
            s.hosts@.len() == 0,
    {
        Session { identity, hosts: Vec::new(), config }
    }

    /// Replace the stored scan results with a fresh scan's output. The flood
    /// parameters and the identity are untouched.
    pub fn store_scan(&mut self, hosts: Vec<DiscoveredHost>)
        ensures
            final(self).hosts@ == hosts@,
            final(self).config == old(self).config,
            final(self).identity == old(self).identity,
    {
        self.hosts = hosts;
    }

    /// Set how many packets one flood sends. Nothing else changes.
    pub fn set_packets_per_target(&mut self, n: usize)
        ensures
            final(self).config.packets_per_target == n,
            final(self).config.delay_ms == old(self).config.delay_ms,
            final(self).hosts@ == old(self).hosts@,
            final(self).identity == old(self).identity,
    {
        self.config.packets_per_target = n;
    }

    /// Set the pause between two consecutive flood sends. Nothing else
    /// changes.
    pub fn set_delay_ms(&mut self, d: u64)
        ensures
            final(self).config.delay_ms == d,
            final(self).config.packets_per_target == old(self).config.packets_per_target,
            final(self).hosts@ == old(self).hosts@,
            final(self).identity == old(self).identity,
    {
        self.config.delay_ms = d;
    }

    pub fn host_count(&self) -> (n: usize)
        ensures
            n == self.hosts@.len(),
    {
        self.hosts.len()
    }

    /// Validate a zero-based target choice and build the flood plan for it.
    /// A choice is accepted exactly when at least one host is stored, the
    /// index is in range, and the chosen host's hardware-address text
    /// parses; each rejection names its reason, no plan is produced, and —
    /// the session being taken by shared reference — neither the flood
    /// parameters nor anything else of the session can change.
    pub fn request_flood(&self, index: i32) -> (r: Result<Vec<FloodStep>, SelectError>)
        ensures
            r is Ok <==> 0 <= index < self.hosts@.len() && spec_parse_mac(
                self.hosts@[index as int].mac_text@,
            ) is Some,
            self.hosts@.len() == 0 ==> r == Result::<Vec<FloodStep>, SelectError>::Err(
                SelectError::NoScanResults,
            ),
            self.hosts@.len() > 0 && !(0 <= index < self.hosts@.len()) ==> r == Result::<
                Vec<FloodStep>,
                SelectError,
            >::Err(SelectError::IndexOutOfRange),
            0 <= index < self.hosts@.len() && spec_parse_mac(self.hosts@[index as int].mac_text@)
                is None ==> r == Result::<Vec<FloodStep>, SelectError>::Err(
                SelectError::BadHardwareText,
            ),
            r matches Ok(steps) ==> plan_shape(steps@, self.config.packets_per_target as int,
                arp_frame(OP_REQUEST, spec_parse_mac(
                    self.hosts@[index as int].mac_text@,
                )->Some_0, self.identity.mac, self.identity.mac, self.identity.ip, spec_parse_mac(
                    self.hosts@[index as int].mac_text@,
                )->Some_0, self.hosts@[index as int].ip), self.config.delay_ms),
    {
        if self.hosts.len() == 0 {
            return Err(SelectError::NoScanResults);
        }
        if index < 0 {
            return Err(SelectError::IndexOutOfRange);
        }
        let idx = index as usize;
        if idx >= self.hosts.len() {
            return Err(SelectError::IndexOutOfRange);
        }
        let target = &self.hosts[idx];
        let target_mac = match parse_mac(target.mac_text.as_str()) {
            Some(m) => m,
            None => {
                return Err(SelectError::BadHardwareText);
            },
        };
        Ok(build_flood_plan(&self.config, &self.identity.mac, self.identity.ip, &target_mac,
            target.ip))
    }
}

} // verus!
