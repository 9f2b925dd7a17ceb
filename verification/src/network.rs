//! The decisions of device discovery and diagnostics: which target is
//! probed, what a hello reply tells, and which devices a broadcast scan
//! has seen. The probes themselves send and receive on the network.
use vstd::prelude::*;
use crate::protocol::{be32_value, hello_error_message, hello_reply, parse_hello_response};
use crate::text::{trim_str, trimmed};
use crate::types::{BroadcastDeviceSeen, BroadcastScanResult, DiagnosticsRequest, MiioError, UdpHelloProbeResult};
use std::time::{SystemTime, UNIX_EPOCH};

verus! {

/// Gets the current Unix timestamp in whole seconds, 0 where the clock is
/// before the epoch (`SystemTime::now().duration_since(UNIX_EPOCH)`).
/// Trusted: nothing is claimed of the value, which is the machine's clock.
#[verifier::external_body]
pub fn current_unix_ts() -> u64 {
    match SystemTime::now().duration_since(UNIX_EPOCH) {
        Ok(elapsed) => elapsed.as_secs(),
        Err(_) => 0,
    }
}

/// The address that diagnostics probe: the request's IP without
/// surrounding whitespace. Fails with "missing ip" when nothing is left.
pub fn diagnostics_target(request: &DiagnosticsRequest) -> (r: Result<String, MiioError>)
    ensures
        r is Ok <==> trimmed(request.ip@).len() > 0,
        r matches Ok(ip) ==> ip@ == trimmed(request.ip@),
        r matches Err(e) ==> (e matches MiioError::Protocol(m) && m@ == "missing ip"@),
{
    let target_ip = trim_str(request.ip.as_str());
    if target_ip.is_empty() {
        return Err(MiioError::Protocol("missing ip".to_string()));
    }
    Ok(target_ip.to_string())
}

/// The device id of a hello reply as a big-endian number.
fn device_id_number(device_id: &[u8; 4]) -> (did: u32)
    ensures
        did == be32_value(device_id@),
{
    (device_id[0] as u32) * 0x100_0000 + (device_id[1] as u32) * 0x1_0000 + (device_id[2] as u32)
        * 0x100 + (device_id[3] as u32)
}

/// The result of a unicast hello probe that received `reply`: the device id
/// and stamp when it is a hello reply, else the parse error's text.
pub fn udp_hello_probe_result(reply: &[u8]) -> (r: UdpHelloProbeResult)
    ensures
        match hello_reply(reply@) {
            Some((device_id, stamp)) => {
                &&& r.ok
                &&& r.error is None
                &&& r.did == Some(be32_value(device_id))
                &&& r.stamp == Some(stamp)
            },
            None => {
                &&& !r.ok
                &&& r.error matches Some(m) && m@ == "protocol error: "@ + hello_error_message(reply@)
                &&& r.did is None
                &&& r.stamp is None
            },
        },
{
    match parse_hello_response(reply) {
        Ok(parsed) => UdpHelloProbeResult {
            ok: true,
            error: None,
            did: Some(device_id_number(&parsed.device_id)),
            stamp: Some(parsed.stamp),
        },
        Err(err) => UdpHelloProbeResult { ok: false, error: Some(err.message()), did: None, stamp: None },
    }
}

/// The key by which a broadcast scan tells devices apart: address and id.
pub open spec fn device_key(d: BroadcastDeviceSeen) -> (Seq<char>, u32) {
    (d.ip@, d.did)
}

/// Whether some listed device has this address and id.
pub open spec fn lists_device(devices: Seq<BroadcastDeviceSeen>, ip: Seq<char>, did: u32) -> bool {
    exists|i: int| 0 <= i < devices.len() && #[trigger] device_key(devices[i]) == (ip, did)
}

/// Whether no two listed devices share address and id.
pub open spec fn keys_distinct(devices: Seq<BroadcastDeviceSeen>) -> bool {
    forall|i: int, j: int|
        0 <= i < j < devices.len() ==> #[trigger] device_key(devices[i]) != #[trigger] device_key(
            devices[j],
        )
}

/// The state of a broadcast scan: the devices seen so far, in the order of
/// their first reply, and whether the target answered.
pub struct BroadcastScan {
    target_ip: String,
    devices_seen: Vec<BroadcastDeviceSeen>,
    target_seen: bool,
}

/// Whether a device with this address and id is listed.
fn seen_before(devices: &Vec<BroadcastDeviceSeen>, ip: &String, did: u32) -> (found: bool)
    ensures
        found == lists_device(devices@, ip@, did),
{
    let mut i: usize = 0;
    while i < devices.len()
        invariant
            i <= devices@.len(),
            forall|j: int| 0 <= j < i ==> #[trigger] device_key(devices@[j]) != (ip@, did),
        decreases devices@.len() - i,
    {
        if devices[i].did == did && devices[i].ip.eq(ip) {
            assert(device_key(devices@[i as int]) == (ip@, did));
            return true;
        }
        i = i + 1;
    }
    false
}

impl BroadcastScan {
    /// Each device is listed once.
    #[verifier::type_invariant]
    spec fn each_device_once(&self) -> bool {
        keys_distinct(self.devices_seen@)
    }

    /// IP address of the device being diagnosed.
    pub closed spec fn target_ip_text(&self) -> Seq<char> {
        self.target_ip@
    }

    /// Devices that answered, in the order of their first reply.
    pub closed spec fn devices(&self) -> Seq<BroadcastDeviceSeen> {
        self.devices_seen@
    }

    /// Whether a hello reply came from the target address.
    pub closed spec fn target_was_seen(&self) -> bool {
        self.target_seen
    }

    /// Whether a hello reply came from the target address.
    pub fn target_seen(&self) -> (seen: bool)
        ensures
            seen == self.target_was_seen(),
    {
        self.target_seen
    }

    /// A scan for `target_ip` that has seen nothing yet.
    pub fn new(target_ip: String) -> (scan: BroadcastScan)
        ensures
            scan.target_ip_text() == target_ip@,
            scan.devices().len() == 0,
            !scan.target_was_seen(),
    {
        BroadcastScan { target_ip, devices_seen: Vec::new(), target_seen: false }
    }

    /// A datagram `reply` arrived from `source_ip`. A hello reply lists its
    /// device unless that address and id are listed already, and marks the
    /// target seen when it comes from the target; anything else is ignored.
    /// No two listed devices ever share address and id.
    pub fn record_reply(&mut self, source_ip: &String, reply: &[u8])
        ensures
            keys_distinct(final(self).devices()),
            final(self).target_ip_text() == old(self).target_ip_text(),
            match hello_reply(reply@) {
                None => final(self).devices() == old(self).devices() && final(self).target_was_seen()
                    == old(self).target_was_seen(),
                Some((device_id, stamp)) => {
                    &&& final(self).target_was_seen() == (old(self).target_was_seen() || source_ip@
                        == old(self).target_ip_text())
                    &&& if lists_device(old(self).devices(), source_ip@, be32_value(device_id)) {
                        final(self).devices() == old(self).devices()
                    } else {
                        &&& final(self).devices().len() == old(self).devices().len() + 1
                        &&& final(self).devices().drop_last() == old(self).devices()
                        &&& final(self).devices().last().ip@ == source_ip@
                        &&& final(self).devices().last().did == be32_value(device_id)
                        &&& final(self).devices().last().stamp == stamp
                    }
                },
            },
    {
        proof {
            use_type_invariant(&*self);
        }
        let parsed = match parse_hello_response(reply) {
            Ok(parsed) => parsed,
            Err(_) => return ,
        };
        let did = device_id_number(&parsed.device_id);
        if !seen_before(&self.devices_seen, source_ip, did) {
            let mut devices: Vec<BroadcastDeviceSeen> = Vec::new();
            std::mem::swap(&mut devices, &mut self.devices_seen);
            let ghost before = devices@;
            devices.push(BroadcastDeviceSeen { ip: source_ip.clone(), did, stamp: parsed.stamp });
            assert(devices@.drop_last() =~= before);
            assert forall|i: int, j: int|
                0 <= i < j < devices@.len() implies #[trigger] device_key(devices@[i])
                != #[trigger] device_key(devices@[j]) by {
                if j == before.len() {
                    assert(device_key(before[i]) != (source_ip@, did));
                }
            }
            self.devices_seen = devices;
        }
        if source_ip.eq(&self.target_ip) {
            self.target_seen = true;
        }
    }

    /// Ends the scan: it succeeded when any device answered. Each device is
    /// listed once.
    pub fn finish(self) -> (r: BroadcastScanResult)
        ensures
            r.ok == (self.devices().len() > 0),
            r.error is Some <==> self.devices().len() == 0,
            r.error matches Some(m) ==> m@ == "no miIO hello replies observed on LAN broadcast during scan window"@,
            r.devices_seen@ == self.devices(),
            keys_distinct(r.devices_seen@),
            r.target_seen == self.target_was_seen(),
    {
        proof {
            use_type_invariant(&self);
        }
        let empty = self.devices_seen.len() == 0;
        BroadcastScanResult {
            ok: !empty,
            error: if empty {
                Some("no miIO hello replies observed on LAN broadcast during scan window".to_string())
            } else {
                None
            },
            devices_seen: self.devices_seen,
            target_seen: self.target_seen,
        }
    }
}

} // verus!
