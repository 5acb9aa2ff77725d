//! The executable gateway simulator, proved against the model in `gateway`.

use vstd::prelude::*;
use vstd::string::*;

use crate::gateway::{
    count_online, device_index, fingerprint, fnv1a, has_mac, lemma_device_index_bounds, opt_snmp, opt_text, snmp_error_view,
    without_mac, DeviceIdentity, DeviceView, Effect, GatewayCommand, GatewayResponse, GatewaySnapshot,
    GatewayState, NodeInfo, NodeView, OidEntry, ProvisioningState, SnmpResponse, WifiMode, CMD_SNMP_SET, HEAP_FLOOR_BYTES,
    HEAP_PER_COMMAND, HEAP_TOTAL_BYTES, MAX_LOG, NODE_FREE_HEAP_BYTES, SIM_SNMP_PROTOCOL,
};
use crate::text::{eq_ignore_ascii_case, push_bool, push_dec, push_hex_fixed, same_ignoring_case, str_equal, str_lt};

verus! {

/// Hardware-free model of the ESP32 gateway.
#[derive(Debug)]
pub struct GatewaySim {
    downstream_online: bool,
    free_heap_bytes: u32,
    command_count: u32,
    /// The MIB, kept in strictly increasing OID order as an ordered map
    /// iterates it. It stands for a `BTreeMap<String, String>`: with `String`
    /// keys Verus proves nothing of such a map's lookup, insert or order, so
    /// the order, the replacement of an existing key and the lookup are
    /// proved here on an association list instead.
    oids: Vec<OidEntry>,
    nodes: Vec<NodeInfo>,
    devices: Vec<DeviceIdentity>,
    credential_counter: u32,
    log: Vec<String>,
}

impl View for GatewaySim {
    type V = GatewayState;

    closed spec fn view(&self) -> GatewayState {
        GatewayState {
            downstream_online: self.downstream_online,
            free_heap_bytes: self.free_heap_bytes,
            command_count: self.command_count,
            oids: self.oids@.map_values(|e: OidEntry| e@),
            nodes: self.nodes@.map_values(|n: NodeInfo| n@),
            devices: self.devices@.map_values(|d: DeviceIdentity| d@),
            credential_counter: self.credential_counter,
            log: self.log@.map_values(|l: String| l@),
        }
    }
}

/// Invariant of the gateway: no device has seen more credential issuances
/// than the gateway has issued.
pub open spec fn state_wf(s: GatewayState) -> bool {
    forall|i: int| 0 <= i < s.devices.len() ==> (#[trigger] s.devices[i]).credential_version <= s.credential_counter
}

/// Whether applying `cmd` to `s` keeps the command counter and, when a
/// credential is issued, the credential counter within range.
pub open spec fn can_apply(s: GatewayState, cmd: GatewayCommand) -> bool {
    &&& s.command_count < u32::MAX
    &&& s.issues_credential(cmd) ==> s.credential_counter < u32::MAX
}

/// How one command arm's result matches the model's effect.
pub open spec fn effect_matches(e: Effect, ok: bool, message: String, snmp: Option<SnmpResponse>) -> bool {
    &&& ok == e.ok
    &&& message@ == e.message
    &&& opt_snmp(snmp) == e.snmp
}

pub(crate) fn copy_string(s: &String) -> (r: String)
    ensures
        r@ == s@,
{
    s.clone()
}

fn copy_node(n: &NodeInfo) -> (r: NodeInfo)
    ensures
        r@ == n@,
{
    NodeInfo { mac: copy_string(&n.mac), ip: copy_string(&n.ip), free_heap_bytes: n.free_heap_bytes, online: n.online }
}

fn copy_device(d: &DeviceIdentity) -> (r: DeviceIdentity)
    ensures
        r@ == d@,
{
    DeviceIdentity {
        device_id: copy_string(&d.device_id),
        mac: copy_string(&d.mac),
        state: d.state,
        credential_fingerprint: copy_string(&d.credential_fingerprint),
        credential_version: d.credential_version,
    }
}

fn copy_nodes(v: &Vec<NodeInfo>) -> (r: Vec<NodeInfo>)
    ensures
        r@.map_values(|n: NodeInfo| n@) == v@.map_values(|n: NodeInfo| n@),
{
    let mut r: Vec<NodeInfo> = Vec::new();
    let mut i: usize = 0;
    while i < v.len()
        invariant
            i <= v@.len(),
            r@.len() == i,
            forall|k: int| 0 <= k < i ==> (#[trigger] r@[k])@ == v@[k]@,
        decreases v@.len() - i,
    {
        r.push(copy_node(&v[i]));
        i += 1;
    }
    proof {
        assert(r@.map_values(|n: NodeInfo| n@) =~= v@.map_values(|n: NodeInfo| n@));
    }
    r
}

fn copy_devices(v: &Vec<DeviceIdentity>) -> (r: Vec<DeviceIdentity>)
    ensures
        r@.map_values(|d: DeviceIdentity| d@) == v@.map_values(|d: DeviceIdentity| d@),
{
    let mut r: Vec<DeviceIdentity> = Vec::new();
    let mut i: usize = 0;
    while i < v.len()
        invariant
            i <= v@.len(),
            r@.len() == i,
            forall|k: int| 0 <= k < i ==> (#[trigger] r@[k])@ == v@[k]@,
        decreases v@.len() - i,
    {
        r.push(copy_device(&v[i]));
        i += 1;
    }
    proof {
        assert(r@.map_values(|d: DeviceIdentity| d@) =~= v@.map_values(|d: DeviceIdentity| d@));
    }
    r
}

fn copy_entries(v: &Vec<OidEntry>) -> (r: Vec<OidEntry>)
    ensures
        r@.map_values(|e: OidEntry| e@) == v@.map_values(|e: OidEntry| e@),
{
    let mut r: Vec<OidEntry> = Vec::new();
    let mut i: usize = 0;
    while i < v.len()
        invariant
            i <= v@.len(),
            r@.len() == i,
            forall|k: int| 0 <= k < i ==> (#[trigger] r@[k])@ == v@[k]@,
        decreases v@.len() - i,
    {
        r.push(OidEntry { oid: copy_string(&v[i].oid), value: copy_string(&v[i].value) });
        i += 1;
    }
    proof {
        assert(r@.map_values(|e: OidEntry| e@) =~= v@.map_values(|e: OidEntry| e@));
    }
    r
}

fn copy_lines(v: &Vec<String>) -> (r: Vec<String>)
    ensures
        r@.map_values(|l: String| l@) == v@.map_values(|l: String| l@),
{
    let mut r: Vec<String> = Vec::new();
    let mut i: usize = 0;
    while i < v.len()
        invariant
            i <= v@.len(),
            r@.len() == i,
            forall|k: int| 0 <= k < i ==> (#[trigger] r@[k])@ == v@[k]@,
        decreases v@.len() - i,
    {
        r.push(copy_string(&v[i]));
        i += 1;
    }
    proof {
        assert(r@.map_values(|l: String| l@) =~= v@.map_values(|l: String| l@));
    }
    r
}

proof fn lemma_count_online_push(nodes: Seq<NodeView>, n: NodeView)
    ensures
        count_online(nodes.push(n)) == count_online(nodes) + if n.online { 1nat } else { 0nat },
{
    assert(nodes.push(n).drop_last() =~= nodes);
}

proof fn lemma_without_mac_push(nodes: Seq<NodeView>, n: NodeView, mac: Seq<char>)
    ensures
        without_mac(nodes.push(n), mac) == if same_ignoring_case(n.mac, mac) {
            without_mac(nodes, mac)
        } else {
            without_mac(nodes, mac).push(n)
        },
{
    assert(nodes.push(n).drop_last() =~= nodes);
}

pub(crate) proof fn lemma_device_index_prefix(devices: Seq<DeviceView>, id: Seq<char>, j: int)
    requires
        0 <= j <= devices.len(),
        device_index(devices.subrange(0, j), id) >= 0,
    ensures
        device_index(devices, id) == device_index(devices.subrange(0, j), id),
    decreases devices.len() - j,
{
    if j < devices.len() {
        assert(devices.subrange(0, j + 1).drop_last() =~= devices.subrange(0, j));
        lemma_device_index_prefix(devices, id, j + 1);
    } else {
        assert(devices.subrange(0, j) =~= devices);
    }
}

pub(crate) proof fn lemma_device_index_update(devices: Seq<DeviceView>, id: Seq<char>, i: int, d: DeviceView)
    requires
        0 <= i < devices.len(),
        d.device_id == devices[i].device_id,
    ensures
        device_index(devices.update(i, d), id) == device_index(devices, id),
    decreases devices.len(),
{
    if i < devices.len() - 1 {
        lemma_device_index_update(devices.drop_last(), id, i, d);
        assert(devices.update(i, d).drop_last() =~= devices.drop_last().update(i, d));
    } else {
        assert(devices.update(i, d).drop_last() =~= devices.drop_last());
    }
}

/// The credential fingerprint of `device_id` at issuance `c`: FNV-1a over
/// the UTF-8 id and the little-endian counter, as `cred-` and 16 hex digits.
pub(crate) fn credential_fingerprint(device_id: &String, c: u32) -> (fp: String)
    ensures
        fp@ == fingerprint(device_id@, c),
{
    let bytes = device_id.as_str().as_bytes();
    let ghost input = encode_utf8_of(device_id@) + crate::gateway::u32_le(c);
    let mut hash: u64 = 0xcbf2_9ce4_8422_2325;
    let mut i: usize = 0;
    proof {
        assert(bytes@ == encode_utf8_of(device_id@));
        assert(input.subrange(0, 0) =~= Seq::<u8>::empty());
    }
    while i < bytes.len()
        invariant
            i <= bytes@.len(),
            input == bytes@ + crate::gateway::u32_le(c),
            hash == fnv1a(input.subrange(0, i as int)),
        decreases bytes@.len() - i,
    {
        proof {
            assert(input.subrange(0, i + 1).drop_last() =~= input.subrange(0, i as int));
        }
        hash = hash ^ (bytes[i] as u64);
        hash = hash.wrapping_mul(0x0100_0000_01b3);
        i += 1;
    }
    let le: [u8; 4] = [(c % 256) as u8, ((c / 256) % 256) as u8, ((c / 65536) % 256) as u8, (c / 16777216) as u8];
    let mut k: usize = 0;
    while k < 4
        invariant
            k <= 4,
            input == bytes@ + crate::gateway::u32_le(c),
            le@ == crate::gateway::u32_le(c),
            hash == fnv1a(input.subrange(0, (bytes@.len() + k) as int)),
        decreases 4 - k,
    {
        proof {
            assert(input.subrange(0, (bytes@.len() + k + 1) as int).drop_last() =~= input.subrange(0, (bytes@.len() + k) as int));
            assert(input[bytes@.len() + k] == le@[k as int]);
        }
        hash = hash ^ (le[k] as u64);
        hash = hash.wrapping_mul(0x0100_0000_01b3);
        k += 1;
    }
    proof {
        assert(input.subrange(0, (bytes@.len() + 4) as int) =~= input);
    }
    let mut fp = String::from_str("cred-");
    push_hex_fixed(&mut fp, hash as u128, 16);
    fp
}

/// Stores `value` under `oid` in a MIB kept in increasing key order.
pub(crate) fn mib_insert(oids: &mut Vec<OidEntry>, oid: &String, value: &String)
    ensures
        final(oids)@.map_values(|e: OidEntry| e@) == crate::gateway::oid_insert(
            old(oids)@.map_values(|e: OidEntry| e@),
            oid@,
            value@,
        ),
{
    let ghost es = old(oids)@.map_values(|e: OidEntry| e@);
    let ghost target = crate::gateway::oid_insert(es, oid@, value@);
    let mut i: usize = 0;
    proof {
        assert(es.subrange(0, 0) + es.subrange(0, es.len() as int) =~= es);
        assert(es.subrange(0, es.len() as int) =~= es);
    }
    while i < oids.len()
        invariant
            i <= oids@.len(),
            oids@ == old(oids)@,
            es == oids@.map_values(|e: OidEntry| e@),
            target == crate::gateway::oid_insert(es, oid@, value@),
            target == es.subrange(0, i as int) + crate::gateway::oid_insert(es.subrange(i as int, es.len() as int), oid@, value@),
        decreases oids@.len() - i,
    {
        let ghost tail = es.subrange(i as int, es.len() as int);
        proof {
            assert(tail[0] == es[i as int]);
            assert(tail.drop_first() =~= es.subrange(i + 1, es.len() as int));
        }
        if str_equal(oids[i].oid.as_str(), oid.as_str()) {
            let e = OidEntry { oid: copy_string(oid), value: copy_string(value) };
            oids.set(i, e);
            proof {
                assert(oids@.map_values(|e: OidEntry| e@) =~= target);
            }
            return;
        }
        if str_lt(oid.as_str(), oids[i].oid.as_str()) {
            let e = OidEntry { oid: copy_string(oid), value: copy_string(value) };
            oids.insert(i, e);
            proof {
                assert(oids@.map_values(|e: OidEntry| e@) =~= target);
            }
            return;
        }
        proof {
            assert(es.subrange(0, i as int) + (seq![es[i as int]] + crate::gateway::oid_insert(es.subrange(i + 1, es.len() as int), oid@, value@))
                =~= es.subrange(0, i + 1) + crate::gateway::oid_insert(es.subrange(i + 1, es.len() as int), oid@, value@));
        }
        i += 1;
    }
    let e = OidEntry { oid: copy_string(oid), value: copy_string(value) };
    oids.push(e);
    proof {
        assert(es.subrange(i as int, es.len() as int) =~= Seq::<(Seq<char>, Seq<char>)>::empty());
        assert(es.subrange(0, i as int) =~= es);
        assert(oids@.map_values(|e: OidEntry| e@) =~= target);
    }
}

/// The value stored under `oid`, if any.
pub(crate) fn mib_lookup(oids: &Vec<OidEntry>, oid: &String) -> (r: Option<String>)
    ensures
        opt_text(r) == crate::gateway::oid_lookup(oids@.map_values(|e: OidEntry| e@), oid@),
{
    let ghost es = oids@.map_values(|e: OidEntry| e@);
    let mut i: usize = 0;
    proof {
        assert(es.subrange(0, es.len() as int) =~= es);
    }
    while i < oids.len()
        invariant
            i <= oids@.len(),
            es == oids@.map_values(|e: OidEntry| e@),
            crate::gateway::oid_lookup(es, oid@) == crate::gateway::oid_lookup(es.subrange(i as int, es.len() as int), oid@),
        decreases oids@.len() - i,
    {
        let ghost tail = es.subrange(i as int, es.len() as int);
        proof {
            assert(tail[0] == es[i as int]);
            assert(tail.drop_first() =~= es.subrange(i + 1, es.len() as int));
        }
        if str_equal(oids[i].oid.as_str(), oid.as_str()) {
            return Some(copy_string(&oids[i].value));
        }
        i += 1;
    }
    None
}

impl Default for GatewaySim {
    /// Same as [`GatewaySim::new`].
    fn default() -> (g: Self)
        ensures
            g@ == GatewayState::initial(),
            state_wf(g@),
    {
        GatewaySim::new()
    }
}

impl GatewaySim {
    /// A fresh gateway: downstream up, default MIB, one station.
    pub fn new() -> (g: Self)
        ensures
            g@ == GatewayState::initial(),
            state_wf(g@),
    {
        let mut oids: Vec<OidEntry> = Vec::new();
        oids.push(OidEntry { oid: String::from_str("1.3.6.1.4.1.custom.isolate"), value: String::from_str("false") });
        oids.push(OidEntry { oid: String::from_str("1.3.6.1.4.1.custom.relay"), value: String::from_str("off") });
        let mut nodes: Vec<NodeInfo> = Vec::new();
        nodes.push(NodeInfo {
            mac: String::from_str("24:6F:28:00:00:01"),
            ip: String::from_str("192.168.4.2"),
            free_heap_bytes: NODE_FREE_HEAP_BYTES,
            online: true,
        });
        let g = GatewaySim {
            downstream_online: true,
            free_heap_bytes: HEAP_TOTAL_BYTES - HEAP_PER_COMMAND,
            command_count: 0,
            oids,
            nodes,
            devices: Vec::new(),
            credential_counter: 0,
            log: Vec::new(),
        };
        proof {
            assert(g@.oids =~= GatewayState::initial().oids);
            assert(g@.nodes =~= GatewayState::initial().nodes);
            assert(g@.devices =~= GatewayState::initial().devices);
            assert(g@.log =~= GatewayState::initial().log);
        }
        g
    }

    /// `ApSta` while downstream is up, `Sta` once it is severed.
    pub fn wifi_mode(&self) -> (m: WifiMode)
        ensures
            m == self@.wifi_mode(),
    {
        if self.downstream_online {
            WifiMode::ApSta
        } else {
            WifiMode::Sta
        }
    }

    /// Number of connected downstream stations.
    fn online_station_count(&self) -> (r: u32)
        ensures
            r == self@.online_station_count(),
    {
        if !self.downstream_online {
            return 0;
        }
        let mut count: usize = 0;
        let mut i: usize = 0;
        while i < self.nodes.len()
            invariant
                i <= self.nodes@.len(),
                count == count_online(self.nodes@.subrange(0, i as int).map_values(|n: NodeInfo| n@)),
                count <= i,
            decreases self.nodes@.len() - i,
        {
            proof {
                let pre = self.nodes@.subrange(0, i as int).map_values(|n: NodeInfo| n@);
                assert(self.nodes@.subrange(0, i + 1).map_values(|n: NodeInfo| n@) =~= pre.push(self.nodes@[i as int]@));
                lemma_count_online_push(pre, self.nodes@[i as int]@);
            }
            if self.nodes[i].online {
                count += 1;
            }
            i += 1;
        }
        proof {
            assert(self.nodes@.subrange(0, self.nodes@.len() as int) =~= self.nodes@);
        }
        count as u32
    }

    /// Point-in-time view of the gateway.
    pub fn snapshot(&self) -> (s: GatewaySnapshot)
        ensures
            s@ == self@.snapshot(),
    {
        GatewaySnapshot {
            wifi_mode: self.wifi_mode(),
            downstream_online: self.downstream_online,
            free_heap_bytes: self.free_heap_bytes,
            heap_total_bytes: HEAP_TOTAL_BYTES,
            station_count: self.online_station_count(),
            command_count: self.command_count,
            oids: copy_entries(&self.oids),
            nodes: copy_nodes(&self.nodes),
            devices: copy_devices(&self.devices),
            command_log: copy_lines(&self.log),
        }
    }

    fn record(&mut self, line: String)
        requires
            old(self)@.command_count < u32::MAX,
        ensures
            final(self)@ == old(self)@.record(line@),
    {
        self.command_count = self.command_count + 1;
        let heap = self.free_heap_bytes.saturating_sub(HEAP_PER_COMMAND);
        self.free_heap_bytes = if heap >= HEAP_FLOOR_BYTES { heap } else { HEAP_FLOOR_BYTES };
        self.log.insert(0, line);
        if self.log.len() > MAX_LOG {
            self.log.truncate(MAX_LOG);
        }
        proof {
            let s = old(self)@.record(line@);
            let lv = self.log@.map_values(|l: String| l@);
            let expected = seq![line@] + old(self)@.log;
            if old(self).log@.len() + 1 > MAX_LOG {
                assert(lv =~= expected.take(MAX_LOG as int));
            } else {
                assert(lv =~= expected);
            }
            assert(self@.log =~= s.log);
        }
    }

    /// Issues a fresh deterministic credential fingerprint for `device_id`.
    fn issue_credential(&mut self, device_id: &String) -> (fp: String)
        requires
            old(self).credential_counter < u32::MAX,
        ensures
            final(self)@ == (GatewayState { credential_counter: (old(self)@.credential_counter + 1) as u32, ..old(self)@ }),
            fp@ == fingerprint(device_id@, final(self)@.credential_counter),
    {
        self.credential_counter = self.credential_counter + 1;
        credential_fingerprint(device_id, self.credential_counter)
    }

    fn device_index(&self, device_id: &String) -> (r: Option<usize>)
        ensures
            match r {
                Some(i) => i as int == device_index(self@.devices, device_id@),
                None => device_index(self@.devices, device_id@) < 0,
            },
    {
        let ghost ds = self@.devices;
        let mut i: usize = 0;
        while i < self.devices.len()
            invariant
                i <= self.devices@.len(),
                ds == self.devices@.map_values(|d: DeviceIdentity| d@),
                device_index(ds.subrange(0, i as int), device_id@) < 0,
            decreases self.devices@.len() - i,
        {
            proof {
                assert(ds.subrange(0, i + 1).drop_last() =~= ds.subrange(0, i as int));
            }
            if str_equal(self.devices[i].device_id.as_str(), device_id.as_str()) {
                proof {
                    lemma_device_index_prefix(ds, device_id@, i + 1);
                }
                return Some(i);
            }
            i += 1;
        }
        proof {
            assert(ds.subrange(0, i as int) =~= ds);
        }
        None
    }

    fn has_mac(&self, mac: &String) -> (r: bool)
        ensures
            r == has_mac(self@.nodes, mac@),
    {
        let mut i: usize = 0;
        while i < self.nodes.len()
            invariant
                i <= self.nodes@.len(),
                forall|k: int| 0 <= k < i ==> !same_ignoring_case(#[trigger] self.nodes@[k].mac@, mac@),
            decreases self.nodes@.len() - i,
        {
            if eq_ignore_ascii_case(self.nodes[i].mac.as_str(), mac.as_str()) {
                proof {
                    assert(self@.nodes[i as int].mac == self.nodes@[i as int].mac@);
                }
                return true;
            }
            i += 1;
        }
        proof {
            assert forall|k: int| 0 <= k < self@.nodes.len() implies !same_ignoring_case(#[trigger] self@.nodes[k].mac, mac@) by {
                assert(self@.nodes[k].mac == self.nodes@[k].mac@);
            }
        }
        false
    }

    /// Drops the stations whose MAC equals `mac` ignoring ASCII case.
    fn remove_mac(&mut self, mac: &String)
        ensures
            final(self)@ == (GatewayState { nodes: without_mac(old(self)@.nodes, mac@), ..old(self)@ }),
    {
        let ghost ns = old(self)@.nodes;
        let mut kept: Vec<NodeInfo> = Vec::new();
        let mut i: usize = 0;
        while i < self.nodes.len()
            invariant
                i <= self.nodes@.len(),
                self@ == old(self)@,
                ns == self.nodes@.map_values(|n: NodeInfo| n@),
                kept@.map_values(|n: NodeInfo| n@) == without_mac(ns.subrange(0, i as int), mac@),
            decreases self.nodes@.len() - i,
        {
            proof {
                assert(ns.subrange(0, i + 1) =~= ns.subrange(0, i as int).push(ns[i as int]));
                lemma_without_mac_push(ns.subrange(0, i as int), ns[i as int], mac@);
            }
            let ghost before = kept@.map_values(|n: NodeInfo| n@);
            if !eq_ignore_ascii_case(self.nodes[i].mac.as_str(), mac.as_str()) {
                kept.push(copy_node(&self.nodes[i]));
                proof {
                    assert(kept@.map_values(|n: NodeInfo| n@) =~= before.push(ns[i as int]));
                }
            }
            i += 1;
        }
        proof {
            assert(ns.subrange(0, ns.len() as int) =~= ns);
        }
        self.nodes = kept;
    }

    fn toggle(&mut self, cmd: &GatewayCommand) -> (r: (bool, String, Option<SnmpResponse>))
        requires
            *cmd is NetToggleDownstream,
        ensures
            final(self)@ == old(self)@.effect(*cmd).state,
            effect_matches(old(self)@.effect(*cmd), r.0, r.1, r.2),
    {
        let d = !self.downstream_online;
        self.downstream_online = d;
        let ghost ns = old(self)@.nodes;
        let mut nodes: Vec<NodeInfo> = Vec::new();
        let mut i: usize = 0;
        while i < self.nodes.len()
            invariant
                i <= self.nodes@.len(),
                ns == self.nodes@.map_values(|n: NodeInfo| n@),
                nodes@.len() == i,
                forall|k: int| 0 <= k < i ==> (#[trigger] nodes@[k])@ == (NodeView { online: d, ..ns[k] }),
            decreases self.nodes@.len() - i,
        {
            let mut n = copy_node(&self.nodes[i]);
            n.online = d;
            nodes.push(n);
            i += 1;
        }
        self.nodes = nodes;
        proof {
            assert(self@.nodes =~= crate::gateway::with_online(ns, d));
        }
        let msg = if d {
            String::from_str("downstream AP restored (WifiMode::ApSta)")
        } else {
            String::from_str("downstream AP severed (WifiMode::Sta)")
        };
        (true, msg, None)
    }

    fn snmp_set(&mut self, cmd: &GatewayCommand) -> (r: (bool, String, Option<SnmpResponse>))
        requires
            *cmd is SnmpSet,
        ensures
            final(self)@ == old(self)@.effect(*cmd).state,
            effect_matches(old(self)@.effect(*cmd), r.0, r.1, r.2),
    {
        match cmd {
            GatewayCommand::SnmpSet { oid, value } => {
                if !self.downstream_online {
                    let resp = self.snmp_error(CMD_SNMP_SET, oid, "downstream offline");
                    (false, String::from_str("downstream offline"), Some(resp))
                } else {
                    mib_insert(&mut self.oids, oid, value);
                    proof {
                        assert(self@ == (GatewayState { oids: crate::gateway::oid_insert(old(self)@.oids, oid@, value@), ..old(self)@ }));
                    }
                    let resp = SnmpResponse {
                        protocol: String::from_str(SIM_SNMP_PROTOCOL),
                        operation: String::from_str("set"),
                        oid: copy_string(oid),
                        value: Some(copy_string(value)),
                        ok: true,
                        message: String::from_str("ack"),
                    };
                    let mut msg = String::from_str("set ");
                    msg.append(oid.as_str());
                    msg.append(" = ");
                    msg.append(value.as_str());
                    (true, msg, Some(resp))
                }
            },
            _ => {
                proof {
                    assert(false);
                }
                (false, String::new(), None)
            },
        }
    }

    fn snmp_get(&mut self, cmd: &GatewayCommand) -> (r: (bool, String, Option<SnmpResponse>))
        requires
            *cmd is SnmpGet,
        ensures
            final(self)@ == old(self)@.effect(*cmd).state,
            effect_matches(old(self)@.effect(*cmd), r.0, r.1, r.2),
    {
        match cmd {
            GatewayCommand::SnmpGet { oid } => {
                if !self.downstream_online {
                    let resp = self.snmp_error(crate::gateway::CMD_SNMP_GET, oid, "downstream offline");
                    (false, String::from_str("downstream offline"), Some(resp))
                } else {
                    match mib_lookup(&self.oids, oid) {
                        Some(value) => {
                            let resp = SnmpResponse {
                                protocol: String::from_str(SIM_SNMP_PROTOCOL),
                                operation: String::from_str("get"),
                                oid: copy_string(oid),
                                value: Some(copy_string(&value)),
                                ok: true,
                                message: String::from_str("ok"),
                            };
                            let mut msg = String::from_str("get ");
                            msg.append(oid.as_str());
                            msg.append(" = ");
                            msg.append(value.as_str());
                            (true, msg, Some(resp))
                        },
                        None => {
                            let resp = self.snmp_error(crate::gateway::CMD_SNMP_GET, oid, "no such OID");
                            let mut msg = String::from_str("no such OID ");
                            msg.append(oid.as_str());
                            (false, msg, Some(resp))
                        },
                    }
                }
            },
            _ => {
                proof {
                    assert(false);
                }
                (false, String::new(), None)
            },
        }
    }

    fn deauth(&mut self, cmd: &GatewayCommand) -> (r: (bool, String, Option<SnmpResponse>))
        requires
            *cmd is DeauthSta,
        ensures
            final(self)@ == old(self)@.effect(*cmd).state,
            effect_matches(old(self)@.effect(*cmd), r.0, r.1, r.2),
    {
        match cmd {
            GatewayCommand::DeauthSta { mac } => {
                let found = self.has_mac(mac);
                self.remove_mac(mac);
                let mut msg = if found {
                    String::from_str("deauthenticated ")
                } else {
                    String::from_str("no station ")
                };
                msg.append(mac.as_str());
                (found, msg, None)
            },
            _ => {
                proof {
                    assert(false);
                }
                (false, String::new(), None)
            },
        }
    }

    fn sys_health(&mut self, cmd: &GatewayCommand) -> (r: (bool, String, Option<SnmpResponse>))
        requires
            *cmd is SysHealth,
        ensures
            final(self)@ == old(self)@.effect(*cmd).state,
            effect_matches(old(self)@.effect(*cmd), r.0, r.1, r.2),
    {
        let mut msg = String::from_str("free_heap=");
        push_dec(&mut msg, self.free_heap_bytes as u128);
        msg.append(" bytes, downstream=");
        push_bool(&mut msg, self.downstream_online);
        msg.append(", stations=");
        push_dec(&mut msg, self.nodes.len() as u128);
        (true, msg, None)
    }

    fn sta_list(&mut self, cmd: &GatewayCommand) -> (r: (bool, String, Option<SnmpResponse>))
        requires
            *cmd is StaList,
        ensures
            final(self)@ == old(self)@.effect(*cmd).state,
            effect_matches(old(self)@.effect(*cmd), r.0, r.1, r.2),
    {
        let mut msg = String::from_str("stations=");
        let c = self.online_station_count();
        push_dec(&mut msg, c as u128);
        (true, msg, None)
    }

    fn register_node(&mut self, cmd: &GatewayCommand) -> (r: (bool, String, Option<SnmpResponse>))
        requires
            *cmd is RegisterNode,
        ensures
            final(self)@ == old(self)@.effect(*cmd).state,
            effect_matches(old(self)@.effect(*cmd), r.0, r.1, r.2),
    {
        match cmd {
            GatewayCommand::RegisterNode { mac, ip } => {
                if self.has_mac(mac) {
                    let mut msg = copy_string(mac);
                    msg.append(" already joined");
                    (false, msg, None)
                } else {
                    let node = NodeInfo {
                        mac: copy_string(mac),
                        ip: copy_string(ip),
                        free_heap_bytes: NODE_FREE_HEAP_BYTES,
                        online: self.downstream_online,
                    };
                    self.nodes.push(node);
                    proof {
                        assert(self@.nodes =~= old(self)@.nodes.push(node@));
                    }
                    let mut msg = copy_string(mac);
                    msg.append(" joined at ");
                    msg.append(ip.as_str());
                    (true, msg, None)
                }
            },
            _ => {
                proof {
                    assert(false);
                }
                (false, String::new(), None)
            },
        }
    }

    fn enroll(&mut self, cmd: &GatewayCommand) -> (r: (bool, String, Option<SnmpResponse>))
        requires
            *cmd is EnrollDevice,
            state_wf(old(self)@),
            can_apply(old(self)@, *cmd),
        ensures
            final(self)@ == old(self)@.effect(*cmd).state,
            effect_matches(old(self)@.effect(*cmd), r.0, r.1, r.2),
            state_wf(final(self)@),
    {
        match cmd {
            GatewayCommand::EnrollDevice { device_id, mac } => {
                match self.device_index(device_id) {
                    Some(_) => {
                        let mut msg = String::from_str("device ");
                        msg.append(device_id.as_str());
                        msg.append(" already enrolled");
                        (false, msg, None)
                    },
                    None => {
                        let fp = self.issue_credential(device_id);
                        let dev = DeviceIdentity {
                            device_id: copy_string(device_id),
                            mac: copy_string(mac),
                            state: crate::gateway::ProvisioningState::Pending,
                            credential_fingerprint: copy_string(&fp),
                            credential_version: 1,
                        };
                        let ghost before = self@;
                        self.devices.push(dev);
                        proof {
                            assert(self@.devices =~= before.devices.push(dev@));
                        }
                        let mut msg = String::from_str("enrolled ");
                        msg.append(device_id.as_str());
                        msg.append(" (pending), credential ");
                        msg.append(fp.as_str());
                        (true, msg, None)
                    },
                }
            },
            _ => {
                proof {
                    assert(false);
                }
                (false, String::new(), None)
            },
        }
    }

    fn claim(&mut self, cmd: &GatewayCommand) -> (r: (bool, String, Option<SnmpResponse>))
        requires
            *cmd is ClaimDevice,
            state_wf(old(self)@),
        ensures
            final(self)@ == old(self)@.effect(*cmd).state,
            effect_matches(old(self)@.effect(*cmd), r.0, r.1, r.2),
            state_wf(final(self)@),
    {
        match cmd {
            GatewayCommand::ClaimDevice { device_id } => {
                match self.device_index(device_id) {
                    None => {
                        let mut msg = String::from_str("unknown device ");
                        msg.append(device_id.as_str());
                        (false, msg, None)
                    },
                    Some(idx) => {
                        proof {
                            lemma_device_index_bounds(self@.devices, device_id@);
                        }
                        let st = self.devices[idx].state;
                        if st != crate::gateway::ProvisioningState::Pending {
                            let mut msg = String::from_str("device ");
                            msg.append(device_id.as_str());
                            msg.append(" is ");
                            if st == crate::gateway::ProvisioningState::Active {
                                msg.append("Active");
                            } else {
                                msg.append("Revoked");
                            }
                            msg.append(", only pending devices can be claimed");
                            (false, msg, None)
                        } else {
                            let ghost s0 = self@;
                            let mut d = copy_device(&self.devices[idx]);
                            d.state = crate::gateway::ProvisioningState::Active;
                            let mac = copy_string(&d.mac);
                            self.devices.set(idx, d);
                            proof {
                                assert(self@.devices =~= s0.devices.update(idx as int, DeviceView { state: crate::gateway::ProvisioningState::Active, ..s0.devices[idx as int] }));
                            }
                            let present = self.has_mac(&mac);
                            if !present {
                                let mut ip = String::from_str("192.168.4.");
                                push_dec(&mut ip, (self.nodes.len() as u128) + 10);
                                let node = NodeInfo {
                                    mac: copy_string(&mac),
                                    ip,
                                    free_heap_bytes: NODE_FREE_HEAP_BYTES,
                                    online: self.downstream_online,
                                };
                                let ghost s1 = self@;
                                self.nodes.push(node);
                                proof {
                                    assert(self@.nodes =~= s1.nodes.push(node@));
                                    assert((self.nodes@.len() - 1) + 10 == 10 + s1.nodes.len());
                                }
                            }
                            let mut msg = String::from_str("claimed ");
                            msg.append(device_id.as_str());
                            msg.append(" (active)");
                            (true, msg, None)
                        }
                    },
                }
            },
            _ => {
                proof {
                    assert(false);
                }
                (false, String::new(), None)
            },
        }
    }

    fn rotate(&mut self, cmd: &GatewayCommand) -> (r: (bool, String, Option<SnmpResponse>))
        requires
            *cmd is RotateCredential,
            state_wf(old(self)@),
            can_apply(old(self)@, *cmd),
        ensures
            final(self)@ == old(self)@.effect(*cmd).state,
            effect_matches(old(self)@.effect(*cmd), r.0, r.1, r.2),
            state_wf(final(self)@),
    {
        match cmd {
            GatewayCommand::RotateCredential { device_id } => {
                match self.device_index(device_id) {
                    None => {
                        let mut msg = String::from_str("unknown device ");
                        msg.append(device_id.as_str());
                        (false, msg, None)
                    },
                    Some(idx) => {
                        proof {
                            lemma_device_index_bounds(self@.devices, device_id@);
                        }
                        if self.devices[idx].state == crate::gateway::ProvisioningState::Revoked {
                            let mut msg = String::from_str("device ");
                            msg.append(device_id.as_str());
                            msg.append(" is revoked; cannot rotate");
                            (false, msg, None)
                        } else {
                            proof {
                                assert(self@.devices[idx as int].credential_version <= self@.credential_counter);
                            }
                            let fp = self.issue_credential(device_id);
                            let ghost s0 = self@;
                            let mut d = copy_device(&self.devices[idx]);
                            d.credential_fingerprint = copy_string(&fp);
                            d.credential_version = d.credential_version + 1;
                            let version = d.credential_version;
                            self.devices.set(idx, d);
                            proof {
                                assert(self@.devices =~= s0.devices.update(idx as int, DeviceView {
                                    credential_fingerprint: fp@,
                                    credential_version: version,
                                    ..s0.devices[idx as int]
                                }));
                            }
                            let mut msg = String::from_str("rotated ");
                            msg.append(device_id.as_str());
                            msg.append(" credential to ");
                            msg.append(fp.as_str());
                            msg.append(" (v");
                            push_dec(&mut msg, version as u128);
                            msg.append(")");
                            (true, msg, None)
                        }
                    },
                }
            },
            _ => {
                proof {
                    assert(false);
                }
                (false, String::new(), None)
            },
        }
    }

    fn revoke(&mut self, cmd: &GatewayCommand) -> (r: (bool, String, Option<SnmpResponse>))
        requires
            *cmd is RevokeDevice,
            state_wf(old(self)@),
        ensures
            final(self)@ == old(self)@.effect(*cmd).state,
            effect_matches(old(self)@.effect(*cmd), r.0, r.1, r.2),
            state_wf(final(self)@),
    {
        match cmd {
            GatewayCommand::RevokeDevice { device_id } => {
                match self.device_index(device_id) {
                    None => {
                        let mut msg = String::from_str("unknown device ");
                        msg.append(device_id.as_str());
                        (false, msg, None)
                    },
                    Some(idx) => {
                        proof {
                            lemma_device_index_bounds(self@.devices, device_id@);
                        }
                        if self.devices[idx].state == crate::gateway::ProvisioningState::Revoked {
                            let mut msg = String::from_str("device ");
                            msg.append(device_id.as_str());
                            msg.append(" already revoked");
                            (false, msg, None)
                        } else {
                            let ghost s0 = self@;
                            let mut d = copy_device(&self.devices[idx]);
                            d.state = crate::gateway::ProvisioningState::Revoked;
                            let mac = copy_string(&d.mac);
                            self.devices.set(idx, d);
                            proof {
                                assert(self@.devices =~= s0.devices.update(idx as int, DeviceView { state: crate::gateway::ProvisioningState::Revoked, ..s0.devices[idx as int] }));
                            }
                            self.remove_mac(&mac);
                            let mut msg = String::from_str("revoked ");
                            msg.append(device_id.as_str());
                            (true, msg, None)
                        }
                    },
                }
            },
            _ => {
                proof {
                    assert(false);
                }
                (false, String::new(), None)
            },
        }
    }

    /// Applies a command and returns the response with the updated snapshot.
    /// The new state and the response are those of the model:
    /// `GatewayState::step` and `GatewayState::response`.
    pub fn apply(&mut self, command: &GatewayCommand) -> (resp: GatewayResponse)
        requires
            state_wf(old(self)@),
            can_apply(old(self)@, *command),
        ensures
            state_wf(final(self)@),
            final(self)@ == old(self)@.step(*command),
            resp@ == old(self)@.response(*command),
    {
        let name = command.name();
        let (ok, message, snmp) = match command {
            GatewayCommand::NetToggleDownstream => self.toggle(command),
            GatewayCommand::SnmpSet { .. } => self.snmp_set(command),
            GatewayCommand::SnmpGet { .. } => self.snmp_get(command),
            GatewayCommand::DeauthSta { .. } => self.deauth(command),
            GatewayCommand::SysHealth => self.sys_health(command),
            GatewayCommand::StaList => self.sta_list(command),
            GatewayCommand::RegisterNode { .. } => self.register_node(command),
            GatewayCommand::EnrollDevice { .. } => self.enroll(command),
            GatewayCommand::ClaimDevice { .. } => self.claim(command),
            GatewayCommand::RotateCredential { .. } => self.rotate(command),
            GatewayCommand::RevokeDevice { .. } => self.revoke(command),
        };
        let mut line = String::from_str(name);
        line.append(": ");
        line.append(message.as_str());
        self.record(line);
        let snapshot = self.snapshot();
        GatewayResponse { ok, command: String::from_str(name), message, snmp, snapshot }
    }

    /// Whether `command` can be applied without overflowing the command
    /// counter or, for a command that issues a credential, the credential
    /// counter.
    pub fn fits_counters(&self, command: &GatewayCommand) -> (r: bool)
        ensures
            r == can_apply(self@, *command),
    {
        if self.command_count == u32::MAX {
            return false;
        }
        let issues = match command {
            GatewayCommand::EnrollDevice { device_id, .. } => self.device_index(device_id).is_none(),
            GatewayCommand::RotateCredential { device_id } => match self.device_index(device_id) {
                Some(i) => {
                    proof {
                        lemma_device_index_bounds(self@.devices, device_id@);
                    }
                    self.devices[i].state != ProvisioningState::Revoked
                },
                None => false,
            },
            _ => false,
        };
        !issues || self.credential_counter < u32::MAX
    }

    fn snmp_error(&self, op: &str, oid: &String, message: &str) -> (r: SnmpResponse)
        ensures
            r@ == snmp_error_view(op@, oid@, message@),
    {
        let is_set = str_equal(op, CMD_SNMP_SET);
        SnmpResponse {
            protocol: String::from_str(SIM_SNMP_PROTOCOL),
            operation: if is_set { String::from_str("set") } else { String::from_str("get") },
            oid: copy_string(oid),
            value: None,
            ok: false,
            message: String::from_str(message),
        }
    }
}

/// UTF-8 bytes of a string, as `str::as_bytes` gives them.
pub open spec fn encode_utf8_of(s: Seq<char>) -> Seq<u8> {
    vstd::utf8::encode_utf8(s)
}

} // verus!
