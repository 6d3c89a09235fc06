//! What the samplers compute from raw system readings: per-interface and
//! per-mount byte rates, process status labels and kill outcomes.
//!
//! Reading the system is left to the caller; these functions take what it
//! read as plain values.

use vstd::hash_map::StringHashMap;
use vstd::prelude::*;

use crate::order::{is_stable_sort, stable_sort_by_name, Named};
use crate::text::{decimal, push_decimal};
use vstd::string::StringSliceAdditionalSpecFns;
use vstd::utf8::encode_utf8;
use vstd::string::StringExecFns;

verus! {

/// One network interface: byte rates since the previous sample, link state,
/// MAC address and IP networks.
#[derive(Debug)]
pub struct NetInfo {
    pub name: String,
    pub rx_bytes: u64,
    pub tx_bytes: u64,
    pub state: String,
    pub mac: String,
    pub ip: String,
}

/// One mount point's read and write byte rates since the previous sample.
#[derive(Debug)]
pub struct DiskIoInfo {
    pub mount_point: String,
    pub read_rate: u64,
    pub write_rate: u64,
}

/// Facts about the host.
#[derive(Debug, Default)]
pub struct SysInfo {
    pub hostname: String,
    pub os: String,
    pub kernel: String,
    pub arch: String,
    pub uptime: u64,
    pub cpu_count: usize,
    pub boot_time: u64,
    pub physical_cores: usize,
    pub distro: String,
}

// ── Killing a process ───────────────────────────────────────────────────

/// How sending a signal to a process went.
#[derive(Clone, Copy, Debug, PartialEq, Eq, Structural)]
pub enum KillResult {
    Killed,
    NotFound,
    PermissionDenied,
    SelfTarget,
}

/// The message shown for `r` when the target was process `pid`.
pub open spec fn kill_message(r: KillResult, pid: u32) -> Seq<char> {
    match r {
        KillResult::Killed => "Killed PID "@ + decimal(pid as nat),
        KillResult::NotFound => "PID "@ + decimal(pid as nat) + " not found"@,
        KillResult::PermissionDenied => "Permission denied for PID "@ + decimal(pid as nat),
        KillResult::SelfTarget => "Cannot kill thrum itself"@,
    }
}

/// The outcome of a kill request: the program itself is never targeted;
/// otherwise `sent` is `None` when no such process exists, and else what
/// sending the signal returned (`Some(true)` sent, `Some(false)` failed,
/// `None` the signal is not supported).
pub open spec fn kill_outcome(is_self: bool, sent: Option<Option<bool>>) -> KillResult {
    if is_self {
        KillResult::SelfTarget
    } else {
        match sent {
            None => KillResult::NotFound,
            Some(Some(true)) => KillResult::Killed,
            Some(Some(false)) => KillResult::NotFound,
            Some(None) => KillResult::PermissionDenied,
        }
    }
}

impl KillResult {
    /// The message shown for this outcome when the target was process `pid`.
    pub fn message(&self, pid: u32) -> (r: String)
        ensures
            r@ == kill_message(*self, pid),
    {
        let mut s = String::new();
        match self {
            KillResult::Killed => {
                s.append("Killed PID ");
                push_decimal(&mut s, pid as u64);
            },
            KillResult::NotFound => {
                s.append("PID ");
                push_decimal(&mut s, pid as u64);
                s.append(" not found");
            },
            KillResult::PermissionDenied => {
                s.append("Permission denied for PID ");
                push_decimal(&mut s, pid as u64);
            },
            KillResult::SelfTarget => {
                s.append("Cannot kill thrum itself");
            },
        }
        s
    }

    /// The outcome of a kill request (see `kill_outcome`).
    pub fn from_outcome(is_self: bool, sent: Option<Option<bool>>) -> (r: KillResult)
        ensures
            r == kill_outcome(is_self, sent),
    {
        if is_self {
            return KillResult::SelfTarget;
        }
        match sent {
            None => KillResult::NotFound,
            Some(Some(true)) => KillResult::Killed,
            Some(Some(false)) => KillResult::NotFound,
            Some(None) => KillResult::PermissionDenied,
        }
    }
}

// ── Status labels ───────────────────────────────────────────────────────

/// The state of a process.
#[derive(Clone, Copy, Debug, PartialEq, Eq, Structural)]
pub enum ProcStatus {
    Run,
    Sleep,
    Idle,
    Stop,
    Zombie,
    Dead,
    UninterruptibleDiskSleep,
    /// Any other state.
    Other,
}

/// The label shown for a process state.
pub open spec fn status_label(s: ProcStatus) -> Seq<char> {
    match s {
        ProcStatus::Run => "Running"@,
        ProcStatus::Sleep => "Sleep"@,
        ProcStatus::Idle => "Idle"@,
        ProcStatus::Stop => "Stopped"@,
        ProcStatus::Zombie => "Zombie"@,
        ProcStatus::Dead => "Dead"@,
        ProcStatus::UninterruptibleDiskSleep => "Disk"@,
        ProcStatus::Other => "?"@,
    }
}

/// The label shown for a process state.
pub fn format_status(status: ProcStatus) -> (r: &'static str)
    ensures
        r@ == status_label(status),
{
    match status {
        ProcStatus::Run => "Running",
        ProcStatus::Sleep => "Sleep",
        ProcStatus::Idle => "Idle",
        ProcStatus::Stop => "Stopped",
        ProcStatus::Zombie => "Zombie",
        ProcStatus::Dead => "Dead",
        ProcStatus::UninterruptibleDiskSleep => "Disk",
        ProcStatus::Other => "?",
    }
}

/// The operational state of a network link.
#[derive(Clone, Copy, Debug, PartialEq, Eq, Structural)]
pub enum LinkState {
    Up,
    Down,
    LowerLayerDown,
    /// Any other state.
    Other,
}

/// The label shown for a link state.
pub open spec fn link_label(s: LinkState) -> Seq<char> {
    match s {
        LinkState::Up => "Up"@,
        LinkState::Down => "Down"@,
        LinkState::LowerLayerDown => "LLDown"@,
        LinkState::Other => "?"@,
    }
}

/// The label shown for a link state.
pub fn link_state_label(s: LinkState) -> (r: &'static str)
    ensures
        r@ == link_label(s),
{
    match s {
        LinkState::Up => "Up",
        LinkState::Down => "Down",
        LinkState::LowerLayerDown => "LLDown",
        LinkState::Other => "?",
    }
}

// ── Rates from cumulative counters ──────────────────────────────────────

/// The rates for a key whose cumulative counters are now (`a`, `b`), given
/// the counters remembered from the previous sample: the growth of each
/// counter (0 if it went down), or (0, 0) for a key not seen before.
pub open spec fn rate_spec(prev: Map<Seq<char>, (u64, u64)>, key: Seq<char>, a: u64, b: u64) -> (
    u64,
    u64,
) {
    match prev.get(key) {
        Some(p) => (a.saturating_sub(p.0), b.saturating_sub(p.1)),
        None => (0, 0),
    }
}

/// Remembers the last cumulative counter pair of each key and turns the
/// next pair into a rate.
pub struct RatePairTracker {
    prev: StringHashMap<(u64, u64)>,
}

impl View for RatePairTracker {
    type V = Map<Seq<char>, (u64, u64)>;

    closed spec fn view(&self) -> Map<Seq<char>, (u64, u64)> {
        self.prev@
    }
}

impl RatePairTracker {
    /// A tracker that remembers nothing.
    pub fn new() -> (r: RatePairTracker)
        ensures
            r@ == Map::<Seq<char>, (u64, u64)>::empty(),
    {
        RatePairTracker { prev: StringHashMap::new() }
    }

    /// A tracker that remembers the given counters (a later entry for the
    /// same key replaces an earlier one).
    pub fn from_entries(entries: Vec<(String, u64, u64)>) -> (r: RatePairTracker)
        ensures
            r@ == entries_map(entries@),
    {
        let mut prev: StringHashMap<(u64, u64)> = StringHashMap::new();
        let mut i: usize = 0;
        while i < entries.len()
            invariant
                i <= entries.len(),
                prev@ == entries_map(entries@.take(i as int)),
            decreases entries.len() - i,
        {
            let (k, a, b) = &entries[i];
            prev.insert(k.clone(), (*a, *b));
            assert(entries@.take(i + 1).drop_last() =~= entries@.take(i as int));
            i = i + 1;
        }
        assert(entries@.take(entries.len() as int) =~= entries@);
        RatePairTracker { prev }
    }

    /// The rates for `key` (see `rate_spec`); remembers (`cum_a`, `cum_b`)
    /// for the next call.
    pub fn rate_pair(&mut self, key: String, cum_a: u64, cum_b: u64) -> (r: (u64, u64))
        ensures
            r == rate_spec(old(self)@, key@, cum_a, cum_b),
            final(self)@ == old(self)@.insert(key@, (cum_a, cum_b)),
    {
        let r = match self.prev.get(key.as_str()) {
            Some(p) => (cum_a.saturating_sub(p.0), cum_b.saturating_sub(p.1)),
            None => (0, 0),
        };
        self.prev.insert(key, (cum_a, cum_b));
        r
    }

    /// Forgets every key that is not in `keep`.
    pub fn retain(&mut self, keep: &[String])
        ensures
            final(self)@ == old(self)@.restrict(text_set(keep@)),
    {
        let mut kept: StringHashMap<(u64, u64)> = StringHashMap::new();
        let mut i: usize = 0;
        while i < keep.len()
            invariant
                i <= keep.len(),
                kept@ == self.prev@.restrict(text_set(keep@.take(i as int))),
            decreases keep.len() - i,
        {
            let k = &keep[i];
            match self.prev.get(k.as_str()) {
                Some(v) => {
                    kept.insert(k.clone(), *v);
                },
                None => {},
            }
            proof {
                lemma_text_set_take_step(keep@, i as int);
            }
            assert(kept@ =~= self.prev@.restrict(text_set(keep@.take(i + 1))));
            i = i + 1;
        }
        assert(keep@.take(keep.len() as int) =~= keep@);
        self.prev = kept;
    }
}

/// The counters that `entries` lists, later entries replacing earlier ones.
pub open spec fn entries_map(entries: Seq<(String, u64, u64)>) -> Map<Seq<char>, (u64, u64)>
    decreases entries.len(),
{
    if entries.len() == 0 {
        Map::empty()
    } else {
        let e = entries.last();
        entries_map(entries.drop_last()).insert(e.0@, (e.1, e.2))
    }
}

proof fn lemma_text_set_take_step(s: Seq<String>, i: int)
    requires
        0 <= i < s.len(),
    ensures
        text_set(s.take(i + 1)) == text_set(s.take(i)).insert(s[i]@),
{
    let a = s.take(i + 1);
    let b = s.take(i);
    assert forall|t: Seq<char>| #[trigger]
        text_set(a).contains(t) <==> text_set(b).insert(s[i]@).contains(t) by {
        if text_set(a).contains(t) {
            let j = choose|j: int| 0 <= j < a.len() && a[j]@ == t;
            if j < i {
                assert(b[j] == a[j]);
            }
        }
        if text_set(b).contains(t) {
            let j = choose|j: int| 0 <= j < b.len() && b[j]@ == t;
            assert(a[j] == b[j]);
        }
        if t == s[i]@ {
            assert(a[i] == s[i]);
        }
    }
    assert(text_set(a) =~= text_set(b).insert(s[i]@));
}

/// The characters of each string of `s`, as a set.
pub open spec fn text_set(s: Seq<String>) -> Set<Seq<char>> {
    Set::new(|t: Seq<char>| exists|i: int| 0 <= i < s.len() && s[i]@ == t)
}

/// A key seen for the first time has rate (0, 0); seen again, its rate is
/// the growth of its counters since the last time.
pub proof fn lemma_rate_first_then_growth(
    m: Map<Seq<char>, (u64, u64)>,
    key: Seq<char>,
    a1: u64,
    b1: u64,
    a2: u64,
    b2: u64,
)
    requires
        !m.contains_key(key),
    ensures
        rate_spec(m, key, a1, b1) == (0u64, 0u64),
        rate_spec(m.insert(key, (a1, b1)), key, a2, b2) == (
            a2.saturating_sub(a1),
            b2.saturating_sub(b1),
        ),
{
}

// ── Collecting interfaces and mount points ──────────────────────────────

/// The counters remembered after feeding `items` (key, counter a, counter b)
/// one by one, in order, to a tracker that remembered `m`.
pub open spec fn tracker_after(
    m: Map<Seq<char>, (u64, u64)>,
    items: Seq<(Seq<char>, u64, u64)>,
) -> Map<Seq<char>, (u64, u64)>
    decreases items.len(),
{
    if items.len() == 0 {
        m
    } else {
        let e = items.last();
        tracker_after(m, items.drop_last()).insert(e.0, (e.1, e.2))
    }
}

/// The rates that item `i` gets when `items` are fed one by one, in order,
/// to a tracker that remembered `m`.
pub open spec fn rate_at(
    m: Map<Seq<char>, (u64, u64)>,
    items: Seq<(Seq<char>, u64, u64)>,
    i: int,
) -> (u64, u64) {
    rate_spec(tracker_after(m, items.take(i)), items[i].0, items[i].1, items[i].2)
}

/// The sum of `xs`, saturating at `u64::MAX`.
pub open spec fn saturating_sum(xs: Seq<u64>) -> u64
    decreases xs.len(),
{
    if xs.len() == 0 {
        0
    } else {
        saturating_sum(xs.drop_last()).saturating_add(xs.last())
    }
}

/// An interface as read from the system: cumulative byte counters, link
/// state, MAC address and IP networks.
#[derive(Debug)]
pub struct RawInterface {
    pub name: String,
    pub rx_total: u64,
    pub tx_total: u64,
    pub state: LinkState,
    pub mac: String,
    pub ip: String,
}

impl Named for RawInterface {
    open spec fn name_bytes(&self) -> Seq<u8> {
        encode_utf8(self.name@)
    }

    fn name_str(&self) -> (r: &str) {
        self.name.as_str()
    }
}

/// A mount point as read from the system: cumulative bytes read and written.
#[derive(Debug)]
pub struct RawDiskIo {
    pub mount_point: String,
    pub read_total: u64,
    pub write_total: u64,
}

impl Named for DiskIoInfo {
    open spec fn name_bytes(&self) -> Seq<u8> {
        encode_utf8(self.mount_point@)
    }

    fn name_str(&self) -> (r: &str) {
        self.mount_point.as_str()
    }
}

/// The (name, received, sent) counters of each interface.
pub open spec fn interface_counters(s: Seq<RawInterface>) -> Seq<(Seq<char>, u64, u64)> {
    s.map_values(|x: RawInterface| (x.name@, x.rx_total, x.tx_total))
}

/// The (mount point, read, written) counters of each mount point.
pub open spec fn disk_counters(s: Seq<RawDiskIo>) -> Seq<(Seq<char>, u64, u64)> {
    s.map_values(|x: RawDiskIo| (x.mount_point@, x.read_total, x.write_total))
}

/// The names in `items`, as a set.
pub open spec fn counter_names(items: Seq<(Seq<char>, u64, u64)>) -> Set<Seq<char>> {
    Set::new(|t: Seq<char>| exists|i: int| 0 <= i < items.len() && items[i].0 == t)
}

/// Whether `out` describes the interfaces `sorted` (already in name order)
/// for a tracker that remembered `m`: each gets its rates in turn.
pub open spec fn interfaces_described(
    m: Map<Seq<char>, (u64, u64)>,
    sorted: Seq<RawInterface>,
    out: Seq<NetInfo>,
) -> bool {
    let items = interface_counters(sorted);
    &&& out.len() == sorted.len()
    &&& forall|i: int|
        0 <= i < out.len() ==> {
            &&& (#[trigger] out[i]).name@ == sorted[i].name@
            &&& out[i].rx_bytes == rate_at(m, items, i).0
            &&& out[i].tx_bytes == rate_at(m, items, i).1
            &&& out[i].state@ == link_label(sorted[i].state)
            &&& out[i].mac@ == sorted[i].mac@
            &&& out[i].ip@ == sorted[i].ip@
        }
}

/// The received rates of `out`.
pub open spec fn rx_rates(out: Seq<NetInfo>) -> Seq<u64> {
    out.map_values(|x: NetInfo| x.rx_bytes)
}

/// The sent rates of `out`.
pub open spec fn tx_rates(out: Seq<NetInfo>) -> Seq<u64> {
    out.map_values(|x: NetInfo| x.tx_bytes)
}

/// The read rates of `out`.
pub open spec fn read_rates(out: Seq<DiskIoInfo>) -> Seq<u64> {
    out.map_values(|x: DiskIoInfo| x.read_rate)
}

/// The write rates of `out`.
pub open spec fn write_rates(out: Seq<DiskIoInfo>) -> Seq<u64> {
    out.map_values(|x: DiskIoInfo| x.write_rate)
}

/// Turns the interfaces read in one sample into rates: sorts them by name,
/// feeds each one's counters to `tracker` in that order, and then makes the
/// tracker forget interfaces that are gone. Returns the interfaces and the
/// total received and sent rates (saturating).
pub fn collect_networks(tracker: &mut RatePairTracker, raw: Vec<RawInterface>) -> (r: (
    Vec<NetInfo>,
    u64,
    u64,
))
    ensures
        exists|sorted: Seq<RawInterface>, p: Seq<int>|
            {
                &&& is_stable_sort(raw@, sorted, p)
                &&& interfaces_described(old(tracker)@, sorted, r.0@)
                &&& r.1 == saturating_sum(rx_rates(r.0@))
                &&& r.2 == saturating_sum(tx_rates(r.0@))
                &&& final(tracker)@ == tracker_after(
                    old(tracker)@,
                    interface_counters(sorted),
                ).restrict(counter_names(interface_counters(sorted)))
            },
{
    let ghost m0 = tracker@;
    let sorted = stable_sort_by_name(raw);
    let ghost items = interface_counters(sorted@);
    let mut interfaces: Vec<NetInfo> = Vec::new();
    let mut names: Vec<String> = Vec::new();
    let mut rx_total: u64 = 0;
    let mut tx_total: u64 = 0;
    let mut i: usize = 0;
    while i < sorted.len()
        invariant
            items == interface_counters(sorted@),
            i <= sorted.len(),
            tracker@ == tracker_after(m0, items.take(i as int)),
            interfaces@.len() == i,
            names@.len() == i,
            forall|j: int| 0 <= j < i ==> (#[trigger] names@[j])@ == items[j].0,
            interfaces_described(m0, sorted@.take(i as int), interfaces@),
            rx_total == saturating_sum(rx_rates(interfaces@)),
            tx_total == saturating_sum(tx_rates(interfaces@)),
        decreases sorted.len() - i,
    {
        let x = &sorted[i];
        let ghost before = interfaces@;
        assert(items.take(i + 1).drop_last() =~= items.take(i as int));
        let (rx, tx) = tracker.rate_pair(x.name.clone(), x.rx_total, x.tx_total);
        rx_total = rx_total.saturating_add(rx);
        tx_total = tx_total.saturating_add(tx);
        interfaces.push(
            NetInfo {
                name: x.name.clone(),
                rx_bytes: rx,
                tx_bytes: tx,
                state: link_state_label(x.state).to_owned(),
                mac: x.mac.clone(),
                ip: x.ip.clone(),
            },
        );
        names.push(x.name.clone());
        proof {
            assert(rx_rates(interfaces@).drop_last() =~= rx_rates(before));
            assert(tx_rates(interfaces@).drop_last() =~= tx_rates(before));
            assert forall|j: int| 0 <= j < i + 1 implies {
                &&& (#[trigger] interfaces@[j]).name@ == sorted@.take(i + 1)[j].name@
                &&& interfaces@[j].rx_bytes == rate_at(m0, interface_counters(sorted@.take(i + 1)), j).0
                &&& interfaces@[j].tx_bytes == rate_at(m0, interface_counters(sorted@.take(i + 1)), j).1
                &&& interfaces@[j].state@ == link_label(sorted@.take(i + 1)[j].state)
                &&& interfaces@[j].mac@ == sorted@.take(i + 1)[j].mac@
                &&& interfaces@[j].ip@ == sorted@.take(i + 1)[j].ip@
            } by {
                assert(interface_counters(sorted@.take(i + 1)).take(j) =~= items.take(j));
                assert(interface_counters(sorted@.take(i + 1))[j] == items[j]);
                if j < i {
                    assert(interface_counters(sorted@.take(i as int)).take(j) =~= items.take(j));
                    assert(interface_counters(sorted@.take(i as int))[j] == items[j]);
                }
            }
        }
        i = i + 1;
    }
    assert(sorted@.take(sorted.len() as int) =~= sorted@);
    assert(items.take(sorted.len() as int) =~= items);
    proof {
        assert(text_set(names@) =~= counter_names(items)) by {
            assert forall|t: Seq<char>| #[trigger]
                text_set(names@).contains(t) <==> counter_names(items).contains(t) by {
                if text_set(names@).contains(t) {
                    let j = choose|j: int| 0 <= j < names@.len() && names@[j]@ == t;
                    assert(items[j].0 == t);
                }
                if counter_names(items).contains(t) {
                    let j = choose|j: int| 0 <= j < items.len() && items[j].0 == t;
                    assert(names@[j]@ == t);
                }
            }
        }
    }
    tracker.retain(names.as_slice());
    (interfaces, rx_total, tx_total)
}

/// Whether `out` describes the mount points `raw`, in the order read, for a
/// tracker that remembered `m`: each gets its rates in turn.
pub open spec fn disks_described(
    m: Map<Seq<char>, (u64, u64)>,
    raw: Seq<RawDiskIo>,
    out: Seq<DiskIoInfo>,
) -> bool {
    let items = disk_counters(raw);
    &&& out.len() == raw.len()
    &&& forall|i: int|
        0 <= i < out.len() ==> {
            &&& (#[trigger] out[i]).mount_point@ == raw[i].mount_point@
            &&& out[i].read_rate == rate_at(m, items, i).0
            &&& out[i].write_rate == rate_at(m, items, i).1
        }
}

/// Turns the mount points read in one sample into rates: feeds each one's
/// counters to `tracker` in the order read, sorts the result by mount point,
/// and then makes the tracker forget mount points that are gone. Returns the
/// mount points and the total read and written rates (saturating).
pub fn collect_disk_io(tracker: &mut RatePairTracker, raw: Vec<RawDiskIo>) -> (r: (
    Vec<DiskIoInfo>,
    u64,
    u64,
))
    ensures
        exists|unsorted: Seq<DiskIoInfo>, p: Seq<int>|
            #![trigger disks_described(old(tracker)@, raw@, unsorted), is_stable_sort(unsorted, r.0@, p)]
            {
                &&& disks_described(old(tracker)@, raw@, unsorted)
                &&& is_stable_sort(unsorted, r.0@, p)
                &&& r.1 == saturating_sum(read_rates(unsorted))
                &&& r.2 == saturating_sum(write_rates(unsorted))
                &&& final(tracker)@ == tracker_after(
                    old(tracker)@,
                    disk_counters(raw@),
                ).restrict(counter_names(disk_counters(raw@)))
            },
{
    let ghost m0 = tracker@;
    let ghost items = disk_counters(raw@);
    let mut disk_io: Vec<DiskIoInfo> = Vec::new();
    let mut names: Vec<String> = Vec::new();
    let mut read_total: u64 = 0;
    let mut write_total: u64 = 0;
    let mut i: usize = 0;
    while i < raw.len()
        invariant
            items == disk_counters(raw@),
            i <= raw.len(),
            tracker@ == tracker_after(m0, items.take(i as int)),
            disk_io@.len() == i,
            names@.len() == i,
            forall|j: int| 0 <= j < i ==> (#[trigger] names@[j])@ == items[j].0,
            disks_described(m0, raw@.take(i as int), disk_io@),
            read_total == saturating_sum(read_rates(disk_io@)),
            write_total == saturating_sum(write_rates(disk_io@)),
        decreases raw.len() - i,
    {
        let d = &raw[i];
        let ghost before = disk_io@;
        assert(items.take(i + 1).drop_last() =~= items.take(i as int));
        let (rd, wr) = tracker.rate_pair(d.mount_point.clone(), d.read_total, d.write_total);
        read_total = read_total.saturating_add(rd);
        write_total = write_total.saturating_add(wr);
        disk_io.push(DiskIoInfo { mount_point: d.mount_point.clone(), read_rate: rd, write_rate: wr });
        names.push(d.mount_point.clone());
        proof {
            assert(read_rates(disk_io@).drop_last() =~= read_rates(before));
            assert(write_rates(disk_io@).drop_last() =~= write_rates(before));
            assert forall|j: int| 0 <= j < i + 1 implies {
                &&& (#[trigger] disk_io@[j]).mount_point@ == raw@.take(i + 1)[j].mount_point@
                &&& disk_io@[j].read_rate == rate_at(m0, disk_counters(raw@.take(i + 1)), j).0
                &&& disk_io@[j].write_rate == rate_at(m0, disk_counters(raw@.take(i + 1)), j).1
            } by {
                assert(disk_counters(raw@.take(i + 1)).take(j) =~= items.take(j));
                assert(disk_counters(raw@.take(i + 1))[j] == items[j]);
                if j < i {
                    assert(disk_counters(raw@.take(i as int)).take(j) =~= items.take(j));
                    assert(disk_counters(raw@.take(i as int))[j] == items[j]);
                }
            }
        }
        i = i + 1;
    }
    assert(raw@.take(raw.len() as int) =~= raw@);
    assert(items.take(raw.len() as int) =~= items);
    proof {
        assert(text_set(names@) =~= counter_names(items)) by {
            assert forall|t: Seq<char>| #[trigger]
                text_set(names@).contains(t) <==> counter_names(items).contains(t) by {
                if text_set(names@).contains(t) {
                    let j = choose|j: int| 0 <= j < names@.len() && names@[j]@ == t;
                    assert(items[j].0 == t);
                }
                if counter_names(items).contains(t) {
                    let j = choose|j: int| 0 <= j < items.len() && items[j].0 == t;
                    assert(names@[j]@ == t);
                }
            }
        }
    }
    let ghost unsorted = disk_io@;
    let sorted = stable_sort_by_name(disk_io);
    tracker.retain(names.as_slice());
    let r = (sorted, read_total, write_total);
    proof {
        let p = choose|p: Seq<int>| is_stable_sort(unsorted, r.0@, p);
        assert(disks_described(old(tracker)@, raw@, unsorted));
        assert(is_stable_sort(unsorted, r.0@, p));
        assert(r.1 == saturating_sum(read_rates(unsorted)));
        assert(tracker@ == tracker_after(old(tracker)@, disk_counters(raw@)).restrict(counter_names(disk_counters(raw@))));
    }
    r
}

} // verus!
