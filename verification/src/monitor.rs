//! Host-metrics helpers behind the status endpoint: aggregation of disk and
//! network samples, and the parsers for the memory, connection-count and
//! uptime texts the host provides.

use vstd::prelude::*;

use crate::text::{
    match_at, parse_u64_full, spec_find_char_from, spec_match_at, spec_parse_unsigned,
    spec_split_lines, spec_tokens, spec_trim, split_lines, split_tokens, trim_str,
};

verus! {

/// Memory use in bytes.
#[derive(Debug, Clone, Copy, PartialEq, Eq, Structural)]
pub struct MemStats {
    pub current: u64,
    pub total: u64,
}

/// Swap use in bytes.
#[derive(Debug, Clone, Copy, PartialEq, Eq, Structural)]
pub struct SwapStats {
    pub current: u64,
    pub total: u64,
}

/// Disk use in bytes, summed over all disks.
#[derive(Debug, Clone, Copy, PartialEq, Eq, Structural)]
pub struct DiskStats {
    pub current: u64,
    pub total: u64,
}

/// Network totals since boot, summed over all interfaces.
#[derive(Debug, Clone, Copy, PartialEq, Eq, Structural)]
pub struct NetTraffic {
    pub sent: u64,
    pub recv: u64,
}

/// Network rates of the last refresh, summed over all interfaces.
#[derive(Debug, Clone, Copy, PartialEq, Eq, Structural)]
pub struct NetIo {
    pub up: u64,
    pub down: u64,
}

/// The supervised process's observed state and version, for display.
#[derive(Debug, Clone)]
pub struct XrayStatus {
    pub state: String,
    pub version: String,
}

/// One disk's capacity and free space, in bytes.
#[derive(Debug, Clone, Copy, PartialEq, Eq, Structural)]
pub struct DiskSpace {
    pub total: u64,
    pub available: u64,
}

/// One interface's counters: totals since boot and deltas of the last
/// refresh.
#[derive(Debug, Clone, Copy, PartialEq, Eq, Structural)]
pub struct NetSample {
    pub total_sent: u64,
    pub total_recv: u64,
    pub sent: u64,
    pub recv: u64,
}

/// The sum of all disk capacities.
pub open spec fn spec_disk_total(ds: Seq<DiskSpace>) -> int
    decreases ds.len(),
{
    if ds.len() == 0 {
        0
    } else {
        spec_disk_total(ds.drop_last()) + ds.last().total
    }
}

/// The sum of all disks' used space.
pub open spec fn spec_disk_used(ds: Seq<DiskSpace>) -> int
    decreases ds.len(),
{
    if ds.len() == 0 {
        0
    } else {
        spec_disk_used(ds.drop_last()) + (ds.last().total - ds.last().available)
    }
}

/// Sums disk samples into one figure, as the two sum functions say.
pub fn aggregate_disks(disks: &Vec<DiskSpace>) -> (r: DiskStats)
    requires
        forall|i: int|
            0 <= i < disks@.len() ==> (#[trigger] disks@[i].available) <= disks@[i].total,
        spec_disk_total(disks@) <= u64::MAX,
    ensures
        r.total == spec_disk_total(disks@),
        r.current == spec_disk_used(disks@),
{
    let mut total: u64 = 0;
    let mut current: u64 = 0;
    let mut i: usize = 0;
    proof {
        assert(disks@.take(0) =~= Seq::<DiskSpace>::empty());
    }
    while i < disks.len()
        invariant
            0 <= i <= disks@.len(),
            forall|j: int|
                0 <= j < disks@.len() ==> (#[trigger] disks@[j].available) <= disks@[j].total,
            spec_disk_total(disks@) <= u64::MAX,
            total == spec_disk_total(disks@.take(i as int)),
            current == spec_disk_used(disks@.take(i as int)),
            current <= total,
        decreases disks@.len() - i,
    {
        let d = &disks[i];
        proof {
            assert(disks@.take(i as int + 1).drop_last() =~= disks@.take(i as int));
            assert(disks@.take(i as int + 1).last() == disks@[i as int]);
            lemma_disk_total_take_le(disks@, i as int + 1);
        }
        total = total + d.total;
        current = current + (d.total - d.available);
        i += 1;
    }
    proof {
        assert(disks@.take(disks@.len() as int) =~= disks@);
    }
    DiskStats { current, total }
}

/// A prefix of the disk list never sums to more than the whole.
proof fn lemma_disk_total_take_le(ds: Seq<DiskSpace>, i: int)
    requires
        0 <= i <= ds.len(),
    ensures
        spec_disk_total(ds.take(i)) <= spec_disk_total(ds),
    decreases ds.len() - i,
{
    if i < ds.len() {
        assert(ds.take(i + 1).drop_last() =~= ds.take(i));
        assert(ds.take(i + 1).last() == ds[i]);
        lemma_disk_total_take_le(ds, i + 1);
    } else {
        assert(ds.take(i) =~= ds);
    }
}

/// The sums of the four interface counters.
pub open spec fn spec_net_sums(ns: Seq<NetSample>) -> (int, int, int, int)
    decreases ns.len(),
{
    if ns.len() == 0 {
        (0, 0, 0, 0)
    } else {
        let rest = spec_net_sums(ns.drop_last());
        (
            rest.0 + ns.last().total_sent,
            rest.1 + ns.last().total_recv,
            rest.2 + ns.last().sent,
            rest.3 + ns.last().recv,
        )
    }
}

/// Sums interface samples into the totals and rates of the status report.
pub fn aggregate_networks(nets: &Vec<NetSample>) -> (r: (NetTraffic, NetIo))
    requires
        spec_net_sums(nets@).0 <= u64::MAX,
        spec_net_sums(nets@).1 <= u64::MAX,
        spec_net_sums(nets@).2 <= u64::MAX,
        spec_net_sums(nets@).3 <= u64::MAX,
    ensures
        r.0.sent == spec_net_sums(nets@).0,
        r.0.recv == spec_net_sums(nets@).1,
        r.1.up == spec_net_sums(nets@).2,
        r.1.down == spec_net_sums(nets@).3,
{
    let mut sent: u64 = 0;
    let mut recv: u64 = 0;
    let mut up: u64 = 0;
    let mut down: u64 = 0;
    let mut i: usize = 0;
    proof {
        assert(nets@.take(0) =~= Seq::<NetSample>::empty());
    }
    while i < nets.len()
        invariant
            0 <= i <= nets@.len(),
            spec_net_sums(nets@).0 <= u64::MAX,
            spec_net_sums(nets@).1 <= u64::MAX,
            spec_net_sums(nets@).2 <= u64::MAX,
            spec_net_sums(nets@).3 <= u64::MAX,
            sent == spec_net_sums(nets@.take(i as int)).0,
            recv == spec_net_sums(nets@.take(i as int)).1,
            up == spec_net_sums(nets@.take(i as int)).2,
            down == spec_net_sums(nets@.take(i as int)).3,
        decreases nets@.len() - i,
    {
        let s = &nets[i];
        proof {
            assert(nets@.take(i as int + 1).drop_last() =~= nets@.take(i as int));
            assert(nets@.take(i as int + 1).last() == nets@[i as int]);
            lemma_net_sums_take_le(nets@, i as int + 1);
        }
        sent = sent + s.total_sent;
        recv = recv + s.total_recv;
        up = up + s.sent;
        down = down + s.recv;
        i += 1;
    }
    proof {
        assert(nets@.take(nets@.len() as int) =~= nets@);
    }
    (NetTraffic { sent, recv }, NetIo { up, down })
}

/// A prefix of the interface list never sums to more than the whole.
proof fn lemma_net_sums_take_le(ns: Seq<NetSample>, i: int)
    requires
        0 <= i <= ns.len(),
    ensures
        spec_net_sums(ns.take(i)).0 <= spec_net_sums(ns).0,
        spec_net_sums(ns.take(i)).1 <= spec_net_sums(ns).1,
        spec_net_sums(ns.take(i)).2 <= spec_net_sums(ns).2,
        spec_net_sums(ns.take(i)).3 <= spec_net_sums(ns).3,
    decreases ns.len() - i,
{
    if i < ns.len() {
        assert(ns.take(i + 1).drop_last() =~= ns.take(i));
        assert(ns.take(i + 1).last() == ns[i]);
        lemma_net_sums_take_le(ns, i + 1);
    } else {
        assert(ns.take(i) =~= ns);
    }
}

/// The count read from one line of the connection report: the trimmed line
/// as a number, or zero when it is not one.
pub open spec fn spec_count_of(l: Seq<char>) -> int {
    match spec_parse_unsigned(spec_trim(l), u64::MAX as int) {
        Some(v) => v,
        None => 0,
    }
}

/// Reads the TCP and UDP connection counts from the two-line report; a
/// report of fewer than two lines counts as none of either.
pub fn parse_connection_counts(text: &str) -> (r: (u64, u64))
    ensures
        spec_split_lines(text@).len() >= 2 ==> r.0 == spec_count_of(spec_split_lines(text@)[0])
            && r.1 == spec_count_of(spec_split_lines(text@)[1]),
        spec_split_lines(text@).len() < 2 ==> r == (0u64, 0u64),
{
    let lines = split_lines(text);
    if lines.len() >= 2 {
        proof {
            assert(lines.deep_view()[0] == lines@[0]@);
            assert(lines.deep_view()[1] == lines@[1]@);
        }
        let tcp = match parse_u64_full(trim_str(lines[0].as_str())) {
            Some(v) => v,
            None => 0,
        };
        let udp = match parse_u64_full(trim_str(lines[1].as_str())) {
            Some(v) => v,
            None => 0,
        };
        (tcp, udp)
    } else {
        (0, 0)
    }
}

/// The whole seconds at the front of the uptime text: the digits of its
/// first token up to a dot; absent when there is no token or the digits do
/// not form a number.
pub open spec fn spec_uptime_seconds(s: Seq<char>) -> Option<int> {
    let ts = spec_tokens(s);
    if ts.len() == 0 {
        None
    } else {
        let t = ts[0];
        let intpart = match spec_find_char_from(t, 0, '.') {
            Some(i) => t.take(i),
            None => t,
        };
        spec_parse_unsigned(intpart, u64::MAX as int)
    }
}

/// Reads the whole seconds from the uptime text, as `spec_uptime_seconds`
/// says.
pub fn parse_uptime_seconds(content: &str) -> (r: Option<u64>)
    ensures
        match r {
            Some(v) => spec_uptime_seconds(content@) == Some(v as int),
            None => spec_uptime_seconds(content@) is None,
        },
{
    let tokens = split_tokens(content);
    if tokens.len() == 0 {
        return None;
    }
    proof {
        assert(tokens.deep_view()[0] == tokens@[0]@);
    }
    let t = &tokens[0];
    let ts = t.as_str();
    let intpart = match crate::text::find_char_from(ts, 0, '.') {
        Some(i) => ts.substring_char(0, i),
        None => ts,
    };
    proof {
        match spec_find_char_from(t@, 0, '.') {
            Some(i) => {
                assert(t@.take(i) =~= t@.subrange(0, i));
            },
            None => {},
        }
    }
    parse_u64_full(intpart)
}

/// What one `free -b` line does to the scan: a `Mem:` line with at least
/// three tokens must yield two numbers (else the whole scan fails) and
/// records them; a `Swap:` line likewise records its two numbers; any other
/// line changes nothing.
pub struct FreeScan {
    pub mem_total: u64,
    pub mem_used: u64,
    pub swap_total: u64,
    pub swap_used: u64,
    pub mem_found: bool,
}

/// The scan state before any line.
pub open spec fn spec_free_init() -> FreeScan {
    FreeScan { mem_total: 0, mem_used: 0, swap_total: 0, swap_used: 0, mem_found: false }
}

/// One line of the memory-report scan.
pub open spec fn spec_free_line(st: FreeScan, l: Seq<char>) -> Option<FreeScan> {
    if spec_match_at(l, "Mem:"@, 0) {
        let ts = spec_tokens(l);
        if ts.len() >= 3 {
            if spec_parse_unsigned(ts[1], u64::MAX as int) is Some && spec_parse_unsigned(
                ts[2],
                u64::MAX as int,
            ) is Some {
                Some(
                    FreeScan {
                        mem_total: spec_parse_unsigned(ts[1], u64::MAX as int)->Some_0 as u64,
                        mem_used: spec_parse_unsigned(ts[2], u64::MAX as int)->Some_0 as u64,
                        mem_found: true,
                        ..st
                    },
                )
            } else {
                None
            }
        } else {
            Some(st)
        }
    } else if spec_match_at(l, "Swap:"@, 0) {
        let ts = spec_tokens(l);
        if ts.len() >= 3 {
            if spec_parse_unsigned(ts[1], u64::MAX as int) is Some && spec_parse_unsigned(
                ts[2],
                u64::MAX as int,
            ) is Some {
                Some(
                    FreeScan {
                        swap_total: spec_parse_unsigned(ts[1], u64::MAX as int)->Some_0 as u64,
                        swap_used: spec_parse_unsigned(ts[2], u64::MAX as int)->Some_0 as u64,
                        ..st
                    },
                )
            } else {
                None
            }
        } else {
            Some(st)
        }
    } else {
        Some(st)
    }
}

/// The scan over all lines; one bad number fails the whole scan.
pub open spec fn spec_free_scan(lines: Seq<Seq<char>>) -> Option<FreeScan>
    decreases lines.len(),
{
    if lines.len() == 0 {
        Some(spec_free_init())
    } else {
        match spec_free_scan(lines.drop_last()) {
            None => None,
            Some(st) => spec_free_line(st, lines.last()),
        }
    }
}

/// A failed scan prefix fails the whole scan.
proof fn lemma_free_scan_none(lines: Seq<Seq<char>>, i: int)
    requires
        0 <= i <= lines.len(),
        spec_free_scan(lines.take(i)) is None,
    ensures
        spec_free_scan(lines) is None,
    decreases lines.len() - i,
{
    if i < lines.len() {
        assert(lines.take(i + 1).drop_last() =~= lines.take(i));
        lemma_free_scan_none(lines, i + 1);
    } else {
        assert(lines.take(i) =~= lines);
    }
}

/// What the memory report yields: the scanned figures, provided the scan
/// succeeded and saw a `Mem:` line.
pub open spec fn spec_free_result(s: Seq<char>) -> Option<FreeScan> {
    match spec_free_scan(spec_split_lines(s)) {
        None => None,
        Some(st) => if st.mem_found {
            Some(st)
        } else {
            None
        },
    }
}

/// Parses the output of the memory report into memory and swap figures, as
/// `spec_free_result` says.
pub fn parse_free_output(text: &str) -> (r: Option<(MemStats, SwapStats)>)
    ensures
        match r {
            Some(p) => spec_free_result(text@) matches Some(st) && p.0 == (MemStats {
                current: st.mem_used,
                total: st.mem_total,
            }) && p.1 == (SwapStats { current: st.swap_used, total: st.swap_total }),
            None => spec_free_result(text@) is None,
        },
{
    let lines = split_lines(text);
    let ghost lv = lines.deep_view();
    let mut scan = FreeScan {
        mem_total: 0,
        mem_used: 0,
        swap_total: 0,
        swap_used: 0,
        mem_found: false,
    };
    let mut i: usize = 0;
    proof {
        assert(lv.take(0) =~= Seq::<Seq<char>>::empty());
        assert(scan == spec_free_init());
    }
    while i < lines.len()
        invariant
            lv == lines.deep_view(),
            lv == spec_split_lines(text@),
            lines@.len() == lv.len(),
            0 <= i <= lines@.len(),
            spec_free_scan(lv.take(i as int)) == Some(scan),
        decreases lines@.len() - i,
    {
        let ghost st0 = scan;
        let l = &lines[i];
        proof {
            assert(lv[i as int] == lines@[i as int]@);
            assert(lv.take(i as int + 1).drop_last() =~= lv.take(i as int));
            assert(lv.take(i as int + 1).last() == lv[i as int]);
        }
        if match_at(l.as_str(), "Mem:", 0) {
            let ts = split_tokens(l.as_str());
            if ts.len() >= 3 {
                proof {
                    assert(ts.deep_view()[1] == ts@[1]@);
                    assert(ts.deep_view()[2] == ts@[2]@);
                }
                let a = parse_u64_full(ts[1].as_str());
                let b = parse_u64_full(ts[2].as_str());
                match (a, b) {
                    (Some(mt), Some(mu)) => {
                        scan.mem_total = mt;
                        scan.mem_used = mu;
                        scan.mem_found = true;
                    },
                    _ => {
                        proof {
                            assert(spec_free_line(st0, lv[i as int]) is None);
                            assert(spec_free_scan(lv.take(i as int + 1)) is None);
                            lemma_free_scan_none(lv, i as int + 1);
                        }
                        return None;
                    },
                }
            }
        } else if match_at(l.as_str(), "Swap:", 0) {
            let ts = split_tokens(l.as_str());
            if ts.len() >= 3 {
                proof {
                    assert(ts.deep_view()[1] == ts@[1]@);
                    assert(ts.deep_view()[2] == ts@[2]@);
                }
                let a = parse_u64_full(ts[1].as_str());
                let b = parse_u64_full(ts[2].as_str());
                match (a, b) {
                    (Some(st), Some(su)) => {
                        scan.swap_total = st;
                        scan.swap_used = su;
                    },
                    _ => {
                        proof {
                            assert(spec_free_line(st0, lv[i as int]) is None);
                            assert(spec_free_scan(lv.take(i as int + 1)) is None);
                            lemma_free_scan_none(lv, i as int + 1);
                        }
                        return None;
                    },
                }
            }
        }
        proof {
            assert(spec_free_line(st0, lv[i as int]) == Some(scan));
        }
        i += 1;
    }
    proof {
        assert(lv.take(lv.len() as int) =~= lv);
    }
    if scan.mem_found {
        Some(
            (
                MemStats { current: scan.mem_used, total: scan.mem_total },
                SwapStats { current: scan.swap_used, total: scan.swap_total },
            ),
        )
    } else {
        None
    }
}

} // verus!
