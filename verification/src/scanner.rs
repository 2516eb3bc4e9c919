//! The scan engine: which ports are probed, how outcomes are aggregated,
//! and how the final ordered report is produced.

use vstd::prelude::*;

use crate::request::ScanRequest;

verus! {

/// The ports a request asks to probe: the half-open range
/// `[start_port, end_port)` in ascending order, empty when the range is
/// degenerate.
pub open spec fn probe_ports(req: ScanRequest) -> Seq<u16> {
    Seq::new(req.range_len() as nat, |i: int| (req.start_port + i) as u16)
}

impl ScanRequest {
    /// Lists every port the scan will probe, in ascending order. The
    /// exclusive bound `end_port` is never among them, and a degenerate
    /// range yields no ports at all.
    pub fn ports_to_probe(&self) -> (r: Vec<u16>)
        ensures
            r@ == probe_ports(*self),
    {
        let mut ports: Vec<u16> = Vec::new();
        if self.start_port >= self.end_port {
            assert(ports@ =~= probe_ports(*self));
            return ports;
        }
        let mut p: u16 = self.start_port;
        while p < self.end_port
            invariant
                self.start_port <= p <= self.end_port,
                self.start_port < self.end_port,
                ports@.len() == p - self.start_port,
                forall|i: int|
                    0 <= i < ports@.len() ==> ports@[i] == self.start_port + i,
            decreases self.end_port - p,
        {
            ports.push(p);
            p = p + 1;
        }
        assert(ports@ =~= probe_ports(*self));
        ports
    }
}

/// A sequence is strictly ascending when every earlier element is smaller
/// than every later one; such a sequence also has no duplicates.
pub open spec fn strictly_ascending(s: Seq<u16>) -> bool {
    forall|i: int, j: int| 0 <= i < j < s.len() ==> s[i] < s[j]
}

/// One scan in progress: every port of the range is launched as an
/// independent probe, each probe reports its outcome exactly once and in
/// arbitrary order, and once all have reported the session yields the open
/// ports in ascending order.
pub struct ScanSession {
    /// The first port of the range.
    pub start_port: u16,
    /// The exclusive upper bound of the range.
    pub end_port: u16,
    /// One flag per port of the range, in range order: whether that port's
    /// probe has reported its outcome yet.
    pub reported: Vec<bool>,
    /// The open ports collected so far, in the order their probes reported.
    pub open: Vec<u16>,
}

impl ScanSession {
    /// The session's invariant: the flags cover the range exactly, and the
    /// collected ports are distinct in-range ports whose probes have
    /// reported.
    pub open spec fn wf(self) -> bool {
        &&& self.start_port >= 1
        &&& self.reported@.len() == self.range_len()
        &&& forall|i: int|
            0 <= i < self.open@.len() ==> self.start_port <= #[trigger] self.open@[i]
                < self.end_port
        &&& forall|i: int|
            0 <= i < self.open@.len() ==> self.reported@[#[trigger] self.open@[i]
                - self.start_port]
        &&& forall|i: int, j: int|
            0 <= i < j < self.open@.len() ==> self.open@[i] != self.open@[j]
    }

    /// How many ports the session probes.
    pub open spec fn range_len(self) -> int {
        if self.start_port < self.end_port {
            self.end_port - self.start_port
        } else {
            0
        }
    }

    /// Whether `p` lies in the session's half-open range.
    pub open spec fn in_range(self, p: u16) -> bool {
        self.start_port <= p < self.end_port
    }

    /// Whether `p`'s probe has reported its outcome.
    pub open spec fn port_reported(self, p: u16) -> bool {
        self.reported@[p - self.start_port]
    }

    /// Whether every launched probe has reported: only then may the
    /// collected results be drained.
    pub open spec fn complete(self) -> bool {
        forall|i: int| 0 <= i < self.reported@.len() ==> self.reported@[i]
    }

    /// The open ports collected so far, in arrival order.
    pub open spec fn collected(self) -> Seq<u16> {
        self.open@
    }

    /// Starts a scan of the request's range: no probe has reported and
    /// nothing has been collected.
    pub fn new(req: &ScanRequest) -> (s: ScanSession)
        requires
            req.wf(),
        ensures
            s.wf(),
            s.start_port == req.start_port,
            s.end_port == req.end_port,
            s.collected() == Seq::<u16>::empty(),
            forall|i: int| 0 <= i < s.reported@.len() ==> !s.reported@[i],
            req.range_len() == 0 ==> s.complete(),
            req.range_len() > 0 ==> !s.complete(),
    {
        let mut reported: Vec<bool> = Vec::new();
        let n: usize = range_len_exec(req.start_port, req.end_port);
        while reported.len() < n
            invariant
                reported@.len() <= n,
                forall|i: int| 0 <= i < reported@.len() ==> !reported@[i],
            decreases n - reported@.len(),
        {
            reported.push(false);
        }
        let s = ScanSession {
            start_port: req.start_port,
            end_port: req.end_port,
            reported,
            open: Vec::new(),
        };
        assert(s.collected() =~= Seq::<u16>::empty());
        assert(req.range_len() > 0 ==> !s.reported@[0]);
        s
    }

    /// The first port of the session's range.
    pub fn start_port(&self) -> (r: u16)
        ensures
            r == self.start_port,
    {
        self.start_port
    }

    /// The exclusive upper bound of the session's range.
    pub fn end_port(&self) -> (r: u16)
        ensures
            r == self.end_port,
    {
        self.end_port
    }

    /// Whether `port`'s probe has not yet reported. The driver checks this
    /// before recording an outcome.
    pub fn is_pending(&self, port: u16) -> (r: bool)
        requires
            self.wf(),
            self.in_range(port),
        ensures
            r == !self.port_reported(port),
    {
        let idx: usize = (port - self.start_port) as usize;
        !self.reported[idx]
    }

    /// Records the outcome of `port`'s probe. An open port joins the
    /// collection; a closed one leaves it unchanged — a failed probe is
    /// never an error and never ends the scan. Each probe reports exactly
    /// once, so the port must still be pending.
    pub fn record_outcome(&mut self, port: u16, is_open: bool)
        requires
            old(self).wf(),
            old(self).in_range(port),
            !old(self).port_reported(port),
        ensures
            final(self).wf(),
            final(self).start_port == old(self).start_port,
            final(self).end_port == old(self).end_port,
            final(self).reported@ == old(self).reported@.update(
                port - old(self).start_port,
                true,
            ),
            final(self).port_reported(port),
            forall|q: u16|
                old(self).in_range(q) && q != port ==> final(self).port_reported(q)
                    == old(self).port_reported(q),
            final(self).collected() == (if is_open {
                old(self).collected().push(port)
            } else {
                old(self).collected()
            }),
    {
        let idx: usize = (port - self.start_port) as usize;
        self.reported.set(idx, true);
        if is_open {
            self.open.push(port);
        }
    }

    /// Whether every launched probe has reported its outcome.
    pub fn is_complete(&self) -> (r: bool)
        requires
            self.wf(),
        ensures
            r == self.complete(),
    {
        let mut i: usize = 0;
        while i < self.reported.len()
            invariant
                0 <= i <= self.reported@.len(),
                forall|j: int| 0 <= j < i ==> self.reported@[j],
            decreases self.reported@.len() - i,
        {
            if !self.reported[i] {
                return false;
            }
            i = i + 1;
        }
        true
    }

    /// Drains the finished scan into its report: the collected open ports,
    /// each exactly once, in strictly ascending order. This ordering is the
    /// scan's sole determinism guarantee — whatever order the probes
    /// reported in, the report depends only on which ports were open.
    pub fn finish(&self) -> (r: Vec<u16>)
        requires
            self.wf(),
            self.complete(),
        ensures
            strictly_ascending(r@),
            r@.no_duplicates(),
            forall|q: u16| r@.contains(q) <==> self.collected().contains(q),
            r@.len() == self.collected().len(),
    {
        let mut out: Vec<u16> = Vec::new();
        let mut p: u16 = self.start_port;
        if self.start_port >= self.end_port {
            proof {
                assert(self.open@.len() == 0) by {
                    if self.open@.len() > 0 {
                        assert(self.start_port <= self.open@[0] < self.end_port);
                    }
                }
                assert(forall|q: u16| !self.collected().contains(q));
            }
            return out;
        }
        while p < self.end_port
            invariant
                self.wf(),
                self.start_port <= p <= self.end_port,
                strictly_ascending(out@),
                forall|i: int| 0 <= i < out@.len() ==> #[trigger] out@[i] < p,
                forall|q: u16|
                    out@.contains(q) <==> (self.collected().contains(q) && q < p),
            decreases self.end_port - p,
        {
            let ghost prev = out@;
            if contains_port(&self.open, p) {
                out.push(p);
                proof {
                    assert(out@ == prev.push(p));
                    assert forall|q: u16| out@.contains(q) implies (self.collected().contains(q)
                        && q < p + 1) by {
                        let k = choose|k: int| 0 <= k < out@.len() && out@[k] == q;
                        if k < prev.len() {
                            assert(prev.contains(q));
                        }
                    }
                    assert forall|q: u16| self.collected().contains(q) && q < p + 1 implies out@
                        .contains(q) by {
                        if q < p {
                            assert(prev.contains(q));
                            let k = choose|k: int| 0 <= k < prev.len() && prev[k] == q;
                            assert(out@[k] == q);
                        } else {
                            assert(out@[prev.len() as int] == p);
                        }
                    }
                }
            } else {
                proof {
                    assert forall|q: u16| self.collected().contains(q) && q < p + 1 implies out@
                        .contains(q) by {
                        if q == p {
                            assert(self.open@.contains(p));
                        }
                    }
                }
            }
            p = p + 1;
        }
        proof {
            assert forall|q: u16| self.collected().contains(q) implies out@.contains(q) by {
                let k = choose|k: int| 0 <= k < self.open@.len() && self.open@[k] == q;
                assert(self.start_port <= self.open@[k] < self.end_port);
            }
            lemma_same_elements_same_len(out@, self.collected());
        }
        out
    }
}

/// The length of the half-open range `[start, end)`, zero when degenerate.
fn range_len_exec(start: u16, end: u16) -> (r: usize)
    ensures
        r == (if start < end {
            end - start
        } else {
            0
        }),
{
    if start < end {
        (end - start) as usize
    } else {
        0
    }
}

/// Whether `ports` holds `p`.
fn contains_port(ports: &Vec<u16>, p: u16) -> (r: bool)
    ensures
        r == ports@.contains(p),
{
    let mut i: usize = 0;
    while i < ports.len()
        invariant
            0 <= i <= ports@.len(),
            forall|j: int| 0 <= j < i ==> ports@[j] != p,
        decreases ports@.len() - i,
    {
        if ports[i] == p {
            return true;
        }
        i = i + 1;
    }
    false
}

/// The exclusive upper bound of the range is never among the probed ports:
/// a listener sitting exactly on `end_port` can never appear in a report.
pub proof fn lemma_end_port_not_probed(req: ScanRequest)
    ensures
        !probe_ports(req).contains(req.end_port),
{
    if probe_ports(req).contains(req.end_port) {
        let k = choose|k: int|
            0 <= k < probe_ports(req).len() && probe_ports(req)[k] == req.end_port;
        assert(req.start_port + k < req.end_port);
    }
}

/// A degenerate range probes nothing: when the start of the range is not
/// below its end, no port is listed for probing.
pub proof fn lemma_degenerate_range_probes_nothing(req: ScanRequest)
    requires
        req.start_port >= req.end_port,
    ensures
        probe_ports(req) == Seq::<u16>::empty(),
{
    assert(probe_ports(req) =~= Seq::<u16>::empty());
}

/// Strictly ascending sequences are determined by their members: two of
/// them that contain the same values are equal.
pub proof fn lemma_ascending_unique(a: Seq<u16>, b: Seq<u16>)
    requires
        strictly_ascending(a),
        strictly_ascending(b),
        forall|q: u16| a.contains(q) <==> b.contains(q),
    ensures
        a == b,
    decreases a.len(),
{
    if a.len() == 0 {
        if b.len() > 0 {
            assert(b.contains(b[0]));
        }
        assert(a =~= b);
    } else {
        assert(a.contains(a[0]));
        let kb = choose|k: int| 0 <= k < b.len() && b[k] == a[0];
        assert(b.contains(b[0]));
        let ka = choose|k: int| 0 <= k < a.len() && a[k] == b[0];
        assert(a[0] <= a[ka]);
        assert(b[0] <= b[kb]);
        assert(a[0] == b[0]);
        let a1 = a.drop_first();
        let b1 = b.drop_first();
        assert forall|q: u16| a1.contains(q) implies b1.contains(q) by {
            let k = choose|k: int| 0 <= k < a1.len() && a1[k] == q;
            assert(a[k + 1] == q);
            assert(a.contains(q));
            let m = choose|m: int| 0 <= m < b.len() && b[m] == q;
            assert(a[0] < q);
            assert(m != 0);
            assert(b1[m - 1] == q);
        }
        assert forall|q: u16| b1.contains(q) implies a1.contains(q) by {
            let k = choose|k: int| 0 <= k < b1.len() && b1[k] == q;
            assert(b[k + 1] == q);
            assert(b.contains(q));
            let m = choose|m: int| 0 <= m < a.len() && a[m] == q;
            assert(b[0] < q);
            assert(m != 0);
            assert(a1[m - 1] == q);
        }
        assert(strictly_ascending(a1));
        assert(strictly_ascending(b1));
        lemma_ascending_unique(a1, b1);
        assert(a.len() == b.len());
        assert forall|i: int| 0 <= i < a.len() implies a[i] == b[i] by {
            if i > 0 {
                assert(a1[i - 1] == b1[i - 1]);
            }
        }
        assert(a =~= b);
    }
}

/// The scan's determinism and idempotence: two finished scans whose probes
/// found the same set of open ports — in whatever arrival order, under
/// whatever interleaving — produce identical reports, as long as each
/// report is the ascending enumeration of what its scan collected (which
/// is exactly what `ScanSession::finish` ensures).
pub proof fn lemma_report_deterministic(
    s1: ScanSession,
    s2: ScanSession,
    r1: Seq<u16>,
    r2: Seq<u16>,
)
    requires
        strictly_ascending(r1),
        strictly_ascending(r2),
        forall|q: u16| r1.contains(q) <==> s1.collected().contains(q),
        forall|q: u16| r2.contains(q) <==> s2.collected().contains(q),
        forall|q: u16| s1.collected().contains(q) <==> s2.collected().contains(q),
    ensures
        r1 == r2,
{
    lemma_ascending_unique(r1, r2);
}

/// Two sequences of distinct elements with the same members have the same
/// length.
proof fn lemma_same_elements_same_len(a: Seq<u16>, b: Seq<u16>)
    requires
        forall|i: int, j: int| 0 <= i < j < a.len() ==> a[i] != a[j],
        forall|i: int, j: int| 0 <= i < j < b.len() ==> b[i] != b[j],
        forall|q: u16| a.contains(q) <==> b.contains(q),
    ensures
        a.len() == b.len(),
{
    a.unique_seq_to_set();
    b.unique_seq_to_set();
    assert(a.to_set() =~= b.to_set());
}

} // verus!

