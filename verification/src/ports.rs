//! Open ports: what the attempts to connect to a host show.
use vstd::prelude::*;
use crate::order::{ascends, lemma_ascends_unique};

verus! {

/// Seconds after which an attempt to connect counts as failed.
pub const CONNECT_TIMEOUT_SECS: u64 = 3;

/// The ports that are probed on every host, in ascending order.
pub open spec fn port_candidates() -> Seq<u16> {
    seq![80u16, 443u16]
}

/// Whether the ports stand in strictly ascending order, which rules out
/// duplicates.
pub open spec fn increasing(ports: Seq<u16>) -> bool {
    forall|i: int, j: int| 0 <= i < j < ports.len() ==> #[trigger] ports[i] < #[trigger] ports[j]
}

/// The ports that are probed on every host, in ascending order.
pub fn candidate_ports() -> (ports: Vec<u16>)
    ensures
        ports@ == port_candidates(),
        increasing(ports@),
{
    let ports: Vec<u16> = vec![80, 443];
    assert(ports@ =~= port_candidates());
    ports
}

/// Whether an attempt to connect to `port` succeeded.
pub open spec fn connected(attempts: Seq<(u16, bool)>, port: u16) -> bool {
    attempts.contains((port, true))
}

/// The open ports that the attempts show: the candidate ports to which an
/// attempt to connect succeeded, in ascending order.
pub open spec fn open_port_list(attempts: Seq<(u16, bool)>) -> Seq<u16> {
    port_candidates().filter(|port: u16| connected(attempts, port))
}

/// What is kept of an ascending sequence is ascending, and holds exactly the
/// members that meet the condition.
pub proof fn lemma_filter_increasing(ports: Seq<u16>, keep: spec_fn(u16) -> bool)
    requires
        increasing(ports),
    ensures
        increasing(ports.filter(keep)),
        forall|p: u16|
            #![trigger ports.filter(keep).contains(p)]
            #![trigger ports.contains(p)]
            ports.filter(keep).contains(p) <==> (ports.contains(p) && keep(p)),
    decreases ports.len(),
{
    reveal(Seq::filter);
    let kept = ports.filter(keep);
    if ports.len() > 0 {
        let head = ports.drop_last();
        let last = ports.last();
        lemma_filter_increasing(head, keep);
        let kept_head = head.filter(keep);
        assert forall|p: u16| kept.contains(p) <==> (ports.contains(p) && keep(p)) by {
            if kept.contains(p) {
                let k = choose|k: int| 0 <= k < kept.len() && kept[k] == p;
                if k < kept_head.len() {
                    assert(kept_head[k] == p);
                    assert(kept_head.contains(p));
                    let m = choose|m: int| 0 <= m < head.len() && head[m] == p;
                    assert(ports[m] == p);
                } else {
                    assert(ports[ports.len() - 1] == p);
                }
            }
            if ports.contains(p) && keep(p) {
                let m = choose|m: int| 0 <= m < ports.len() && ports[m] == p;
                if m < head.len() {
                    assert(head[m] == p);
                    assert(head.contains(p));
                    let k = choose|k: int| 0 <= k < kept_head.len() && kept_head[k] == p;
                    assert(kept[k] == p);
                } else {
                    assert(kept[kept.len() - 1] == p);
                }
            }
        }
        assert forall|i: int, j: int| 0 <= i < j < kept.len() implies kept[i] < kept[j] by {
            if j < kept_head.len() {
                assert(kept_head[i] < kept_head[j]);
            } else {
                assert(kept[j] == last);
                assert(kept_head[i] == kept[i]);
                assert(kept_head.contains(kept_head[i]));
                let m = choose|m: int| 0 <= m < head.len() && head[m] == kept[i];
                assert(ports[m] < ports[ports.len() - 1]);
            }
        }
    } else {
        assert forall|p: u16| kept.contains(p) <==> (ports.contains(p) && keep(p)) by {
            if kept.contains(p) {
                let k = choose|k: int| 0 <= k < kept.len() && kept[k] == p;
            }
            if ports.contains(p) {
                let m = choose|m: int| 0 <= m < ports.len() && ports[m] == p;
            }
        }
    }
}

/// The list of open ports is strictly ascending, and holds exactly the
/// candidate ports to which an attempt to connect succeeded.
pub proof fn lemma_open_port_list(attempts: Seq<(u16, bool)>)
    ensures
        increasing(open_port_list(attempts)),
        forall|p: u16|
            open_port_list(attempts).contains(p) <==> (port_candidates().contains(p) && connected(
                attempts,
                p,
            )),
{
    lemma_filter_increasing(port_candidates(), |port: u16| connected(attempts, port));
}

/// Two ascending sequences of ports with the same members are the same
/// sequence.
pub proof fn lemma_increasing_unique(a: Seq<u16>, b: Seq<u16>)
    requires
        increasing(a),
        increasing(b),
        forall|p: u16| a.contains(p) <==> b.contains(p),
    ensures
        a == b,
{
    let before = |x: u16, y: u16| x < y;
    assert(ascends(a, before));
    assert(ascends(b, before));
    lemma_ascends_unique(a, b, before);
}

/// Probing is repeatable: two rounds of attempts that found the same
/// candidate ports open give the same list, in whatever order the attempts
/// came back.
pub proof fn lemma_probe_repeatable(first: Seq<(u16, bool)>, second: Seq<(u16, bool)>)
    requires
        forall|p: u16|
            port_candidates().contains(p) ==> (connected(first, p) <==> connected(second, p)),
    ensures
        open_port_list(first) == open_port_list(second),
{
    lemma_open_port_list(first);
    lemma_open_port_list(second);
    lemma_increasing_unique(open_port_list(first), open_port_list(second));
}

/// Whether an attempt to connect to `port` succeeded.
fn has_connected(attempts: &Vec<(u16, bool)>, port: u16) -> (r: bool)
    ensures
        r == connected(attempts@, port),
{
    let mut i: usize = 0;
    while i < attempts.len()
        invariant
            i <= attempts.len(),
            forall|k: int| 0 <= k < i ==> attempts@[k] != (port, true),
        decreases attempts.len() - i,
    {
        if attempts[i].0 == port && attempts[i].1 {
            return true;
        }
        i += 1;
    }
    false
}

/// The open ports that the attempts show, each attempt being a port and
/// whether a connection to it was made: the candidate ports that answered, in
/// ascending order.
pub fn open_ports(attempts: &Vec<(u16, bool)>) -> (ports: Vec<u16>)
    ensures
        ports@ == open_port_list(attempts@),
        increasing(ports@),
        forall|p: u16|
            ports@.contains(p) <==> (port_candidates().contains(p) && connected(attempts@, p)),
{
    let candidates = candidate_ports();
    let ghost keep = |port: u16| connected(attempts@, port);
    let mut ports: Vec<u16> = Vec::new();
    let mut i: usize = 0;
    proof {
        reveal(Seq::filter);
        assert(candidates@.take(0) =~= Seq::<u16>::empty());
    }
    while i < candidates.len()
        invariant
            i <= candidates.len(),
            candidates@ == port_candidates(),
            keep == |port: u16| connected(attempts@, port),
            ports@ == candidates@.take(i as int).filter(keep),
        decreases candidates.len() - i,
    {
        proof {
            reveal(Seq::filter);
            assert(candidates@.take(i as int + 1).drop_last() =~= candidates@.take(i as int));
        }
        if has_connected(attempts, candidates[i]) {
            ports.push(candidates[i]);
        }
        i += 1;
    }
    proof {
        assert(candidates@.take(candidates.len() as int) =~= candidates@);
        lemma_open_port_list(attempts@);
    }
    ports
}

} // verus!
