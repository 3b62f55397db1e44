//! Choice of the media port that serves a session.
use vstd::prelude::*;
use vstd::relations::{sorted_by, total_ordering};

verus! {

broadcast use vstd::seq_lib::group_to_multiset_ensures;

/// Ascending order of ports.
pub open spec fn port_leq() -> spec_fn(u16, u16) -> bool {
    |a: u16, b: u16| a <= b
}

/// The ports in ascending order.
pub open spec fn sorted_ports(ports: Seq<u16>) -> Seq<u16> {
    ports.sort_by(port_leq())
}

/// The position, among the sorted ports, of the port that serves
/// `session_id`: the session id (as a machine word) modulo the port count.
pub open spec fn port_slot(session_id: u64, n: nat) -> int {
    (session_id as usize) as int % (n as int)
}

proof fn lemma_port_leq_total()
    ensures
        total_ordering(port_leq()),
{
}

/// The ports sorted ascending.
fn sort_ports(ports: &[u16]) -> (r: Vec<u16>)
    ensures
        r@ == sorted_ports(ports@),
{
    let mut out: Vec<u16> = Vec::new();
    let n = ports.len();
    proof {
        assert(ports@.take(0) =~= Seq::<u16>::empty());
    }
    for i in 0..n
        invariant
            n == ports@.len(),
            sorted_by(out@, port_leq()),
            out@.to_multiset() == ports@.take(i as int).to_multiset(),
            out@.len() == i,
    {
        let x = ports[i];
        // First position holding a larger port.
        let mut pos: usize = 0;
        while pos < out.len() && out[pos] <= x
            invariant
                pos <= out@.len(),
                forall|j: int| 0 <= j < pos ==> out@[j] <= x,
            decreases out@.len() - pos,
        {
            pos = pos + 1;
        }
        let ghost before = out@;
        out.insert(pos, x);
        proof {
            assert(out@ == before.insert(pos as int, x));
            assert(sorted_by(out@, port_leq())) by {
                assert forall|a: int, b: int| 0 <= a < b < out@.len() implies #[trigger] port_leq()(
                    out@[a],
                    out@[b],
                ) by {
                    if b < pos {
                        assert(port_leq()(before[a], before[b]));
                    } else if b == pos {
                        assert(out@[a] == before[a]);
                    } else if a < pos {
                        assert(out@[a] <= x);
                        if pos < before.len() {
                            assert(before[pos as int] > x);
                            assert(port_leq()(before[pos as int], before[b - 1]) || pos as int
                                == b - 1);
                        }
                    } else if a == pos {
                        assert(before[pos as int] > x);
                        assert(port_leq()(before[pos as int], before[b - 1]) || pos as int == b
                            - 1);
                    } else {
                        assert(port_leq()(before[a - 1], before[b - 1]));
                    }
                }
            }
            assert(ports@.take(i + 1) =~= ports@.take(i as int).push(x));
        }
    }
    proof {
        assert(ports@.take(n as int) =~= ports@);
        lemma_port_leq_total();
        ports@.lemma_sort_by_ensures(port_leq());
        vstd::seq_lib::lemma_sorted_unique(out@, sorted_ports(ports@), port_leq());
    }
    out
}

/// The media port that serves `session_id`: the ports sorted ascending, and
/// the one at the session id modulo their count. `None` when there are no
/// ports.
pub fn select_media_port(ports: &[u16], session_id: u64) -> (r: Option<u16>)
    ensures
        ports@.len() == 0 ==> r is None,
        ports@.len() > 0 ==> r == Some(
            sorted_ports(ports@)[port_slot(session_id, ports@.len())],
        ),
{
    if ports.len() == 0 {
        return None;
    }
    let sorted = sort_ports(ports);
    proof {
        lemma_port_leq_total();
        ports@.lemma_sort_by_ensures(port_leq());
        assert(sorted@.to_multiset().len() == ports@.to_multiset().len());
    }
    let slot = (#[verifier::truncate] (session_id as usize)) % sorted.len();
    Some(sorted[slot])
}

/// Every session is served by one of the listed ports, whatever its id, and
/// sessions whose ids agree modulo the port count (as machine words) are
/// served by the same port.
pub proof fn lemma_selected_port_is_listed(ports: Seq<u16>, session_id: u64, other_id: u64)
    requires
        ports.len() > 0,
    ensures
        0 <= port_slot(session_id, ports.len()) < ports.len(),
        sorted_ports(ports).len() == ports.len(),
        ports.contains(sorted_ports(ports)[port_slot(session_id, ports.len())]),
        port_slot(session_id, ports.len()) == port_slot(other_id, ports.len()) ==> sorted_ports(
            ports,
        )[port_slot(session_id, ports.len())] == sorted_ports(ports)[port_slot(
            other_id,
            ports.len(),
        )],
{
    lemma_port_leq_total();
    ports.lemma_sort_by_ensures(port_leq());
    let s = sorted_ports(ports);
    assert(s.to_multiset().len() == ports.to_multiset().len());
    let k = port_slot(session_id, ports.len());
    assert(s.contains(s[k]));
    assert(s.to_multiset().count(s[k]) > 0);
    assert(ports.to_multiset().count(s[k]) > 0);
}

/// The port that serves a session is the sorted ports' entry at the full
/// session id modulo the port count: for every id a machine word holds (every
/// `u64` id on a 64-bit target), nothing of it is cut off. The sorted ports
/// are the given ports in ascending order.
pub proof fn lemma_port_slot_is_id_mod_count(ports: Seq<u16>, session_id: u64)
    requires
        ports.len() > 0,
        session_id <= usize::MAX,
    ensures
        port_slot(session_id, ports.len()) == session_id as int % ports.len() as int,
        sorted_ports(ports).len() == ports.len(),
        sorted_ports(ports).to_multiset() == ports.to_multiset(),
        forall|i: int, j: int|
            0 <= i <= j < ports.len() ==> #[trigger] sorted_ports(ports)[i] <= #[trigger] sorted_ports(
                ports,
            )[j],
{
    lemma_port_leq_total();
    ports.lemma_sort_by_ensures(port_leq());
    let s = sorted_ports(ports);
    assert(s.to_multiset().len() == ports.to_multiset().len());
    assert forall|i: int, j: int| 0 <= i <= j < ports.len() implies #[trigger] s[i] <= #[trigger] s[j] by {
        if i < j {
            assert(port_leq()(s[i], s[j]));
        }
    }
}

} // verus!
