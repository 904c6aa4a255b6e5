//! Choosing the ports to scan.

use std::collections::HashSet;
use vstd::prelude::*;

use crate::lists::lemma_filter_members;
use crate::options::Opts;

verus! {

broadcast use vstd::std_specs::hash::group_hash_axioms;

/// Whether the user excluded a port.
pub open spec fn is_excluded(opts: Opts, port: u16) -> bool {
    opts.exclude_ports matches Some(excluded) && excluded@.contains(port)
}

/// The ports to scan: `ordered`, in its order, without those that the user
/// excluded.
pub fn build_ports(opts: &Opts, ordered: Vec<u16>) -> (ports: Vec<u16>)
    ensures
        ports@ == ordered@.filter(|port: u16| !is_excluded(*opts, port)),
        match opts.exclude_ports {
            Some(excluded) => ports@ == ordered@.filter(|port: u16| !excluded@.contains(port)),
            None => ports@ == ordered@,
        },
{
    match &opts.exclude_ports {
        None => {
            proof {
                lemma_filter_keeps_all(ordered@, |port: u16| !is_excluded(*opts, port));
            }
            ordered
        },
        Some(excluded) => {
            let set = port_set(excluded);
            let ghost kept = |port: u16| !is_excluded(*opts, port);
            let mut ports: Vec<u16> = Vec::new();
            let mut i: usize = 0;
            proof {
                reveal(Seq::filter);
                assert(ordered@.take(0).filter(kept) =~= Seq::empty());
            }
            while i < ordered.len()
                invariant
                    i <= ordered.len(),
                    opts.exclude_ports == Some(*excluded),
                    set@ == excluded@.to_set(),
                    kept == (|port: u16| !is_excluded(*opts, port)),
                    ports@ == ordered@.take(i as int).filter(kept),
                decreases ordered.len() - i,
            {
                proof {
                    reveal(Seq::filter);
                    assert(ordered@.take(i + 1).drop_last() =~= ordered@.take(i as int));
                    assert(set@.contains(ordered@[i as int]) == excluded@.contains(
                        ordered@[i as int],
                    ));
                }
                if !set.contains(&ordered[i]) {
                    ports.push(ordered[i]);
                }
                i += 1;
            }
            assert(ordered@.take(i as int) =~= ordered@);
            assert(kept =~= (|port: u16| !excluded@.contains(port)));
            ports
        },
    }
}

/// The ports of a list as a set.
fn port_set(ports: &Vec<u16>) -> (set: HashSet<u16>)
    ensures
        set@ == ports@.to_set(),
{
    let mut set: HashSet<u16> = HashSet::new();
    let mut i: usize = 0;
    assert(ports@.take(0).to_set() =~= Set::empty());
    while i < ports.len()
        invariant
            i <= ports.len(),
            set@ == ports@.take(i as int).to_set(),
        decreases ports.len() - i,
    {
        set.insert(ports[i]);
        assert(ports@.take(i + 1) =~= ports@.take(i as int).push(ports@[i as int]));
        assert(set@ =~= ports@.take(i + 1).to_set()) by {
            broadcast use vstd::seq_lib::group_seq_properties;

        }
        i += 1;
    }
    assert(ports@.take(i as int) =~= ports@);
    set
}

proof fn lemma_filter_keeps_all(ports: Seq<u16>, kept: spec_fn(u16) -> bool)
    requires
        forall|port: u16| #[trigger] kept(port),
    ensures
        ports.filter(kept) == ports,
    decreases ports.len(),
{
    reveal(Seq::filter);
    if ports.len() > 0 {
        lemma_filter_keeps_all(ports.drop_last(), kept);
        assert(ports.drop_last().push(ports.last()) =~= ports);
    } else {
        assert(ports.filter(kept) =~= ports);
    }
}

/// A port is scanned exactly if it was among the candidates and is not excluded.
pub proof fn lemma_scanned_ports(opts: Opts, ordered: Seq<u16>, port: u16)
    ensures
        ordered.filter(|p: u16| !is_excluded(opts, p)).contains(port) <==> ordered.contains(port)
            && !is_excluded(opts, port),
{
    lemma_filter_members(ordered, |p: u16| !is_excluded(opts, p), port);
}

/// No excluded port is scanned, every other candidate is, and nothing else is.
pub proof fn lemma_no_excluded_port_is_scanned(opts: Opts, ordered: Vec<u16>, ports: Vec<u16>)
    requires
        call_ensures(build_ports, (&opts, ordered), ports),
    ensures
        opts.exclude_ports matches Some(excluded) ==> {
            &&& forall|i: int|
                0 <= i < ports@.len() ==> !excluded@.contains(#[trigger] ports@[i])
            &&& forall|i: int|
                0 <= i < ordered@.len() && !excluded@.contains(#[trigger] ordered@[i])
                    ==> ports@.contains(ordered@[i])
        },
        forall|i: int| 0 <= i < ports@.len() ==> ordered@.contains(#[trigger] ports@[i]),
        opts.exclude_ports is None ==> ports@ == ordered@,
{
    if let Some(excluded) = opts.exclude_ports {
        let kept = |port: u16| !excluded@.contains(port);
        assert forall|i: int| 0 <= i < ports@.len() implies !excluded@.contains(
            #[trigger] ports@[i],
        ) && ordered@.contains(ports@[i]) by {
            lemma_filter_members(ordered@, kept, ports@[i]);
        }
        assert forall|i: int|
            0 <= i < ordered@.len() && !excluded@.contains(
                #[trigger] ordered@[i],
            ) implies ports@.contains(ordered@[i]) by {
            lemma_filter_members(ordered@, kept, ordered@[i]);
        }
    }
}

/// How two calls relate whose candidates differ by one port at the end: that
/// port is scanned last, unless it is excluded, and the other ports are the
/// same.
pub proof fn lemma_one_more_candidate(
    opts: Opts,
    few: Vec<u16>,
    more: Vec<u16>,
    port: u16,
    before: Vec<u16>,
    after: Vec<u16>,
)
    requires
        call_ensures(build_ports, (&opts, few), before),
        call_ensures(build_ports, (&opts, more), after),
        more@ == few@.push(port),
    ensures
        few@.len() == 0 ==> before@.len() == 0,
        after@ == if opts.exclude_ports matches Some(excluded) && excluded@.contains(port) {
            before@
        } else {
            before@.push(port)
        },
{
    reveal(Seq::filter);
    assert(more@.drop_last() =~= few@);
    assert(more@.last() == port);
}

} // verus!
