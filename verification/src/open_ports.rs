//! Open ports, gathered by host.

use std::collections::hash_map::Entry;
use std::collections::HashMap;
use vstd::prelude::*;

use crate::address::IpAddress;
use crate::address::SocketAddress;

verus! {

broadcast use vstd::std_specs::hash::group_hash_axioms;

/// Whether one of `sockets` belongs to the host `ip`.
pub open spec fn has_host(sockets: Seq<SocketAddress>, ip: IpAddress) -> bool {
    exists|i: int| 0 <= i < sockets.len() && #[trigger] sockets[i].ip == ip
}

/// The ports of those of `sockets` that belong to the host `ip`, in their order.
pub open spec fn ports_of(sockets: Seq<SocketAddress>, ip: IpAddress) -> Seq<u16>
    decreases sockets.len(),
{
    if sockets.len() == 0 {
        Seq::empty()
    } else {
        let before = ports_of(sockets.drop_last(), ip);
        if sockets.last().ip == ip {
            before.push(sockets.last().port)
        } else {
            before
        }
    }
}

/// The ports noted for the host `ip`, none where the host is unknown.
pub open spec fn ports_at(open: Map<IpAddress, Seq<u16>>, ip: IpAddress) -> Seq<u16> {
    if open.contains_key(ip) {
        open[ip]
    } else {
        Seq::empty()
    }
}

/// `open` after `sockets` were found open too: every host of theirs is known,
/// and each host has its new ports behind those that it had.
pub open spec fn recorded(
    open: Map<IpAddress, Seq<u16>>,
    sockets: Seq<SocketAddress>,
) -> Map<IpAddress, Seq<u16>> {
    Map::new(
        |ip: IpAddress| open.contains_key(ip) || has_host(sockets, ip),
        |ip: IpAddress| ports_at(open, ip) + ports_of(sockets, ip),
    )
}

proof fn lemma_recorded_nothing(open: Map<IpAddress, Seq<u16>>)
    ensures
        recorded(open, Seq::empty()) == open,
{
    assert forall|ip: IpAddress| open.contains_key(ip) implies #[trigger] recorded(
        open,
        Seq::empty(),
    )[ip] == open[ip] by {
        assert(ports_at(open, ip) + ports_of(Seq::empty(), ip) =~= open[ip]);
    }
    assert(recorded(open, Seq::empty()) =~= open);
}

proof fn lemma_recorded_push(
    open: Map<IpAddress, Seq<u16>>,
    sockets: Seq<SocketAddress>,
    socket: SocketAddress,
)
    ensures
        recorded(open, sockets.push(socket)) == recorded(open, sockets).insert(
            socket.ip,
            ports_at(recorded(open, sockets), socket.ip).push(socket.port),
        ),
{
    let more = sockets.push(socket);
    assert(more.drop_last() =~= sockets);
    let before = recorded(open, sockets);
    let after = before.insert(socket.ip, ports_at(before, socket.ip).push(socket.port));
    assert forall|ip: IpAddress| has_host(more, ip) == (has_host(sockets, ip) || ip
        == socket.ip) by {
        if has_host(sockets, ip) {
            let i = choose|i: int| 0 <= i < sockets.len() && #[trigger] sockets[i].ip == ip;
            assert(more[i].ip == ip);
        }
        if ip == socket.ip {
            assert(more[sockets.len() as int].ip == ip);
        }
        if has_host(more, ip) {
            let i = choose|i: int| 0 <= i < more.len() && (#[trigger] more[i]).ip == ip;
            if i < sockets.len() {
                assert(sockets[i].ip == ip);
            }
        }
    }
    assert forall|ip: IpAddress| !has_host(sockets, ip) implies ports_of(sockets, ip) =~= Seq::<
        u16,
    >::empty() by {
        lemma_no_ports(sockets, ip);
    }
    assert forall|ip: IpAddress| after.contains_key(ip) implies #[trigger] recorded(open, more)[ip]
        == after[ip] by {
        if ip == socket.ip {
            assert(ports_at(open, ip) + ports_of(more, ip) =~= ports_at(before, ip).push(
                socket.port,
            ));
        }
    }
    assert(recorded(open, more) =~= after);
}

proof fn lemma_no_ports(sockets: Seq<SocketAddress>, ip: IpAddress)
    requires
        !has_host(sockets, ip),
    ensures
        ports_of(sockets, ip) == Seq::<u16>::empty(),
    decreases sockets.len(),
{
    if sockets.len() > 0 {
        assert(sockets[sockets.len() - 1].ip != ip);
        assert forall|i: int| 0 <= i < sockets.drop_last().len() implies (
        #[trigger] sockets.drop_last()[i]).ip != ip by {
            assert(sockets[i].ip != ip);
        }
        lemma_no_ports(sockets.drop_last(), ip);
    }
}

/// The ports of two lists of sockets after each other are the ports of the
/// first followed by those of the second.
proof fn lemma_ports_of_concat(a: Seq<SocketAddress>, b: Seq<SocketAddress>, ip: IpAddress)
    ensures
        ports_of(a + b, ip) == ports_of(a, ip) + ports_of(b, ip),
    decreases b.len(),
{
    if b.len() == 0 {
        assert(a + b =~= a);
        assert(ports_of(a, ip) + ports_of(b, ip) =~= ports_of(a, ip));
    } else {
        assert((a + b).drop_last() =~= a + b.drop_last());
        lemma_ports_of_concat(a, b.drop_last(), ip);
        assert(ports_of(a + b, ip) =~= ports_of(a, ip) + ports_of(b, ip));
    }
}

/// It makes no difference whether open sockets are recorded at once or in
/// portions.
pub proof fn lemma_recorded_in_portions(
    open: Map<IpAddress, Seq<u16>>,
    first: Seq<SocketAddress>,
    second: Seq<SocketAddress>,
)
    ensures
        recorded(recorded(open, first), second) == recorded(open, first + second),
{
    let all = first + second;
    assert forall|ip: IpAddress| has_host(all, ip) == (has_host(first, ip) || has_host(
        second,
        ip,
    )) by {
        if has_host(first, ip) {
            let i = choose|i: int| 0 <= i < first.len() && (#[trigger] first[i]).ip == ip;
            assert(all[i].ip == ip);
        }
        if has_host(second, ip) {
            let i = choose|i: int| 0 <= i < second.len() && (#[trigger] second[i]).ip == ip;
            assert(all[first.len() + i].ip == ip);
        }
        if has_host(all, ip) {
            let i = choose|i: int| 0 <= i < all.len() && (#[trigger] all[i]).ip == ip;
            if i < first.len() {
                assert(first[i].ip == ip);
            } else {
                assert(second[i - first.len()].ip == ip);
            }
        }
    }
    let one = recorded(open, all);
    let two = recorded(recorded(open, first), second);
    assert forall|ip: IpAddress| one.contains_key(ip) implies #[trigger] two[ip] == one[ip] by {
        lemma_ports_of_concat(first, second, ip);
        if !recorded(open, first).contains_key(ip) {
            lemma_no_ports(first, ip);
        }
        assert(two[ip] =~= one[ip]);
    }
    assert(two =~= one);
}

/// Recording sockets loses no host, and adds at most one host per socket.
pub proof fn lemma_recorded_hosts(open: Map<IpAddress, Seq<u16>>, sockets: Seq<SocketAddress>)
    requires
        open.dom().finite(),
    ensures
        recorded(open, sockets).dom().finite(),
        open.dom().subset_of(recorded(open, sockets).dom()),
        open.dom().len() <= recorded(open, sockets).dom().len() <= open.dom().len()
            + sockets.len(),
    decreases sockets.len(),
{
    if sockets.len() == 0 {
        assert(sockets =~= Seq::empty());
        lemma_recorded_nothing(open);
    } else {
        lemma_recorded_hosts(open, sockets.drop_last());
        lemma_recorded_push(open, sockets.drop_last(), sockets.last());
        assert(sockets =~= sockets.drop_last().push(sockets.last()));
    }
}

/// After recording, a host is known if it was before or if one of the sockets is
/// its own, and its ports are those it had, followed by the ports of its own
/// sockets, in their order.
pub proof fn lemma_ports_of_host(
    open: Map<IpAddress, Seq<u16>>,
    sockets: Seq<SocketAddress>,
    ip: IpAddress,
)
    ensures
        recorded(open, sockets).contains_key(ip) <==> open.contains_key(ip) || exists|i: int|
            0 <= i < sockets.len() && (#[trigger] sockets[i]).ip == ip,
        recorded(open, sockets).contains_key(ip) ==> recorded(open, sockets)[ip] == (
        if open.contains_key(ip) {
            open[ip]
        } else {
            Seq::empty()
        }) + sockets.filter(|socket: SocketAddress| socket.ip == ip).map_values(
            |socket: SocketAddress| socket.port,
        ),
{
    lemma_ports_are_filtered(sockets, ip);
}

proof fn lemma_ports_are_filtered(sockets: Seq<SocketAddress>, ip: IpAddress)
    ensures
        ports_of(sockets, ip) == sockets.filter(
            |socket: SocketAddress| socket.ip == ip,
        ).map_values(|socket: SocketAddress| socket.port),
    decreases sockets.len(),
{
    reveal(Seq::filter);
    if sockets.len() > 0 {
        lemma_ports_are_filtered(sockets.drop_last(), ip);
    }
    assert(ports_of(sockets, ip) =~= sockets.filter(
        |socket: SocketAddress| socket.ip == ip,
    ).map_values(|socket: SocketAddress| socket.port));
}

/// The positions in a list of the sockets of a host.
pub open spec fn positions_of(sockets: Seq<SocketAddress>, ip: IpAddress) -> Set<int> {
    Set::new(|i: int| 0 <= i < sockets.len() && sockets[i].ip == ip)
}

/// Of sockets recorded from nothing every one is listed under its host, and a
/// host has as many ports listed as there are sockets of it.
pub proof fn lemma_every_open_socket_is_listed(sockets: Seq<SocketAddress>, ip: IpAddress)
    ensures
        forall|i: int|
            0 <= i < sockets.len() && (#[trigger] sockets[i]).ip == ip ==> recorded(
                Map::empty(),
                sockets,
            ).contains_key(ip) && recorded(Map::empty(), sockets)[ip].contains(sockets[i].port),
        positions_of(sockets, ip).finite(),
        recorded(Map::empty(), sockets).contains_key(ip) <==> positions_of(sockets, ip).len() > 0,
        recorded(Map::empty(), sockets).contains_key(ip) ==> recorded(Map::empty(), sockets)[ip].len()
            == positions_of(sockets, ip).len(),
    decreases sockets.len(),
{
    let none = Map::<IpAddress, Seq<u16>>::empty();
    let now = recorded(none, sockets);
    let here = positions_of(sockets, ip);
    if sockets.len() == 0 {
        assert(sockets =~= Seq::empty());
        lemma_recorded_nothing(none);
        assert(here =~= Set::empty());
    } else {
        let rest = sockets.drop_last();
        let last = sockets.last();
        let before = recorded(none, rest);
        let there = positions_of(rest, ip);
        lemma_every_open_socket_is_listed(rest, ip);
        lemma_recorded_push(none, rest, last);
        assert(sockets =~= rest.push(last));
        if last.ip == ip {
            assert(here =~= there.insert(rest.len() as int));
            let listed = ports_at(before, ip);
            assert(now[ip] == listed.push(last.port));
            assert(now[ip][listed.len() as int] == last.port);
            assert forall|i: int| 0 <= i < sockets.len() && (
            #[trigger] sockets[i]).ip == ip implies now[ip].contains(sockets[i].port) by {
                if i < rest.len() {
                    assert(rest[i].ip == ip);
                    let k = choose|k: int| 0 <= k < listed.len() && listed[k] == rest[i].port;
                    assert(now[ip][k] == sockets[i].port);
                }
            }
        } else {
            assert(here =~= there);
            assert(now.contains_key(ip) == before.contains_key(ip));
            assert(now[ip] == before[ip]);
            assert forall|i: int| 0 <= i < sockets.len() && (
            #[trigger] sockets[i]).ip == ip implies now.contains_key(ip) && now[ip].contains(
                sockets[i].port,
            ) by {
                assert(rest[i].ip == ip);
            }
        }
    }
}

/// A host with its open ports.
#[derive(Debug)]
pub struct HostPorts {
    pub ip: IpAddress,
    pub ports: Vec<u16>,
}

/// Whether `hosts` lists each known host once, with its ports. The order of the
/// hosts is open.
pub open spec fn lists_hosts(open: Map<IpAddress, Seq<u16>>, hosts: Seq<HostPorts>) -> bool {
    &&& hosts.len() == open.dom().len()
    &&& forall|i: int|
        0 <= i < hosts.len() ==> open.contains_key((#[trigger] hosts[i]).ip) && open[hosts[i].ip]
            == hosts[i].ports@
    &&& forall|i: int, j: int|
        0 <= i < j < hosts.len() ==> (#[trigger] hosts[i]).ip != (#[trigger] hosts[j]).ip
    &&& forall|ip: IpAddress| #[trigger]
        open.contains_key(ip) ==> exists|i: int|
            0 <= i < hosts.len() && (#[trigger] hosts[i]).ip == ip
}

/// The open ports found so far, by host.
#[derive(Debug)]
pub struct OpenPorts {
    v4: HashMap<u32, Vec<u16>>,
    v6: HashMap<u128, Vec<u16>>,
}

impl View for OpenPorts {
    type V = Map<IpAddress, Seq<u16>>;

    closed spec fn view(&self) -> Map<IpAddress, Seq<u16>> {
        Map::new(
            |ip: IpAddress|
                match ip {
                    IpAddress::V4(a) => self.v4@.contains_key(a),
                    IpAddress::V6(a) => self.v6@.contains_key(a),
                },
            |ip: IpAddress|
                match ip {
                    IpAddress::V4(a) => self.v4@[a]@,
                    IpAddress::V6(a) => self.v6@[a]@,
                },
        )
    }
}

/// Adds a port to the list under `key`, and starts the list where there is none.
fn note_port<Key: Eq + std::hash::Hash>(
    lists: &mut HashMap<Key, Vec<u16>>,
    key: Key,
    port: u16,
) -> (started: bool)
    requires
        vstd::std_specs::hash::obeys_key_model::<Key>(),
    ensures
        started == !old(lists)@.contains_key(key),
        final(lists)@.dom() == old(lists)@.dom().insert(key),
        final(lists)@[key]@ == (if started {
            Seq::empty()
        } else {
            old(lists)@[key]@
        }).push(port),
        forall|other: Key| other != key ==> #[trigger] final(lists)@[other] == old(lists)@[other],
{
    match lists.entry(key) {
        Entry::Occupied(mut entry) => {
            entry.get_mut().push(port);
            false
        },
        Entry::Vacant(entry) => {
            entry.insert(vec![port]);
            true
        },
    }
}

/// A list of ports with the same ports.
fn copy_ports(ports: &Vec<u16>) -> (copy: Vec<u16>)
    ensures
        copy@ == ports@,
{
    let copy = ports.clone();
    assert(copy@ =~= ports@);
    copy
}

/// The keys of `lists` with what is listed under them, in no particular order.
fn entries<Key: Copy + Eq + std::hash::Hash>(lists: &HashMap<Key, Vec<u16>>) -> (entries: Vec<
    (Key, Vec<u16>),
>)
    requires
        vstd::std_specs::hash::obeys_key_model::<Key>(),
    ensures
        entries@.len() == lists@.dom().len(),
        forall|i: int|
            0 <= i < entries@.len() ==> lists@.contains_key((#[trigger] entries@[i]).0)
                && lists@[entries@[i].0]@ == entries@[i].1@,
        forall|i: int, j: int|
            0 <= i < j < entries@.len() ==> (#[trigger] entries@[i]).0 != (
            #[trigger] entries@[j]).0,
        forall|key: Key| #[trigger]
            lists@.contains_key(key) ==> exists|i: int|
                0 <= i < entries@.len() && (#[trigger] entries@[i]).0 == key,
{
    let mut entries: Vec<(Key, Vec<u16>)> = Vec::new();
    let walk = lists.iter();
    let ghost pairs = vstd::std_specs::iter::IteratorSpec::remaining(&walk);
    for pair in iter: walk
        invariant
            iter.seq() == pairs,
            entries@.len() == iter.index(),
            forall|i: int|
                0 <= i < entries@.len() ==> (#[trigger] entries@[i]).0 == *pairs[i].0
                    && entries@[i].1@ == pairs[i].1@,
    {
        let (key, ports) = pair;
        entries.push((*key, copy_ports(ports)));
    }
    proof {
        assert forall|i: int, j: int| 0 <= i < j < entries@.len() implies (
        #[trigger] entries@[i]).0 != (#[trigger] entries@[j]).0 by {
            assert(lists@[*pairs[i].0] == *pairs[i].1);
            assert(lists@[*pairs[j].0] == *pairs[j].1);
            assert(pairs[i] != pairs[j]);
        }
        assert forall|key: Key| #[trigger] lists@.contains_key(key) implies exists|i: int|
            0 <= i < entries@.len() && (#[trigger] entries@[i]).0 == key by {
            assert(pairs.contains((&key, &lists@[key])));
            let i = choose|i: int| 0 <= i < pairs.len() && pairs[i] == (&key, &lists@[key]);
            assert(entries@[i].0 == key);
        }
        assert forall|i: int| 0 <= i < entries@.len() implies lists@.contains_key(
            (#[trigger] entries@[i]).0,
        ) && lists@[entries@[i].0]@ == entries@[i].1@ by {
            assert(lists@.contains_key(*pairs[i].0));
        }
    }
    entries
}

impl OpenPorts {
    /// Nothing found yet.
    pub fn new() -> (open: OpenPorts)
        ensures
            open@ == Map::<IpAddress, Seq<u16>>::empty(),
    {
        let open = OpenPorts { v4: HashMap::new(), v6: HashMap::new() };
        assert(open@ =~= Map::<IpAddress, Seq<u16>>::empty());
        open
    }

    /// Whether an open port of the host is known.
    pub fn contains(&self, ip: IpAddress) -> (known: bool)
        ensures
            known == self@.contains_key(ip),
    {
        match ip {
            IpAddress::V4(a) => self.v4.contains_key(&a),
            IpAddress::V6(a) => self.v6.contains_key(&a),
        }
    }

    /// Notes an open socket. Tells whether its host was unknown before.
    pub fn record(&mut self, socket: SocketAddress) -> (new_host: bool)
        ensures
            final(self)@ == old(self)@.insert(
                socket.ip,
                ports_at(old(self)@, socket.ip).push(socket.port),
            ),
            final(self)@.contains_key(socket.ip),
            old(self)@.contains_key(socket.ip) ==> final(self)@[socket.ip] == old(
                self,
            )@[socket.ip].push(socket.port),
            !old(self)@.contains_key(socket.ip) ==> final(self)@[socket.ip] == seq![socket.port],
            forall|other: IpAddress|
                other != socket.ip ==> (#[trigger] final(self)@.contains_key(other) <==> old(
                    self,
                )@.contains_key(other)) && final(self)@[other] == old(self)@[other],
            new_host == !old(self)@.contains_key(socket.ip),
    {
        let port: u16 = socket.port;
        let ghost noted = ports_at(old(self)@, socket.ip);
        let new_host = match socket.ip {
            IpAddress::V4(a) => note_port(&mut self.v4, a, port),
            IpAddress::V6(a) => note_port(&mut self.v6, a, port),
        };
        assert(self@ =~= old(self)@.insert(socket.ip, noted.push(socket.port)));
        new_host
    }

    /// Notes open sockets in their order. Tells how many of their hosts were
    /// unknown before.
    pub fn record_all(&mut self, sockets: &Vec<SocketAddress>) -> (new_hosts: u64)
        ensures
            final(self)@ == recorded(old(self)@, sockets@),
            forall|ip: IpAddress| #[trigger]
                final(self)@.contains_key(ip) ==> final(self)@[ip] == (if old(self)@.contains_key(
                    ip,
                ) {
                    old(self)@[ip]
                } else {
                    Seq::empty()
                }) + sockets@.filter(|socket: SocketAddress| socket.ip == ip).map_values(
                    |socket: SocketAddress| socket.port,
                ),
            forall|ip: IpAddress| #[trigger]
                old(self)@.contains_key(ip) ==> final(self)@.contains_key(ip),
            forall|i: int|
                0 <= i < sockets@.len() ==> final(self)@.contains_key((#[trigger] sockets@[i]).ip),
            new_hosts == final(self)@.dom().len() - old(self)@.dom().len(),
    {
        let mut new_hosts: u64 = 0;
        let mut i: usize = 0;
        proof {
            lemma_recorded_nothing(old(self)@);
            assert(sockets@.take(0) =~= Seq::empty());
            self.lemma_finite();
        }
        while i < sockets.len()
            invariant
                i <= sockets.len(),
                self@ == recorded(old(self)@, sockets@.take(i as int)),
                new_hosts <= i,
                self@.dom().finite(),
                new_hosts == self@.dom().len() - old(self)@.dom().len(),
            decreases sockets.len() - i,
        {
            proof {
                lemma_recorded_push(old(self)@, sockets@.take(i as int), sockets@[i as int]);
                assert(sockets@.take(i + 1) =~= sockets@.take(i as int).push(sockets@[i as int]));
            }
            if self.record(sockets[i]) {
                new_hosts += 1;
            }
            i += 1;
        }
        assert(sockets@.take(i as int) =~= sockets@);
        proof {
            assert forall|ip: IpAddress| #[trigger] self@.contains_key(ip) implies self@[ip] == (
            if old(self)@.contains_key(ip) {
                old(self)@[ip]
            } else {
                Seq::empty()
            }) + sockets@.filter(|socket: SocketAddress| socket.ip == ip).map_values(
                |socket: SocketAddress| socket.port,
            ) by {
                lemma_ports_of_host(old(self)@, sockets@, ip);
            }
            assert forall|i: int| 0 <= i < sockets@.len() implies self@.contains_key(
                (#[trigger] sockets@[i]).ip,
            ) by {
                lemma_ports_of_host(old(self)@, sockets@, sockets@[i].ip);
            }
        }
        new_hosts
    }

    /// The domain of the view, put together from the two families.
    proof fn lemma_finite(&self)
        ensures
            self@.dom().finite(),
            self@.dom().len() == self.v4@.dom().len() + self.v6@.dom().len(),
    {
        let v4 = self.v4@.dom().map(|a: u32| IpAddress::V4(a));
        let v6 = self.v6@.dom().map(|a: u128| IpAddress::V6(a));
        vstd::set_lib::lemma_map_size(self.v4@.dom(), v4, |a: u32| IpAddress::V4(a));
        vstd::set_lib::lemma_map_size(self.v6@.dom(), v6, |a: u128| IpAddress::V6(a));
        self.v4@.dom().lemma_map_finite(|a: u32| IpAddress::V4(a));
        self.v6@.dom().lemma_map_finite(|a: u128| IpAddress::V6(a));
        assert(v4.disjoint(v6));
        vstd::set_lib::lemma_set_disjoint_lens(v4, v6);
        assert(self@.dom() =~= v4 + v6) by {
            assert forall|ip: IpAddress| #[trigger] self@.dom().contains(ip) implies (v4
                + v6).contains(ip) by {
                match ip {
                    IpAddress::V4(a) => {
                        assert(self.v4@.dom().contains(a));
                        assert(v4.contains(ip));
                    },
                    IpAddress::V6(a) => {
                        assert(self.v6@.dom().contains(a));
                        assert(v6.contains(ip));
                    },
                }
            }
        }
    }

    /// The number of hosts with an open port.
    pub fn host_count(&self) -> (count: u128)
        ensures
            count == self@.dom().len(),
    {
        proof {
            self.lemma_finite();
        }
        self.v4.len() as u128 + self.v6.len() as u128
    }

    /// The hosts with their open ports, in no particular order.
    pub fn hosts(&self) -> (hosts: Vec<HostPorts>)
        ensures
            lists_hosts(self@, hosts@),
    {
        let mut hosts: Vec<HostPorts> = Vec::new();
        let v4 = entries(&self.v4);
        let v6 = entries(&self.v6);
        let mut i: usize = 0;
        while i < v4.len()
            invariant
                i <= v4.len(),
                hosts@.len() == i,
                forall|k: int|
                    0 <= k < i ==> (#[trigger] hosts@[k]).ip == IpAddress::V4(v4@[k].0)
                        && hosts@[k].ports@ == v4@[k].1@,
            decreases v4.len() - i,
        {
            hosts.push(HostPorts { ip: IpAddress::V4(v4[i].0), ports: copy_ports(&v4[i].1) });
            i += 1;
        }
        let mut j: usize = 0;
        while j < v6.len()
            invariant
                j <= v6.len(),
                hosts@.len() == v4.len() + j,
                forall|k: int|
                    0 <= k < v4.len() ==> (#[trigger] hosts@[k]).ip == IpAddress::V4(v4@[k].0)
                        && hosts@[k].ports@ == v4@[k].1@,
                forall|k: int|
                    v4.len() <= k < v4.len() + j ==> (#[trigger] hosts@[k]).ip == IpAddress::V6(
                        v6@[k - v4.len()].0,
                    ) && hosts@[k].ports@ == v6@[k - v4.len()].1@,
            decreases v6.len() - j,
        {
            hosts.push(HostPorts { ip: IpAddress::V6(v6[j].0), ports: copy_ports(&v6[j].1) });
            j += 1;
        }
        proof {
            self.lemma_finite();
            assert forall|ip: IpAddress| #[trigger] self@.contains_key(ip) implies exists|k: int|
                0 <= k < hosts@.len() && (#[trigger] hosts@[k]).ip == ip by {
                match ip {
                    IpAddress::V4(a) => {
                        assert(self.v4@.contains_key(a));
                        let k = choose|k: int| 0 <= k < v4@.len() && (#[trigger] v4@[k]).0 == a;
                        assert(hosts@[k].ip == ip);
                    },
                    IpAddress::V6(a) => {
                        assert(self.v6@.contains_key(a));
                        let k = choose|k: int| 0 <= k < v6@.len() && (#[trigger] v6@[k]).0 == a;
                        assert(hosts@[v4.len() + k].ip == ip);
                    },
                }
            }
        }
        hosts
    }
}

/// A list of hosts that is made from open sockets shows each host of theirs
/// once, with the ports of its own sockets in their order, and nothing else.
pub proof fn lemma_hosts_of_sockets(sockets: Seq<SocketAddress>, hosts: Seq<HostPorts>)
    requires
        lists_hosts(recorded(Map::empty(), sockets), hosts),
    ensures
        forall|k: int|
            0 <= k < hosts.len() ==> (#[trigger] hosts[k]).ports@ == sockets.filter(
                |socket: SocketAddress| socket.ip == hosts[k].ip,
            ).map_values(|socket: SocketAddress| socket.port) && hosts[k].ports@.len() > 0,
        forall|i: int|
            0 <= i < sockets.len() ==> exists|k: int|
                0 <= k < hosts.len() && (#[trigger] hosts[k]).ip == (#[trigger] sockets[i]).ip
                    && hosts[k].ports@.contains(sockets[i].port),
        forall|j: int, k: int|
            0 <= j < k < hosts.len() ==> (#[trigger] hosts[j]).ip != (#[trigger] hosts[k]).ip,
{
    let open = recorded(Map::<IpAddress, Seq<u16>>::empty(), sockets);
    assert forall|k: int| 0 <= k < hosts.len() implies (#[trigger] hosts[k]).ports@
        == sockets.filter(|socket: SocketAddress| socket.ip == hosts[k].ip).map_values(
        |socket: SocketAddress| socket.port,
    ) && hosts[k].ports@.len() > 0 by {
        let ip = hosts[k].ip;
        lemma_ports_of_host(Map::empty(), sockets, ip);
        lemma_every_open_socket_is_listed(sockets, ip);
        assert(open.contains_key(ip));
        let own = sockets.filter(|socket: SocketAddress| socket.ip == ip).map_values(
            |socket: SocketAddress| socket.port,
        );
        assert(Seq::<u16>::empty() + own =~= own);
    }
    assert forall|i: int| 0 <= i < sockets.len() implies exists|k: int|
        0 <= k < hosts.len() && (#[trigger] hosts[k]).ip == (#[trigger] sockets[i]).ip
            && hosts[k].ports@.contains(sockets[i].port) by {
        let ip = sockets[i].ip;
        lemma_every_open_socket_is_listed(sockets, ip);
        assert(open.contains_key(ip));
        let k = choose|k: int| 0 <= k < hosts.len() && (#[trigger] hosts[k]).ip == ip;
        assert(hosts[k].ports@ == open[ip]);
    }
}

/// What the methods tell about the same open ports agrees: the hosts that are
/// listed are those that are known, and they are as many as are counted.
pub proof fn lemma_hosts_agree(
    open: OpenPorts,
    hosts: Vec<HostPorts>,
    count: u128,
    ip: IpAddress,
    known: bool,
)
    requires
        call_ensures(OpenPorts::hosts, (&open,), hosts),
        call_ensures(OpenPorts::host_count, (&open,), count),
        call_ensures(OpenPorts::contains, (&open, ip), known),
    ensures
        count == hosts@.len(),
        known <==> exists|k: int| 0 <= k < hosts@.len() && (#[trigger] hosts@[k]).ip == ip,
        forall|k: int|
            0 <= k < hosts@.len() && (#[trigger] hosts@[k]).ip == ip ==> hosts@[k].ports@
                == open@[ip],
        forall|j: int, k: int|
            0 <= j < k < hosts@.len() ==> (#[trigger] hosts@[j]).ip != (#[trigger] hosts@[k]).ip,
{
    assert(lists_hosts(open@, hosts@));
    assert(known == open@.contains_key(ip));
}

} // verus!
