//! One scan from the first resolved address to the last open port.
//!
//! A session is a state machine. It asks for addresses, asks for them to be
//! scanned, gathers what is open, and says when to report and when to give up.

use vstd::prelude::*;

use crate::address::IpAddress;
use crate::address::SocketAddress;
use crate::lists::lemma_filter_members;
use crate::notice::notice_texts;
use crate::notice::Notice;
use crate::notice::NoticeText;
use crate::open_ports::lemma_hosts_of_sockets;
use crate::open_ports::lemma_ports_of_host;
use crate::open_ports::lemma_recorded_hosts;
use crate::open_ports::lemma_recorded_in_portions;
use crate::open_ports::lists_hosts;
use crate::open_ports::recorded;
use crate::open_ports::HostPorts;
use crate::open_ports::OpenPorts;
use crate::options::Opts;
use crate::progress::wrapped_sum;
use crate::text::decimal;
use crate::text::push_decimal;

verus! {

/// A portion of a streamed scan holds at least this many addresses.
pub const MIN_IPS_PER_CHUNK: usize = 256;

/// A portion of a streamed scan holds at most this many addresses.
pub const MAX_IPS_PER_CHUNK: usize = 100_000;

/// The number of ports to divide by: there is always something to divide by.
pub open spec fn port_divisor(port_count: nat) -> nat {
    if port_count == 0 {
        1
    } else {
        port_count
    }
}

/// How many addresses a portion of a streamed scan holds: as many as it takes
/// to fill a batch of sockets, within the bounds.
pub open spec fn chunk_size(batch_size: nat, port_count: nat) -> nat {
    let ports = port_divisor(port_count);
    let filling = (batch_size + ports - 1) as nat / ports;
    if filling < MIN_IPS_PER_CHUNK {
        MIN_IPS_PER_CHUNK as nat
    } else if filling > MAX_IPS_PER_CHUNK {
        MAX_IPS_PER_CHUNK as nat
    } else {
        filling
    }
}

/// How many addresses to resolve and scan at a time in a streamed scan.
pub fn ips_per_chunk(batch_size: usize, port_count: usize) -> (count: usize)
    requires
        batch_size + port_divisor(port_count as nat) <= usize::MAX,
    ensures
        count == chunk_size(batch_size as nat, port_count as nat),
        MIN_IPS_PER_CHUNK <= count <= MAX_IPS_PER_CHUNK,
{
    let ports: usize = if port_count == 0 {
        1
    } else {
        port_count
    };
    let filling: usize = (batch_size + ports - 1) / ports;
    if filling < MIN_IPS_PER_CHUNK {
        MIN_IPS_PER_CHUNK
    } else if filling > MAX_IPS_PER_CHUNK {
        MAX_IPS_PER_CHUNK
    } else {
        filling
    }
}

/// A portion fills a batch of sockets unless the upper bound stops it, and no
/// portion above the lower bound is larger than it takes.
pub proof fn lemma_chunk_fills_batch(batch_size: nat, port_count: nat)
    ensures
        chunk_size(batch_size, port_count) < MAX_IPS_PER_CHUNK ==> chunk_size(
            batch_size,
            port_count,
        ) * port_divisor(port_count) >= batch_size,
        chunk_size(batch_size, port_count) > MIN_IPS_PER_CHUNK ==> (chunk_size(
            batch_size,
            port_count,
        ) - 1) * port_divisor(port_count) < batch_size,
{
    let ports = port_divisor(port_count);
    let filling = (batch_size + ports - 1) as nat / ports;
    let chunk = chunk_size(batch_size, port_count);
    assert(filling * ports >= batch_size && (filling - 1) * ports < batch_size) by (nonlinear_arith)
        requires
            ports >= 1,
            filling == (batch_size + ports - 1) as nat / ports,
    ;
    if chunk >= filling {
        assert(chunk * ports >= filling * ports) by (nonlinear_arith)
            requires
                chunk >= filling,
        ;
    }
    if chunk <= filling {
        assert((chunk - 1) * ports <= (filling - 1) * ports) by (nonlinear_arith)
            requires
                chunk <= filling,
                ports >= 1,
        ;
    }
}

/// What a session waits for.
#[derive(Clone, Copy, Debug, PartialEq, Eq, Structural)]
pub enum Phase {
    /// Addresses.
    Resolving,
    /// The outcome of a scan.
    Scanning,
    /// Nothing: the scan is over and can be reported.
    Reporting,
    /// Nothing: there was no address to scan.
    Aborted,
}

/// What is to be done next.
#[derive(Clone, Copy, Debug, PartialEq, Eq, Structural)]
pub enum Action {
    /// Resolve all targets.
    ResolveAll,
    /// Resolve this many further addresses, fewer only if there are no more.
    ResolveNext(usize),
    /// Scan the addresses that were just resolved.
    Scan,
    /// Report what is open.
    Report,
    /// Give up, with a failure.
    Abort,
}

/// Something that has happened.
#[derive(Debug)]
pub enum Event {
    /// These addresses were resolved.
    Resolved(Vec<IpAddress>),
    /// A scan found these sockets open, in this order.
    Scanned(Vec<SocketAddress>),
}

/// What follows from an event.
#[derive(Debug)]
pub struct Step {
    /// What is to be done next.
    pub action: Action,
    /// How many addresses are added to those that will have been scanned.
    pub resolved_ips: u64,
    /// How many hosts have shown their first open port.
    pub open_ips: u64,
}

/// What a session knows.
pub struct SessionState {
    pub stream: bool,
    pub chunk: usize,
    pub phase: Phase,
    /// The addresses of a scan that is not streamed.
    pub targets: Seq<IpAddress>,
    /// The number of addresses of a streamed scan so far.
    pub streamed: nat,
    pub open: Map<IpAddress, Seq<u16>>,
}

impl SessionState {
    /// A session before anything has happened.
    pub open spec fn initial(stream: bool, chunk: usize) -> SessionState {
        SessionState {
            stream,
            chunk,
            phase: Phase::Resolving,
            targets: Seq::empty(),
            streamed: 0,
            open: Map::empty(),
        }
    }

    /// What is to be done in this state.
    pub open spec fn action(self) -> Action {
        match self.phase {
            Phase::Resolving => if self.stream {
                Action::ResolveNext(self.chunk)
            } else {
                Action::ResolveAll
            },
            Phase::Scanning => Action::Scan,
            Phase::Reporting => Action::Report,
            Phase::Aborted => Action::Abort,
        }
    }

    /// The state once these addresses were resolved.
    ///
    /// Running out of addresses ends a streamed scan. A scan without a single
    /// address is given up.
    pub open spec fn after_resolved(self, ips: Seq<IpAddress>) -> SessionState {
        if ips.len() == 0 {
            SessionState {
                phase: if self.stream && self.streamed > 0 {
                    Phase::Reporting
                } else {
                    Phase::Aborted
                },
                ..self
            }
        } else if self.stream {
            SessionState { phase: Phase::Scanning, streamed: self.streamed + ips.len(), ..self }
        } else {
            SessionState { phase: Phase::Scanning, targets: ips, ..self }
        }
    }

    /// The state once a scan found these sockets open.
    pub open spec fn after_scanned(self, sockets: Seq<SocketAddress>) -> SessionState {
        SessionState {
            phase: if self.stream {
                Phase::Resolving
            } else {
                Phase::Reporting
            },
            open: recorded(self.open, sockets),
            ..self
        }
    }

    /// The state after an event.
    pub open spec fn after(self, event: Event) -> SessionState {
        match event {
            Event::Resolved(ips) => self.after_resolved(ips@),
            Event::Scanned(sockets) => self.after_scanned(sockets@),
        }
    }

    /// Whether the event is one that the session waits for.
    pub open spec fn expects(self, event: Event) -> bool {
        match event {
            Event::Resolved(_) => self.phase == Phase::Resolving,
            Event::Scanned(_) => self.phase == Phase::Scanning,
        }
    }

    /// The state of a streamed scan after rounds of resolving and scanning.
    pub open spec fn after_rounds(
        self,
        rounds: Seq<(Seq<IpAddress>, Seq<SocketAddress>)>,
    ) -> SessionState
        decreases rounds.len(),
    {
        if rounds.len() == 0 {
            self
        } else {
            self.after_rounds(rounds.drop_last()).after_resolved(rounds.last().0).after_scanned(
                rounds.last().1,
            )
        }
    }
}

/// The addresses of all rounds, one round after the other.
pub open spec fn all_addresses(rounds: Seq<(Seq<IpAddress>, Seq<SocketAddress>)>) -> Seq<IpAddress>
    decreases rounds.len(),
{
    if rounds.len() == 0 {
        Seq::empty()
    } else {
        all_addresses(rounds.drop_last()) + rounds.last().0
    }
}

/// The open sockets of all rounds, one round after the other.
pub open spec fn all_sockets(
    rounds: Seq<(Seq<IpAddress>, Seq<SocketAddress>)>,
) -> Seq<SocketAddress>
    decreases rounds.len(),
{
    if rounds.len() == 0 {
        Seq::empty()
    } else {
        all_sockets(rounds.drop_last()) + rounds.last().1
    }
}

/// Whether every round had an address.
pub open spec fn rounds_with_addresses(
    rounds: Seq<(Seq<IpAddress>, Seq<SocketAddress>)>,
) -> bool {
    forall|i: int| 0 <= i < rounds.len() ==> (#[trigger] rounds[i]).0.len() > 0
}

/// After any number of rounds a streamed scan waits for more addresses, has
/// counted every address, and knows every open socket.
pub proof fn lemma_streamed_rounds(
    chunk: usize,
    rounds: Seq<(Seq<IpAddress>, Seq<SocketAddress>)>,
)
    requires
        rounds_with_addresses(rounds),
    ensures
        SessionState::initial(true, chunk).after_rounds(rounds) == (SessionState {
            streamed: all_addresses(rounds).len(),
            open: recorded(Map::empty(), all_sockets(rounds)),
            ..SessionState::initial(true, chunk)
        }),
    decreases rounds.len(),
{
    let none = Map::<IpAddress, Seq<u16>>::empty();
    if rounds.len() == 0 {
        assert(recorded(none, Seq::empty()) =~= none);
    } else {
        let earlier = rounds.drop_last();
        assert(rounds_with_addresses(earlier)) by {
            assert forall|i: int| 0 <= i < earlier.len() implies (#[trigger] earlier[i]).0.len()
                > 0 by {
                assert(rounds[i].0.len() > 0);
            }
        }
        lemma_streamed_rounds(chunk, earlier);
        assert(rounds[rounds.len() - 1].0.len() > 0);
        lemma_recorded_in_portions(none, all_sockets(earlier), rounds.last().1);
    }
}

/// Scanning in portions finds what scanning at once finds: when a streamed scan
/// runs out of addresses it reports the same open ports as a scan that got all
/// its addresses, and found all its open sockets, in one go.
pub proof fn lemma_stream_agrees_with_batch(
    chunk: usize,
    rounds: Seq<(Seq<IpAddress>, Seq<SocketAddress>)>,
)
    requires
        rounds_with_addresses(rounds),
    ensures
        ({
            let streamed = SessionState::initial(true, chunk).after_rounds(rounds).after_resolved(
                Seq::empty(),
            );
            let resolved = SessionState::initial(false, chunk).after_resolved(
                all_addresses(rounds),
            );
            let at_once = resolved.after_scanned(all_sockets(rounds));
            if rounds.len() == 0 {
                streamed.action() == Action::Abort && resolved.action() == Action::Abort
            } else {
                &&& resolved.action() == Action::Scan
                &&& streamed.action() == Action::Report
                &&& at_once.action() == Action::Report
                &&& streamed.open == at_once.open
                &&& streamed.streamed == at_once.targets.len()
            }
        }),
{
    lemma_streamed_rounds(chunk, rounds);
    if rounds.len() > 0 {
        assert(rounds[rounds.len() - 1].0.len() > 0);
    }
}

/// The counter of hosts with an open port, where every round of a streamed scan
/// adds the hosts that it was the first to find something open on.
pub open spec fn counted_open_ips(
    chunk: usize,
    rounds: Seq<(Seq<IpAddress>, Seq<SocketAddress>)>,
) -> u64
    decreases rounds.len(),
{
    if rounds.len() == 0 {
        0
    } else {
        let earlier = rounds.drop_last();
        let start = SessionState::initial(true, chunk);
        wrapped_sum(
            counted_open_ips(chunk, earlier),
            (start.after_rounds(rounds).open.dom().len() - start.after_rounds(
                earlier,
            ).open.dom().len()) as u64,
        )
    }
}

/// The counter of hosts with an open port is the number of hosts that will be
/// reported, as long as the open sockets fit a counter.
pub proof fn lemma_open_ips_count_hosts(
    chunk: usize,
    rounds: Seq<(Seq<IpAddress>, Seq<SocketAddress>)>,
)
    requires
        rounds_with_addresses(rounds),
        all_sockets(rounds).len() <= u64::MAX,
    ensures
        counted_open_ips(chunk, rounds) == SessionState::initial(true, chunk).after_rounds(
            rounds,
        ).open.dom().len(),
    decreases rounds.len(),
{
    let none = Map::<IpAddress, Seq<u16>>::empty();
    lemma_streamed_rounds(chunk, rounds);
    lemma_recorded_hosts(none, all_sockets(rounds));
    if rounds.len() > 0 {
        let earlier = rounds.drop_last();
        assert(rounds_with_addresses(earlier)) by {
            assert forall|i: int| 0 <= i < earlier.len() implies (#[trigger] earlier[i]).0.len()
                > 0 by {
                assert(rounds[i].0.len() > 0);
            }
        }
        lemma_streamed_rounds(chunk, earlier);
        lemma_recorded_hosts(none, all_sockets(earlier));
        lemma_recorded_in_portions(none, all_sockets(earlier), rounds.last().1);
        lemma_recorded_hosts(recorded(none, all_sockets(earlier)), rounds.last().1);
        lemma_open_ips_count_hosts(chunk, earlier);
    }
}

/// Those of `targets` that are not among the hosts of `open`, in their order.
pub open spec fn silent(
    targets: Seq<IpAddress>,
    open: Map<IpAddress, Seq<u16>>,
) -> Seq<IpAddress> {
    targets.filter(|ip: IpAddress| !open.contains_key(ip))
}

/// A host that was scanned either has an open port or is silent, never both.
pub proof fn lemma_targets_accounted_for(
    targets: Seq<IpAddress>,
    open: Map<IpAddress, Seq<u16>>,
    ip: IpAddress,
)
    requires
        targets.contains(ip),
    ensures
        silent(targets, open).contains(ip) <==> !open.contains_key(ip),
{
    lemma_filter_members(targets, |ip: IpAddress| !open.contains_key(ip), ip);
}

/// A scan under way.
#[derive(Debug)]
pub struct Session {
    stream: bool,
    chunk: usize,
    phase: Phase,
    targets: Vec<IpAddress>,
    streamed: u64,
    open: OpenPorts,
}

impl View for Session {
    type V = SessionState;

    closed spec fn view(&self) -> SessionState {
        SessionState {
            stream: self.stream,
            chunk: self.chunk,
            phase: self.phase,
            targets: self.targets@,
            streamed: self.streamed as nat,
            open: self.open@,
        }
    }
}

impl Session {
    /// Starts a scan of `port_count` ports per address.
    pub fn new(opts: &Opts, batch_size: usize, port_count: usize) -> (session: Session)
        requires
            opts.stream ==> batch_size + port_divisor(port_count as nat) <= usize::MAX,
        ensures
            session@ == SessionState::initial(opts.stream, session@.chunk),
            session@.chunk == if opts.stream {
                chunk_size(batch_size as nat, port_count as nat)
            } else {
                0
            },
    {
        let chunk: usize = if opts.stream {
            ips_per_chunk(batch_size, port_count)
        } else {
            0
        };
        let session = Session {
            stream: opts.stream,
            chunk,
            phase: Phase::Resolving,
            targets: Vec::new(),
            streamed: 0,
            open: OpenPorts::new(),
        };
        assert(session@.targets =~= Seq::empty());
        session
    }

    /// What is to be done now.
    pub fn action(&self) -> (action: Action)
        ensures
            action == self@.action(),
    {
        match self.phase {
            Phase::Resolving => if self.stream {
                Action::ResolveNext(self.chunk)
            } else {
                Action::ResolveAll
            },
            Phase::Scanning => Action::Scan,
            Phase::Reporting => Action::Report,
            Phase::Aborted => Action::Abort,
        }
    }

    /// Takes in what has happened, and says what is to be done next.
    pub fn step(&mut self, event: Event) -> (step: Step)
        requires
            old(self)@.expects(event),
            event matches Event::Resolved(ips) ==> old(self)@.stream ==> old(self)@.streamed
                + ips@.len() <= u64::MAX,
        ensures
            final(self)@ == old(self)@.after(event),
            step.action == final(self)@.action(),
            match event {
                Event::Resolved(ips) => step.resolved_ips == ips@.len() && step.open_ips == 0,
                Event::Scanned(_) => step.resolved_ips == 0 && step.open_ips
                    == final(self)@.open.dom().len() - old(self)@.open.dom().len(),
            },
    {
        let mut resolved_ips: u64 = 0;
        let mut open_ips: u64 = 0;
        match event {
            Event::Resolved(ips) => {
                resolved_ips = ips.len() as u64;
                if ips.len() == 0 {
                    self.phase = if self.stream && self.streamed > 0 {
                        Phase::Reporting
                    } else {
                        Phase::Aborted
                    };
                } else {
                    self.phase = Phase::Scanning;
                    if self.stream {
                        self.streamed = self.streamed + resolved_ips;
                    } else {
                        self.targets = ips;
                    }
                }
            },
            Event::Scanned(sockets) => {
                open_ips = self.open.record_all(&sockets);
                self.phase = if self.stream {
                    Phase::Resolving
                } else {
                    Phase::Reporting
                };
            },
        }
        Step { action: self.action(), resolved_ips, open_ips }
    }

    /// How many addresses a streamed scan has taken in.
    pub fn streamed(&self) -> (count: u64)
        ensures
            count == self@.streamed,
    {
        self.streamed
    }

    /// The hosts with their open ports, in no particular order.
    pub fn hosts(&self) -> (hosts: Vec<HostPorts>)
        ensures
            lists_hosts(self@.open, hosts@),
    {
        self.open.hosts()
    }

    /// The addresses, of a scan that is not streamed, without an open port.
    pub fn silent_targets(&self) -> (ips: Vec<IpAddress>)
        ensures
            ips@ == silent(self@.targets, self@.open),
            ips@ == self@.targets.filter(|ip: IpAddress| !self@.open.contains_key(ip)),
    {
        let mut ips: Vec<IpAddress> = Vec::new();
        let mut i: usize = 0;
        let ghost open = self.open@;
        let ghost unknown = |ip: IpAddress| !open.contains_key(ip);
        proof {
            reveal(Seq::filter);
            assert(self.targets@.take(0).filter(unknown) =~= Seq::empty());
        }
        while i < self.targets.len()
            invariant
                i <= self.targets.len(),
                open == self.open@,
                unknown == (|ip: IpAddress| !open.contains_key(ip)),
                ips@ == self.targets@.take(i as int).filter(unknown),
            decreases self.targets.len() - i,
        {
            let ip = self.targets[i];
            proof {
                reveal(Seq::filter);
                assert(self.targets@.take(i + 1).drop_last() =~= self.targets@.take(i as int));
            }
            if !self.open.contains(ip) {
                ips.push(ip);
            }
            i += 1;
        }
        assert(self.targets@.take(i as int) =~= self.targets@);
        assert(unknown =~= (|ip: IpAddress| !self@.open.contains_key(ip)));
        ips
    }
}

/// What to do about a scan that found no open port.
pub open spec fn advice_text(batch_size: nat) -> Seq<char> {
    " This is usually caused by a high batch size.\n        \n*I used "@ + decimal(batch_size)
        + " batch size, consider lowering it with 'rustscan -b <batch_size> -a <ip address>' or a comfortable number for your system.\n        \n Alternatively, increase the timeout if your ping is high. Rustscan -t 2000 for 2000 milliseconds (2s) timeout.\n"@
}

/// The text of the warning about a host without an open port.
pub open spec fn silent_host_text(ip: Seq<char>, batch_size: nat) -> Seq<char> {
    "Looks like I didn't find any open ports for "@ + ip + "."@ + advice_text(batch_size)
}

/// The text of the warning about a streamed scan without an open port.
pub open spec fn silent_stream_text(batch_size: nat) -> Seq<char> {
    "Looks like I didn't find any open ports."@ + advice_text(batch_size)
}

/// The text that sums up a streamed scan.
pub open spec fn stream_summary_text(streamed: nat, hosts: nat) -> Seq<char> {
    "Stream mode scanned "@ + decimal(streamed) + " IPs; found open ports on "@ + decimal(hosts)
        + " IPs."@
}

/// What to do about a scan that found no open port.
fn advice(batch_size: usize) -> (text: String)
    ensures
        text@ == advice_text(batch_size as nat),
{
    let mut text =
        " This is usually caused by a high batch size.\n        \n*I used ".to_owned();
    push_decimal(&mut text, batch_size as u128);
    text.append(
        " batch size, consider lowering it with 'rustscan -b <batch_size> -a <ip address>' or a comfortable number for your system.\n        \n Alternatively, increase the timeout if your ping is high. Rustscan -t 2000 for 2000 milliseconds (2s) timeout.\n",
    );
    text
}

/// The warning about a host, written `ip`, without an open port.
pub fn silent_host_notice(ip: &str, opts: &Opts) -> (notice: Notice)
    ensures
        notice@ == NoticeText::Warning(silent_host_text(ip@, opts.batch_size as nat)),
{
    let mut text = "Looks like I didn't find any open ports for ".to_owned();
    text.append(ip);
    text.append(".");
    text.append(advice(opts.batch_size).as_str());
    Notice::Warning(text)
}

/// The warning that there is nothing to scan.
pub fn no_addresses_notice() -> (notice: Notice)
    ensures
        notice@ == NoticeText::Warning("No IPs could be resolved, aborting scan."@),
{
    Notice::Warning("No IPs could be resolved, aborting scan.".to_owned())
}

/// What there is to say once a scan is over: a streamed scan is summed up, and
/// if it found nothing open, a warning follows.
pub open spec fn closing_texts(state: SessionState, batch_size: nat) -> Seq<NoticeText> {
    if !state.stream {
        Seq::empty()
    } else {
        let summary = NoticeText::Detail(
            stream_summary_text(state.streamed, state.open.dom().len()),
        );
        if state.open.dom().len() == 0 {
            seq![summary, NoticeText::Warning(silent_stream_text(batch_size))]
        } else {
            seq![summary]
        }
    }
}

/// The notices that close a scan.
pub fn closing_notices(session: &Session, opts: &Opts) -> (notices: Vec<Notice>)
    ensures
        notice_texts(notices@) == closing_texts(session@, opts.batch_size as nat),
{
    let mut notices: Vec<Notice> = Vec::new();
    if session.stream {
        let hosts: u128 = session.open.host_count();
        let mut summary = "Stream mode scanned ".to_owned();
        push_decimal(&mut summary, session.streamed as u128);
        summary.append(" IPs; found open ports on ");
        push_decimal(&mut summary, hosts);
        summary.append(" IPs.");
        notices.push(Notice::Detail(summary));
        if hosts == 0 {
            let mut text = "Looks like I didn't find any open ports.".to_owned();
            text.append(advice(opts.batch_size).as_str());
            notices.push(Notice::Warning(text));
        }
    }
    assert(notice_texts(notices@) =~= closing_texts(session@, opts.batch_size as nat));
    notices
}

/// How many addresses are resolved at a time: from 256 to 100000, enough to fill
/// a batch of sockets unless that takes more than 100000, and no more than it
/// takes unless that is less than 256.
pub proof fn lemma_portions_fill_a_batch(batch_size: nat, port_count: nat)
    ensures
        256 <= chunk_size(batch_size, port_count) <= 100_000,
        chunk_size(batch_size, port_count) < 100_000 ==> chunk_size(batch_size, port_count) * (
        if port_count == 0 {
            1
        } else {
            port_count
        }) >= batch_size,
        chunk_size(batch_size, port_count) > 256 ==> (chunk_size(batch_size, port_count) - 1) * (
        if port_count == 0 {
            1
        } else {
            port_count
        }) < batch_size,
{
    lemma_chunk_fills_batch(batch_size, port_count);
}

/// The same of what `ips_per_chunk` returns.
pub proof fn lemma_ips_per_chunk_fills_a_batch(batch_size: usize, port_count: usize, count: usize)
    requires
        call_ensures(ips_per_chunk, (batch_size, port_count), count),
    ensures
        256 <= count <= 100_000,
        count < 100_000 ==> count * (if port_count == 0 {
            1
        } else {
            port_count as int
        }) >= batch_size,
        count > 256 ==> (count - 1) * (if port_count == 0 {
            1
        } else {
            port_count as int
        }) < batch_size,
{
    lemma_portions_fill_a_batch(batch_size as nat, port_count as nat);
}

/// A new session knows nothing and waits for addresses. A streamed one asks for
/// a portion that fills a batch, any other for all of them.
pub proof fn lemma_session_starts_empty(
    opts: Opts,
    batch_size: usize,
    port_count: usize,
    session: Session,
    action: Action,
)
    requires
        call_ensures(Session::new, (&opts, batch_size, port_count), session),
        call_ensures(Session::action, (&session,), action),
    ensures
        session@.stream == opts.stream,
        session@.phase == Phase::Resolving,
        session@.targets.len() == 0,
        session@.streamed == 0,
        forall|ip: IpAddress| !#[trigger] session@.open.contains_key(ip),
        opts.stream ==> action == Action::ResolveNext(
            chunk_size(batch_size as nat, port_count as nat) as usize,
        ),
        !opts.stream ==> action == Action::ResolveAll,
{
    lemma_portions_fill_a_batch(batch_size as nat, port_count as nat);
}

/// What is done in which phase.
pub proof fn lemma_action_of_phase(state: SessionState)
    ensures
        state.phase == Phase::Resolving && state.stream <==> state.action() is ResolveNext,
        state.phase == Phase::Resolving && state.stream ==> state.action() == Action::ResolveNext(
            state.chunk,
        ),
        state.phase == Phase::Resolving && !state.stream <==> state.action() == Action::ResolveAll,
        state.phase == Phase::Scanning <==> state.action() == Action::Scan,
        state.phase == Phase::Reporting <==> state.action() == Action::Report,
        state.phase == Phase::Aborted <==> state.action() == Action::Abort,
{
}

/// Which events a session waits for.
pub proof fn lemma_expected_events(
    state: SessionState,
    ips: Vec<IpAddress>,
    sockets: Vec<SocketAddress>,
)
    ensures
        state.expects(Event::Resolved(ips)) <==> state.phase == Phase::Resolving,
        state.expects(Event::Scanned(sockets)) <==> state.phase == Phase::Scanning,
{
}

/// Resolved addresses change nothing about the open ports. They are scanned, and
/// either counted or kept. Without any, a streamed scan that had some before is
/// over, and every other scan is given up.
pub proof fn lemma_resolving(state: SessionState, ips: Vec<IpAddress>)
    ensures
        ({
            let after = state.after(Event::Resolved(ips));
            &&& after.stream == state.stream
            &&& after.chunk == state.chunk
            &&& after.open == state.open
            &&& after.streamed == state.streamed + (if state.stream {
                ips@.len()
            } else {
                0
            })
            &&& ips@.len() > 0 ==> after.action() == Action::Scan
            &&& ips@.len() == 0 ==> (after.action() == Action::Report <==> state.stream
                && state.streamed > 0)
            &&& ips@.len() == 0 ==> (after.action() == Action::Abort <==> !(state.stream
                && state.streamed > 0))
            &&& !state.stream && ips@.len() > 0 ==> after.targets == ips@
            &&& state.stream || ips@.len() == 0 ==> after.targets == state.targets
        }),
{
}

/// The outcome of a scan changes nothing about the addresses. Every host has the
/// ports that it had, followed by those that were found open on it, in their
/// order. A streamed scan goes on, any other is over.
pub proof fn lemma_scanning(state: SessionState, sockets: Vec<SocketAddress>, ip: IpAddress)
    ensures
        ({
            let after = state.after(Event::Scanned(sockets));
            &&& after.stream == state.stream
            &&& after.chunk == state.chunk
            &&& after.streamed == state.streamed
            &&& after.targets == state.targets
            &&& state.stream ==> after.action() == Action::ResolveNext(state.chunk)
            &&& !state.stream ==> after.action() == Action::Report
            &&& after.open.contains_key(ip) <==> state.open.contains_key(ip) || exists|i: int|
                0 <= i < sockets@.len() && (#[trigger] sockets@[i]).ip == ip
            &&& after.open.contains_key(ip) ==> after.open[ip] == (if state.open.contains_key(ip) {
                state.open[ip]
            } else {
                Seq::empty()
            }) + sockets@.filter(|socket: SocketAddress| socket.ip == ip).map_values(
                |socket: SocketAddress| socket.port,
            )
        }),
{
    lemma_ports_of_host(state.open, sockets@, ip);
}

/// What a scan at once reports: each host with an open socket, once, with its
/// open ports in the order in which they were found, and every address without
/// one as silent.
pub proof fn lemma_report_of_scan_at_once(
    chunk: usize,
    ips: Vec<IpAddress>,
    sockets: Vec<SocketAddress>,
    hosts: Seq<HostPorts>,
)
    requires
        ips@.len() > 0,
        lists_hosts(
            SessionState::initial(false, chunk).after(Event::Resolved(ips)).after(
                Event::Scanned(sockets),
            ).open,
            hosts,
        ),
    ensures
        forall|k: int|
            0 <= k < hosts.len() ==> (#[trigger] hosts[k]).ports@ == sockets@.filter(
                |socket: SocketAddress| socket.ip == hosts[k].ip,
            ).map_values(|socket: SocketAddress| socket.port) && hosts[k].ports@.len() > 0,
        forall|i: int|
            0 <= i < sockets@.len() ==> exists|k: int|
                0 <= k < hosts.len() && (#[trigger] hosts[k]).ip == (#[trigger] sockets@[i]).ip
                    && hosts[k].ports@.contains(sockets@[i].port),
        forall|j: int, k: int|
            0 <= j < k < hosts.len() ==> (#[trigger] hosts[j]).ip != (#[trigger] hosts[k]).ip,
        ({
            let over = SessionState::initial(false, chunk).after(Event::Resolved(ips)).after(
                Event::Scanned(sockets),
            );
            silent(over.targets, over.open) == ips@.filter(
                |ip: IpAddress| forall|i: int|
                    0 <= i < sockets@.len() ==> (#[trigger] sockets@[i]).ip != ip,
            )
        }),
{
    lemma_hosts_of_sockets(sockets@, hosts);
    let none = Map::<IpAddress, Seq<u16>>::empty();
    let open = recorded(none, sockets@);
    let unknown = |ip: IpAddress| !open.contains_key(ip);
    let unseen = |ip: IpAddress|
        forall|i: int| 0 <= i < sockets@.len() ==> (#[trigger] sockets@[i]).ip != ip;
    assert forall|ip: IpAddress| #[trigger] unknown(ip) == unseen(ip) by {
        lemma_ports_of_host(none, sockets@, ip);
    }
    assert(unknown =~= unseen);
}

/// The addresses and the sockets of all rounds are those of the rounds, one
/// round after the other.
pub proof fn lemma_rounds_after_each_other(rounds: Seq<(Seq<IpAddress>, Seq<SocketAddress>)>)
    ensures
        all_addresses(rounds) == rounds.map_values(
            |round: (Seq<IpAddress>, Seq<SocketAddress>)| round.0,
        ).flatten(),
        all_sockets(rounds) == rounds.map_values(
            |round: (Seq<IpAddress>, Seq<SocketAddress>)| round.1,
        ).flatten(),
    decreases rounds.len(),
{
    let addresses = |round: (Seq<IpAddress>, Seq<SocketAddress>)| round.0;
    let sockets = |round: (Seq<IpAddress>, Seq<SocketAddress>)| round.1;
    if rounds.len() > 0 {
        let earlier = rounds.drop_last();
        lemma_rounds_after_each_other(earlier);
        assert(rounds.map_values(addresses) =~= earlier.map_values(addresses).push(
            rounds.last().0,
        ));
        assert(rounds.map_values(sockets) =~= earlier.map_values(sockets).push(rounds.last().1));
        earlier.map_values(addresses).lemma_flatten_push(rounds.last().0);
        earlier.map_values(sockets).lemma_flatten_push(rounds.last().1);
    }
}

/// The warning about a silent host names it, and the batch size that was wished
/// for.
pub proof fn lemma_silent_host_notice_names_host(ip: &str, opts: Opts, notice: Notice)
    requires
        call_ensures(silent_host_notice, (ip, &opts), notice),
    ensures
        notice matches Notice::Warning(text) && text@
            == "Looks like I didn't find any open ports for "@ + ip@ + "."@ + (" This is usually caused by a high batch size.\n        \n*I used "@ + decimal(
            opts.batch_size as nat,
        ) + " batch size, consider lowering it with 'rustscan -b <batch_size> -a <ip address>' or a comfortable number for your system.\n        \n Alternatively, increase the timeout if your ping is high. Rustscan -t 2000 for 2000 milliseconds (2s) timeout.\n"@),
{
}

/// A streamed scan is summed up with the number of its addresses and of the hosts
/// that are listed. If no host is listed, a warning follows. Any other scan
/// closes without a word.
pub proof fn lemma_closing_agrees_with_hosts(
    session: Session,
    opts: Opts,
    notices: Vec<Notice>,
    streamed: u64,
    hosts: Vec<HostPorts>,
)
    requires
        call_ensures(closing_notices, (&session, &opts), notices),
        call_ensures(Session::streamed, (&session,), streamed),
        call_ensures(Session::hosts, (&session,), hosts),
    ensures
        !session@.stream ==> notices@.len() == 0,
        session@.stream ==> notices@.len() == if hosts@.len() == 0 {
            2int
        } else {
            1
        },
        session@.stream ==> (notices@[0] matches Notice::Detail(text) && text@
            == "Stream mode scanned "@ + decimal(streamed as nat) + " IPs; found open ports on "@
            + decimal(hosts@.len()) + " IPs."@),
        session@.stream && hosts@.len() == 0 ==> (notices@[1] matches Notice::Warning(text) && text@
            == "Looks like I didn't find any open ports."@ + (" This is usually caused by a high batch size.\n        \n*I used "@ + decimal(
            opts.batch_size as nat,
        ) + " batch size, consider lowering it with 'rustscan -b <batch_size> -a <ip address>' or a comfortable number for your system.\n        \n Alternatively, increase the timeout if your ping is high. Rustscan -t 2000 for 2000 milliseconds (2s) timeout.\n"@)),
{
    let texts = notice_texts(notices@);
    assert(texts.len() == notices@.len());
    if session@.stream {
        assert(texts[0] == notices@[0]@);
        if hosts@.len() == 0 {
            assert(texts[1] == notices@[1]@);
        }
    }
}

/// What a streamed scan reports once it has run out of addresses: each host with
/// an open socket in any round, once, with its open ports in the order in which
/// they were found, and all addresses are counted.
pub proof fn lemma_report_of_streamed_scan(
    chunk: usize,
    rounds: Seq<(Seq<IpAddress>, Seq<SocketAddress>)>,
    hosts: Seq<HostPorts>,
)
    requires
        rounds.len() > 0,
        forall|i: int| 0 <= i < rounds.len() ==> (#[trigger] rounds[i]).0.len() > 0,
        lists_hosts(
            SessionState::initial(true, chunk).after_rounds(rounds).after_resolved(
                Seq::empty(),
            ).open,
            hosts,
        ),
    ensures
        ({
            let over = SessionState::initial(true, chunk).after_rounds(rounds).after_resolved(
                Seq::empty(),
            );
            let found = rounds.map_values(
                |round: (Seq<IpAddress>, Seq<SocketAddress>)| round.1,
            ).flatten();
            &&& over.action() == Action::Report
            &&& over.streamed == rounds.map_values(
                |round: (Seq<IpAddress>, Seq<SocketAddress>)| round.0,
            ).flatten().len()
            &&& forall|k: int|
                0 <= k < hosts.len() ==> (#[trigger] hosts[k]).ports@ == found.filter(
                    |socket: SocketAddress| socket.ip == hosts[k].ip,
                ).map_values(|socket: SocketAddress| socket.port) && hosts[k].ports@.len() > 0
            &&& forall|i: int|
                0 <= i < found.len() ==> exists|k: int|
                    0 <= k < hosts.len() && (#[trigger] hosts[k]).ip == (#[trigger] found[i]).ip
                        && hosts[k].ports@.contains(found[i].port)
            &&& forall|j: int, k: int|
                0 <= j < k < hosts.len() ==> (#[trigger] hosts[j]).ip != (#[trigger] hosts[k]).ip
        }),
{
    assert(rounds_with_addresses(rounds));
    lemma_streamed_rounds(chunk, rounds);
    lemma_rounds_after_each_other(rounds);
    lemma_hosts_of_sockets(all_sockets(rounds), hosts);
    assert(rounds[rounds.len() - 1].0.len() > 0);
}

/// A target is silent exactly if it is not among the hosts that are listed, and
/// only targets are.
pub proof fn lemma_silent_targets_are_not_listed(
    session: Session,
    hosts: Vec<HostPorts>,
    ips: Vec<IpAddress>,
    ip: IpAddress,
)
    requires
        call_ensures(Session::hosts, (&session,), hosts),
        call_ensures(Session::silent_targets, (&session,), ips),
    ensures
        ips@.contains(ip) <==> session@.targets.contains(ip) && !(exists|k: int|
            0 <= k < hosts@.len() && (#[trigger] hosts@[k]).ip == ip),
{
    assert(lists_hosts(session@.open, hosts@));
    lemma_filter_members(session@.targets, |ip: IpAddress| !session@.open.contains_key(ip), ip);
}

} // verus!
