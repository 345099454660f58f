//! The peer-to-peer backend as a state machine.
//!
//! The connection layer itself (sockets, handshakes, the sub-protocols) is
//! driven from outside. Whoever drives it reports what it saw with
//! [`Libp2pBackend::report`], polls the backend for the events that
//! surface, and carries out the commands that the backend queued. What is
//! decided here: which reports surface as backend events, which are
//! housekeeping, which are ignored, and in what order all of it happens.

use crate::backend::NetworkBackend;
use crate::backend::NetworkBackendEvent;
use crate::identity::IdentityKP;
use crate::messaging::P2pExecRequest;
use crate::messaging::P2pExecResponse;
use crate::peer::PeerId;
use crate::protocol::ProtocolName;
use std::collections::hash_map::DefaultHasher;
use std::collections::VecDeque;
use std::hash::Hash;
use std::hash::Hasher;
use std::task::Context;
use std::task::Poll;
use vstd::prelude::*;
use vstd::std_specs::hash::DefaultHasherAdditionalSpecFns;
use vstd::string::StringExecFns;

verus! {

/// What the connection layer reports.
#[derive(Debug)]
pub enum ConnectionEvent {
    /// The identification exchange with `peer` finished; it advertises
    /// these listen addresses.
    Identified { peer: PeerId, listen_addrs: Vec<Vec<u8>> },
    /// A stream to `peer` was opened on `protocol`.
    StreamOpened { peer: PeerId, protocol: ProtocolName },
    /// The stream to `peer` on `protocol` was closed.
    StreamClosed { peer: PeerId, protocol: ProtocolName, reason: String },
    /// `peer` sent `payload` on `protocol`.
    Notification { peer: PeerId, protocol: ProtocolName, payload: Vec<u8> },
    /// Anything else.
    Other,
}

/// Work that the backend hands to whoever drives the connection layer.
#[derive(Debug)]
pub enum Command {
    /// Enter the addresses of `peer` into the discovery table.
    AddAddresses { peer: PeerId, addresses: Vec<Vec<u8>> },
    /// Send `payload` to `target` on `protocol`.
    Notify { target: PeerId, protocol: ProtocolName, payload: Vec<u8> },
}

/// What becomes of one report.
#[derive(Debug)]
pub enum Disposition {
    /// It surfaces as this backend event.
    Surface(NetworkBackendEvent),
    /// It is housekeeping: this command is queued, nothing surfaces.
    Housekeeping(Command),
    /// Nothing comes of it.
    Ignored,
}

/// What becomes of `event`: a finished identification with at least one
/// address updates the discovery table, opened and closed streams and
/// notifications surface as they are, and nothing comes of the rest.
pub open spec fn disposition(event: ConnectionEvent) -> Disposition {
    match event {
        ConnectionEvent::Identified { peer, listen_addrs } => if listen_addrs@.len() > 0 {
            Disposition::Housekeeping(Command::AddAddresses { peer, addresses: listen_addrs })
        } else {
            Disposition::Ignored
        },
        ConnectionEvent::StreamOpened { peer, protocol } => Disposition::Surface(
            NetworkBackendEvent::NotificationStreamOpen { remote: peer, protocol },
        ),
        ConnectionEvent::StreamClosed { peer, protocol, reason } => Disposition::Surface(
            NetworkBackendEvent::NotificationStreamClosed { remote: peer, protocol, reason },
        ),
        ConnectionEvent::Notification { peer, protocol, payload } => Disposition::Surface(
            NetworkBackendEvent::NotificationReceived { remote: peer, protocol, payload },
        ),
        ConnectionEvent::Other => Disposition::Ignored,
    }
}

/// Whether `event` surfaces as a backend event.
pub open spec fn surfaces(event: ConnectionEvent) -> bool {
    disposition(event) is Surface
}

/// How many reports at the front of `events` do not surface.
pub open spec fn quiet_prefix(events: Seq<ConnectionEvent>) -> nat
    decreases events.len(),
{
    if events.len() == 0 || surfaces(events[0]) {
        0
    } else {
        1 + quiet_prefix(events.skip(1))
    }
}

/// The commands that the housekeeping among `events` queues, in order.
pub open spec fn housekeeping(events: Seq<ConnectionEvent>) -> Seq<Command>
    decreases events.len(),
{
    if events.len() == 0 {
        Seq::<Command>::empty()
    } else {
        let earlier = housekeeping(events.drop_last());
        match disposition(events.last()) {
            Disposition::Housekeeping(command) => earlier.push(command),
            _ => earlier,
        }
    }
}

/// What a poll answers on the pending reports `events`: the first report
/// that surfaces, as the backend event it becomes, or `Pending` where none
/// surfaces.
pub open spec fn poll_outcome(events: Seq<ConnectionEvent>) -> Poll<NetworkBackendEvent> {
    let quiet = quiet_prefix(events);
    if quiet < events.len() {
        match disposition(events[quiet as int]) {
            Disposition::Surface(event) => Poll::Ready(event),
            _ => Poll::Pending,
        }
    } else {
        Poll::Pending
    }
}

/// What a poll leaves pending of the reports `events`: what came after the
/// first report that surfaces.
pub open spec fn left_pending(events: Seq<ConnectionEvent>) -> Seq<ConnectionEvent> {
    let quiet = quiet_prefix(events);
    if quiet < events.len() {
        events.skip(quiet as int + 1)
    } else {
        Seq::<ConnectionEvent>::empty()
    }
}

/// Decides what becomes of one report.
pub fn classify(event: ConnectionEvent) -> (t: Disposition)
    ensures
        t == disposition(event),
{
    match event {
        ConnectionEvent::Identified { peer, listen_addrs } => {
            if listen_addrs.len() > 0 {
                Disposition::Housekeeping(Command::AddAddresses { peer, addresses: listen_addrs })
            } else {
                Disposition::Ignored
            }
        },
        ConnectionEvent::StreamOpened { peer, protocol } => Disposition::Surface(
            NetworkBackendEvent::NotificationStreamOpen { remote: peer, protocol },
        ),
        ConnectionEvent::StreamClosed { peer, protocol, reason } => Disposition::Surface(
            NetworkBackendEvent::NotificationStreamClosed { remote: peer, protocol, reason },
        ),
        ConnectionEvent::Notification { peer, protocol, payload } => Disposition::Surface(
            NetworkBackendEvent::NotificationReceived { remote: peer, protocol, payload },
        ),
        ConnectionEvent::Other => Disposition::Ignored,
    }
}

/// `quiet_prefix` is the place of the first report that surfaces: none
/// before it surfaces, and it is the length where none surfaces at all.
pub proof fn lemma_quiet_prefix(events: Seq<ConnectionEvent>)
    ensures
        quiet_prefix(events) <= events.len(),
        forall|i: int| 0 <= i < quiet_prefix(events) ==> !surfaces(#[trigger] events[i]),
        quiet_prefix(events) < events.len() ==> surfaces(events[quiet_prefix(events) as int]),
    decreases events.len(),
{
    if events.len() == 0 || surfaces(events[0]) {
    } else {
        let rest = events.skip(1);
        lemma_quiet_prefix(rest);
        assert forall|i: int| 0 <= i < quiet_prefix(events) implies !surfaces(
            #[trigger] events[i],
        ) by {
            if i > 0 {
                assert(events[i] == rest[i - 1]);
            }
        }
        if quiet_prefix(events) < events.len() {
            assert(events[quiet_prefix(events) as int] == rest[quiet_prefix(rest) as int]);
        }
    }
}

/// Where the first `count` reports do not surface and the next one does,
/// or there is no next one, `count` is the quiet prefix.
proof fn lemma_quiet_prefix_is(events: Seq<ConnectionEvent>, count: int)
    requires
        0 <= count <= events.len(),
        forall|i: int| 0 <= i < count ==> !surfaces(#[trigger] events[i]),
        count < events.len() ==> surfaces(events[count]),
    ensures
        quiet_prefix(events) == count,
    decreases count,
{
    if count > 0 {
        let rest = events.skip(1);
        assert(!surfaces(events[0]));
        assert forall|i: int| 0 <= i < count - 1 implies !surfaces(#[trigger] rest[i]) by {
            assert(rest[i] == events[i + 1]);
        }
        if count - 1 < rest.len() {
            assert(rest[count - 1] == events[count]);
        }
        lemma_quiet_prefix_is(rest, count - 1);
    }
}

/// The backend: the node's own identifier, the reports that were not yet
/// looked at, oldest first, and the commands that wait for the driver,
/// oldest first.
pub struct Libp2pBackend {
    local: PeerId,
    pending: VecDeque<ConnectionEvent>,
    commands: Vec<Command>,
}

impl Libp2pBackend {
    /// The bytes of the node's own peer identifier.
    pub closed spec fn local_id(&self) -> Seq<u8> {
        self.local@
    }

    /// The reports that were not yet looked at, oldest first.
    pub closed spec fn pending(&self) -> Seq<ConnectionEvent> {
        self.pending@
    }

    /// The commands that wait for the driver, oldest first.
    pub closed spec fn commands(&self) -> Seq<Command> {
        self.commands@
    }

    /// A backend for the node that `identity` belongs to, with nothing
    /// reported and nothing queued.
    pub fn new(identity: &IdentityKP) -> (backend: Libp2pBackend)
        ensures
            backend.local_id() == identity.peer_id_spec(),
            backend.pending() == Seq::<ConnectionEvent>::empty(),
            backend.commands() == Seq::<Command>::empty(),
    {
        Libp2pBackend { local: identity.peer_id(), pending: VecDeque::new(), commands: Vec::new() }
    }

    /// Takes note of what the connection layer saw. Reports are looked at
    /// in the order in which they come in.
    pub fn report(&mut self, event: ConnectionEvent)
        ensures
            final(self).pending() == old(self).pending().push(event),
            final(self).commands() == old(self).commands(),
            final(self).local_id() == old(self).local_id(),
    {
        self.pending.push_back(event);
    }

    /// Looks at the pending reports, oldest first, up to and including the
    /// first one that surfaces.
    ///
    /// That one is handed out as `Ready`, and what came after it stays
    /// pending. Where none surfaces, all reports are used up and the answer
    /// is `Pending`. Either way the housekeeping among the reports looked at
    /// is queued as commands, in order.
    pub fn poll_events(&mut self) -> (event: Poll<NetworkBackendEvent>)
        ensures
            final(self).local_id() == old(self).local_id(),
            final(self).commands() == old(self).commands() + housekeeping(
                old(self).pending().take(quiet_prefix(old(self).pending()) as int),
            ),
            event == poll_outcome(old(self).pending()),
            final(self).pending() == left_pending(old(self).pending()),
    {
        let ghost reports = self.pending@;
        let ghost queued = self.commands@;
        let ghost mut seen: int = 0;
        proof {
            assert(reports.take(0) =~= Seq::<ConnectionEvent>::empty());
            assert(queued + housekeeping(reports.take(0)) =~= queued);
            assert(reports.skip(0) =~= reports);
        }
        loop
            invariant
                0 <= seen <= reports.len(),
                self.local@ == old(self).local@,
                self.pending@ == reports.skip(seen),
                self.commands@ == queued + housekeeping(reports.take(seen)),
                forall|i: int| 0 <= i < seen ==> !surfaces(#[trigger] reports[i]),
                reports == old(self).pending@,
                queued == old(self).commands@,
            decreases reports.len() - seen,
        {
            match self.pending.pop_front() {
                None => {
                    proof {
                        lemma_quiet_prefix_is(reports, seen);
                        assert(self.pending@ =~= Seq::<ConnectionEvent>::empty());
                    }
                    return Poll::Pending;
                },
                Some(report) => {
                    proof {
                        assert(report == reports[seen]);
                        assert(reports.take(seen + 1).drop_last() =~= reports.take(seen));
                        assert(reports.take(seen + 1).last() == reports[seen]);
                        assert(self.pending@ =~= reports.skip(seen + 1));
                    }
                    match classify(report) {
                        Disposition::Surface(event) => {
                            proof {
                                lemma_quiet_prefix_is(reports, seen);
                            }
                            return Poll::Ready(event);
                        },
                        Disposition::Housekeeping(command) => {
                            self.commands.push(command);
                            proof {
                                assert(self.commands@ =~= queued + housekeeping(
                                    reports.take(seen + 1),
                                ));
                            }
                        },
                        Disposition::Ignored => {},
                    }
                    proof {
                        seen = seen + 1;
                    }
                },
            }
        }
    }

    /// Hands the queued commands to the driver, oldest first, and leaves
    /// none queued.
    pub fn take_commands(&mut self) -> (commands: Vec<Command>)
        ensures
            commands@ == old(self).commands(),
            final(self).commands() == Seq::<Command>::empty(),
            final(self).pending() == old(self).pending(),
            final(self).local_id() == old(self).local_id(),
    {
        let mut taken: Vec<Command> = Vec::new();
        std::mem::swap(&mut self.commands, &mut taken);
        taken
    }
}

impl NetworkBackend for Libp2pBackend {
    /// See [`Libp2pBackend::poll_events`]. The backend never waits, so
    /// there is nothing to register with `cx`: waking the driver when the
    /// connection layer has news is the connection layer's part.
    fn poll(&mut self, cx: &mut Context<'_>) -> (event: Poll<NetworkBackendEvent>)
        ensures
            final(self).local_id() == old(self).local_id(),
            final(self).commands() == old(self).commands() + housekeeping(
                old(self).pending().take(quiet_prefix(old(self).pending()) as int),
            ),
            event == poll_outcome(old(self).pending()),
            final(self).pending() == left_pending(old(self).pending()),
    {
        self.poll_events()
    }

    /// Queues the message for the driver to send. Nothing is promised of
    /// its delivery.
    fn send_notification(&mut self, target: PeerId, protocol: ProtocolName, payload: Vec<u8>)
        ensures
            final(self).commands() == old(self).commands().push(
                Command::Notify { target, protocol, payload },
            ),
            final(self).pending() == old(self).pending(),
            final(self).local_id() == old(self).local_id(),
    {
        self.commands.push(Command::Notify { target, protocol, payload });
    }

    /// The node's own identifier: the one the backend was made with.
    fn local_peer_id(&self) -> (id: PeerId)
        ensures
            id@ == self.local_id(),
    {
        self.local.clone()
    }
}

/// A poll with nothing pending answers `Pending` and changes nothing: it
/// can be repeated at will.
pub proof fn lemma_idle_poll_is_quiet(pending: Seq<ConnectionEvent>, commands: Seq<Command>)
    requires
        pending.len() == 0,
    ensures
        poll_outcome(pending) == Poll::<NetworkBackendEvent>::Pending,
        left_pending(pending) == pending,
        commands + housekeeping(pending.take(quiet_prefix(pending) as int)) == commands,
{
    assert(pending.take(0) =~= Seq::<ConnectionEvent>::empty());
    assert(commands + Seq::<Command>::empty() =~= commands);
    assert(left_pending(pending) =~= pending);
}

/// Backend events surface in the order in which the connection layer
/// reported them: the event that a poll hands out comes from a report that
/// no surfacing report precedes.
pub proof fn lemma_events_surface_in_order(reports: Seq<ConnectionEvent>, earlier: int)
    requires
        0 <= earlier < quiet_prefix(reports),
    ensures
        !surfaces(reports[earlier]),
{
    lemma_quiet_prefix(reports);
}

/// A notification that is reported behind reports that do not surface is
/// what the next poll hands out, with the peer, the protocol and the
/// payload that it was reported with; what was reported behind it stays
/// pending.
pub proof fn lemma_reported_notification_surfaces(
    quiet: Seq<ConnectionEvent>,
    peer: PeerId,
    protocol: ProtocolName,
    payload: Vec<u8>,
    later: Seq<ConnectionEvent>,
)
    requires
        forall|i: int| 0 <= i < quiet.len() ==> !surfaces(#[trigger] quiet[i]),
    ensures
        poll_outcome(quiet.push(ConnectionEvent::Notification { peer, protocol, payload }) + later)
            == Poll::Ready(
            NetworkBackendEvent::NotificationReceived { remote: peer, protocol, payload },
        ),
        left_pending(quiet.push(ConnectionEvent::Notification { peer, protocol, payload }) + later)
            == later,
{
    let reports = quiet.push(ConnectionEvent::Notification { peer, protocol, payload }) + later;
    assert forall|i: int| 0 <= i < quiet.len() implies !surfaces(#[trigger] reports[i]) by {
        assert(reports[i] == quiet[i]);
    }
    assert(reports[quiet.len() as int] == ConnectionEvent::Notification { peer, protocol, payload });
    lemma_quiet_prefix_is(reports, quiet.len() as int);
    assert(reports.skip(quiet.len() as int + 1) =~= later);
}

/// How many of `events` surface.
pub open spec fn surfacing_count(events: Seq<ConnectionEvent>) -> nat
    decreases events.len(),
{
    if events.len() == 0 {
        0
    } else if surfaces(events.last()) {
        surfacing_count(events.drop_last()) + 1
    } else {
        surfacing_count(events.drop_last())
    }
}

/// What is pending after so many polls, with nothing reported in between.
pub open spec fn pending_after(events: Seq<ConnectionEvent>, polls: nat) -> Seq<ConnectionEvent>
    decreases polls,
{
    if polls == 0 {
        events
    } else {
        pending_after(left_pending(events), (polls - 1) as nat)
    }
}

/// The count of what surfaces adds up over two runs of reports.
proof fn lemma_surfacing_count_adds(first: Seq<ConnectionEvent>, second: Seq<ConnectionEvent>)
    ensures
        surfacing_count(first + second) == surfacing_count(first) + surfacing_count(second),
    decreases second.len(),
{
    if second.len() == 0 {
        assert(first + second =~= first);
    } else {
        assert((first + second).drop_last() =~= first + second.drop_last());
        assert((first + second).last() == second.last());
        lemma_surfacing_count_adds(first, second.drop_last());
    }
}

/// Where no report surfaces, the count is zero.
proof fn lemma_surfacing_count_of_quiet(events: Seq<ConnectionEvent>)
    requires
        forall|i: int| 0 <= i < events.len() ==> !surfaces(#[trigger] events[i]),
    ensures
        surfacing_count(events) == 0,
    decreases events.len(),
{
    if events.len() > 0 {
        assert forall|i: int| 0 <= i < events.drop_last().len() implies !surfaces(
            #[trigger] events.drop_last()[i],
        ) by {
            assert(events.drop_last()[i] == events[i]);
        }
        assert(events.last() == events[events.len() - 1]);
        lemma_surfacing_count_of_quiet(events.drop_last());
    }
}

/// A notification that is reported surfaces after finitely many polls,
/// whatever was pending before it and whatever is reported behind it: each
/// poll hands out one of the reports before it that surface, in order, and
/// the poll after the last of them hands out the notification, with the
/// peer, the protocol and the payload that it was reported with.
pub proof fn lemma_notification_surfaces_after_polls(
    before: Seq<ConnectionEvent>,
    peer: PeerId,
    protocol: ProtocolName,
    payload: Vec<u8>,
    later: Seq<ConnectionEvent>,
)
    ensures
        surfacing_count(before) <= before.len(),
        poll_outcome(
            pending_after(
                before.push(ConnectionEvent::Notification { peer, protocol, payload }) + later,
                surfacing_count(before),
            ),
        ) == Poll::Ready(
            NetworkBackendEvent::NotificationReceived { remote: peer, protocol, payload },
        ),
        left_pending(
            pending_after(
                before.push(ConnectionEvent::Notification { peer, protocol, payload }) + later,
                surfacing_count(before),
            ),
        ) == later,
    decreases before.len(),
{
    let notification = ConnectionEvent::Notification { peer, protocol, payload };
    let all = before.push(notification) + later;
    let quiet = quiet_prefix(before) as int;
    lemma_quiet_prefix(before);
    if quiet == before.len() {
        lemma_surfacing_count_of_quiet(before);
        lemma_reported_notification_surfaces(before, peer, protocol, payload, later);
    } else {
        let head = before.take(quiet);
        let rest = before.skip(quiet + 1);
        assert forall|i: int| 0 <= i < head.len() implies !surfaces(#[trigger] head[i]) by {
            assert(head[i] == before[i]);
        }
        lemma_surfacing_count_of_quiet(head);
        let first = seq![before[quiet]];
        assert(first.drop_last() =~= Seq::<ConnectionEvent>::empty());
        assert(first.last() == before[quiet]);
        assert(surfacing_count(first.drop_last()) == 0);
        assert(surfacing_count(first) == 1);
        assert(before =~= (head + first) + rest);
        lemma_surfacing_count_adds(head, first);
        lemma_surfacing_count_adds(head + first, rest);
        assert(surfacing_count(before) == 1 + surfacing_count(rest));
        assert forall|i: int| 0 <= i < quiet implies !surfaces(#[trigger] all[i]) by {
            assert(all[i] == before[i]);
        }
        assert(all[quiet] == before[quiet]);
        lemma_quiet_prefix_is(all, quiet);
        assert(left_pending(all) =~= rest.push(notification) + later);
        lemma_notification_surfaces_after_polls(rest, peer, protocol, payload, later);
        assert(pending_after(all, surfacing_count(before)) == pending_after(
            left_pending(all),
            surfacing_count(rest),
        ));
    }
}

/// The request that carries a notification to a peer: the protocol and the
/// payload of the command, as they are.
pub fn request_for(protocol: ProtocolName, payload: Vec<u8>) -> (request: P2pExecRequest)
    ensures
        request == (P2pExecRequest::Notification { protocol, payload }),
{
    P2pExecRequest::Notification { protocol, payload }
}

/// What comes of a request that `peer` sent: the report of the notification
/// that it carries, under its own protocol and with its own payload, and
/// the answer to the peer, which is empty.
pub fn receive_request(peer: PeerId, request: P2pExecRequest) -> (r: (
    ConnectionEvent,
    P2pExecResponse,
))
    ensures
        request matches P2pExecRequest::Notification { protocol, payload } && r.0 == (
            ConnectionEvent::Notification { peer, protocol, payload }),
        r.1.body() == Seq::<u8>::empty(),
{
    match request {
        P2pExecRequest::Notification { protocol, payload } => (
            ConnectionEvent::Notification { peer, protocol, payload },
            P2pExecResponse::Application { body: Vec::new() },
        ),
    }
}

/// The writes that hashing a slice of bytes performs on a hasher, as
/// `<[u8] as Hash>::hash` performs them: the length of the slice, as wide
/// as the target's `usize` and in its byte order, and then the bytes. So
/// the writes are fixed for a target, not across targets.
pub uninterp spec fn slice_writes(body: Seq<u8>) -> Seq<Seq<u8>>;

/// Calls `<[u8] as Hash>::hash` on a `DefaultHasher`: the hasher has taken
/// the writes that belong to `body`, after those it had taken before.
#[verifier::external_body]
fn feed(state: &mut DefaultHasher, body: &[u8])
    ensures
        final(state)@ == old(state)@ + slice_writes(body@),
{
    body.hash(state)
}

/// The digest of a message body: what a fresh `DefaultHasher` gives once
/// the body was hashed into it.
pub open spec fn body_digest(body: Seq<u8>) -> u64 {
    DefaultHasher::spec_finish(slice_writes(body))
}

/// The character of one decimal digit.
pub open spec fn digit(d: nat) -> char {
    if d == 0 {
        '0'
    } else if d == 1 {
        '1'
    } else if d == 2 {
        '2'
    } else if d == 3 {
        '3'
    } else if d == 4 {
        '4'
    } else if d == 5 {
        '5'
    } else if d == 6 {
        '6'
    } else if d == 7 {
        '7'
    } else if d == 8 {
        '8'
    } else {
        '9'
    }
}

/// A number in decimal, without leading zeros.
pub open spec fn decimal(n: nat) -> Seq<char>
    decreases n,
{
    if n < 10 {
        seq![digit(n)]
    } else {
        decimal(n / 10).push(digit(n % 10))
    }
}

/// The digits of `low`, last first: `low` holds the low digits of a number,
/// the lowest at the front.
pub open spec fn low_digits(low: Seq<u8>) -> Seq<char>
    decreases low.len(),
{
    if low.len() == 0 {
        Seq::<char>::empty()
    } else {
        seq![digit(low.last() as nat)] + low_digits(low.drop_last())
    }
}

/// The text of one decimal digit.
fn digit_text(d: u8) -> (text: &'static str)
    requires
        d < 10,
    ensures
        text@ == seq![digit(d as nat)],
{
    proof {
        reveal_strlit("0");
        reveal_strlit("1");
        reveal_strlit("2");
        reveal_strlit("3");
        reveal_strlit("4");
        reveal_strlit("5");
        reveal_strlit("6");
        reveal_strlit("7");
        reveal_strlit("8");
        reveal_strlit("9");
    }
    let text = if d == 0 {
        "0"
    } else if d == 1 {
        "1"
    } else if d == 2 {
        "2"
    } else if d == 3 {
        "3"
    } else if d == 4 {
        "4"
    } else if d == 5 {
        "5"
    } else if d == 6 {
        "6"
    } else if d == 7 {
        "7"
    } else if d == 8 {
        "8"
    } else {
        "9"
    };
    assert(text@ =~= seq![digit(d as nat)]);
    text
}

/// Writes `n` in decimal.
pub fn decimal_text(n: u64) -> (text: String)
    ensures
        text@ == decimal(n as nat),
{
    let mut rest: u64 = n;
    let mut low: Vec<u8> = Vec::new();
    proof {
        assert(decimal(rest as nat) + low_digits(low@) =~= decimal(n as nat));
    }
    while rest >= 10
        invariant
            decimal(n as nat) == decimal(rest as nat) + low_digits(low@),
            forall|i: int| 0 <= i < low@.len() ==> low@[i] < 10,
        decreases rest,
    {
        let d: u8 = (rest % 10) as u8;
        proof {
            let longer = low@.push(d);
            assert(longer.drop_last() =~= low@);
            assert(low_digits(longer) == seq![digit(d as nat)] + low_digits(low@));
            assert(decimal(rest as nat) == decimal((rest / 10) as nat).push(digit(d as nat)));
            assert(decimal((rest / 10) as nat).push(digit(d as nat)) + low_digits(low@)
                =~= decimal((rest / 10) as nat) + low_digits(longer));
        }
        low.push(d);
        rest = rest / 10;
    }
    let mut text = String::new();
    text.append(digit_text(rest as u8));
    let mut i: usize = low.len();
    proof {
        assert(low@.take(i as int) =~= low@);
        assert(text@ =~= decimal(rest as nat));
    }
    while i > 0
        invariant
            i <= low@.len(),
            text@ + low_digits(low@.take(i as int)) == decimal(n as nat),
            forall|k: int| 0 <= k < low@.len() ==> low@[k] < 10,
        decreases i,
    {
        proof {
            let head = low@.take(i as int);
            assert(head.drop_last() =~= low@.take(i - 1));
            assert(head.last() == low@[i - 1]);
            assert(low_digits(head) == seq![digit(low@[i - 1] as nat)] + low_digits(
                low@.take(i - 1),
            ));
            assert(text@ + (seq![digit(low@[i - 1] as nat)] + low_digits(low@.take(i - 1)))
                =~= (text@ + seq![digit(low@[i - 1] as nat)]) + low_digits(low@.take(i - 1)));
        }
        i = i - 1;
        text.append(digit_text(low[i]));
    }
    proof {
        assert(low@.take(0) =~= Seq::<u8>::empty());
        assert(text@ + Seq::<char>::empty() =~= text@);
    }
    text
}

/// The identifier under which gossip recognises a message it has seen: the
/// digest of the message body, in decimal. Equal bodies have equal
/// identifiers.
pub fn message_id(body: &[u8]) -> (id: String)
    ensures
        id@ == decimal(body_digest(body@) as nat),
{
    let mut state = DefaultHasher::new();
    feed(&mut state, body);
    proof {
        assert(Seq::<Seq<u8>>::empty() + slice_writes(body@) =~= slice_writes(body@));
    }
    decimal_text(state.finish())
}

} // verus!
