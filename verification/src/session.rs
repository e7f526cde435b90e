//! The session: identifiers, the login handshake and the collection of
//! responses, as a state machine without I/O.
//!
//! A driver owns the connection. It asks the session to log in or to send a
//! command, and gets an [`Action`] back. It carries the action out, reports
//! what happened as an [`Event`] to [`Rcon::step`], and goes on with the
//! action that this returns, until the action is a result.
//!
//! Policies of this session:
//! - A command is sent whether the session has logged in or not. It carries
//!   the session's next identifier, and the identifiers move on only when
//!   the write is reported as done.
//! - A command whose body is longer than `PACKET_BODY_MAX_LEN` bytes or not
//!   ASCII is refused with `PacketError`, and so is a password that cannot
//!   be framed. A refused request changes nothing and asks for no I/O.
//! - A read may hold several packets. After a packet that does not end the
//!   response, the two bytes that close its frame are passed over, and what
//!   the read holds beyond them is read as the next packet.
//! - A response ends with a packet that has an empty body or the identifier
//!   `BAD_AUTH`, or when a read times out or returns no bytes. A read that
//!   fails otherwise breaks the exchange off with `ConnError`, bytes that
//!   cannot be read as a packet with `PacketError`, and the packets
//!   collected so far are dropped.
//! - A login is accepted when every packet that answers it carries the
//!   identifier of the login packet, and none `BAD_AUTH`. A login that no
//!   packet answers before the data ends is accepted too.
//! - After an accepted login the session sends one empty command and waits
//!   for its response. Whatever becomes of that exchange, the login stays
//!   accepted.
//! - The identifier after `i32::MAX` is 1.

use vstd::prelude::*;
use bytes::BytesMut;
use vstd::utf8::encode_utf8;
use crate::buffer::{bytes_copy_from_slice, bytes_len, bytes_mut_seq, bytes_seq, copy_to_bytes};
use crate::config::{BAD_AUTH, LOGIN_ID, PACKET_BODY_MAX_LEN, PACKET_SIZE_MAX, PACKET_SIZE_MIN};
use crate::packet::{
    built, consumed, frame, lemma_consumed_is_bounded, lemma_frame_reads_back, parsed, Packet,
    PacketType, PacketView,
};

verus! {

/// Why a request on a session failed.
#[derive(Clone, Copy, Debug, PartialEq, Eq, Structural)]
pub enum RconError {
    /// A packet could not be built, or a response could not be read.
    PacketError,
    /// The server rejected the login. The session itself reports a rejected
    /// login as `Action::Authenticated(false)`; this is for a driver that
    /// hands the rejection on as an error.
    AuthError,
    /// The connection failed while the request was written or its response
    /// was read.
    ConnError,
}

/// What an exchange of packets is for.
#[derive(Clone, Copy, Debug, PartialEq, Eq, Structural)]
pub enum Goal {
    /// The login packet and the server's verdict.
    Login,
    /// The empty command that follows an accepted login.
    FollowUp,
    /// A command and its response.
    Command,
}

/// What the session is waiting for.
#[derive(Clone, Copy, Debug, PartialEq, Eq, Structural)]
pub enum Phase {
    /// Nothing: no exchange is under way.
    Idle,
    /// The report on the write of a packet with the given identifier.
    Sending(Goal, i32),
    /// The report on a read.
    Receiving(Goal),
}

/// What the driver reports to the session.
#[derive(Debug)]
pub enum Event {
    /// The bytes of the last `Action::Send` were written.
    Sent,
    /// Writing them failed.
    SendFailed,
    /// A read returned these bytes: all that it returned, and nothing else.
    /// A read that returned no bytes counts as `ReadEnded`.
    Received(Vec<u8>),
    /// A read timed out, or the stream is at its end: there is no more data.
    ReadEnded,
    /// A read failed for another reason than time.
    ReadFailed,
}

/// An `Event` as mathematical values.
pub enum EventView {
    Sent,
    SendFailed,
    Received(Seq<u8>),
    ReadEnded,
    ReadFailed,
}

impl View for Event {
    type V = EventView;

    open spec fn view(&self) -> EventView {
        match self {
            Event::Sent => EventView::Sent,
            Event::SendFailed => EventView::SendFailed,
            Event::Received(data) => EventView::Received(data@),
            Event::ReadEnded => EventView::ReadEnded,
            Event::ReadFailed => EventView::ReadFailed,
        }
    }
}

/// What the session asks of the driver, or the result of a request.
#[derive(Debug)]
pub enum Action {
    /// Write these bytes to the connection, then report `Event::Sent` or
    /// `Event::SendFailed`.
    Send(BytesMut),
    /// Read once from the connection, then report `Event::Received`,
    /// `Event::ReadEnded` or `Event::ReadFailed`.
    Receive,
    /// The login is over: accepted or not.
    Authenticated(bool),
    /// The command is over: the packets of its response, or why it failed.
    Response(Result<Vec<Packet>, RconError>),
    /// No exchange is under way.
    Idle,
}

/// An `Action` as mathematical values.
pub enum ActionView {
    Send(Seq<u8>),
    Receive,
    Authenticated(bool),
    Response(Result<Seq<PacketView>, RconError>),
    Idle,
}

/// The views of a sequence of packets.
pub open spec fn packet_views(packets: Seq<Packet>) -> Seq<PacketView> {
    Seq::new(packets.len(), |i: int| packets[i]@)
}

impl View for Action {
    type V = ActionView;

    open spec fn view(&self) -> ActionView {
        match self {
            Action::Send(bytes) => ActionView::Send(bytes_mut_seq(*bytes)),
            Action::Receive => ActionView::Receive,
            Action::Authenticated(ok) => ActionView::Authenticated(*ok),
            Action::Response(Ok(packets)) => ActionView::Response(Ok(packet_views(packets@))),
            Action::Response(Err(e)) => ActionView::Response(Err(*e)),
            Action::Idle => ActionView::Idle,
        }
    }
}

/// The identifier that follows `id`.
pub open spec fn next_id(id: int) -> int {
    if id == i32::MAX {
        1
    } else {
        id + 1
    }
}

/// What a read holds after its first packet and the two bytes that close
/// the frame of that packet. Where the read ends within those two bytes,
/// nothing is left.
pub open spec fn after_frame(data: Seq<u8>) -> Seq<u8> {
    if data.len() - consumed(data) <= 2 {
        Seq::empty()
    } else {
        data.skip(consumed(data) + 2)
    }
}

/// True when a packet ends a response: its body is empty, or its identifier
/// is `BAD_AUTH`.
pub open spec fn is_terminal(p: PacketView) -> bool {
    p.id == BAD_AUTH || p.body_bytes.len() == 0
}

/// True when the packets that answered a login accept it: each of them
/// carries the identifier that the login was sent with, and none carries
/// `BAD_AUTH`.
pub open spec fn login_accepted(packets: Seq<PacketView>, sent_id: int) -> bool {
    forall|i: int|
        0 <= i < packets.len() ==> (#[trigger] packets[i]).id == sent_id && packets[i].id
            != BAD_AUTH
}

/// A session as mathematical values.
pub struct RconView {
    /// Identifier of the last packet that was written.
    pub last_sent_id: int,
    /// Identifier that the next command will carry.
    pub next_send_id: int,
    /// True once a login was accepted.
    pub authenticated: bool,
    /// What the session is waiting for.
    pub phase: Phase,
    /// The packets read so far in the exchange under way.
    pub packets: Seq<PacketView>,
}

impl RconView {
    /// True when the identifiers are those of a session: none is negative,
    /// and none that is sent or to be sent is zero. This holds of every
    /// `Rcon`.
    pub open spec fn wf(self) -> bool {
        &&& 0 <= self.last_sent_id <= i32::MAX
        &&& 1 <= self.next_send_id <= i32::MAX
        &&& self.phase matches Phase::Sending(_, id) ==> 1 <= id
    }

    /// The session between exchanges.
    pub open spec fn idle(self) -> RconView {
        RconView { phase: Phase::Idle, packets: Seq::empty(), ..self }
    }

    /// The session as it starts to send a packet.
    pub open spec fn start(self, goal: Goal, p: PacketView) -> (RconView, ActionView) {
        (
            RconView { phase: Phase::Sending(goal, p.id as i32), packets: Seq::empty(), ..self },
            ActionView::Send(frame(p)),
        )
    }

    /// The session as it is asked to log in.
    pub open spec fn authenticate(self, password: Seq<char>) -> (RconView, ActionView) {
        match built(LOGIN_ID as int, PacketType::Login, password) {
            Ok(p) => self.start(Goal::Login, p),
            Err(_) => (self, ActionView::Authenticated(false)),
        }
    }

    /// The session as it is asked to send a command.
    pub open spec fn send_cmd(self, body: Seq<char>) -> (RconView, ActionView) {
        if encode_utf8(body).len() > PACKET_BODY_MAX_LEN {
            (self, ActionView::Response(Err(RconError::PacketError)))
        } else {
            match built(self.next_send_id, PacketType::Command, body) {
                Ok(p) => self.start(Goal::Command, p),
                Err(_) => (self, ActionView::Response(Err(RconError::PacketError))),
            }
        }
    }

    /// The session as it is told of the bytes of a read, none of which was
    /// looked at yet. The first packet among them is collected. Where it ends
    /// the response, the rest is left alone; else what follows its frame is
    /// read in the same way, and when nothing follows, another read is asked
    /// for.
    pub open spec fn read(self, goal: Goal, data: Seq<u8>) -> (RconView, ActionView)
        decreases data.len(),
    {
        match parsed(data) {
            Ok(p) => {
                let collected = RconView { packets: self.packets.push(p), ..self };
                if is_terminal(p) {
                    collected.finish(goal)
                } else if after_frame(data).len() == 0 {
                    (collected, ActionView::Receive)
                } else {
                    collected.read(goal, after_frame(data))
                }
            },
            Err(_) => self.fail(goal, RconError::PacketError),
        }
    }

    /// The session as an exchange breaks off.
    pub open spec fn fail(self, goal: Goal, error: RconError) -> (RconView, ActionView) {
        match goal {
            Goal::Login => (self.idle(), ActionView::Authenticated(false)),
            Goal::FollowUp => (self.idle(), ActionView::Authenticated(true)),
            Goal::Command => (self.idle(), ActionView::Response(Err(error))),
        }
    }

    /// The session as a response is complete.
    pub open spec fn finish(self, goal: Goal) -> (RconView, ActionView) {
        match goal {
            Goal::Login => if login_accepted(self.packets, self.last_sent_id) {
                RconView { authenticated: true, ..self }.start(
                    Goal::FollowUp,
                    built(self.next_send_id, PacketType::Command, Seq::empty())->Ok_0,
                )
            } else {
                (self.idle(), ActionView::Authenticated(false))
            },
            Goal::FollowUp => (self.idle(), ActionView::Authenticated(true)),
            Goal::Command => (self.idle(), ActionView::Response(Ok(self.packets))),
        }
    }

    /// The session as the driver reports an event, and what it asks next.
    ///
    /// While a write is awaited, every event but `Sent` counts as a failed
    /// write. While a read is awaited, every event but `Received` and
    /// `ReadFailed` counts as the end of the data, and so does a `Received`
    /// without bytes. Between exchanges an event changes nothing.
    pub open spec fn step(self, event: EventView) -> (RconView, ActionView) {
        match self.phase {
            Phase::Idle => (self, ActionView::Idle),
            Phase::Sending(goal, id) => match event {
                EventView::Sent => (
                    RconView {
                        last_sent_id: id as int,
                        next_send_id: next_id(id as int),
                        phase: Phase::Receiving(goal),
                        packets: Seq::empty(),
                        ..self
                    },
                    ActionView::Receive,
                ),
                _ => self.fail(goal, RconError::ConnError),
            },
            Phase::Receiving(goal) => match event {
                EventView::Received(data) => if data.len() == 0 {
                    self.finish(goal)
                } else {
                    self.read(goal, data)
                },
                EventView::ReadFailed => self.fail(goal, RconError::ConnError),
                _ => self.finish(goal),
            },
        }
    }
}

/// Tells whether the packets that answered a login accept it.
pub fn accepts_login(packets: &Vec<Packet>, sent_id: i32) -> (accepted: bool)
    ensures
        accepted == login_accepted(packet_views(packets@), sent_id as int),
{
    let mut i: usize = 0;
    while i < packets.len()
        invariant
            i <= packets.len(),
            login_accepted(packet_views(packets@).take(i as int), sent_id as int),
        decreases packets.len() - i,
    {
        let id: i32 = packets[i].id();
        if id == BAD_AUTH || id != sent_id {
            assert(packet_views(packets@)[i as int].id == id);
            return false;
        }
        proof {
            let views = packet_views(packets@);
            assert forall|j: int| 0 <= j < i + 1 implies (#[trigger] views.take(i + 1)[j]).id
                == sent_id && views.take(i + 1)[j].id != BAD_AUTH by {
                if j < i {
                    assert(views.take(i as int)[j] == views[j]);
                }
            }
        }
        i += 1;
    }
    assert(packet_views(packets@).take(i as int) == packet_views(packets@));
    true
}

/// A list of packets with nothing in it.
fn no_packets() -> (packets: Vec<Packet>)
    ensures
        packet_views(packets@) == Seq::<PacketView>::empty(),
{
    let packets = Vec::new();
    assert(packet_views(packets@) == Seq::<PacketView>::empty());
    packets
}

/// An RCON session without its connection.
#[derive(Debug)]
pub struct Rcon {
    /// Identifier of the last packet that was written.
    last_sent_id: i32,
    /// Identifier that the next command will carry.
    next_send_id: i32,
    /// True once a login was accepted.
    authenticated: bool,
    /// What the session is waiting for.
    phase: Phase,
    /// The packets read so far in the exchange under way.
    packets: Vec<Packet>,
}

impl View for Rcon {
    type V = RconView;

    closed spec fn view(&self) -> RconView {
        RconView {
            last_sent_id: self.last_sent_id as int,
            next_send_id: self.next_send_id as int,
            authenticated: self.authenticated,
            phase: self.phase,
            packets: packet_views(self.packets@),
        }
    }
}

impl Rcon {
    #[verifier::type_invariant]
    spec fn inv(self) -> bool {
        self@.wf()
    }

    /// A session on a connection that was just opened: nothing was sent, the
    /// first command will carry the identifier 1, and no login was accepted.
    pub fn new() -> (rcon: Rcon)
        ensures
            rcon@ == (RconView {
                last_sent_id: 0,
                next_send_id: 1,
                authenticated: false,
                phase: Phase::Idle,
                packets: Seq::empty(),
            }),
    {
        Rcon {
            last_sent_id: 0,
            next_send_id: 1,
            authenticated: false,
            phase: Phase::Idle,
            packets: no_packets(),
        }
    }

    /// Starts to send a packet for a goal.
    fn start(&mut self, goal: Goal, packet: Packet) -> (action: Action)
        requires
            1 <= packet@.id,
        ensures
            (final(self)@, action@) == old(self)@.start(goal, packet@),
    {
        proof {
            use_type_invariant(&*self);
        }
        self.phase = Phase::Sending(goal, packet.id());
        self.packets = no_packets();
        Action::Send(packet.serialize())
    }

    /// Returns to the state between exchanges.
    fn reset(&mut self)
        ensures
            final(self)@ == old(self)@.idle(),
    {
        proof {
            use_type_invariant(&*self);
        }
        self.phase = Phase::Idle;
        self.packets = no_packets();
    }

    /// Breaks an exchange off.
    fn fail(&mut self, goal: Goal, error: RconError) -> (action: Action)
        ensures
            (final(self)@, action@) == old(self)@.fail(goal, error),
    {
        self.reset();
        match goal {
            Goal::Login => Action::Authenticated(false),
            Goal::FollowUp => Action::Authenticated(true),
            Goal::Command => Action::Response(Err(error)),
        }
    }

    /// Ends an exchange whose response is complete.
    fn finish(&mut self, goal: Goal) -> (action: Action)
        ensures
            (final(self)@, action@) == old(self)@.finish(goal),
    {
        proof {
            use_type_invariant(&*self);
        }
        match goal {
            Goal::Login => {
                if accepts_login(&self.packets, self.last_sent_id) {
                    self.authenticated = true;
                    // An empty body is always framed, so the second arm is never taken.
                    match Packet::new(self.next_send_id, PacketType::Command, String::new()) {
                        Ok(packet) => self.start(Goal::FollowUp, packet),
                        Err(_) => {
                            self.reset();
                            Action::Authenticated(true)
                        },
                    }
                } else {
                    self.reset();
                    Action::Authenticated(false)
                }
            },
            Goal::FollowUp => {
                self.reset();
                Action::Authenticated(true)
            },
            Goal::Command => {
                let mut packets = no_packets();
                std::mem::swap(&mut self.packets, &mut packets);
                self.phase = Phase::Idle;
                Action::Response(Ok(packets))
            },
        }
    }

    /// Adds a packet to those read so far.
    fn collect(&mut self, packet: Packet)
        ensures
            final(self)@ == (RconView { packets: old(self)@.packets.push(packet@), ..old(self)@ }),
    {
        proof {
            use_type_invariant(&*self);
        }
        let mut packets = no_packets();
        std::mem::swap(&mut self.packets, &mut packets);
        packets.push(packet);
        self.packets = packets;
        assert(packet_views(self.packets@) == old(self)@.packets.push(packet@));
    }

    /// Reads the packets that the bytes of a read hold.
    fn read(&mut self, goal: Goal, data: &[u8]) -> (action: Action)
        ensures
            (final(self)@, action@) == old(self)@.read(goal, data@),
    {
        let mut buffer = bytes_copy_from_slice(data);
        loop
            invariant
                self@.read(goal, bytes_seq(buffer)) == old(self)@.read(goal, data@),
            decreases bytes_seq(buffer).len(),
        {
            let ghost before = bytes_seq(buffer);
            proof {
                lemma_consumed_is_bounded(before);
            }
            match Packet::deserialize(&mut buffer) {
                Ok(packet) => {
                    let terminal: bool = packet.id() == BAD_AUTH || packet.body_len() == 0;
                    self.collect(packet);
                    if terminal {
                        return self.finish(goal);
                    }
                    if bytes_len(&buffer) <= 2 {
                        return Action::Receive;
                    }
                    let _ = copy_to_bytes(&mut buffer, 2);
                    assert(bytes_seq(buffer) == after_frame(before));
                },
                Err(_) => {
                    return self.fail(goal, RconError::PacketError);
                },
            }
        }
    }

    /// Asks to log in with the given password. The result is
    /// `Action::Authenticated(false)` at once where the password cannot be
    /// framed; else it is the login packet to send, with the identifier
    /// `LOGIN_ID`. An exchange that was under way is given up.
    pub fn authenticate_with(&mut self, pass: String) -> (action: Action)
        ensures
            (final(self)@, action@) == old(self)@.authenticate(pass@),
    {
        match Packet::new(LOGIN_ID, PacketType::Login, pass) {
            Ok(packet) => self.start(Goal::Login, packet),
            Err(_) => Action::Authenticated(false),
        }
    }

    /// Asks to log in with the password that a source gave, or with the
    /// empty password where the source gave none.
    pub fn authenticate(&mut self, pass: Option<String>) -> (action: Action)
        ensures
            (final(self)@, action@) == old(self)@.authenticate(
                match pass {
                    Some(p) => p@,
                    None => Seq::empty(),
                },
            ),
    {
        match pass {
            Some(p) => self.authenticate_with(p),
            None => self.authenticate_with(String::new()),
        }
    }

    /// Asks to send a command, whether the session has logged in or not. The
    /// result is `PacketError` at once where the body is longer than
    /// `PACKET_BODY_MAX_LEN` bytes or not ASCII; else it is the command
    /// packet to send, with the session's next identifier. An exchange that
    /// was under way is given up.
    pub fn send_cmd(&mut self, body: &str) -> (action: Action)
        ensures
            (final(self)@, action@) == old(self)@.send_cmd(body@),
    {
        proof {
            use_type_invariant(&*self);
        }
        if body.as_bytes().len() > PACKET_BODY_MAX_LEN {
            return Action::Response(Err(RconError::PacketError));
        }
        match Packet::new(self.next_send_id, PacketType::Command, body.to_owned()) {
            Ok(packet) => self.start(Goal::Command, packet),
            Err(_) => Action::Response(Err(RconError::PacketError)),
        }
    }

    /// Takes the report on the action that the session asked for last, and
    /// returns what it asks next.
    pub fn step(&mut self, event: Event) -> (action: Action)
        ensures
            (final(self)@, action@) == old(self)@.step(event@),
    {
        proof {
            use_type_invariant(&*self);
        }
        match self.phase {
            Phase::Idle => Action::Idle,
            Phase::Sending(goal, id) => match event {
                Event::Sent => {
                    self.last_sent_id = id;
                    self.next_send_id = if id == i32::MAX {
                        1
                    } else {
                        id + 1
                    };
                    self.phase = Phase::Receiving(goal);
                    self.packets = no_packets();
                    Action::Receive
                },
                _ => self.fail(goal, RconError::ConnError),
            },
            Phase::Receiving(goal) => match event {
                Event::Received(data) => {
                    if data.len() == 0 {
                        self.finish(goal)
                    } else {
                        self.read(goal, data.as_slice())
                    }
                },
                Event::ReadFailed => self.fail(goal, RconError::ConnError),
                _ => self.finish(goal),
            },
        }
    }
}

impl Rcon {
    /// Identifier of the last packet that was written, 0 before the first.
    pub fn last_sent_id(&self) -> (id: i32)
        ensures
            id == self@.last_sent_id,
            self@.wf(),
    {
        proof {
            use_type_invariant(self);
        }
        self.last_sent_id
    }

    /// Identifier that the next command will carry.
    pub fn next_send_id(&self) -> (id: i32)
        ensures
            id == self@.next_send_id,
            self@.wf(),
    {
        proof {
            use_type_invariant(self);
        }
        self.next_send_id
    }

    /// True once a login was accepted.
    pub fn is_authenticated(&self) -> (authenticated: bool)
        ensures
            authenticated == self@.authenticated,
    {
        self.authenticated
    }

    /// What the session is waiting for.
    pub fn phase(&self) -> (phase: Phase)
        ensures
            phase == self@.phase,
    {
        self.phase
    }
}

/// Packets that all carry the identifier of the login, which is not
/// `BAD_AUTH`, accept the login.
pub proof fn lemma_matching_ids_accept(packets: Seq<PacketView>, sent_id: int)
    requires
        sent_id != BAD_AUTH,
        forall|i: int| 0 <= i < packets.len() ==> (#[trigger] packets[i]).id == sent_id,
    ensures
        login_accepted(packets, sent_id),
{
}

/// One packet with the identifier `BAD_AUTH` among the answers rejects the
/// login, whatever the others carry.
pub proof fn lemma_bad_auth_rejects(packets: Seq<PacketView>, sent_id: int, at: int)
    requires
        0 <= at < packets.len(),
        packets[at].id == BAD_AUTH,
    ensures
        !login_accepted(packets, sent_id),
{
}

/// One packet with another identifier than the login's among the answers
/// rejects the login, also where no packet carries `BAD_AUTH`.
pub proof fn lemma_other_id_rejects(packets: Seq<PacketView>, sent_id: int, at: int)
    requires
        0 <= at < packets.len(),
        packets[at].id != sent_id,
    ensures
        !login_accepted(packets, sent_id),
{
}

/// A command with an ASCII body of at most `PACKET_BODY_MAX_LEN` bytes is
/// sent, whether the session has logged in or not. Its packet is a command
/// with the session's next identifier. The identifiers stay as they are
/// until the write is reported: when it is done, that identifier is the last
/// one sent and the one after it the next to send; when it failed, the
/// command fails with `ConnError` and the identifiers are those from before.
pub proof fn lemma_command_is_sent(s: RconView, body: Seq<char>)
    requires
        s.wf(),
        vstd::utf8::is_ascii_chars(body),
        body.len() <= PACKET_BODY_MAX_LEN,
    ensures
        ({
            let packet = PacketView {
                size: body.len() + PACKET_SIZE_MIN,
                id: s.next_send_id,
                typ: PacketType::Command,
                body_text: body,
                body_bytes: encode_utf8(body),
            };
            let (s1, a1) = s.send_cmd(body);
            let (s2, a2) = s1.step(EventView::Sent);
            let (s3, a3) = s1.step(EventView::SendFailed);
            &&& a1 == ActionView::Send(frame(packet))
            &&& s1.last_sent_id == s.last_sent_id && s1.next_send_id == s.next_send_id
            &&& s1.authenticated == s.authenticated
            &&& a2 == ActionView::Receive
            &&& s2.last_sent_id == s.next_send_id && s2.next_send_id == next_id(s.next_send_id)
            &&& s2.phase == Phase::Receiving(Goal::Command)
            &&& a3 == ActionView::Response(Err(RconError::ConnError))
            &&& s3 == s.idle()
        }),
{
    vstd::utf8::is_ascii_chars_encode_utf8(body);
}

/// A command whose body is longer than `PACKET_BODY_MAX_LEN` bytes or not
/// ASCII is refused with `PacketError`, and the session stays as it was.
pub proof fn lemma_command_is_refused(s: RconView, body: Seq<char>)
    requires
        encode_utf8(body).len() > PACKET_BODY_MAX_LEN || !vstd::utf8::is_ascii_chars(body),
    ensures
        s.send_cmd(body) == (s, ActionView::Response(Err(RconError::PacketError))),
{
}

/// A request keeps the identifiers and the well-formedness of the session,
/// and never takes an accepted login back. A command that is not refused
/// carries the session's next identifier.
pub proof fn lemma_request_keeps_ids(s: RconView, text: Seq<char>)
    requires
        s.wf(),
    ensures
        s.authenticate(text).0.wf(),
        s.authenticate(text).0.last_sent_id == s.last_sent_id,
        s.authenticate(text).0.next_send_id == s.next_send_id,
        s.authenticate(text).0.authenticated == s.authenticated,
        s.authenticate(text).1 is Send ==> s.authenticate(text).0.phase == Phase::Sending(
            Goal::Login,
            LOGIN_ID,
        ),
        s.send_cmd(text).0.wf(),
        s.send_cmd(text).0.last_sent_id == s.last_sent_id,
        s.send_cmd(text).0.next_send_id == s.next_send_id,
        s.send_cmd(text).0.authenticated == s.authenticated,
        s.send_cmd(text).1 is Send ==> s.send_cmd(text).0.phase == Phase::Sending(
            Goal::Command,
            s.next_send_id as i32,
        ),
{
}

/// An event keeps the well-formedness of the session and never takes an
/// accepted login back. The identifiers change on one event only: when a
/// write is reported as done, the identifier of the written packet becomes
/// the last one sent, and the one after it the next to send.
pub proof fn lemma_step_keeps_ids(s: RconView, event: EventView)
    requires
        s.wf(),
    ensures
        s.step(event).0.wf(),
        s.authenticated ==> s.step(event).0.authenticated,
        s.phase matches Phase::Sending(_, id) ==> (event is Sent ==> s.step(event).0.last_sent_id
            == id && s.step(event).0.next_send_id == next_id(id as int)),
        !(s.phase is Sending && event is Sent) ==> s.step(event).0.last_sent_id == s.last_sent_id
            && s.step(event).0.next_send_id == s.next_send_id,
{
    if let Phase::Receiving(goal) = s.phase {
        if let EventView::Received(data) = event {
            lemma_read_keeps_ids(s, goal, data);
        }
    }
}

/// Reading the packets of a read keeps the well-formedness of the session
/// and its identifiers, and never takes an accepted login back.
pub proof fn lemma_read_keeps_ids(s: RconView, goal: Goal, data: Seq<u8>)
    requires
        s.wf(),
        !(s.phase is Sending),
    ensures
        s.read(goal, data).0.wf(),
        s.authenticated ==> s.read(goal, data).0.authenticated,
        s.read(goal, data).0.last_sent_id == s.last_sent_id,
        s.read(goal, data).0.next_send_id == s.next_send_id,
    decreases data.len(),
{
    if let Ok(p) = parsed(data) {
        if !is_terminal(p) && after_frame(data).len() > 0 {
            lemma_consumed_is_bounded(data);
            lemma_read_keeps_ids(
                RconView { packets: s.packets.push(p), ..s },
                goal,
                after_frame(data),
            );
        }
    }
}

/// Where a read begins with the frame of a packet that does not end the
/// response, that packet is collected as it reads back, and what follows
/// its frame in the read is read as the next packet. So two frames that
/// come in one read give the same as the two in a read each.
pub proof fn lemma_frames_in_one_read(s: RconView, goal: Goal, p: PacketView, more: Seq<u8>)
    requires
        p.wf(),
        p.is_sized_by_body(),
        p.size <= PACKET_SIZE_MAX,
        p.id != BAD_AUTH,
        p.body_bytes.len() > 0,
        more.len() > 0,
    ensures
        parsed(frame(p)) is Ok,
        s.read(goal, frame(p) + more) == (RconView {
            packets: s.packets.push(parsed(frame(p))->Ok_0),
            ..s
        }).read(goal, more),
        s.read(goal, frame(p)) == (
            RconView { packets: s.packets.push(parsed(frame(p))->Ok_0), ..s },
            ActionView::Receive,
        ),
{
    lemma_frame_reads_back(p, more);
    lemma_frame_reads_back(p, Seq::empty());
    assert((frame(p) + more).skip(consumed(frame(p) + more) + 2) == more);
}

/// The packets that a sequence of reads holds, one for each read.
pub open spec fn packets_of(reads: Seq<Seq<u8>>) -> Seq<PacketView> {
    Seq::new(reads.len(), |i: int| parsed(reads[i])->Ok_0)
}

/// True when every read holds one packet and no more, and none of these
/// packets ends a response.
pub open spec fn all_go_on(reads: Seq<Seq<u8>>) -> bool {
    forall|i: int|
        0 <= i < reads.len() ==> parsed(#[trigger] reads[i]) is Ok && !is_terminal(
            parsed(reads[i])->Ok_0,
        ) && after_frame(reads[i]).len() == 0
}

/// The session after it was told of each read in turn.
pub open spec fn after_reads(s: RconView, reads: Seq<Seq<u8>>) -> RconView
    decreases reads.len(),
{
    if reads.len() == 0 {
        s
    } else {
        after_reads(s, reads.drop_last()).step(EventView::Received(reads.last())).0
    }
}

/// While the reads hold one packet each that does not end the response, the
/// session collects them in the order of the reads, changes in nothing else,
/// and asks for another read after each.
pub proof fn lemma_reads_are_collected(s: RconView, goal: Goal, reads: Seq<Seq<u8>>)
    requires
        s.phase == Phase::Receiving(goal),
        all_go_on(reads),
    ensures
        after_reads(s, reads) == (RconView { packets: s.packets + packets_of(reads), ..s }),
        reads.len() > 0 ==> after_reads(s, reads.drop_last()).step(
            EventView::Received(reads.last()),
        ).1 == ActionView::Receive,
    decreases reads.len(),
{
    if reads.len() > 0 {
        let front = reads.drop_last();
        lemma_reads_are_collected(s, goal, front);
        assert((s.packets + packets_of(front)).push(parsed(reads.last())->Ok_0) == s.packets
            + packets_of(reads));
    }
}

/// A command's response is the packets of the reads, in their order: those
/// that do not end the response, and then the packet that ends it, or
/// nothing more where the data ends first, be it by a read that times out
/// or by one that returns no bytes. A read whose bytes cannot be read as a
/// packet, or that fails, makes the command fail instead.
pub proof fn lemma_response_in_order(s: RconView, reads: Seq<Seq<u8>>, last: Seq<u8>)
    requires
        s.phase == Phase::Receiving(Goal::Command),
        s.packets.len() == 0,
        all_go_on(reads),
    ensures
        after_reads(s, reads).step(EventView::ReadEnded) == (
            s.idle(),
            ActionView::Response(Ok(packets_of(reads))),
        ),
        parsed(last) matches Ok(p) ==> (is_terminal(p) ==> after_reads(s, reads).step(
            EventView::Received(last),
        ) == (s.idle(), ActionView::Response(Ok(packets_of(reads).push(p))))),
        parsed(last) is Err && last.len() > 0 ==> after_reads(s, reads).step(
            EventView::Received(last),
        ) == (s.idle(), ActionView::Response(Err(RconError::PacketError))),
        after_reads(s, reads).step(EventView::Received(Seq::empty())) == (
            s.idle(),
            ActionView::Response(Ok(packets_of(reads))),
        ),
        after_reads(s, reads).step(EventView::ReadFailed) == (
            s.idle(),
            ActionView::Response(Err(RconError::ConnError)),
        ),
{
    lemma_reads_are_collected(s, Goal::Command, reads);
}

/// The whole login, when the server accepts it at once. From any session,
/// a password that can be framed gives the login packet; once that is
/// written and one answer with the login's identifier and an empty body is
/// read, the session counts as logged in and sends the empty command with its
/// next identifier; once that is written and its response is over, however
/// it ends, the result is `Authenticated(true)`.
pub proof fn lemma_accepted_login(
    s: RconView,
    password: Seq<char>,
    answer: Seq<u8>,
    end: EventView,
)
    requires
        s.wf(),
        built(LOGIN_ID as int, PacketType::Login, password) is Ok,
        parsed(answer) matches Ok(p) && p.id == LOGIN_ID && p.body_bytes.len() == 0,
        end is ReadEnded || end is ReadFailed || (end matches EventView::Received(data) && (
        data.len() == 0 || parsed(data) is Err || is_terminal(parsed(data)->Ok_0))),
    ensures
        ({
            let login = built(LOGIN_ID as int, PacketType::Login, password)->Ok_0;
            let follow_up = built(next_id(LOGIN_ID as int), PacketType::Command, Seq::empty())->Ok_0;
            let (s1, a1) = s.authenticate(password);
            let (s2, a2) = s1.step(EventView::Sent);
            let (s3, a3) = s2.step(EventView::Received(answer));
            let (s4, a4) = s3.step(EventView::Sent);
            let (s5, a5) = s4.step(end);
            &&& a1 == ActionView::Send(frame(login))
            &&& a2 == ActionView::Receive
            &&& a3 == ActionView::Send(frame(follow_up))
            &&& s3.authenticated
            &&& a4 == ActionView::Receive
            &&& a5 == ActionView::Authenticated(true)
            &&& s5 == (RconView {
                last_sent_id: next_id(LOGIN_ID as int),
                next_send_id: next_id(next_id(LOGIN_ID as int)),
                authenticated: true,
                phase: Phase::Idle,
                packets: Seq::empty(),
            })
        }),
{
}

/// The whole login, when the server rejects it: where the first answer
/// carries `BAD_AUTH`, the result is `Authenticated(false)`, nothing more is
/// sent, and the session is no more logged in than it was.
pub proof fn lemma_rejected_login(s: RconView, password: Seq<char>, answer: Seq<u8>)
    requires
        s.wf(),
        built(LOGIN_ID as int, PacketType::Login, password) is Ok,
        parsed(answer) matches Ok(p) && p.id == BAD_AUTH,
    ensures
        ({
            let (s1, a1) = s.authenticate(password);
            let (s2, a2) = s1.step(EventView::Sent);
            let (s3, a3) = s2.step(EventView::Received(answer));
            &&& a3 == ActionView::Authenticated(false)
            &&& s3.phase == Phase::Idle
            &&& s3.authenticated == s.authenticated
        }),
{
    let (s1, a1) = s.authenticate(password);
    let (s2, a2) = s1.step(EventView::Sent);
    let p = parsed(answer)->Ok_0;
    lemma_bad_auth_rejects(s2.packets.push(p), LOGIN_ID as int, 0);
}

} // verus!
