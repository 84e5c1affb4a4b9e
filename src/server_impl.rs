//! The server's chat rules: registering user names, relaying lines of chat,
//! and telling the others when a registered user leaves. Each rule is a step
//! from the table of names and one event to the new table and the frame to
//! send; the caller holds the table's lock for the whole step.
use vstd::prelude::*;
use crate::message_stream::{frame_bytes, payload_fits, serialize_data, MsgInfo};
use crate::messages::client::{
    Message as ClientMessage, MsgOnRegisterUser as RegisterRequest, MsgOnSent as SentRequest,
};
use crate::messages::server::{
    Message as ServerMessage, MsgAlreadyRegisteredUser, MsgOnDisconnect, MsgOnSent,
    MsgRegistrationSuccess,
};
use crate::messages::{read_text, text_pair_payload, text_payload};
use crate::registry::{has_key, keys_unique, without, PeerAddr, Registry};

verus! {

/// What the server knows of a registered client.
#[derive(Clone, Debug)]
pub struct ClientInfo {
    pub name: String,
}

impl ClientInfo {
    pub fn new(name: String) -> (r: ClientInfo)
        ensures
            r.name@ == name@,
    {
        ClientInfo { name }
    }
}

/// The registered names, by address, in order of registration.
pub open spec fn names_of(s: Seq<(PeerAddr, ClientInfo)>) -> Seq<(PeerAddr, Seq<char>)> {
    s.map_values(|e: (PeerAddr, ClientInfo)| (e.0, e.1.name@))
}

/// Some connection has registered `name`.
pub open spec fn name_taken(s: Seq<(PeerAddr, Seq<char>)>, name: Seq<char>) -> bool {
    exists|i: int| 0 <= i < s.len() && #[trigger] s[i].1 == name
}

/// The name registered by `addr`, if any.
pub open spec fn user_of(s: Seq<(PeerAddr, Seq<char>)>, addr: PeerAddr) -> Option<Seq<char>> {
    if has_key(s, addr) {
        Some(s[choose|i: int| 0 <= i < s.len() && s[i].0 == addr].1)
    } else {
        None
    }
}

/// The table after `addr` asks for `name`: unchanged when the name is taken,
/// else with `addr` now holding `name`.
pub open spec fn registered_after(s: Seq<(PeerAddr, Seq<char>)>, addr: PeerAddr, name: Seq<char>) -> Seq<
    (PeerAddr, Seq<char>),
> {
    if name_taken(s, name) {
        s
    } else {
        without(s, seq![addr]).push((addr, name))
    }
}

/// The frame for `code` and `payload`, when the payload fits in one.
pub open spec fn framed(code: u32, payload: Seq<u8>) -> Option<Seq<u8>> {
    if payload_fits(payload.len()) {
        Some(frame_bytes(code, payload))
    } else {
        None
    }
}

/// What the server sends after one event.
pub enum ServerReply {
    Nothing,
    /// A frame for the connection that caused the event.
    Reply(Vec<u8>),
    /// A frame for every other registered connection.
    BroadcastOthers(Vec<u8>),
}

pub enum Outgoing {
    Nothing,
    Reply(Seq<u8>),
    BroadcastOthers(Seq<u8>),
}

impl View for ServerReply {
    type V = Outgoing;

    open spec fn view(&self) -> Outgoing {
        match self {
            ServerReply::Nothing => Outgoing::Nothing,
            ServerReply::Reply(b) => Outgoing::Reply(b@),
            ServerReply::BroadcastOthers(b) => Outgoing::BroadcastOthers(b@),
        }
    }
}

pub open spec fn reply_with(f: Option<Seq<u8>>) -> Outgoing {
    match f {
        Some(b) => Outgoing::Reply(b),
        None => Outgoing::Nothing,
    }
}

pub open spec fn broadcast_with(f: Option<Seq<u8>>) -> Outgoing {
    match f {
        Some(b) => Outgoing::BroadcastOthers(b),
        None => Outgoing::Nothing,
    }
}

/// The server's answer to a request from `addr` for `name`.
pub open spec fn registration_reply(s: Seq<(PeerAddr, Seq<char>)>, name: Seq<char>) -> Outgoing {
    if name_taken(s, name) {
        reply_with(framed(ServerMessage::OnAlreadyRegisteredUser.spec_code(), text_payload(name)))
    } else {
        reply_with(framed(ServerMessage::OnRegistrationSuccess.spec_code(), text_payload(name)))
    }
}

/// One frame from `addr`: the new table and what to send. A registration
/// request takes the name if no one holds it; a line of chat from a
/// registered user goes to every other connection with the user's name; a
/// payload that does not decode, a line from an unregistered connection and
/// an unknown code change nothing and send nothing.
pub open spec fn on_read_spec(s: Seq<(PeerAddr, Seq<char>)>, addr: PeerAddr, m: (u32, Seq<u8>)) -> (
    Seq<(PeerAddr, Seq<char>)>,
    Outgoing,
) {
    if m.0 == ClientMessage::OnRegisterUser.spec_code() {
        match read_text(m.1) {
            Some(name) => (registered_after(s, addr, name), registration_reply(s, name)),
            None => (s, Outgoing::Nothing),
        }
    } else if m.0 == ClientMessage::OnSent.spec_code() {
        match (read_text(m.1), user_of(s, addr)) {
            (Some(msg), Some(user)) => (
                s,
                broadcast_with(framed(ServerMessage::OnSent.spec_code(), text_pair_payload(user, msg))),
            ),
            _ => (s, Outgoing::Nothing),
        }
    } else {
        (s, Outgoing::Nothing)
    }
}

proof fn lemma_names_of_keys(s: Seq<(PeerAddr, ClientInfo)>)
    ensures
        names_of(s).len() == s.len(),
        forall|i: int| 0 <= i < s.len() ==> #[trigger] names_of(s)[i] == (s[i].0, s[i].1.name@),
        keys_unique(s) <==> keys_unique(names_of(s)),
        forall|k: PeerAddr| #[trigger] has_key(s, k) <==> has_key(names_of(s), k),
{
    let n = names_of(s);
    assert forall|k: PeerAddr| #[trigger] has_key(s, k) <==> has_key(n, k) by {
        if has_key(s, k) {
            let i = choose|i: int| 0 <= i < s.len() && #[trigger] s[i].0 == k;
            assert(n[i].0 == k);
        }
        if has_key(n, k) {
            let i = choose|i: int| 0 <= i < n.len() && #[trigger] n[i].0 == k;
            assert(s[i].0 == k);
        }
    }
    if keys_unique(s) {
        assert forall|i: int, j: int| 0 <= i < j < n.len() implies #[trigger] n[i].0
            != #[trigger] n[j].0 by {
            assert(s[i].0 != s[j].0);
        }
    }
    if keys_unique(n) {
        assert forall|i: int, j: int| 0 <= i < j < s.len() implies #[trigger] s[i].0
            != #[trigger] s[j].0 by {
            assert(n[i].0 != n[j].0);
        }
    }
}

proof fn lemma_names_of_without(s: Seq<(PeerAddr, ClientInfo)>, g: Seq<PeerAddr>)
    ensures
        names_of(without(s, g)) == without(names_of(s), g),
    decreases s.len(),
{
    if s.len() == 0 {
        assert(names_of(s) =~= seq![]);
        assert(names_of(without(s, g)) =~= seq![]);
    } else {
        let p = s.drop_last();
        lemma_names_of_without(p, g);
        assert(names_of(s).drop_last() =~= names_of(p));
        assert(names_of(s).last() == (s.last().0, s.last().1.name@));
        let w = without(p, g);
        assert(names_of(w.push(s.last())) =~= names_of(w).push((s.last().0, s.last().1.name@)));
    }
}

/// Builds the frame for `code` and `payload`, when the payload fits.
fn framed_exec(code: u32, payload: &Vec<u8>) -> (r: Option<Vec<u8>>)
    ensures
        r is Some <==> framed(code, payload@) is Some,
        r is Some ==> framed(code, payload@) == Some(r->Some_0@),
{
    match serialize_data(code, payload.as_slice()) {
        Ok(b) => Some(b),
        Err(_) => None,
    }
}

/// The chat rules' state: who holds which name.
pub struct ServerImpl {
    clients: Registry<ClientInfo>,
}

impl View for ServerImpl {
    type V = Seq<(PeerAddr, Seq<char>)>;

    closed spec fn view(&self) -> Seq<(PeerAddr, Seq<char>)> {
        names_of(self.clients@)
    }
}

impl ServerImpl {
    /// Each address holds at most one name.
    pub open spec fn wf(&self) -> bool {
        keys_unique(self@)
    }

    pub fn new() -> (r: Self)
        ensures
            r.wf(),
            r@ == Seq::<(PeerAddr, Seq<char>)>::empty(),
    {
        let r = ServerImpl { clients: Registry::new() };
        assert(r@ =~= Seq::<(PeerAddr, Seq<char>)>::empty());
        r
    }

    /// The connection policy: every peer may connect.
    pub fn allow_connect(&self, addr: PeerAddr) -> (r: bool)
        ensures
            r,
    {
        true
    }

    /// Whether some connection holds `name`.
    fn name_registered(&self, name: &String) -> (r: bool)
        ensures
            r == name_taken(self@, name@),
    {
        let ghost n = self@;
        proof {
            lemma_names_of_keys(self.clients@);
        }
        let mut i: usize = 0;
        while i < self.clients.len()
            invariant
                0 <= i <= n.len(),
                n == self@,
                n == names_of(self.clients@),
                n.len() == self.clients@.len(),
                forall|j: int| 0 <= j < n.len() ==> #[trigger] n[j] == (
                    self.clients@[j].0,
                    self.clients@[j].1.name@,
                ),
                forall|j: int| 0 <= j < i ==> n[j].1 != name@,
            decreases n.len() - i,
        {
            let e = self.clients.get_at(i);
            if e.1.name == *name {
                assert(n[i as int].1 == name@);
                return true;
            }
            i = i + 1;
        }
        false
    }

    /// Handles one frame from `addr`; the caller sends what comes back.
    pub fn on_read(&mut self, addr: PeerAddr, msginfo: &MsgInfo) -> (r: ServerReply)
        requires
            old(self).wf(),
        ensures
            final(self).wf(),
            (final(self)@, r@) == on_read_spec(old(self)@, addr, msginfo@),
    {
        proof {
            lemma_names_of_keys(self.clients@);
        }
        let code = msginfo.code;
        if code == ClientMessage::OnRegisterUser.code() {
            let req = match RegisterRequest::from_payload(msginfo.data()) {
                Ok(m) => m,
                Err(_) => return ServerReply::Nothing,
            };
            let name = req.user.to_owned();
            if self.name_registered(&name) {
                let payload = MsgAlreadyRegisteredUser { user: req.user }.to_payload();
                match framed_exec(ServerMessage::OnAlreadyRegisteredUser.code(), &payload) {
                    Some(b) => ServerReply::Reply(b),
                    None => ServerReply::Nothing,
                }
            } else {
                let ghost s0 = self.clients@;
                self.clients.insert(addr, ClientInfo::new(name));
                proof {
                    lemma_names_of_without(s0, seq![addr]);
                    let w = without(s0, seq![addr]);
                    assert(names_of(w.push((addr, ClientInfo { name: name })))
                        =~= names_of(w).push((addr, name@)));
                    lemma_names_of_keys(self.clients@);
                }
                let payload = MsgRegistrationSuccess { user: req.user }.to_payload();
                match framed_exec(ServerMessage::OnRegistrationSuccess.code(), &payload) {
                    Some(b) => ServerReply::Reply(b),
                    None => ServerReply::Nothing,
                }
            }
        } else if code == ClientMessage::OnSent.code() {
            let sent = match SentRequest::from_payload(msginfo.data()) {
                Ok(m) => m,
                Err(_) => return ServerReply::Nothing,
            };
            let idx = match self.clients.find(addr) {
                Some(i) => i,
                None => return ServerReply::Nothing,
            };
            let entry = self.clients.get_at(idx);
            proof {
                let n = self@;
                assert(has_key(n, addr)) by {
                    assert(n[idx as int].0 == addr);
                }
                let i = choose|i: int| 0 <= i < n.len() && n[i].0 == addr;
                if i != idx {
                    if i < idx {
                        assert(n[i].0 != n[idx as int].0);
                    } else {
                        assert(n[idx as int].0 != n[i].0);
                    }
                }
                assert(user_of(n, addr) == Some(entry.1.name@));
            }
            let payload = MsgOnSent { user: entry.1.name.as_str(), msg: sent.msg }.to_payload();
            match framed_exec(ServerMessage::OnSent.code(), &payload) {
                Some(b) => ServerReply::BroadcastOthers(b),
                None => ServerReply::Nothing,
            }
        } else {
            ServerReply::Nothing
        }
    }

    /// Forgets the name held by `addr` and returns the frame that tells the
    /// other connections that its user left; `None` when `addr` held no name.
    pub fn on_disconnect(&mut self, addr: PeerAddr) -> (r: Option<Vec<u8>>)
        requires
            old(self).wf(),
        ensures
            final(self).wf(),
            final(self)@ == without(old(self)@, seq![addr]),
            user_of(old(self)@, addr) is None ==> r is None,
            user_of(old(self)@, addr) is Some ==> (r is Some <==> framed(
                ServerMessage::OnDisconnect.spec_code(),
                text_payload(user_of(old(self)@, addr)->Some_0),
            ) is Some),
            r is Some ==> framed(
                ServerMessage::OnDisconnect.spec_code(),
                text_payload(user_of(old(self)@, addr)->Some_0),
            ) == Some(r->Some_0@),
    {
        let ghost s0 = self.clients@;
        proof {
            lemma_names_of_keys(s0);
        }
        let removed = self.clients.remove(addr);
        proof {
            lemma_names_of_without(s0, seq![addr]);
            lemma_names_of_keys(self.clients@);
        }
        match removed {
            Some(info) => {
                proof {
                    let n = names_of(s0);
                    let k = choose|k: int| 0 <= k < s0.len() && s0[k] == (addr, info);
                    assert(n[k] == (addr, info.name@));
                    assert(has_key(n, addr));
                    let i = choose|i: int| 0 <= i < n.len() && n[i].0 == addr;
                    if i != k {
                        if i < k {
                            assert(n[i].0 != n[k].0);
                        } else {
                            assert(n[k].0 != n[i].0);
                        }
                    }
                    assert(user_of(n, addr) == Some(info.name@));
                }
                let payload = MsgOnDisconnect { user: info.name.as_str() }.to_payload();
                framed_exec(ServerMessage::OnDisconnect.code(), &payload)
            },
            None => None,
        }
    }
}

proof fn lemma_register_step(s: Seq<(PeerAddr, Seq<char>)>, a: PeerAddr, data: Seq<u8>)
    requires
        read_text(data) is Some,
    ensures
        on_read_spec(s, a, (ClientMessage::OnRegisterUser.spec_code(), data)) == (
            registered_after(s, a, read_text(data)->Some_0),
            registration_reply(s, read_text(data)->Some_0),
        ),
        name_taken(registered_after(s, a, read_text(data)->Some_0), read_text(data)->Some_0),
{
    let name = read_text(data)->Some_0;
    let s1 = registered_after(s, a, name);
    if !name_taken(s, name) {
        let w = without(s, seq![a]);
        assert(s1 == w.push((a, name)));
        assert(s1[w.len() as int].1 == name);
    }
    assert(name_taken(s1, name));
}

/// Two requests for the same name, from any two connections, handled one
/// after the other as the lock on the table orders them: on a free name the
/// first gets RegistrationSuccess and the second AlreadyRegisteredUser; on a
/// taken name both get AlreadyRegisteredUser. Never two successes.
pub proof fn lemma_registration_race(
    s: Seq<(PeerAddr, Seq<char>)>,
    a: PeerAddr,
    b: PeerAddr,
    data: Seq<u8>,
)
    requires
        read_text(data) is Some,
    ensures
        ({
            let m = (ClientMessage::OnRegisterUser.spec_code(), data);
            let name = read_text(data)->Some_0;
            let success = reply_with(
                framed(ServerMessage::OnRegistrationSuccess.spec_code(), text_payload(name)),
            );
            let taken = reply_with(
                framed(ServerMessage::OnAlreadyRegisteredUser.spec_code(), text_payload(name)),
            );
            &&& !name_taken(s, name) ==> on_read_spec(s, a, m).1 == success
            &&& name_taken(s, name) ==> on_read_spec(s, a, m).1 == taken
            &&& on_read_spec(on_read_spec(s, a, m).0, b, m).1 == taken
        }),
{
    let name = read_text(data)->Some_0;
    lemma_register_step(s, a, data);
    let s1 = registered_after(s, a, name);
    lemma_register_step(s1, b, data);
}

} // verus!
