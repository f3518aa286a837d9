//! Client sessions on the server side: logging in and out, resuming a
//! session on a new connection, subscriptions, and the messages the server
//! sends to the connections of the sessions.
use vstd::prelude::*;
use crate::networking::messages::{SessionID, ConnectionID, UserRole, TcpClientMessage, TcpServerMessage};
use crate::networking::subscription::{SubscribeTopic, UpdateMode, TopicPayload, DMXConfigurationForClient};
use crate::text::str_eq;

verus! {

/// A random 64-bit number (`rand::random`); nothing is stated of it.
#[verifier::external_body]
fn random_token() -> (r: u64) {
    rand::random::<u64>()
}

/// A logged-in user's session. It outlives its connection, so that the
/// client can resume it.
#[derive(Debug)]
pub struct ClientSession {
    /// The user's name.
    pub user_name: String,
    /// The user's role.
    pub user_role: UserRole,
    /// The connection the session is active on, if any.
    pub active_connection: Option<ConnectionID>,
    /// The topics the session receives, with how.
    pub subscriptions: Vec<(SubscribeTopic, UpdateMode)>,
}

/// The abstract session.
pub struct SessionView {
    pub user_name: Seq<char>,
    pub user_role: UserRole,
    pub active_connection: Option<ConnectionID>,
    pub subscriptions: Seq<(SubscribeTopic, UpdateMode)>,
}

impl View for ClientSession {
    type V = SessionView;

    open spec fn view(&self) -> SessionView {
        SessionView {
            user_name: self.user_name@,
            user_role: self.user_role,
            active_connection: self.active_connection,
            subscriptions: self.subscriptions@,
        }
    }
}

/// All sessions, by token.
pub struct ServerState {
    sessions: Vec<(SessionID, ClientSession)>,
}

impl View for ServerState {
    type V = Seq<(SessionID, SessionView)>;

    closed spec fn view(&self) -> Seq<(SessionID, SessionView)> {
        self.sessions@.map_values(|p: (SessionID, ClientSession)| (p.0, p.1@))
    }
}

/// Whether a session has this token.
pub open spec fn has_session(s: Seq<(SessionID, SessionView)>, id: SessionID) -> bool {
    exists|i: int| 0 <= i < s.len() && (#[trigger] s[i]).0 == id
}

/// The position of the session with this token (meaningful when there is one).
pub open spec fn session_index(s: Seq<(SessionID, SessionView)>, id: SessionID) -> int {
    choose|i: int| 0 <= i < s.len() && (#[trigger] s[i]).0 == id
}

/// No two sessions have the same token.
pub open spec fn sessions_wf(s: Seq<(SessionID, SessionView)>) -> bool {
    forall|i: int, j: int| 0 <= i < j < s.len() ==> (#[trigger] s[i]).0 != (#[trigger] s[j]).0
}

/// The abstract message.
pub enum MessageView {
    Unauthenticated,
    LoginOk(SessionID),
    LoginFailed(Seq<char>),
    ReloginOk(SessionID),
    ReloginFailed(Seq<char>),
    LogoutOk,
    Kicked(Seq<char>),
    TopicUpdate(Seq<Seq<DMXConfigurationForClient>>),
    ShutdownAnnouncement,
    Other,
}

/// The abstract form of a message.
pub open spec fn message_view(m: TcpServerMessage) -> MessageView {
    match m {
        TcpServerMessage::Unauthenticated => MessageView::Unauthenticated,
        TcpServerMessage::LoginOk { token } => MessageView::LoginOk(token),
        TcpServerMessage::LoginFailed { reason } => MessageView::LoginFailed(reason@),
        TcpServerMessage::ReloginOk { token } => MessageView::ReloginOk(token),
        TcpServerMessage::ReloginFailed { reason } => MessageView::ReloginFailed(reason@),
        TcpServerMessage::LogoutOk => MessageView::LogoutOk,
        TcpServerMessage::Kicked { reason } => MessageView::Kicked(reason@),
        TcpServerMessage::TopicUpdate { data: TopicPayload::DMXConfiguration(d) } =>
            MessageView::TopicUpdate(d@.map_values(|row: Vec<DMXConfigurationForClient>| row@)),
        TcpServerMessage::ShutdownAnnouncement => MessageView::ShutdownAnnouncement,
        _ => MessageView::Other,
    }
}

/// The messages to send, each with the connection to send it on.
pub open spec fn outbox_view(o: Seq<(ConnectionID, TcpServerMessage)>) -> Seq<(ConnectionID, MessageView)> {
    o.map_values(|p: (ConnectionID, TcpServerMessage)| (p.0, message_view(p.1)))
}

/// The channel allocation as clients see it, universe by universe.
pub open spec fn allocation_view(d: Seq<Vec<DMXConfigurationForClient>>) -> Seq<Seq<DMXConfigurationForClient>> {
    d.map_values(|row: Vec<DMXConfigurationForClient>| row@)
}

/// Whether `subs` holds a subscription to `topic`, whatever its update mode.
pub open spec fn subscribed_to(subs: Seq<(SubscribeTopic, UpdateMode)>, topic: SubscribeTopic) -> bool {
    exists|i: int| 0 <= i < subs.len() && (#[trigger] subs[i]).0 == topic
}

/// The updates of `topic`: one to the active connection of every session
/// subscribed to the topic, in session order. Every update mode is served as
/// on change.
pub open spec fn updates_for(s: Seq<(SessionID, SessionView)>, topic: SubscribeTopic,
    data: Seq<Seq<DMXConfigurationForClient>>) -> Seq<(ConnectionID, MessageView)>
    decreases s.len(),
{
    if s.len() == 0 {
        Seq::empty()
    } else {
        let rest = updates_for(s.drop_last(), topic, data);
        let last = s.last().1;
        if subscribed_to(last.subscriptions, topic) && last.active_connection is Some {
            rest.push((last.active_connection->0, MessageView::TopicUpdate(data)))
        } else {
            rest
        }
    }
}

/// The shutdown announcements: one to the active connection of every session.
pub open spec fn shutdown_notices(s: Seq<(SessionID, SessionView)>) -> Seq<(ConnectionID, MessageView)>
    decreases s.len(),
{
    if s.len() == 0 {
        Seq::empty()
    } else {
        let rest = shutdown_notices(s.drop_last());
        match s.last().1.active_connection {
            Some(c) => rest.push((c, MessageView::ShutdownAnnouncement)),
            None => rest,
        }
    }
}

/// The latest data of every topic, sent to a client when it subscribes.
pub struct ContinuousBuffer {
    /// The latest channel allocation.
    pub dmx_config: Vec<Vec<DMXConfigurationForClient>>,
}

impl ContinuousBuffer {
    /// A buffer holding one empty universe.
    pub fn new() -> (r: Self)
        ensures
            allocation_view(r.dmx_config@) == seq![Seq::<DMXConfigurationForClient>::empty()],
    {
        let mut d: Vec<Vec<DMXConfigurationForClient>> = Vec::new();
        d.push(Vec::new());
        assert(allocation_view(d@) =~= seq![Seq::<DMXConfigurationForClient>::empty()]);
        ContinuousBuffer { dmx_config: d }
    }
}

/// A copy of a channel allocation.
pub fn copy_allocation(d: &Vec<Vec<DMXConfigurationForClient>>) -> (r: Vec<Vec<DMXConfigurationForClient>>)
    ensures
        allocation_view(r@) == allocation_view(d@),
{
    let mut out: Vec<Vec<DMXConfigurationForClient>> = Vec::new();
    let mut u: usize = 0;
    while u < d.len()
        invariant
            u <= d@.len(),
            allocation_view(out@) =~= allocation_view(d@).take(u as int),
        decreases d.len() - u,
    {
        let mut row: Vec<DMXConfigurationForClient> = Vec::new();
        let mut c: usize = 0;
        while c < d[u].len()
            invariant
                u < d@.len(),
                c <= d@[u as int]@.len(),
                row@ =~= d@[u as int]@.take(c as int),
            decreases d@[u as int]@.len() - c,
        {
            row.push(d[u][c].clone());
            c = c + 1;
        }
        assert(row@ =~= d@[u as int]@);
        let ghost before = out@;
        out.push(row);
        assert(allocation_view(out@) =~= allocation_view(before).push(row@));
        u = u + 1;
    }
    out
}

/// The `j`-th probe after `start` (wrapping).
spec fn probe(start: u64, j: nat) -> u64 {
    ((start as nat + j) % 0x1_0000_0000_0000_0000) as u64
}

/// The probes `start`, `start + 1`, ... (wrapping), the first `m` of them.
spec fn probes(start: u64, m: nat) -> Set<u64>
    decreases m,
{
    if m == 0 {
        Set::empty()
    } else {
        probes(start, (m - 1) as nat).insert(probe(start, (m - 1) as nat))
    }
}

proof fn lemma_probes(start: u64, m: nat)
    requires
        m <= 0x1_0000_0000_0000_0000,
    ensures
        probes(start, m).finite(),
        probes(start, m).len() == m,
        forall|x: u64| #[trigger] probes(start, m).contains(x) <==> exists|j: nat| j < m && x == #[trigger] probe(start, j),
    decreases m,
{
    if m > 0 {
        lemma_probes(start, (m - 1) as nat);
        let x = probe(start, (m - 1) as nat);
        if probes(start, (m - 1) as nat).contains(x) {
            let j = choose|j: nat| j < m - 1 && x == #[trigger] probe(start, j);
            let a = start as nat + j;
            let b = start as nat + (m - 1);
            assert(false) by (nonlinear_arith)
                requires
                    a < b,
                    b - a < 0x1_0000_0000_0000_0000,
                    a % 0x1_0000_0000_0000_0000 == b % 0x1_0000_0000_0000_0000,
            ;
        }
        assert forall|y: u64| #[trigger] probes(start, m).contains(y) implies exists|j: nat| j < m && y == #[trigger] probe(start, j) by {
            if y == x {
                assert(((m - 1) as nat) < m && y == probe(start, (m - 1) as nat));
            } else {
                let j = choose|j: nat| j < m - 1 && y == #[trigger] probe(start, j);
                assert(j < m && y == probe(start, j));
            }
        }
        assert forall|y: u64| (exists|j: nat| j < m && y == #[trigger] probe(start, j)) implies #[trigger] probes(start, m).contains(y) by {
            let j = choose|j: nat| j < m && y == #[trigger] probe(start, j);
            if j < m - 1 {
                assert(probes(start, (m - 1) as nat).contains(y));
            }
        }
    }
}

/// The tokens of the sessions.
pub open spec fn tokens(s: Seq<(SessionID, SessionView)>) -> Seq<SessionID> {
    s.map_values(|p: (SessionID, SessionView)| p.0)
}

impl ServerState {
    /// A server without sessions.
    pub fn new() -> (r: Self)
        ensures
            r@ == Seq::<(SessionID, SessionView)>::empty(),
    {
        ServerState { sessions: Vec::new() }
    }

    /// The number of sessions.
    pub fn len(&self) -> (r: usize)
        ensures
            r == self@.len(),
    {
        self.sessions.len()
    }

    /// The position of the session with this token.
    pub fn find_session(&self, id: SessionID) -> (r: Option<usize>)
        ensures
            r is None <==> !has_session(self@, id),
            r matches Some(i) ==> i < self@.len() && self@[i as int].0 == id,
    {
        let mut i: usize = 0;
        while i < self.sessions.len()
            invariant
                i <= self@.len(),
                forall|j: int| 0 <= j < i ==> self@[j].0 != id,
            decreases self.sessions.len() - i,
        {
            if self.sessions[i].0 == id {
                assert(self@[i as int].0 == self.sessions@[i as int].0);
                return Some(i);
            }
            i = i + 1;
        }
        None
    }

    /// A token no session has, drawn at random: the next free one after a
    /// random start.
    fn fresh_token(&self) -> (t: SessionID)
        ensures
            !has_session(self@, t),
    {
        let start = random_token();
        let n = self.sessions.len();
        let mut t = start;
        let mut k: u64 = 0;
        proof {
            lemma_probes(start, 0);
        }
        while self.find_session(t).is_some()
            invariant
                n == self@.len(),
                k as nat <= n,
                t as nat == (start as nat + k) % 0x1_0000_0000_0000_0000,
                forall|x: u64| #[trigger] probes(start, k as nat).contains(x) ==> tokens(self@).contains(x),
            decreases n - k,
        {
            let ghost ts = tokens(self@);
            proof {
                let i = session_index(self@, t);
                assert(ts[i] == t);
                assert(ts.contains(t));
                assert(t == probe(start, k as nat));
                lemma_probes(start, (k + 1) as nat);
                assert(probes(start, (k + 1) as nat) == probes(start, k as nat).insert(t));
                assert forall|x: u64| #[trigger] probes(start, (k + 1) as nat).contains(x) implies ts.contains(x) by {
                    if x != t {
                        assert(probes(start, k as nat).contains(x));
                    }
                }
                assert forall|x: u64| #[trigger] probes(start, (k + 1) as nat).contains(x) implies ts.to_set().contains(x) by {
                    assert(ts.contains(x));
                }
                assert(probes(start, (k + 1) as nat).subset_of(ts.to_set()));
                vstd::seq_lib::seq_to_set_is_finite(ts);
                vstd::set_lib::lemma_len_subset(probes(start, (k + 1) as nat), ts.to_set());
                ts.lemma_cardinality_of_set();
            }
            t = t.wrapping_add(1);
            k = k + 1;
        }
        t
    }
}


/// What the login messages do to the sessions, the token the connection
/// holds after, and the messages sent. Logging in with the (empty) password
/// opens a session with a fresh token on this connection (a wrong password is
/// answered twice); resuming a session moves it to this connection, kicking
/// its old connection, unless this connection is logged in already;
/// logging out closes the connection's session. Other messages change nothing.
pub open spec fn login_outcome(s: Seq<(SessionID, SessionView)>, message: TcpClientMessage, old_token: Option<SessionID>,
    conn: ConnectionID, s2: Seq<(SessionID, SessionView)>, token: Option<SessionID>, out: Seq<(ConnectionID, MessageView)>) -> bool {
    match message {
        TcpClientMessage::Login { password, user_name, user_role } => if password@ == ""@ {
            token matches Some(t) && !has_session(s, t)
                && s2 == s.push((t, SessionView { user_name: user_name@, user_role, active_connection: Some(conn),
                    subscriptions: Seq::empty() }))
                && out == seq![(conn, MessageView::LoginOk(t))]
        } else {
            token is None && s2 == s && out == seq![(conn, MessageView::LoginFailed("Wrong password"@)),
                (conn, MessageView::LoginFailed("Wrong password"@))]
        },
        TcpClientMessage::Relogin { user_id, clear_subscriptions } => if old_token is Some {
            token == old_token && s2 == s && out == seq![(conn, MessageView::ReloginFailed("Already logged in"@))]
        } else if has_session(s, user_id) {
            let i = session_index(s, user_id);
            let v = s[i].1;
            token == Some(user_id)
                && s2 == s.update(i, (user_id, SessionView {
                    active_connection: Some(conn),
                    subscriptions: if clear_subscriptions { Seq::empty() } else { v.subscriptions },
                    ..v
                }))
                && out == (match v.active_connection {
                    Some(c) => seq![(c, MessageView::Kicked("Newer Connection relogged in with same token"@))],
                    None => Seq::empty(),
                }) + seq![(conn, MessageView::ReloginOk(user_id))]
        } else {
            token is None && s2 == s && out == seq![(conn, MessageView::ReloginFailed("User doesnt exist"@))]
        },
        TcpClientMessage::Logout => token is None && out == seq![(conn, MessageView::LogoutOk)]
            && s2 == match old_token {
                Some(o) => if has_session(s, o) { s.remove(session_index(s, o)) } else { s },
                None => s,
            },
        _ => token == old_token && s2 == s && out == Seq::<(ConnectionID, MessageView)>::empty(),
    }
}

/// How a message from a connection is routed once the login messages are handled.
#[derive(Debug, PartialEq, Eq, Structural, Copy, Clone)]
pub enum Route {
    /// The connection is not logged in: answer `Unauthenticated`.
    Unauthenticated,
    /// Nothing more to do.
    Ignore,
    /// Handle the message for this session.
    Handle(SessionID),
}

/// Routes a message: without a session, anything but the login messages is
/// refused; with one, the login messages are done and the rest is handled.
pub fn route_message(token: Option<SessionID>, message: &TcpClientMessage) -> (r: Route)
    ensures
        token is None && (message is Login || message is Logout || message is Relogin) ==> r == Route::Ignore,
        token is None && !(message is Login || message is Logout || message is Relogin) ==> r == Route::Unauthenticated,
        token is Some && (message is Login || message is Logout || message is Relogin) ==> r == Route::Ignore,
        token is Some && !(message is Login || message is Logout || message is Relogin) ==> r == Route::Handle(token->0),
{
    let login = match message {
        TcpClientMessage::Login { .. } | TcpClientMessage::Logout | TcpClientMessage::Relogin { .. } => true,
        _ => false,
    };
    match token {
        None => if login { Route::Ignore } else { Route::Unauthenticated },
        Some(t) => if login { Route::Ignore } else { Route::Handle(t) },
    }
}

/// What closing a connection did to its session.
#[derive(Debug, PartialEq, Eq, Structural, Copy, Clone)]
pub enum Cleanup {
    /// The connection had no session.
    NoSession,
    /// The session was active on this connection and is now sleeping.
    Sleeping,
    /// The session is active on a newer connection, which it keeps.
    KeptNewConnection(ConnectionID),
    /// The session was sleeping already.
    AlreadySleeping,
}

/// What subscribing the session `token` to `topic` with `mode` does, `data`
/// being the latest data of the topic: an unknown token changes nothing; the
/// session's subscriptions gain the pair, and an active session is sent the
/// data at once.
pub open spec fn subscribe_outcome(s: Seq<(SessionID, SessionView)>, token: SessionID, topic: SubscribeTopic,
    mode: UpdateMode, data: Seq<Seq<DMXConfigurationForClient>>, s2: Seq<(SessionID, SessionView)>,
    out: Seq<(ConnectionID, MessageView)>) -> bool {
    if !has_session(s, token) {
        s2 == s && out.len() == 0
    } else {
        let i = session_index(s, token);
        let v = s[i].1;
        &&& s2 == s.update(i, (token, SessionView { subscriptions: v.subscriptions.push((topic, mode)), ..v }))
        &&& out == match v.active_connection {
            Some(c) => seq![(c, MessageView::TopicUpdate(data))],
            None => Seq::empty(),
        }
    }
}

impl ServerState {
    /// Handles the login messages; see [`login_outcome`]. Returns the token
    /// the connection holds after, and the messages to send.
    pub fn update_login_status(&mut self, message: &TcpClientMessage, old_token: Option<SessionID>,
        connection_id: ConnectionID) -> (r: (Option<SessionID>, Vec<(ConnectionID, TcpServerMessage)>))
        requires
            sessions_wf(old(self)@),
        ensures
            sessions_wf(final(self)@),
            login_outcome(old(self)@, *message, old_token, connection_id, final(self)@, r.0, outbox_view(r.1@)),
    {
        let ghost s0 = self@;
        let mut out: Vec<(ConnectionID, TcpServerMessage)> = Vec::new();
        match message {
            TcpClientMessage::Login { password, user_name, user_role } => {
                if str_eq(password.as_str(), "") {
                    let t = self.fresh_token();
                    self.sessions.push((t, ClientSession {
                        user_name: user_name.clone(),
                        user_role: *user_role,
                        active_connection: Some(connection_id),
                        subscriptions: Vec::new(),
                    }));
                    proof {
                        assert(self@ =~= s0.push((t, SessionView { user_name: user_name@, user_role: *user_role,
                            active_connection: Some(connection_id), subscriptions: Seq::empty() })));
                        assert forall|i: int, j: int| 0 <= i < j < self@.len() implies (#[trigger] self@[i]).0 != (#[trigger] self@[j]).0 by {
                            if j == s0.len() {
                                assert(self@[i] == s0[i]);
                            } else {
                                assert(self@[i] == s0[i] && self@[j] == s0[j]);
                            }
                        }
                    }
                    out.push((connection_id, TcpServerMessage::LoginOk { token: t }));
                    assert(outbox_view(out@) =~= seq![(connection_id, MessageView::LoginOk(t))]);
                    (Some(t), out)
                } else {
                    out.push((connection_id, TcpServerMessage::LoginFailed { reason: "Wrong password".to_owned() }));
                    out.push((connection_id, TcpServerMessage::LoginFailed { reason: "Wrong password".to_owned() }));
                    assert(outbox_view(out@) =~= seq![(connection_id, MessageView::LoginFailed("Wrong password"@)),
                        (connection_id, MessageView::LoginFailed("Wrong password"@))]);
                    (None, out)
                }
            }
            TcpClientMessage::Relogin { user_id, clear_subscriptions } => {
                if old_token.is_some() {
                    out.push((connection_id, TcpServerMessage::ReloginFailed { reason: "Already logged in".to_owned() }));
                    assert(outbox_view(out@) =~= seq![(connection_id, MessageView::ReloginFailed("Already logged in"@))]);
                    return (old_token, out);
                }
                match self.find_session(*user_id) {
                    Some(i) => {
                        proof {
                            let k = session_index(s0, *user_id);
                            if k != i as int {
                                if k < i as int {
                                    assert(s0[k].0 != s0[i as int].0);
                                } else {
                                    assert(s0[i as int].0 != s0[k].0);
                                }
                            }
                        }
                        let (id, mut session) = self.sessions.remove(i);
                        let ghost v = session@;
                        assert(s0[i as int] == (id, v));
                        if let Some(old_conn) = session.active_connection {
                            out.push((old_conn, TcpServerMessage::Kicked {
                                reason: "Newer Connection relogged in with same token".to_owned(),
                            }));
                        }
                        session.active_connection = Some(connection_id);
                        if *clear_subscriptions {
                            session.subscriptions = Vec::new();
                        }
                        let ghost mid = self.sessions@;
                        self.sessions.insert(i, (id, session));
                        proof {
                            assert(self@ =~= s0.update(i as int, (*user_id, SessionView {
                                active_connection: Some(connection_id),
                                subscriptions: if *clear_subscriptions { Seq::empty() } else { v.subscriptions },
                                ..v
                            })));
                            assert forall|a: int, b: int| 0 <= a < b < self@.len() implies (#[trigger] self@[a]).0 != (#[trigger] self@[b]).0 by {
                                assert(self@[a].0 == s0[a].0 && self@[b].0 == s0[b].0);
                            }
                        }
                        out.push((connection_id, TcpServerMessage::ReloginOk { token: *user_id }));
                        proof {
                            match v.active_connection {
                                Some(c) => assert(outbox_view(out@) =~= seq![(c, MessageView::Kicked("Newer Connection relogged in with same token"@))]
                                    + seq![(connection_id, MessageView::ReloginOk(*user_id))]),
                                None => assert(outbox_view(out@) =~= Seq::<(ConnectionID, MessageView)>::empty()
                                    + seq![(connection_id, MessageView::ReloginOk(*user_id))]),
                            }
                        }
                        (Some(*user_id), out)
                    }
                    None => {
                        out.push((connection_id, TcpServerMessage::ReloginFailed { reason: "User doesnt exist".to_owned() }));
                        assert(outbox_view(out@) =~= seq![(connection_id, MessageView::ReloginFailed("User doesnt exist"@))]);
                        (None, out)
                    }
                }
            }
            TcpClientMessage::Logout => {
                if let Some(o) = old_token {
                    if let Some(i) = self.find_session(o) {
                        proof {
                            let k = session_index(s0, o);
                            if k != i as int {
                                if k < i as int {
                                    assert(s0[k].0 != s0[i as int].0);
                                } else {
                                    assert(s0[i as int].0 != s0[k].0);
                                }
                            }
                        }
                        self.sessions.remove(i);
                        proof {
                            assert(self@ =~= s0.remove(i as int));
                            assert forall|a: int, b: int| 0 <= a < b < self@.len() implies (#[trigger] self@[a]).0 != (#[trigger] self@[b]).0 by {
                                let a0 = if a < i { a } else { a + 1 };
                                let b0 = if b < i { b } else { b + 1 };
                                assert(self@[a] == s0[a0] && self@[b] == s0[b0]);
                            }
                        }
                    }
                }
                out.push((connection_id, TcpServerMessage::LogoutOk));
                assert(outbox_view(out@) =~= seq![(connection_id, MessageView::LogoutOk)]);
                (None, out)
            }
            _ => {
                assert(outbox_view(out@) =~= Seq::<(ConnectionID, MessageView)>::empty());
                (old_token, out)
            }
        }
    }

    /// Subscribes the session `token` to `topic` with `mode`; an active
    /// session is sent the latest data of the topic at once.
    pub fn add_subscription(&mut self, token: SessionID, topic: SubscribeTopic, update_mode: UpdateMode,
        buffer: &ContinuousBuffer) -> (r: Vec<(ConnectionID, TcpServerMessage)>)
        requires
            sessions_wf(old(self)@),
        ensures
            sessions_wf(final(self)@),
            subscribe_outcome(old(self)@, token, topic, update_mode, allocation_view(buffer.dmx_config@),
                final(self)@, outbox_view(r@)),
    {
        let ghost s0 = self@;
        let mut out: Vec<(ConnectionID, TcpServerMessage)> = Vec::new();
        match self.find_session(token) {
            None => {
                out
            }
            Some(i) => {
                proof {
                    let k = session_index(s0, token);
                    if k != i as int {
                        if k < i as int {
                            assert(s0[k].0 != s0[i as int].0);
                        } else {
                            assert(s0[i as int].0 != s0[k].0);
                        }
                    }
                }
                let (id, mut session) = self.sessions.remove(i);
                let ghost v = session@;
                assert(s0[i as int] == (id, v));
                session.subscriptions.push((topic, update_mode));
                if let Some(c) = session.active_connection {
                    let data = copy_allocation(&buffer.dmx_config);
                    out.push((c, TcpServerMessage::TopicUpdate { data: TopicPayload::DMXConfiguration(data) }));
                    assert(outbox_view(out@) =~= seq![(c, MessageView::TopicUpdate(allocation_view(buffer.dmx_config@)))]);
                } else {
                    assert(outbox_view(out@) =~= Seq::<(ConnectionID, MessageView)>::empty());
                }
                self.sessions.insert(i, (id, session));
                proof {
                    assert(self@ =~= s0.update(i as int, (token, SessionView {
                        subscriptions: v.subscriptions.push((topic, update_mode)),
                        ..v
                    })));
                    assert forall|a: int, b: int| 0 <= a < b < self@.len() implies (#[trigger] self@[a]).0 != (#[trigger] self@[b]).0 by {
                        assert(self@[a].0 == s0[a].0 && self@[b].0 == s0[b].0);
                    }
                }
                out
            }
        }
    }

    /// The updates of the channel allocation `data` for the sessions
    /// subscribed to it; see [`updates_for`]. The update mode names the kind of
    /// change that calls for the update: every subscription to the topic is
    /// served, whatever its mode, as on change.
    pub fn send_updates(&self, data: &Vec<Vec<DMXConfigurationForClient>>, _update_mode: UpdateMode)
        -> (r: Vec<(ConnectionID, TcpServerMessage)>)
        ensures
            outbox_view(r@) == updates_for(self@, SubscribeTopic::DMXConfiguration, allocation_view(data@)),
    {
        let ghost d = allocation_view(data@);
        let mut out: Vec<(ConnectionID, TcpServerMessage)> = Vec::new();
        let mut i: usize = 0;
        while i < self.sessions.len()
            invariant
                i <= self@.len(),
                d == allocation_view(data@),
                outbox_view(out@) == updates_for(self@.take(i as int), SubscribeTopic::DMXConfiguration, d),
            decreases self.sessions.len() - i,
        {
            assert(self@.take(i as int + 1).drop_last() =~= self@.take(i as int));
            assert(self@[i as int].1 == self.sessions@[i as int].1@);
            let session = &self.sessions[i].1;
            let mut subscribed = false;
            let mut j: usize = 0;
            while j < session.subscriptions.len()
                invariant
                    j <= session.subscriptions@.len(),
                    subscribed == (exists|x: int| 0 <= x < j && (#[trigger] session.subscriptions@[x]).0 == SubscribeTopic::DMXConfiguration),
                decreases session.subscriptions.len() - j,
            {
                let (t, _m) = session.subscriptions[j];
                if t == SubscribeTopic::DMXConfiguration {
                    subscribed = true;
                }
                j = j + 1;
            }
            assert(subscribed == subscribed_to(session.subscriptions@, SubscribeTopic::DMXConfiguration));
            if subscribed {
                if let Some(c) = session.active_connection {
                    let copy = copy_allocation(data);
                    let ghost before = out@;
                    out.push((c, TcpServerMessage::TopicUpdate { data: TopicPayload::DMXConfiguration(copy) }));
                    assert(outbox_view(out@) =~= outbox_view(before).push((c, MessageView::TopicUpdate(d))));
                }
            }
            i = i + 1;
        }
        assert(self@.take(self@.len() as int) =~= self@);
        out
    }

    /// A new channel allocation: it becomes the latest, and the sessions
    /// subscribed to it are sent it.
    pub fn on_dmx_config_update(&self, buffer: &mut ContinuousBuffer, data: Vec<Vec<DMXConfigurationForClient>>)
        -> (r: Vec<(ConnectionID, TcpServerMessage)>)
        ensures
            allocation_view(final(buffer).dmx_config@) == allocation_view(data@),
            outbox_view(r@) == updates_for(self@, SubscribeTopic::DMXConfiguration, allocation_view(data@)),
    {
        buffer.dmx_config = copy_allocation(&data);
        self.send_updates(&data, UpdateMode::OnChange)
    }

    /// The shutdown announcements; see [`shutdown_notices`].
    pub fn announce_shutdown(&self) -> (r: Vec<(ConnectionID, TcpServerMessage)>)
        ensures
            outbox_view(r@) == shutdown_notices(self@),
    {
        let mut out: Vec<(ConnectionID, TcpServerMessage)> = Vec::new();
        let mut i: usize = 0;
        while i < self.sessions.len()
            invariant
                i <= self@.len(),
                outbox_view(out@) == shutdown_notices(self@.take(i as int)),
            decreases self.sessions.len() - i,
        {
            assert(self@.take(i as int + 1).drop_last() =~= self@.take(i as int));
            assert(self@[i as int].1 == self.sessions@[i as int].1@);
            if let Some(c) = self.sessions[i].1.active_connection {
                let ghost before = out@;
                out.push((c, TcpServerMessage::ShutdownAnnouncement));
                assert(outbox_view(out@) =~= outbox_view(before).push((c, MessageView::ShutdownAnnouncement)));
            }
            i = i + 1;
        }
        assert(self@.take(self@.len() as int) =~= self@);
        out
    }

    /// Closing the connection `connection_id` that held `token`: a session
    /// active on this connection goes to sleep; one already on a newer
    /// connection, or sleeping, is left as it is.
    pub fn connection_closed(&mut self, token: Option<SessionID>, connection_id: ConnectionID) -> (r: Cleanup)
        requires
            sessions_wf(old(self)@),
        ensures
            sessions_wf(final(self)@),
            match token {
                None => r == Cleanup::NoSession && final(self)@ == old(self)@,
                Some(t) => if !has_session(old(self)@, t) {
                    r == Cleanup::NoSession && final(self)@ == old(self)@
                } else {
                    let i = session_index(old(self)@, t);
                    let v = old(self)@[i].1;
                    match v.active_connection {
                        Some(c) => if c == connection_id {
                            r == Cleanup::Sleeping && final(self)@ == old(self)@.update(i,
                                (t, SessionView { active_connection: None, ..v }))
                        } else {
                            r == Cleanup::KeptNewConnection(c) && final(self)@ == old(self)@
                        },
                        None => r == Cleanup::AlreadySleeping && final(self)@ == old(self)@,
                    }
                },
            },
    {
        let ghost s0 = self@;
        let t = match token {
            None => return Cleanup::NoSession,
            Some(t) => t,
        };
        let i = match self.find_session(t) {
            None => return Cleanup::NoSession,
            Some(i) => i,
        };
        proof {
            let k = session_index(s0, t);
            if k != i as int {
                if k < i as int {
                    assert(s0[k].0 != s0[i as int].0);
                } else {
                    assert(s0[i as int].0 != s0[k].0);
                }
            }
        }
        assert(s0[i as int].1 == self.sessions@[i as int].1@);
        match self.sessions[i].1.active_connection {
            Some(c) => {
                if c == connection_id {
                    let (id, mut session) = self.sessions.remove(i);
                    let ghost v = session@;
                    session.active_connection = None;
                    self.sessions.insert(i, (id, session));
                    proof {
                        assert(self@ =~= s0.update(i as int, (t, SessionView { active_connection: None, ..v })));
                        assert forall|a: int, b: int| 0 <= a < b < self@.len() implies (#[trigger] self@[a]).0 != (#[trigger] self@[b]).0 by {
                            assert(self@[a].0 == s0[a].0 && self@[b].0 == s0[b].0);
                        }
                    }
                    Cleanup::Sleeping
                } else {
                    Cleanup::KeptNewConnection(c)
                }
            }
            None => Cleanup::AlreadySleeping,
        }
    }
}


/// Law: logging out right after logging in on a connection gives the
/// sessions back as they were.
pub proof fn law_logout_undoes_login(s: Seq<(SessionID, SessionView)>, login: TcpClientMessage, conn: ConnectionID,
    s2: Seq<(SessionID, SessionView)>, token: Option<SessionID>, out: Seq<(ConnectionID, MessageView)>,
    s3: Seq<(SessionID, SessionView)>, token2: Option<SessionID>, out2: Seq<(ConnectionID, MessageView)>)
    requires
        sessions_wf(s),
        login is Login,
        login_outcome(s, login, None, conn, s2, token, out),
        token is Some,
        login_outcome(s2, TcpClientMessage::Logout, token, conn, s3, token2, out2),
    ensures
        s3 == s,
        token2 is None,
{
    let t = token->0;
    let n = s.len() as int;
    assert(s2[n].0 == t);
    assert(has_session(s2, t));
    let i = session_index(s2, t);
    if i < n {
        assert(s2[i] == s[i]);
        assert(has_session(s, t));
    }
    assert(i == n);
    assert(s2.remove(n) =~= s);
}
/// Law: a successful relogin (a connection without a session resuming an
/// existing one) moves the session to the connection, kicks its old
/// connection if it had one, and answers the new one; the user stays the
/// same, and other sessions are untouched. With `clear_subscriptions` the
/// session's subscriptions are emptied, without it they are kept unchanged.
pub proof fn law_relogin_subscriptions(s: Seq<(SessionID, SessionView)>, user_id: SessionID, clear_subscriptions: bool,
    conn: ConnectionID, s2: Seq<(SessionID, SessionView)>, token: Option<SessionID>, out: Seq<(ConnectionID, MessageView)>)
    requires
        sessions_wf(s),
        has_session(s, user_id),
        login_outcome(s, TcpClientMessage::Relogin { user_id, clear_subscriptions }, None, conn, s2, token, out),
    ensures
        token == Some(user_id),
        has_session(s2, user_id),
        s2.len() == s.len(),
        forall|j: int| 0 <= j < s.len() && (#[trigger] s[j]).0 != user_id ==> s2[j] == s[j],
        forall|j: int, k: int| 0 <= j < s2.len() && 0 <= k < s.len() && (#[trigger] s2[j]).0 == user_id
            && (#[trigger] s[k]).0 == user_id ==> {
                &&& s2[j].1.active_connection == Some(conn)
                &&& s2[j].1.user_name == s[k].1.user_name
                &&& s2[j].1.user_role == s[k].1.user_role
                &&& s2[j].1.subscriptions == (if clear_subscriptions { Seq::empty() } else { s[k].1.subscriptions })
                &&& out == (match s[k].1.active_connection {
                    Some(c) => seq![(c, MessageView::Kicked("Newer Connection relogged in with same token"@))],
                    None => Seq::empty(),
                }) + seq![(conn, MessageView::ReloginOk(user_id))]
            },
{
    let i = session_index(s, user_id);
    assert(s2[i].0 == user_id);
    assert forall|j: int| 0 <= j < s.len() && (#[trigger] s[j]).0 != user_id implies s2[j] == s[j] by {}
    assert forall|j: int, k: int| 0 <= j < s2.len() && 0 <= k < s.len() && (#[trigger] s2[j]).0 == user_id
        && (#[trigger] s[k]).0 == user_id implies {
            &&& s2[j].1.active_connection == Some(conn)
            &&& s2[j].1.user_name == s[k].1.user_name
            &&& s2[j].1.user_role == s[k].1.user_role
            &&& s2[j].1.subscriptions == (if clear_subscriptions { Seq::empty() } else { s[k].1.subscriptions })
            &&& out == (match s[k].1.active_connection {
                Some(c) => seq![(c, MessageView::Kicked("Newer Connection relogged in with same token"@))],
                None => Seq::empty(),
            }) + seq![(conn, MessageView::ReloginOk(user_id))]
        } by {
        if j != i {
            assert(s2[j] == s[j]);
            if j < i { assert(s[j].0 != s[i].0); } else { assert(s[i].0 != s[j].0); }
        }
        if k != i {
            if k < i { assert(s[k].0 != s[i].0); } else { assert(s[i].0 != s[k].0); }
        }
    }
}

} // verus!
