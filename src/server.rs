//! The connection registry: handle assignment, the map of live
//! connections, the set of privileged handles, and the classification of
//! what a connection sends into events.

use std::collections::HashMap;
use std::collections::HashSet;
use vstd::prelude::*;
use vstd::utf8::*;
use crate::client::Client;
use crate::client::ReadResult;
use crate::text::normalize;
use crate::text::normalize_text;

verus! {

broadcast use vstd::std_specs::hash::group_hash_axioms;

/// The handle of the listening socket. Connections get handles from 1 on.
pub const LISTENER: usize = 0;

/// One lifecycle occurrence, tagged with the handle of its connection.
#[derive(Debug, PartialEq, Eq)]
pub enum ServerEvent {
    Connect(usize),
    Disconnect(usize),
    ReceiveUTF8(usize, String),
    ReceiveAdminUTF8(usize, String),
    ReceiveBytes(usize, Vec<u8>),
}

/// The mathematical form of a `ServerEvent`.
pub ghost enum EventView {
    Connect(usize),
    Disconnect(usize),
    ReceiveUTF8(usize, Seq<char>),
    ReceiveAdminUTF8(usize, Seq<char>),
    ReceiveBytes(usize, Seq<u8>),
}

impl View for ServerEvent {
    type V = EventView;

    open spec fn view(&self) -> EventView {
        match self {
            ServerEvent::Connect(h) => EventView::Connect(*h),
            ServerEvent::Disconnect(h) => EventView::Disconnect(*h),
            ServerEvent::ReceiveUTF8(h, t) => EventView::ReceiveUTF8(*h, t@),
            ServerEvent::ReceiveAdminUTF8(h, t) => EventView::ReceiveAdminUTF8(*h, t@),
            ServerEvent::ReceiveBytes(h, b) => EventView::ReceiveBytes(*h, b@),
        }
    }
}

pub open spec fn event_views(r: Option<ServerEvent>) -> Option<EventView> {
    match r {
        Some(e) => Some(e@),
        None => None,
    }
}

/// Whether a read of `bytes` by a connection with privilege `privileged`
/// grants it privilege: the bytes are text and, normalised, equal the secret.
pub open spec fn promotes(bytes: Seq<u8>, privileged: bool, secret: Seq<char>) -> bool {
    !privileged && valid_utf8(bytes) && normalize(decode_utf8(bytes)) == secret
}

/// The event that a read of `bytes` on connection `token` yields; `None`
/// when the read silently grants privilege.
pub open spec fn classification(
    token: usize,
    bytes: Seq<u8>,
    privileged: bool,
    secret: Seq<char>,
) -> Option<EventView> {
    if !valid_utf8(bytes) {
        Some(EventView::ReceiveBytes(token, bytes))
    } else if promotes(bytes, privileged, secret) {
        None
    } else if privileged {
        Some(EventView::ReceiveAdminUTF8(token, normalize(decode_utf8(bytes))))
    } else {
        Some(EventView::ReceiveUTF8(token, normalize(decode_utf8(bytes))))
    }
}

/// The same bytes and the same prior privilege always give the same event.
pub proof fn lemma_classification_deterministic(
    token: usize,
    bytes1: Seq<u8>,
    bytes2: Seq<u8>,
    privileged1: bool,
    privileged2: bool,
    secret: Seq<char>,
)
    requires
        bytes1 == bytes2,
        privileged1 == privileged2,
    ensures
        classification(token, bytes1, privileged1, secret) == classification(
            token,
            bytes2,
            privileged2,
            secret,
        ),
        promotes(bytes1, privileged1, secret) == promotes(bytes2, privileged2, secret),
{
}

/// Relies on `std::str::from_utf8`: it accepts exactly the well-formed UTF-8
/// encodings and yields the characters they encode.
#[verifier::external_body]
fn decode_text(bytes: &[u8]) -> (r: Option<&str>)
    ensures
        r is Some <==> valid_utf8(bytes@),
        r matches Some(t) ==> t@ == decode_utf8(bytes@),
{
    std::str::from_utf8(bytes).ok()
}

/// Turns the bytes of one successful read into an event, or into `None`
/// when they grant privilege.
pub fn classify(token: usize, bytes: Vec<u8>, privileged: bool, secret: &String) -> (r: Option<
    ServerEvent,
>)
    ensures
        event_views(r) == classification(token, bytes@, privileged, secret@),
{
    let text = match decode_text(bytes.as_slice()) {
        Some(t) => normalize_text(t),
        None => {
            return Some(ServerEvent::ReceiveBytes(token, bytes));
        },
    };
    if !privileged && text.eq(secret) {
        None
    } else if privileged {
        Some(ServerEvent::ReceiveAdminUTF8(token, text))
    } else {
        Some(ServerEvent::ReceiveUTF8(token, text))
    }
}

/// What to do about one readiness notification.
#[derive(Debug, PartialEq, Eq)]
pub enum Wake {
    /// The listener is ready: drain its pending connections.
    Accept,
    /// A live connection is readable: run its read loop.
    Read(usize),
    /// Nothing to do (write readiness, or a handle no longer live).
    Ignore,
}

/// The registry: the last handle issued, the live connections by handle,
/// the privileged handles, and the secret that grants privilege.
pub struct Server {
    current_token: usize,
    clients: HashMap<usize, Client>,
    admins: HashSet<usize>,
    secret: String,
}

impl Server {
    /// The last handle issued; 0 before any.
    pub closed spec fn last_token(&self) -> usize {
        self.current_token
    }

    /// The live connections by handle.
    pub closed spec fn clients(&self) -> Map<usize, Client> {
        self.clients@
    }

    pub open spec fn connected(&self) -> Set<usize> {
        self.clients().dom()
    }

    pub closed spec fn privileged(&self) -> Set<usize> {
        self.admins@
    }

    pub closed spec fn secret(&self) -> Seq<char> {
        self.secret@
    }

    /// Every privileged handle is live; every live handle was issued and
    /// is the one its connection carries.
    pub open spec fn wf(&self) -> bool {
        &&& self.privileged().subset_of(self.connected())
        &&& forall|h: usize| #[trigger]
            self.connected().contains(h) ==> 0 < h <= self.last_token() && self.clients()[h].spec_token()
                == h
    }

    /// An empty registry whose connections gain privilege with `secret`.
    pub fn new(secret: &str) -> (s: Server)
        ensures
            s.wf(),
            s.last_token() == 0,
            s.connected() == Set::<usize>::empty(),
            s.privileged() == Set::<usize>::empty(),
            s.secret() == secret@,
    {
        let s = Server {
            current_token: 0,
            clients: HashMap::new(),
            admins: HashSet::new(),
            secret: String::from_str(secret),
        };
        assert(s.clients@ =~= Map::<usize, Client>::empty());
        assert(s.admins@ =~= Set::<usize>::empty());
        s
    }

    /// Issues the handle for a newly accepted connection: one more than the
    /// last, hence above every handle issued before. `None` once the
    /// handles are exhausted.
    pub fn next_token(&mut self) -> (r: Option<usize>)
        requires
            old(self).wf(),
        ensures
            final(self).wf(),
            final(self).clients() == old(self).clients(),
            final(self).privileged() == old(self).privileged(),
            final(self).secret() == old(self).secret(),
            r is Some <==> old(self).last_token() < usize::MAX,
            match r {
                Some(h) => {
                    &&& h == old(self).last_token() + 1
                    &&& final(self).last_token() == h
                    &&& !old(self).connected().contains(h)
                    &&& forall|g: usize| old(self).connected().contains(g) ==> g < h
                },
                None => final(self).last_token() == old(self).last_token(),
            },
    {
        if self.current_token == usize::MAX {
            return None;
        }
        self.current_token = self.current_token + 1;
        Some(self.current_token)
    }

    /// Records the connection that got handle `token` once it is
    /// registered with the poller, and yields its `Connect` event. Only the
    /// handle issued last, and not yet live, is accepted.
    pub fn add_client(&mut self, token: usize, addr: String) -> (r: Option<ServerEvent>)
        requires
            old(self).wf(),
        ensures
            final(self).wf(),
            final(self).last_token() == old(self).last_token(),
            final(self).privileged() == old(self).privileged(),
            final(self).secret() == old(self).secret(),
            r is Some <==> (token == old(self).last_token() && token != LISTENER
                && !old(self).connected().contains(token)),
            match r {
                Some(e) => {
                    &&& e@ == EventView::Connect(token)
                    &&& final(self).connected() == old(self).connected().insert(token)
                    &&& final(self).clients() == old(self).clients().insert(token, final(self).clients()[token])
                    &&& final(self).clients()[token].spec_token() == token
                    &&& final(self).clients()[token].spec_addr() == addr@
                },
                None => final(self).clients() == old(self).clients(),
            },
    {
        if token != self.current_token || token == LISTENER || self.clients.contains_key(&token) {
            return None;
        }
        self.clients.insert(token, Client::new(token, addr));
        assert(self.clients@.dom() =~= old(self).clients@.dom().insert(token));
        Some(ServerEvent::Connect(token))
    }

    /// The live connection with handle `token`, if any.
    pub fn get_client(&self, token: usize) -> (r: Option<&Client>)
        ensures
            match r {
                Some(c) => self.connected().contains(token) && *c == self.clients()[token],
                None => !self.connected().contains(token),
            },
    {
        self.clients.get(&token)
    }

    /// Whether connection `token` holds privilege.
    pub fn is_privileged(&self, token: usize) -> (r: bool)
        ensures
            r == self.privileged().contains(token),
    {
        self.admins.contains(&token)
    }

    /// Tears connection `token` down: it leaves the live map and the
    /// privileged set. Returns what was removed; `None` when the handle was
    /// not live, in which case nothing changes.
    pub fn disconnect(&mut self, token: usize) -> (r: Option<Client>)
        requires
            old(self).wf(),
        ensures
            final(self).wf(),
            final(self).last_token() == old(self).last_token(),
            final(self).secret() == old(self).secret(),
            final(self).clients() == old(self).clients().remove(token),
            final(self).privileged() == old(self).privileged().remove(token),
            match r {
                Some(c) => old(self).connected().contains(token) && c == old(self).clients()[token],
                None => !old(self).connected().contains(token),
            },
    {
        let r = self.clients.remove(&token);
        self.admins.remove(&token);
        if r.is_none() {
            assert(old(self).privileged().remove(token) =~= old(self).privileged());
            assert(old(self).clients().remove(token) =~= old(self).clients());
        }
        r
    }

    /// What a readiness notification for handle `token` calls for. Only
    /// read readiness of a live connection leads to a read.
    pub fn wake(&self, token: usize, readable: bool) -> (r: Wake)
        ensures
            token == LISTENER ==> r is Accept,
            token != LISTENER ==> (r matches Wake::Read(h) ==> h == token),
            token != LISTENER ==> (r is Read <==> readable && self.connected().contains(token)),
            token != LISTENER ==> (r is Ignore <==> !(readable && self.connected().contains(token))),
    {
        if token == LISTENER {
            Wake::Accept
        } else if readable && self.clients.contains_key(&token) {
            Wake::Read(token)
        } else {
            Wake::Ignore
        }
    }

    /// Turns the end of a read loop on connection `token` into at most one
    /// event. End of stream and read errors yield `Disconnect`; data is
    /// classified against the connection's current privilege, and a read
    /// that presents the secret grants privilege and yields nothing. A
    /// handle that is not live yields nothing.
    pub fn client_event(&mut self, token: usize, result: ReadResult) -> (r: Option<ServerEvent>)
        requires
            old(self).wf(),
        ensures
            final(self).wf(),
            final(self).last_token() == old(self).last_token(),
            final(self).clients() == old(self).clients(),
            final(self).secret() == old(self).secret(),
            old(self).privileged().subset_of(final(self).privileged()),
            !old(self).connected().contains(token) ==> r is None && final(self).privileged()
                == old(self).privileged(),
            old(self).connected().contains(token) ==> match result {
                ReadResult::Data(b) => {
                    let p = old(self).privileged().contains(token);
                    &&& event_views(r) == classification(token, b@, p, old(self).secret())
                    &&& final(self).privileged() == if promotes(b@, p, old(self).secret()) {
                        old(self).privileged().insert(token)
                    } else {
                        old(self).privileged()
                    }
                },
                _ => {
                    &&& r matches Some(e) && e@ == EventView::Disconnect(token)
                    &&& final(self).privileged() == old(self).privileged()
                },
            },
    {
        if !self.clients.contains_key(&token) {
            return None;
        }
        match result {
            ReadResult::Data(b) => {
                let p = self.admins.contains(&token);
                let r = classify(token, b, p, &self.secret);
                if r.is_none() {
                    self.admins.insert(token);
                }
                r
            },
            _ => Some(ServerEvent::Disconnect(token)),
        }
    }
}

} // verus!
