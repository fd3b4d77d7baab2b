//! The websocket side: which requests wait for a reply, where an incoming
//! message goes, and what is answered to a call from the page.
use vstd::prelude::*;

use crate::message::{
    bind_request, is_request_id, new_request_id, null_text, reply_to, MessageView, MyMessage,
};
use crate::text::{contains_string, copy_strings, lemma_push_contains, opt_view, views};

verus! {

/// The bookkeeping of the connection to the page.
///
/// `pending` holds the identifiers of the requests sent and not yet answered;
/// `map` the names of the functions the program offers to the page.
#[derive(Clone)]
pub struct NetworkManager {
    connected: bool,
    pending: Vec<String>,
    map: Vec<String>,
    str: Option<String>,
}

/// The state of a [`NetworkManager`] as mathematical values.
pub struct NetView {
    pub connected: bool,
    pub pending: Set<Seq<char>>,
    pub names: Seq<Seq<char>>,
    pub session: Option<Seq<char>>,
}

impl View for NetworkManager {
    type V = NetView;

    closed spec fn view(&self) -> NetView {
        NetView {
            connected: self.connected,
            pending: views(self.pending@).to_set(),
            names: views(self.map@),
            session: opt_view(self.str),
        }
    }
}

/// What sending a request amounts to.
pub enum SendStep {
    /// The page is connected: write the message and wait for the reply with its id.
    Transmit(MyMessage),
    /// No page is connected: the message itself is the result.
    Unconnected(MyMessage),
}

/// Where an incoming message goes.
pub enum Route {
    /// It answers a request that waits for it.
    Wake(MyMessage),
    /// The page calls the function `name` with `params`; `id` names the call.
    Invoke { name: String, params: Vec<String>, id: String },
    /// Nothing to do.
    Ignore,
}

/// A [`Route`] as mathematical values.
pub enum RouteView {
    Wake(MessageView),
    Invoke { name: Seq<char>, params: Seq<Seq<char>>, id: Seq<char> },
    Ignore,
}

impl View for Route {
    type V = RouteView;

    open spec fn view(&self) -> RouteView {
        match self {
            Route::Wake(m) => RouteView::Wake(m@),
            Route::Invoke { name, params, id } => RouteView::Invoke {
                name: name@,
                params: views(params@),
                id: id@,
            },
            Route::Ignore => RouteView::Ignore,
        }
    }
}

/// The state after sending a request with identifier `id`.
pub open spec fn after_send(v: NetView, id: Seq<char>) -> NetView {
    if v.connected {
        NetView { pending: v.pending.insert(id), ..v }
    } else {
        v
    }
}

/// The state after the reply to request `id` was taken.
pub open spec fn after_settle(v: NetView, id: Seq<char>) -> NetView {
    NetView { pending: v.pending.remove(id), ..v }
}

/// Whether an incoming message is a call from the page.
pub open spec fn is_call(v: NetView, m: MessageView) -> bool {
    !v.pending.contains(m.id) && m.typ == "call"@
}

/// Whether an incoming message can be routed: a call must name a bound function.
pub open spec fn routable(v: NetView, m: MessageView) -> bool {
    is_call(v, m) ==> m.func_name.len() >= 2 && v.names.contains(m.func_name[1])
}

/// Where an incoming message goes.
pub open spec fn route_of(v: NetView, m: MessageView) -> RouteView {
    if v.pending.contains(m.id) {
        RouteView::Wake(m)
    } else if m.typ == "call"@ {
        RouteView::Invoke { name: m.func_name[1], params: m.params, id: m.id }
    } else {
        RouteView::Ignore
    }
}

/// The answer sent back for call `id` whose function returned `result`
/// (a JSON text, or nothing).
pub open spec fn answer_of(id: Seq<char>, result: Option<Seq<char>>) -> Option<MessageView> {
    match result {
        Some(r) => if r != null_text() {
            Some(reply_to(id, r))
        } else {
            None
        },
        None => None,
    }
}

/// Whether `m` binds `name`, under a fresh request identifier.
pub open spec fn binds(m: MessageView, name: Seq<char>) -> bool {
    m == bind_request(m.id, name) && is_request_id(m.id)
}

impl NetworkManager {
    /// A manager offering the functions named in `m`, with no page connected.
    pub fn new(m: Vec<String>) -> (nm: NetworkManager)
        requires
            views(m@).no_duplicates(),
        ensures
            !nm@.connected,
            nm@.pending == Set::<Seq<char>>::empty(),
            nm@.names == views(m@),
            nm@.session == Some("test"@),
    {
        let nm = NetworkManager {
            connected: false,
            pending: Vec::new(),
            map: m,
            str: Some("test".to_owned()),
        };
        assert(views(nm.pending@).to_set() =~= Set::<Seq<char>>::empty());
        nm
    }

    /// Whether a page is connected.
    pub fn is_connected(&self) -> (b: bool)
        ensures
            b == self@.connected,
    {
        self.connected
    }

    /// Whether the request `id` waits for its reply.
    pub fn is_waiting(&self, id: &String) -> (b: bool)
        ensures
            b == self@.pending.contains(id@),
    {
        contains_string(&self.pending, id)
    }

    /// The names of the functions offered to the page.
    pub fn names(&self) -> (r: Vec<String>)
        ensures
            views(r@) == self@.names,
    {
        copy_strings(&self.map)
    }

    /// The identifier of the current connection (`test` before any).
    pub fn session(&self) -> (r: Option<String>)
        ensures
            r matches Some(s) ==> self@.session == Some(s@),
            r is None ==> self@.session is None,
    {
        match &self.str {
            Some(s) => Some(s.clone()),
            None => None,
        }
    }

    /// A page connected: later requests go to it. The connection gets a
    /// fresh identifier.
    pub fn attach(&mut self)
        ensures
            final(self)@.connected,
            final(self)@.pending == old(self)@.pending,
            final(self)@.names == old(self)@.names,
            final(self)@.session matches Some(s) && is_request_id(s),
    {
        self.connected = true;
        self.str = Some(new_request_id());
    }

    /// Sends `m`: with a page connected, `m`'s id now waits for a reply and the
    /// message is to be written; otherwise `m` itself is the answer.
    pub fn send(&mut self, m: MyMessage) -> (step: SendStep)
        ensures
            final(self)@ == after_send(old(self)@, m@.id),
            old(self)@.connected ==> (step matches SendStep::Transmit(t) && t@ == m@),
            !old(self)@.connected ==> (step matches SendStep::Unconnected(t) && t@ == m@),
    {
        if self.connected {
            let ghost before = views(self.pending@);
            if !contains_string(&self.pending, &m.Id) {
                self.pending.push(m.Id.clone());
                assert(views(self.pending@) =~= before.push(m.Id@));
                proof {
                    lemma_push_contains(before, m.Id@);
                }
                assert(views(self.pending@).to_set() =~= before.to_set().insert(m.Id@));
            } else {
                assert(before.to_set() =~= before.to_set().insert(m.Id@));
            }
            SendStep::Transmit(m)
        } else {
            SendStep::Unconnected(m)
        }
    }

    /// The reply to request `id` was taken: it no longer waits.
    pub fn settle(&mut self, id: &String)
        ensures
            final(self)@ == after_settle(old(self)@, id@),
    {
        let ghost before = views(self.pending@);
        let mut kept: Vec<String> = Vec::new();
        let mut i: usize = 0;
        while i < self.pending.len()
            invariant
                i <= self.pending@.len(),
                before == views(self.pending@),
                forall|s: Seq<char>|
                    views(kept@).contains(s) <==> (s != id@ && views(
                        self.pending@,
                    ).subrange(0, i as int).contains(s)),
            decreases self.pending@.len() - i,
        {
            let ghost prev = views(kept@);
            let ghost seen = views(self.pending@).subrange(0, i as int);
            assert(views(self.pending@).subrange(0, i + 1) =~= seen.push(self.pending@[i as int]@));
            if self.pending[i] != *id {
                let s = self.pending[i].clone();
                kept.push(s);
                assert(views(kept@) =~= prev.push(self.pending@[i as int]@));
                proof {
                    lemma_push_contains(prev, self.pending@[i as int]@);
                }
            }
            proof {
                lemma_push_contains(seen, self.pending@[i as int]@);
            }
            i = i + 1;
        }
        assert(views(self.pending@).subrange(0, i as int) =~= views(self.pending@));
        self.pending = kept;
        assert(views(self.pending@).to_set() =~= before.to_set().remove(id@));
    }

    /// Whether `mm` can be routed (see [`routable`]); a call that names no
    /// bound function is refused.
    pub fn can_route(&self, mm: &MyMessage) -> (b: bool)
        ensures
            b == routable(self@, mm@),
    {
        if contains_string(&self.pending, &mm.Id) {
            return true;
        }
        let call = "call".to_owned();
        if mm.Typ != call {
            return true;
        }
        if mm.FuncName.len() < 2 {
            return false;
        }
        let b = contains_string(&self.map, &mm.FuncName[1]);
        assert(mm@.func_name[1] == mm.FuncName@[1]@);
        b
    }

    /// Where the incoming message `mm` goes: to the request waiting for its
    /// id, to the function a call names, or nowhere.
    pub fn route(&self, mm: MyMessage) -> (r: Route)
        requires
            routable(self@, mm@),
        ensures
            r@ == route_of(self@, mm@),
    {
        if contains_string(&self.pending, &mm.Id) {
            return Route::Wake(mm);
        }
        let call = "call".to_owned();
        if mm.Typ != call {
            return Route::Ignore;
        }
        let ghost v = mm@;
        let MyMessage { Typ: _, FuncName: func_name, Params: params, Id: id, Data: _ } = mm;
        let name = func_name[1].clone();
        assert(name@ == v.func_name[1]);
        Route::Invoke { name, params, id }
    }

    /// The answer to call `id` whose function returned `result`: nothing when
    /// it returned nothing or null, otherwise a reply with the same id.
    pub fn answer(id: String, result: Option<String>) -> (r: Option<MyMessage>)
        ensures
            r matches Some(m) ==> answer_of(id@, opt_view(result)) == Some(m@),
            r is None ==> answer_of(id@, opt_view(result)) is None,
    {
        match result {
            Some(data) => {
                let null = "null".to_owned();
                if data != null {
                    Some(MyMessage::reply(id, data))
                } else {
                    None
                }
            },
            None => None,
        }
    }

    /// One bind request for every offered function, in order, each under a
    /// fresh identifier.
    pub fn bind2(&self) -> (r: Vec<MyMessage>)
        ensures
            r@.len() == self@.names.len(),
            forall|i: int| 0 <= i < r@.len() ==> binds(#[trigger] r@[i]@, self@.names[i]),
    {
        let mut r: Vec<MyMessage> = Vec::new();
        let mut i: usize = 0;
        while i < self.map.len()
            invariant
                i <= self.map@.len(),
                r@.len() == i,
                forall|j: int| 0 <= j < i ==> binds(#[trigger] r@[j]@, views(self.map@)[j]),
            decreases self.map@.len() - i,
        {
            let id = new_request_id();
            let m = MyMessage::bind_request(id, self.map[i].clone());
            r.push(m);
            i = i + 1;
        }
        r
    }
}

/// Sending a request and then taking its reply leaves the waiting requests
/// as they were, when no other request with that id was waiting.
pub proof fn lemma_send_then_settle(v: NetView, id: Seq<char>)
    requires
        !v.pending.contains(id),
    ensures
        after_settle(after_send(v, id), id) == v,
{
    assert(v.pending.insert(id).remove(id) =~= v.pending);
    assert(v.pending.remove(id) =~= v.pending);
}

/// While a request sent to a connected page waits, an incoming message with
/// its id is handed back to it, and never taken for a call.
pub proof fn lemma_reply_reaches_sender(v: NetView, id: Seq<char>, reply: MessageView)
    requires
        v.connected,
        reply.id == id,
    ensures
        routable(after_send(v, id), reply),
        route_of(after_send(v, id), reply) == RouteView::Wake(reply),
{
}

/// Once the reply to a request was taken, a later message with the same id is
/// no longer handed to it.
pub proof fn lemma_settled_reply_not_woken(v: NetView, m: MessageView)
    ensures
        !(route_of(after_settle(v, m.id), m) is Wake),
{
}

/// A call from the page is answered exactly when its function returned a
/// value other than null, and the answer bears the call's id and that value.
pub proof fn lemma_answer_iff_value(id: Seq<char>, result: Option<Seq<char>>)
    ensures
        answer_of(id, result) is Some <==> (result matches Some(r) && r != null_text()),
        answer_of(id, result) matches Some(a) ==> a.id == id && Some(a.data) == result,
{
}

/// A call from the page names a bound function: it is invoked with the call's
/// parameters under the call's id, and answered with a reply bearing that id
/// and the returned value exactly when the function returned a value other
/// than null.
pub proof fn lemma_call_invoked_and_answered(
    v: NetView,
    m: MessageView,
    result: Option<Seq<char>>,
)
    requires
        is_call(v, m),
        routable(v, m),
    ensures
        route_of(v, m) == (RouteView::Invoke { name: m.func_name[1], params: m.params, id: m.id }),
        v.names.contains(m.func_name[1]),
        answer_of(m.id, result) == (match result {
            Some(r) => if r != null_text() {
                Some(reply_to(m.id, r))
            } else {
                None
            },
            None => None,
        }),
{
}

/// An incoming message is refused exactly when it is a call (its id waits
/// for nothing and its kind is `call`) that names no function, or names one
/// that is not bound.
pub proof fn lemma_refused_iff(v: NetView, m: MessageView)
    ensures
        !routable(v, m) <==> (!v.pending.contains(m.id) && m.typ == "call"@ && (m.func_name.len()
            < 2 || !v.names.contains(m.func_name[1]))),
{
}

} // verus!
