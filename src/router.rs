//! The server's routing core: which peers are registered, which requests
//! await a reply, and what becomes of each message that arrives.
use vstd::prelude::*;
use crate::message::{Message, MessageV, MessageInner, InnerV, NodeType};

verus! {

broadcast use vstd::std_specs::vec::group_vec_axioms;

/// The peer that a message came from or goes to: a machine by its name, an
/// environment by the number of its connection.
#[derive(Debug, PartialEq)]
pub enum MessageSource {
    Machine(String),
    Environment(u64),
}

/// The model of a peer.
pub enum SourceV {
    Machine(Seq<char>),
    Environment(u64),
}

impl DeepView for MessageSource {
    type V = SourceV;

    open spec fn deep_view(&self) -> SourceV {
        match self {
            MessageSource::Machine(n) => SourceV::Machine(n@),
            MessageSource::Environment(e) => SourceV::Environment(*e),
        }
    }
}

impl MessageSource {
    pub fn copy(&self) -> (r: MessageSource)
        ensures
            r.deep_view() == self.deep_view(),
    {
        match self {
            MessageSource::Machine(n) => MessageSource::Machine(n.clone()),
            MessageSource::Environment(e) => MessageSource::Environment(*e),
        }
    }

    pub fn same(&self, other: &MessageSource) -> (r: bool)
        ensures
            r == (self.deep_view() == other.deep_view()),
    {
        match (self, other) {
            (MessageSource::Machine(a), MessageSource::Machine(b)) => *a == *b,
            (MessageSource::Environment(a), MessageSource::Environment(b)) => *a == *b,
            _ => false,
        }
    }
}

/// Why the router let a message go without forwarding it.
#[derive(Clone, Copy, PartialEq, Eq, Structural, Debug)]
pub enum DropReason {
    /// A reply to an id that no forwarded request awaits.
    UnknownReplyId,
    /// The peer it should go to is not registered.
    DestinationGone,
    /// A machine description after the handshake.
    UnexpectedDescription,
    /// A stream description on a message connection.
    UnexpectedStreamDescription,
    /// A heartbeat reply, which needs nothing more.
    HeartbeatReply,
    /// A message that is not the server's to handle.
    Unexpected,
}

/// What the router decided for one message.
#[derive(Debug, PartialEq)]
pub enum Decision {
    /// Send `message` to `to`.
    Forward { to: MessageSource, message: Message },
    /// Do nothing more with it.
    Drop(DropReason),
    /// The peer has gone and was taken out of the registry.
    Removed(MessageSource),
}

/// The model of a decision.
pub enum DecisionV {
    Forward { to: SourceV, message: MessageV },
    Drop(DropReason),
    Removed(SourceV),
}

impl DeepView for Decision {
    type V = DecisionV;

    open spec fn deep_view(&self) -> DecisionV {
        match self {
            Decision::Forward { to, message } => DecisionV::Forward {
                to: to.deep_view(),
                message: message.deep_view(),
            },
            Decision::Drop(r) => DecisionV::Drop(*r),
            Decision::Removed(s) => DecisionV::Removed(s.deep_view()),
        }
    }
}

/// The model of the router: the registered machines and environments, and
/// the table from the ids of forwarded requests to the peers awaiting their
/// replies.
pub struct RouterV {
    pub machines: Seq<Seq<char>>,
    pub environments: Seq<u64>,
    pub replies: Seq<(i64, SourceV)>,
}

/// The position of the entry for `id`, or -1.
pub open spec fn reply_index(s: Seq<(i64, SourceV)>, id: i64) -> int
    decreases s.len(),
{
    if s.len() == 0 {
        -1
    } else if s.last().0 == id {
        s.len() - 1
    } else {
        reply_index(s.drop_last(), id)
    }
}

/// The table with `id` mapped to `src`: an entry for `id` is overwritten,
/// else one is added at the end.
pub open spec fn set_reply(s: Seq<(i64, SourceV)>, id: i64, src: SourceV) -> Seq<(i64, SourceV)> {
    let i = reply_index(s, id);
    if i < 0 {
        s.push((id, src))
    } else {
        s.update(i, (id, src))
    }
}

/// The table without the entries that await replies for `src`.
pub open spec fn without_source(s: Seq<(i64, SourceV)>, src: SourceV) -> Seq<(i64, SourceV)>
    decreases s.len(),
{
    if s.len() == 0 {
        s
    } else {
        let r = without_source(s.drop_last(), src);
        if s.last().1 == src {
            r
        } else {
            r.push(s.last())
        }
    }
}

/// The peer is registered.
pub open spec fn registered(r: RouterV, p: SourceV) -> bool {
    match p {
        SourceV::Machine(n) => r.machines.contains(n),
        SourceV::Environment(e) => r.environments.contains(e),
    }
}

/// The sequence without the item `x`, where it holds it.
pub open spec fn remove_item<A>(s: Seq<A>, x: A) -> Seq<A> {
    if s.contains(x) {
        s.remove(s.index_of(x))
    } else {
        s
    }
}

/// The router with the peer, and every entry awaiting a reply for it, gone.
pub open spec fn unregister(r: RouterV, p: SourceV) -> RouterV {
    RouterV {
        machines: match p {
            SourceV::Machine(n) => remove_item(r.machines, n),
            _ => r.machines,
        },
        environments: match p {
            SourceV::Environment(e) => remove_item(r.environments, e),
            _ => r.environments,
        },
        replies: without_source(r.replies, p),
    }
}

/// Forwards `m` to `dest` if it is registered, first noting who awaits the
/// reply where `m` expects one.
pub open spec fn deliver(r: RouterV, dest: SourceV, m: MessageV, src: SourceV) -> (
    RouterV,
    DecisionV,
) {
    if !registered(r, dest) {
        (r, DecisionV::Drop(DropReason::DestinationGone))
    } else if m.inner.expects_forwarded_reply() {
        (
            RouterV { replies: set_reply(r.replies, m.message_id, src), ..r },
            DecisionV::Forward { to: dest, message: m },
        )
    } else {
        (r, DecisionV::Forward { to: dest, message: m })
    }
}

/// What the server does with a message addressed to itself; `fresh` is the
/// id of any message it answers with.
pub open spec fn handle_locally(r: RouterV, m: MessageV, src: SourceV, fresh: i64) -> (
    RouterV,
    DecisionV,
) {
    match m.inner {
        InnerV::MachineDescription { .. } => (r, DecisionV::Drop(DropReason::UnexpectedDescription)),
        InnerV::Disconnect => (unregister(r, src), DecisionV::Removed(src)),
        InnerV::StreamDescription { .. } => (
            r,
            DecisionV::Drop(DropReason::UnexpectedStreamDescription),
        ),
        InnerV::Heartbeat { is_reply } => if is_reply {
            (r, DecisionV::Drop(DropReason::HeartbeatReply))
        } else {
            deliver(
                r,
                src,
                MessageV { message_id: fresh, inner: InnerV::Heartbeat { is_reply: true } },
                src,
            )
        },
        InnerV::MachineListRequest => deliver(
            r,
            src,
            MessageV { message_id: fresh, inner: InnerV::MachineListReply { machines: r.machines } },
            src,
        ),
        _ => (r, DecisionV::Drop(DropReason::Unexpected)),
    }
}

/// What the router does with message `m` from `src`: a reply goes to the peer
/// that awaits it (and the table forgets it); else a message naming a machine
/// goes to that machine; else the server handles it if it is addressed to
/// the server or to anyone.
pub open spec fn route_spec(r: RouterV, m: MessageV, src: SourceV, fresh: i64) -> (
    RouterV,
    DecisionV,
) {
    match m.inner.reply_to() {
        Some(id) => {
            let i = reply_index(r.replies, id);
            if i < 0 {
                (r, DecisionV::Drop(DropReason::UnknownReplyId))
            } else {
                deliver(RouterV { replies: r.replies.remove(i), ..r }, r.replies[i].1, m, src)
            }
        },
        None => match m.inner.destination() {
            Some(name) => deliver(r, SourceV::Machine(name), m, src),
            None => {
                let to = m.inner.route().1;
                if to == NodeType::Server || to == NodeType::Any {
                    handle_locally(r, m, src, fresh)
                } else {
                    (r, DecisionV::Drop(DropReason::Unexpected))
                }
            },
        },
    }
}

/// Why a machine's first message did not register it.
#[derive(Clone, Copy, PartialEq, Eq, Structural, Debug)]
pub enum AdmitError {
    /// The first message was not a machine description.
    NotADescription,
    /// A connected machine already has that name.
    NameTaken,
}

/// The registries and the reply table of the server.
pub struct Router {
    machines: Vec<String>,
    environments: Vec<u64>,
    replies: Vec<(i64, MessageSource)>,
}

} // verus!

verus! {

/// Removing an item keeps a sequence free of duplicates.
proof fn lemma_remove_no_duplicates<A>(s: Seq<A>, i: int)
    requires
        s.no_duplicates(),
        0 <= i < s.len(),
    ensures
        s.remove(i).no_duplicates(),
        forall|x: A| s.remove(i).contains(x) ==> s.contains(x),
        !s.remove(i).contains(s[i]),
{
    let t = s.remove(i);
    assert forall|a: int, b: int| 0 <= a < t.len() && 0 <= b < t.len() && a != b implies t[a]
        != t[b] by {
        let a2 = if a < i {
            a
        } else {
            a + 1
        };
        let b2 = if b < i {
            b
        } else {
            b + 1
        };
        assert(t[a] == s[a2] && t[b] == s[b2]);
    }
    assert forall|x: A| t.contains(x) implies s.contains(x) by {
        let k = choose|k: int| 0 <= k < t.len() && t[k] == x;
        if k < i {
            assert(s[k] == x);
        } else {
            assert(s[k + 1] == x);
        }
    }
    if t.contains(s[i]) {
        let k = choose|k: int| 0 <= k < t.len() && t[k] == s[i];
        if k < i {
            assert(s[k] == s[i]);
        } else {
            assert(s[k + 1] == s[i]);
        }
    }
}

impl Router {
    /// The model of the router.
    pub closed spec fn view(&self) -> RouterV {
        RouterV {
            machines: self.machines.deep_view(),
            environments: self.environments@,
            replies: self.replies.deep_view(),
        }
    }

    /// No machine name and no environment is registered twice, and no id
    /// appears twice in the reply table.
    pub open spec fn wf(&self) -> bool {
        &&& self.view().machines.no_duplicates()
        &&& self.view().environments.no_duplicates()
        &&& unique_ids(self.view().replies)
    }

    /// A router with nothing registered and no request awaiting a reply.
    pub fn new() -> (r: Router)
        ensures
            r.wf(),
            r.view().machines.len() == 0,
            r.view().environments.len() == 0,
            r.view().replies.len() == 0,
    {
        let r = Router { machines: Vec::new(), environments: Vec::new(), replies: Vec::new() };
        proof {
            assert(r.view().machines =~= Seq::empty());
        }
        r
    }

    fn machine_position(&self, name: &String) -> (r: Option<usize>)
        ensures
            r is Some ==> r->0 < self.view().machines.len() && self.view().machines[r->0 as int]
                == name@,
            r is None ==> !self.view().machines.contains(name@),
    {
        let mut i: usize = 0;
        while i < self.machines.len()
            invariant
                i <= self.machines@.len(),
                forall|k: int| 0 <= k < i ==> self.view().machines[k] != name@,
            decreases self.machines.len() - i,
        {
            if self.machines[i] == *name {
                return Some(i);
            }
            i += 1;
        }
        None
    }

    fn environment_position(&self, id: u64) -> (r: Option<usize>)
        ensures
            r is Some ==> r->0 < self.view().environments.len()
                && self.view().environments[r->0 as int] == id,
            r is None ==> !self.view().environments.contains(id),
    {
        let mut i: usize = 0;
        while i < self.environments.len()
            invariant
                i <= self.environments@.len(),
                forall|k: int| 0 <= k < i ==> self.environments@[k] != id,
            decreases self.environments.len() - i,
        {
            if self.environments[i] == id {
                return Some(i);
            }
            i += 1;
        }
        None
    }

    /// Whether the peer is registered.
    pub fn is_registered(&self, p: &MessageSource) -> (r: bool)
        ensures
            r == registered(self.view(), p.deep_view()),
    {
        match p {
            MessageSource::Machine(n) => self.machine_position(n).is_some(),
            MessageSource::Environment(e) => self.environment_position(*e).is_some(),
        }
    }

    /// The names of the registered machines.
    pub fn machine_names(&self) -> (r: Vec<String>)
        ensures
            r.deep_view() == self.view().machines,
    {
        let mut out: Vec<String> = Vec::new();
        let mut i: usize = 0;
        while i < self.machines.len()
            invariant
                i <= self.machines@.len(),
                out.deep_view() =~= self.view().machines.take(i as int),
            decreases self.machines.len() - i,
        {
            out.push(self.machines[i].clone());
            proof {
                assert(self.view().machines.take(i + 1) =~= self.view().machines.take(i as int).push(
                    self.view().machines[i as int],
                ));
            }
            i += 1;
        }
        proof {
            assert(self.view().machines.take(self.machines@.len() as int) =~= self.view().machines);
        }
        out
    }

    /// Every registered peer: the machines, then the environments. These are
    /// the peers that heartbeats go to.
    pub fn peers(&self) -> (r: Vec<MessageSource>)
        ensures
            r.deep_view() =~= self.view().machines.map_values(|n: Seq<char>| SourceV::Machine(n))
                + self.view().environments.map_values(|e: u64| SourceV::Environment(e)),
    {
        let mut out: Vec<MessageSource> = Vec::new();
        let ghost ms = self.view().machines.map_values(|n: Seq<char>| SourceV::Machine(n));
        let ghost es = self.view().environments.map_values(|e: u64| SourceV::Environment(e));
        let mut i: usize = 0;
        while i < self.machines.len()
            invariant
                i <= self.machines@.len(),
                ms == self.view().machines.map_values(|n: Seq<char>| SourceV::Machine(n)),
                out.deep_view() =~= ms.take(i as int),
            decreases self.machines.len() - i,
        {
            out.push(MessageSource::Machine(self.machines[i].clone()));
            proof {
                assert(ms.take(i + 1) =~= ms.take(i as int).push(ms[i as int]));
            }
            i += 1;
        }
        let mut j: usize = 0;
        while j < self.environments.len()
            invariant
                j <= self.environments@.len(),
                i == self.machines@.len(),
                ms == self.view().machines.map_values(|n: Seq<char>| SourceV::Machine(n)),
                es == self.view().environments.map_values(|e: u64| SourceV::Environment(e)),
                out.deep_view() =~= ms + es.take(j as int),
            decreases self.environments.len() - j,
        {
            let ghost prev = out.deep_view();
            out.push(MessageSource::Environment(self.environments[j]));
            proof {
                assert(out.deep_view() =~= prev.push(SourceV::Environment(self.environments@[j as int])));
                assert(es.take(j + 1) =~= es.take(j as int).push(es[j as int]));
                assert(ms + es.take(j + 1) =~= (ms + es.take(j as int)).push(es[j as int]));
            }
            j += 1;
        }
        proof {
            assert(es.take(self.environments@.len() as int) =~= es);
        }
        out
    }
}

} // verus!

verus! {

proof fn lemma_reply_index_bounds(s: Seq<(i64, SourceV)>, id: i64)
    ensures
        reply_index(s, id) < s.len(),
        reply_index(s, id) >= 0 ==> s[reply_index(s, id)].0 == id,
        reply_index(s, id) < 0 ==> reply_index(s, id) == -1,
    decreases s.len(),
{
    if s.len() > 0 && s.last().0 != id {
        lemma_reply_index_bounds(s.drop_last(), id);
    }
}

impl Router {
    fn find_reply(&self, id: i64) -> (r: Option<usize>)
        ensures
            reply_index(self.view().replies, id) == (match r {
                Some(i) => i as int,
                None => -1,
            }),
            r is Some ==> r->0 < self.view().replies.len(),
    {
        let ghost s = self.view().replies;
        let mut i: usize = self.replies.len();
        proof {
            assert(s.take(s.len() as int) =~= s);
        }
        while i > 0
            invariant
                i <= s.len(),
                s == self.view().replies,
                reply_index(s, id) == reply_index(s.take(i as int), id),
            decreases i,
        {
            proof {
                assert(s.take(i as int).drop_last() =~= s.take(i - 1));
            }
            if self.replies[i - 1].0 == id {
                return Some(i - 1);
            }
            i -= 1;
        }
        None
    }

    fn set_reply(&mut self, id: i64, src: MessageSource)
        ensures
            final(self).view() == (RouterV {
                replies: set_reply(old(self).view().replies, id, src.deep_view()),
                ..old(self).view()
            }),
    {
        match self.find_reply(id) {
            Some(i) => {
                let ghost before = self.view().replies;
                let _ = self.replies.remove(i);
                self.replies.insert(i, (id, src));
                proof {
                    assert(self.view().replies =~= before.update(i as int, (id, src.deep_view())));
                }
            },
            None => {
                self.replies.push((id, src));
            },
        }
        proof {
            assert(self.view().replies =~= set_reply(old(self).view().replies, id, src.deep_view()));
        }
    }

    fn drop_replies_for(&mut self, src: &MessageSource)
        ensures
            final(self).view() == (RouterV {
                replies: without_source(old(self).view().replies, src.deep_view()),
                ..old(self).view()
            }),
    {
        let ghost s = self.view().replies;
        let mut out: Vec<(i64, MessageSource)> = Vec::new();
        let mut i: usize = 0;
        while i < self.replies.len()
            invariant
                i <= s.len(),
                s == self.view().replies,
                self.view() == old(self).view(),
                out.deep_view() =~= without_source(s.take(i as int), src.deep_view()),
            decreases self.replies.len() - i,
        {
            proof {
                assert(s.take(i + 1).drop_last() =~= s.take(i as int));
            }
            if !self.replies[i].1.same(src) {
                let e = (self.replies[i].0, self.replies[i].1.copy());
                out.push(e);
            }
            i += 1;
        }
        proof {
            assert(s.take(s.len() as int) =~= s);
        }
        self.replies = out;
    }

    /// Takes the peer out of the registry, with every entry awaiting a reply
    /// for it.
    fn unregister(&mut self, p: &MessageSource)
        requires
            old(self).view().machines.no_duplicates(),
            old(self).view().environments.no_duplicates(),
        ensures
            final(self).view().machines.no_duplicates(),
            final(self).view().environments.no_duplicates(),
            final(self).view() == unregister(old(self).view(), p.deep_view()),
    {
        match p {
            MessageSource::Machine(n) => {
                match self.machine_position(n) {
                    Some(i) => {
                        proof {
                            let ms = self.view().machines;
                            assert(ms.contains(n@));
                            assert(ms.index_of(n@) == i as int);
                            lemma_remove_no_duplicates(ms, i as int);
                        }
                        let ghost before = self.view().machines;
                        let _ = self.machines.remove(i);
                        proof {
                            assert(self.view().machines =~= before.remove(i as int));
                        }
                    },
                    None => {},
                }
            },
            MessageSource::Environment(e) => {
                match self.environment_position(*e) {
                    Some(i) => {
                        proof {
                            let es = self.view().environments;
                            assert(es.contains(*e));
                            assert(es.index_of(*e) == i as int);
                            lemma_remove_no_duplicates(es, i as int);
                        }
                        let _ = self.environments.remove(i);
                    },
                    None => {},
                }
            },
        }
        self.drop_replies_for(p);
    }

    fn deliver(&mut self, dest: MessageSource, m: Message, src: &MessageSource) -> (r: Decision)
        ensures
            (final(self).view(), r.deep_view()) == deliver(
                old(self).view(),
                dest.deep_view(),
                m.deep_view(),
                src.deep_view(),
            ),
    {
        if !self.is_registered(&dest) {
            return Decision::Drop(DropReason::DestinationGone);
        }
        if m.expects_forwarded_reply() {
            self.set_reply(m.message_id, src.copy());
        }
        Decision::Forward { to: dest, message: m }
    }

    /// Decides what becomes of message `m` from peer `src` (see
    /// `route_spec`). `fresh` is the id of any message that the server sends
    /// in answer.
    pub fn route(&mut self, m: Message, src: MessageSource, fresh: i64) -> (r: Decision)
        requires
            old(self).wf(),
        ensures
            final(self).wf(),
            (final(self).view(), r.deep_view()) == route_spec(
                old(self).view(),
                m.deep_view(),
                src.deep_view(),
                fresh,
            ),
    {
        proof {
            lemma_unique_ids_kept(self.view(), m.deep_view(), src.deep_view(), fresh);
            lemma_machines_only_shrink(self.view(), m.deep_view(), src.deep_view(), fresh);
        }
        self.route_message(m, src, fresh)
    }

    fn route_message(&mut self, m: Message, src: MessageSource, fresh: i64) -> (r: Decision)
        requires
            old(self).view().machines.no_duplicates(),
            old(self).view().environments.no_duplicates(),
        ensures
            final(self).view().environments.no_duplicates(),
            (final(self).view(), r.deep_view()) == route_spec(
                old(self).view(),
                m.deep_view(),
                src.deep_view(),
                fresh,
            ),
    {
        if let Some(id) = m.reply_to() {
            match self.find_reply(id) {
                None => Decision::Drop(DropReason::UnknownReplyId),
                Some(i) => {
                    let ghost before = self.view();
                    let (_, dest) = self.replies.remove(i);
                    proof {
                        assert(self.view().replies =~= before.replies.remove(i as int));
                        assert(self.view() == RouterV {
                            replies: before.replies.remove(i as int),
                            ..before
                        });
                    }
                    self.deliver(dest, m, &src)
                },
            }
        } else if let Some(name) = m.destination_machine() {
            let dest = MessageSource::Machine(name.clone());
            self.deliver(dest, m, &src)
        } else {
            let (_, to) = m.route();
            if to == NodeType::Server || to == NodeType::Any {
                self.handle_locally(m, src, fresh)
            } else {
                Decision::Drop(DropReason::Unexpected)
            }
        }
    }

    fn handle_locally(&mut self, m: Message, src: MessageSource, fresh: i64) -> (r: Decision)
        requires
            old(self).view().machines.no_duplicates(),
            old(self).view().environments.no_duplicates(),
        ensures
            final(self).view().environments.no_duplicates(),
            (final(self).view(), r.deep_view()) == handle_locally(
                old(self).view(),
                m.deep_view(),
                src.deep_view(),
                fresh,
            ),
    {
        match m.inner {
            MessageInner::MachineDescription { .. } => Decision::Drop(
                DropReason::UnexpectedDescription,
            ),
            MessageInner::Disconnect => {
                self.unregister(&src);
                Decision::Removed(src)
            },
            MessageInner::StreamDescription { .. } => Decision::Drop(
                DropReason::UnexpectedStreamDescription,
            ),
            MessageInner::Heartbeat { is_reply } => {
                if is_reply {
                    Decision::Drop(DropReason::HeartbeatReply)
                } else {
                    let reply = Message::new(fresh, MessageInner::Heartbeat { is_reply: true });
                    let dest = src.copy();
                    self.deliver(dest, reply, &src)
                }
            },
            MessageInner::MachineListRequest => {
                let names = self.machine_names();
                let reply = Message::new(fresh, MessageInner::MachineListReply { machines: names });
                let dest = src.copy();
                self.deliver(dest, reply, &src)
            },
            _ => Decision::Drop(DropReason::Unexpected),
        }
    }

    /// Registers a machine from the first message of its connection, which
    /// must describe it under a name that no connected machine has. On
    /// success the result is that name.
    pub fn admit_machine(&mut self, first: &Message) -> (r: Result<String, AdmitError>)
        requires
            old(self).wf(),
        ensures
            final(self).wf(),
            match first.deep_view().inner {
                InnerV::MachineDescription { name, .. } => if old(self).view().machines.contains(
                    name,
                ) {
                    r == Err::<String, AdmitError>(AdmitError::NameTaken) && final(self).view()
                        == old(self).view()
                } else {
                    r is Ok && r->Ok_0@ == name && final(self).view() == (RouterV {
                        machines: old(self).view().machines.push(name),
                        ..old(self).view()
                    })
                },
                _ => r == Err::<String, AdmitError>(AdmitError::NotADescription)
                    && final(self).view() == old(self).view(),
            },
    {
        match &first.inner {
            MessageInner::MachineDescription { name, .. } => {
                if self.machine_position(name).is_some() {
                    Err(AdmitError::NameTaken)
                } else {
                    let ghost before = self.view().machines;
                    self.machines.push(name.clone());
                    proof {
                        assert(self.view().machines =~= before.push(name@));
                        assert forall|a: int, b: int|
                            0 <= a < self.view().machines.len() && 0 <= b
                                < self.view().machines.len() && a != b implies self.view().machines[a]
                            != self.view().machines[b] by {
                            if a == before.len() as int {
                                assert(self.view().machines[b] == before[b]);
                            } else if b == before.len() as int {
                                assert(self.view().machines[a] == before[a]);
                            }
                        }
                    }
                    Ok(name.clone())
                }
            },
            _ => Err(AdmitError::NotADescription),
        }
    }

    /// Registers an environment by the number of its connection; false if it
    /// is registered already.
    pub fn admit_environment(&mut self, id: u64) -> (r: bool)
        requires
            old(self).wf(),
        ensures
            final(self).wf(),
            r == !old(self).view().environments.contains(id),
            r ==> final(self).view() == (RouterV {
                environments: old(self).view().environments.push(id),
                ..old(self).view()
            }),
            !r ==> final(self).view() == old(self).view(),
    {
        if self.environment_position(id).is_some() {
            false
        } else {
            let ghost before = self.view().environments;
            self.environments.push(id);
            proof {
                assert(self.view().environments =~= before.push(id));
                assert forall|a: int, b: int|
                    0 <= a < self.view().environments.len() && 0 <= b
                        < self.view().environments.len() && a != b implies self.view().environments[a]
                    != self.view().environments[b] by {
                    if a == before.len() as int {
                        assert(self.view().environments[b] == before[b]);
                    } else if b == before.len() as int {
                        assert(self.view().environments[a] == before[a]);
                    }
                }
            }
            true
        }
    }
}

} // verus!

verus! {

/// A heartbeat request from a registered peer is answered at once with a
/// heartbeat reply to that peer, and nothing else changes.
pub proof fn lemma_heartbeat_answered(r: RouterV, id: i64, src: SourceV, fresh: i64)
    requires
        registered(r, src),
    ensures
        route_spec(r, MessageV { message_id: id, inner: InnerV::Heartbeat { is_reply: false } }, src, fresh)
            == (r, DecisionV::Forward {
            to: src,
            message: MessageV { message_id: fresh, inner: InnerV::Heartbeat { is_reply: true } },
        }),
{
}

/// A machine list request from a registered peer is answered with exactly
/// the machines registered when the router handles it.
pub proof fn lemma_machine_list_snapshot(r: RouterV, id: i64, src: SourceV, fresh: i64)
    requires
        registered(r, src),
    ensures
        route_spec(r, MessageV { message_id: id, inner: InnerV::MachineListRequest }, src, fresh)
            == (r, DecisionV::Forward {
            to: src,
            message: MessageV {
                message_id: fresh,
                inner: InnerV::MachineListReply { machines: r.machines },
            },
        }),
{
}

/// A reply is only ever forwarded to the peer that the table holds for the
/// id it answers, and that entry leaves the table.
pub proof fn lemma_reply_goes_to_requester(r: RouterV, m: MessageV, src: SourceV, fresh: i64)
    requires
        m.inner.reply_to() is Some,
    ensures
        ({
            let id = m.inner.reply_to()->0;
            let i = reply_index(r.replies, id);
            match route_spec(r, m, src, fresh).1 {
                DecisionV::Forward { to, message } => 0 <= i < r.replies.len() && r.replies[i] == (
                    id,
                    to,
                ) && message == m && route_spec(r, m, src, fresh).0.replies == r.replies.remove(i),
                DecisionV::Drop(_) => true,
                DecisionV::Removed(_) => false,
            }
        }),
{
    let id = m.inner.reply_to()->0;
    lemma_reply_index_bounds(r.replies, id);
}

proof fn lemma_without_source_subset(s: Seq<(i64, SourceV)>, src: SourceV)
    ensures
        forall|e: (i64, SourceV)| #[trigger] without_source(s, src).contains(e) ==> s.contains(e) && e.1 != src,
    decreases s.len(),
{
    if s.len() > 0 {
        lemma_without_source_subset(s.drop_last(), src);
        let r = without_source(s.drop_last(), src);
        assert forall|e: (i64, SourceV)| without_source(s, src).contains(e) implies s.contains(e)
            && e.1 != src by {
            let w = without_source(s, src);
            let k = choose|k: int| 0 <= k < w.len() && w[k] == e;
            if k < r.len() {
                assert(r[k] == e);
                assert(r.contains(e));
                let j = choose|j: int| 0 <= j < s.drop_last().len() && s.drop_last()[j] == e;
                assert(s.drop_last()[j] == s[j]);
            } else {
                assert(s[s.len() - 1] == e);
            }
        }
    }
}

/// Every entry of the reply table after a message was handled was there
/// before, or records that the sender of a forwarded request awaits the
/// reply to it: no peer gets a reply to an id that it did not issue.
pub proof fn lemma_replies_only_for_issued(r: RouterV, m: MessageV, src: SourceV, fresh: i64)
    ensures
        ({
            let (r2, d) = route_spec(r, m, src, fresh);
            forall|e: (i64, SourceV)|
                r2.replies.contains(e) ==> r.replies.contains(e) || (e == (m.message_id, src)
                    && m.inner.expects_forwarded_reply() && d is Forward)
        }),
{
    let (r2, d) = route_spec(r, m, src, fresh);
    lemma_without_source_subset(r.replies, src);
    lemma_reply_index_bounds(r.replies, m.message_id);
    if let Some(id) = m.inner.reply_to() {
        lemma_reply_index_bounds(r.replies, id);
    }
    assert forall|e: (i64, SourceV)| r2.replies.contains(e) implies r.replies.contains(e) || (e == (
        m.message_id,
        src,
    ) && m.inner.expects_forwarded_reply() && d is Forward) by {
        let k = choose|k: int| 0 <= k < r2.replies.len() && r2.replies[k] == e;
        if m.inner.reply_to() is Some {
            let i = reply_index(r.replies, m.inner.reply_to()->0);
            if i >= 0 {
                let t = r.replies.remove(i);
                if k < i {
                    assert(r.replies[k] == e);
                } else {
                    assert(r.replies[k + 1] == e);
                }
            }
        } else if m.inner.expects_forwarded_reply() && d is Forward {
            let j = reply_index(r.replies, m.message_id);
            if j >= 0 && k != j {
                assert(r.replies[k] == e);
            } else if j < 0 && k < r.replies.len() {
                assert(r.replies[k] == e);
            }
        } else if m.inner == InnerV::Disconnect {
            assert(without_source(r.replies, src).contains(e));
        } else {
            assert(r.replies[k] == e);
        }
    }
}

/// Handling a message never registers a machine, and a machine that
/// disconnects is no longer registered: registration happens only through
/// the handshake.
pub proof fn lemma_machines_only_shrink(r: RouterV, m: MessageV, src: SourceV, fresh: i64)
    requires
        r.machines.no_duplicates(),
    ensures
        forall|n: Seq<char>| route_spec(r, m, src, fresh).0.machines.contains(n) ==> r.machines.contains(n),
        route_spec(r, m, src, fresh).0.machines.no_duplicates(),
        (m.inner == InnerV::Disconnect && src is Machine) ==> !route_spec(
            r,
            m,
            src,
            fresh,
        ).0.machines.contains(src->Machine_0),
{
    if m.inner == InnerV::Disconnect {
        if let SourceV::Machine(n) = src {
            if r.machines.contains(n) {
                let i = r.machines.index_of(n);
                lemma_remove_no_duplicates(r.machines, i);
            }
        }
    }
}

} // verus!

verus! {

/// No id appears twice in the reply table.
pub open spec fn unique_ids(s: Seq<(i64, SourceV)>) -> bool {
    forall|a: int, b: int| 0 <= a < s.len() && 0 <= b < s.len() && a != b ==> s[a].0 != s[b].0
}

proof fn lemma_reply_index_found(s: Seq<(i64, SourceV)>, id: i64, k: int)
    requires
        0 <= k < s.len(),
        s[k].0 == id,
    ensures
        reply_index(s, id) >= 0,
    decreases s.len(),
{
    if s.last().0 != id {
        assert(s.drop_last()[k] == s[k]);
        lemma_reply_index_found(s.drop_last(), id, k);
    }
}

/// Once the reply to a request has been forwarded, the table holds no entry
/// for its id: with ids unique, each forwarded request gets at most one
/// reply back, and any later reply to the same id is dropped.
pub proof fn lemma_one_reply_per_request(
    r: RouterV,
    m: MessageV,
    src: SourceV,
    fresh: i64,
    later: MessageV,
    later_src: SourceV,
    fresh2: i64,
)
    requires
        unique_ids(r.replies),
        m.inner.reply_to() is Some,
        route_spec(r, m, src, fresh).1 is Forward,
        later.inner.reply_to() == m.inner.reply_to(),
    ensures
        reply_index(route_spec(r, m, src, fresh).0.replies, m.inner.reply_to()->0) < 0,
        route_spec(route_spec(r, m, src, fresh).0, later, later_src, fresh2).1 == DecisionV::Drop(
            DropReason::UnknownReplyId,
        ),
{
    let id = m.inner.reply_to()->0;
    lemma_reply_index_bounds(r.replies, id);
    let i = reply_index(r.replies, id);
    let t = r.replies.remove(i);
    let r2 = route_spec(r, m, src, fresh).0;
    assert(r2.replies == t);
    lemma_reply_index_bounds(t, id);
    if reply_index(t, id) >= 0 {
        let k = reply_index(t, id);
        if k < i {
            assert(r.replies[k] == t[k]);
        } else {
            assert(r.replies[k + 1] == t[k]);
        }
    }
}

/// Handling a message keeps the ids in the reply table unique.
pub proof fn lemma_unique_ids_kept(r: RouterV, m: MessageV, src: SourceV, fresh: i64)
    requires
        unique_ids(r.replies),
    ensures
        unique_ids(route_spec(r, m, src, fresh).0.replies),
{
    let r2 = route_spec(r, m, src, fresh).0;
    lemma_reply_index_bounds(r.replies, m.message_id);
    lemma_without_source_unique(r.replies, src);
    if let Some(id) = m.inner.reply_to() {
        lemma_reply_index_bounds(r.replies, id);
        let i = reply_index(r.replies, id);
        if i >= 0 {
            let t = r.replies.remove(i);
            assert(unique_ids(t)) by {
                assert forall|a: int, b: int| 0 <= a < t.len() && 0 <= b < t.len() && a != b implies t[a].0
                    != t[b].0 by {
                    let a2 = if a < i { a } else { a + 1 };
                    let b2 = if b < i { b } else { b + 1 };
                    assert(t[a] == r.replies[a2] && t[b] == r.replies[b2]);
                }
            }
        }
    } else if m.inner.expects_forwarded_reply() {
        let s = r.replies;
        let j = reply_index(s, m.message_id);
        if j < 0 {
            assert forall|k: int| 0 <= k < s.len() implies s[k].0 != m.message_id by {
                if s[k].0 == m.message_id {
                    lemma_reply_index_found(s, m.message_id, k);
                }
            }
        }
    }
}

proof fn lemma_without_source_unique(s: Seq<(i64, SourceV)>, src: SourceV)
    requires
        unique_ids(s),
    ensures
        unique_ids(without_source(s, src)),
    decreases s.len(),
{
    if s.len() > 0 {
        let d = s.drop_last();
        assert(unique_ids(d)) by {
            assert forall|a: int, b: int| 0 <= a < d.len() && 0 <= b < d.len() && a != b implies d[a].0
                != d[b].0 by {
                assert(d[a] == s[a] && d[b] == s[b]);
            }
        }
        lemma_without_source_unique(d, src);
        lemma_without_source_subset(d, src);
        let w = without_source(d, src);
        if s.last().1 != src {
            assert forall|k: int| 0 <= k < w.len() implies w[k].0 != s.last().0 by {
                assert(w.contains(w[k]));
                let j = choose|j: int| 0 <= j < d.len() && d[j] == w[k];
                assert(s[j] == d[j]);
            }
            let w2 = w.push(s.last());
            assert forall|a: int, b: int| 0 <= a < w2.len() && 0 <= b < w2.len() && a != b implies w2[a].0
                != w2[b].0 by {
                if a < w.len() && b < w.len() {
                    assert(w2[a] == w[a] && w2[b] == w[b]);
                }
            }
        }
    }
}

} // verus!

verus! {

proof fn lemma_without_source_keeps(s: Seq<(i64, SourceV)>, src: SourceV, e: (i64, SourceV))
    requires
        s.contains(e),
        e.1 != src,
    ensures
        without_source(s, src).contains(e),
    decreases s.len(),
{
    let d = s.drop_last();
    let w = without_source(d, src);
    if s.last() == e {
        assert(without_source(s, src) == w.push(e));
        assert(w.push(e)[w.len() as int] == e);
    } else {
        let k = choose|k: int| 0 <= k < s.len() && s[k] == e;
        assert(k < s.len() - 1);
        assert(d[k] == e);
        lemma_without_source_keeps(d, src, e);
        let j = choose|j: int| 0 <= j < w.len() && w[j] == e;
        if s.last().1 != src {
            assert(w.push(s.last())[j] == e);
        }
    }
}

proof fn lemma_index_unique(s: Seq<(i64, SourceV)>, id: i64, k: int)
    requires
        unique_ids(s),
        0 <= k < s.len(),
        s[k].0 == id,
    ensures
        reply_index(s, id) == k,
{
    lemma_reply_index_bounds(s, id);
    lemma_reply_index_found(s, id, k);
}

/// While peer `s` awaits the reply to request `id`, handling any message
/// that is not a reply to `id`, not a new forwarded request with id `id`,
/// and not the disconnection of `s`, keeps that entry.
pub proof fn lemma_awaiting_entry_kept(
    r: RouterV,
    m: MessageV,
    src: SourceV,
    fresh: i64,
    id: i64,
    s: SourceV,
)
    requires
        unique_ids(r.replies),
        r.replies.contains((id, s)),
        m.inner.reply_to() != Some(id),
        !(m.inner.expects_forwarded_reply() && m.message_id == id),
        !(m.inner == InnerV::Disconnect && src == s),
    ensures
        route_spec(r, m, src, fresh).0.replies.contains((id, s)),
{
    let t = r.replies;
    let k = choose|k: int| 0 <= k < t.len() && t[k] == (id, s);
    let r2 = route_spec(r, m, src, fresh).0;
    if let Some(j) = m.inner.reply_to() {
        lemma_reply_index_bounds(t, j);
        let i = reply_index(t, j);
        if i >= 0 {
            assert(i != k);
            let u = t.remove(i);
            if k < i {
                assert(u[k] == (id, s));
            } else {
                assert(u[k - 1] == (id, s));
            }
            assert(u.contains((id, s)));
        }
    } else if m.inner.expects_forwarded_reply() {
        lemma_reply_index_bounds(t, m.message_id);
        let i = reply_index(t, m.message_id);
        if i >= 0 {
            assert(i != k);
            assert(t.update(i, (m.message_id, src))[k] == (id, s));
        } else {
            assert(t.push((m.message_id, src))[k] == (id, s));
        }
    } else if m.inner == InnerV::Disconnect {
        lemma_without_source_keeps(t, src, (id, s));
    }
}

/// A reply to request `id` that the registered peer `s` awaits is forwarded
/// to `s`, and to no one else.
pub proof fn lemma_reply_reaches_requester(
    r: RouterV,
    m: MessageV,
    src: SourceV,
    fresh: i64,
    s: SourceV,
)
    requires
        unique_ids(r.replies),
        m.inner.reply_to() is Some,
        r.replies.contains((m.inner.reply_to()->0, s)),
        registered(r, s),
    ensures
        route_spec(r, m, src, fresh).1 == (DecisionV::Forward { to: s, message: m }),
{
    let id = m.inner.reply_to()->0;
    let k = choose|k: int| 0 <= k < r.replies.len() && r.replies[k] == (id, s);
    lemma_index_unique(r.replies, id, k);
}

/// Once peer `s` has disconnected, no entry awaits a reply for it, so no
/// later reply is forwarded to it.
pub proof fn lemma_nothing_owed_after_disconnect(
    r: RouterV,
    id: i64,
    s: SourceV,
    fresh: i64,
    later: MessageV,
    later_src: SourceV,
    fresh2: i64,
)
    requires
        later.inner.reply_to() is Some,
    ensures
        ({
            let r2 = route_spec(r, MessageV { message_id: id, inner: InnerV::Disconnect }, s, fresh).0;
            &&& forall|e: (i64, SourceV)| r2.replies.contains(e) ==> e.1 != s
            &&& match route_spec(r2, later, later_src, fresh2).1 {
                DecisionV::Forward { to, .. } => to != s,
                _ => true,
            }
        }),
{
    let r2 = route_spec(r, MessageV { message_id: id, inner: InnerV::Disconnect }, s, fresh).0;
    lemma_without_source_subset(r.replies, s);
    lemma_reply_goes_to_requester(r2, later, later_src, fresh2);
    let j = later.inner.reply_to()->0;
    lemma_reply_index_bounds(r2.replies, j);
    let i = reply_index(r2.replies, j);
    if i >= 0 {
        assert(r2.replies.contains(r2.replies[i]));
    }
}

} // verus!
