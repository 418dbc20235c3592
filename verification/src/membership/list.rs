use vstd::prelude::*;

use std::collections::HashMap;

use crate::net::SocketAddress;
use crate::node::Node;

verus! {

broadcast use vstd::std_specs::hash::group_hash_axioms;

/// A group of members keyed by their identifiers: each entry is filed
/// under the node's own identifier, and the local server is never one of
/// them.
pub open spec fn is_group(group: Map<u128, Node>, server: Node) -> bool {
    &&& group.dom().finite()
    &&& forall|id: u128| #[trigger] group.contains_key(id) ==> group[id].id == id && group[id] != server
}

/// `members` lists the nodes of `group`, each once, in some order.
pub open spec fn lists_group(members: Seq<Node>, group: Map<u128, Node>) -> bool {
    &&& members.len() == group.dom().len()
    &&& members.no_duplicates()
    &&& forall|i: int| 0 <= i < members.len() ==> #[trigger] group.contains_key(members[i].id)
        && group[members[i].id] == members[i]
    &&& forall|id: u128| #[trigger] group.contains_key(id) ==> members.contains(group[id])
}

/// The group after a node is filed in it, unless the node is the server.
pub open spec fn group_insert(group: Map<u128, Node>, server: Node, node: Node) -> Map<u128, Node> {
    if node != server {
        group.insert(node.id, node)
    } else {
        group
    }
}

/// The local view of the cluster: the server itself, the peers it was
/// launched with, and the members it holds alive, suspected or confirmed
/// as failed.
pub struct List {
    server: Node,
    initial: Vec<SocketAddress>,
    alive: HashMap<u128, Node>,
    suspected: HashMap<u128, Node>,
    confirmed: HashMap<u128, Node>,
}

/// What a list holds, as mathematical values.
pub ghost struct ListView {
    pub server: Node,
    pub initial: Seq<SocketAddress>,
    pub alive: Map<u128, Node>,
    pub suspected: Map<u128, Node>,
    pub confirmed: Map<u128, Node>,
}

impl View for List {
    type V = ListView;

    closed spec fn view(&self) -> ListView {
        ListView {
            server: self.server,
            initial: self.initial@,
            alive: self.alive@,
            suspected: self.suspected@,
            confirmed: self.confirmed@,
        }
    }
}

impl ListView {
    /// Each of the three groups is filed by identifier and leaves out the
    /// server.
    pub open spec fn well_formed(self) -> bool {
        &&& is_group(self.alive, self.server)
        &&& is_group(self.suspected, self.server)
        &&& is_group(self.confirmed, self.server)
    }
}

/// The members of a group, each once.
fn group_members(group: &HashMap<u128, Node>, Ghost(server): Ghost<Node>) -> (members: Vec<Node>)
    requires
        is_group(group@, server),
    ensures
        lists_group(members@, group@),
{
    let mut members: Vec<Node> = Vec::new();
    let ghost m = group@;
    let ghost mut seen: Seq<u128> = Seq::empty();
    for id in it: group.keys()
        invariant
            m == group@,
            is_group(m, server),
            it.seq().no_duplicates(),
            it.seq().len() == m.dom().len(),
            it.seq().unref().to_set() == m.dom(),
            seen == it.seq().unref().take(it.index()),
            seen.no_duplicates(),
            forall|i: int| 0 <= i < seen.len() ==> m.contains_key(#[trigger] seen[i]),
            members@.len() == it.index(),
            forall|i: int| 0 <= i < it.index() ==> #[trigger] members@[i] == m[seen[i]],
    {
        assert(*id == it.seq().unref()[it.index()]);
        assert(it.seq().unref().to_set().contains(*id));
        let node = *group.get(id).unwrap();
        members.push(node);
        proof {
            assert forall|i: int| 0 <= i < seen.len() implies seen[i] != *id by {
                assert(it.seq()[i] != it.seq()[it.index()]);
            }
            seen = seen.push(*id);
            assert(seen =~= it.seq().unref().take(it.index() + 1));
        }
    }
    proof {
        assert(seen.len() == m.dom().len());
        seen.unique_seq_to_set();
        assert(seen.to_set().subset_of(m.dom())) by {
            assert forall|k: u128| seen.to_set().contains(k) implies m.dom().contains(k) by {
                let i = choose|i: int| 0 <= i < seen.len() && seen[i] == k;
            }
        }
        vstd::set_lib::lemma_subset_equality(seen.to_set(), m.dom());
        assert forall|i: int| 0 <= i < members@.len() implies #[trigger] m.contains_key(members@[i].id)
            && m[members@[i].id] == members@[i] by {
            assert(m.contains_key(seen[i]));
        }
        assert forall|i: int, j: int| 0 <= i < members@.len() && 0 <= j < members@.len() && i != j
            implies members@[i] != members@[j] by {
            assert(m.contains_key(seen[i]));
            assert(m.contains_key(seen[j]));
            assert(seen[i] != seen[j]);
        }
        assert forall|k: u128| #[trigger] m.contains_key(k) implies members@.contains(m[k]) by {
            assert(seen.to_set().contains(k));
            let i = choose|i: int| 0 <= i < seen.len() && seen[i] == k;
            assert(members@[i] == m[k]);
        }
    }
    members
}

/// A request to the list.
#[derive(Clone, Copy, Debug, PartialEq, Eq, Structural)]
pub enum ListRequest {
    GetNode,
    GetInitial,
    GetAlive,
    GetSuspected,
    GetConfirmed,
    InsertAlive(Node),
    InsertSuspected(Node),
    InsertConfirmed(Node),
    RemoveAlive(Node),
    RemoveSuspected(Node),
    RemoveConfirmed(Node),
    Shutdown,
}

/// The answer to a request that reads the list.
#[derive(Clone, Debug)]
pub enum ListResponse {
    Node(Node),
    Initial(Vec<SocketAddress>),
    Alive(Vec<Node>),
    Suspected(Vec<Node>),
    Confirmed(Vec<Node>),
}

/// What the list does with a request: answer it, apply it, or stop
/// serving.
#[derive(Clone, Debug)]
pub enum ListReply {
    Respond(ListResponse),
    Applied,
    Shutdown,
}

impl ListView {
    /// The list after an update request; requests that only read leave it
    /// as it is.
    pub open spec fn apply(self, request: ListRequest) -> ListView {
        match request {
            ListRequest::InsertAlive(node) => ListView {
                alive: group_insert(self.alive, self.server, node),
                ..self
            },
            ListRequest::InsertSuspected(node) => ListView {
                suspected: group_insert(self.suspected, self.server, node),
                ..self
            },
            ListRequest::InsertConfirmed(node) => ListView {
                confirmed: group_insert(self.confirmed, self.server, node),
                ..self
            },
            ListRequest::RemoveAlive(node) => ListView { alive: self.alive.remove(node.id), ..self },
            ListRequest::RemoveSuspected(node) => ListView {
                suspected: self.suspected.remove(node.id),
                ..self
            },
            ListRequest::RemoveConfirmed(node) => ListView {
                confirmed: self.confirmed.remove(node.id),
                ..self
            },
            _ => self,
        }
    }

    /// The list after a sequence of requests, applied in order.
    pub open spec fn apply_all(self, requests: Seq<ListRequest>) -> ListView
        decreases requests.len(),
    {
        if requests.len() == 0 {
            self
        } else {
            self.apply(requests[0]).apply_all(requests.drop_first())
        }
    }

    /// The reply that `reply` gives to `request` on this list.
    pub open spec fn answers(self, request: ListRequest, reply: ListReply) -> bool {
        match request {
            ListRequest::GetNode => reply == ListReply::Respond(ListResponse::Node(self.server)),
            ListRequest::GetInitial => match reply {
                ListReply::Respond(ListResponse::Initial(initial)) => initial@ == self.initial,
                _ => false,
            },
            ListRequest::GetAlive => match reply {
                ListReply::Respond(ListResponse::Alive(members)) => lists_group(members@, self.alive),
                _ => false,
            },
            ListRequest::GetSuspected => match reply {
                ListReply::Respond(ListResponse::Suspected(members)) => lists_group(
                    members@,
                    self.suspected,
                ),
                _ => false,
            },
            ListRequest::GetConfirmed => match reply {
                ListReply::Respond(ListResponse::Confirmed(members)) => lists_group(
                    members@,
                    self.confirmed,
                ),
                _ => false,
            },
            ListRequest::Shutdown => reply is Shutdown,
            _ => reply is Applied,
        }
    }
}

/// Applying an update keeps a list well formed.
pub proof fn lemma_apply_well_formed(list: ListView, request: ListRequest)
    requires
        list.well_formed(),
    ensures
        list.apply(request).well_formed(),
{
}

/// Applying two sequences of updates one after the other is applying their
/// concatenation.
pub proof fn lemma_apply_all_append(list: ListView, a: Seq<ListRequest>, b: Seq<ListRequest>)
    ensures
        list.apply_all(a + b) == list.apply_all(a).apply_all(b),
    decreases a.len(),
{
    if a.len() > 0 {
        assert((a + b).drop_first() =~= a.drop_first() + b);
        lemma_apply_all_append(list.apply(a[0]), a.drop_first(), b);
    } else {
        assert(a + b =~= b);
    }
}

/// Requests never change whose list it is.
pub proof fn lemma_apply_all_keeps_server(list: ListView, requests: Seq<ListRequest>)
    ensures
        list.apply_all(requests).server == list.server,
    decreases requests.len(),
{
    if requests.len() > 0 {
        lemma_apply_all_keeps_server(list.apply(requests[0]), requests.drop_first());
    }
}

/// Law: whatever requests a list serves, it stays well formed: the server
/// is never one of its own members, and each member is filed under its
/// own identifier.
pub proof fn law_server_never_listed(list: ListView, requests: Seq<ListRequest>)
    requires
        list.well_formed(),
    ensures
        list.apply_all(requests).well_formed(),
        list.apply_all(requests).server == list.server,
        forall|id: u128| #[trigger] list.apply_all(requests).alive.contains_key(id)
            ==> list.apply_all(requests).alive[id] != list.server,
    decreases requests.len(),
{
    if requests.len() > 0 {
        lemma_apply_well_formed(list, requests[0]);
        law_server_never_listed(list.apply(requests[0]), requests.drop_first());
    }
}

/// Law: whatever requests a list serves, the peers it was launched with
/// stay as they were, in order, and so does the server.
pub proof fn law_launch_peers_kept(list: ListView, requests: Seq<ListRequest>)
    ensures
        list.apply_all(requests).initial == list.initial,
        list.apply_all(requests).server == list.server,
    decreases requests.len(),
{
    if requests.len() > 0 {
        law_launch_peers_kept(list.apply(requests[0]), requests.drop_first());
    }
}

/// Law: after a member other than the server is filed in a group, reading
/// that group gives it back under its identifier; the server is never
/// filed.
pub proof fn law_insert_then_read(list: ListView, node: Node)
    ensures
        node != list.server ==> list.apply(ListRequest::InsertAlive(node)).alive.contains_key(node.id)
            && list.apply(ListRequest::InsertAlive(node)).alive[node.id] == node,
        node != list.server ==> list.apply(ListRequest::InsertSuspected(node)).suspected.contains_key(
            node.id,
        ) && list.apply(ListRequest::InsertSuspected(node)).suspected[node.id] == node,
        node != list.server ==> list.apply(ListRequest::InsertConfirmed(node)).confirmed.contains_key(
            node.id,
        ) && list.apply(ListRequest::InsertConfirmed(node)).confirmed[node.id] == node,
        node == list.server ==> list.apply(ListRequest::InsertAlive(node)) == list
            && list.apply(ListRequest::InsertSuspected(node)) == list && list.apply(
            ListRequest::InsertConfirmed(node),
        ) == list,
{
}

/// Law: removing a member undoes filing it when it was not filed before,
/// and a removed member is not in the group.
pub proof fn law_remove_undoes_insert(list: ListView, node: Node)
    requires
        !list.alive.contains_key(node.id),
    ensures
        list.apply(ListRequest::InsertAlive(node)).apply(ListRequest::RemoveAlive(node)) == list,
        !list.apply(ListRequest::RemoveAlive(node)).alive.contains_key(node.id),
{
    assert(list.apply(ListRequest::InsertAlive(node)).apply(ListRequest::RemoveAlive(node)).alive
        =~= list.alive);
}

/// Law: filing a member twice is filing it once.
pub proof fn law_insert_idempotent(list: ListView, node: Node)
    ensures
        list.apply(ListRequest::InsertAlive(node)).apply(ListRequest::InsertAlive(node)) == list.apply(
            ListRequest::InsertAlive(node),
        ),
{
    assert(list.apply(ListRequest::InsertAlive(node)).apply(ListRequest::InsertAlive(node)).alive
        =~= list.apply(ListRequest::InsertAlive(node)).alive);
}

/// Law: requests that read the list leave it as it is.
pub proof fn law_reads_change_nothing(list: ListView)
    ensures
        list.apply(ListRequest::GetNode) == list,
        list.apply(ListRequest::GetInitial) == list,
        list.apply(ListRequest::GetAlive) == list,
        list.apply(ListRequest::GetSuspected) == list,
        list.apply(ListRequest::GetConfirmed) == list,
        list.apply(ListRequest::Shutdown) == list,
{
}

impl List {
    /// Every list is well formed.
    #[verifier::type_invariant]
    spec fn inv(&self) -> bool {
        self@.well_formed()
    }

    /// A list for `server`, launched with the peers `initial`, with no
    /// members yet.
    pub fn init(server: Node, initial: Vec<SocketAddress>) -> (list: List)
        ensures
            list@.well_formed(),
            list@.server == server,
            list@.initial == initial@,
            list@.alive == Map::<u128, Node>::empty(),
            list@.suspected == Map::<u128, Node>::empty(),
            list@.confirmed == Map::<u128, Node>::empty(),
    {
        let alive: HashMap<u128, Node> = HashMap::with_capacity(10);
        let suspected: HashMap<u128, Node> = HashMap::with_capacity(10);
        let confirmed: HashMap<u128, Node> = HashMap::with_capacity(10);
        assert(alive@ =~= Map::<u128, Node>::empty());
        assert(suspected@ =~= Map::<u128, Node>::empty());
        assert(confirmed@ =~= Map::<u128, Node>::empty());
        List { server, initial, alive, suspected, confirmed }
    }

    /// Files `node` as alive, unless it is the server.
    pub fn insert_alive(&mut self, node: Node)
        ensures
            final(self)@ == old(self)@.apply(ListRequest::InsertAlive(node)),
            final(self)@.well_formed(),
    {
        proof {
            use_type_invariant(&*self);
        }
        if node != self.server {
            let mut alive: HashMap<u128, Node> = HashMap::new();
            std::mem::swap(&mut alive, &mut self.alive);
            alive.insert(node.id, node);
            self.alive = alive;
        }
    }

    /// Files `node` as suspected, unless it is the server.
    pub fn insert_supsected(&mut self, node: Node)
        ensures
            final(self)@ == old(self)@.apply(ListRequest::InsertSuspected(node)),
            final(self)@.well_formed(),
    {
        proof {
            use_type_invariant(&*self);
        }
        if node != self.server {
            let mut suspected: HashMap<u128, Node> = HashMap::new();
            std::mem::swap(&mut suspected, &mut self.suspected);
            suspected.insert(node.id, node);
            self.suspected = suspected;
        }
    }

    /// Files `node` as confirmed failed, unless it is the server.
    pub fn insert_confirmed(&mut self, node: Node)
        ensures
            final(self)@ == old(self)@.apply(ListRequest::InsertConfirmed(node)),
            final(self)@.well_formed(),
    {
        proof {
            use_type_invariant(&*self);
        }
        if node != self.server {
            let mut confirmed: HashMap<u128, Node> = HashMap::new();
            std::mem::swap(&mut confirmed, &mut self.confirmed);
            confirmed.insert(node.id, node);
            self.confirmed = confirmed;
        }
    }

    /// Drops the member with `node`'s identifier from the alive group.
    pub fn remove_alive(&mut self, node: &Node)
        ensures
            final(self)@ == old(self)@.apply(ListRequest::RemoveAlive(*node)),
            final(self)@.well_formed(),
    {
        proof {
            use_type_invariant(&*self);
        }
        let mut alive: HashMap<u128, Node> = HashMap::new();
        std::mem::swap(&mut alive, &mut self.alive);
        alive.remove(&node.id);
        self.alive = alive;
    }

    /// Drops the member with `node`'s identifier from the suspected group.
    pub fn remove_suspected(&mut self, node: &Node)
        ensures
            final(self)@ == old(self)@.apply(ListRequest::RemoveSuspected(*node)),
            final(self)@.well_formed(),
    {
        proof {
            use_type_invariant(&*self);
        }
        let mut suspected: HashMap<u128, Node> = HashMap::new();
        std::mem::swap(&mut suspected, &mut self.suspected);
        suspected.remove(&node.id);
        self.suspected = suspected;
    }

    /// Drops the member with `node`'s identifier from the confirmed group.
    pub fn remove_confirmed(&mut self, node: &Node)
        ensures
            final(self)@ == old(self)@.apply(ListRequest::RemoveConfirmed(*node)),
            final(self)@.well_formed(),
    {
        proof {
            use_type_invariant(&*self);
        }
        let mut confirmed: HashMap<u128, Node> = HashMap::new();
        std::mem::swap(&mut confirmed, &mut self.confirmed);
        confirmed.remove(&node.id);
        self.confirmed = confirmed;
    }

    /// The server this list belongs to.
    pub fn get_node(&self) -> (node: Node)
        ensures
            node == self@.server,
    {
        self.server
    }

    /// The peers the server was launched with.
    pub fn get_initial(&self) -> (initial: Vec<SocketAddress>)
        ensures
            initial@ == self@.initial,
    {
        let mut initial: Vec<SocketAddress> = Vec::new();
        let mut i: usize = 0;
        while i < self.initial.len()
            invariant
                i <= self.initial@.len(),
                initial@ == self.initial@.subrange(0, i as int),
            decreases self.initial@.len() - i,
        {
            initial.push(self.initial[i]);
            i = i + 1;
            assert(initial@ =~= self.initial@.subrange(0, i as int));
        }
        assert(initial@ =~= self.initial@);
        initial
    }

    /// The members held alive, each once.
    pub fn get_alive(&self) -> (members: Vec<Node>)
        ensures
            lists_group(members@, self@.alive),
    {
        proof {
            use_type_invariant(self);
        }
        group_members(&self.alive, Ghost(self.server))
    }

    /// The members held suspected, each once.
    pub fn get_suspected(&self) -> (members: Vec<Node>)
        ensures
            lists_group(members@, self@.suspected),
    {
        proof {
            use_type_invariant(self);
        }
        group_members(&self.suspected, Ghost(self.server))
    }

    /// The members confirmed as failed, each once.
    pub fn get_confirmed(&self) -> (members: Vec<Node>)
        ensures
            lists_group(members@, self@.confirmed),
    {
        proof {
            use_type_invariant(self);
        }
        group_members(&self.confirmed, Ghost(self.server))
    }

    /// Serves one request: reads answer it, updates change the list, and
    /// `Shutdown` ends the service.
    pub fn handle(&mut self, request: ListRequest) -> (reply: ListReply)
        ensures
            final(self)@ == old(self)@.apply(request),
            final(self)@.well_formed(),
            old(self)@.answers(request, reply),
    {
        proof {
            use_type_invariant(&*self);
        }
        match request {
            ListRequest::GetNode => ListReply::Respond(ListResponse::Node(self.get_node())),
            ListRequest::GetInitial => ListReply::Respond(ListResponse::Initial(self.get_initial())),
            ListRequest::GetAlive => ListReply::Respond(ListResponse::Alive(self.get_alive())),
            ListRequest::GetSuspected => ListReply::Respond(
                ListResponse::Suspected(self.get_suspected()),
            ),
            ListRequest::GetConfirmed => ListReply::Respond(
                ListResponse::Confirmed(self.get_confirmed()),
            ),
            ListRequest::InsertAlive(node) => {
                self.insert_alive(node);
                ListReply::Applied
            },
            ListRequest::InsertSuspected(node) => {
                self.insert_supsected(node);
                ListReply::Applied
            },
            ListRequest::InsertConfirmed(node) => {
                self.insert_confirmed(node);
                ListReply::Applied
            },
            ListRequest::RemoveAlive(node) => {
                self.remove_alive(&node);
                ListReply::Applied
            },
            ListRequest::RemoveSuspected(node) => {
                self.remove_suspected(&node);
                ListReply::Applied
            },
            ListRequest::RemoveConfirmed(node) => {
                self.remove_confirmed(&node);
                ListReply::Applied
            },
            ListRequest::Shutdown => ListReply::Shutdown,
        }
    }

    /// Applies a sequence of updates in order.
    pub fn apply_all(&mut self, requests: &Vec<ListRequest>)
        ensures
            final(self)@ == old(self)@.apply_all(requests@),
            final(self)@.well_formed(),
    {
        proof {
            use_type_invariant(&*self);
        }
        let mut i: usize = 0;
        assert(requests@.subrange(0, requests@.len() as int) =~= requests@);
        while i < requests.len()
            invariant
                i <= requests@.len(),
                self@.well_formed(),
                old(self)@.apply_all(requests@) == self@.apply_all(requests@.subrange(
                    i as int,
                    requests@.len() as int,
                )),
            decreases requests@.len() - i,
        {
            let _ = self.handle(requests[i]);
            assert(requests@.subrange(i as int, requests@.len() as int).drop_first()
                =~= requests@.subrange(i + 1, requests@.len() as int));
            i = i + 1;
        }
        assert(requests@.subrange(i as int, requests@.len() as int) =~= Seq::<ListRequest>::empty());
    }
}

} // verus!
