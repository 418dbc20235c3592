use vstd::prelude::*;

use crate::membership::communications::confirm_updates;
use crate::membership::list::{
    lemma_apply_all_append, lemma_apply_all_keeps_server, ListRequest, ListView,
};
use crate::net::{IpAddress, Ipv4Address, SocketAddress};
use crate::node::{node_membership_address, Node};

verus! {

/// The updates that take a member to the alive group.
pub open spec fn alive_moves(member: Node) -> Seq<ListRequest> {
    seq![
        ListRequest::RemoveConfirmed(member),
        ListRequest::RemoveSuspected(member),
        ListRequest::InsertAlive(member),
    ]
}

/// The updates that take a member to the suspected group.
pub open spec fn suspected_moves(member: Node) -> Seq<ListRequest> {
    seq![
        ListRequest::RemoveConfirmed(member),
        ListRequest::RemoveAlive(member),
        ListRequest::InsertSuspected(member),
    ]
}

/// The updates that take a member to the confirmed group.
pub open spec fn confirmed_moves(member: Node) -> Seq<ListRequest> {
    seq![
        ListRequest::RemoveAlive(member),
        ListRequest::RemoveSuspected(member),
        ListRequest::InsertConfirmed(member),
    ]
}

/// The updates that take a member to the alive group.
pub fn alive(member: Node) -> (updates: Vec<ListRequest>)
    ensures
        updates@ == alive_moves(member),
{
    let mut updates: Vec<ListRequest> = Vec::new();
    updates.push(ListRequest::RemoveConfirmed(member));
    updates.push(ListRequest::RemoveSuspected(member));
    updates.push(ListRequest::InsertAlive(member));
    assert(updates@ =~= alive_moves(member));
    updates
}

/// The updates that take a member to the suspected group.
pub fn suspected(member: Node) -> (updates: Vec<ListRequest>)
    ensures
        updates@ == suspected_moves(member),
{
    let mut updates: Vec<ListRequest> = Vec::new();
    updates.push(ListRequest::RemoveConfirmed(member));
    updates.push(ListRequest::RemoveAlive(member));
    updates.push(ListRequest::InsertSuspected(member));
    assert(updates@ =~= suspected_moves(member));
    updates
}

/// The updates that take a member to the confirmed group.
pub fn confirmed(member: Node) -> (updates: Vec<ListRequest>)
    ensures
        updates@ == confirmed_moves(member),
{
    let mut updates: Vec<ListRequest> = Vec::new();
    updates.push(ListRequest::RemoveAlive(member));
    updates.push(ListRequest::RemoveSuspected(member));
    updates.push(ListRequest::InsertConfirmed(member));
    assert(updates@ =~= confirmed_moves(member));
    updates
}

/// A member ends up in exactly the group it was moved to.
pub open spec fn only_in_alive(list: ListView, id: u128) -> bool {
    list.alive.contains_key(id) && !list.suspected.contains_key(id) && !list.confirmed.contains_key(
        id,
    )
}

pub open spec fn only_in_suspected(list: ListView, id: u128) -> bool {
    !list.alive.contains_key(id) && list.suspected.contains_key(id) && !list.confirmed.contains_key(
        id,
    )
}

pub open spec fn only_in_confirmed(list: ListView, id: u128) -> bool {
    !list.alive.contains_key(id) && !list.suspected.contains_key(id) && list.confirmed.contains_key(
        id,
    )
}

/// Law: after the failure detector moves a member (other than the server)
/// to a group, the member is in that group and in neither of the other two,
/// and the other members keep their places.
pub proof fn law_moves_place_member_in_one_group(list: ListView, member: Node, other: u128)
    requires
        member != list.server,
        other != member.id,
    ensures
        only_in_alive(list.apply_all(alive_moves(member)), member.id),
        only_in_suspected(list.apply_all(suspected_moves(member)), member.id),
        only_in_confirmed(list.apply_all(confirmed_moves(member)), member.id),
        list.apply_all(alive_moves(member)).alive.contains_key(other) == list.alive.contains_key(other),
        list.apply_all(alive_moves(member)).suspected.contains_key(other)
            == list.suspected.contains_key(other),
        list.apply_all(alive_moves(member)).confirmed.contains_key(other)
            == list.confirmed.contains_key(other),
        list.apply_all(suspected_moves(member)).alive.contains_key(other) == list.alive.contains_key(
            other,
        ),
        list.apply_all(suspected_moves(member)).suspected.contains_key(other)
            == list.suspected.contains_key(other),
        list.apply_all(suspected_moves(member)).confirmed.contains_key(other)
            == list.confirmed.contains_key(other),
        list.apply_all(confirmed_moves(member)).alive.contains_key(other)
            == list.alive.contains_key(other),
        list.apply_all(confirmed_moves(member)).suspected.contains_key(other)
            == list.suspected.contains_key(other),
        list.apply_all(confirmed_moves(member)).confirmed.contains_key(other)
            == list.confirmed.contains_key(other),
{
    reveal_with_fuel(ListView::apply_all, 4);
    assert(alive_moves(member).drop_first().drop_first().drop_first() =~= Seq::<ListRequest>::empty());
    assert(suspected_moves(member).drop_first().drop_first().drop_first() =~= Seq::<ListRequest>::empty());
    assert(confirmed_moves(member).drop_first().drop_first().drop_first() =~= Seq::<ListRequest>::empty());
}

/// The address a member is probed at: its membership port on the loopback
/// address.
pub fn probe_address(member: &Node) -> (address: SocketAddress)
    ensures
        address == (SocketAddress { ip: IpAddress::V4(Ipv4Address { a: 127, b: 0, c: 0, d: 1 }), port: member.membership_port }),
{
    let mut address = member.membership_address();
    address.ip = IpAddress::localhost();
    address
}

/// How a probe ended: an answer naming the address it came for, a failed
/// receive, or no answer within the time out.
#[derive(Clone, Copy, Debug, PartialEq, Eq)]
pub enum ProbeReply {
    Answered(SocketAddress),
    Failed,
    TimedOut,
}

/// Whether a direct probe of `member` succeeded, and the updates it leads
/// to: an answer for the probed address makes the member alive, no answer
/// makes it suspected.
pub open spec fn direct_outcome(member: Node, reply: ProbeReply) -> (bool, Seq<ListRequest>) {
    match reply {
        ProbeReply::Answered(address) => if address == (SocketAddress {
            ip: IpAddress::V4(Ipv4Address { a: 127, b: 0, c: 0, d: 1 }),
            port: member.membership_port,
        }) {
            (true, alive_moves(member))
        } else {
            (false, Seq::empty())
        },
        ProbeReply::Failed => (false, Seq::empty()),
        ProbeReply::TimedOut => (false, suspected_moves(member)),
    }
}

/// Whether an indirect probe of `suspect` succeeded, and the updates it
/// leads to: an answer for the suspect's membership address makes it
/// alive, no answer confirms it as failed.
pub open spec fn indirect_outcome(suspect: Node, reply: ProbeReply) -> (bool, Seq<ListRequest>) {
    match reply {
        ProbeReply::Answered(address) => if address == node_membership_address(suspect) {
            (true, alive_moves(suspect))
        } else {
            (false, Seq::empty())
        },
        ProbeReply::Failed => (false, Seq::empty()),
        ProbeReply::TimedOut => (false, confirmed_moves(suspect)),
    }
}

/// The end of a direct probe of `member`.
pub fn send_direct(member: Node, reply: ProbeReply) -> (outcome: (bool, Vec<ListRequest>))
    ensures
        (outcome.0, outcome.1@) == direct_outcome(member, reply),
{
    match reply {
        ProbeReply::Answered(address) => {
            if address == probe_address(&member) {
                (true, alive(member))
            } else {
                (false, Vec::new())
            }
        },
        ProbeReply::Failed => (false, Vec::new()),
        ProbeReply::TimedOut => (false, suspected(member)),
    }
}

/// The end of an indirect probe of `suspect`.
pub fn send_indirect(suspect: Node, reply: ProbeReply) -> (outcome: (bool, Vec<ListRequest>))
    ensures
        (outcome.0, outcome.1@) == indirect_outcome(suspect, reply),
{
    match reply {
        ProbeReply::Answered(address) => {
            if address == suspect.membership_address() {
                (true, alive(suspect))
            } else {
                (false, Vec::new())
            }
        },
        ProbeReply::Failed => (false, Vec::new()),
        ProbeReply::TimedOut => (false, confirmed(suspect)),
    }
}

/// Law: a probe believes only the member it probed. A direct probe
/// succeeds exactly when the answer names the member's membership port on
/// the loopback address, an indirect probe exactly when it names the
/// suspect's membership address, and then the member is alive and nothing
/// else; an answer from anyone else changes nothing; a probe that times out
/// leaves the member suspected (direct) or confirmed as failed (indirect);
/// and no other member moves.
pub proof fn law_probes_believe_only_the_probed_member(
    list: ListView,
    member: Node,
    reply: ProbeReply,
    other: u128,
)
    requires
        member != list.server,
        other != member.id,
    ensures
        ({
            let direct_answer = SocketAddress {
                ip: IpAddress::V4(Ipv4Address { a: 127, b: 0, c: 0, d: 1 }),
                port: member.membership_port,
            };
            let (succeeded, updates) = direct_outcome(member, reply);
            let after = list.apply_all(updates);
            &&& succeeded <==> reply == ProbeReply::Answered(direct_answer)
            &&& succeeded ==> only_in_alive(after, member.id)
            &&& reply is TimedOut ==> only_in_suspected(after, member.id)
            &&& !succeeded && !(reply is TimedOut) ==> after == list
            &&& after.alive.contains_key(other) == list.alive.contains_key(other)
            &&& after.suspected.contains_key(other) == list.suspected.contains_key(other)
            &&& after.confirmed.contains_key(other) == list.confirmed.contains_key(other)
        }),
        ({
            let (succeeded, updates) = indirect_outcome(member, reply);
            let after = list.apply_all(updates);
            &&& succeeded <==> reply == ProbeReply::Answered(node_membership_address(member))
            &&& succeeded ==> only_in_alive(after, member.id)
            &&& reply is TimedOut ==> only_in_confirmed(after, member.id)
            &&& !succeeded && !(reply is TimedOut) ==> after == list
            &&& after.alive.contains_key(other) == list.alive.contains_key(other)
            &&& after.suspected.contains_key(other) == list.suspected.contains_key(other)
            &&& after.confirmed.contains_key(other) == list.confirmed.contains_key(other)
        }),
{
    law_moves_place_member_in_one_group(list, member, other);
}

/// Where a protocol period stands: probing the alive members directly,
/// waiting for the members to relay a probe, probing through them,
/// confirming the suspected members, or done.
#[derive(Clone, Copy, Debug, PartialEq, Eq, Structural)]
pub enum PeriodStep {
    Direct,
    AwaitIndirect,
    Indirect,
    Confirm,
    Done,
}

/// The next thing a protocol period needs done.
#[derive(Clone, Copy, Debug, PartialEq, Eq)]
pub enum PeriodAction {
    /// Probe this member directly.
    Probe(Node),
    /// Fetch the alive members that may relay a probe.
    FetchIndirect,
    /// Ask the first member to probe the second.
    ProbeIndirect(Node, Node),
    /// Fetch the suspected members and confirm them as failed.
    ConfirmSuspected,
    /// Nothing: the period is over.
    Done,
}

/// One protocol period of the failure detector: each alive member is
/// probed in turn until one fails to answer; that member is then probed
/// through the others until a relayed probe fails; finally every suspected
/// member is confirmed as failed.
pub struct ProtocolPeriod {
    direct: Vec<Node>,
    indirect: Vec<Node>,
    index: usize,
    suspect: Option<Node>,
    step: PeriodStep,
}

/// A protocol period as mathematical values.
pub ghost struct PeriodView {
    pub direct: Seq<Node>,
    pub indirect: Seq<Node>,
    pub index: nat,
    pub suspect: Option<Node>,
    pub step: PeriodStep,
}

impl View for ProtocolPeriod {
    type V = PeriodView;

    closed spec fn view(&self) -> PeriodView {
        PeriodView {
            direct: self.direct@,
            indirect: self.indirect@,
            index: self.index as nat,
            suspect: self.suspect,
            step: self.step,
        }
    }
}

impl PeriodView {
    /// The index stays within the list being probed, and once the direct
    /// probes have stopped on a member, that member is the suspect.
    pub open spec fn well_formed(self) -> bool {
        match self.step {
            PeriodStep::Direct => self.index <= self.direct.len(),
            PeriodStep::AwaitIndirect => self.suspect is Some,
            PeriodStep::Indirect => self.index <= self.indirect.len() && self.suspect is Some,
            _ => true,
        }
    }

    /// The next action of a period in this state.
    pub open spec fn action(self) -> PeriodAction {
        match self.step {
            PeriodStep::Direct => if self.index < self.direct.len() {
                PeriodAction::Probe(self.direct[self.index as int])
            } else {
                PeriodAction::ConfirmSuspected
            },
            PeriodStep::AwaitIndirect => PeriodAction::FetchIndirect,
            PeriodStep::Indirect => if self.index < self.indirect.len() {
                PeriodAction::ProbeIndirect(self.indirect[self.index as int], self.suspect->0)
            } else {
                PeriodAction::ConfirmSuspected
            },
            PeriodStep::Confirm => PeriodAction::ConfirmSuspected,
            PeriodStep::Done => PeriodAction::Done,
        }
    }
}

impl PeriodView {
    /// The period after the current direct probe was answered or not: on an
    /// answer the next member is probed; otherwise the member becomes the
    /// suspect and the relaying members are fetched.
    pub open spec fn after_direct(self, succeeded: bool) -> PeriodView {
        if succeeded {
            PeriodView { index: self.index + 1, ..self }
        } else {
            PeriodView {
                suspect: Some(self.direct[self.index as int]),
                step: PeriodStep::AwaitIndirect,
                ..self
            }
        }
    }

    /// The period once the members that may relay a probe are known.
    pub open spec fn with_relays(self, members: Seq<Node>) -> PeriodView {
        PeriodView { indirect: members, index: 0, step: PeriodStep::Indirect, ..self }
    }

    /// The period after the current relayed probe was answered or not: on
    /// an answer the next member is asked; otherwise relaying stops.
    pub open spec fn after_indirect(self, succeeded: bool) -> PeriodView {
        if succeeded {
            PeriodView { index: self.index + 1, ..self }
        } else {
            PeriodView { step: PeriodStep::Confirm, ..self }
        }
    }
}

/// A period that has yet to probe any of `direct`.
pub open spec fn started(direct: Seq<Node>) -> PeriodView {
    PeriodView {
        direct,
        indirect: Seq::empty(),
        index: 0,
        suspect: None,
        step: PeriodStep::Direct,
    }
}

/// The period after `k` more direct probes were answered.
pub open spec fn direct_answers(period: PeriodView, k: nat) -> PeriodView
    decreases k,
{
    if k == 0 {
        period
    } else {
        direct_answers(period, (k - 1) as nat).after_direct(true)
    }
}

/// The period after `k` more relayed probes were answered.
pub open spec fn relayed_answers(period: PeriodView, k: nat) -> PeriodView
    decreases k,
{
    if k == 0 {
        period
    } else {
        relayed_answers(period, (k - 1) as nat).after_indirect(true)
    }
}

proof fn lemma_direct_answers(direct: Seq<Node>, k: nat)
    ensures
        direct_answers(started(direct), k) == (PeriodView { index: k, ..started(direct) }),
    decreases k,
{
    if k > 0 {
        lemma_direct_answers(direct, (k - 1) as nat);
    }
}

proof fn lemma_relayed_answers(period: PeriodView, k: nat)
    ensures
        relayed_answers(period, k) == (PeriodView { index: period.index + k, ..period }),
    decreases k,
{
    if k > 0 {
        lemma_relayed_answers(period, (k - 1) as nat);
    }
}

/// Law: a period probes the alive members directly in the order it was
/// given them. After `k` answered probes it probes the next member, or,
/// once all have answered, goes on to confirm the suspected members; the
/// first member that does not answer becomes the period's suspect, and
/// the members to relay a probe of it are fetched next.
pub proof fn law_period_probes_in_order(direct: Seq<Node>, k: nat)
    requires
        k <= direct.len(),
    ensures
        direct_answers(started(direct), k).well_formed(),
        direct_answers(started(direct), k).action() == if k < direct.len() {
            PeriodAction::Probe(direct[k as int])
        } else {
            PeriodAction::ConfirmSuspected
        },
        k < direct.len() ==> direct_answers(started(direct), k).after_direct(false).suspect == Some(
            direct[k as int],
        ),
        k < direct.len() ==> direct_answers(started(direct), k).after_direct(false).action()
            == PeriodAction::FetchIndirect,
{
    lemma_direct_answers(direct, k);
}

/// Law: once a period has a suspect, it asks the relaying members, in the
/// order it was given them, to probe that suspect. After `k` answered
/// relays it asks the next member, or, once all have answered, goes on to
/// confirm the suspected members; the first relay that is not answered
/// ends the relaying, and the suspected members are confirmed next.
pub proof fn law_period_relays_in_order(period: PeriodView, members: Seq<Node>, k: nat)
    requires
        period.well_formed(),
        period.step == PeriodStep::AwaitIndirect,
        k <= members.len(),
    ensures
        relayed_answers(period.with_relays(members), k).well_formed(),
        relayed_answers(period.with_relays(members), k).action() == if k < members.len() {
            PeriodAction::ProbeIndirect(members[k as int], period.suspect->0)
        } else {
            PeriodAction::ConfirmSuspected
        },
        k < members.len() ==> relayed_answers(period.with_relays(members), k).after_indirect(
            false,
        ).action() == PeriodAction::ConfirmSuspected,
{
    lemma_relayed_answers(period.with_relays(members), k);
}

/// Law: confirming the suspected members at the end of a period leaves
/// each of them (none being the server) in the confirmed group and in
/// neither of the other two, and every other member where it was.
pub proof fn law_confirmation_confirms_each(list: ListView, members: Seq<Node>, other: u128)
    requires
        forall|i: int| 0 <= i < members.len() ==> #[trigger] members[i] != list.server,
        forall|i: int| 0 <= i < members.len() ==> #[trigger] members[i].id != other,
    ensures
        forall|i: int|
            0 <= i < members.len() ==> only_in_confirmed(
                list.apply_all(confirm_updates(members)),
                #[trigger] members[i].id,
            ),
        list.apply_all(confirm_updates(members)).alive.contains_key(other)
            == list.alive.contains_key(other),
        list.apply_all(confirm_updates(members)).suspected.contains_key(other)
            == list.suspected.contains_key(other),
        list.apply_all(confirm_updates(members)).confirmed.contains_key(other)
            == list.confirmed.contains_key(other),
    decreases members.len(),
{
    if members.len() > 0 {
        let init = members.drop_last();
        let last = members.last();
        assert forall|i: int| 0 <= i < init.len() implies #[trigger] init[i] != list.server by {
            assert(init[i] == members[i]);
        }
        assert forall|i: int| 0 <= i < init.len() implies #[trigger] init[i].id != other by {
            assert(init[i] == members[i]);
        }
        law_confirmation_confirms_each(list, init, other);
        lemma_apply_all_append(list, confirm_updates(init), confirmed_moves(last));
        let mid = list.apply_all(confirm_updates(init));
        lemma_apply_all_keeps_server(list, confirm_updates(init));
        assert(last == members[members.len() - 1]);
        law_moves_place_member_in_one_group(mid, last, other);
        assert forall|i: int| 0 <= i < members.len() implies only_in_confirmed(
            list.apply_all(confirm_updates(members)),
            #[trigger] members[i].id,
        ) by {
            if members[i].id != last.id {
                assert(members[i] == init[i]);
                law_moves_place_member_in_one_group(mid, last, members[i].id);
            }
        }
    }
}

impl ProtocolPeriod {
    /// Every period is well formed.
    #[verifier::type_invariant]
    spec fn inv(&self) -> bool {
        self@.well_formed()
    }

    /// A period that will probe `direct`, the alive members, in order.
    pub fn start(direct: Vec<Node>) -> (period: ProtocolPeriod)
        ensures
            period@ == started(direct@),
    {
        ProtocolPeriod { direct, indirect: Vec::new(), index: 0, suspect: None, step: PeriodStep::Direct }
    }

    /// The next thing this period needs done.
    pub fn next_action(&self) -> (action: PeriodAction)
        ensures
            action == self@.action(),
    {
        proof {
            use_type_invariant(self);
        }
        match self.step {
            PeriodStep::Direct => if self.index < self.direct.len() {
                PeriodAction::Probe(self.direct[self.index])
            } else {
                PeriodAction::ConfirmSuspected
            },
            PeriodStep::AwaitIndirect => PeriodAction::FetchIndirect,
            PeriodStep::Indirect => if self.index < self.indirect.len() {
                PeriodAction::ProbeIndirect(self.indirect[self.index], self.suspect.unwrap())
            } else {
                PeriodAction::ConfirmSuspected
            },
            PeriodStep::Confirm => PeriodAction::ConfirmSuspected,
            PeriodStep::Done => PeriodAction::Done,
        }
    }

    /// Records whether the direct probe of the current member succeeded: on
    /// success the next member is probed, on failure the member becomes
    /// the period's suspect.
    pub fn direct_result(&mut self, succeeded: bool)
        requires
            old(self)@.action() is Probe,
        ensures
            final(self)@.well_formed(),
            final(self)@ == old(self)@.after_direct(succeeded),
    {
        proof {
            use_type_invariant(&*self);
        }
        if succeeded {
            assert(self.index < self.direct.len());
            self.index = self.index + 1;
        } else {
            self.suspect = Some(self.direct[self.index]);
            self.step = PeriodStep::AwaitIndirect;
        }
    }

    /// Records the members that may relay a probe of the suspect.
    pub fn indirect_list(&mut self, members: Vec<Node>)
        requires
            old(self)@.step == PeriodStep::AwaitIndirect,
        ensures
            final(self)@.well_formed(),
            final(self)@ == old(self)@.with_relays(members@),
    {
        proof {
            use_type_invariant(&*self);
        }
        self.indirect = members;
        self.index = 0;
        self.step = PeriodStep::Indirect;
    }

    /// Records whether the relayed probe through the current member
    /// succeeded: on success the next member is asked too, on failure the
    /// relaying stops.
    pub fn indirect_result(&mut self, succeeded: bool)
        requires
            old(self)@.action() is ProbeIndirect,
        ensures
            final(self)@.well_formed(),
            final(self)@ == old(self)@.after_indirect(succeeded),
    {
        proof {
            use_type_invariant(&*self);
        }
        if succeeded {
            assert(self.index < self.indirect.len());
            self.index = self.index + 1;
        } else {
            self.step = PeriodStep::Confirm;
        }
    }

    /// Ends the period: the updates that confirm each suspected member as
    /// failed.
    pub fn confirm_suspected(&mut self, suspected_members: &[Node]) -> (updates: Vec<ListRequest>)
        requires
            old(self)@.action() is ConfirmSuspected,
        ensures
            final(self)@ == (PeriodView { step: PeriodStep::Done, ..old(self)@ }),
            final(self)@.well_formed(),
            updates@ == confirm_updates(suspected_members@),
    {
        proof {
            use_type_invariant(&*self);
        }
        let mut updates: Vec<ListRequest> = Vec::new();
        let mut i: usize = 0;
        while i < suspected_members.len()
            invariant
                i <= suspected_members@.len(),
                updates@ == confirm_updates(suspected_members@.subrange(0, i as int)),
            decreases suspected_members@.len() - i,
        {
            let member = suspected_members[i];
            updates.push(ListRequest::RemoveAlive(member));
            updates.push(ListRequest::RemoveSuspected(member));
            updates.push(ListRequest::InsertConfirmed(member));
            assert(suspected_members@.subrange(0, i + 1).drop_last() =~= suspected_members@.subrange(
                0,
                i as int,
            ));
            i = i + 1;
            assert(updates@ =~= confirm_updates(suspected_members@.subrange(0, i as int)));
        }
        assert(suspected_members@.subrange(0, i as int) =~= suspected_members@);
        self.step = PeriodStep::Done;
        updates
    }
}

} // verus!
