//! The client pool: a set of configured backend clients with priority
//! metadata and failure history, and the selection behaviours that choose
//! one client per request.
//!
//! Time enters as a plain millisecond timestamp supplied by the caller, so
//! every contract holds for every clock value.

use vstd::prelude::*;

use crate::client::{client_id_spec, LlmClient};

verus! {

/// How long a member is deprioritized after a recorded failure, in
/// milliseconds.
pub const ERROR_COOLDOWN_MS: u64 = 60000;

/// How a pool chooses a member per request.
#[derive(Debug, Clone, Copy, PartialEq, Eq, Structural)]
pub enum Behavior {
    /// Pure round-robin over the members in insertion order.
    Distribute,
    /// The best-priority member outside cooldown, by ascending priority.
    Failover,
    /// Round-robin inside the best priority group with a member outside
    /// cooldown.
    Combination,
}

/// One configured client with its priority (lower is preferred) and the
/// timestamp of its last recorded failure.
#[derive(Debug)]
pub struct PoolMember {
    pub priority: usize,
    pub client: LlmClient,
    pub last_error: Option<u64>,
}

impl Clone for PoolMember {
    /// The copy equals the original.
    fn clone(&self) -> (r: Self)
        ensures
            r == *self,
    {
        PoolMember { priority: self.priority, client: self.client.clone(), last_error: self.last_error }
    }
}

impl PoolMember {
    /// A member with no recorded failure.
    pub fn new(priority: usize, client: LlmClient) -> (r: Self)
        ensures
            r == (PoolMember { priority, client, last_error: None }),
    {
        PoolMember { priority, client, last_error: None }
    }
}

/// The stable identity of a member's client.
pub open spec fn member_id_spec(m: PoolMember) -> u64 {
    client_id_spec(m.client.model, m.client.api_key@)
}

/// The member mapping that inserting a list of members in order produces:
/// a later member with the same identity replaces an earlier one.
pub open spec fn pool_map_spec(members: Seq<PoolMember>) -> Map<u64, PoolMember>
    decreases members,
{
    if members.len() == 0 {
        Map::empty()
    } else {
        pool_map_spec(members.drop_last()).insert(member_id_spec(members.last()), members.last())
    }
}

/// An identity is in the member mapping exactly when some member carries it.
pub proof fn lemma_pool_map_dom(members: Seq<PoolMember>)
    ensures
        forall|id: u64|
            #[trigger] pool_map_spec(members).contains_key(id) <==> exists|i: int|
                0 <= i < members.len() && member_id_spec(members[i]) == id,
    decreases members,
{
    if members.len() > 0 {
        lemma_pool_map_dom(members.drop_last());
        assert(members.drop_last() =~= members.subrange(0, members.len() - 1));
        assert forall|id: u64| #[trigger] pool_map_spec(members).contains_key(id) implies exists|
            i: int,
        | 0 <= i < members.len() && member_id_spec(members[i]) == id by {
            if id == member_id_spec(members.last()) {
                assert(member_id_spec(members[members.len() - 1]) == id);
            } else {
                assert(pool_map_spec(members.drop_last()).contains_key(id));
                let i = choose|i: int|
                    0 <= i < members.drop_last().len() && member_id_spec(
                        members.drop_last()[i],
                    ) == id;
                assert(members.drop_last()[i] == members[i]);
                assert(member_id_spec(members[i]) == id);
            }
        }
        assert forall|id: u64|
            (exists|i: int| 0 <= i < members.len() && member_id_spec(members[i]) == id) implies #[trigger] pool_map_spec(
            members,
        ).contains_key(id) by {
            let i = choose|i: int| 0 <= i < members.len() && member_id_spec(members[i]) == id;
            if i < members.len() - 1 {
                assert(members.drop_last()[i] == members[i]);
                assert(member_id_spec(members.drop_last()[i]) == id);
                assert(pool_map_spec(members.drop_last()).contains_key(id));
            }
        }
    }
}

/// A pool of configured clients: the member mapping, the identity sequence
/// that preserves insertion order, the selection behaviour, and the shared
/// round-robin counter.
#[derive(Debug)]
pub struct LlmPool {
    pub clients: std::collections::HashMap<u64, PoolMember>,
    pub client_order: Vec<u64>,
    pub behavior: Behavior,
    pub round_robin_index: usize,
}

/// `n + 1`, wrapping to zero at the top of `usize`.
pub open spec fn wrap_inc(n: usize) -> usize {
    if n == usize::MAX {
        0
    } else {
        (n + 1) as usize
    }
}

impl Clone for LlmPool {
    /// The copy holds the same members, order, behaviour and counter.
    fn clone(&self) -> (r: Self)
        ensures
            r.clients@ == self.clients@,
            r.client_order@ == self.client_order@,
            r.behavior == self.behavior,
            r.round_robin_index == self.round_robin_index,
    {
        let mut order: Vec<u64> = Vec::new();
        let mut i: usize = 0;
        while i < self.client_order.len()
            invariant
                i <= self.client_order@.len(),
                order@ =~= self.client_order@.subrange(0, i as int),
            decreases self.client_order@.len() - i,
        {
            order.push(self.client_order[i]);
            i = i + 1;
        }
        proof {
            assert(self.client_order@.subrange(0, self.client_order@.len() as int)
                =~= self.client_order@);
        }
        LlmPool {
            clients: self.clients.clone(),
            client_order: order,
            behavior: self.behavior,
            round_robin_index: self.round_robin_index,
        }
    }
}

impl LlmPool {
    /// The identity sequence and the member mapping hold the same set of
    /// identities.
    pub open spec fn wf(&self) -> bool {
        &&& forall|i: int|
            0 <= i < self.client_order@.len() ==> self.clients@.contains_key(
                #[trigger] self.client_order@[i],
            )
        &&& forall|id: u64|
            #[trigger] self.clients@.contains_key(id) ==> self.client_order@.contains(id)
    }

    /// The member at position `i` of the identity sequence.
    pub open spec fn member_at(&self, i: int) -> PoolMember {
        self.clients@[self.client_order@[i]]
    }

    /// A member is eligible when it has no recorded failure or its failure
    /// is older than the cooldown window.
    pub open spec fn eligible_at(&self, i: int, now: u64) -> bool {
        match self.member_at(i).last_error {
            None => true,
            Some(t) => now >= t + ERROR_COOLDOWN_MS,
        }
    }

    /// Some member is outside the cooldown window.
    pub open spec fn exists_eligible(&self, now: u64) -> bool {
        exists|i: int| 0 <= i < self.client_order@.len() && self.eligible_at(i, now)
    }

    /// A pool from `clients` in order, with the given behaviour and a fresh
    /// counter.
    #[verifier::loop_isolation(false)]
    pub fn new(clients: Vec<PoolMember>, behavior: Behavior) -> (r: Self)
        ensures
            r.clients@ == pool_map_spec(clients@),
            r.client_order@.len() == clients@.len(),
            forall|i: int|
                0 <= i < clients@.len() ==> #[trigger] r.client_order@[i] == member_id_spec(
                    clients@[i],
                ),
            r.behavior == behavior,
            r.round_robin_index == 0,
            r.wf(),
    {
        let mut client_map: std::collections::HashMap<u64, PoolMember> =
            std::collections::HashMap::new();
        let mut client_order: Vec<u64> = Vec::new();
        let mut i: usize = 0;
        proof {
            assert(clients@.subrange(0, 0) =~= Seq::<PoolMember>::empty());
        }
        while i < clients.len()
            invariant
                i <= clients@.len(),
                client_map@ == pool_map_spec(clients@.subrange(0, i as int)),
                client_order@.len() == i,
                forall|k: int|
                    0 <= k < i ==> #[trigger] client_order@[k] == member_id_spec(clients@[k]),
            decreases clients@.len() - i,
        {
            let member = clients[i].clone();
            let client_id = member.client.id();
            client_order.push(client_id);
            client_map.insert(client_id, member);
            proof {
                let pre = clients@.subrange(0, i as int);
                let post = clients@.subrange(0, i + 1);
                assert(post.drop_last() =~= pre);
                assert(post.last() == clients@[i as int]);
            }
            i = i + 1;
        }
        proof {
            assert(clients@.subrange(0, clients@.len() as int) =~= clients@);
        }
        let r = LlmPool { clients: client_map, client_order, behavior, round_robin_index: 0 };
        proof {
            lemma_pool_map_dom(clients@);
            assert forall|id: u64| #[trigger] r.clients@.contains_key(id) implies r.client_order@
                .contains(id) by {
                let i = choose|i: int| 0 <= i < clients@.len() && member_id_spec(clients@[i]) == id;
                assert(r.client_order@[i] == id);
            }
        }
        r
    }

    /// A builder for pools.
    pub fn builder() -> (r: LlmPoolBuilder)
        ensures
            r.members@.len() == 0,
            r.behaviour is None,
    {
        LlmPoolBuilder::new()
    }

    /// The member with the given identity, when the pool holds one.
    fn member_of<'a>(&'a self, id: u64) -> (r: &'a PoolMember)
        requires
            self.clients@.contains_key(id),
        ensures
            *r == self.clients@[id],
    {
        match self.clients.get(&id) {
            Some(m) => m,
            None => vstd::pervasive::unreached(),
        }
    }

    /// Records `now_ms` as the last failure of the member matching the
    /// client's identity; unknown identities are ignored.
    pub fn mark_error(&mut self, client: &LlmClient, now_ms: u64)
        ensures
            ({
                let id = client_id_spec(client.model, client.api_key@);
                if old(self).clients@.contains_key(id) {
                    final (self).clients@ == old(self).clients@.insert(
                        id,
                        PoolMember { last_error: Some(now_ms), ..old(self).clients@[id] },
                    )
                } else {
                    final (self).clients@ == old(self).clients@
                }
            }),
            final (self).client_order@ == old(self).client_order@,
            final (self).behavior == old(self).behavior,
            final (self).round_robin_index == old(self).round_robin_index,
            old(self).wf() ==> final (self).wf(),
    {
        let client_id = client.id();
        if self.clients.contains_key(&client_id) {
            let member = match self.clients.remove(&client_id) {
                Some(m) => m,
                None => vstd::pervasive::unreached(),
            };
            self.clients.insert(
                client_id,
                PoolMember { last_error: Some(now_ms), ..member },
            );
            proof {
                assert(self.clients@ =~= old(self).clients@.insert(
                    client_id,
                    PoolMember { last_error: Some(now_ms), ..old(self).clients@[client_id] },
                ));
            }
        }
        proof {
            if old(self).wf() {
                assert forall|id: u64| #[trigger] self.clients@.contains_key(id) implies self
                    .client_order@.contains(id) by {
                    assert(old(self).clients@.contains_key(id));
                }
            }
        }
    }

    /// Clears the failure record of the member matching the client's
    /// identity; unknown identities are ignored.
    pub fn clear_error(&mut self, client: &LlmClient)
        ensures
            ({
                let id = client_id_spec(client.model, client.api_key@);
                if old(self).clients@.contains_key(id) {
                    final (self).clients@ == old(self).clients@.insert(
                        id,
                        PoolMember { last_error: None, ..old(self).clients@[id] },
                    )
                } else {
                    final (self).clients@ == old(self).clients@
                }
            }),
            final (self).client_order@ == old(self).client_order@,
            final (self).behavior == old(self).behavior,
            final (self).round_robin_index == old(self).round_robin_index,
            old(self).wf() ==> final (self).wf(),
    {
        let client_id = client.id();
        if self.clients.contains_key(&client_id) {
            let member = match self.clients.remove(&client_id) {
                Some(m) => m,
                None => vstd::pervasive::unreached(),
            };
            self.clients.insert(client_id, PoolMember { last_error: None, ..member });
            proof {
                assert(self.clients@ =~= old(self).clients@.insert(
                    client_id,
                    PoolMember { last_error: None, ..old(self).clients@[client_id] },
                ));
            }
        }
        proof {
            if old(self).wf() {
                assert forall|id: u64| #[trigger] self.clients@.contains_key(id) implies self
                    .client_order@.contains(id) by {
                    assert(old(self).clients@.contains_key(id));
                }
            }
        }
    }

    /// Appends a member to the pool.
    pub fn add_client(&mut self, member: PoolMember)
        ensures
            final (self).client_order@ == old(self).client_order@.push(member_id_spec(member)),
            final (self).clients@ == old(self).clients@.insert(member_id_spec(member), member),
            final (self).behavior == old(self).behavior,
            final (self).round_robin_index == old(self).round_robin_index,
            old(self).wf() ==> final (self).wf(),
    {
        let client_id = member.client.id();
        self.client_order.push(client_id);
        self.clients.insert(client_id, member);
        proof {
            if old(self).wf() {
                assert forall|id: u64| #[trigger] self.clients@.contains_key(id) implies self
                    .client_order@.contains(id) by {
                    if id == client_id {
                        assert(self.client_order@[self.client_order@.len() - 1] == id);
                    } else {
                        assert(old(self).clients@.contains_key(id));
                        let i = choose|i: int|
                            0 <= i < old(self).client_order@.len() && old(self).client_order@[i]
                                == id;
                        assert(self.client_order@[i] == id);
                    }
                }
            }
        }
    }

    /// The identity sequence without any occurrence of `id`.
    pub open spec fn order_without(s: Seq<u64>, id: u64) -> Seq<u64>
        decreases s,
    {
        if s.len() == 0 {
            s
        } else if s[0] == id {
            Self::order_without(s.drop_first(), id)
        } else {
            seq![s[0]] + Self::order_without(s.drop_first(), id)
        }
    }

    /// Removes the member matching the client's identity, returning it.
    pub fn remove_client(&mut self, client: &LlmClient) -> (r: Option<PoolMember>)
        ensures
            ({
                let id = client_id_spec(client.model, client.api_key@);
                &&& final (self).client_order@ == Self::order_without(
                    old(self).client_order@,
                    id,
                )
                &&& final (self).clients@ == old(self).clients@.remove(id)
                &&& r == if old(self).clients@.contains_key(id) {
                    Some(old(self).clients@[id])
                } else {
                    None::<PoolMember>
                }
            }),
            final (self).behavior == old(self).behavior,
            final (self).round_robin_index == old(self).round_robin_index,
            old(self).wf() ==> final (self).wf(),
    {
        let client_id = client.id();
        let mut kept: Vec<u64> = Vec::new();
        let mut i: usize = 0;
        proof {
            assert(self.client_order@.subrange(0, 0) =~= Seq::<u64>::empty());
            assert(Self::order_without(Seq::<u64>::empty(), client_id) =~= Seq::<u64>::empty());
        }
        while i < self.client_order.len()
            invariant
                i <= self.client_order@.len(),
                self.client_order@ == old(self).client_order@,
                self.clients@ == old(self).clients@,
                self.behavior == old(self).behavior,
                self.round_robin_index == old(self).round_robin_index,
                kept@ =~= Self::order_without(
                    self.client_order@.subrange(0, i as int),
                    client_id,
                ),
            decreases self.client_order@.len() - i,
        {
            let ghost pre = self.client_order@.subrange(0, i as int);
            let ghost k0 = kept@;
            let cur = self.client_order[i];
            if cur != client_id {
                kept.push(cur);
            }
            proof {
                let post = self.client_order@.subrange(0, i + 1);
                assert(post =~= pre + seq![self.client_order@[i as int]]);
                lemma_order_without_concat(pre, seq![self.client_order@[i as int]], client_id);
                let single = seq![self.client_order@[i as int]];
                assert(single.drop_first() =~= Seq::<u64>::empty());
                assert(Self::order_without(Seq::<u64>::empty(), client_id) =~= Seq::<
                    u64,
                >::empty());
                if self.client_order@[i as int] == client_id {
                    assert(Self::order_without(single, client_id) =~= Seq::<u64>::empty());
                } else {
                    assert(Self::order_without(single, client_id) =~= single);
                }
                assert(kept@ =~= Self::order_without(post, client_id));
            }
            i = i + 1;
        }
        proof {
            assert(self.client_order@.subrange(0, self.client_order@.len() as int)
                =~= self.client_order@);
        }
        self.client_order = kept;
        let removed = self.clients.remove(&client_id);
        proof {
            if old(self).wf() {
                assert forall|i2: int|
                    0 <= i2 < self.client_order@.len() implies self.clients@.contains_key(
                    #[trigger] self.client_order@[i2],
                ) by {
                    lemma_order_without_members(old(self).client_order@, client_id, i2);
                    let x = self.client_order@[i2];
                    let j = choose|j: int|
                        0 <= j < old(self).client_order@.len() && old(self).client_order@[j] == x;
                    assert(old(self).clients@.contains_key(x));
                }
                assert forall|id: u64| #[trigger] self.clients@.contains_key(id) implies self
                    .client_order@.contains(id) by {
                    assert(old(self).clients@.contains_key(id));
                    assert(id != client_id);
                    assert(old(self).client_order@.contains(id));
                    let j = choose|j: int|
                        0 <= j < old(self).client_order@.len() && old(self).client_order@[j] == id;
                    lemma_order_without_contains(old(self).client_order@, client_id, j);
                }
            }
        }
        removed
    }

    /// The number of members in the pool.
    pub fn len(&self) -> (r: usize)
        ensures
            r == self.clients@.len(),
    {
        self.clients.len()
    }

    /// Whether the pool has no members.
    pub fn is_empty(&self) -> (r: bool)
        ensures
            r == (self.clients@.len() == 0),
    {
        self.clients.is_empty()
    }
}

/// `order_without` distributes over concatenation.
pub proof fn lemma_order_without_concat(a: Seq<u64>, b: Seq<u64>, id: u64)
    ensures
        LlmPool::order_without(a + b, id) == LlmPool::order_without(a, id)
            + LlmPool::order_without(b, id),
    decreases a,
{
    if a.len() == 0 {
        assert(a + b =~= b);
        assert(LlmPool::order_without(a, id) + LlmPool::order_without(b, id)
            =~= LlmPool::order_without(b, id));
    } else {
        lemma_order_without_concat(a.drop_first(), b, id);
        assert((a + b).drop_first() =~= a.drop_first() + b);
        assert(LlmPool::order_without(a + b, id) =~= LlmPool::order_without(a, id)
            + LlmPool::order_without(b, id));
    }
}

/// An identity other than the filtered one keeps its place in the sequence.
pub proof fn lemma_order_without_contains(s: Seq<u64>, id: u64, j: int)
    requires
        0 <= j < s.len(),
        s[j] != id,
    ensures
        LlmPool::order_without(s, id).contains(s[j]),
    decreases s,
{
    let r = LlmPool::order_without(s, id);
    let rd = LlmPool::order_without(s.drop_first(), id);
    if j == 0 {
        assert(r[0] == s[0]);
        assert(r.contains(s[0]));
        assert(s[0int] == s[j]);
    } else {
        assert(s.drop_first()[j - 1] == s[j]);
        lemma_order_without_contains(s.drop_first(), id, j - 1);
        let k = choose|k: int| 0 <= k < rd.len() && rd[k] == s[j];
        if s[0] == id {
            assert(r =~= rd);
            assert(r[k] == s[j]);
        } else {
            assert(r =~= seq![s[0]] + rd);
            assert(r[k + 1] == s[j]);
        }
    }
}

/// Every element of the filtered identity sequence occurs in the original,
/// and differs from the filtered identity.
pub proof fn lemma_order_without_members(s: Seq<u64>, id: u64, i: int)
    requires
        0 <= i < LlmPool::order_without(s, id).len(),
    ensures
        LlmPool::order_without(s, id)[i] != id,
        s.contains(LlmPool::order_without(s, id)[i]),
    decreases s,
{
    if s.len() > 0 {
        let r = LlmPool::order_without(s, id);
        if s[0] == id {
            lemma_order_without_members(s.drop_first(), id, i);
            let x = LlmPool::order_without(s.drop_first(), id)[i];
            let j = choose|j: int| 0 <= j < s.drop_first().len() && s.drop_first()[j] == x;
            assert(s[j + 1] == x);
        } else {
            if i == 0 {
                assert(r[0] == s[0]);
                assert(s[0int] == s[0]);
            } else {
                assert(r.drop_first() =~= LlmPool::order_without(s.drop_first(), id));
                lemma_order_without_members(s.drop_first(), id, i - 1);
                let x = LlmPool::order_without(s.drop_first(), id)[i - 1];
                assert(r[i] == x);
                let j = choose|j: int| 0 <= j < s.drop_first().len() && s.drop_first()[j] == x;
                assert(s[j + 1] == x);
            }
        }
    }
}

/// Why a pool could not be built.
#[derive(Debug, Clone, Copy, PartialEq, Eq, Structural)]
pub enum LlmPoolBuilderError {
    /// No behaviour was specified.
    Missingbehaviour,
    /// No clients were added to the pool.
    NoClients,
}

/// Builder for constructing pools.
#[derive(Debug)]
pub struct LlmPoolBuilder {
    pub members: Vec<PoolMember>,
    pub behaviour: Option<Behavior>,
}

impl LlmPoolBuilder {
    /// Create a new builder instance.
    pub fn new() -> (r: Self)
        ensures
            r.members@.len() == 0,
            r.behaviour is None,
    {
        LlmPoolBuilder { members: Vec::new(), behaviour: None }
    }

    /// Set the pool behaviour.
    pub fn behaviour(self, behaviour: Behavior) -> (r: Self)
        ensures
            r.members@ == self.members@,
            r.behaviour == Some(behaviour),
    {
        LlmPoolBuilder { behaviour: Some(behaviour), ..self }
    }

    /// Add a client with default priority (0).
    pub fn add_client(self, client: LlmClient) -> (r: Self)
        ensures
            r.members@ == self.members@.push(
                PoolMember { priority: 0, client, last_error: None },
            ),
            r.behaviour == self.behaviour,
    {
        let mut members = self.members;
        members.push(PoolMember { priority: 0, client, last_error: None });
        LlmPoolBuilder { members, behaviour: self.behaviour }
    }

    /// Add a client with the given priority.
    pub fn add_client_with_priority(self, client: LlmClient, priority: usize) -> (r: Self)
        ensures
            r.members@ == self.members@.push(PoolMember { priority, client, last_error: None }),
            r.behaviour == self.behaviour,
    {
        let mut members = self.members;
        members.push(PoolMember { priority, client, last_error: None });
        LlmPoolBuilder { members, behaviour: self.behaviour }
    }

    /// Add multiple clients with default priority.
    #[verifier::loop_isolation(false)]
    pub fn add_clients(self, clients: Vec<LlmClient>) -> (r: Self)
        ensures
            r.members@.len() == self.members@.len() + clients@.len(),
            forall|i: int|
                0 <= i < self.members@.len() ==> #[trigger] r.members@[i] == self.members@[i],
            forall|i: int|
                0 <= i < clients@.len() ==> #[trigger] r.members@[self.members@.len() + i] == (
                PoolMember { priority: 0, client: clients@[i], last_error: None }),
            r.behaviour == self.behaviour,
    {
        let ghost base = self.members@.len();
        let mut members = self.members;
        let mut i: usize = 0;
        while i < clients.len()
            invariant
                i <= clients@.len(),
                members@.len() == base + i,
                forall|k: int| 0 <= k < base ==> #[trigger] members@[k] == self.members@[k],
                forall|k: int|
                    0 <= k < i ==> #[trigger] members@[base + k] == (PoolMember {
                        priority: 0,
                        client: clients@[k],
                        last_error: None,
                    }),
            decreases clients@.len() - i,
        {
            let client = clients[i].clone();
            members.push(PoolMember { priority: 0, client, last_error: None });
            i = i + 1;
        }
        LlmPoolBuilder { members, behaviour: self.behaviour }
    }

    /// Add multiple clients with the same priority.
    #[verifier::loop_isolation(false)]
    pub fn add_clients_with_priority(self, clients: Vec<LlmClient>, priority: usize) -> (r: Self)
        ensures
            r.members@.len() == self.members@.len() + clients@.len(),
            forall|i: int|
                0 <= i < self.members@.len() ==> #[trigger] r.members@[i] == self.members@[i],
            forall|i: int|
                0 <= i < clients@.len() ==> #[trigger] r.members@[self.members@.len() + i] == (
                PoolMember { priority, client: clients@[i], last_error: None }),
            r.behaviour == self.behaviour,
    {
        let ghost base = self.members@.len();
        let mut members = self.members;
        let mut i: usize = 0;
        while i < clients.len()
            invariant
                i <= clients@.len(),
                members@.len() == base + i,
                forall|k: int| 0 <= k < base ==> #[trigger] members@[k] == self.members@[k],
                forall|k: int|
                    0 <= k < i ==> #[trigger] members@[base + k] == (PoolMember {
                        priority,
                        client: clients@[k],
                        last_error: None,
                    }),
            decreases clients@.len() - i,
        {
            let client = clients[i].clone();
            members.push(PoolMember { priority, client, last_error: None });
            i = i + 1;
        }
        LlmPoolBuilder { members, behaviour: self.behaviour }
    }

    /// Add a member directly.
    pub fn add_member(self, member: PoolMember) -> (r: Self)
        ensures
            r.members@ == self.members@.push(member),
            r.behaviour == self.behaviour,
    {
        let mut members = self.members;
        members.push(member);
        LlmPoolBuilder { members, behaviour: self.behaviour }
    }

    /// Add multiple members directly.
    #[verifier::loop_isolation(false)]
    pub fn add_members(self, new_members: Vec<PoolMember>) -> (r: Self)
        ensures
            r.members@.len() == self.members@.len() + new_members@.len(),
            forall|i: int|
                0 <= i < self.members@.len() ==> #[trigger] r.members@[i] == self.members@[i],
            forall|i: int|
                0 <= i < new_members@.len() ==> #[trigger] r.members@[self.members@.len() + i]
                    == new_members@[i],
            r.behaviour == self.behaviour,
    {
        let ghost base = self.members@.len();
        let mut members = self.members;
        let mut i: usize = 0;
        while i < new_members.len()
            invariant
                i <= new_members@.len(),
                members@.len() == base + i,
                forall|k: int| 0 <= k < base ==> #[trigger] members@[k] == self.members@[k],
                forall|k: int| 0 <= k < i ==> #[trigger] members@[base + k] == new_members@[k],
            decreases new_members@.len() - i,
        {
            let member = new_members[i].clone();
            members.push(member);
            i = i + 1;
        }
        LlmPoolBuilder { members, behaviour: self.behaviour }
    }

    /// Build the pool; an unset behaviour and an empty member list are the
    /// two configuration errors, in that order.
    pub fn build(self) -> (r: Result<LlmPool, LlmPoolBuilderError>)
        ensures
            self.behaviour is None ==> r == Err::<LlmPool, LlmPoolBuilderError>(
                LlmPoolBuilderError::Missingbehaviour,
            ),
            self.behaviour is Some && self.members@.len() == 0 ==> r == Err::<
                LlmPool,
                LlmPoolBuilderError,
            >(LlmPoolBuilderError::NoClients),
            self.behaviour is Some && self.members@.len() > 0 ==> (r matches Ok(p) && {
                &&& p.clients@ == pool_map_spec(self.members@)
                &&& p.client_order@.len() == self.members@.len()
                &&& forall|i: int|
                    0 <= i < self.members@.len() ==> #[trigger] p.client_order@[i]
                        == member_id_spec(self.members@[i])
                &&& p.behavior == self.behaviour->Some_0
                &&& p.round_robin_index == 0
                &&& p.wf()
            }),
    {
        let behaviour = match self.behaviour {
            Some(b) => b,
            None => {
                return Err(LlmPoolBuilderError::Missingbehaviour);
            },
        };
        if self.members.len() == 0 {
            return Err(LlmPoolBuilderError::NoClients);
        }
        Ok(LlmPool::new(self.members, behaviour))
    }

    /// Build the pool, falling back to `Failover` when no behaviour is set.
    pub fn build_with_default_behaviour(self) -> (r: Result<LlmPool, LlmPoolBuilderError>)
        ensures
            self.members@.len() == 0 ==> r == Err::<LlmPool, LlmPoolBuilderError>(
                LlmPoolBuilderError::NoClients,
            ),
            self.members@.len() > 0 ==> (r matches Ok(p) && {
                &&& p.clients@ == pool_map_spec(self.members@)
                &&& p.behavior == match self.behaviour {
                    Some(b) => b,
                    None => Behavior::Failover,
                }
                &&& p.wf()
            }),
    {
        if self.members.len() == 0 {
            return Err(LlmPoolBuilderError::NoClients);
        }
        let behaviour = match self.behaviour {
            Some(b) => b,
            None => Behavior::Failover,
        };
        Ok(LlmPool::new(self.members, behaviour))
    }
}

impl Default for LlmPoolBuilder {
    /// The empty builder.
    fn default() -> (r: Self)
        ensures
            r.members@.len() == 0,
            r.behaviour is None,
    {
        LlmPoolBuilder::new()
    }
}


/// A member is outside the cooldown window at `now`.
fn eligible_member(m: &PoolMember, now_ms: u64) -> (r: bool)
    ensures
        r == match m.last_error {
            None => true,
            Some(t) => now_ms >= t + ERROR_COOLDOWN_MS,
        },
{
    match m.last_error {
        None => true,
        Some(t) => now_ms >= t && now_ms - t >= ERROR_COOLDOWN_MS,
    }
}

impl LlmPool {
    /// The position the `Failover` behaviour selects: the first member with
    /// the best priority among those outside cooldown, or, when every member
    /// is inside cooldown, the first member with the best priority outright.
    pub open spec fn is_failover_pick(&self, now: u64, i: int) -> bool {
        if self.exists_eligible(now) {
            &&& 0 <= i < self.client_order@.len()
            &&& self.eligible_at(i, now)
            &&& forall|j: int|
                0 <= j < self.client_order@.len() && self.eligible_at(j, now) ==> self.member_at(
                    i,
                ).priority <= #[trigger] self.member_at(j).priority
            &&& forall|j: int|
                0 <= j < i && self.eligible_at(j, now) ==> #[trigger] self.member_at(j).priority
                    > self.member_at(i).priority
        } else {
            self.is_min_priority_pick(i)
        }
    }

    /// The position of the first member with the globally best priority.
    pub open spec fn is_min_priority_pick(&self, i: int) -> bool {
        &&& 0 <= i < self.client_order@.len()
        &&& forall|j: int|
            0 <= j < self.client_order@.len() ==> self.member_at(i).priority
                <= #[trigger] self.member_at(j).priority
        &&& forall|j: int|
            0 <= j < i ==> #[trigger] self.member_at(j).priority > self.member_at(i).priority
    }

    /// `g` lists, in ascending position order, exactly the members outside
    /// cooldown whose priority is `p`.
    pub open spec fn is_priority_group(&self, now: u64, p: int, g: Seq<usize>) -> bool {
        &&& forall|k: int|
            0 <= k < g.len() ==> 0 <= #[trigger] g[k] < self.client_order@.len()
                && self.eligible_at(g[k] as int, now) && self.member_at(g[k] as int).priority == p
        &&& forall|k1: int, k2: int| 0 <= k1 < k2 < g.len() ==> g[k1] < g[k2]
        &&& forall|j: int|
            0 <= j < self.client_order@.len() && self.eligible_at(j, now) && self.member_at(
                j,
            ).priority == p ==> g.contains(j as usize)
    }

    /// The position the `Combination` behaviour selects when some member is
    /// outside cooldown: the shared counter, taken modulo the group's size,
    /// picks round-robin among the eligible members of the best eligible
    /// priority.
    pub open spec fn is_combination_pick(&self, now: u64, i: int) -> bool {
        exists|p: int, g: Seq<usize>|
            {
                &&& forall|j: int|
                    0 <= j < self.client_order@.len() && self.eligible_at(j, now) ==> p
                        <= #[trigger] self.member_at(j).priority
                &&& #[trigger] self.is_priority_group(now, p, g)
                &&& g.len() > 0
                &&& i == g[(self.round_robin_index as int) % (g.len() as int)] as int
            }
    }

    /// Selects one client according to the configured behaviour.
    ///
    /// Under `Distribute` the shared counter walks the members in insertion
    /// order, wrapping at the member count. Under `Failover` the first
    /// best-priority member outside the cooldown window is returned, and
    /// when every member is cooling down, the first best-priority member
    /// outright. Under `Combination` the counter walks the eligible members
    /// of the best eligible priority, with the same cooling-down fallback.
    #[verifier::loop_isolation(false)]
    pub fn get_client(&mut self, now_ms: u64) -> (r: LlmClient)
        requires
            old(self).wf(),
            old(self).client_order@.len() > 0,
        ensures
            final (self).clients@ == old(self).clients@,
            final (self).client_order@ == old(self).client_order@,
            final (self).behavior == old(self).behavior,
            final (self).wf(),
            old(self).behavior == Behavior::Distribute ==> {
                &&& final (self).round_robin_index == wrap_inc(old(self).round_robin_index)
                &&& r == old(self).member_at(
                    (old(self).round_robin_index as int) % (old(self).client_order@.len() as int),
                ).client
            },
            old(self).behavior == Behavior::Failover ==> {
                &&& final (self).round_robin_index == old(self).round_robin_index
                &&& exists|i: int|
                    #[trigger] old(self).is_failover_pick(now_ms, i) && r == old(self).member_at(
                        i,
                    ).client
            },
            old(self).behavior == Behavior::Combination && old(self).exists_eligible(now_ms) ==> {
                &&& final (self).round_robin_index == wrap_inc(old(self).round_robin_index)
                &&& exists|i: int|
                    #[trigger] old(self).is_combination_pick(now_ms, i) && r == old(
                        self,
                    ).member_at(i).client
            },
            old(self).behavior == Behavior::Combination && !old(self).exists_eligible(now_ms) ==> {
                &&& final (self).round_robin_index == old(self).round_robin_index
                &&& exists|i: int|
                    #[trigger] old(self).is_min_priority_pick(i) && r == old(self).member_at(
                        i,
                    ).client
            },
    {
        let n = self.client_order.len();
        match self.behavior {
            Behavior::Distribute => {
                let idx = self.round_robin_index % n;
                let id = self.client_order[idx];
                let c = self.member_of(id).client.clone();
                self.round_robin_index = if self.round_robin_index == usize::MAX {
                    0
                } else {
                    self.round_robin_index + 1
                };
                c
            },
            Behavior::Failover => {
                let mut best_any: usize = 0;
                let mut best_elig: Option<usize> = None;
                let mut i: usize = 0;
                while i < n
                    invariant
                        i <= n,
                        best_any < n,
                        best_any <= i || i == 0,
                        forall|j: int|
                            0 <= j < i ==> self.member_at(best_any as int).priority
                                <= #[trigger] self.member_at(j).priority,
                        forall|j: int|
                            0 <= j < best_any ==> #[trigger] self.member_at(j).priority > self
                                .member_at(best_any as int).priority,
                        match best_elig {
                            Some(b) => {
                                &&& 0 <= b < i
                                &&& self.eligible_at(b as int, now_ms)
                                &&& forall|j: int|
                                    0 <= j < i && self.eligible_at(j, now_ms) ==> self.member_at(
                                        b as int,
                                    ).priority <= #[trigger] self.member_at(j).priority
                                &&& forall|j: int|
                                    0 <= j < b && self.eligible_at(j, now_ms)
                                        ==> #[trigger] self.member_at(j).priority > self.member_at(
                                        b as int,
                                    ).priority
                            },
                            None => forall|j: int| 0 <= j < i ==> !self.eligible_at(j, now_ms),
                        },
                    decreases n - i,
                {
                    let id = self.client_order[i];
                    let m = self.member_of(id);
                    let elig = eligible_member(m, now_ms);
                    let pri = m.priority;
                    if i == 0 || pri < self.member_of(self.client_order[best_any]).priority {
                        best_any = i;
                    }
                    if elig {
                        let better = match best_elig {
                            Some(b) => pri < self.member_of(self.client_order[b]).priority,
                            None => true,
                        };
                        if better {
                            best_elig = Some(i);
                        }
                    }
                    i = i + 1;
                }
                match best_elig {
                    Some(b) => {
                        proof {
                            assert(self.eligible_at(b as int, now_ms));
                            assert(self.is_failover_pick(now_ms, b as int));
                        }
                        let id = self.client_order[b];
                        self.member_of(id).client.clone()
                    },
                    None => {
                        proof {
                            assert(forall|j: int| 0 <= j < n ==> !self.eligible_at(j, now_ms));
                            assert(!self.exists_eligible(now_ms));
                            assert(self.is_failover_pick(now_ms, best_any as int));
                        }
                        let id = self.client_order[best_any];
                        self.member_of(id).client.clone()
                    },
                }
            },
            Behavior::Combination => {
                let mut best_any: usize = 0;
                let mut best_elig: Option<usize> = None;
                let mut i: usize = 0;
                while i < n
                    invariant
                        i <= n,
                        best_any < n,
                        forall|j: int|
                            0 <= j < i ==> self.member_at(best_any as int).priority
                                <= #[trigger] self.member_at(j).priority,
                        forall|j: int|
                            0 <= j < best_any ==> #[trigger] self.member_at(j).priority > self
                                .member_at(best_any as int).priority,
                        match best_elig {
                            Some(b) => {
                                &&& 0 <= b < i
                                &&& self.eligible_at(b as int, now_ms)
                                &&& forall|j: int|
                                    0 <= j < i && self.eligible_at(j, now_ms) ==> self.member_at(
                                        b as int,
                                    ).priority <= #[trigger] self.member_at(j).priority
                            },
                            None => forall|j: int| 0 <= j < i ==> !self.eligible_at(j, now_ms),
                        },
                    decreases n - i,
                {
                    let id = self.client_order[i];
                    let m = self.member_of(id);
                    let elig = eligible_member(m, now_ms);
                    let pri = m.priority;
                    if i == 0 || pri < self.member_of(self.client_order[best_any]).priority {
                        best_any = i;
                    }
                    if elig {
                        let better = match best_elig {
                            Some(b) => pri < self.member_of(self.client_order[b]).priority,
                            None => true,
                        };
                        if better {
                            best_elig = Some(i);
                        }
                    }
                    i = i + 1;
                }
                match best_elig {
                    None => {
                        proof {
                            assert(forall|j: int| 0 <= j < n ==> !self.eligible_at(j, now_ms));
                            assert(!self.exists_eligible(now_ms));
                            assert(self.is_min_priority_pick(best_any as int));
                        }
                        let id = self.client_order[best_any];
                        self.member_of(id).client.clone()
                    },
                    Some(b) => {
                        let p = self.member_of(self.client_order[b]).priority;
                        let mut group: Vec<usize> = Vec::new();
                        let mut j: usize = 0;
                        while j < n
                            invariant
                                j <= n,
                                b < n,
                                p == self.member_at(b as int).priority,
                                forall|k: int|
                                    0 <= k < group@.len() ==> 0 <= #[trigger] group@[k] < j
                                        && self.eligible_at(group@[k] as int, now_ms)
                                        && self.member_at(group@[k] as int).priority == p,
                                forall|k1: int, k2: int|
                                    0 <= k1 < k2 < group@.len() ==> group@[k1] < group@[k2],
                                forall|j2: int|
                                    0 <= j2 < j && self.eligible_at(j2, now_ms) && self.member_at(
                                        j2,
                                    ).priority == p ==> group@.contains(j2 as usize),
                            decreases n - j,
                        {
                            let id = self.client_order[j];
                            let m = self.member_of(id);
                            if eligible_member(m, now_ms) && m.priority == p {
                                let ghost g0 = group@;
                                group.push(j);
                                proof {
                                    assert(group@[group@.len() - 1] == j);
                                    assert forall|j2: int|
                                        0 <= j2 < j + 1 && self.eligible_at(j2, now_ms) && self
                                            .member_at(j2).priority == p implies group@.contains(
                                        j2 as usize,
                                    ) by {
                                        if j2 < j {
                                            assert(g0.contains(j2 as usize));
                                            let k = choose|k: int|
                                                0 <= k < g0.len() && g0[k] == j2 as usize;
                                            assert(group@[k] == j2 as usize);
                                        } else {
                                            assert(group@[group@.len() - 1] == j2 as usize);
                                        }
                                    }
                                }
                            }
                            j = j + 1;
                        }
                        proof {
                            assert(self.eligible_at(b as int, now_ms));
                            assert(group@.contains(b as usize));
                            assert(group@.len() > 0);
                            assert(self.is_priority_group(now_ms, p as int, group@));
                        }
                        let chosen = group[self.round_robin_index % group.len()];
                        proof {
                            assert(self.is_combination_pick(now_ms, chosen as int));
                        }
                        let id = self.client_order[chosen];
                        let c = self.member_of(id).client.clone();
                        self.round_robin_index = if self.round_robin_index == usize::MAX {
                            0
                        } else {
                            self.round_robin_index + 1
                        };
                        c
                    },
                }
            },
        }
    }
}

/// Under `Distribute` with a fresh counter, consecutive selections walk the
/// members in insertion order and wrap: the selection numbered `k` (counting
/// from zero) picks position `k` while `k` is below the member count, the
/// picked identities of one full round are pairwise distinct when the
/// member identities are, and the selection numbered `len` wraps back to
/// position zero.
pub proof fn lemma_distribute_round_robin(pool: LlmPool, i: int, j: int)
    requires
        pool.round_robin_index == 0,
        pool.client_order@.len() > 0,
        pool.client_order@.no_duplicates(),
        0 <= i < pool.client_order@.len(),
        0 <= j < pool.client_order@.len(),
        i != j,
    ensures
        (pool.round_robin_index + i) % (pool.client_order@.len() as int) == i,
        pool.client_order@[(pool.round_robin_index + i) % (pool.client_order@.len() as int)]
            != pool.client_order@[(pool.round_robin_index + j) % (pool.client_order@.len() as int)],
        (pool.round_robin_index + pool.client_order@.len()) % (pool.client_order@.len() as int)
            == 0,
{
    let n = pool.client_order@.len() as int;
    vstd::arithmetic::div_mod::lemma_small_mod(i as nat, n as nat);
    vstd::arithmetic::div_mod::lemma_small_mod(j as nat, n as nat);
    vstd::arithmetic::div_mod::lemma_mod_self_0(n);
}

/// Marking a member's failure at the clock value used for the next
/// selection puts it inside the cooldown window, so a `Failover` selection
/// picks another member whenever any member at all is outside the window.
pub proof fn lemma_failover_skips_fresh_failure(pool: LlmPool, now: u64, f: int, i: int)
    requires
        0 <= f < pool.client_order@.len(),
        pool.member_at(f).last_error == Some(now),
        pool.exists_eligible(now),
        pool.is_failover_pick(now, i),
    ensures
        i != f,
        pool.eligible_at(i, now),
{
    assert(!pool.eligible_at(f, now));
}

} // verus!
