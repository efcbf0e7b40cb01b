//! In-memory relational store for guests, conversations and messages.
//!
//! The store enforces the structural invariants of the data model: guest
//! names are unique, every conversation belongs to an existing guest, at
//! most one conversation per `(guest, agent)` pair is active, message
//! costs are non-negative, and each conversation's messages are ordered
//! by their creation stamp. Creation stamps come from a logical clock
//! that advances on every write.
use vstd::prelude::*;
use crate::roles::{ContentType, MessageRole};
use crate::strutil::str_eq;

verus! {

/// A human end user. `credit` is a signed balance in units of 10^-9
/// credits; negative means overdraft.
#[derive(Debug)]
pub struct Guest {
    pub name: String,
    pub credit: i64,
    pub admin: bool,
}

impl Guest {
    pub fn new(name: &str, credit: i64, admin: bool) -> (g: Guest)
        ensures
            g.name@ == name@,
            g.credit == credit,
            g.admin == admin,
    {
        Guest { name: name.to_owned(), credit, admin }
    }
}

impl Clone for Guest {
    fn clone(&self) -> (res: Self)
        ensures
            res.name@ == self.name@,
            res.credit == self.credit,
            res.admin == self.admin,
    {
        Guest { name: self.name.clone(), credit: self.credit, admin: self.admin }
    }
}

impl PartialEq for Guest {
    fn eq(&self, other: &Self) -> (r: bool) {
        self.name == other.name && self.credit == other.credit && self.admin == other.admin
    }
}

impl vstd::std_specs::cmp::PartialEqSpecImpl for Guest {
    open spec fn obeys_eq_spec() -> bool {
        true
    }

    open spec fn eq_spec(&self, other: &Self) -> bool {
        self.name@ == other.name@ && self.credit == other.credit && self.admin == other.admin
    }
}

/// One persisted message of a conversation.
#[derive(Debug)]
pub struct StoredMessage {
    pub role: MessageRole,
    pub content: String,
    pub content_type: ContentType,
    pub cost: i64,
    pub prompt_tokens: u32,
    pub completion_tokens: u32,
    pub created_at: u64,
}

impl Clone for StoredMessage {
    fn clone(&self) -> (res: Self)
        ensures
            res == *self,
    {
        let c = StoredMessage {
            role: self.role,
            content: self.content.clone(),
            content_type: self.content_type,
            cost: self.cost,
            prompt_tokens: self.prompt_tokens,
            completion_tokens: self.completion_tokens,
            created_at: self.created_at,
        };
        proof {
            assert(c.content@ == self.content@);
            assert(c =~= *self) by {
                assert(c.content == self.content);
            }
        }
        c
    }
}

/// One conversation of a `(guest, agent)` pair, holding its messages in
/// creation order.
#[derive(Debug)]
pub struct ConversationRec {
    pub guest_name: String,
    pub agent_id: u64,
    pub active: bool,
    pub created_at: u64,
    pub updated_at: u64,
    pub messages: Vec<StoredMessage>,
}

/// How a store operation can fail.
#[derive(Debug, PartialEq, Eq, Structural, Clone, Copy)]
pub enum StoreError {
    /// The named guest, or the active conversation asked for, is absent.
    NotFound,
    /// A guest with that name already exists.
    Duplicate,
}

/// There is a guest of that name.
pub open spec fn has_guest(gs: Seq<Guest>, name: Seq<char>) -> bool {
    exists|i: int| 0 <= i < gs.len() && gs[i].name@ == name
}

/// The guest of that name; meaningful when one exists, and then
/// well-defined, since a well-formed store keeps names unique.
pub open spec fn guest_of(gs: Seq<Guest>, name: Seq<char>) -> Guest {
    let i = choose|i: int| 0 <= i < gs.len() && (#[trigger] gs[i]).name@ == name;
    gs[i]
}

/// `c` is the active conversation of the pair.
pub open spec fn is_active_for(c: ConversationRec, name: Seq<char>, agent_id: u64) -> bool {
    c.active && c.agent_id == agent_id && c.guest_name@ == name
}

/// There is an active conversation of the pair.
pub open spec fn has_active(cs: Seq<ConversationRec>, name: Seq<char>, agent_id: u64) -> bool {
    exists|i: int| 0 <= i < cs.len() && is_active_for(cs[i], name, agent_id)
}

/// The messages of the pair's active conversation; meaningful only when
/// one exists (and then well-defined, since at most one can).
pub open spec fn active_messages(
    cs: Seq<ConversationRec>,
    name: Seq<char>,
    agent_id: u64,
) -> Seq<StoredMessage> {
    let i = choose|i: int| 0 <= i < cs.len() && is_active_for(cs[i], name, agent_id);
    cs[i].messages@
}

/// The store of guests and conversations.
pub struct Store {
    pub guests: Vec<Guest>,
    pub conversations: Vec<ConversationRec>,
    pub clock: u64,
}

impl Store {
    /// Structural invariants of the data model; every operation takes and
    /// returns a well-formed store.
    pub open spec fn wf(&self) -> bool {
        let gs = self.guests@;
        let cs = self.conversations@;
        &&& forall|i: int, j: int|
            0 <= i < j < gs.len() ==> gs[i].name@ != gs[j].name@
        &&& forall|i: int| 0 <= i < gs.len() ==> (#[trigger] gs[i]).credit > i64::MIN
        &&& forall|i: int, j: int|
            0 <= i < j < cs.len() && #[trigger] cs[i].active && #[trigger] cs[j].active ==> !(
            cs[i].guest_name@ == cs[j].guest_name@ && cs[i].agent_id == cs[j].agent_id)
        &&& forall|i: int| 0 <= i < cs.len() ==> has_guest(gs, #[trigger] cs[i].guest_name@)
        &&& forall|i: int| 0 <= i < cs.len() ==> (#[trigger] cs[i]).created_at <= self.clock
        &&& forall|i: int, k: int|
            0 <= i < cs.len() && 0 <= k < (#[trigger] cs[i]).messages@.len() ==> (#[trigger] cs[
                i
            ].messages@[k]).cost >= 0 && cs[i].messages@[k].created_at <= self.clock
        &&& forall|i: int, k: int, l: int|
            0 <= i < cs.len() && 0 <= k < l < cs[i].messages@.len() ==> (#[trigger] cs[
                i
            ].messages@[k]).created_at <= (#[trigger] cs[i].messages@[l]).created_at
    }

    /// At most one active conversation exists for any `(guest, agent)`
    /// pair: any two active conversations of the pair are the same row.
    pub proof fn lemma_single_active_conversation(&self, name: Seq<char>, agent_id: u64)
        requires
            self.wf(),
        ensures
            forall|i: int, j: int|
                0 <= i < self.conversations@.len() && 0 <= j < self.conversations@.len()
                    && is_active_for(#[trigger] self.conversations@[i], name, agent_id)
                    && is_active_for(#[trigger] self.conversations@[j], name, agent_id) ==> i == j,
    {
    }

    /// Fresh store holding exactly the seeded administrator with a zero
    /// balance.
    pub fn new(admin_name: &str) -> (s: Store)
        ensures
            s.wf(),
            s.guests@.len() == 1,
            s.guests@[0].name@ == admin_name@,
            s.guests@[0].credit == 0,
            s.guests@[0].admin,
            s.conversations@.len() == 0,
    {
        let mut guests: Vec<Guest> = Vec::new();
        guests.push(Guest::new(admin_name, 0, true));
        Store { guests, conversations: Vec::new(), clock: 0 }
    }

    /// Index of the guest with the given name.
    fn find_guest_idx(&self, name: &str) -> (r: Option<usize>)
        ensures
            match r {
                Some(i) => i < self.guests@.len() && self.guests@[i as int].name@ == name@,
                None => !has_guest(self.guests@, name@),
            },
    {
        let n = self.guests.len();
        let mut i: usize = 0;
        while i < n
            invariant
                0 <= i <= n,
                n == self.guests@.len(),
                forall|j: int| 0 <= j < i ==> self.guests@[j].name@ != name@,
            decreases n - i,
        {
            if str_eq(self.guests[i].name.as_str(), name) {
                return Some(i);
            }
            i += 1;
        }
        None
    }

    /// Registers a new guest; a second guest of the same name is refused.
    pub fn create_user(&mut self, guest: &Guest) -> (r: Result<(), StoreError>)
        requires
            old(self).wf(),
            guest.credit > i64::MIN,
        ensures
            final(self).wf(),
            match r {
                Ok(()) => !has_guest(old(self).guests@, guest.name@) && final(self).guests@.len()
                    == old(self).guests@.len() + 1 && final(self).guests@.last().name@
                    == guest.name@ && final(self).guests@.last().credit == guest.credit
                    && final(self).guests@.last().admin == guest.admin
                    && final(self).guests@.subrange(0, old(self).guests@.len() as int)
                    == old(self).guests@,
                Err(e) => e == StoreError::Duplicate && has_guest(old(self).guests@, guest.name@)
                    && *final(self) == *old(self),
            },
            final(self).conversations@ == old(self).conversations@,
    {
        match self.find_guest_idx(guest.name.as_str()) {
            Some(_) => Err(StoreError::Duplicate),
            None => {
                self.guests.push(guest.clone());
                proof {
                    assert(self.guests@.subrange(0, old(self).guests@.len() as int) =~= old(
                        self,
                    ).guests@);
                    assert forall|i: int| 0 <= i < self.conversations@.len() implies has_guest(
                        self.guests@,
                        #[trigger] self.conversations@[i].guest_name@,
                    ) by {
                        let w = choose|w: int|
                            0 <= w < old(self).guests@.len() && old(self).guests@[w].name@
                                == self.conversations@[i].guest_name@;
                        assert(self.guests@[w].name@ == self.conversations@[i].guest_name@);
                    }
                }
                Ok(())
            },
        }
    }

    /// Looks a guest up by name.
    pub fn get_user(&self, name: &str) -> (r: Result<Guest, StoreError>)
        requires
            self.wf(),
        ensures
            match r {
                Ok(g) => has_guest(self.guests@, name@) && g.name@ == name@ && g.credit
                    == guest_of(self.guests@, name@).credit && g.admin == guest_of(
                    self.guests@,
                    name@,
                ).admin,
                Err(e) => e == StoreError::NotFound && !has_guest(self.guests@, name@),
            },
    {
        match self.find_guest_idx(name) {
            Some(i) => {
                proof {
                    let gs = self.guests@;
                    assert(has_guest(gs, name@));
                    let w = choose|w: int| 0 <= w < gs.len() && (#[trigger] gs[w]).name@ == name@;
                    assert(w == i as int);
                }
                Ok(self.guests[i].clone())
            },
            None => Err(StoreError::NotFound),
        }
    }

    /// Returns every guest, in registration order.
    pub fn get_users(&self) -> (r: Vec<Guest>)
        ensures
            r@.len() == self.guests@.len(),
            forall|i: int|
                0 <= i < r@.len() ==> (#[trigger] r@[i]).name@ == self.guests@[i].name@ && r@[
                    i
                ].credit == self.guests@[i].credit && r@[i].admin == self.guests@[i].admin,
    {
        let n = self.guests.len();
        let mut r: Vec<Guest> = Vec::new();
        let mut i: usize = 0;
        while i < n
            invariant
                0 <= i <= n,
                n == self.guests@.len(),
                r@.len() == i,
                forall|j: int|
                    0 <= j < i ==> (#[trigger] r@[j]).name@ == self.guests@[j].name@ && r@[
                        j
                    ].credit == self.guests@[j].credit && r@[j].admin == self.guests@[j].admin,
            decreases n - i,
        {
            r.push(self.guests[i].clone());
            i += 1;
        }
        r
    }

    /// Overwrites the balance and admin flag of the guest with the given
    /// name.
    pub fn update_user(&mut self, guest: &Guest) -> (r: Result<(), StoreError>)
        requires
            old(self).wf(),
            guest.credit > i64::MIN,
        ensures
            final(self).wf(),
            match r {
                Ok(()) => has_guest(old(self).guests@, guest.name@) && final(self).guests@.len()
                    == old(self).guests@.len() && (forall|j: int|
                    0 <= j < old(self).guests@.len() && (#[trigger] old(self).guests@[j]).name@
                        != guest.name@ ==> final(self).guests@[j] == old(self).guests@[j]) && (
                forall|j: int|
                    0 <= j < old(self).guests@.len() && (#[trigger] old(self).guests@[j]).name@
                        == guest.name@ ==> final(self).guests@[j].name@ == guest.name@ && final(self).guests@[j].credit == guest.credit && final(self).guests@[j].admin
                        == guest.admin),
                Err(e) => e == StoreError::NotFound && !has_guest(old(self).guests@, guest.name@)
                    && *final(self) == *old(self),
            },
            final(self).conversations@ == old(self).conversations@,
            final(self).clock == old(self).clock,
    {
        match self.find_guest_idx(guest.name.as_str()) {
            None => Err(StoreError::NotFound),
            Some(i) => {
                let g = guest.clone();
                self.guests.set(i, g);
                proof {
                    assert forall|a: int| 0 <= a < self.conversations@.len() implies has_guest(
                        self.guests@,
                        #[trigger] self.conversations@[a].guest_name@,
                    ) by {
                        let w = choose|w: int|
                            0 <= w < old(self).guests@.len() && old(self).guests@[w].name@
                                == self.conversations@[a].guest_name@;
                        assert(self.guests@[w].name@ == self.conversations@[a].guest_name@);
                    }
                }
                Ok(())
            },
        }
    }
    /// Index of the pair's active conversation.
    fn find_active_idx(&self, name: &str, agent_id: u64) -> (r: Option<usize>)
        ensures
            match r {
                Some(i) => i < self.conversations@.len() && is_active_for(
                    self.conversations@[i as int],
                    name@,
                    agent_id,
                ),
                None => !has_active(self.conversations@, name@, agent_id),
            },
    {
        let n = self.conversations.len();
        let mut i: usize = 0;
        while i < n
            invariant
                0 <= i <= n,
                n == self.conversations@.len(),
                forall|j: int|
                    0 <= j < i ==> !is_active_for(
                        #[trigger] self.conversations@[j],
                        name@,
                        agent_id,
                    ),
            decreases n - i,
        {
            let c = &self.conversations[i];
            if c.active && c.agent_id == agent_id && str_eq(c.guest_name.as_str(), name) {
                return Some(i);
            }
            i += 1;
        }
        None
    }

    /// Whether the pair has an active conversation.
    pub fn has_active_conversation(&self, name: &str, agent_id: u64) -> (r: bool)
        ensures
            r == has_active(self.conversations@, name@, agent_id),
    {
        match self.find_active_idx(name, agent_id) {
            Some(_) => true,
            None => false,
        }
    }

    /// Makes a fresh empty conversation the active one for the pair, in
    /// one step with deactivating the previously active one, if any:
    /// history is preserved, not deleted. Fails only when the guest does
    /// not exist.
    pub fn create_conversation(&mut self, guest_name: &str, agent_id: u64) -> (r: Result<
        (),
        StoreError,
    >)
        requires
            old(self).wf(),
        ensures
            final(self).wf(),
            final(self).guests@ == old(self).guests@,
            match r {
                Ok(()) => {
                    let cs = final(self).conversations@;
                    let os = old(self).conversations@;
                    &&& has_guest(old(self).guests@, guest_name@)
                    &&& cs.len() == os.len() + 1
                    &&& is_active_for(cs.last(), guest_name@, agent_id)
                    &&& cs.last().messages@.len() == 0
                    &&& cs.last().created_at == old(self).clock
                    &&& forall|i: int|
                        0 <= i < os.len() && !is_active_for(#[trigger] os[i], guest_name@, agent_id)
                            ==> cs[i] == os[i]
                    &&& forall|i: int|
                        0 <= i < os.len() && is_active_for(#[trigger] os[i], guest_name@, agent_id)
                            ==> !cs[i].active && cs[i].guest_name@ == os[i].guest_name@ && cs[
                            i
                        ].agent_id == os[i].agent_id && cs[i].messages@ == os[i].messages@ && cs[
                            i
                        ].created_at == os[i].created_at
                    &&& has_active(cs, guest_name@, agent_id)
                    &&& active_messages(cs, guest_name@, agent_id).len() == 0
                },
                Err(e) => e == StoreError::NotFound && !has_guest(old(self).guests@, guest_name@)
                    && *final(self) == *old(self),
            },
    {
        if self.find_guest_idx(guest_name).is_none() {
            return Err(StoreError::NotFound);
        }
        match self.find_active_idx(guest_name, agent_id) {
            None => {
            },
            Some(i) => {
                let c = &self.conversations[i];
                let deactivated = ConversationRec {
                    guest_name: c.guest_name.clone(),
                    agent_id: c.agent_id,
                    active: false,
                    created_at: c.created_at,
                    updated_at: self.clock,
                    messages: clone_messages(&c.messages),
                };
                self.conversations.set(i, deactivated);
            },
        }
        let fresh = ConversationRec {
            guest_name: guest_name.to_owned(),
            agent_id,
            active: true,
            created_at: self.clock,
            updated_at: self.clock,
            messages: Vec::new(),
        };
        self.conversations.push(fresh);
        if self.clock < u64::MAX {
            self.clock = self.clock + 1;
        }
        proof {
            let cs = self.conversations@;
            let last = cs.len() - 1;
            assert(is_active_for(cs[last], guest_name@, agent_id));
            assert(active_messages(cs, guest_name@, agent_id) =~= cs[
                choose|i: int| 0 <= i < cs.len() && is_active_for(cs[i], guest_name@, agent_id)
            ].messages@);
        }
        Ok(())
    }

    /// Returns the messages of the pair's active conversation, in
    /// creation order.
    pub fn get_conversation(&self, guest_name: &str, agent_id: u64) -> (r: Result<
        Vec<StoredMessage>,
        StoreError,
    >)
        requires
            self.wf(),
        ensures
            match r {
                Ok(v) => has_active(self.conversations@, guest_name@, agent_id) && v@
                    == active_messages(self.conversations@, guest_name@, agent_id),
                Err(e) => e == StoreError::NotFound && !has_active(
                    self.conversations@,
                    guest_name@,
                    agent_id,
                ),
            },
    {
        match self.find_active_idx(guest_name, agent_id) {
            None => Err(StoreError::NotFound),
            Some(i) => {
                let v = clone_messages(&self.conversations[i].messages);
                proof {
                    self.lemma_single_active_conversation(guest_name@, agent_id);
                }
                Ok(v)
            },
        }
    }

    /// Appends one message to the pair's active conversation. Fails only
    /// when no active conversation exists.
    pub fn append_message(
        &mut self,
        guest_name: &str,
        agent_id: u64,
        role: MessageRole,
        content: &str,
        content_type: ContentType,
        cost: i64,
        prompt_tokens: u32,
        completion_tokens: u32,
    ) -> (r: Result<(), StoreError>)
        requires
            old(self).wf(),
            cost >= 0,
        ensures
            final(self).wf(),
            final(self).guests@ == old(self).guests@,
            match r {
                Ok(()) => {
                    let cs = final(self).conversations@;
                    let os = old(self).conversations@;
                    &&& has_active(os, guest_name@, agent_id)
                    &&& has_active(cs, guest_name@, agent_id)
                    &&& cs.len() == os.len()
                    &&& exists|i: int|
                        {
                            &&& 0 <= i < os.len()
                            &&& is_active_for(#[trigger] os[i], guest_name@, agent_id)
                            &&& cs =~= os.update(i, cs[i])
                            &&& cs[i].guest_name@ == os[i].guest_name@
                            &&& cs[i].agent_id == os[i].agent_id
                            &&& cs[i].active
                            &&& cs[i].created_at == os[i].created_at
                            &&& cs[i].updated_at == os[i].updated_at
                            &&& cs[i].messages@.len() == os[i].messages@.len() + 1
                            &&& cs[i].messages@.subrange(0, os[i].messages@.len() as int) == os[
                                i
                            ].messages@
                            &&& cs[i].messages@.last().role == role
                            &&& cs[i].messages@.last().content@ == content@
                            &&& cs[i].messages@.last().content_type == content_type
                            &&& cs[i].messages@.last().cost == cost
                            &&& cs[i].messages@.last().prompt_tokens == prompt_tokens
                            &&& cs[i].messages@.last().completion_tokens == completion_tokens
                        }
                    &&& active_messages(cs, guest_name@, agent_id).len() == active_messages(
                        os,
                        guest_name@,
                        agent_id,
                    ).len() + 1
                    &&& active_messages(cs, guest_name@, agent_id).subrange(
                        0,
                        active_messages(os, guest_name@, agent_id).len() as int,
                    ) == active_messages(os, guest_name@, agent_id)
                    &&& active_messages(cs, guest_name@, agent_id).last().content@ == content@
                    &&& active_messages(cs, guest_name@, agent_id).last().role == role
                    &&& active_messages(cs, guest_name@, agent_id).last().cost == cost
                    &&& active_messages(cs, guest_name@, agent_id).last().prompt_tokens
                        == prompt_tokens
                    &&& active_messages(cs, guest_name@, agent_id).last().completion_tokens
                        == completion_tokens
                },
                Err(e) => e == StoreError::NotFound && !has_active(
                    old(self).conversations@,
                    guest_name@,
                    agent_id,
                ) && *final(self) == *old(self),
            },
    {
        match self.find_active_idx(guest_name, agent_id) {
            None => Err(StoreError::NotFound),
            Some(i) => {
                proof {
                    old(self).lemma_single_active_conversation(guest_name@, agent_id);
                }
                let c = &self.conversations[i];
                let mut messages = clone_messages(&c.messages);
                messages.push(
                    StoredMessage {
                        role,
                        content: content.to_owned(),
                        content_type,
                        cost,
                        prompt_tokens,
                        completion_tokens,
                        created_at: self.clock,
                    },
                );
                let updated = ConversationRec {
                    guest_name: c.guest_name.clone(),
                    agent_id: c.agent_id,
                    active: true,
                    created_at: c.created_at,
                    updated_at: c.updated_at,
                    messages,
                };
                self.conversations.set(i, updated);
                if self.clock < u64::MAX {
                    self.clock = self.clock + 1;
                }
                proof {
                    let cs = self.conversations@;
                    let os = old(self).conversations@;
                    self.lemma_single_active_conversation(guest_name@, agent_id);
                    assert(cs[i as int].messages@.subrange(0, os[i as int].messages@.len() as int)
                        =~= os[i as int].messages@);
                    assert(cs =~= os.update(i as int, cs[i as int]));
                    let w = choose|w: int| 0 <= w < cs.len() && is_active_for(cs[w], guest_name@, agent_id);
                    assert(is_active_for(cs[i as int], guest_name@, agent_id));
                    assert(w == i as int);
                    let wo = choose|wo: int|
                        0 <= wo < os.len() && is_active_for(os[wo], guest_name@, agent_id);
                    assert(wo == i as int);
                }
                Ok(())
            },
        }
    }
}

/// Copies a message list element for element.
fn clone_messages(v: &Vec<StoredMessage>) -> (r: Vec<StoredMessage>)
    ensures
        r@ == v@,
{
    let n = v.len();
    let mut r: Vec<StoredMessage> = Vec::new();
    let mut i: usize = 0;
    while i < n
        invariant
            0 <= i <= n,
            n == v@.len(),
            r@ =~= v@.subrange(0, i as int),
        decreases n - i,
    {
        r.push(v[i].clone());
        proof {
            assert(r@ =~= v@.subrange(0, i + 1));
        }
        i += 1;
    }
    proof {
        assert(r@ =~= v@);
    }
    r
}

} // verus!
