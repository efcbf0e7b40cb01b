//! The assistant engine: builds a bounded prompt from the stored history,
//! records the outcome of a provider exchange, and reports usage.
//!
//! The provider call itself suspends on I/O, so a chat is split in three:
//! `chat_begin` loads (creating if need be) the active conversation,
//! `assemble_prompt` selects what fits the context window, and
//! `chat_commit` persists the exchange once the provider has answered.
//! A failed exchange leaves no trace in the store.
use vstd::prelude::*;
use crate::money::spec_cost;
use crate::provider::{response_cost, ChatMessage, ProviderCfg, ProviderResponse};
use crate::roles::{ContentType, MessageRole, Role};
use crate::store::{active_messages, has_active, has_guest, Store, StoredMessage, StoreError};

verus! {

/// Configuration of one assistant, immutable for the process lifetime.
#[derive(Debug)]
pub struct AssistantCfg {
    pub agent_id: u64,
    pub name: String,
    pub token: String,
    pub key: String,
    pub secret: String,
    pub prompt: String,
    pub provider_id: u64,
    pub context_tokens_reservation: u64,
}

impl Clone for AssistantCfg {
    fn clone(&self) -> (res: Self)
        ensures
            res.agent_id == self.agent_id,
            res.name@ == self.name@,
            res.token@ == self.token@,
            res.key@ == self.key@,
            res.secret@ == self.secret@,
            res.prompt@ == self.prompt@,
            res.provider_id == self.provider_id,
            res.context_tokens_reservation == self.context_tokens_reservation,
    {
        AssistantCfg {
            agent_id: self.agent_id,
            name: self.name.clone(),
            token: self.token.clone(),
            key: self.key.clone(),
            secret: self.secret.clone(),
            prompt: self.prompt.clone(),
            provider_id: self.provider_id,
            context_tokens_reservation: self.context_tokens_reservation,
        }
    }
}

/// How the assistant engine fails: the store or the provider.
#[derive(Debug)]
pub enum Error {
    StorageError(String),
    ProviderError(String),
}

/// The assistant's reply to the caller: the text to send back and what
/// the exchange cost, in units of 10^-9 credits.
#[derive(Debug)]
pub struct Response {
    pub content: String,
    pub cost: i64,
}

impl Response {
    pub fn content(&self) -> (r: &str)
        ensures
            r@ == self.content@,
    {
        self.content.as_str()
    }

    pub fn cost(&self) -> (r: i64)
        ensures
            r == self.cost,
    {
        self.cost
    }
}

/// A historical message paired with its token count, as the tokenizer
/// measured it.
#[derive(Debug)]
pub struct HistMessage {
    pub role: Role,
    pub content: String,
    pub tokens: u64,
}

impl HistMessage {
    /// Pairs a stored message with the token count the tokenizer gave its
    /// content. The store role is coerced to the provider's wire roles.
    pub fn of_stored(m: &StoredMessage, tokens: u64) -> (r: HistMessage)
        ensures
            r.role == m.role.spec_wire_role(),
            r.content@ == m.content@,
            r.tokens == tokens,
    {
        let role = match m.role {
            MessageRole::System => Role::System,
            MessageRole::User => Role::User,
            MessageRole::Assistant => Role::Assistant,
            MessageRole::Supplementary => Role::Assistant,
        };
        HistMessage { role, content: m.content.clone(), tokens }
    }
}

/// Token count of the history suffix starting at `k`.
pub open spec fn suffix_tokens(h: Seq<HistMessage>, k: int) -> int
    decreases h.len() - k when 0 <= k <= h.len()
{
    if k >= h.len() {
        0
    } else {
        h[k].tokens + suffix_tokens(h, k + 1)
    }
}

/// Start of the selected history suffix under remaining budget `b`: the
/// walk from newest to oldest takes each message whose token count still
/// fits (ties included) and stops at the first that does not.
pub open spec fn spec_cut(h: Seq<HistMessage>, b: int) -> int
    decreases h.len(),
{
    if h.len() == 0 {
        0
    } else if h.last().tokens <= b {
        spec_cut(h.drop_last(), b - h.last().tokens)
    } else {
        h.len() as int
    }
}

pub proof fn lemma_cut_range(h: Seq<HistMessage>, b: int)
    ensures
        0 <= spec_cut(h, b) <= h.len(),
    decreases h.len(),
{
    if h.len() > 0 && h.last().tokens <= b {
        lemma_cut_range(h.drop_last(), b - h.last().tokens);
    }
}

/// What the walk selects stays within the remaining budget.
pub proof fn lemma_cut_within(h: Seq<HistMessage>, b: int)
    requires
        b >= 0,
    ensures
        0 <= spec_cut(h, b) <= h.len(),
        suffix_tokens(h, spec_cut(h, b)) <= b,
    decreases h.len(),
{
    lemma_cut_range(h, b);
    if h.len() == 0 {
    } else if h.last().tokens <= b {
        let t = h.drop_last();
        lemma_cut_within(t, b - h.last().tokens);
        let k = spec_cut(t, b - h.last().tokens);
        lemma_suffix_snoc(h, k);
    } else {
        assert(suffix_tokens(h, h.len() as int) == 0);
    }
}

/// Dropping the last element relates the two suffix sums.
proof fn lemma_suffix_snoc(h: Seq<HistMessage>, k: int)
    requires
        0 <= k <= h.len() - 1,
    ensures
        suffix_tokens(h, k) == suffix_tokens(h.drop_last(), k) + h.last().tokens,
    decreases h.len() - k,
{
    if k == h.len() - 1 {
        assert(suffix_tokens(h.drop_last(), k) == 0);
        assert(suffix_tokens(h, k + 1) == 0);
    } else {
        lemma_suffix_snoc(h, k + 1);
        assert(h.drop_last()[k] == h[k]);
    }
}

/// Prompt assembly never exceeds the budget: when the user message fits
/// at all, the user message plus the selected history stays within
/// `max_tokens - token_reservation`.
pub proof fn lemma_prompt_within_budget(h: Seq<HistMessage>, b: int, user: int)
    requires
        0 <= user <= b,
    ensures
        user + suffix_tokens(h, spec_cut(h, b - user)) <= b,
{
    lemma_cut_within(h, b - user);
}

/// Whether the assembled list must be headed by the configured system
/// prompt: it must whenever the oldest selected element is not already a
/// system message.
pub open spec fn needs_system(h: Seq<HistMessage>, cut: int) -> bool {
    cut == h.len() || h[cut].role != Role::System
}

/// Builds the message list for the provider: the newest history that fits
/// the budget `max_tokens - reservation` together with the user message,
/// oldest first, headed by the configured system prompt when the history
/// does not supply one.
#[verifier::loop_isolation(false)]
pub fn assemble_prompt(
    system_prompt: &str,
    history: &Vec<HistMessage>,
    user_text: &str,
    user_tokens: u64,
    max_tokens: u64,
    reservation: u64,
) -> (r: Vec<ChatMessage>)
    requires
        reservation <= max_tokens,
    ensures
        ({
            let b = max_tokens - reservation;
            let cut = spec_cut(history@, b - user_tokens);
            let selected = history@.len() - cut;
            let off: int = if needs_system(history@, cut) {
                1
            } else {
                0
            };
            &&& r@.len() == off + selected + 1
            &&& needs_system(history@, cut) ==> r@[0].role == Role::System && r@[0].content@
                == system_prompt@
            &&& forall|t: int|
                0 <= t < selected ==> (#[trigger] r@[off + t]).role == history@[cut + t].role && r@[
                    off + t
                ].content@ == history@[cut + t].content@
            &&& r@.last().role == Role::User
            &&& r@.last().content@ == user_text@
        }),
{
    let budget = max_tokens - reservation;
    let n = history.len();
    let ghost h = history@;
    let mut k: usize = n;
    let mut running: u64 = 0;
    if user_tokens <= budget {
        let left0 = budget - user_tokens;
        proof {
            assert(h.subrange(0, n as int) =~= h);
        }
        while k > 0 && history[k - 1].tokens <= left0 - running
            invariant
                0 <= k <= n,
                running <= left0,
                running == suffix_tokens(h, k as int),
                spec_cut(h, left0 as int) == spec_cut(
                    h.subrange(0, k as int),
                    left0 - running,
                ),
            decreases k,
        {
            proof {
                assert(h.subrange(0, k as int).drop_last() =~= h.subrange(0, k - 1));
                assert(h.subrange(0, k as int).last() == h[k - 1]);
            }
            running = running + history[k - 1].tokens;
            k = k - 1;
        }
        proof {
            if k == 0 {
                assert(h.subrange(0, 0) =~= Seq::<HistMessage>::empty());
                assert(spec_cut(h, left0 as int) == 0);
            } else {
                assert(h.subrange(0, k as int).last() == h[k - 1]);
                assert(spec_cut(h.subrange(0, k as int), left0 - running) == k);
            }
        }
    } else {
        proof {
            assert(spec_cut(h, budget - user_tokens) == h.len());
        }
    }
    let ghost cut = spec_cut(h, budget - user_tokens);
    proof {
        assert(cut == k);
    }
    let mut r: Vec<ChatMessage> = Vec::new();
    let prepend_system = k == n || !matches!(history[k].role, Role::System);
    proof {
        assert(prepend_system == needs_system(h, cut));
    }
    if prepend_system {
        r.push(ChatMessage::new(Role::System, system_prompt));
    }
    let ghost off: int = if prepend_system {
        1int
    } else {
        0int
    };
    let mut j: usize = k;
    while j < n
        invariant
            k <= j <= n,
            r@.len() == off + (j - k),
            prepend_system ==> r@[0].role == Role::System && r@[0].content@ == system_prompt@,
            forall|t: int|
                0 <= t < j - k ==> (#[trigger] r@[off + t]).role == h[k + t].role && r@[
                    off + t
                ].content@ == h[k + t].content@,
        decreases n - j,
    {
        r.push(ChatMessage::new(history[j].role, history[j].content.as_str()));
        j += 1;
    }
    r.push(ChatMessage::new(Role::User, user_text));
    r
}


/// Cumulative prompt tokens of a message list.
pub open spec fn sum_prompt(ms: Seq<StoredMessage>) -> int
    decreases ms.len(),
{
    if ms.len() == 0 {
        0
    } else {
        sum_prompt(ms.drop_last()) + ms.last().prompt_tokens
    }
}

/// Cumulative completion tokens of a message list.
pub open spec fn sum_completion(ms: Seq<StoredMessage>) -> int
    decreases ms.len(),
{
    if ms.len() == 0 {
        0
    } else {
        sum_completion(ms.drop_last()) + ms.last().completion_tokens
    }
}

/// Cumulative cost of a message list.
pub open spec fn sum_cost(ms: Seq<StoredMessage>) -> int
    decreases ms.len(),
{
    if ms.len() == 0 {
        0
    } else {
        sum_cost(ms.drop_last()) + ms.last().cost
    }
}

/// Token usage of the last exchange: the last message's prompt plus
/// completion tokens, or zero for an empty history.
pub open spec fn last_turn_tokens(ms: Seq<StoredMessage>) -> int {
    if ms.len() == 0 {
        0
    } else {
        ms.last().prompt_tokens + ms.last().completion_tokens
    }
}

/// The machine can represent the history's cumulative sums.
pub open spec fn sums_fit(ms: Seq<StoredMessage>) -> bool {
    sum_prompt(ms) <= u64::MAX && sum_completion(ms) <= u64::MAX && sum_cost(ms) <= i64::MAX
}

/// The one-line usage summary: last-turn token usage, cumulative prompt
/// and completion tokens, and cumulative cost to three decimals.
pub open spec fn spec_audit_line(ms: Seq<StoredMessage>) -> Seq<char> {
    "当前会话长度为 "@ + crate::numfmt::spec_dec(last_turn_tokens(ms))
        + "。累计消耗prompt token "@ + crate::numfmt::spec_dec(sum_prompt(ms))
        + "个，completion token "@ + crate::numfmt::spec_dec(sum_completion(ms)) + "个，费用"@
        + crate::numfmt::spec_credit_display_3(sum_cost(ms)) + "。"@
}

proof fn lemma_sums_prefix(ms: Seq<StoredMessage>, i: int)
    requires
        0 <= i <= ms.len(),
        forall|k: int| 0 <= k < ms.len() ==> (#[trigger] ms[k]).cost >= 0,
    ensures
        sum_prompt(ms.subrange(0, i)) <= sum_prompt(ms),
        sum_completion(ms.subrange(0, i)) <= sum_completion(ms),
        sum_cost(ms.subrange(0, i)) <= sum_cost(ms),
    decreases ms.len(),
{
    if i == ms.len() {
        assert(ms.subrange(0, i) =~= ms);
    } else {
        let t = ms.drop_last();
        assert(forall|k: int| 0 <= k < t.len() ==> (#[trigger] t[k]).cost >= 0);
        lemma_sums_prefix(t, i);
        assert(t.subrange(0, i) =~= ms.subrange(0, i));
    }
}

/// One assistant: its provider, platform identity, and prompt policy.
#[derive(Debug)]
pub struct Assistant {
    pub provider: ProviderCfg,
    pub agent_id: u64,
    pub prompt: String,
    pub context_tokens_reservation: u64,
}

impl Assistant {
    /// The provider's prices are in range and the reservation leaves a
    /// non-negative budget.
    pub open spec fn wf(&self) -> bool {
        self.provider.wf() && self.context_tokens_reservation <= self.provider.max_tokens
    }

    pub fn new(config: &AssistantCfg, provider_cfg: &ProviderCfg) -> (a: Assistant)
        requires
            provider_cfg.wf(),
            config.context_tokens_reservation <= provider_cfg.max_tokens,
        ensures
            a.wf(),
            a.agent_id == config.agent_id,
            a.prompt@ == config.prompt@,
            a.context_tokens_reservation == config.context_tokens_reservation,
            a.provider.prompt_token_price == provider_cfg.prompt_token_price,
            a.provider.completion_token_price == provider_cfg.completion_token_price,
            a.provider.max_tokens == provider_cfg.max_tokens,
            a.provider.endpoint@ == provider_cfg.endpoint@,
            a.provider.api_key@ == provider_cfg.api_key@,
    {
        Assistant {
            provider: provider_cfg.clone(),
            agent_id: config.agent_id,
            prompt: config.prompt.clone(),
            context_tokens_reservation: config.context_tokens_reservation,
        }
    }

    /// Starts a fresh active conversation for the guest.
    pub fn new_conversation(&self, store: &mut Store, guest_name: &str) -> (r: Result<
        (),
        StoreError,
    >)
        requires
            old(store).wf(),
        ensures
            final(store).wf(),
            final(store).guests@ == old(store).guests@,
            match r {
                Ok(()) => {
                    let cs = final(store).conversations@;
                    let os = old(store).conversations@;
                    &&& cs.len() == os.len() + 1
                    &&& has_active(cs, guest_name@, self.agent_id)
                    &&& active_messages(cs, guest_name@, self.agent_id).len() == 0
                    &&& forall|i: int|
                        0 <= i < os.len() && !crate::store::is_active_for(
                            #[trigger] os[i],
                            guest_name@,
                            self.agent_id,
                        ) ==> cs[i] == os[i]
                    &&& forall|i: int|
                        0 <= i < os.len() && crate::store::is_active_for(
                            #[trigger] os[i],
                            guest_name@,
                            self.agent_id,
                        ) ==> !cs[i].active && cs[i].guest_name@ == os[i].guest_name@ && cs[
                            i
                        ].agent_id == os[i].agent_id && cs[i].messages@ == os[i].messages@
                },
                Err(e) => e == StoreError::NotFound && !has_guest(old(store).guests@, guest_name@)
                    && *final(store) == *old(store),
            },
    {
        store.create_conversation(guest_name, self.agent_id)
    }

    /// Loads the guest's history, creating an active conversation first
    /// when none exists.
    pub fn chat_begin(&self, store: &mut Store, guest_name: &str) -> (r: Result<
        Vec<StoredMessage>,
        Error,
    >)
        requires
            old(store).wf(),
        ensures
            final(store).wf(),
            final(store).guests@ == old(store).guests@,
            match r {
                Ok(v) => has_active(final(store).conversations@, guest_name@, self.agent_id) && v@
                    == active_messages(final(store).conversations@, guest_name@, self.agent_id),
                Err(_) => !has_guest(old(store).guests@, guest_name@) && *final(store) == *old(
                    store,
                ),
            },
    {
        if !store.has_active_conversation(guest_name, self.agent_id) {
            match store.create_conversation(guest_name, self.agent_id) {
                Ok(()) => {
                },
                Err(_) => {
                    return Err(
                        Error::StorageError(String::from_str("conversation could not be created")),
                    );
                },
            }
        }
        match store.get_conversation(guest_name, self.agent_id) {
            Ok(v) => Ok(v),
            Err(_) => {
                // unreachable: an active conversation was just ensured
                Err(Error::StorageError(String::from_str("conversation not found")))
            },
        }
    }


    /// One-line usage summary of the guest's active conversation,
    /// creating one first when none exists: last-turn token usage,
    /// cumulative prompt and completion tokens, and cumulative cost.
    #[verifier::loop_isolation(false)]
    pub fn audit(&self, store: &mut Store, guest_name: &str) -> (r: String)
        requires
            old(store).wf(),
        ensures
            final(store).wf(),
            final(store).guests@ == old(store).guests@,
            (has_guest(old(store).guests@, guest_name@) && sums_fit(
                active_messages(final(store).conversations@, guest_name@, self.agent_id),
            )) ==> r@ == spec_audit_line(
                active_messages(final(store).conversations@, guest_name@, self.agent_id),
            ),
    {
        let history = match self.chat_begin(store, guest_name) {
            Err(_) => {
                proof {
                    reveal_strlit("内部错误，请稍后再试。");
                }
                return String::from_str("内部错误，请稍后再试。");
            },
            Ok(v) => v,
        };
        let ghost ms = history@;
        proof {
            assert forall|k: int| 0 <= k < ms.len() implies (#[trigger] ms[k]).cost >= 0 by {
                let cs = store.conversations@;
                let w = choose|w: int|
                    0 <= w < cs.len() && crate::store::is_active_for(
                        cs[w],
                        guest_name@,
                        self.agent_id,
                    );
            }
        }
        let n = history.len();
        let last_turn: u64 = if n == 0 {
            0
        } else {
            history[n - 1].prompt_tokens as u64 + history[n - 1].completion_tokens as u64
        };
        proof {
            if n > 0 {
                assert(ms.last() == ms[n - 1]);
            }
        }
        let mut sp: u64 = 0;
        let mut sc: u64 = 0;
        let mut cost: i64 = 0;
        let mut i: usize = 0;
        let mut exact: bool = true;
        while i < n
            invariant
                0 <= i <= n,
                cost >= 0,
                exact ==> sp == sum_prompt(ms.subrange(0, i as int)) && sc == sum_completion(
                    ms.subrange(0, i as int),
                ) && cost == sum_cost(ms.subrange(0, i as int)),
                !exact ==> !sums_fit(ms),
            decreases n - i,
        {
            proof {
                assert(ms.subrange(0, i + 1).drop_last() =~= ms.subrange(0, i as int));
                assert(ms.subrange(0, i + 1).last() == ms[i as int]);
            }
            let m = &history[i];
            if exact {
                let sp2 = sp.checked_add(m.prompt_tokens as u64);
                let sc2 = sc.checked_add(m.completion_tokens as u64);
                let cost2 = cost.checked_add(m.cost);
                match (sp2, sc2, cost2) {
                    (Some(a), Some(b), Some(c)) => {
                        sp = a;
                        sc = b;
                        cost = c;
                    },
                    _ => {
                        proof {
                            lemma_sums_prefix(ms, i + 1);
                        }
                        exact = false;
                    },
                }
            }
            i += 1;
        }
        proof {
            assert(ms.subrange(0, n as int) =~= ms);
        }
        proof {
            reveal_strlit("当前会话长度为 ");
            reveal_strlit("。累计消耗prompt token ");
            reveal_strlit("个，completion token ");
            reveal_strlit("个，费用");
            reveal_strlit("。");
        }
        let mut line = String::from_str("当前会话长度为 ");
        let p1 = crate::numfmt::format_u64(last_turn);
        line.append(p1.as_str());
        line.append("。累计消耗prompt token ");
        let p2 = crate::numfmt::format_u64(sp);
        line.append(p2.as_str());
        line.append("个，completion token ");
        let p3 = crate::numfmt::format_u64(sc);
        line.append(p3.as_str());
        line.append("个，费用");
        let p4 = crate::numfmt::format_credit_3(cost);
        line.append(p4.as_str());
        line.append("。");
        proof {
            if sums_fit(ms) {
                assert(line@ =~= spec_audit_line(ms));
            }
        }
        line
    }

    /// Settles a provider exchange. On a reply, persists exactly two
    /// messages - the user's and the assistant's - and returns the
    /// assistant's content with its cost; on a provider failure, leaves
    /// the store untouched.
    pub fn chat_commit(
        &self,
        store: &mut Store,
        guest_name: &str,
        message: &str,
        outcome: Result<ProviderResponse, String>,
    ) -> (r: Result<Response, Error>)
        requires
            old(store).wf(),
            self.wf(),
            outcome is Ok ==> outcome.unwrap().wf(),
        ensures
            final(store).wf(),
            final(store).guests@ == old(store).guests@,
            outcome is Err ==> *final(store) == *old(store) && r is Err,
            outcome is Ok && has_active(old(store).conversations@, guest_name@, self.agent_id)
                ==> r is Ok,
            outcome is Ok && !has_active(old(store).conversations@, guest_name@, self.agent_id)
                ==> r is Err && *final(store) == *old(store),
            match r {
                Ok(resp) => {
                    let p = outcome.unwrap();
                    let cs = final(store).conversations@;
                    let os = old(store).conversations@;
                    let ams_old = active_messages(os, guest_name@, self.agent_id);
                    let ams_new = active_messages(cs, guest_name@, self.agent_id);
                    &&& outcome is Ok
                    &&& has_active(os, guest_name@, self.agent_id)
                    &&& has_active(cs, guest_name@, self.agent_id)
                    &&& ams_new.len() == ams_old.len() + 2
                    &&& ams_new.subrange(0, ams_old.len() as int) == ams_old
                    &&& ams_new[ams_old.len() as int].role == MessageRole::User
                    &&& ams_new[ams_old.len() as int].content@ == message@
                    &&& ams_new[ams_old.len() as int].cost == 0
                    &&& ams_new[ams_old.len() as int].prompt_tokens == 0
                    &&& ams_new[ams_old.len() as int].completion_tokens == 0
                    &&& ams_new.last().role == p.spec_role().spec_core_role()
                    &&& ams_new.last().content@ == p.spec_content()
                    &&& ams_new.last().cost == resp.cost
                    &&& ams_new.last().prompt_tokens == p.usage.prompt_tokens
                    &&& ams_new.last().completion_tokens == p.usage.completion_tokens
                    &&& resp.content@ == p.spec_content()
                    &&& resp.cost == spec_cost(
                        p.usage.prompt_tokens as int,
                        p.usage.completion_tokens as int,
                        self.provider.prompt_token_price as int,
                        self.provider.completion_token_price as int,
                    )
                },
                Err(_) => *final(store) == *old(store),
            },
    {
        let response = match outcome {
            Err(e) => {
                return Err(Error::ProviderError(e));
            },
            Ok(p) => p,
        };
        let cost = response_cost(&self.provider, &response);
        match store.append_message(
            guest_name,
            self.agent_id,
            MessageRole::User,
            message,
            ContentType::Text,
            0,
            0,
            0,
        ) {
            Err(_) => {
                return Err(Error::StorageError(String::from_str("no active conversation")));
            },
            Ok(()) => {
            },
        }
        let ghost mid = store.conversations@;
        let reply_role = response.role();
        let core_role = match reply_role {
            Role::Assistant => MessageRole::Assistant,
            Role::System => MessageRole::System,
            Role::User => MessageRole::User,
            Role::Tool => MessageRole::Supplementary,
            Role::Function => MessageRole::Supplementary,
        };
        let content = response.content().to_owned();
        let pt = response.prompt_tokens() as u32;
        let ct = response.completion_tokens() as u32;
        match store.append_message(
            guest_name,
            self.agent_id,
            core_role,
            content.as_str(),
            ContentType::Text,
            cost,
            pt,
            ct,
        ) {
            Err(_) => {
                // unreachable: the first append kept the conversation active
                return Err(Error::StorageError(String::from_str("no active conversation")));
            },
            Ok(()) => {
            },
        }
        proof {
            let os = old(store).conversations@;
            let cs = store.conversations@;
            let a0 = active_messages(os, guest_name@, self.agent_id);
            let a1 = active_messages(mid, guest_name@, self.agent_id);
            let a2 = active_messages(cs, guest_name@, self.agent_id);
            assert(a2.subrange(0, a0.len() as int) =~= a2.subrange(0, a1.len() as int).subrange(
                0,
                a0.len() as int,
            ));
        }
        Ok(Response { content, cost })
    }
}

} // verus!
