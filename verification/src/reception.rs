//! The reception coordinator: one front door for every assistant. It
//! verifies and decrypts each callback, identifies the guest, tells
//! commands from chat, enforces the credit rule, and settles the account
//! after a provider exchange.
//!
//! The provider call and the outbound reply suspend on I/O, so an inbound
//! message is handled in two verified steps: `handle_user_request` turns
//! a callback into an `InboundAction`, and, when that action asks for a
//! chat, `complete_chat` settles the exchange once the provider has
//! answered.
use vstd::prelude::*;
use crate::accountant::{Accountant, AccountantCfg, Error as AccountError};
use crate::assistant::{Assistant, AssistantCfg};
use crate::codec::{check_signature, spec_decrypt, spec_signature, CryptoAgent};
use crate::provider::ProviderCfg;
use crate::store::{guest_of, has_guest, Guest, Store};
use crate::wecom_api::{CallbackParams, UrlVerifyParams};

verus! {

/// Company-wide platform parameters.
#[derive(Debug)]
pub struct WecomCfg {
    pub corp_id: String,
}

/// Query parameters of an inbound user message.
#[derive(Debug)]
pub struct UserMsgParams {
    pub msg_signature: String,
    pub nonce: String,
    pub timestamp: String,
}

/// The whole gateway configuration, as the startup code resolves it from
/// its sources: every secret is already the secret itself.
#[derive(Debug)]
pub struct Config {
    pub wecom: WecomCfg,
    pub providers: Vec<ProviderCfg>,
    pub assistants: Vec<AssistantCfg>,
    pub accountant: AccountantCfg,
    pub storage_path: String,
    pub admin_account: String,
}

/// A coordinator failure, with a description.
#[derive(Debug)]
pub struct Error(pub String);

/// One assistant behind the front door: its engine, and the credentials
/// of its platform application.
#[derive(Debug)]
pub struct AssistantEntry {
    pub assistant: Assistant,
    pub token: String,
    pub crypto_agent: CryptoAgent,
}

impl AssistantEntry {
    pub open spec fn wf(&self) -> bool {
        self.assistant.wf() && self.crypto_agent.wf()
    }

    pub open spec fn agent_id(&self) -> u64 {
        self.assistant.agent_id
    }
}

/// An assistant entry realizes one assistant configuration paired with
/// the provider its `provider_id` names.
pub open spec fn entry_matches(e: AssistantEntry, a: AssistantCfg, p: ProviderCfg) -> bool {
    &&& p.id == a.provider_id
    &&& e.assistant.agent_id == a.agent_id
    &&& e.assistant.prompt@ == a.prompt@
    &&& e.assistant.context_tokens_reservation == a.context_tokens_reservation
    &&& e.assistant.provider.max_tokens == p.max_tokens
    &&& e.assistant.provider.prompt_token_price == p.prompt_token_price
    &&& e.assistant.provider.completion_token_price == p.completion_token_price
    &&& e.assistant.provider.endpoint@ == p.endpoint@
    &&& e.assistant.provider.api_key@ == p.api_key@
    &&& e.token@ == a.token@
    &&& crate::codec::b64_decode_of(a.key@) == Some(e.crypto_agent.key@)
}

/// `e` realizes some assistant configuration of `config`, paired with
/// the provider its `provider_id` names.
pub open spec fn paired(e: AssistantEntry, config: Config) -> bool {
    exists|i: int, j: int|
        #![trigger config.assistants@[i], config.providers@[j]]
        0 <= i < config.assistants@.len() && 0 <= j < config.providers@.len() && entry_matches(
            e,
            config.assistants@[i],
            config.providers@[j],
        )
}

proof fn lemma_entry_paired(e: AssistantEntry, config: &Config, i: int, j: int)
    requires
        0 <= i < config.assistants@.len(),
        0 <= j < config.providers@.len(),
        entry_matches(e, config.assistants@[i], config.providers@[j]),
    ensures
        paired(e, *config),
{
}

/// What one command message does to the guests and conversations, and
/// what it replies, given the sender's admin flag, balance and name, the
/// application addressed, and whether the coordinator serves that id.
/// This is the contract of `handle_instruction_msg`, and
/// `handle_user_request` promises it of every command reply.
pub open spec fn spec_instruction_outcome(
    old_gs: Seq<Guest>,
    old_cs: Seq<crate::store::ConversationRec>,
    new_gs: Seq<Guest>,
    new_cs: Seq<crate::store::ConversationRec>,
    guest_admin: bool,
    guest_credit: i64,
    guest_name: Seq<char>,
    assistant_id: u64,
    serves: bool,
    content: Seq<char>,
    reply: Seq<char>,
) -> bool {
    let admin_branch = guest_admin && crate::strutil::spec_starts_with(content, "$"@);
    let args = crate::strutil::spec_split(crate::strutil::spec_trim_char(content, '$'), ' ');
    &&& (admin_branch ==> new_cs == old_cs)
    &&& (admin_branch && args.len() == 1 && args[0] == "查用户"@ ==> reply == spec_guest_lines(old_gs)
        && new_gs == old_gs)
    &&& (admin_branch && args.len() == 3 && args[1] == "充值"@ ==> spec_recharge(
        old_gs,
        new_gs,
        args[0],
        args[2],
        reply,
    ))
    &&& (admin_branch && args.len() == 3 && args[1] == "管理员"@ ==> spec_set_admin(
        old_gs,
        new_gs,
        args[0],
        args[2],
        reply,
    ))
    &&& (admin_branch && !(args.len() == 1 && args[0] == "查用户"@) && !(args.len() == 3 && (args[1]
        == "充值"@ || args[1] == "管理员"@)) ==> reply == "未知指令"@ && new_gs == old_gs && new_cs
        == old_cs)
    &&& (!admin_branch ==> new_gs == old_gs)
    &&& (!admin_branch && content == "#查余额"@ ==> reply == "当前余额："@
        + crate::numfmt::spec_credit_display_3(guest_credit as int) && new_cs == old_cs)
    &&& (!admin_branch && content == "#查消耗"@ && serves && has_guest(old_gs, guest_name)
        && crate::assistant::sums_fit(
        crate::store::active_messages(new_cs, guest_name, assistant_id),
    ) ==> reply == crate::assistant::spec_audit_line(
        crate::store::active_messages(new_cs, guest_name, assistant_id),
    ))
    &&& (!admin_branch && content == "#新会话"@ && serves && has_guest(old_gs, guest_name)
        ==> crate::store::has_active(new_cs, guest_name, assistant_id)
        && crate::store::active_messages(new_cs, guest_name, assistant_id).len() == 0 && reply
        == "新会话创建成功。您可以开始对话了。"@)
    &&& (!admin_branch && content != "#查余额"@ && content != "#查消耗"@ && content != "#新会话"@ ==> reply
        == "抱歉，暂不支持当前指令。"@ && new_cs == old_cs)
}

/// The coordinator.
#[derive(Debug)]
pub struct Agent {
    pub assistants: Vec<AssistantEntry>,
    pub accountant: Accountant,
}

impl Agent {
    pub open spec fn wf(&self) -> bool {
        &&& forall|k: int| 0 <= k < self.assistants@.len() ==> (#[trigger] self.assistants@[k]).wf()
        &&& self.accountant.wf()
    }

    /// Builds the coordinator from a resolved configuration: each
    /// assistant is paired with the provider its `provider_id` names;
    /// one without a matching provider is not served. The configuration
    /// is refused when a key is unusable, a price is out of range, or a
    /// reservation exceeds its provider's window.
    pub fn new(config: &Config) -> (r: Result<Agent, Error>)
        ensures
            match r {
                Ok(a) => a.wf() && forall|k: int|
                    0 <= k < a.assistants@.len() ==> paired(#[trigger] a.assistants@[k], *config),
                Err(_) => true,
            },
    {
        let mut assistants: Vec<AssistantEntry> = Vec::new();
        let n = config.assistants.len();
        let mut i: usize = 0;
        while i < n
            invariant
                0 <= i <= n,
                n == config.assistants@.len(),
                forall|k: int| 0 <= k < assistants@.len() ==> (#[trigger] assistants@[k]).wf(),
                forall|k: int|
                    0 <= k < assistants@.len() ==> paired(#[trigger] assistants@[k], *config),
            decreases n - i,
        {
            let a_cfg = &config.assistants[i];
            match find_provider(&config.providers, a_cfg.provider_id) {
                None => {
                },
                Some(j) => {
                    let p_cfg = &config.providers[j];
                    if !(p_cfg.prompt_token_price >= 0 && p_cfg.prompt_token_price
                        <= crate::money::MAX_PRICE && p_cfg.completion_token_price >= 0
                        && p_cfg.completion_token_price <= crate::money::MAX_PRICE) {
                        return Err(Error(String::from_str("a configured price is out of range")));
                    }
                    if a_cfg.context_tokens_reservation > p_cfg.max_tokens {
                        return Err(
                            Error(
                                String::from_str(
                                    "a reservation exceeds its provider's context window",
                                ),
                            ),
                        );
                    }
                    let crypto_agent = match CryptoAgent::from_b64_key(a_cfg.key.as_str()) {
                        None => {
                            return Err(
                                Error(String::from_str("a configured key is not usable")),
                            );
                        },
                        Some(c) => c,
                    };
                    let assistant = Assistant::new(a_cfg, p_cfg);
                    let entry = AssistantEntry {
                        assistant,
                        token: a_cfg.token.clone(),
                        crypto_agent,
                    };
                    let ghost pre = assistants@;
                    proof {
                        lemma_entry_paired(entry, config, i as int, j as int);
                    }
                    assistants.push(entry);
                    proof {
                        assert forall|k: int| 0 <= k < assistants@.len() implies (
                        #[trigger] assistants@[k]).wf() && paired(
                            #[trigger] assistants@[k],
                            *config,
                        ) by {
                            if k < pre.len() {
                                assert(assistants@[k] == pre[k]);
                            } else {
                                assert(assistants@[k] == entry);
                            }
                        }
                    }
                },
            }
            i += 1;
        }
        let accountant = match Accountant::new(&config.accountant) {
            Err(_) => {
                return Err(Error(String::from_str("the accountant's key is not usable")));
            },
            Ok(a) => a,
        };
        let agent = Agent { assistants, accountant };
        Ok(agent)
    }

    /// Executes one command message and returns the reply text. Admin
    /// commands come wrapped in `$` signs, whitespace-separated; user
    /// commands are single `#`-prefixed words. Commands run whatever the
    /// sender's balance.
    pub fn handle_instruction_msg(
        &self,
        store: &mut Store,
        guest: &Guest,
        assistant_id: u64,
        instruction: &str,
    ) -> (r: String)
        requires
            old(store).wf(),
            self.wf(),
            guest.credit > i64::MIN,
        ensures
            final(store).wf(),
            spec_instruction_outcome(
                old(store).guests@,
                old(store).conversations@,
                final(store).guests@,
                final(store).conversations@,
                guest.admin,
                guest.credit,
                guest.name@,
                assistant_id,
                self.serves(assistant_id),
                instruction@,
                r@,
            ),
    {
        proof {
            reveal_strlit("充值");
            reveal_strlit("管理员");
            reveal_strlit("#查余额");
            reveal_strlit("#查消耗");
            reveal_strlit("#新会话");
            assert("充值"@.len() == 2);
            assert("管理员"@.len() == 3);
            assert("充值"@ != "管理员"@);
            assert("#查余额"@[2] == '余');
            assert("#查消耗"@[2] == '消');
            assert("#新会话"@[1] == '新');
            assert("#查余额"@[1] == '查');
            assert("#查消耗"@[1] == '查');
            assert("#查余额"@ != "#查消耗"@);
            assert("#查余额"@ != "#新会话"@);
            assert("#查消耗"@ != "#新会话"@);
        }
        if guest.admin && crate::strutil::str_starts_with(instruction, "$") {
            let msg = crate::strutil::str_trim_char(instruction, '$');
            let args = crate::strutil::split_char(msg, ' ');
            proof {
                assert forall|k: int| 0 <= k < args@.len() implies (#[trigger] args@[k])@
                    == crate::strutil::spec_split(
                    crate::strutil::spec_trim_char(instruction@, '$'),
                    ' ',
                )[k] by {
                    assert(args.deep_view()[k] == args@[k]@);
                }
            }
            if args.len() == 1 && crate::strutil::str_eq(args[0].as_str(), "查用户") {
                self.list_guests(store)
            } else if args.len() == 3 && crate::strutil::str_eq(args[1].as_str(), "充值") {
                self.recharge(store, args[0].as_str(), args[2].as_str())
            } else if args.len() == 3 && crate::strutil::str_eq(args[1].as_str(), "管理员") {
                self.set_admin(store, args[0].as_str(), args[2].as_str())
            } else {
                String::from_str("未知指令")
            }
        } else {
            if crate::strutil::str_eq(instruction, "#查余额") {
                let mut r = String::from_str("当前余额：");
                let c = crate::numfmt::format_credit_3(guest.credit);
                r.append(c.as_str());
                proof {
                    assert(r@ =~= "当前余额："@ + crate::numfmt::spec_credit_display_3(
                        guest.credit as int,
                    ));
                }
                r
            } else if crate::strutil::str_eq(instruction, "#查消耗") {
                match self.find_assistant(assistant_id) {
                    None => String::from_str("内部错误，请稍后再试。"),
                    Some(k) => self.assistants[k].assistant.audit(store, guest.name.as_str()),
                }
            } else if crate::strutil::str_eq(instruction, "#新会话") {
                match self.find_assistant(assistant_id) {
                    None => String::from_str("内部错误，请稍后再试。"),
                    Some(k) => match self.assistants[k].assistant.new_conversation(
                        store,
                        guest.name.as_str(),
                    ) {
                        Ok(()) => String::from_str("新会话创建成功。您可以开始对话了。"),
                        Err(_) => {
                            let mut r = String::from_str("为");
                            r.append(guest.name.as_str());
                            r.append("新建会话记录失败。");
                            r
                        },
                    },
                }
            } else {
                String::from_str("抱歉，暂不支持当前指令。")
            }
        }
    }

    /// Index of the entry serving an agent id.
    fn find_assistant(&self, agent_id: u64) -> (r: Option<usize>)
        ensures
            match r {
                Some(k) => k < self.assistants@.len() && self.assistants@[k as int].agent_id()
                    == agent_id,
                None => forall|k: int|
                    0 <= k < self.assistants@.len() ==> (#[trigger] self.assistants@[k]).agent_id()
                        != agent_id,
            },
    {
        let n = self.assistants.len();
        let mut i: usize = 0;
        while i < n
            invariant
                0 <= i <= n,
                n == self.assistants@.len(),
                forall|k: int|
                    0 <= k < i ==> (#[trigger] self.assistants@[k]).agent_id() != agent_id,
            decreases n - i,
        {
            if self.assistants[i].assistant.agent_id == agent_id {
                return Some(i);
            }
            i += 1;
        }
        None
    }

    /// There is an entry serving the agent id.
    pub open spec fn serves(&self, agent_id: u64) -> bool {
        exists|k: int|
            0 <= k < self.assistants@.len() && (#[trigger] self.assistants@[k]).agent_id()
                == agent_id
    }

    /// Answers the platform's URL-verification handshake for an agent id:
    /// the decrypted echo text on success, an HTTP status otherwise (400
    /// for a signature mismatch, 500 for an unknown id or an echo string
    /// that does not decrypt). The accountant's own id is served by the
    /// accountant's credentials.
    pub fn verify_url(&self, agent_id: u64, params: &UrlVerifyParams) -> (r: Result<String, u16>)
        requires
            self.wf(),
        ensures
            match r {
                Ok(_) => agent_id == self.accountant.agent_id || self.serves(agent_id),
                Err(code) => code == 400 || code == 500,
            },
            agent_id == self.accountant.agent_id ==> match r {
                Ok(text) => params.msg_signature@ == spec_signature(
                    params.timestamp@,
                    params.nonce@,
                    self.accountant.token@,
                    params.echostr@,
                ) && (spec_decrypt(
                    self.accountant.crypto_agent.key@,
                    params.echostr@,
                    params.nonce@,
                ) matches Some(p) && p.0 == text@),
                Err(code) => (code == 400 && params.msg_signature@ != spec_signature(
                    params.timestamp@,
                    params.nonce@,
                    self.accountant.token@,
                    params.echostr@,
                )) || (code == 500 && spec_decrypt(
                    self.accountant.crypto_agent.key@,
                    params.echostr@,
                    params.nonce@,
                ) is None),
            },
            agent_id != self.accountant.agent_id && self.serves(agent_id) ==> exists|k: int|
                0 <= k < self.assistants@.len() && (#[trigger] self.assistants@[k]).agent_id()
                    == agent_id && match r {
                    Ok(text) => params.msg_signature@ == spec_signature(
                        params.timestamp@,
                        params.nonce@,
                        self.assistants@[k].token@,
                        params.echostr@,
                    ) && (spec_decrypt(
                        self.assistants@[k].crypto_agent.key@,
                        params.echostr@,
                        params.nonce@,
                    ) matches Some(p) && p.0 == text@),
                    Err(code) => (code == 400 && params.msg_signature@ != spec_signature(
                        params.timestamp@,
                        params.nonce@,
                        self.assistants@[k].token@,
                        params.echostr@,
                    )) || (code == 500 && spec_decrypt(
                        self.assistants@[k].crypto_agent.key@,
                        params.echostr@,
                        params.nonce@,
                    ) is None),
                },
            agent_id != self.accountant.agent_id && !self.serves(agent_id) ==> r == Err::<
                String,
                u16,
            >(500u16),
    {
        if agent_id == self.accountant.agent_id() {
            if !check_signature(
                params.msg_signature.as_str(),
                params.timestamp.as_str(),
                params.nonce.as_str(),
                self.accountant.token.as_str(),
                params.echostr.as_str(),
            ) {
                return Err(400);
            }
            return match self.accountant.crypto_agent.decrypt(
                params.echostr.as_str(),
                params.nonce.as_str(),
            ) {
                Err(_) => Err(500),
                Ok(source) => Ok(source.text),
            };
        }
        let k = match self.find_assistant(agent_id) {
            None => {
                return Err(500);
            },
            Some(k) => k,
        };
        let entry = &self.assistants[k];
        if !check_signature(
            params.msg_signature.as_str(),
            params.timestamp.as_str(),
            params.nonce.as_str(),
            entry.token.as_str(),
            params.echostr.as_str(),
        ) {
            return Err(400);
        }
        match entry.crypto_agent.decrypt(params.echostr.as_str(), params.nonce.as_str()) {
            Err(_) => Err(500),
            Ok(source) => Ok(source.text),
        }
    }
}

/// Index of the provider configuration with the given id.
fn find_provider(providers: &Vec<ProviderCfg>, id: u64) -> (r: Option<usize>)
    ensures
        match r {
            Some(j) => j < providers@.len() && providers@[j as int].id == id,
            None => forall|j: int| 0 <= j < providers@.len() ==> (#[trigger] providers@[j]).id != id,
        },
{
    let n = providers.len();
    let mut i: usize = 0;
    while i < n
        invariant
            0 <= i <= n,
            n == providers@.len(),
            forall|j: int| 0 <= j < i ==> (#[trigger] providers@[j]).id != id,
        decreases n - i,
    {
        if providers[i].id == id {
            return Some(i);
        }
        i += 1;
    }
    None
}

/// Text of a boolean, as the platform shows it.
pub open spec fn spec_bool_text(b: bool) -> Seq<char> {
    if b {
        "true"@
    } else {
        "false"@
    }
}

/// One line of the guest listing: name, balance and admin flag.
pub open spec fn spec_guest_line(g: Guest) -> Seq<char> {
    g.name@ + " "@ + crate::numfmt::spec_credit_display(g.credit as int) + " "@ + spec_bool_text(g.admin)
}

/// The admin guest listing: every guest's line, in registration order.
pub open spec fn spec_guest_lines(gs: Seq<Guest>) -> Seq<char>
    decreases gs.len(),
{
    if gs.len() == 0 {
        Seq::empty()
    } else {
        spec_guest_lines(gs.drop_last()) + spec_guest_line(gs.last())
    }
}

/// A user command: prefixed with `#`.
pub open spec fn is_user_cmd(content: Seq<char>) -> bool {
    crate::strutil::spec_starts_with(content, "#"@)
}

/// A command of either kind; commands are executed whatever the credit.
pub open spec fn is_instruction(content: Seq<char>) -> bool {
    (crate::strutil::spec_starts_with(crate::strutil::spec_trim(content), "$$"@)
        && crate::strutil::spec_ends_with(crate::strutil::spec_trim(content), "$$"@)) || is_user_cmd(
        content,
    )
}


/// Effect of the admin recharge command `<name> 充值 <amount>` on the
/// guests and the reply: a signed amount is added to the named guest's
/// balance; a malformed amount, an unknown name, or a balance leaving the
/// representable range changes nothing and is reported.
pub open spec fn spec_recharge(
    old_gs: Seq<Guest>,
    new_gs: Seq<Guest>,
    name: Seq<char>,
    amount: Seq<char>,
    reply: Seq<char>,
) -> bool {
    match crate::numfmt::spec_parse_credit(amount) {
        None => reply == "用户余额解析出错"@ && new_gs == old_gs,
        Some(v) => if !has_guest(old_gs, name) {
            reply == "无法找到用户。账户不存在"@ && new_gs == old_gs
        } else {
            let c = guest_of(old_gs, name).credit as int;
            if i64::MIN < c + v <= i64::MAX {
                &&& new_gs.len() == old_gs.len()
                &&& (forall|j: int|
                    0 <= j < old_gs.len() && (#[trigger] old_gs[j]).name@ != name ==> new_gs[j]
                        == old_gs[j])
                &&& (forall|j: int|
                    0 <= j < old_gs.len() && (#[trigger] old_gs[j]).name@ == name ==> new_gs[
                        j
                    ].name@ == name && new_gs[j].credit == c + v && new_gs[j].admin == old_gs[
                        j
                    ].admin)
                &&& reply == "更新成功。当前余额："@ + crate::numfmt::spec_credit_display(c + v)
            } else {
                reply == "更新用户余额出错：余额超出范围"@ && new_gs == old_gs
            }
        },
    }
}

/// Effect of the admin command `<name> 管理员 <true|false>` on the guests
/// and the reply: the named guest's admin flag is set; a value other than
/// `true`/`false` or an unknown name changes nothing and is reported.
pub open spec fn spec_set_admin(
    old_gs: Seq<Guest>,
    new_gs: Seq<Guest>,
    name: Seq<char>,
    value: Seq<char>,
    reply: Seq<char>,
) -> bool {
    if value != "true"@ && value != "false"@ {
        reply == "管理员属性解析出错。"@ && new_gs == old_gs
    } else if !has_guest(old_gs, name) {
        reply == "无法找到用户。账户不存在"@ && new_gs == old_gs
    } else {
        &&& new_gs.len() == old_gs.len()
        &&& (forall|j: int|
            0 <= j < old_gs.len() && (#[trigger] old_gs[j]).name@ != name ==> new_gs[j] == old_gs[
                j
            ])
        &&& (forall|j: int|
            0 <= j < old_gs.len() && (#[trigger] old_gs[j]).name@ == name ==> new_gs[j].name@
                == name && new_gs[j].credit == old_gs[j].credit && new_gs[j].admin == (value
                == "true"@))
        &&& reply == "更新成功。"@ + name + (if value == "true"@ {
            "已成为管理员"@
        } else {
            "不再是管理员"@
        })
    }
}

impl Agent {
    /// Lists every guest for the admin: name, balance and admin flag.
    #[verifier::loop_isolation(false)]
    pub fn list_guests(&self, store: &Store) -> (r: String)
        requires
            store.wf(),
        ensures
            r@ == spec_guest_lines(store.guests@),
    {
        let n = store.guests.len();
        let mut r = String::new();
        let mut i: usize = 0;
        proof {
            assert(store.guests@.subrange(0, 0) =~= Seq::<Guest>::empty());
        }
        while i < n
            invariant
                0 <= i <= n,
                r@ == spec_guest_lines(store.guests@.subrange(0, i as int)),
            decreases n - i,
        {
            let g = &store.guests[i];
            proof {
                assert(store.guests@.subrange(0, i + 1).drop_last() =~= store.guests@.subrange(
                    0,
                    i as int,
                ));
                assert(store.guests@.subrange(0, i + 1).last() == store.guests@[i as int]);
            }
            r.append(g.name.as_str());
            r.append(" ");
            let c = crate::numfmt::format_credit(g.credit);
            r.append(c.as_str());
            r.append(" ");
            if g.admin {
                r.append("true");
            } else {
                r.append("false");
            }
            proof {
                assert(r@ =~= spec_guest_lines(store.guests@.subrange(0, i + 1)));
            }
            i += 1;
        }
        proof {
            assert(store.guests@.subrange(0, n as int) =~= store.guests@);
        }
        r
    }

    /// Adds a signed amount to a guest's balance, for the admin command
    /// `<name> 充值 <amount>`.
    pub fn recharge(&self, store: &mut Store, name: &str, amount_text: &str) -> (r: String)
        requires
            old(store).wf(),
        ensures
            final(store).wf(),
            final(store).conversations@ == old(store).conversations@,
            spec_recharge(old(store).guests@, final(store).guests@, name@, amount_text@, r@),
    {
        let v = match crate::numfmt::parse_credit(amount_text) {
            None => {
                return String::from_str("用户余额解析出错");
            },
            Some(v) => v,
        };
        let user = match store.get_user(name) {
            Err(_) => {
                return String::from_str("无法找到用户。账户不存在");
            },
            Ok(g) => g,
        };
        let new_credit = match user.credit.checked_add(v) {
            None => {
                return String::from_str("更新用户余额出错：余额超出范围");
            },
            Some(n) => n,
        };
        if new_credit == i64::MIN {
            return String::from_str("更新用户余额出错：余额超出范围");
        }
        let updated = Guest { name: user.name, credit: new_credit, admin: user.admin };
        match store.update_user(&updated) {
            Err(_) => {
                // unreachable: the guest was just found
                String::from_str("更新用户余额出错：余额超出范围")
            },
            Ok(()) => {
                let mut r = String::from_str("更新成功。当前余额：");
                let c = crate::numfmt::format_credit(new_credit);
                r.append(c.as_str());
                proof {
                    assert(r@ =~= "更新成功。当前余额："@ + crate::numfmt::spec_credit_display(
                        new_credit as int,
                    ));
                }
                r
            },
        }
    }

    /// Sets a guest's admin flag, for the admin command
    /// `<name> 管理员 <true|false>`.
    pub fn set_admin(&self, store: &mut Store, name: &str, value_text: &str) -> (r: String)
        requires
            old(store).wf(),
        ensures
            final(store).wf(),
            final(store).conversations@ == old(store).conversations@,
            spec_set_admin(old(store).guests@, final(store).guests@, name@, value_text@, r@),
    {
        proof {
            reveal_strlit("true");
            reveal_strlit("false");
            assert("true"@.len() == 4);
            assert("false"@.len() == 5);
            assert("true"@ != "false"@);
        }
        let v = match crate::numfmt::parse_bool(value_text) {
            None => {
                return String::from_str("管理员属性解析出错。");
            },
            Some(b) => b,
        };
        let user = match store.get_user(name) {
            Err(_) => {
                return String::from_str("无法找到用户。账户不存在");
            },
            Ok(g) => g,
        };
        let updated = Guest { name: user.name, credit: user.credit, admin: v };
        match store.update_user(&updated) {
            Err(_) => {
                // unreachable: the guest was just found
                String::from_str("管理员属性解析出错。")
            },
            Ok(()) => {
                let mut r = String::from_str("更新成功。");
                r.append(name);
                if v {
                    r.append("已成为管理员");
                } else {
                    r.append("不再是管理员");
                }
                proof {
                    assert(r@ =~= "更新成功。"@ + name@ + (if v {
                        "已成为管理员"@
                    } else {
                        "不再是管理员"@
                    }));
                }
                r
            },
        }
    }
}

/// An outbound reply to hand to the platform SDK.
#[derive(Debug)]
pub struct ReplyTask {
    pub to_user: String,
    pub agent_id: u64,
    pub text: String,
}

/// A chat exchange still to run against the provider.
#[derive(Debug)]
pub struct ChatTask {
    pub guest_name: String,
    pub agent_id: u64,
    pub reply_agent_id: u64,
    pub content: String,
}

/// What an inbound callback asks the caller to do next: drop it silently,
/// send a reply, or run a provider exchange and then settle it with
/// `complete_chat`.
#[derive(Debug)]
pub enum InboundAction {
    Drop,
    Reply(ReplyTask),
    Chat(ChatTask),
}

/// What an inbound message callback carries once fully verified, opened
/// and parsed under an application's token and key: the sender, the text,
/// and the application id to reply through. `None` when any stage refuses
/// the callback, which is dropped.
pub open spec fn spec_inbound_msg(
    token: Seq<char>,
    key: Seq<u8>,
    params: &CallbackParams,
    body: Seq<char>,
) -> Option<(Seq<char>, Seq<char>, int)> {
    if crate::xml::spec_xml_field(body, "<ToUserName>"@, "</ToUserName>"@) is None
        || crate::xml::spec_xml_field(body, "<AgentID>"@, "</AgentID>"@) is None {
        None
    } else {
        match crate::xml::spec_xml_field(body, "<Encrypt>"@, "</Encrypt>"@) {
            None => None,
            Some(enc) => {
                if params.msg_signature@ != spec_signature(
                    params.timestamp@,
                    params.nonce@,
                    token,
                    enc,
                ) {
                    None
                } else {
                    match spec_decrypt(key, enc, params.nonce@) {
                        None => None,
                        Some(p) => spec_inner_msg(p.0),
                    }
                }
            },
        }
    }
}

/// The fields an inbound message's decrypted document must carry: the
/// sender, the text content, and a numeric application id; the creation
/// time, message kind and message id must parse but are not used further.
pub open spec fn spec_inner_msg(doc: Seq<char>) -> Option<(Seq<char>, Seq<char>, int)> {
    if crate::xml::spec_xml_field(doc, "<ToUserName>"@, "</ToUserName>"@) is None
        || crate::xml::spec_xml_field(doc, "<MsgType>"@, "</MsgType>"@) is None
        || crate::xml::spec_xml_field(doc, "<MsgId>"@, "</MsgId>"@) is None || !(
    crate::xml::spec_xml_field(doc, "<CreateTime>"@, "</CreateTime>"@) matches Some(t)
        && crate::numfmt::spec_parse_u64(t) is Some) {
        None
    } else {
        match crate::xml::spec_xml_field(doc, "<FromUserName>"@, "</FromUserName>"@) {
            None => None,
            Some(from) => match crate::xml::spec_xml_field(doc, "<Content>"@, "</Content>"@) {
                None => None,
                Some(content) => match crate::xml::spec_xml_field(doc, "<AgentID>"@, "</AgentID>"@) {
                    None => None,
                    Some(aid) => match crate::numfmt::spec_parse_u64(aid) {
                        None => None,
                        Some(v) => Some((from, content, v)),
                    },
                },
            },
        }
    }
}

/// The balance the credit rule sees for a sender: zero for a fresh or
/// solvent guest, the (non-positive) balance for one in arrears.
pub open spec fn spec_overdue(gs: Seq<Guest>, name: Seq<char>) -> int {
    if !has_guest(gs, name) {
        0
    } else if guest_of(gs, name).credit <= 0 {
        guest_of(gs, name).credit as int
    } else {
        0
    }
}

impl Agent {
    /// Handles one inbound message callback. The accountant's own id is
    /// delegated to the contact-directory handler; for an assistant's id
    /// the callback is verified and opened, an unknown sender registered
    /// with a zero balance, a command executed, chat refused to a guest
    /// in arrears, and otherwise the chat handed back to run. Every
    /// refused callback is dropped, never answered.
    pub fn handle_user_request(
        &self,
        store: &mut Store,
        agent_id: u64,
        params: &CallbackParams,
        body: &str,
    ) -> (r: InboundAction)
        requires
            old(store).wf(),
            self.wf(),
        ensures
            final(store).wf(),
            agent_id == self.accountant.agent_id ==> r is Drop && final(store).conversations@
                == old(store).conversations@ && match self.accountant.spec_creation_event(
                params,
                body@,
            ) {
                Some(name) => if !has_guest(old(store).guests@, name) {
                    final(store).guests@.len() == old(store).guests@.len() + 1
                        && final(store).guests@.last().name@ == name
                        && final(store).guests@.last().credit == 0
                        && !final(store).guests@.last().admin
                        && final(store).guests@.subrange(0, old(store).guests@.len() as int)
                        == old(store).guests@
                } else {
                    final(store).guests@ == old(store).guests@
                },
                None => final(store).guests@ == old(store).guests@,
            },
            agent_id != self.accountant.agent_id && !self.serves(agent_id) ==> r is Drop
                && *final(store) == *old(store),
            agent_id != self.accountant.agent_id && self.serves(agent_id) ==> exists|k: int|
                0 <= k < self.assistants@.len() && (#[trigger] self.assistants@[k]).agent_id()
                    == agent_id && match spec_inbound_msg(
                    self.assistants@[k].token@,
                    self.assistants@[k].crypto_agent.key@,
                    params,
                    body@,
                ) {
                    None => r is Drop && *final(store) == *old(store),
                    Some((from, content, raid)) => {
                        let registered = !has_guest(old(store).guests@, from);
                        let overdue = spec_overdue(old(store).guests@, from);
                        &&& (registered ==> final(store).guests@.len() == old(store).guests@.len()
                            + 1 && final(store).guests@.last().name@ == from && final(store).guests@.last().credit == 0 && !final(store).guests@.last().admin && final(store).guests@.subrange(0, old(store).guests@.len() as int) == old(store).guests@)
                        &&& (is_instruction(content) ==> (r matches InboundAction::Reply(t)
                            && t.to_user@ == from && t.agent_id == raid && (registered
                            ==> spec_instruction_outcome(
                            final(store).guests@,
                            old(store).conversations@,
                            final(store).guests@,
                            final(store).conversations@,
                            false,
                            0,
                            from,
                            agent_id,
                            self.serves(agent_id),
                            content,
                            t.text@,
                        )) && (!registered ==> spec_instruction_outcome(
                            old(store).guests@,
                            old(store).conversations@,
                            final(store).guests@,
                            final(store).conversations@,
                            guest_of(old(store).guests@, from).admin,
                            guest_of(old(store).guests@, from).credit,
                            from,
                            agent_id,
                            self.serves(agent_id),
                            content,
                            t.text@,
                        ))))
                        &&& (!is_instruction(content) && overdue < 0 ==> (r matches
                            InboundAction::Reply(t) && t.to_user@ == from && t.agent_id == raid
                            && t.text@ == "账户余额不足。当前余额"@ + crate::numfmt::spec_credit_display_3(
                            overdue,
                        )) && *final(store) == *old(store))
                        &&& (!is_instruction(content) && overdue >= 0 ==> (r matches
                            InboundAction::Chat(t) && t.guest_name@ == from && t.agent_id
                            == agent_id && t.reply_agent_id == raid && t.content@ == content)
                            && final(store).conversations@ == old(store).conversations@)
                    },
                },
    {
        if agent_id == self.accountant.agent_id() {
            match self.accountant.handle_user_creation_event(store, params, body) {
                Ok(()) => {
                },
                Err(_) => {
                },
            }
            return InboundAction::Drop;
        }
        let parsed = match crate::wecom_api::parse_callback_body(body) {
            None => {
                return InboundAction::Drop;
            },
            Some(b) => b,
        };
        let k = match self.find_assistant(agent_id) {
            None => {
                return InboundAction::Drop;
            },
            Some(k) => k,
        };
        let entry = &self.assistants[k];
        if !check_signature(
            params.msg_signature.as_str(),
            params.timestamp.as_str(),
            params.nonce.as_str(),
            entry.token.as_str(),
            parsed.encrypted_str.as_str(),
        ) {
            return InboundAction::Drop;
        }
        let source = match entry.crypto_agent.decrypt(
            parsed.encrypted_str.as_str(),
            params.nonce.as_str(),
        ) {
            Err(_) => {
                return InboundAction::Drop;
            },
            Ok(s) => s,
        };
        let msg = match crate::wecom_api::parse_app_message(source.text.as_str()) {
            None => {
                return InboundAction::Drop;
            },
            Some(m) => m,
        };
        let raid = match crate::numfmt::parse_u64(msg.agent_id.as_str()) {
            None => {
                return InboundAction::Drop;
            },
            Some(v) => v,
        };
        let overdue: i64 = match self.accountant.verify_guest(store, msg.from_user_name.as_str()) {
            Err(AccountError::Internal(_)) => {
                return InboundAction::Drop;
            },
            Err(AccountError::Overdue(c)) => c,
            Err(AccountError::NotFound) => {
                let g = Guest::new(msg.from_user_name.as_str(), 0, false);
                match self.accountant.register(store, &g) {
                    Err(_) => {
                        return InboundAction::Drop;
                    },
                    Ok(()) => 0,
                }
            },
            Ok(()) => 0,
        };
        let guest = match self.accountant.get_guest(store, msg.from_user_name.as_str()) {
            Err(_) => {
                return InboundAction::Drop;
            },
            Ok(g) => g,
        };
        let trimmed = crate::strutil::str_trim(msg.content.as_str());
        let is_instr = (crate::strutil::str_starts_with(trimmed, "$$")
            && crate::strutil::str_ends_with(trimmed, "$$")) || crate::strutil::str_starts_with(
            msg.content.as_str(),
            "#",
        );
        if is_instr {
            let ghost mid = *store;
            proof {
                if !has_guest(old(store).guests@, msg.from_user_name@) {
                    let gs = mid.guests@;
                    let w = choose|w: int|
                        0 <= w < gs.len() && (#[trigger] gs[w]).name@ == msg.from_user_name@;
                    if w < old(store).guests@.len() {
                        assert(gs.subrange(0, old(store).guests@.len() as int)[w] == gs[w]);
                        assert(has_guest(old(store).guests@, msg.from_user_name@));
                    }
                    assert(guest_of(gs, msg.from_user_name@).credit == 0);
                    assert(!guest_of(gs, msg.from_user_name@).admin);
                }
            }
            let text = self.handle_instruction_msg(store, &guest, agent_id, msg.content.as_str());
            return InboundAction::Reply(
                ReplyTask { to_user: msg.from_user_name, agent_id: raid, text },
            );
        }
        if overdue < 0 {
            let mut text = String::from_str("账户余额不足。当前余额");
            let c = crate::numfmt::format_credit_3(overdue);
            text.append(c.as_str());
            proof {
                assert(text@ =~= "账户余额不足。当前余额"@ + crate::numfmt::spec_credit_display_3(
                    overdue as int,
                ));
            }
            return InboundAction::Reply(
                ReplyTask { to_user: msg.from_user_name, agent_id: raid, text },
            );
        }
        InboundAction::Chat(
            ChatTask {
                guest_name: msg.from_user_name,
                agent_id,
                reply_agent_id: raid,
                content: msg.content,
            },
        )
    }
}

impl Agent {
    /// Settles a chat once the provider has answered: persists the two
    /// messages of the exchange, debits the guest by exactly its cost,
    /// and builds the reply carrying the assistant's content. A provider
    /// failure leaves the store untouched and asks the guest to retry
    /// shortly.
    pub fn complete_chat(
        &self,
        store: &mut Store,
        task: &ChatTask,
        outcome: Result<crate::provider::ProviderResponse, String>,
    ) -> (r: InboundAction)
        requires
            old(store).wf(),
            self.wf(),
            outcome is Ok ==> outcome.unwrap().wf(),
        ensures
            final(store).wf(),
            outcome is Err ==> *final(store) == *old(store) && (r is Drop || (r matches
                InboundAction::Reply(t) && t.to_user@ == task.guest_name@ && t.agent_id
                == task.reply_agent_id && t.text@ == "获取AI回复时发生错误。请等一分钟再试，或者向管理员寻求帮助。"@)),
            !self.serves(task.agent_id) ==> r is Drop && *final(store) == *old(store),
            outcome is Ok && self.serves(task.agent_id) ==> exists|k: int|
                0 <= k < self.assistants@.len() && (#[trigger] self.assistants@[k]).agent_id()
                    == task.agent_id && ({
                    let p = outcome.unwrap();
                    let cost = crate::money::spec_cost(
                        p.usage.prompt_tokens as int,
                        p.usage.completion_tokens as int,
                        self.assistants@[k].assistant.provider.prompt_token_price as int,
                        self.assistants@[k].assistant.provider.completion_token_price as int,
                    );
                    let ams_old = crate::store::active_messages(
                        old(store).conversations@,
                        task.guest_name@,
                        task.agent_id,
                    );
                    let ams_new = crate::store::active_messages(
                        final(store).conversations@,
                        task.guest_name@,
                        task.agent_id,
                    );
                    &&& (!crate::store::has_active(
                        old(store).conversations@,
                        task.guest_name@,
                        task.agent_id,
                    ) ==> (r is Drop || r is Reply) && *final(store) == *old(store))
                    &&& (crate::store::has_active(
                        old(store).conversations@,
                        task.guest_name@,
                        task.agent_id,
                    ) ==> {
                        &&& ams_new.len() == ams_old.len() + 2
                        &&& ams_new.subrange(0, ams_old.len() as int) == ams_old
                        &&& ams_new[ams_old.len() as int].role
                            == crate::roles::MessageRole::User
                        &&& ams_new[ams_old.len() as int].content@ == task.content@
                        &&& ams_new[ams_old.len() as int].cost == 0
                        &&& ams_new.last().content@ == p.spec_content()
                        &&& ams_new.last().cost == cost
                        &&& ({
                            let gs = old(store).guests@;
                            let c = guest_of(gs, task.guest_name@).credit as int;
                            if has_guest(gs, task.guest_name@) {
                                if c - cost > i64::MIN {
                                    &&& final(store).guests@.len() == gs.len()
                                    &&& (forall|j: int|
                                        0 <= j < gs.len() && (#[trigger] gs[j]).name@
                                            != task.guest_name@ ==> final(store).guests@[j]
                                            == gs[j])
                                    &&& (forall|j: int|
                                        0 <= j < gs.len() && (#[trigger] gs[j]).name@
                                            == task.guest_name@ ==> final(store).guests@[
                                            j
                                        ].name@ == task.guest_name@ && final(store).guests@[
                                            j
                                        ].credit == c - cost && final(store).guests@[j].admin
                                            == gs[j].admin)
                                    &&& (r matches InboundAction::Reply(t) && t.to_user@
                                        == task.guest_name@ && t.agent_id == task.reply_agent_id
                                        && t.text@ == p.spec_content())
                                } else {
                                    r is Drop && final(store).guests@ == gs
                                }
                            } else {
                                r is Drop && final(store).guests@ == gs
                            }
                        })
                    })
                }),
    {
        let k = match self.find_assistant(task.agent_id) {
            None => {
                return InboundAction::Drop;
            },
            Some(k) => k,
        };
        let resp = match self.assistants[k].assistant.chat_commit(
            store,
            task.guest_name.as_str(),
            task.content.as_str(),
            outcome,
        ) {
            Err(crate::assistant::Error::ProviderError(_)) => {
                return InboundAction::Reply(
                    ReplyTask {
                        to_user: task.guest_name.clone(),
                        agent_id: task.reply_agent_id,
                        text: String::from_str("获取AI回复时发生错误。请等一分钟再试，或者向管理员寻求帮助。"),
                    },
                );
            },
            Err(crate::assistant::Error::StorageError(_)) => {
                return InboundAction::Drop;
            },
            Ok(resp) => resp,
        };
        let guest = match self.accountant.get_guest(store, task.guest_name.as_str()) {
            Err(_) => {
                return InboundAction::Drop;
            },
            Ok(g) => g,
        };
        let new_credit = match guest.credit.checked_sub(resp.cost) {
            None => {
                return InboundAction::Drop;
            },
            Some(n) => n,
        };
        if new_credit == i64::MIN {
            return InboundAction::Drop;
        }
        let updated = Guest { name: guest.name, credit: new_credit, admin: guest.admin };
        match self.accountant.update_guest(store, &updated) {
            Err(_) => InboundAction::Drop,
            Ok(()) => InboundAction::Reply(
                ReplyTask {
                    to_user: task.guest_name.clone(),
                    agent_id: task.reply_agent_id,
                    text: resp.content,
                },
            ),
        }
    }
}

} // verus!
