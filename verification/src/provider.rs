//! Typed view of the LLM provider's chat-completion interface: the
//! message list sent out, the usage and choices received back, and the
//! exact cost of an exchange.
//!
//! The HTTP POST itself is not made here: a caller serializes the
//! prepared `ChatMessage` list into the provider's JSON wire format,
//! performs the request, and hands the parsed response back as a
//! `ProviderResponse` of plain values.
use vstd::prelude::*;
use crate::money::{cost_of, spec_cost, valid_price, valid_token_count, MAX_TOKENS_REPORTED};
use crate::roles::Role;

verus! {

/// One message of the list POSTed to the provider.
#[derive(Debug)]
pub struct ChatMessage {
    pub role: Role,
    pub content: String,
}

impl ChatMessage {
    pub fn new(role: Role, content: &str) -> (m: ChatMessage)
        ensures
            m.role == role,
            m.content@ == content@,
    {
        ChatMessage { role, content: content.to_owned() }
    }
}

impl Clone for ChatMessage {
    fn clone(&self) -> (res: Self)
        ensures
            res.role == self.role,
            res.content@ == self.content@,
    {
        ChatMessage { role: self.role, content: self.content.clone() }
    }
}

/// Token accounting of one exchange, as the provider reports it.
#[derive(Debug, Clone, Copy)]
pub struct Usage {
    pub prompt_tokens: u64,
    pub completion_tokens: u64,
    pub total_tokens: u64,
}

/// A provider reply: usage plus the returned choices.
#[derive(Debug)]
pub struct ProviderResponse {
    pub usage: Usage,
    pub choices: Vec<ChatMessage>,
}

impl ProviderResponse {
    /// Content of the first choice; empty when the provider returned none.
    pub fn content(&self) -> (r: &str)
        ensures
            r@ == self.spec_content(),
    {
        if self.choices.len() > 0 {
            self.choices[0].content.as_str()
        } else {
            proof {
                reveal_strlit("");
            }
            ""
        }
    }

    pub open spec fn spec_content(&self) -> Seq<char> {
        if self.choices@.len() > 0 {
            self.choices@[0].content@
        } else {
            Seq::empty()
        }
    }

    /// Role of the first choice; `System` when the provider returned none.
    pub fn role(&self) -> (r: Role)
        ensures
            r == self.spec_role(),
    {
        if self.choices.len() > 0 {
            self.choices[0].role
        } else {
            Role::System
        }
    }

    pub open spec fn spec_role(&self) -> Role {
        if self.choices@.len() > 0 {
            self.choices@[0].role
        } else {
            Role::System
        }
    }

    pub fn prompt_tokens(&self) -> (r: u64)
        ensures
            r == self.usage.prompt_tokens,
    {
        self.usage.prompt_tokens
    }

    pub fn completion_tokens(&self) -> (r: u64)
        ensures
            r == self.usage.completion_tokens,
    {
        self.usage.completion_tokens
    }

    /// The reported token counts are small enough to account for.
    pub open spec fn wf(&self) -> bool {
        valid_token_count(self.usage.prompt_tokens as int) && valid_token_count(
            self.usage.completion_tokens as int,
        )
    }

    /// Checks the reported token counts, making the response fit for
    /// accounting.
    pub fn validate(usage: Usage, choices: Vec<ChatMessage>) -> (r: Option<ProviderResponse>)
        ensures
            match r {
                Some(p) => p.wf() && p.usage == usage && p.choices@ == choices@,
                None => usage.prompt_tokens > MAX_TOKENS_REPORTED || usage.completion_tokens
                    > MAX_TOKENS_REPORTED,
            },
    {
        if usage.prompt_tokens <= MAX_TOKENS_REPORTED && usage.completion_tokens
            <= MAX_TOKENS_REPORTED {
            Some(ProviderResponse { usage, choices })
        } else {
            None
        }
    }
}

/// Per-provider configuration. Prices are in units of 10^-6 credits per
/// 1,000 tokens; `max_tokens` is the context-window ceiling.
#[derive(Debug)]
pub struct ProviderCfg {
    pub id: u64,
    pub name: String,
    pub endpoint: String,
    pub api_key: String,
    pub max_tokens: u64,
    pub prompt_token_price: i64,
    pub completion_token_price: i64,
}

impl ProviderCfg {
    pub open spec fn wf(&self) -> bool {
        valid_price(self.prompt_token_price as int) && valid_price(
            self.completion_token_price as int,
        )
    }
}

impl Clone for ProviderCfg {
    fn clone(&self) -> (res: Self)
        ensures
            res.id == self.id,
            res.name@ == self.name@,
            res.endpoint@ == self.endpoint@,
            res.api_key@ == self.api_key@,
            res.max_tokens == self.max_tokens,
            res.prompt_token_price == self.prompt_token_price,
            res.completion_token_price == self.completion_token_price,
    {
        ProviderCfg {
            id: self.id,
            name: self.name.clone(),
            endpoint: self.endpoint.clone(),
            api_key: self.api_key.clone(),
            max_tokens: self.max_tokens,
            prompt_token_price: self.prompt_token_price,
            completion_token_price: self.completion_token_price,
        }
    }
}

/// Cost of a reply under a provider's prices: exactly
/// `(p * P + c * C) / 1000` credits, in units of 10^-9 credits.
pub fn response_cost(cfg: &ProviderCfg, response: &ProviderResponse) -> (cost: i64)
    requires
        cfg.wf(),
        response.wf(),
    ensures
        cost == spec_cost(
            response.usage.prompt_tokens as int,
            response.usage.completion_tokens as int,
            cfg.prompt_token_price as int,
            cfg.completion_token_price as int,
        ),
        0 <= cost <= 2_000_000_000_000_000_000,
{
    cost_of(
        response.usage.prompt_tokens,
        response.usage.completion_tokens,
        cfg.prompt_token_price,
        cfg.completion_token_price,
    )
}

} // verus!
