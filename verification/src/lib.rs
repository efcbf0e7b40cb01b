//! Core of a chat gateway bridging an enterprise messaging platform to
//! hosted LLM providers: callback security, conversation storage with a
//! context-window budget, credit accounting, and a small command language.
use vstd::prelude::*;

pub mod accountant;
pub mod assistant;
pub mod codec;
pub mod money;
pub mod numfmt;
pub mod provider;
pub mod reception;
pub mod roles;
pub mod store;
pub mod strutil;
pub mod wecom_api;
pub mod xml;

verus! {

/// Scale of a credit amount: amounts are stored in units of 10^-9 credits.
pub const CREDIT_SCALE: i64 = 1_000_000_000;

/// A token price is stored in units of 10^-6 credits per 1,000 tokens, so
/// that `tokens * price` is exactly a credit amount in units of 10^-9.
pub const PRICE_SCALE: i64 = 1_000_000;

} // verus!
