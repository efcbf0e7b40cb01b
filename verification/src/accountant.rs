//! The accountant: guest lifecycle and credit checks, and the
//! contact-directory callbacks that register platform members, verified
//! against its own codec (the directory callback uses its own agent id,
//! token and key).
use vstd::prelude::*;
use crate::codec::{check_signature, spec_decrypt, spec_signature, CryptoAgent};
use crate::store::{guest_of, has_guest, Guest, Store};
use crate::wecom_api::{parse_callback_body, parse_contact_event, CallbackParams, UrlVerifyParams};
use crate::xml::spec_xml_field;

verus! {

/// Configuration of the accountant's platform application. `key` is the
/// base64-encoded symmetric key.
#[derive(Debug)]
pub struct AccountantCfg {
    pub agent_id: u64,
    pub token: String,
    pub key: String,
}

/// How an accountant operation fails.
#[derive(Debug)]
pub enum Error {
    /// No guest of that name exists.
    NotFound,
    /// The guest owes; the balance is carried along.
    Overdue(i64),
    /// Anything else, with a description.
    Internal(String),
}

/// The accountant, bound to its own platform credentials.
#[derive(Debug)]
pub struct Accountant {
    pub agent_id: u64,
    pub token: String,
    pub crypto_agent: CryptoAgent,
}

impl Accountant {
    pub open spec fn wf(&self) -> bool {
        self.crypto_agent.wf()
    }

    /// Builds the accountant; fails when the configured key is not valid
    /// base64 for a 32-byte key.
    pub fn new(config: &AccountantCfg) -> (r: Result<Accountant, Error>)
        ensures
            match r {
                Ok(a) => a.wf() && a.agent_id == config.agent_id && a.token@ == config.token@
                    && crate::codec::b64_decode_of(config.key@) == Some(a.crypto_agent.key@),
                Err(_) => crate::codec::b64_decode_of(config.key@) is None || (
                crate::codec::b64_decode_of(config.key@) matches Some(k) && k.len() != 32),
            },
    {
        match CryptoAgent::from_b64_key(config.key.as_str()) {
            None => Err(Error::Internal(String::from_str("the configured key is not usable"))),
            Some(crypto_agent) => Ok(
                Accountant { agent_id: config.agent_id, token: config.token.clone(), crypto_agent },
            ),
        }
    }

    /// The agent id of the contact-directory application.
    pub fn agent_id(&self) -> (r: u64)
        ensures
            r == self.agent_id,
    {
        self.agent_id
    }

    /// Answers a URL-verification handshake: checks the signature over
    /// the echo string and returns its decrypted text.
    pub fn verify_url(&self, params: &UrlVerifyParams) -> (r: Result<String, Error>)
        requires
            self.wf(),
        ensures
            match r {
                Ok(text) => params.msg_signature@ == spec_signature(
                    params.timestamp@,
                    params.nonce@,
                    self.token@,
                    params.echostr@,
                ) && (spec_decrypt(self.crypto_agent.key@, params.echostr@, params.nonce@) matches
                    Some(p) && p.0 == text@),
                Err(_) => params.msg_signature@ != spec_signature(
                    params.timestamp@,
                    params.nonce@,
                    self.token@,
                    params.echostr@,
                ) || spec_decrypt(self.crypto_agent.key@, params.echostr@, params.nonce@) is None,
            },
    {
        if !check_signature(
            params.msg_signature.as_str(),
            params.timestamp.as_str(),
            params.nonce.as_str(),
            self.token.as_str(),
            params.echostr.as_str(),
        ) {
            return Err(Error::Internal(String::from_str("the signature does not match")));
        }
        match self.crypto_agent.decrypt(params.echostr.as_str(), params.nonce.as_str()) {
            Err(_) => Err(Error::Internal(String::from_str("the echo string does not decrypt"))),
            Ok(source) => Ok(source.text),
        }
    }

    /// Registers a new guest; an existing name is an error.
    pub fn register(&self, store: &mut Store, guest: &Guest) -> (r: Result<(), Error>)
        requires
            old(store).wf(),
            guest.credit > i64::MIN,
        ensures
            final(store).wf(),
            final(store).conversations@ == old(store).conversations@,
            match r {
                Ok(()) => !has_guest(old(store).guests@, guest.name@) && final(store).guests@.len()
                    == old(store).guests@.len() + 1 && final(store).guests@.last().name@
                    == guest.name@ && final(store).guests@.last().credit == guest.credit
                    && final(store).guests@.last().admin == guest.admin
                    && final(store).guests@.subrange(0, old(store).guests@.len() as int)
                    == old(store).guests@,
                Err(_) => has_guest(old(store).guests@, guest.name@) && *final(store) == *old(
                    store,
                ),
            },
    {
        match store.create_user(guest) {
            Ok(()) => Ok(()),
            Err(_) => Err(Error::Internal(String::from_str("the guest already exists"))),
        }
    }

    /// Looks a guest up by name.
    pub fn get_guest(&self, store: &Store, guest_name: &str) -> (r: Result<Guest, Error>)
        requires
            store.wf(),
        ensures
            match r {
                Ok(g) => has_guest(store.guests@, guest_name@) && g.name@ == guest_name@
                    && g.credit == guest_of(store.guests@, guest_name@).credit && g.admin
                    == guest_of(store.guests@, guest_name@).admin,
                Err(_) => !has_guest(store.guests@, guest_name@),
            },
    {
        match store.get_user(guest_name) {
            Ok(g) => Ok(g),
            Err(_) => Err(Error::NotFound),
        }
    }

    /// Checks an account: `NotFound` for an unknown name, `Overdue` with
    /// the balance when it is zero or negative, fine otherwise.
    pub fn verify_guest(&self, store: &Store, guest_name: &str) -> (r: Result<(), Error>)
        requires
            store.wf(),
        ensures
            match r {
                Ok(()) => has_guest(store.guests@, guest_name@) && guest_of(
                    store.guests@,
                    guest_name@,
                ).credit > 0,
                Err(e) => match e {
                    Error::NotFound => !has_guest(store.guests@, guest_name@),
                    Error::Overdue(c) => has_guest(store.guests@, guest_name@) && guest_of(
                        store.guests@,
                        guest_name@,
                    ).credit == c && c <= 0,
                    Error::Internal(_) => false,
                },
            },
    {
        let user = match store.get_user(guest_name) {
            Err(_) => {
                return Err(Error::NotFound);
            },
            Ok(g) => g,
        };
        if user.credit <= 0 {
            Err(Error::Overdue(user.credit))
        } else {
            Ok(())
        }
    }

    /// Overwrites a guest's balance and admin flag.
    pub fn update_guest(&self, store: &mut Store, guest: &Guest) -> (r: Result<(), Error>)
        requires
            old(store).wf(),
            guest.credit > i64::MIN,
        ensures
            final(store).wf(),
            final(store).conversations@ == old(store).conversations@,
            match r {
                Ok(()) => has_guest(old(store).guests@, guest.name@) && final(store).guests@.len()
                    == old(store).guests@.len() && (forall|j: int|
                    0 <= j < old(store).guests@.len() && (#[trigger] old(store).guests@[j]).name@
                        != guest.name@ ==> final(store).guests@[j] == old(store).guests@[j]) && (
                forall|j: int|
                    0 <= j < old(store).guests@.len() && (#[trigger] old(store).guests@[j]).name@
                        == guest.name@ ==> final(store).guests@[j].name@ == guest.name@ && final(store).guests@[j].credit == guest.credit && final(store).guests@[j].admin
                        == guest.admin),
                Err(_) => !has_guest(old(store).guests@, guest.name@) && *final(store) == *old(
                    store,
                ),
            },
    {
        match store.update_user(guest) {
            Ok(()) => Ok(()),
            Err(_) => Err(Error::Internal(String::from_str("the guest could not be updated"))),
        }
    }

    /// What a contact-creation callback registers: the member id carried
    /// by a body whose signature checks out and whose envelope decrypts
    /// and parses.
    pub open spec fn spec_creation_event(&self, params: &CallbackParams, body: Seq<char>) -> Option<
        Seq<char>,
    > {
        match spec_xml_field(body, "<Encrypt>"@, "</Encrypt>"@) {
            None => None,
            Some(encrypted) => {
                if spec_xml_field(body, "<ToUserName>"@, "</ToUserName>"@) is None || spec_xml_field(
                    body,
                    "<AgentID>"@,
                    "</AgentID>"@,
                ) is None {
                    None
                } else if params.msg_signature@ != spec_signature(
                    params.timestamp@,
                    params.nonce@,
                    self.token@,
                    encrypted,
                ) {
                    None
                } else {
                    match spec_decrypt(self.crypto_agent.key@, encrypted, params.nonce@) {
                        None => None,
                        Some(p) => match spec_xml_field(p.0, "<UserID>"@, "</UserID>"@) {
                            None => None,
                            Some(user_id) => if spec_xml_field(
                                p.0,
                                "<ChangeType>"@,
                                "</ChangeType>"@,
                            ) is Some {
                                Some(user_id)
                            } else {
                                None
                            },
                        },
                    }
                }
            },
        }
    }

    /// Handles a contact-creation event: verifies and decrypts the
    /// callback and registers the named member with a zero balance and no
    /// admin rights.
    pub fn handle_user_creation_event(
        &self,
        store: &mut Store,
        params: &CallbackParams,
        body: &str,
    ) -> (r: Result<(), Error>)
        requires
            old(store).wf(),
            self.wf(),
        ensures
            final(store).wf(),
            final(store).conversations@ == old(store).conversations@,
            match r {
                Ok(()) => self.spec_creation_event(params, body@) matches Some(name) && !has_guest(
                    old(store).guests@,
                    name,
                ) && final(store).guests@.len() == old(store).guests@.len() + 1
                    && final(store).guests@.last().name@ == name
                    && final(store).guests@.last().credit == 0
                    && !final(store).guests@.last().admin
                    && final(store).guests@.subrange(0, old(store).guests@.len() as int)
                    == old(store).guests@,
                Err(_) => *final(store) == *old(store) && (self.spec_creation_event(params, body@)
                    is None || (self.spec_creation_event(params, body@) matches Some(name)
                    && has_guest(old(store).guests@, name))),
            },
    {
        let parsed = match parse_callback_body(body) {
            None => {
                return Err(Error::Internal(String::from_str("the body could not be parsed")));
            },
            Some(b) => b,
        };
        if !check_signature(
            params.msg_signature.as_str(),
            params.timestamp.as_str(),
            params.nonce.as_str(),
            self.token.as_str(),
            parsed.encrypted_str.as_str(),
        ) {
            return Err(Error::Internal(String::from_str("the signature does not match")));
        }
        let source = match self.crypto_agent.decrypt(
            parsed.encrypted_str.as_str(),
            params.nonce.as_str(),
        ) {
            Err(_) => {
                return Err(Error::Internal(String::from_str("the envelope does not decrypt")));
            },
            Ok(s) => s,
        };
        let event = match parse_contact_event(source.text.as_str()) {
            None => {
                return Err(Error::Internal(String::from_str("the event could not be parsed")));
            },
            Some(e) => e,
        };
        let guest = Guest::new(event.user_id.as_str(), 0, false);
        self.register(store, &guest)
    }
}

} // verus!
