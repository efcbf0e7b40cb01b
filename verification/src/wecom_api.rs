//! Shapes of the platform's callback requests: the query parameters of
//! the two routes and the XML bodies they carry, with their parsers.
use vstd::prelude::*;
use crate::numfmt::{parse_u64, spec_parse_u64};
use crate::xml::{spec_xml_field, xml_field};

verus! {

/// Query parameters of the URL-verification handshake.
#[derive(Debug)]
pub struct UrlVerifyParams {
    pub msg_signature: String,
    pub timestamp: String,
    pub nonce: String,
    pub echostr: String,
}

/// Query parameters of an inbound message callback.
#[derive(Debug)]
pub struct CallbackParams {
    pub msg_signature: String,
    pub nonce: String,
    pub timestamp: String,
}

/// Outer envelope of a callback body.
#[derive(Debug)]
pub struct CallbackRequestBody {
    pub to_user_name: String,
    pub agent_id: String,
    pub encrypted_str: String,
}

/// Decrypted content of an ordinary inbound message.
#[derive(Debug)]
pub struct AppMessageContent {
    pub to_user_name: String,
    pub from_user_name: String,
    pub create_time: u64,
    pub msg_type: String,
    pub content: String,
    pub msg_id: String,
    pub agent_id: String,
}

/// Decrypted content of a contact-change event.
#[derive(Debug)]
pub struct ContactEventContent {
    pub user_id: String,
    pub event: String,
}

/// Reads the outer envelope: `ToUserName`, `AgentID` and `Encrypt`.
pub fn parse_callback_body(doc: &str) -> (r: Option<CallbackRequestBody>)
    ensures
        match r {
            Some(b) => spec_xml_field(doc@, "<ToUserName>"@, "</ToUserName>"@) == Some(
                b.to_user_name@,
            ) && spec_xml_field(doc@, "<AgentID>"@, "</AgentID>"@) == Some(b.agent_id@)
                && spec_xml_field(doc@, "<Encrypt>"@, "</Encrypt>"@) == Some(b.encrypted_str@),
            None => spec_xml_field(doc@, "<ToUserName>"@, "</ToUserName>"@) is None
                || spec_xml_field(doc@, "<AgentID>"@, "</AgentID>"@) is None || spec_xml_field(
                doc@,
                "<Encrypt>"@,
                "</Encrypt>"@,
            ) is None,
        },
{
    let to_user_name = match xml_field(doc, "<ToUserName>", "</ToUserName>") {
        None => {
            return None;
        },
        Some(v) => v,
    };
    let agent_id = match xml_field(doc, "<AgentID>", "</AgentID>") {
        None => {
            return None;
        },
        Some(v) => v,
    };
    let encrypted_str = match xml_field(doc, "<Encrypt>", "</Encrypt>") {
        None => {
            return None;
        },
        Some(v) => v,
    };
    Some(CallbackRequestBody { to_user_name, agent_id, encrypted_str })
}

/// Reads an inbound message's decrypted XML: sender, creation time,
/// message kind, text content, message id, and application id.
pub fn parse_app_message(doc: &str) -> (r: Option<AppMessageContent>)
    ensures
        match r {
            Some(m) => spec_xml_field(doc@, "<ToUserName>"@, "</ToUserName>"@) == Some(
                m.to_user_name@,
            ) && spec_xml_field(doc@, "<FromUserName>"@, "</FromUserName>"@) == Some(
                m.from_user_name@,
            ) && (spec_xml_field(doc@, "<CreateTime>"@, "</CreateTime>"@) matches Some(t)
                && spec_parse_u64(t) == Some(m.create_time as int)) && spec_xml_field(
                doc@,
                "<MsgType>"@,
                "</MsgType>"@,
            ) == Some(m.msg_type@) && spec_xml_field(doc@, "<Content>"@, "</Content>"@) == Some(
                m.content@,
            ) && spec_xml_field(doc@, "<MsgId>"@, "</MsgId>"@) == Some(m.msg_id@)
                && spec_xml_field(doc@, "<AgentID>"@, "</AgentID>"@) == Some(m.agent_id@),
            None => spec_xml_field(doc@, "<ToUserName>"@, "</ToUserName>"@) is None
                || spec_xml_field(doc@, "<FromUserName>"@, "</FromUserName>"@) is None || (
            spec_xml_field(doc@, "<CreateTime>"@, "</CreateTime>"@) matches Some(t)
                ==> spec_parse_u64(t) is None) || spec_xml_field(doc@, "<MsgType>"@, "</MsgType>"@)
                is None || spec_xml_field(doc@, "<Content>"@, "</Content>"@) is None
                || spec_xml_field(doc@, "<MsgId>"@, "</MsgId>"@) is None || spec_xml_field(
                doc@,
                "<AgentID>"@,
                "</AgentID>"@,
            ) is None,
        },
{
    let to_user_name = match xml_field(doc, "<ToUserName>", "</ToUserName>") {
        None => {
            return None;
        },
        Some(v) => v,
    };
    let from_user_name = match xml_field(doc, "<FromUserName>", "</FromUserName>") {
        None => {
            return None;
        },
        Some(v) => v,
    };
    let create_time_str = match xml_field(doc, "<CreateTime>", "</CreateTime>") {
        None => {
            return None;
        },
        Some(v) => v,
    };
    let create_time = match parse_u64(create_time_str.as_str()) {
        None => {
            return None;
        },
        Some(v) => v,
    };
    let msg_type = match xml_field(doc, "<MsgType>", "</MsgType>") {
        None => {
            return None;
        },
        Some(v) => v,
    };
    let content = match xml_field(doc, "<Content>", "</Content>") {
        None => {
            return None;
        },
        Some(v) => v,
    };
    let msg_id = match xml_field(doc, "<MsgId>", "</MsgId>") {
        None => {
            return None;
        },
        Some(v) => v,
    };
    let agent_id = match xml_field(doc, "<AgentID>", "</AgentID>") {
        None => {
            return None;
        },
        Some(v) => v,
    };
    Some(
        AppMessageContent {
            to_user_name,
            from_user_name,
            create_time,
            msg_type,
            content,
            msg_id,
            agent_id,
        },
    )
}

/// Reads a contact-change event's decrypted XML: the member's id and the
/// kind of change.
pub fn parse_contact_event(doc: &str) -> (r: Option<ContactEventContent>)
    ensures
        match r {
            Some(e) => spec_xml_field(doc@, "<UserID>"@, "</UserID>"@) == Some(e.user_id@)
                && spec_xml_field(doc@, "<ChangeType>"@, "</ChangeType>"@) == Some(e.event@),
            None => spec_xml_field(doc@, "<UserID>"@, "</UserID>"@) is None || spec_xml_field(
                doc@,
                "<ChangeType>"@,
                "</ChangeType>"@,
            ) is None,
        },
{
    let user_id = match xml_field(doc, "<UserID>", "</UserID>") {
        None => {
            return None;
        },
        Some(v) => v,
    };
    let event = match xml_field(doc, "<ChangeType>", "</ChangeType>") {
        None => {
            return None;
        },
        Some(v) => v,
    };
    Some(ContactEventContent { user_id, event })
}

} // verus!
