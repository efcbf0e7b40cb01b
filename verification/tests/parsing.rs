use wecom_gpt::strutil::{split_char, str_ends_with, str_eq, str_starts_with, str_trim, str_trim_char};
use wecom_gpt::wecom_api::{parse_app_message, parse_callback_body, parse_contact_event};
use wecom_gpt::xml::xml_field;

#[test]
fn test_split_on_spaces() {
    let fields = split_char("alice 充值 10", ' ');
    assert_eq!(fields, vec!["alice", "充值", "10"]);
}

#[test]
fn test_split_keeps_empty_fields() {
    assert_eq!(split_char("a  b", ' '), vec!["a", "", "b"]);
    assert_eq!(split_char("", ' '), vec![""]);
    assert_eq!(split_char(" x ", ' '), vec!["", "x", ""]);
}

#[test]
fn test_trimming() {
    assert_eq!(str_trim("  hi \n"), "hi");
    assert_eq!(str_trim("hi"), "hi");
    assert_eq!(str_trim("   "), "");
    assert_eq!(str_trim_char("$$alice 充值 10$$", '$'), "alice 充值 10");
    assert_eq!(str_trim_char("$$$$", '$'), "");
}

#[test]
fn test_affixes_and_equality() {
    assert!(str_starts_with("$$cmd$$", "$$"));
    assert!(str_ends_with("$$cmd$$", "$$"));
    assert!(!str_starts_with("#cmd", "$$"));
    assert!(str_eq("同样", "同样"));
    assert!(!str_eq("a", "b"));
}

#[test]
fn test_xml_field_extraction() {
    let doc = "<xml><A>plain</A><B><![CDATA[wrapped]]></B></xml>";
    assert_eq!(xml_field(doc, "<A>", "</A>").as_deref(), Some("plain"));
    assert_eq!(xml_field(doc, "<B>", "</B>").as_deref(), Some("wrapped"));
    assert_eq!(xml_field(doc, "<C>", "</C>"), None);
}

#[test]
fn test_parse_callback_body() {
    let doc = "<xml><ToUserName><![CDATA[toUser]]></ToUserName><AgentID><![CDATA[toAgentID]]></AgentID><Encrypt><![CDATA[msg_encrypt]]></Encrypt></xml>";
    let b = parse_callback_body(doc).unwrap();
    assert_eq!(b.to_user_name, "toUser");
    assert_eq!(b.agent_id, "toAgentID");
    assert_eq!(b.encrypted_str, "msg_encrypt");
    assert!(parse_callback_body("<xml></xml>").is_none());
}

#[test]
fn test_parse_app_message() {
    let doc = "<xml><ToUserName><![CDATA[ww637951f75e40d82b]]></ToUserName><FromUserName><![CDATA[YinGuoBing]]></FromUserName><CreateTime>1708218294</CreateTime><MsgType><![CDATA[text]]></MsgType><Content><![CDATA[hello]]></Content><MsgId>7336741709953816625</MsgId><AgentID>1000002</AgentID></xml>";
    let m = parse_app_message(doc).unwrap();
    assert_eq!(m.to_user_name, "ww637951f75e40d82b");
    assert_eq!(m.from_user_name, "YinGuoBing");
    assert_eq!(m.create_time, 1708218294);
    assert_eq!(m.msg_type, "text");
    assert_eq!(m.content, "hello");
    assert_eq!(m.msg_id, "7336741709953816625");
    assert_eq!(m.agent_id, "1000002");
}

#[test]
fn test_parse_contact_event() {
    let doc = "<xml><ToUserName><![CDATA[toUser]]></ToUserName><FromUserName><![CDATA[sys]]></FromUserName><ChangeType>create_user</ChangeType><UserID><![CDATA[zhangsan]]></UserID></xml>";
    let e = parse_contact_event(doc).unwrap();
    assert_eq!(e.user_id, "zhangsan");
    assert_eq!(e.event, "create_user");
    assert!(parse_contact_event("<xml><UserID>u</UserID></xml>").is_none());
}
