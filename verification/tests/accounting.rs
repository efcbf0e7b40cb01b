use base64::Engine;
use wecom_gpt::accountant::{Accountant, AccountantCfg};
use wecom_gpt::codec::{generate_signature, CryptoAgent, CryptoSource};
use wecom_gpt::store::Store;
use wecom_gpt::wecom_api::CallbackParams;

const ACCT_KEY_TEXT: &str = "zzzzzzzzzzzzzzzzzzzzzzzzzzzzzzzz";

fn make_accountant() -> Accountant {
    let cfg = AccountantCfg {
        agent_id: 424242,
        token: "AT".to_string(),
        key: base64::engine::general_purpose::STANDARD.encode(ACCT_KEY_TEXT.as_bytes()),
    };
    Accountant::new(&cfg).ok().unwrap()
}

#[test]
fn contact_creation_registers_member() {
    let accountant = make_accountant();
    let mut store = Store::new("boss");

    let inner = "<xml><ToUserName><![CDATA[toUser]]></ToUserName><FromUserName><![CDATA[sys]]></FromUserName><MsgType><![CDATA[event]]></MsgType><Event><![CDATA[change_contact]]></Event><ChangeType>create_user</ChangeType><UserID><![CDATA[zhangsan]]></UserID></xml>";
    let codec = CryptoAgent::new(ACCT_KEY_TEXT);
    let (ciphertext, nonce) = codec
        .encrypt(&CryptoSource {
            text: inner.to_string(),
            receive_id: "corp".to_string(),
        })
        .unwrap();
    let signature = generate_signature("17", nonce.as_str(), "AT", ciphertext.as_str());
    let body = format!(
        "<xml><ToUserName><![CDATA[corp]]></ToUserName><AgentID>424242</AgentID><Encrypt><![CDATA[{}]]></Encrypt></xml>",
        ciphertext
    );
    let params = CallbackParams {
        msg_signature: signature,
        nonce,
        timestamp: "17".to_string(),
    };

    accountant
        .handle_user_creation_event(&mut store, &params, body.as_str())
        .expect("the member should be registered");
    let member = store.get_user("zhangsan").unwrap();
    assert_eq!(member.credit, 0);
    assert!(!member.admin);

    // Registering the same member twice fails.
    assert!(accountant
        .handle_user_creation_event(&mut store, &params, body.as_str())
        .is_err());
}

#[test]
fn contact_creation_rejects_bad_signature() {
    let accountant = make_accountant();
    let mut store = Store::new("boss");
    let params = CallbackParams {
        msg_signature: "0000000000000000000000000000000000000000".to_string(),
        nonce: "bm9uY2U=".to_string(),
        timestamp: "17".to_string(),
    };
    let body = "<xml><ToUserName><![CDATA[corp]]></ToUserName><AgentID>424242</AgentID><Encrypt><![CDATA[junk]]></Encrypt></xml>";
    assert!(accountant
        .handle_user_creation_event(&mut store, &params, body)
        .is_err());
    assert_eq!(store.guests.len(), 1);
}

#[test]
fn contact_creation_via_front_door() {
    // A POST to the accountant's own agent id is delegated to the
    // contact-directory handler: the member is registered, nothing is
    // answered.
    let accountant = make_accountant();
    let agent = wecom_gpt::reception::Agent {
        assistants: vec![],
        accountant,
    };
    let mut store = Store::new("boss");

    let inner = "<xml><ChangeType>create_user</ChangeType><UserID><![CDATA[lisi]]></UserID></xml>";
    let codec = CryptoAgent::new(ACCT_KEY_TEXT);
    let (ciphertext, nonce) = codec
        .encrypt(&CryptoSource {
            text: inner.to_string(),
            receive_id: "corp".to_string(),
        })
        .unwrap();
    let signature = generate_signature("9", nonce.as_str(), "AT", ciphertext.as_str());
    let body = format!(
        "<xml><ToUserName><![CDATA[corp]]></ToUserName><AgentID>424242</AgentID><Encrypt><![CDATA[{}]]></Encrypt></xml>",
        ciphertext
    );
    let params = CallbackParams {
        msg_signature: signature,
        nonce,
        timestamp: "9".to_string(),
    };
    let action = agent.handle_user_request(&mut store, 424242, &params, body.as_str());
    assert!(matches!(action, wecom_gpt::reception::InboundAction::Drop));
    assert_eq!(store.get_user("lisi").unwrap().credit, 0);
}
