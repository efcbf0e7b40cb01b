use base64::Engine;
use wecom_gpt::accountant::AccountantCfg;
use wecom_gpt::assistant::AssistantCfg;
use wecom_gpt::codec::{generate_signature, CryptoAgent, CryptoSource};
use wecom_gpt::provider::{ChatMessage, ProviderCfg, ProviderResponse, Usage};
use wecom_gpt::reception::{Agent, Config, InboundAction, WecomCfg};
use wecom_gpt::roles::Role;
use wecom_gpt::store::Store;
use wecom_gpt::wecom_api::{CallbackParams, UrlVerifyParams};

const KEY_TEXT: &str = "kkkkkkkkkkkkkkkkkkkkkkkkkkkkkkkk";
const ACCT_KEY_TEXT: &str = "aaaaaaaaaaaaaaaaaaaaaaaaaaaaaaaa";
const TOKEN: &str = "T";
const AGENT_ID: u64 = 1000002;

fn b64(bytes: &[u8]) -> String {
    base64::engine::general_purpose::STANDARD.encode(bytes)
}

fn make_config() -> Config {
    Config {
        wecom: WecomCfg {
            corp_id: "corp".to_string(),
        },
        providers: vec![ProviderCfg {
            id: 1,
            name: "openai/gpt4-32k".to_string(),
            endpoint: "https://provider.example/chat".to_string(),
            api_key: "SECRET-REDACTED".to_string(),
            max_tokens: 100,
            prompt_token_price: 60_000,
            completion_token_price: 120_000,
        }],
        assistants: vec![AssistantCfg {
            agent_id: AGENT_ID,
            name: "helper".to_string(),
            token: TOKEN.to_string(),
            key: b64(KEY_TEXT.as_bytes()),
            secret: "SECRET-REDACTED".to_string(),
            prompt: "You are a helpful assistant.".to_string(),
            provider_id: 1,
            context_tokens_reservation: 20,
        }],
        accountant: AccountantCfg {
            agent_id: 424242,
            token: "AT".to_string(),
            key: b64(ACCT_KEY_TEXT.as_bytes()),
        },
        storage_path: ":memory:".to_string(),
        admin_account: "boss".to_string(),
    }
}

fn make_agent() -> Agent {
    Agent::new(&make_config()).ok().expect("the configuration should be accepted")
}

/// Encrypts an inner document and wraps it in an envelope body with
/// matching signature parameters.
fn make_callback(inner: &str) -> (CallbackParams, String) {
    let codec = CryptoAgent::new(KEY_TEXT);
    let source = CryptoSource {
        text: inner.to_string(),
        receive_id: "corp".to_string(),
    };
    let (ciphertext, nonce) = codec.encrypt(&source).expect("encryption should succeed");
    let timestamp = "0".to_string();
    let signature = generate_signature(timestamp.as_str(), nonce.as_str(), TOKEN, ciphertext.as_str());
    let body = format!(
        "<xml><ToUserName><![CDATA[corp]]></ToUserName><AgentID>{}</AgentID><Encrypt><![CDATA[{}]]></Encrypt></xml>",
        AGENT_ID, ciphertext
    );
    (
        CallbackParams {
            msg_signature: signature,
            nonce,
            timestamp,
        },
        body,
    )
}

fn make_message(from: &str, content: &str) -> String {
    format!(
        "<xml><ToUserName><![CDATA[corp]]></ToUserName><FromUserName><![CDATA[{}]]></FromUserName><CreateTime>1708218294</CreateTime><MsgType><![CDATA[text]]></MsgType><Content><![CDATA[{}]]></Content><MsgId>7336741709953816625</MsgId><AgentID>{}</AgentID></xml>",
        from, content, AGENT_ID
    )
}

#[test]
fn url_verification_returns_plaintext() {
    let agent = make_agent();
    let codec = CryptoAgent::new(KEY_TEXT);
    let source = CryptoSource {
        text: "echo plaintext".to_string(),
        receive_id: "corp".to_string(),
    };
    let (echostr, nonce) = codec.encrypt(&source).unwrap();
    let signature = generate_signature("0", nonce.as_str(), TOKEN, echostr.as_str());
    let params = UrlVerifyParams {
        msg_signature: signature,
        timestamp: "0".to_string(),
        nonce,
        echostr,
    };
    let r = agent.verify_url(AGENT_ID, &params);
    assert_eq!(r.ok().as_deref(), Some("echo plaintext"));
}

#[test]
fn url_verification_rejects_flipped_signature() {
    let agent = make_agent();
    let codec = CryptoAgent::new(KEY_TEXT);
    let source = CryptoSource {
        text: "echo plaintext".to_string(),
        receive_id: "corp".to_string(),
    };
    let (echostr, nonce) = codec.encrypt(&source).unwrap();
    let signature = generate_signature("0", nonce.as_str(), TOKEN, echostr.as_str());
    // Flip the first signature byte (hex digits are ASCII).
    let mut flipped: Vec<char> = signature.chars().collect();
    flipped[0] = if flipped[0] == '0' { '1' } else { '0' };
    let flipped: String = flipped.into_iter().collect();
    let params = UrlVerifyParams {
        msg_signature: flipped,
        timestamp: "0".to_string(),
        nonce,
        echostr,
    };
    assert_eq!(agent.verify_url(AGENT_ID, &params), Err(400));
}

#[test]
fn first_chat_registers_debits_and_replies() {
    let agent = make_agent();
    let mut store = Store::new("boss");
    let (params, body) = make_callback(make_message("alice", "hello").as_str());

    let action = agent.handle_user_request(&mut store, AGENT_ID, &params, body.as_str());
    let task = match action {
        InboundAction::Chat(task) => task,
        _ => panic!("a first chat should be handed back as a chat task"),
    };
    assert_eq!(task.guest_name, "alice");
    assert_eq!(task.content, "hello");

    // The guest was registered with a zero balance.
    let alice = store.get_user("alice").unwrap();
    assert_eq!(alice.credit, 0);
    assert!(!alice.admin);

    // Run the exchange as the caller would.
    let history = agent.assistants[0]
        .assistant
        .chat_begin(&mut store, "alice")
        .unwrap();
    assert_eq!(history.len(), 0);
    let response = ProviderResponse {
        usage: Usage {
            prompt_tokens: 5,
            completion_tokens: 7,
            total_tokens: 12,
        },
        choices: vec![ChatMessage::new(Role::Assistant, "hi")],
    };
    let reply = agent.complete_chat(&mut store, &task, Ok(response));
    match reply {
        InboundAction::Reply(t) => {
            assert_eq!(t.to_user, "alice");
            assert_eq!(t.text, "hi");
        }
        _ => panic!("a settled chat should be answered"),
    }

    // cost = (5 * 0.06 + 7 * 0.12) / 1000 credits = 0.001140
    let alice = store.get_user("alice").unwrap();
    assert_eq!(alice.credit, -1_140_000);

    // One active conversation with exactly two messages.
    let msgs = store.get_conversation("alice", AGENT_ID).unwrap();
    assert_eq!(msgs.len(), 2);
    assert_eq!(msgs[0].content, "hello");
    assert_eq!(msgs[1].content, "hi");
    assert_eq!(msgs[1].cost, 1_140_000);
}

#[test]
fn provider_failure_leaves_conversation_unchanged() {
    let agent = make_agent();
    let mut store = Store::new("boss");
    let (params, body) = make_callback(make_message("alice", "hello").as_str());
    let action = agent.handle_user_request(&mut store, AGENT_ID, &params, body.as_str());
    let task = match action {
        InboundAction::Chat(task) => task,
        _ => panic!("expected a chat task"),
    };
    agent.assistants[0]
        .assistant
        .chat_begin(&mut store, "alice")
        .unwrap();
    let before = store.get_conversation("alice", AGENT_ID).unwrap().len();
    let reply = agent.complete_chat(&mut store, &task, Err("timeout".to_string()));
    match reply {
        InboundAction::Reply(t) => {
            assert_eq!(t.text, "获取AI回复时发生错误。请等一分钟再试，或者向管理员寻求帮助。");
        }
        _ => panic!("the guest should be told to retry"),
    }
    let after = store.get_conversation("alice", AGENT_ID).unwrap().len();
    assert_eq!(before, after);
    assert_eq!(store.get_user("alice").unwrap().credit, 0);
}

#[test]
fn overdraft_blocks_chat() {
    let agent = make_agent();
    let mut store = Store::new("boss");
    store
        .create_user(&wecom_gpt::store::Guest::new("bob", -500_000_000, false))
        .unwrap();
    let conversations_before = store.conversations.len();

    let (params, body) = make_callback(make_message("bob", "hi").as_str());
    let action = agent.handle_user_request(&mut store, AGENT_ID, &params, body.as_str());
    match action {
        InboundAction::Reply(t) => {
            assert_eq!(t.to_user, "bob");
            assert_eq!(t.text, "账户余额不足。当前余额-0.500");
        }
        _ => panic!("an account in arrears should be refused"),
    }
    assert_eq!(store.conversations.len(), conversations_before);
    assert_eq!(store.get_user("bob").unwrap().credit, -500_000_000);
}

#[test]
fn admin_recharge_adds_credit() {
    let agent = make_agent();
    let mut store = Store::new("boss");
    store
        .create_user(&wecom_gpt::store::Guest::new("alice", 0, false))
        .unwrap();

    let (params, body) = make_callback(make_message("boss", "$$alice 充值 10$$").as_str());
    let action = agent.handle_user_request(&mut store, AGENT_ID, &params, body.as_str());
    match action {
        InboundAction::Reply(t) => {
            assert_eq!(t.to_user, "boss");
            assert_eq!(t.text, "更新成功。当前余额：10");
        }
        _ => panic!("an admin command should be answered"),
    }
    assert_eq!(store.get_user("alice").unwrap().credit, 10_000_000_000);
}

#[test]
fn tampered_message_is_dropped() {
    let agent = make_agent();
    let mut store = Store::new("boss");
    let (mut params, body) = make_callback(make_message("alice", "hello").as_str());
    params.msg_signature = "0000000000000000000000000000000000000000".to_string();
    let action = agent.handle_user_request(&mut store, AGENT_ID, &params, body.as_str());
    assert!(matches!(action, InboundAction::Drop));
    assert!(store.get_user("alice").is_err());
}

#[test]
fn zero_balance_guest_may_chat() {
    let agent = make_agent();
    let mut store = Store::new("boss");
    store
        .create_user(&wecom_gpt::store::Guest::new("carol", 0, false))
        .unwrap();
    let (params, body) = make_callback(make_message("carol", "hello").as_str());
    let action = agent.handle_user_request(&mut store, AGENT_ID, &params, body.as_str());
    assert!(matches!(action, InboundAction::Chat(_)));
}
