use base64::Engine;
use wecom_gpt::accountant::{AccountantCfg, Error};
use wecom_gpt::assistant::AssistantCfg;
use wecom_gpt::provider::ProviderCfg;
use wecom_gpt::reception::{Agent, Config, WecomCfg};
use wecom_gpt::store::{Guest, Store};

fn b64(bytes: &[u8]) -> String {
    base64::engine::general_purpose::STANDARD.encode(bytes)
}

fn make_agent() -> Agent {
    let config = Config {
        wecom: WecomCfg {
            corp_id: "corp".to_string(),
        },
        providers: vec![ProviderCfg {
            id: 1,
            name: "p".to_string(),
            endpoint: "https://provider.example/chat".to_string(),
            api_key: "SECRET-REDACTED".to_string(),
            max_tokens: 1000,
            prompt_token_price: 60_000,
            completion_token_price: 120_000,
        }],
        assistants: vec![AssistantCfg {
            agent_id: 7,
            name: "helper".to_string(),
            token: "T".to_string(),
            key: b64(&[9u8; 32]),
            secret: "SECRET-REDACTED".to_string(),
            prompt: "sys".to_string(),
            provider_id: 1,
            context_tokens_reservation: 100,
        }],
        accountant: AccountantCfg {
            agent_id: 99,
            token: "AT".to_string(),
            key: b64(&[8u8; 32]),
        },
        storage_path: ":memory:".to_string(),
        admin_account: "boss".to_string(),
    };
    Agent::new(&config).ok().unwrap()
}

#[test]
fn recharge_adds_exactly_the_amount() {
    let agent = make_agent();
    let mut store = Store::new("boss");
    store.create_user(&Guest::new("小白", 1_000_000_000, false)).unwrap();
    let reply = agent.recharge(&mut store, "小白", "3.5");
    assert_eq!(reply, "更新成功。当前余额：4.5");
    assert_eq!(store.get_user("小白").unwrap().credit, 4_500_000_000);
}

#[test]
fn recharge_rejects_bad_amount() {
    let agent = make_agent();
    let mut store = Store::new("boss");
    let reply = agent.recharge(&mut store, "boss", "ten");
    assert_eq!(reply, "用户余额解析出错");
    assert_eq!(store.get_user("boss").unwrap().credit, 0);
}

#[test]
fn recharge_rejects_unknown_guest() {
    let agent = make_agent();
    let mut store = Store::new("boss");
    let reply = agent.recharge(&mut store, "nobody", "1");
    assert_eq!(reply, "无法找到用户。账户不存在");
}

#[test]
fn set_admin_flag() {
    let agent = make_agent();
    let mut store = Store::new("boss");
    store.create_user(&Guest::new("carol", 0, false)).unwrap();
    let reply = agent.set_admin(&mut store, "carol", "true");
    assert_eq!(reply, "更新成功。carol已成为管理员");
    assert!(store.get_user("carol").unwrap().admin);
    let reply = agent.set_admin(&mut store, "carol", "false");
    assert_eq!(reply, "更新成功。carol不再是管理员");
    assert!(!store.get_user("carol").unwrap().admin);
    let reply = agent.set_admin(&mut store, "carol", "yes");
    assert_eq!(reply, "管理员属性解析出错。");
}

#[test]
fn list_guests_shows_everyone() {
    let agent = make_agent();
    let mut store = Store::new("boss");
    store.create_user(&Guest::new("alice", 3_500_000_000, false)).unwrap();
    let listing = agent.list_guests(&store);
    assert_eq!(listing, "boss 0 truealice 3.5 false");
}

#[test]
fn instruction_dispatch() {
    let agent = make_agent();
    let mut store = Store::new("boss");
    store.create_user(&Guest::new("alice", 0, false)).unwrap();
    let boss = store.get_user("boss").unwrap();
    let alice = store.get_user("alice").unwrap();

    // Admin command from the admin.
    let reply = agent.handle_instruction_msg(&mut store, &boss, 7, "$$alice 充值 10$$");
    assert_eq!(reply, "更新成功。当前余额：10");
    assert_eq!(store.get_user("alice").unwrap().credit, 10_000_000_000);

    // Unknown admin command.
    let reply = agent.handle_instruction_msg(&mut store, &boss, 7, "$$alice 转账 10$$");
    assert_eq!(reply, "未知指令");

    // A user's balance question.
    let alice = store.get_user("alice").unwrap();
    let reply = agent.handle_instruction_msg(&mut store, &alice, 7, "#查余额");
    assert_eq!(reply, "当前余额：10.000");

    // A fresh conversation.
    let reply = agent.handle_instruction_msg(&mut store, &alice, 7, "#新会话");
    assert_eq!(reply, "新会话创建成功。您可以开始对话了。");
    assert!(store.get_conversation("alice", 7).unwrap().is_empty());

    // The usage question on the fresh conversation.
    let reply = agent.handle_instruction_msg(&mut store, &alice, 7, "#查消耗");
    assert_eq!(
        reply,
        "当前会话长度为 0。累计消耗prompt token 0个，completion token 0个，费用0.000。"
    );

    // Anything else with the prefix is unsupported.
    let reply = agent.handle_instruction_msg(&mut store, &alice, 7, "#帮助");
    assert_eq!(reply, "抱歉，暂不支持当前指令。");
    let _ = alice;
}

#[test]
fn verify_guest_errors() {
    let agent = make_agent();
    let mut store = Store::new("boss");
    store.create_user(&Guest::new("debtor", -1, false)).unwrap();
    match agent.accountant.verify_guest(&store, "debtor") {
        Err(Error::Overdue(c)) => assert_eq!(c, -1),
        _ => panic!("a guest in arrears should be overdue"),
    }
    match agent.accountant.verify_guest(&store, "ghost") {
        Err(Error::NotFound) => {}
        _ => panic!("an unknown guest should be not found"),
    }
    assert!(agent.accountant.verify_guest(&store, "boss").is_err()); // zero balance is overdue
}

#[test]
fn audit_reports_usage() {
    let agent = make_agent();
    let mut store = Store::new("boss");
    store.create_user(&Guest::new("dave", 1_000_000_000, false)).unwrap();
    let entry = &agent.assistants[0];
    entry.assistant.chat_begin(&mut store, "dave").unwrap();
    let response = wecom_gpt::provider::ProviderResponse {
        usage: wecom_gpt::provider::Usage {
            prompt_tokens: 5,
            completion_tokens: 7,
            total_tokens: 12,
        },
        choices: vec![wecom_gpt::provider::ChatMessage::new(
            wecom_gpt::roles::Role::Assistant,
            "hi",
        )],
    };
    entry
        .assistant
        .chat_commit(&mut store, "dave", "hello", Ok(response))
        .unwrap();
    let line = entry.assistant.audit(&mut store, "dave");
    assert_eq!(
        line,
        "当前会话长度为 12。累计消耗prompt token 5个，completion token 7个，费用0.001。"
    );
}
