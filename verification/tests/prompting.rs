use wecom_gpt::assistant::{assemble_prompt, HistMessage};
use wecom_gpt::roles::Role;

fn hist(role: Role, content: &str, tokens: u64) -> HistMessage {
    HistMessage {
        role,
        content: content.to_string(),
        tokens,
    }
}

#[test]
fn context_window_eviction() {
    // max_tokens = 100, reservation = 20, so the budget is 80. History
    // token sizes (oldest to newest) [30, 30, 30] plus a user message of
    // 10: the two newest history messages fit (10 + 30 + 30 = 70), the
    // oldest would push the sum to 100 and is dropped.
    let history = vec![
        hist(Role::User, "oldest", 30),
        hist(Role::Assistant, "middle", 30),
        hist(Role::User, "newest", 30),
    ];
    let prompt = assemble_prompt("be helpful", &history, "question", 10, 100, 20);
    // system + two history messages + the user message
    assert_eq!(prompt.len(), 4);
    assert!(matches!(prompt[0].role, Role::System));
    assert_eq!(prompt[0].content, "be helpful");
    assert_eq!(prompt[1].content, "middle");
    assert_eq!(prompt[2].content, "newest");
    assert!(matches!(prompt[3].role, Role::User));
    assert_eq!(prompt[3].content, "question");
}

#[test]
fn boundary_history_is_included() {
    // Ties are resolved in favor of inclusion: 10 + 30 + 40 = 80 <= 80.
    let history = vec![hist(Role::Assistant, "old", 40), hist(Role::User, "new", 30)];
    let prompt = assemble_prompt("sys", &history, "q", 10, 100, 20);
    assert_eq!(prompt.len(), 4);
    assert_eq!(prompt[1].content, "old");
    assert_eq!(prompt[2].content, "new");
}

#[test]
fn leading_system_message_is_kept() {
    let history = vec![hist(Role::System, "custom system", 5), hist(Role::User, "hi", 5)];
    let prompt = assemble_prompt("default system", &history, "q", 5, 100, 20);
    assert_eq!(prompt.len(), 3);
    assert!(matches!(prompt[0].role, Role::System));
    assert_eq!(prompt[0].content, "custom system");
}

#[test]
fn empty_history_gets_system_and_user() {
    let history: Vec<HistMessage> = vec![];
    let prompt = assemble_prompt("sys", &history, "hello", 10, 100, 20);
    assert_eq!(prompt.len(), 2);
    assert!(matches!(prompt[0].role, Role::System));
    assert_eq!(prompt[0].content, "sys");
    assert!(matches!(prompt[1].role, Role::User));
    assert_eq!(prompt[1].content, "hello");
}

#[test]
fn oversized_user_message_keeps_no_history() {
    // The user message alone exceeds the budget: no history is selected.
    let history = vec![hist(Role::User, "old", 1)];
    let prompt = assemble_prompt("sys", &history, "huge", 200, 100, 20);
    assert_eq!(prompt.len(), 2);
    assert!(matches!(prompt[0].role, Role::System));
    assert!(matches!(prompt[1].role, Role::User));
}

#[test]
fn reassembly_yields_identical_selection() {
    let history = vec![
        hist(Role::User, "a", 25),
        hist(Role::Assistant, "b", 25),
        hist(Role::User, "c", 25),
    ];
    let first = assemble_prompt("sys", &history, "q", 10, 100, 20);
    let second = assemble_prompt("sys", &history, "q", 10, 100, 20);
    assert_eq!(first.len(), second.len());
    for (x, y) in first.iter().zip(second.iter()) {
        assert_eq!(x.content, y.content);
        assert_eq!(x.role.to_id(), y.role.to_id());
    }
}
