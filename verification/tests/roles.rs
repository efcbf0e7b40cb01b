use std::iter::zip;
use wecom_gpt::roles::{MessageRole, Role};

#[test]
fn test_role_to_core_role() {
    let roles = [
        Role::System,
        Role::User,
        Role::Assistant,
        Role::Function,
        Role::Tool,
    ];

    let core_roles = [
        MessageRole::System,
        MessageRole::User,
        MessageRole::Assistant,
        MessageRole::Supplementary,
        MessageRole::Supplementary,
    ];

    for (a, b) in zip(roles, core_roles) {
        assert_eq!(b, MessageRole::from(a));
    }
}

#[test]
fn test_role_from_core_role() {
    let roles = [Role::System, Role::User, Role::Assistant, Role::Assistant];

    let core_roles = [
        MessageRole::System,
        MessageRole::User,
        MessageRole::Assistant,
        MessageRole::Supplementary,
    ];

    for (a, b) in zip(roles, core_roles) {
        assert_eq!(a, Role::from(b));
    }
}

#[test]
fn test_role_ids_round_trip() {
    for role in [
        Role::System,
        Role::User,
        Role::Assistant,
        Role::Tool,
        Role::Function,
    ] {
        let id = role.to_id();
        assert_eq!(Role::from_id(id), Some(role));
    }
    assert_eq!(Role::from_id(0), None);
    assert_eq!(Role::from_id(6), None);
}

#[test]
fn test_role_names() {
    assert_eq!(Role::System.as_str(), "system");
    assert_eq!(Role::User.as_str(), "user");
    assert_eq!(Role::Assistant.as_str(), "assistant");
    assert_eq!(Role::Tool.as_str(), "tool");
    assert_eq!(Role::Function.as_str(), "function");
}
