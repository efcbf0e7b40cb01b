use wecom_gpt::roles::{ContentType, MessageRole};
use wecom_gpt::store::{Guest, Store};

#[test]
fn agent_test_init_user() {
    let store = Store::new("administrator");
    assert_eq!(store.get_user("administrator").unwrap().admin, true);
}

#[test]
fn agent_test_user_create() {
    let mut store = Store::new("administrator");

    // Register new users
    let guest = Guest::new("yinguobing", 1_200_000_000, true);
    store
        .create_user(&guest)
        .expect("User registration should succeed");

    // Fetch the users
    let registered_user = store
        .get_user("yinguobing")
        .expect("Existing user should be got without any error");

    assert_eq!(guest, registered_user);
}

#[test]
fn test_user_get_all() {
    let mut store = Store::new("yinguobing");

    // Register new users
    let guest = Guest::new("robin", 1_200_000_000, true);
    store
        .create_user(&guest)
        .expect("User registration should succeed");

    let admin = Guest::new("yinguobing", 0, true);

    // Fetch the users
    let registered_users = store.get_users();

    assert_eq!(vec![admin, guest], registered_users);
}

#[test]
fn agent_test_user_duplicate_register() {
    let mut store = Store::new("administrator");

    // Register new users
    let guest = Guest::new("yinguobing", 1_200_000_000, true);
    store
        .create_user(&guest)
        .expect("User registration should succeed");
    assert!(store.create_user(&guest).is_err());
}

#[test]
fn agent_test_user_invalid_get() {
    let store = Store::new("administrator");
    // Fetch an invalid user
    assert!(store.get_user("NotExisted").is_err());
}

#[test]
fn agent_test_user_update() {
    let mut store = Store::new("administrator");
    let mut guest = Guest::new("yinguobing", 1_200_000_000, true);
    store
        .create_user(&guest)
        .expect("User registration should succeed");
    guest.credit = 2_200_000_000;
    store
        .update_user(&guest)
        .expect("User update should succeed");
    let user = store.get_user("yinguobing").unwrap();
    assert_eq!(guest, user);
}

#[test]
fn agent_test_conversation() {
    let mut store = Store::new("administrator");

    let guest = Guest::new("yinguobing", 1_200_000_000, true);
    store
        .create_user(&guest)
        .expect("User registration should succeed");
    let assistant_id = 10003;

    // Create
    store
        .create_conversation("yinguobing", assistant_id)
        .expect("1st Conversation should be created without error");
    store
        .append_message(
            "yinguobing",
            assistant_id,
            MessageRole::User,
            "message a",
            ContentType::Text,
            180_000_000,
            0,
            0,
        )
        .expect("Conversation should be updated without error");

    store
        .create_conversation("yinguobing", assistant_id)
        .expect("Conversation should be created without error");
    store
        .append_message(
            "yinguobing",
            assistant_id,
            MessageRole::Assistant,
            "message b",
            ContentType::Text,
            810_000_000,
            2,
            5,
        )
        .expect("Conversation should be updated without error");

    // Get active conversation
    let active_conv = store
        .get_conversation("yinguobing", assistant_id)
        .expect("Active conversation should always be ready");

    assert_eq!(active_conv.len(), 1);
    assert_eq!(active_conv[0].content, "message b");
    assert!(matches!(active_conv[0].role, MessageRole::Assistant));
    assert_eq!(active_conv[0].completion_tokens, 5);
}

#[test]
fn test_active_conversation_is_single() {
    let mut store = Store::new("admin");
    let guest = Guest::new("walker", 0, false);
    store.create_user(&guest).unwrap();
    for _ in 0..5 {
        store.create_conversation("walker", 42).unwrap();
    }
    store.create_conversation("walker", 43).unwrap();
    let mut active_for_42 = 0;
    let mut total_for_42 = 0;
    for c in &store.conversations {
        if c.agent_id == 42 && c.guest_name == "walker" {
            total_for_42 += 1;
            if c.active {
                active_for_42 += 1;
            }
        }
    }
    assert_eq!(active_for_42, 1);
    assert_eq!(total_for_42, 5);
}

#[test]
fn test_message_order_kept() {
    let mut store = Store::new("admin");
    store.create_user(&Guest::new("u", 0, false)).unwrap();
    store.create_conversation("u", 1).unwrap();
    for text in ["one", "two", "three"] {
        store
            .append_message(
                "u",
                1,
                MessageRole::User,
                text,
                ContentType::Text,
                0,
                0,
                0,
            )
            .unwrap();
    }
    let msgs = store.get_conversation("u", 1).unwrap();
    assert_eq!(msgs.len(), 3);
    assert_eq!(msgs[0].content, "one");
    assert_eq!(msgs[1].content, "two");
    assert_eq!(msgs[2].content, "three");
    assert!(msgs[0].created_at <= msgs[1].created_at);
    assert!(msgs[1].created_at <= msgs[2].created_at);
}
