//! Message roles and content kinds, and the conversions between the
//! provider's wire roles and the store's roles.
use vstd::prelude::*;

verus! {

/// Role attached to a message in a stored conversation.
/// `Supplementary` stands for every wire role outside the three the store
/// distinguishes: the provider's `tool` and `function` roles are merged
/// into it on the way in, and replayed to the provider as `assistant`,
/// the lossy but safe default for roles the wire may not accept back.
#[derive(Debug, PartialEq, Eq, Structural, Clone, Copy)]
pub enum MessageRole {
    System,
    User,
    Assistant,
    Supplementary,
}

/// Role of a message on the provider's wire, as the provider defines them.
#[derive(Debug, PartialEq, Eq, Structural, Clone, Copy)]
pub enum Role {
    System,
    User,
    Assistant,
    Tool,
    Function,
}

/// Kind of content a message carries. The core only produces `Text`.
#[derive(Debug, PartialEq, Eq, Structural, Clone, Copy)]
pub enum ContentType {
    Text,
    Image,
    Audio,
    Video,
    File,
}

impl Role {
    /// Numeric identifier under which a wire role is persisted.
    pub fn to_id(&self) -> (id: i32)
        ensures
            id == self.spec_id(),
    {
        match self {
            Role::System => 1,
            Role::User => 2,
            Role::Assistant => 3,
            Role::Tool => 4,
            Role::Function => 5,
        }
    }

    pub open spec fn spec_id(self) -> int {
        match self {
            Role::System => 1,
            Role::User => 2,
            Role::Assistant => 3,
            Role::Tool => 4,
            Role::Function => 5,
        }
    }

    /// Wire role for a numeric identifier; `None` outside 1..=5.
    pub fn from_id(id: i32) -> (r: Option<Role>)
        ensures
            match r {
                Some(role) => role.spec_id() == id,
                None => !(1 <= id <= 5),
            },
    {
        match id {
            1 => Some(Role::System),
            2 => Some(Role::User),
            3 => Some(Role::Assistant),
            4 => Some(Role::Tool),
            5 => Some(Role::Function),
            _ => None,
        }
    }

    /// Name of the role on the provider's wire.
    pub fn as_str(&self) -> (s: &'static str)
        ensures
            s@ == self.spec_name(),
    {
        match self {
            Role::System => "system",
            Role::User => "user",
            Role::Assistant => "assistant",
            Role::Tool => "tool",
            Role::Function => "function",
        }
    }

    pub open spec fn spec_name(self) -> Seq<char> {
        match self {
            Role::System => "system"@,
            Role::User => "user"@,
            Role::Assistant => "assistant"@,
            Role::Tool => "tool"@,
            Role::Function => "function"@,
        }
    }

    /// The store role a wire role maps to.
    pub open spec fn spec_core_role(self) -> MessageRole {
        match self {
            Role::Assistant => MessageRole::Assistant,
            Role::System => MessageRole::System,
            Role::User => MessageRole::User,
            Role::Tool => MessageRole::Supplementary,
            Role::Function => MessageRole::Supplementary,
        }
    }
}

impl MessageRole {
    /// The wire role a store role maps to. `Supplementary` is sent as
    /// `Assistant`, the lossy but safe default.
    pub open spec fn spec_wire_role(self) -> Role {
        match self {
            MessageRole::Assistant => Role::Assistant,
            MessageRole::System => Role::System,
            MessageRole::User => Role::User,
            MessageRole::Supplementary => Role::Assistant,
        }
    }
}

impl From<Role> for MessageRole {
    fn from(value: Role) -> (r: MessageRole) {
        match value {
            Role::Assistant => MessageRole::Assistant,
            Role::System => MessageRole::System,
            Role::User => MessageRole::User,
            Role::Tool => MessageRole::Supplementary,
            Role::Function => MessageRole::Supplementary,
        }
    }
}

impl vstd::std_specs::convert::FromSpecImpl<Role> for MessageRole {
    open spec fn obeys_from_spec() -> bool {
        true
    }

    open spec fn from_spec(value: Role) -> MessageRole {
        value.spec_core_role()
    }
}

impl From<MessageRole> for Role {
    fn from(value: MessageRole) -> (r: Role) {
        match value {
            MessageRole::Assistant => Role::Assistant,
            MessageRole::System => Role::System,
            MessageRole::User => Role::User,
            MessageRole::Supplementary => Role::Assistant,
        }
    }
}

impl vstd::std_specs::convert::FromSpecImpl<MessageRole> for Role {
    open spec fn obeys_from_spec() -> bool {
        true
    }

    open spec fn from_spec(value: MessageRole) -> Role {
        value.spec_wire_role()
    }
}

impl ContentType {
    /// Numeric identifier under which a content kind is persisted.
    pub fn to_id(&self) -> (id: i32)
        ensures
            id == self.spec_id(),
    {
        match self {
            ContentType::Text => 1,
            ContentType::Image => 2,
            ContentType::Audio => 3,
            ContentType::Video => 4,
            ContentType::File => 5,
        }
    }

    pub open spec fn spec_id(self) -> int {
        match self {
            ContentType::Text => 1,
            ContentType::Image => 2,
            ContentType::Audio => 3,
            ContentType::Video => 4,
            ContentType::File => 5,
        }
    }
}

} // verus!
