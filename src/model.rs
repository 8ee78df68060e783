use vstd::prelude::*;

verus! {

/// Who wrote a message.
#[derive(Clone, Copy, Debug, PartialEq, Eq, Structural)]
pub enum Role {
    User,
    Assistant,
    System,
}

/// The name under which a role is stored and sent.
pub open spec fn role_name(r: Role) -> Seq<char> {
    match r {
        Role::User => "user"@,
        Role::Assistant => "assistant"@,
        Role::System => "system"@,
    }
}

/// The role that a stored name stands for, if any.
pub open spec fn role_of(s: Seq<char>) -> Option<Role> {
    if s == "user"@ {
        Some(Role::User)
    } else if s == "assistant"@ {
        Some(Role::Assistant)
    } else if s == "system"@ {
        Some(Role::System)
    } else {
        None
    }
}

impl Role {
    pub fn as_str(&self) -> (r: &'static str)
        ensures
            r@ == role_name(*self),
    {
        match self {
            Role::User => "user",
            Role::Assistant => "assistant",
            Role::System => "system",
        }
    }

    pub fn parse(s: &str) -> (r: Option<Role>)
        ensures
            r == role_of(s@),
    {
        let t = String::from_str(s);
        let user = String::from_str("user");
        let assistant = String::from_str("assistant");
        let system = String::from_str("system");
        proof {
            reveal_strlit("user");
            reveal_strlit("assistant");
            reveal_strlit("system");
        }
        if t == user {
            Some(Role::User)
        } else if t == assistant {
            Some(Role::Assistant)
        } else if t == system {
            Some(Role::System)
        } else {
            None
        }
    }
}

/// A named, model-bound thread of messages. Times are store times in
/// milliseconds; `updated_at` is the time of the last activity.
#[derive(Debug)]
pub struct Conversation {
    pub id: String,
    pub title: String,
    pub model: String,
    pub created_at: i64,
    pub updated_at: i64,
}

/// One stored message of a conversation.
#[derive(Debug)]
pub struct Message {
    pub id: String,
    pub conversation_id: String,
    pub role: Role,
    pub content: String,
    pub created_at: i64,
}

/// One role/content pair of a completion request or reply.
#[derive(Debug)]
pub struct ChatMessage {
    pub role: String,
    pub content: String,
}

/// A model that the completion service offers.
#[derive(Debug)]
pub struct OllamaModel {
    pub name: String,
    pub modified_at: Option<String>,
    pub size: Option<u64>,
}

/// The body of a chat completion request.
#[derive(Debug)]
pub struct ChatRequest {
    pub model: String,
    pub messages: Vec<ChatMessage>,
    pub stream: bool,
}

/// The body of a chat completion reply.
#[derive(Debug)]
pub struct ChatResponse {
    pub message: Option<ChatMessage>,
    pub done: bool,
}

impl Conversation {
    pub fn duplicate(&self) -> (r: Conversation)
        ensures
            r == *self,
    {
        Conversation {
            id: self.id.clone(),
            title: self.title.clone(),
            model: self.model.clone(),
            created_at: self.created_at,
            updated_at: self.updated_at,
        }
    }
}

impl Message {
    pub fn duplicate(&self) -> (r: Message)
        ensures
            r == *self,
    {
        Message {
            id: self.id.clone(),
            conversation_id: self.conversation_id.clone(),
            role: self.role,
            content: self.content.clone(),
            created_at: self.created_at,
        }
    }
}

} // verus!
