//! The records that the panels show: conversation messages, digest excerpts
//! and long-term memory entries.
use vstd::prelude::*;
use vstd::string::StringExecFns;

verus! {

/// Who wrote a piece of text.
#[derive(Clone, Copy, Debug, PartialEq, Eq, Structural)]
pub enum Role {
    User,
    Assistant,
}

/// The tag of a role on the wire and in storage.
pub open spec fn role_name(r: Role) -> Seq<char> {
    match r {
        Role::User => "user"@,
        Role::Assistant => "assistant"@,
    }
}

impl Role {
    /// `user` or `assistant`.
    pub fn as_str(&self) -> (r: &'static str)
        ensures
            r@ == role_name(*self),
    {
        match self {
            Role::User => "user",
            Role::Assistant => "assistant",
        }
    }

    /// The role that a tag names; `None` for any other text.
    pub fn from_name(name: &str) -> (r: Option<Role>)
        ensures
            match r {
                Some(role) => role_name(role) == name@,
                None => name@ != role_name(Role::User) && name@ != role_name(Role::Assistant),
            },
    {
        if crate::text::starts_with(name, "user") && crate::text::starts_with("user", name) {
            proof {
                assert(name@ =~= "user"@);
            }
            Some(Role::User)
        } else if crate::text::starts_with(name, "assistant") && crate::text::starts_with(
            "assistant",
            name,
        ) {
            proof {
                assert(name@ =~= "assistant"@);
            }
            Some(Role::Assistant)
        } else {
            proof {
                if name@ == "user"@ {
                    assert(name@.subrange(0, name@.len() as int) =~= name@);
                }
                if name@ == "assistant"@ {
                    assert(name@.subrange(0, name@.len() as int) =~= name@);
                }
            }
            None
        }
    }
}

/// One message of the active conversation.
pub struct ChatMessage {
    pub role: Role,
    pub content: String,
}

impl ChatMessage {
    /// A message with the given role and text.
    pub fn new(role: Role, content: &str) -> (r: ChatMessage)
        ensures
            r.role == role,
            r.content@ == content@,
    {
        ChatMessage { role, content: String::from_str(content) }
    }

    /// A copy of the message.
    pub fn duplicate(&self) -> (r: ChatMessage)
        ensures
            r.role == self.role,
            r.content@ == self.content@,
    {
        ChatMessage { role: self.role, content: self.content.clone() }
    }
}

/// An excerpt collected into the digest panel.
pub struct DigestItem {
    pub id: String,
    pub content: String,
    pub source: Role,
    pub timestamp: String,
    pub selected: bool,
}

/// An entry of the long-term memory panel.
pub struct LongTermMemoryItem {
    pub id: String,
    pub content: String,
    pub source: Role,
    pub timestamp: String,
    pub selected: bool,
}

} // verus!
