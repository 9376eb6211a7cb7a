//! The closed role model: a turn is attributed to the system, the
//! user, or the assistant, and nothing else.

use vstd::prelude::*;
use crate::errors::ChatError;
use crate::text::str_eq;

verus! {

/// Who a turn of the conversation is attributed to.
#[derive(Debug, Clone, Copy, PartialEq, Eq, Structural)]
pub enum Role {
    System,
    User,
    Assistant,
}

/// The canonical wire name of each role.
pub open spec fn role_name(r: Role) -> Seq<char> {
    match r {
        Role::System => "system"@,
        Role::User => "user"@,
        Role::Assistant => "assistant"@,
    }
}

/// Whether the text is one of the three canonical role names.
pub open spec fn is_role_name(s: Seq<char>) -> bool {
    s == role_name(Role::System) || s == role_name(Role::User) || s == role_name(Role::Assistant)
}

impl Role {
    /// The canonical wire name of this role.
    pub fn as_str(&self) -> (r: &'static str)
        ensures
            r@ == role_name(*self),
    {
        match self {
            Role::System => "system",
            Role::User => "user",
            Role::Assistant => "assistant",
        }
    }

    /// Parses a role name. Exactly the three canonical names are
    /// accepted; any other string, the empty string and case variants
    /// included, is rejected.
    pub fn from_str(s: &str) -> (r: Result<Role, ChatError>)
        ensures
            r is Ok <==> is_role_name(s@),
            r is Ok ==> role_name(r->Ok_0) == s@,
            r is Err ==> r->Err_0 is InvalidRole,
    {
        if str_eq(s, "system") {
            Ok(Role::System)
        } else if str_eq(s, "user") {
            Ok(Role::User)
        } else if str_eq(s, "assistant") {
            Ok(Role::Assistant)
        } else {
            Err(ChatError::InvalidRole)
        }
    }
}

/// The three canonical role names denote three distinct roles.
pub proof fn lemma_role_names_distinct()
    ensures
        role_name(Role::System) != role_name(Role::User),
        role_name(Role::System) != role_name(Role::Assistant),
        role_name(Role::User) != role_name(Role::Assistant),
{
    reveal_strlit("system");
    reveal_strlit("user");
    reveal_strlit("assistant");
    assert(role_name(Role::System).len() != role_name(Role::User).len());
    assert(role_name(Role::System)[0] != role_name(Role::Assistant)[0]);
    assert(role_name(Role::User).len() != role_name(Role::Assistant).len());
}

} // verus!
