//! Role snapshots: the closed set of membership kinds a chat member can
//! hold, with the capability flags the permission rules read, and the plain
//! shapes of users, members and chats that the core decides over. The
//! surrounding binary translates the platform's own types into these.

use vstd::prelude::*;

verus! {

/// The capability flags of an administrator grant that the rules consult.
#[derive(Debug, Clone, Copy, PartialEq, Eq, Structural)]
pub struct AdminRights {
    /// Whether this bot may edit the member's privileges.
    pub can_be_edited: bool,
    /// Whether the grant delegates promoting other members.
    pub can_promote_members: bool,
    /// Whether the grant delegates inviting users.
    pub can_invite_users: bool,
    /// Whether the administrator acts anonymously.
    pub is_anonymous: bool,
}

/// One member's role in one chat.
#[derive(Debug, Clone, Copy, PartialEq, Eq, Structural)]
pub enum MemberKind {
    /// The chat's owner.
    Owner,
    /// An administrator, with its capability flags.
    Administrator(AdminRights),
    /// An ordinary member.
    Member,
    /// A member under restrictions.
    Restricted,
    /// Someone who left the chat.
    Left,
    /// Someone banned from the chat.
    Banned,
}

/// The word shown for each membership kind.
pub open spec fn kind_str(kind: MemberKind) -> Seq<char> {
    match kind {
        MemberKind::Owner => "owner"@,
        MemberKind::Administrator(_) => "admin"@,
        MemberKind::Member => "member"@,
        MemberKind::Restricted => "restricted"@,
        MemberKind::Left => "left"@,
        MemberKind::Banned => "banned"@,
    }
}

/// The word shown for a membership kind in user-facing rejections.
pub fn chat_member_kind_to_str(kind: &MemberKind) -> (r: &'static str)
    ensures
        r@ == kind_str(*kind),
{
    match kind {
        MemberKind::Owner => "owner",
        MemberKind::Administrator(_) => "admin",
        MemberKind::Member => "member",
        MemberKind::Restricted => "restricted",
        MemberKind::Left => "left",
        MemberKind::Banned => "banned",
    }
}

/// The identity of a platform user, as far as the core reads it.
#[derive(Debug, Clone, PartialEq, Eq)]
pub struct User {
    pub id: u64,
    pub first_name: String,
    pub username: Option<String>,
}

impl User {
    /// A copy with the same fields, usable in contracts.
    pub fn duplicate(&self) -> (r: User)
        ensures
            r == *self,
    {
        User {
            id: self.id,
            first_name: self.first_name.clone(),
            username: match &self.username {
                Some(s) => Some(s.clone()),
                None => None,
            },
        }
    }
}

/// One user's membership in one chat.
#[derive(Debug, Clone, PartialEq, Eq)]
pub struct ChatMember {
    pub user: User,
    pub kind: MemberKind,
}

impl ChatMember {
    /// A copy with the same fields, usable in contracts.
    pub fn duplicate(&self) -> (r: ChatMember)
        ensures
            r == *self,
    {
        ChatMember { user: self.user.duplicate(), kind: self.kind }
    }
}

/// What kind of chat a command arrived in.
#[derive(Debug, Clone, Copy, PartialEq, Eq, Structural)]
pub enum ChatKind {
    Group,
    Supergroup,
    Channel,
    Private,
}

/// Privilege changes are meaningful only in multi-user groups.
pub open spec fn is_group_chat(kind: ChatKind) -> bool {
    kind == ChatKind::Group || kind == ChatKind::Supergroup
}

/// The parts of an inbound message that the core reads.
#[derive(Debug, Clone, PartialEq, Eq)]
pub struct Message {
    /// The message's own id, for delayed deletion of the command.
    pub id: i32,
    /// The chat the command arrived in.
    pub chat_id: i64,
    /// What kind of chat that is.
    pub chat_kind: ChatKind,
    /// The claimed sender, absent for fully anonymized system messages.
    pub from: Option<User>,
    /// The author signature shown for anonymous administrators.
    pub author_signature: Option<String>,
}

} // verus!
