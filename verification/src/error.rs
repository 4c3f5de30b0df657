use vstd::prelude::*;

verus! {

/// The error taxonomy of the core.
///
/// Input errors are rejected before any network or storage cost; permission
/// errors are the ordinary outcome of a denied check; conflict errors report
/// a title already claimed; storage errors wrap a failure of the embedded
/// key-value store, and corrupt-record errors a stored key or value that does
/// not decode.
#[derive(Debug, Clone, PartialEq, Eq, Structural)]
pub enum Error {
    /// The message carries no identifiable sender.
    NoSender,
    /// The command was used outside a group or supergroup.
    NotInGroup,
    /// A title may not be empty.
    EmptyTitle,
    /// The title is already claimed by a different user in this chat.
    TitleAlreadyInUse,
    /// The bot holds no administrator role in the chat.
    BotNotAdmin,
    /// The sender holds no administrator role in the chat.
    SenderNotAdmin,
    /// The action is restricted to the chat owner.
    SenderNotOwner,
    /// The bot may not alter this member's privileges.
    NotEditable,
    /// The bot's grant lacks the delegated promotion rights.
    BotCannotPromote,
    /// The bot must itself be an anonymous administrator for this action.
    BotNotAnonymous,
    /// The sender is not anonymous, so there is nothing to undo.
    SenderNotAnonymous,
    /// The sender is already anonymous.
    AlreadyAnonymous,
    /// The sender must register a title before becoming anonymous.
    NoTitleRecord,
    /// The member's status (restricted, left or banned) forbids editing.
    StatusForbidsEdit,
    /// An anonymous sender carries no author signature to resolve.
    AnonymousWithoutSignature,
    /// No stored title matches the anonymous sender's signature.
    UnidentifiedAnonymousSender,
    /// A demote target must be empty or `@username`.
    BadDemoteTarget,
    /// No administrator of the chat has the requested username.
    NoSuchUser,
    /// A platform request failed; the failure was escalated operationally.
    Platform,
    /// The key-value store reported an I/O failure.
    Storage,
    /// A stored key does not follow the key layout.
    BadKey,
    /// A stored value does not decode.
    BadValue,
}

impl Error {
    /// The user-facing wording of the rejection.
    pub fn describe(&self) -> (r: &'static str)
        ensures
            r@ == self.describe_spec(),
    {
        match self {
            Error::NoSender => "Message has no sender",
            Error::NotInGroup => "This command can only be used in group",
            Error::EmptyTitle => "Title cannot be empty",
            Error::TitleAlreadyInUse => "Title already in use",
            Error::BotNotAdmin => "I am not an admin, please contact admin",
            Error::SenderNotAdmin => "You/they are not admin, please contact admin",
            Error::SenderNotOwner => "This function is owner only",
            Error::NotEditable => "Unable to change info (maybe promoted by others?)",
            Error::BotCannotPromote => "Unable to promote others because lack of privilege",
            Error::BotNotAnonymous => "Unable to make others anonymous because lack of privilege",
            Error::SenderNotAnonymous => "Target not anonymous",
            Error::AlreadyAnonymous => "You are already anonymous",
            Error::NoTitleRecord => "Before making anonymous, use /title first to register",
            Error::StatusForbidsEdit => "Unable to edit because of status",
            Error::AnonymousWithoutSignature => "Unable to identify target (no title)",
            Error::UnidentifiedAnonymousSender => "Unable to identify target (no record found)",
            Error::BadDemoteTarget => "format: /demote to demote yourself or /demote @someone if you're owner",
            Error::NoSuchUser => "No such user",
            Error::Platform => "Platform request failed, please retry later",
            Error::Storage => "Storage failure",
            Error::BadKey => "Bad key",
            Error::BadValue => "Bad value",
        }
    }

    /// The wording of each variant, as a sequence of characters.
    pub open spec fn describe_spec(self) -> Seq<char> {
        match self {
            Error::NoSender => "Message has no sender"@,
            Error::NotInGroup => "This command can only be used in group"@,
            Error::EmptyTitle => "Title cannot be empty"@,
            Error::TitleAlreadyInUse => "Title already in use"@,
            Error::BotNotAdmin => "I am not an admin, please contact admin"@,
            Error::SenderNotAdmin => "You/they are not admin, please contact admin"@,
            Error::SenderNotOwner => "This function is owner only"@,
            Error::NotEditable => "Unable to change info (maybe promoted by others?)"@,
            Error::BotCannotPromote => "Unable to promote others because lack of privilege"@,
            Error::BotNotAnonymous => "Unable to make others anonymous because lack of privilege"@,
            Error::SenderNotAnonymous => "Target not anonymous"@,
            Error::AlreadyAnonymous => "You are already anonymous"@,
            Error::NoTitleRecord => "Before making anonymous, use /title first to register"@,
            Error::StatusForbidsEdit => "Unable to edit because of status"@,
            Error::AnonymousWithoutSignature => "Unable to identify target (no title)"@,
            Error::UnidentifiedAnonymousSender => "Unable to identify target (no record found)"@,
            Error::BadDemoteTarget => "format: /demote to demote yourself or /demote @someone if you're owner"@,
            Error::NoSuchUser => "No such user"@,
            Error::Platform => "Platform request failed, please retry later"@,
            Error::Storage => "Storage failure"@,
            Error::BadKey => "Bad key"@,
            Error::BadValue => "Bad value"@,
        }
    }
}

} // verus!
