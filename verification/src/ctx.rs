//! The context of one inbound command, and the permission rules that gate
//! privilege changes.
//!
//! A context starts unresolved ([`Ctx`]): only the message's own data is
//! known, and only checks that need no role data may run. Fetching the role
//! snapshots of the bot and of the sender — a network step the surrounding
//! binary performs — turns it into a [`LoadedCtx`], on which every
//! permission rule is a pure, total function: each snapshot combination is
//! accepted or rejected with a specific reason, never passed over silently.
//!
//! Platform mutations (promoting, demoting, setting a custom title) are
//! network calls the binary issues; the methods here decide whether and on
//! whom, and the contracts pin those decisions down.

use vstd::prelude::*;
use crate::codec::{lemma_u64_be_injective, u64_be};
use crate::error::Error;
use crate::keys::{chat_key, title_key};
use crate::role::{ChatKind, ChatMember, MemberKind, Message, User, is_group_chat};
use crate::store::{
    TitleRecord, TitleStore, corrupt_forward, corrupt_reverse, spec_nuke_clear,
    spec_remove_by_title, spec_remove_by_user, stored_title, stored_user, title_conflict,
    lists_whole_chat,
};

verus! {

/// The bot may hold an administrator role at all.
pub open spec fn bot_is_admin(k: MemberKind) -> bool {
    k is Owner || k is Administrator
}

/// The bot's grant delegates promotion: an administrator with both
/// `can_promote_members` and `can_invite_users`.
pub open spec fn bot_can_promote(k: MemberKind) -> bool {
    k matches MemberKind::Administrator(a) && a.can_promote_members && a.can_invite_users
}

/// The bot may grant anonymity: an anonymous administrator that can promote.
pub open spec fn bot_can_anonymize(k: MemberKind) -> bool {
    k matches MemberKind::Administrator(a) && a.can_promote_members && a.is_anonymous
}

/// The sender counts as an administrator: owner, administrator, or a
/// principal resolved from the anonymous-admin alias.
pub open spec fn sender_is_admin(k: MemberKind, resolved_anonymous: bool) -> bool {
    k is Owner || k is Administrator || resolved_anonymous
}

/// The bot may alter the sender's privileges: the bot owns the chat, or the
/// bot is an administrator and the sender is a plain member or an
/// administrator whose grant this bot may edit.
pub open spec fn editable(bot: MemberKind, sender: MemberKind) -> bool {
    ||| bot is Owner
    ||| (bot is Administrator && (sender is Member || (sender
        matches MemberKind::Administrator(a) && a.can_be_edited)))
}

/// The role snapshots of one command: the bot's and the sender's membership
/// in the chat, fetched together and immutable once captured.
#[derive(Debug, Clone, PartialEq, Eq)]
pub struct Loaded {
    pub me: ChatMember,
    pub sender: ChatMember,
}

impl Loaded {
    /// Pair the two snapshots.
    pub fn new(me: ChatMember, sender: ChatMember) -> (r: Loaded)
        ensures
            r.me == me,
            r.sender == sender,
    {
        Loaded { me, sender }
    }

    /// Replace the bot's snapshot, handing the old one back.
    pub fn swap_bot(&mut self, bot: ChatMember) -> (r: ChatMember)
        ensures
            final(self).me == bot,
            final(self).sender == old(self).sender,
            r == old(self).me,
    {
        let mut b = bot;
        core::mem::swap(&mut self.me, &mut b);
        b
    }

    /// Replace the sender's snapshot, handing the old one back.
    pub fn swap_sender(&mut self, sender: ChatMember) -> (r: ChatMember)
        ensures
            final(self).sender == sender,
            final(self).me == old(self).me,
            r == old(self).sender,
    {
        let mut s = sender;
        core::mem::swap(&mut self.sender, &mut s);
        s
    }
}

/// The unresolved context of one inbound command: what the message itself
/// carries, before any role snapshot is fetched.
#[derive(Debug, Clone, PartialEq, Eq)]
pub struct Ctx {
    pub chat_id: i64,
    pub chat_kind: ChatKind,
    pub msg_id: i32,
    pub author_signature: Option<String>,
    pub sender: User,
    pub is_anonymous: bool,
}

impl Ctx {
    /// Open a context for one command. Rejected before any network cost when
    /// the message carries no identifiable sender.
    pub fn new(msg: Message) -> (r: Result<Ctx, Error>)
        ensures
            r matches Ok(c) ==> msg.from matches Some(u) && c.sender == u && c.chat_id
                == msg.chat_id && c.chat_kind == msg.chat_kind && c.msg_id == msg.id
                && c.author_signature == msg.author_signature && !c.is_anonymous,
            r matches Err(e) ==> e == Error::NoSender && msg.from is None,
    {
        match msg.from {
            None => Err(Error::NoSender),
            Some(sender) => Ok(
                Ctx {
                    chat_id: msg.chat_id,
                    chat_kind: msg.chat_kind,
                    msg_id: msg.id,
                    author_signature: msg.author_signature,
                    sender,
                    is_anonymous: false,
                },
            ),
        }
    }

    /// The chat this command belongs to.
    pub fn chat_id(&self) -> (r: i64)
        ensures
            r == self.chat_id,
    {
        self.chat_id
    }

    /// The claimed sender.
    pub fn sender(&self) -> (r: &User)
        ensures
            r == &self.sender,
    {
        &self.sender
    }

    /// The claimed sender's id.
    pub fn sender_id(&self) -> (r: u64)
        ensures
            r == self.sender.id,
    {
        self.sender.id
    }

    /// Whether the sender was recognised as the anonymous-admin alias.
    pub fn is_anonymous(&self) -> (r: bool)
        ensures
            r == self.is_anonymous,
    {
        self.is_anonymous
    }

    /// Pure guard, no network cost: the command must come from a group or
    /// supergroup.
    pub fn assert_in_group(&self) -> (r: Result<(), Error>)
        ensures
            r is Ok <==> is_group_chat(self.chat_kind),
            r matches Err(e) ==> e == Error::NotInGroup,
    {
        match self.chat_kind {
            ChatKind::Group => Ok(()),
            ChatKind::Supergroup => Ok(()),
            _ => Err(Error::NotInGroup),
        }
    }

    /// Resolve the context with the two snapshots the binary fetched: the
    /// bot's and the sender's membership in this chat.
    pub fn upgrade(self, me: ChatMember, sender: ChatMember) -> (r: LoadedCtx)
        ensures
            r.chat_id == self.chat_id,
            r.chat_kind == self.chat_kind,
            r.msg_id == self.msg_id,
            r.author_signature == self.author_signature,
            r.sender == sender.user,
            !r.is_anonymous,
            r.conversation.me == me,
            r.conversation.sender == sender,
    {
        LoadedCtx {
            chat_id: self.chat_id,
            chat_kind: self.chat_kind,
            msg_id: self.msg_id,
            author_signature: self.author_signature,
            sender: sender.user.duplicate(),
            is_anonymous: false,
            conversation: Loaded::new(me, sender),
        }
    }
}

/// What preparing a privilege edit found: the target can be edited as it
/// stands, or must first be promoted (and the promotion left to settle).
#[derive(Debug, Clone, Copy, PartialEq, Eq, Structural)]
pub enum EditPrep {
    /// The target already holds an editable administrator grant.
    Ready,
    /// The target is a plain member: issue exactly one promotion, wait for
    /// it to settle, then proceed.
    NeedsPromotion,
}

/// The resolved context: the unresolved data plus both role snapshots.
#[derive(Debug, Clone, PartialEq, Eq)]
pub struct LoadedCtx {
    pub chat_id: i64,
    pub chat_kind: ChatKind,
    pub msg_id: i32,
    pub author_signature: Option<String>,
    pub sender: User,
    pub is_anonymous: bool,
    pub conversation: Loaded,
}

/// The sender's displayed first name matches the platform's anonymous-admin
/// sentinel. Kept as the single predicate deciding anonymity detection.
pub open spec fn is_anonymous_alias(c: LoadedCtx) -> bool {
    c.conversation.sender.user.first_name@ == "Group"@
}

impl LoadedCtx {
    /// The bot's membership in this chat.
    pub fn me_in_chat(&self) -> (r: &ChatMember)
        ensures
            r == &self.conversation.me,
    {
        &self.conversation.me
    }

    /// The sender's membership in this chat.
    pub fn sender_in_chat(&self) -> (r: &ChatMember)
        ensures
            r == &self.conversation.sender,
    {
        &self.conversation.sender
    }

    /// The claimed sender's id.
    pub fn sender_id(&self) -> (r: u64)
        ensures
            r == self.sender.id,
    {
        self.sender.id
    }

    /// Whether the sender was recognised as the anonymous-admin alias.
    pub fn is_anonymous(&self) -> (r: bool)
        ensures
            r == self.is_anonymous,
    {
        self.is_anonymous
    }

    /// Pure guard, no network cost: the command must come from a group or
    /// supergroup.
    pub fn assert_in_group(&self) -> (r: Result<(), Error>)
        ensures
            r is Ok <==> is_group_chat(self.chat_kind),
            r matches Err(e) ==> e == Error::NotInGroup,
    {
        match self.chat_kind {
            ChatKind::Group => Ok(()),
            ChatKind::Supergroup => Ok(()),
            _ => Err(Error::NotInGroup),
        }
    }

    /// A derived context acting on `target` instead: same chat, same bot
    /// snapshot, the principal's snapshot substituted. Used only after an
    /// owner-level check authorised acting on a third party.
    pub fn with_sender(&self, target: ChatMember) -> (r: LoadedCtx)
        ensures
            r.chat_id == self.chat_id,
            r.chat_kind == self.chat_kind,
            r.msg_id == self.msg_id,
            r.author_signature == self.author_signature,
            r.sender == target.user,
            r.is_anonymous == self.is_anonymous,
            r.conversation.me == self.conversation.me,
            r.conversation.sender == target,
    {
        LoadedCtx {
            chat_id: self.chat_id,
            chat_kind: self.chat_kind,
            msg_id: self.msg_id,
            author_signature: match &self.author_signature {
                Some(s) => Some(s.clone()),
                None => None,
            },
            sender: target.user.duplicate(),
            is_anonymous: self.is_anonymous,
            conversation: Loaded { me: self.conversation.me.duplicate(), sender: target },
        }
    }

    /// If the sender is the anonymous-admin alias, find who really acts:
    /// the message's author signature is looked up as a title in this chat.
    /// `Ok(None)` means the sender is not anonymous and nothing is to do;
    /// `Ok(Some(record))` names the real identity for the binary to fetch
    /// and [`adopt_real_sender`](Self::adopt_real_sender).
    pub fn anonymous_lookup(&self, store: &TitleStore) -> (r: Result<Option<TitleRecord>, Error>)
        ensures
            !is_anonymous_alias(*self) ==> r == Ok::<Option<TitleRecord>, Error>(None),
            r matches Ok(v) && v is None ==> !is_anonymous_alias(*self),
            r matches Ok(Some(rec)) ==> (self.author_signature matches Some(sig)
                && is_anonymous_alias(*self) && rec.chat_id == self.chat_id && rec.title@ == sig@
                && stored_user(store@, self.chat_id as int, sig@) == Some(rec.user_id)),
            r == Err::<Option<TitleRecord>, Error>(Error::AnonymousWithoutSignature) <==> (
            is_anonymous_alias(*self) && self.author_signature is None),
            r == Err::<Option<TitleRecord>, Error>(Error::UnidentifiedAnonymousSender) ==> (
            self.author_signature matches Some(sig) && is_anonymous_alias(*self)
                && !store@.contains_key(title_key(self.chat_id as int, sig@))),
            r == Err::<Option<TitleRecord>, Error>(Error::BadValue) ==> (self.author_signature
                matches Some(sig) && is_anonymous_alias(*self) && corrupt_reverse(
                store@,
                self.chat_id as int,
                sig@,
            )),
            r matches Err(e) ==> e == Error::AnonymousWithoutSignature
                || e == Error::UnidentifiedAnonymousSender || e == Error::Storage || e
                == Error::BadValue,
    {
        let sentinel: String = "Group".to_owned();
        if !(self.conversation.sender.user.first_name == sentinel) {
            return Ok(None);
        }
        match &self.author_signature {
            None => Err(Error::AnonymousWithoutSignature),
            Some(sig) => match TitleRecord::get_with_title(store, self.chat_id, sig.as_str())? {
                None => Err(Error::UnidentifiedAnonymousSender),
                Some(rec) => Ok(Some(rec)),
            },
        }
    }

    /// Adopt the real identity found behind the anonymous alias: the
    /// sender's snapshot is replaced and the anonymity flag set. Must run
    /// before any permission check that depends on identity.
    pub fn adopt_real_sender(&mut self, member: ChatMember)
        ensures
            final(self).sender == member.user,
            final(self).conversation.sender == member,
            final(self).is_anonymous,
            final(self).conversation.me == old(self).conversation.me,
            final(self).chat_id == old(self).chat_id,
            final(self).chat_kind == old(self).chat_kind,
            final(self).msg_id == old(self).msg_id,
            final(self).author_signature == old(self).author_signature,
    {
        self.sender = member.user.duplicate();
        self.conversation.sender = member;
        self.is_anonymous = true;
    }

    /// The bot must hold an administrator role.
    pub fn assert_bot_admin(&self) -> (r: Result<(), Error>)
        ensures
            r is Ok <==> bot_is_admin(self.conversation.me.kind),
            r matches Err(e) ==> e == Error::BotNotAdmin,
    {
        match self.conversation.me.kind {
            MemberKind::Owner => Ok(()),
            MemberKind::Administrator(_) => Ok(()),
            _ => Err(Error::BotNotAdmin),
        }
    }

    /// The sender must count as an administrator: owner, administrator, or
    /// resolved from the anonymous-admin alias.
    pub fn assert_sender_admin(&self) -> (r: Result<(), Error>)
        ensures
            r is Ok <==> sender_is_admin(self.conversation.sender.kind, self.is_anonymous),
            r matches Err(e) ==> e == Error::SenderNotAdmin,
    {
        if self.is_anonymous {
            return Ok(());
        }
        match self.conversation.sender.kind {
            MemberKind::Owner => Ok(()),
            MemberKind::Administrator(_) => Ok(()),
            _ => Err(Error::SenderNotAdmin),
        }
    }

    /// Owner-only actions: the sender must own the chat.
    pub fn assert_sender_owner(&self) -> (r: Result<(), Error>)
        ensures
            r is Ok <==> self.conversation.sender.kind is Owner,
            r matches Err(e) ==> e == Error::SenderNotOwner,
    {
        match self.conversation.sender.kind {
            MemberKind::Owner => Ok(()),
            _ => Err(Error::SenderNotOwner),
        }
    }

    /// The bot must be able to alter the sender's privileges; each denial
    /// names its reason.
    pub fn assert_editable(&self) -> (r: Result<(), Error>)
        ensures
            r is Ok <==> editable(self.conversation.me.kind, self.conversation.sender.kind),
            r == Err::<(), Error>(Error::NotEditable) <==> (self.conversation.sender.kind
                matches MemberKind::Administrator(a) && !a.can_be_edited
                && self.conversation.me.kind is Administrator),
            r == Err::<(), Error>(Error::StatusForbidsEdit) <==> (self.conversation.me.kind
                is Administrator && !(self.conversation.sender.kind is Administrator) && !(
            self.conversation.sender.kind is Member)),
            r == Err::<(), Error>(Error::BotNotAdmin) <==> !bot_is_admin(self.conversation.me.kind),
    {
        match self.conversation.me.kind {
            MemberKind::Owner => Ok(()),
            MemberKind::Administrator(_) => match self.conversation.sender.kind {
                MemberKind::Administrator(a) => {
                    if a.can_be_edited {
                        Ok(())
                    } else {
                        Err(Error::NotEditable)
                    }
                },
                MemberKind::Member => Ok(()),
                _ => Err(Error::StatusForbidsEdit),
            },
            _ => Err(Error::BotNotAdmin),
        }
    }

    /// The bot's grant must delegate promotion.
    pub fn assert_bot_promotable(&self) -> (r: Result<(), Error>)
        ensures
            r is Ok <==> bot_can_promote(self.conversation.me.kind),
            r matches Err(e) ==> e == Error::BotCannotPromote,
    {
        match self.conversation.me.kind {
            MemberKind::Administrator(a) => {
                if a.can_promote_members && a.can_invite_users {
                    Ok(())
                } else {
                    Err(Error::BotCannotPromote)
                }
            },
            _ => Err(Error::BotCannotPromote),
        }
    }

    /// The bot must itself be an anonymous administrator that can promote,
    /// to grant anonymity to others.
    pub fn assert_bot_anonymous(&self) -> (r: Result<(), Error>)
        ensures
            r is Ok <==> bot_can_anonymize(self.conversation.me.kind),
            r matches Err(e) ==> e == Error::BotNotAnonymous,
    {
        match self.conversation.me.kind {
            MemberKind::Administrator(a) => {
                if a.can_promote_members && a.is_anonymous {
                    Ok(())
                } else {
                    Err(Error::BotNotAnonymous)
                }
            },
            _ => Err(Error::BotNotAnonymous),
        }
    }

    /// The sender must have been resolved from the anonymous-admin alias.
    pub fn assert_sender_anonymous(&self) -> (r: Result<(), Error>)
        ensures
            r is Ok <==> self.is_anonymous,
            r matches Err(e) ==> e == Error::SenderNotAnonymous,
    {
        if self.is_anonymous {
            Ok(())
        } else {
            Err(Error::SenderNotAnonymous)
        }
    }

    /// Prepare a privilege edit of the sender. An administrator must be
    /// editable by this bot; a plain member needs exactly one promotion
    /// (which the binary issues, then waits out the platform's propagation
    /// lag); any other status is rejected outright.
    pub fn prep_edit(&self) -> (r: Result<EditPrep, Error>)
        ensures
            r == Ok::<EditPrep, Error>(EditPrep::Ready) <==> (self.conversation.sender.kind
                is Administrator && editable(
                self.conversation.me.kind,
                self.conversation.sender.kind,
            )),
            r == Ok::<EditPrep, Error>(EditPrep::NeedsPromotion) <==> (
            self.conversation.sender.kind is Member && bot_can_promote(self.conversation.me.kind)),
            r == Err::<EditPrep, Error>(Error::NotEditable) <==> (self.conversation.sender.kind
                matches MemberKind::Administrator(a) && !a.can_be_edited
                && self.conversation.me.kind is Administrator),
            r == Err::<EditPrep, Error>(Error::BotNotAdmin) <==> (self.conversation.sender.kind
                is Administrator && !bot_is_admin(self.conversation.me.kind)),
            r == Err::<EditPrep, Error>(Error::BotCannotPromote) <==> (
            self.conversation.sender.kind is Member && !bot_can_promote(
                self.conversation.me.kind,
            )),
            r == Err::<EditPrep, Error>(Error::StatusForbidsEdit) <==> (!(
            self.conversation.sender.kind is Administrator) && !(self.conversation.sender.kind
                is Member)),
    {
        match self.conversation.sender.kind {
            MemberKind::Administrator(_) => match self.assert_editable() {
                Ok(()) => Ok(EditPrep::Ready),
                Err(e) => Err(e),
            },
            MemberKind::Member => match self.assert_bot_promotable() {
                Ok(()) => Ok(EditPrep::NeedsPromotion),
                Err(e) => Err(e),
            },
            _ => Err(Error::StatusForbidsEdit),
        }
    }

    /// Undo the sender's anonymity: allowed only for a sender that was
    /// resolved from the anonymous alias, and names whom the binary must
    /// re-promote without the anonymity flag.
    pub fn de_anonymous(&self) -> (r: Result<u64, Error>)
        ensures
            r is Ok <==> self.is_anonymous,
            r matches Ok(id) ==> id == self.conversation.sender.user.id,
            r matches Err(e) ==> e == Error::SenderNotAnonymous && !self.is_anonymous,
    {
        match self.assert_sender_anonymous() {
            Ok(()) => Ok(self.conversation.sender.user.id),
            Err(e) => Err(e),
        }
    }

    /// The index of the administrator carrying `username`, if any, in a
    /// fetched administrator list.
    pub fn find_admin_with_username(&self, admins: &Vec<ChatMember>, username: &str) -> (r: Option<
        usize,
    >)
        ensures
            r matches Some(i) ==> i < admins@.len() && has_username(admins@[i as int], username@)
                && forall|j: int| 0 <= j < i ==> !has_username(#[trigger] admins@[j], username@),
            r is None ==> forall|i: int|
                0 <= i < admins@.len() ==> !has_username(#[trigger] admins@[i], username@),
    {
        let uname: String = username.to_owned();
        let n = admins.len();
        let mut i: usize = 0;
        while i < n
            invariant
                0 <= i <= n,
                n == admins@.len(),
                uname@ == username@,
                forall|j: int| 0 <= j < i ==> !has_username(#[trigger] admins@[j], username@),
            decreases n - i,
        {
            match &admins[i].user.username {
                Some(s) => {
                    if *s == uname {
                        return Some(i);
                    }
                },
                None => {},
            }
            i = i + 1;
        }
        None
    }

    /// Check and clear the way for claiming `title`: rejected when a
    /// different user holds it; otherwise the sender's prior record is
    /// removed. The binary then issues the platform's custom-title call and
    /// records the claim with [`save_title`](Self::save_title).
    pub fn set_title(&self, store: &mut TitleStore, title: &str) -> (r: Result<(), Error>)
        ensures
            r is Ok ==> final(store)@ == spec_remove_by_user(
                old(store)@,
                self.chat_id as int,
                self.sender.id,
            ),
            r is Ok ==> !title_conflict(old(store)@, self.chat_id as int, self.sender.id, title@),
            r == Err::<(), Error>(Error::TitleAlreadyInUse) ==> title_conflict(
                old(store)@,
                self.chat_id as int,
                self.sender.id,
                title@,
            ) && final(store)@ == old(store)@,
            r == Err::<(), Error>(Error::BadValue) ==> (corrupt_reverse(
                old(store)@,
                self.chat_id as int,
                title@,
            ) || corrupt_forward(old(store)@, self.chat_id as int, self.sender.id))
                && final(store)@ == old(store)@,
            r matches Err(e) ==> e == Error::TitleAlreadyInUse || e == Error::Storage || e
                == Error::BadValue,
    {
        match TitleRecord::get_with_title(store, self.chat_id, title) {
            Err(e) => {
                return Err(e);
            },
            Ok(Some(rec)) => {
                if rec.user_id != self.sender.id {
                    return Err(Error::TitleAlreadyInUse);
                }
                proof {
                    if title_conflict(store@, self.chat_id as int, self.sender.id, title@) {
                        let u2 = choose|u2: u64|
                            store@.contains_key(title_key(self.chat_id as int, title@))
                                && store@[title_key(self.chat_id as int, title@)] == u64_be(u2)
                                && u2 != self.sender.id;
                        lemma_u64_be_injective(u2, rec.user_id);
                    }
                }
            },
            Ok(None) => {},
        }
        self.remove_title_with_id(store)
    }

    /// Record the sender's freshly granted title: both sides of the record
    /// are written. Runs after the platform accepted the custom title.
    pub fn save_title(&self, store: &mut TitleStore, title: &str) -> (r: Result<(), Error>)
        ensures
            r is Ok ==> final(store)@ == old(store)@.insert(
                chat_key(self.chat_id as int, self.sender.id as nat),
                vstd::utf8::encode_utf8(title@),
            ).insert(title_key(self.chat_id as int, title@), u64_be(self.sender.id)),
            r matches Err(e) ==> e == Error::Storage,
    {
        let record = TitleRecord {
            title: title.to_owned(),
            chat_id: self.chat_id,
            user_id: self.sender.id,
        };
        record.insert_into(store)
    }

    /// Remove the sender's title record, if any; absence is a no-op success.
    pub fn remove_title_with_id(&self, store: &mut TitleStore) -> (r: Result<(), Error>)
        ensures
            r is Ok ==> final(store)@ == spec_remove_by_user(
                old(store)@,
                self.chat_id as int,
                self.sender.id,
            ),
            r is Ok ==> !final(store)@.contains_key(
                chat_key(self.chat_id as int, self.sender.id as nat),
            ),
            !old(store)@.contains_key(chat_key(self.chat_id as int, self.sender.id as nat))
                ==> final(store)@ == old(store)@,
            r == Err::<(), Error>(Error::BadValue) ==> corrupt_forward(
                old(store)@,
                self.chat_id as int,
                self.sender.id,
            ) && final(store)@ == old(store)@,
            r matches Err(e) ==> e == Error::Storage || e == Error::BadValue,
    {
        store.remove_by_user(self.chat_id, self.sender.id)
    }

    /// Remove the record holding `sig` as its title in this chat, if any;
    /// absence is a no-op success.
    pub fn remove_title_with_sig(&self, store: &mut TitleStore, sig: &str) -> (r: Result<
        (),
        Error,
    >)
        ensures
            r is Ok ==> final(store)@ == spec_remove_by_title(
                old(store)@,
                self.chat_id as int,
                sig@,
            ),
            !old(store)@.contains_key(title_key(self.chat_id as int, sig@)) ==> final(store)@
                == old(store)@,
            r == Err::<(), Error>(Error::BadValue) ==> corrupt_reverse(
                old(store)@,
                self.chat_id as int,
                sig@,
            ) && final(store)@ == old(store)@,
            r matches Err(e) ==> e == Error::Storage || e == Error::BadValue,
    {
        store.remove_by_title(self.chat_id, sig)
    }

    /// The sender's title record in this chat, if one is stored.
    pub fn get_record_with_id(&self, store: &TitleStore) -> (r: Result<Option<TitleRecord>, Error>)
        ensures
            r matches Ok(Some(rec)) ==> rec.chat_id == self.chat_id && rec.user_id
                == self.sender.id && stored_title(store@, self.chat_id as int, self.sender.id)
                == Some(rec.title@),
            r matches Ok(v) && v is None ==> !store@.contains_key(
                chat_key(self.chat_id as int, self.sender.id as nat),
            ),
            r matches Err(e) ==> e == Error::Storage || (e == Error::BadValue && corrupt_forward(
                store@,
                self.chat_id as int,
                self.sender.id,
            )),
    {
        TitleRecord::get_with_id(store, self.chat_id, self.sender.id)
    }

    /// The record holding `sig` as its title in this chat, if one is stored.
    pub fn get_record_with_sig(&self, store: &TitleStore, sig: &str) -> (r: Result<
        Option<TitleRecord>,
        Error,
    >)
        ensures
            r matches Ok(Some(rec)) ==> rec.chat_id == self.chat_id && rec.title@ == sig@
                && stored_user(store@, self.chat_id as int, sig@) == Some(rec.user_id),
            r matches Ok(v) && v is None ==> !store@.contains_key(
                title_key(self.chat_id as int, sig@),
            ),
            r matches Err(e) ==> e == Error::Storage || (e == Error::BadValue && corrupt_reverse(
                store@,
                self.chat_id as int,
                sig@,
            )),
    {
        TitleRecord::get_with_title(store, self.chat_id, sig)
    }

    /// All title records of this chat.
    pub fn list_titles(&self, store: &TitleStore) -> (r: Result<Vec<TitleRecord>, Error>)
        ensures
            r matches Ok(v) ==> forall|j: int|
                #![trigger v@[j]]
                0 <= j < v@.len() ==> v@[j].chat_id == self.chat_id && store@.contains_key(
                    chat_key(self.chat_id as int, v@[j].user_id as nat),
                ),
            r matches Ok(v) ==> lists_whole_chat(store@, self.chat_id as int, v@),
            r matches Ok(v) ==> forall|i: int, j: int|
                #![trigger v@[i], v@[j]]
                0 <= i < j < v@.len() ==> crate::codec::lex_lt(
                    chat_key(self.chat_id as int, v@[i].user_id as nat),
                    chat_key(self.chat_id as int, v@[j].user_id as nat),
                ),
    {
        TitleRecord::list_in_chat(store, self.chat_id)
    }

    /// Clear the stored records of the members about to be demoted, in
    /// order, both sides of each: on success the store is exactly the old
    /// contents with each target's record removed, and nothing else is
    /// touched. Runs before the demotions are issued; a record already
    /// absent is skipped.
    pub fn nuke_clear_records(&self, store: &mut TitleStore, targets: &Vec<u64>) -> (r: Result<
        (),
        Error,
    >)
        ensures
            r is Ok ==> final(store)@ == spec_nuke_clear(
                old(store)@,
                self.chat_id as int,
                targets@,
            ),
            r is Ok ==> forall|j: int|
                0 <= j < targets@.len() ==> !final(store)@.contains_key(
                    chat_key(self.chat_id as int, #[trigger] targets@[j] as nat),
                ),
            r is Ok ==> forall|k: Seq<u8>|
                #![trigger final(store)@.contains_key(k)]
                final(store)@.contains_key(k) ==> old(store)@.contains_key(k) && final(store)@[k]
                    == old(store)@[k],
    {
        let n = targets.len();
        let mut i: usize = 0;
        proof {
            assert(targets@.subrange(0, 0) =~= Seq::<u64>::empty());
        }
        while i < n
            invariant
                0 <= i <= n,
                n == targets@.len(),
                store@ == spec_nuke_clear(
                    old(store)@,
                    self.chat_id as int,
                    targets@.subrange(0, i as int),
                ),
                forall|j: int|
                    0 <= j < i ==> !store@.contains_key(
                        chat_key(self.chat_id as int, #[trigger] targets@[j] as nat),
                    ),
                forall|k: Seq<u8>|
                    #![trigger store@.contains_key(k)]
                    store@.contains_key(k) ==> old(store)@.contains_key(k) && store@[k] == old(
                        store,
                    )@[k],
            decreases n - i,
        {
            let ghost m0 = store@;
            store.remove_by_user(self.chat_id, targets[i])?;
            proof {
                crate::store::lemma_remove_by_user_shrinks(
                    m0,
                    self.chat_id as int,
                    targets@[i as int],
                );
                assert(targets@.subrange(0, i + 1).drop_last() =~= targets@.subrange(0, i as int));
                assert(targets@.subrange(0, i + 1).last() == targets@[i as int]);
            }
            i = i + 1;
        }
        proof {
            assert(targets@.subrange(0, n as int) =~= targets@);
        }
        Ok(())
    }
}

/// True when the member carries exactly this username.
pub open spec fn has_username(m: ChatMember, name: Seq<char>) -> bool {
    match m.user.username {
        Some(n) => n@ == name,
        None => false,
    }
}

/// An administrator that this bot may demote in a sweep: administrator-kind
/// and individually marked editable.
pub open spec fn is_nuke_target(m: ChatMember) -> bool {
    m.kind matches MemberKind::Administrator(a) && a.can_be_edited
}

/// The ids of the members a sweep will demote, in listing order.
pub open spec fn spec_nuke_targets(s: Seq<ChatMember>) -> Seq<u64>
    decreases s.len(),
{
    if s.len() == 0 {
        Seq::empty()
    } else {
        let rest = spec_nuke_targets(s.drop_last());
        if is_nuke_target(s.last()) {
            rest.push(s.last().user.id)
        } else {
            rest
        }
    }
}

/// Filter a fetched administrator list down to the members an owner sweep
/// demotes: exactly those currently administrator-kind and editable.
pub fn nuke_targets(admins: &Vec<ChatMember>) -> (r: Vec<u64>)
    ensures
        r@ == spec_nuke_targets(admins@),
{
    let n = admins.len();
    let mut out: Vec<u64> = Vec::new();
    let mut i: usize = 0;
    proof {
        assert(admins@.subrange(0, 0) =~= Seq::<ChatMember>::empty());
    }
    while i < n
        invariant
            0 <= i <= n,
            n == admins@.len(),
            out@ == spec_nuke_targets(admins@.subrange(0, i as int)),
        decreases n - i,
    {
        let keep = match admins[i].kind {
            MemberKind::Administrator(a) => a.can_be_edited,
            _ => false,
        };
        if keep {
            out.push(admins[i].user.id);
        }
        proof {
            assert(admins@.subrange(0, i + 1).drop_last() =~= admins@.subrange(0, i as int));
            assert(admins@.subrange(0, i + 1).last() == admins@[i as int]);
        }
        i = i + 1;
    }
    proof {
        assert(admins@.subrange(0, n as int) =~= admins@);
    }
    out
}

/// Preparing an edit of a plain member asks for exactly one promotion, and
/// of an administrator never asks for one; an administrator whose grant this
/// bot cannot edit is rejected outright (as long as the bot is not itself
/// the chat's owner, who may edit anyone).
pub proof fn lemma_prep_edit_promotion_discipline(bot: MemberKind, sender: MemberKind)
    ensures
        sender is Member && bot_can_promote(bot) ==> !editable(bot, sender) || !(sender
            is Administrator),
        sender is Administrator ==> !(sender is Member),
        sender matches MemberKind::Administrator(a) && !a.can_be_edited && !(bot is Owner)
            ==> !editable(bot, sender) && !(sender is Member),
{
}

} // verus!
