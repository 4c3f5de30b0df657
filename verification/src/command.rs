//! The command surface, and the per-command decision sequences.
//!
//! Each inbound command maps to one flow over a resolved context: the pure
//! checks and store reads run here, and each platform mutation the flow
//! calls for (a promotion, a demotion, a custom-title call) is named to the
//! surrounding binary, which issues it and then runs the flow's next step.

use vstd::prelude::*;
use crate::ctx::{
    EditPrep, LoadedCtx, bot_can_anonymize, bot_can_promote, bot_is_admin, editable,
};
use crate::error::Error;
use crate::keys::{chat_key, title_key};
use crate::role::MemberKind;
use crate::store::{TitleRecord, TitleStore, corrupt_forward, corrupt_reverse, stored_title, title_conflict};
use crate::codec::{dec_chars_u64, lemma_u64_be_injective, push_dec_u64, u64_be};

verus! {

/// Every command the bot answers.
#[derive(Debug, Clone, PartialEq, Eq)]
pub enum Command {
    /// Display the command overview.
    Help,
    /// Same as `Help`, sent on first contact.
    Start,
    /// Claim a display title.
    Title { title: String },
    /// Remove a specific title, whoever holds it (owner only).
    RemoveTitle { title: String },
    /// List all titles in use in the chat.
    Titles,
    /// Demote the sender, or `@username` (the latter owner only).
    Demote { username: String },
    /// Demote every editable administrator and drop their titles.
    Nuke,
    /// Make the sender anonymous.
    Anonymous,
    /// Undo the sender's anonymity.
    DeAnonymous,
}

/// Whom a demote command aims at.
#[derive(Debug, Clone, PartialEq, Eq)]
pub enum DemoteTarget {
    /// No argument: the sender demotes themself.
    Sender,
    /// `@username`: a third party, allowed to the owner alone.
    ByUsername(String),
}

/// Read a demote command's argument: empty means the sender, `@name` names
/// a third party, anything else is rejected with usage advice.
pub fn demote_target(username: &str) -> (r: Result<DemoteTarget, Error>)
    ensures
        r == Ok::<DemoteTarget, Error>(DemoteTarget::Sender) <==> username@.len() == 0,
        r matches Ok(DemoteTarget::ByUsername(rest)) ==> username@.len() > 1 && username@[0]
            == '@' && rest@ == username@.subrange(1, username@.len() as int),
        username@.len() > 1 && username@[0] == '@' ==> r is Ok,
        r is Err <==> username@.len() >= 1 && !(username@.len() > 1 && username@[0] == '@'),
        r matches Err(e) ==> e == Error::BadDemoteTarget,
{
    if username.is_empty() {
        return Ok(DemoteTarget::Sender);
    }
    let len = username.unicode_len();
    if len > 1 && username.get_char(0) == '@' {
        let rest = username.substring_char(1, len);
        Ok(DemoteTarget::ByUsername(rest.to_owned()))
    } else {
        Err(Error::BadDemoteTarget)
    }
}

/// The checks before any demotion: the bot must be able to edit the target
/// and must hold promotion rights. The binary then issues the demotion and
/// removes the target's title record.
pub fn demote_precheck(ctx: &LoadedCtx) -> (r: Result<(), Error>)
    ensures
        r is Ok <==> editable(ctx.conversation.me.kind, ctx.conversation.sender.kind)
            && bot_can_promote(ctx.conversation.me.kind),
        r == Err::<(), Error>(Error::NotEditable) <==> (ctx.conversation.sender.kind
            matches MemberKind::Administrator(a) && !a.can_be_edited && ctx.conversation.me.kind
            is Administrator),
        r == Err::<(), Error>(Error::StatusForbidsEdit) <==> (ctx.conversation.me.kind
            is Administrator && !(ctx.conversation.sender.kind is Administrator) && !(
        ctx.conversation.sender.kind is Member)),
        r == Err::<(), Error>(Error::BotNotAdmin) <==> !bot_is_admin(ctx.conversation.me.kind),
        r == Err::<(), Error>(Error::BotCannotPromote) <==> editable(
            ctx.conversation.me.kind,
            ctx.conversation.sender.kind,
        ) && !bot_can_promote(ctx.conversation.me.kind),
{
    match ctx.assert_editable() {
        Err(e) => {
            return Err(e);
        },
        Ok(()) => {},
    }
    match ctx.assert_bot_promotable() {
        Err(e) => {
            return Err(e);
        },
        Ok(()) => {},
    }
    Ok(())
}

/// The input check of a title claim, needing no context, store or network:
/// run before the role snapshots are fetched, so an empty title costs no
/// platform call.
pub fn title_input_check(title: &str) -> (r: Result<(), Error>)
    ensures
        r is Ok <==> title@.len() > 0,
        r matches Err(e) ==> e == Error::EmptyTitle,
{
    if title.is_empty() {
        Err(Error::EmptyTitle)
    } else {
        Ok(())
    }
}

/// The checks before claiming a title: the title must be nonempty and not
/// held by a different user, and the sender must be editable (promoting
/// first where needed). Runs before any platform call, so a conflicting
/// claim costs no mutation.
pub fn title_precheck(ctx: &LoadedCtx, store: &TitleStore, title: &str) -> (r: Result<
    EditPrep,
    Error,
>)
    ensures
        r == Err::<EditPrep, Error>(Error::EmptyTitle) <==> title@.len() == 0,
        r == Err::<EditPrep, Error>(Error::TitleAlreadyInUse) ==> title_conflict(
            store@,
            ctx.chat_id as int,
            ctx.sender.id,
            title@,
        ),
        r is Ok ==> title@.len() > 0 && !title_conflict(
            store@,
            ctx.chat_id as int,
            ctx.sender.id,
            title@,
        ),
        r == Ok::<EditPrep, Error>(EditPrep::Ready) ==> ctx.conversation.sender.kind
            is Administrator && editable(ctx.conversation.me.kind, ctx.conversation.sender.kind),
        r == Ok::<EditPrep, Error>(EditPrep::NeedsPromotion) ==> ctx.conversation.sender.kind
            is Member && bot_can_promote(ctx.conversation.me.kind),
        r is Ok && ctx.conversation.sender.kind is Member ==> r == Ok::<EditPrep, Error>(
            EditPrep::NeedsPromotion,
        ),
        r is Ok && ctx.conversation.sender.kind is Administrator ==> r == Ok::<EditPrep, Error>(
            EditPrep::Ready,
        ),
        r == Err::<EditPrep, Error>(Error::BadValue) ==> corrupt_reverse(
            store@,
            ctx.chat_id as int,
            title@,
        ),
{
    match title_input_check(title) {
        Err(e) => {
            return Err(e);
        },
        Ok(()) => {},
    }
    match TitleRecord::get_with_title(store, ctx.chat_id, title) {
        Err(e) => {
            return Err(e);
        },
        Ok(Some(rec)) => {
            if rec.user_id != ctx.sender.id {
                return Err(Error::TitleAlreadyInUse);
            }
            proof {
                if title_conflict(store@, ctx.chat_id as int, ctx.sender.id, title@) {
                    let u2 = choose|u2: u64|
                        store@.contains_key(title_key(ctx.chat_id as int, title@))
                            && store@[title_key(ctx.chat_id as int, title@)] == u64_be(u2) && u2
                            != ctx.sender.id;
                    lemma_u64_be_injective(u2, rec.user_id);
                }
            }
        },
        Ok(None) => {},
    }
    ctx.prep_edit()
}

/// The checks before granting anonymity: the bot must itself be an
/// anonymous administrator, the sender must not already be anonymous and
/// must have registered a title, and the usual edit preparation applies.
pub fn anonymous_precheck(ctx: &LoadedCtx, store: &TitleStore) -> (r: Result<EditPrep, Error>)
    ensures
        r == Err::<EditPrep, Error>(Error::BotNotAnonymous) <==> !bot_can_anonymize(
            ctx.conversation.me.kind,
        ),
        r == Err::<EditPrep, Error>(Error::AlreadyAnonymous) <==> bot_can_anonymize(
            ctx.conversation.me.kind,
        ) && ctx.is_anonymous,
        r == Err::<EditPrep, Error>(Error::NoTitleRecord) ==> !store@.contains_key(
            chat_key(ctx.chat_id as int, ctx.sender.id as nat),
        ),
        r is Ok ==> bot_can_anonymize(ctx.conversation.me.kind) && !ctx.is_anonymous
            && stored_title(store@, ctx.chat_id as int, ctx.sender.id) is Some,
        r == Ok::<EditPrep, Error>(EditPrep::Ready) ==> ctx.conversation.sender.kind
            is Administrator && editable(ctx.conversation.me.kind, ctx.conversation.sender.kind),
        r == Ok::<EditPrep, Error>(EditPrep::NeedsPromotion) ==> ctx.conversation.sender.kind
            is Member && bot_can_promote(ctx.conversation.me.kind),
        r == Err::<EditPrep, Error>(Error::BadValue) ==> corrupt_forward(
            store@,
            ctx.chat_id as int,
            ctx.sender.id,
        ),
{
    match ctx.assert_bot_anonymous() {
        Err(e) => {
            return Err(e);
        },
        Ok(()) => {},
    }
    if ctx.is_anonymous() {
        return Err(Error::AlreadyAnonymous);
    }
    match ctx.get_record_with_id(store) {
        Err(e) => {
            return Err(e);
        },
        Ok(None) => {
            return Err(Error::NoTitleRecord);
        },
        Ok(Some(_)) => {},
    }
    ctx.prep_edit()
}

/// The listing shown for one chat's records, record by record.
pub open spec fn spec_rendered_lines(records: Seq<TitleRecord>) -> Seq<char>
    decreases records.len(),
{
    if records.len() == 0 {
        Seq::empty()
    } else {
        spec_rendered_lines(records.drop_last()) + "\n"@ + crate::store::spec_render_record(
            records.last(),
        )
    }
}

/// The full reply of the title-listing command.
pub open spec fn spec_render_titles(records: Seq<TitleRecord>) -> Seq<char> {
    if records.len() == 0 {
        "No titles found."@
    } else {
        "<code>in Chat("@ + crate::codec::dec_chars_i64(records[0].chat_id as int) + "):</code>"@
            + spec_rendered_lines(records)
    }
}

/// Render the title listing: the chat's records one per line, or a note
/// that none exist.
pub fn render_titles(records: &Vec<TitleRecord>) -> (r: String)
    ensures
        r@ == spec_render_titles(records@),
{
    proof {
        reveal_strlit("No titles found.");
        reveal_strlit("<code>in Chat(");
        reveal_strlit("):</code>");
        reveal_strlit("\n");
    }
    if records.len() == 0 {
        let r = "No titles found.".to_owned();
        proof {
            assert(r@ =~= spec_render_titles(records@));
        }
        return r;
    }
    let mut out = String::new();
    out.append("<code>in Chat(");
    crate::codec::push_dec_i64(records[0].chat_id, &mut out);
    out.append("):</code>");
    let n = records.len();
    let mut i: usize = 0;
    proof {
        assert(records@.subrange(0, 0) =~= Seq::<TitleRecord>::empty());
        assert(out@ =~= "<code>in Chat("@ + crate::codec::dec_chars_i64(
            records@[0].chat_id as int,
        ) + "):</code>"@ + spec_rendered_lines(records@.subrange(0, 0)));
    }
    while i < n
        invariant
            0 <= i <= n,
            n == records@.len(),
            n > 0,
            out@ == "<code>in Chat("@ + crate::codec::dec_chars_i64(records@[0].chat_id as int)
                + "):</code>"@ + spec_rendered_lines(records@.subrange(0, i as int)),
        decreases n - i,
    {
        proof {
            reveal_strlit("\n");
        }
        out.append("\n");
        let line = records[i].render();
        out.append(line.as_str());
        proof {
            assert(records@.subrange(0, i + 1).drop_last() =~= records@.subrange(0, i as int));
            assert(records@.subrange(0, i + 1).last() == records@[i as int]);
            assert(out@ =~= "<code>in Chat("@ + crate::codec::dec_chars_i64(
                records@[0].chat_id as int,
            ) + "):</code>"@ + spec_rendered_lines(records@.subrange(0, i + 1)));
        }
        i = i + 1;
    }
    proof {
        assert(records@.subrange(0, n as int) =~= records@);
    }
    out
}

/// How many of a sweep's demotions went through.
pub open spec fn spec_count_true(s: Seq<bool>) -> nat
    decreases s.len(),
{
    if s.len() == 0 {
        0
    } else {
        spec_count_true(s.drop_last()) + if s.last() {
            1nat
        } else {
            0nat
        }
    }
}

/// The reply of the owner sweep: how many administrators were found (the
/// bot itself aside) against how many demotions succeeded.
pub open spec fn spec_nuke_report(admin_count: nat, outcomes: Seq<bool>) -> Seq<char> {
    "Found "@ + dec_chars_u64(
        if admin_count > 0 {
            (admin_count - 1) as nat
        } else {
            0
        },
    ) + " admins, demoted "@ + dec_chars_u64(spec_count_true(outcomes))
}

/// Render the owner sweep's report from the fetched administrator count and
/// the demotions' outcomes.
pub fn nuke_report(admin_count: usize, outcomes: &Vec<bool>) -> (r: String)
    ensures
        r@ == spec_nuke_report(admin_count as nat, outcomes@),
{
    proof {
        reveal_strlit("Found ");
        reveal_strlit(" admins, demoted ");
    }
    let found: u64 = if admin_count > 0 {
        (admin_count - 1) as u64
    } else {
        0
    };
    let n = outcomes.len();
    let mut demoted: u64 = 0;
    let mut i: usize = 0;
    proof {
        assert(outcomes@.subrange(0, 0) =~= Seq::<bool>::empty());
    }
    while i < n
        invariant
            0 <= i <= n,
            n == outcomes@.len(),
            demoted <= i,
            demoted as nat == spec_count_true(outcomes@.subrange(0, i as int)),
        decreases n - i,
    {
        if outcomes[i] {
            demoted = demoted + 1;
        }
        proof {
            assert(outcomes@.subrange(0, i + 1).drop_last() =~= outcomes@.subrange(0, i as int));
            assert(outcomes@.subrange(0, i + 1).last() == outcomes@[i as int]);
        }
        i = i + 1;
    }
    proof {
        assert(outcomes@.subrange(0, n as int) =~= outcomes@);
    }
    let mut out = String::new();
    out.append("Found ");
    push_dec_u64(found, &mut out);
    out.append(" admins, demoted ");
    push_dec_u64(demoted, &mut out);
    proof {
        assert(out@ =~= spec_nuke_report(admin_count as nat, outcomes@));
    }
    out
}

/// The check before removing an arbitrary title: owner only. The binary
/// then calls for the record's removal by its title.
pub fn remove_title_precheck(ctx: &LoadedCtx) -> (r: Result<(), Error>)
    ensures
        r is Ok <==> ctx.conversation.sender.kind is Owner,
        r matches Err(e) ==> e == Error::SenderNotOwner,
{
    ctx.assert_sender_owner()
}

} // verus!
