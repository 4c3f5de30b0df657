//! Command flows over resolved contexts: permission gates, edit
//! preparation, the set-title sequence, anonymity, demotion and the owner
//! sweep.

use golden_axe::command::{
    anonymous_precheck, demote_precheck, demote_target, nuke_report, render_titles,
    title_input_check, title_precheck, DemoteTarget,
};
use golden_axe::ctx::{nuke_targets, Ctx, EditPrep, Loaded};
use golden_axe::error::Error;
use golden_axe::role::{AdminRights, ChatKind, ChatMember, MemberKind, Message, User};
use golden_axe::store::{TitleRecord, TitleStore};

fn user(id: u64, first_name: &str) -> User {
    User {
        id,
        first_name: first_name.into(),
        username: None,
    }
}

fn named_user(id: u64, first_name: &str, username: &str) -> User {
    User {
        id,
        first_name: first_name.into(),
        username: Some(username.into()),
    }
}

fn admin_rights(can_be_edited: bool) -> AdminRights {
    AdminRights {
        can_be_edited,
        can_promote_members: true,
        can_invite_users: true,
        is_anonymous: false,
    }
}

fn promoting_bot() -> ChatMember {
    ChatMember {
        user: user(1000, "Bot"),
        kind: MemberKind::Administrator(AdminRights {
            can_be_edited: false,
            can_promote_members: true,
            can_invite_users: true,
            is_anonymous: false,
        }),
    }
}

fn anonymous_bot() -> ChatMember {
    ChatMember {
        user: user(1000, "Bot"),
        kind: MemberKind::Administrator(AdminRights {
            can_be_edited: false,
            can_promote_members: true,
            can_invite_users: true,
            is_anonymous: true,
        }),
    }
}

fn message(chat_id: i64, from: Option<User>) -> Message {
    Message {
        id: 7,
        chat_id,
        chat_kind: ChatKind::Supergroup,
        from,
        author_signature: None,
    }
}

fn resolved(bot: ChatMember, sender: ChatMember) -> golden_axe::ctx::LoadedCtx {
    let ctx = Ctx::new(message(50, Some(sender.user.clone()))).unwrap();
    ctx.upgrade(bot, sender)
}

#[test]
fn context_needs_a_sender() {
    assert_eq!(Ctx::new(message(50, None)).err(), Some(Error::NoSender));
    let ctx = Ctx::new(message(50, Some(user(5, "Ann")))).unwrap();
    assert_eq!(ctx.chat_id(), 50);
    assert_eq!(ctx.sender_id(), 5);
    assert!(!ctx.is_anonymous());
}

#[test]
fn group_guard_rejects_private_chats() {
    let mut msg = message(50, Some(user(5, "Ann")));
    msg.chat_kind = ChatKind::Private;
    let ctx = Ctx::new(msg).unwrap();
    assert_eq!(ctx.assert_in_group(), Err(Error::NotInGroup));

    let grouped = Ctx::new(message(50, Some(user(5, "Ann")))).unwrap();
    assert_eq!(grouped.assert_in_group(), Ok(()));
}

#[test]
fn permission_gates_by_role() {
    let member = ChatMember {
        user: user(5, "Ann"),
        kind: MemberKind::Member,
    };
    let ctx = resolved(promoting_bot(), member);
    assert_eq!(ctx.assert_sender_admin(), Err(Error::SenderNotAdmin));
    assert_eq!(ctx.assert_sender_owner(), Err(Error::SenderNotOwner));
    assert_eq!(ctx.assert_bot_admin(), Ok(()));
    assert_eq!(ctx.assert_bot_promotable(), Ok(()));
    assert_eq!(ctx.assert_bot_anonymous(), Err(Error::BotNotAnonymous));
    assert_eq!(ctx.assert_sender_anonymous(), Err(Error::SenderNotAnonymous));

    let owner = ChatMember {
        user: user(6, "Olu"),
        kind: MemberKind::Owner,
    };
    let ctx = resolved(promoting_bot(), owner);
    assert_eq!(ctx.assert_sender_admin(), Ok(()));
    assert_eq!(ctx.assert_sender_owner(), Ok(()));

    let lame_bot = ChatMember {
        user: user(1000, "Bot"),
        kind: MemberKind::Member,
    };
    let member2 = ChatMember {
        user: user(5, "Ann"),
        kind: MemberKind::Member,
    };
    let ctx = resolved(lame_bot, member2);
    assert_eq!(ctx.assert_bot_admin(), Err(Error::BotNotAdmin));
    assert_eq!(ctx.assert_editable(), Err(Error::BotNotAdmin));
}

#[test]
fn prep_edit_promotes_members_once() {
    let member = ChatMember {
        user: user(5, "Ann"),
        kind: MemberKind::Member,
    };
    let ctx = resolved(promoting_bot(), member);
    assert_eq!(ctx.prep_edit(), Ok(EditPrep::NeedsPromotion));
}

#[test]
fn prep_edit_rejects_uneditable_admin_without_promotion() {
    let stranger_admin = ChatMember {
        user: user(5, "Ann"),
        kind: MemberKind::Administrator(admin_rights(false)),
    };
    let ctx = resolved(promoting_bot(), stranger_admin);
    assert_eq!(ctx.prep_edit(), Err(Error::NotEditable));

    let editable_admin = ChatMember {
        user: user(5, "Ann"),
        kind: MemberKind::Administrator(admin_rights(true)),
    };
    let ctx = resolved(promoting_bot(), editable_admin);
    assert_eq!(ctx.prep_edit(), Ok(EditPrep::Ready));

    let restricted = ChatMember {
        user: user(5, "Ann"),
        kind: MemberKind::Restricted,
    };
    let ctx = resolved(promoting_bot(), restricted);
    assert_eq!(ctx.prep_edit(), Err(Error::StatusForbidsEdit));
}

#[test]
fn prep_edit_needs_promotion_rights_for_members() {
    let weak_bot = ChatMember {
        user: user(1000, "Bot"),
        kind: MemberKind::Administrator(AdminRights {
            can_be_edited: false,
            can_promote_members: false,
            can_invite_users: true,
            is_anonymous: false,
        }),
    };
    let member = ChatMember {
        user: user(5, "Ann"),
        kind: MemberKind::Member,
    };
    let ctx = resolved(weak_bot, member);
    assert_eq!(ctx.prep_edit(), Err(Error::BotCannotPromote));
}

#[test]
fn member_claims_title_end_to_end() {
    let mut store = TitleStore::open("/tmp/golden_axe_claim_db").unwrap();
    let member = ChatMember {
        user: user(21, "Ann"),
        kind: MemberKind::Member,
    };
    let ctx = resolved(promoting_bot(), member);

    // The promotion the platform owes is decided here, exactly once.
    let prep = title_precheck(&ctx, &store, "Chief").unwrap();
    assert_eq!(prep, EditPrep::NeedsPromotion);

    // After the binary promoted the member and set the custom title:
    ctx.set_title(&mut store, "Chief").unwrap();
    ctx.save_title(&mut store, "Chief").unwrap();

    let rec = ctx.get_record_with_id(&store).unwrap().unwrap();
    assert_eq!(rec.title, "Chief");
    assert_eq!(rec.chat_id, 50);
    assert_eq!(rec.user_id, 21);
    let rev = ctx.get_record_with_sig(&store, "Chief").unwrap().unwrap();
    assert_eq!(rev.user_id, 21);
}

#[test]
fn conflicting_claim_is_rejected_without_any_change() {
    let mut store = TitleStore::open("/tmp/golden_axe_claim_conflict_db").unwrap();
    store.insert_title(50, 8, "Chief").unwrap();

    let second = ChatMember {
        user: user(9, "Bea"),
        kind: MemberKind::Member,
    };
    let ctx = resolved(promoting_bot(), second);

    // Rejected before any platform mutation would be issued.
    assert_eq!(
        title_precheck(&ctx, &store, "Chief"),
        Err(Error::TitleAlreadyInUse)
    );

    let holder = TitleRecord::get_with_title(&store, 50, "Chief").unwrap().unwrap();
    assert_eq!(holder.user_id, 8);
    assert_eq!(TitleRecord::get_with_id(&store, 50, 9).unwrap(), None);
}

#[test]
fn empty_title_is_an_input_error() {
    let store = TitleStore::open("/tmp/golden_axe_empty_title_db").unwrap();
    let member = ChatMember {
        user: user(5, "Ann"),
        kind: MemberKind::Member,
    };
    let ctx = resolved(promoting_bot(), member);
    assert_eq!(title_precheck(&ctx, &store, ""), Err(Error::EmptyTitle));
}

#[test]
fn owner_sweep_targets_exactly_the_editable_admins() {
    let admins = vec![
        ChatMember {
            user: user(1, "Own"),
            kind: MemberKind::Owner,
        },
        ChatMember {
            user: user(2, "Ada"),
            kind: MemberKind::Administrator(admin_rights(true)),
        },
        ChatMember {
            user: user(3, "Ben"),
            kind: MemberKind::Administrator(admin_rights(true)),
        },
        ChatMember {
            user: user(4, "Cat"),
            kind: MemberKind::Administrator(admin_rights(false)),
        },
        ChatMember {
            user: user(5, "Dan"),
            kind: MemberKind::Administrator(admin_rights(true)),
        },
    ];

    // Three editable administrators, one not editable: three demotions.
    let targets = nuke_targets(&admins);
    assert_eq!(targets, vec![2, 3, 5]);

    let mut store = TitleStore::open("/tmp/golden_axe_nuke_db").unwrap();
    store.insert_title(50, 2, "alpha").unwrap();
    store.insert_title(50, 3, "beta").unwrap();
    store.insert_title(50, 4, "keeper").unwrap();

    let owner = ChatMember {
        user: user(1, "Own"),
        kind: MemberKind::Owner,
    };
    let ctx = resolved(promoting_bot(), owner);
    assert_eq!(ctx.assert_sender_owner(), Ok(()));
    ctx.nuke_clear_records(&mut store, &targets).unwrap();

    assert_eq!(TitleRecord::get_with_id(&store, 50, 2).unwrap(), None);
    assert_eq!(TitleRecord::get_with_id(&store, 50, 3).unwrap(), None);
    let kept = TitleRecord::get_with_id(&store, 50, 4).unwrap().unwrap();
    assert_eq!(kept.title, "keeper");
}

#[test]
fn demote_argument_parsing() {
    assert_eq!(demote_target(""), Ok(DemoteTarget::Sender));
    assert_eq!(
        demote_target("@bob"),
        Ok(DemoteTarget::ByUsername("bob".into()))
    );
    assert_eq!(demote_target("bob"), Err(Error::BadDemoteTarget));
    assert_eq!(demote_target("@"), Err(Error::BadDemoteTarget));
}

#[test]
fn demote_precheck_needs_edit_and_promotion_rights() {
    let editable_admin = ChatMember {
        user: user(5, "Ann"),
        kind: MemberKind::Administrator(admin_rights(true)),
    };
    let ctx = resolved(promoting_bot(), editable_admin);
    assert_eq!(demote_precheck(&ctx), Ok(()));

    let stranger_admin = ChatMember {
        user: user(5, "Ann"),
        kind: MemberKind::Administrator(admin_rights(false)),
    };
    let ctx = resolved(promoting_bot(), stranger_admin);
    assert_eq!(demote_precheck(&ctx), Err(Error::NotEditable));
}

#[test]
fn finding_an_admin_by_username() {
    let admins = vec![
        ChatMember {
            user: named_user(2, "Ada", "ada"),
            kind: MemberKind::Administrator(admin_rights(true)),
        },
        ChatMember {
            user: named_user(3, "Ben", "ben"),
            kind: MemberKind::Administrator(admin_rights(true)),
        },
    ];
    let owner = ChatMember {
        user: user(1, "Own"),
        kind: MemberKind::Owner,
    };
    let ctx = resolved(promoting_bot(), owner);

    let i = ctx.find_admin_with_username(&admins, "ben").unwrap();
    assert_eq!(i, 1);
    assert_eq!(ctx.find_admin_with_username(&admins, "eve"), None);

    // Acting on the found admin substitutes the principal's snapshot only.
    let derived = ctx.with_sender(admins[i].clone());
    assert_eq!(derived.sender_id(), 3);
    assert_eq!(demote_precheck(&derived), Ok(()));
}

#[test]
fn anonymous_sender_resolves_through_the_store() {
    let mut store = TitleStore::open("/tmp/golden_axe_anon_db").unwrap();
    store.insert_title(60, 33, "Chief").unwrap();

    let alias = ChatMember {
        user: user(1087968824, "Group"),
        kind: MemberKind::Member,
    };
    let mut msg = message(60, Some(alias.user.clone()));
    msg.author_signature = Some("Chief".into());
    let mut ctx = Ctx::new(msg).unwrap().upgrade(promoting_bot(), alias);

    let rec = ctx.anonymous_lookup(&store).unwrap().unwrap();
    assert_eq!(rec.user_id, 33);
    assert_eq!(rec.chat_id, 60);

    let real = ChatMember {
        user: user(33, "Ann"),
        kind: MemberKind::Administrator(admin_rights(true)),
    };
    ctx.adopt_real_sender(real);
    assert!(ctx.is_anonymous());
    assert_eq!(ctx.sender_id(), 33);
    assert_eq!(ctx.assert_sender_admin(), Ok(()));
    assert_eq!(ctx.de_anonymous(), Ok(33));
}

#[test]
fn anonymous_sender_without_trace_is_rejected() {
    let store = TitleStore::open("/tmp/golden_axe_anon_miss_db").unwrap();

    let alias = ChatMember {
        user: user(1087968824, "Group"),
        kind: MemberKind::Member,
    };
    let msg = message(61, Some(alias.user.clone()));
    let ctx = Ctx::new(msg).unwrap().upgrade(promoting_bot(), alias.clone());
    assert_eq!(
        ctx.anonymous_lookup(&store).err(),
        Some(Error::AnonymousWithoutSignature)
    );

    let mut msg = message(61, Some(alias.user.clone()));
    msg.author_signature = Some("Nobody".into());
    let ctx = Ctx::new(msg).unwrap().upgrade(promoting_bot(), alias);
    assert_eq!(
        ctx.anonymous_lookup(&store).err(),
        Some(Error::UnidentifiedAnonymousSender)
    );

    let plain = ChatMember {
        user: user(5, "Ann"),
        kind: MemberKind::Member,
    };
    let ctx = resolved(promoting_bot(), plain);
    assert_eq!(ctx.anonymous_lookup(&store).unwrap(), None);
}

#[test]
fn anonymity_flow_gates() {
    let mut store = TitleStore::open("/tmp/golden_axe_anon_flow_db").unwrap();
    // A previous run may have left a record behind; start from a clean slate.
    store.remove_by_user(50, 5).unwrap();

    let member = ChatMember {
        user: user(5, "Ann"),
        kind: MemberKind::Member,
    };

    // The bot itself must be an anonymous administrator.
    let ctx = resolved(promoting_bot(), member.clone());
    assert_eq!(
        anonymous_precheck(&ctx, &store).err(),
        Some(Error::BotNotAnonymous)
    );

    // A title must be registered first.
    let ctx = resolved(anonymous_bot(), member.clone());
    assert_eq!(
        anonymous_precheck(&ctx, &store).err(),
        Some(Error::NoTitleRecord)
    );

    store.insert_title(50, 5, "Chief").unwrap();
    let ctx = resolved(anonymous_bot(), member);
    assert_eq!(anonymous_precheck(&ctx, &store), Ok(EditPrep::NeedsPromotion));

    // An already anonymous sender is told so.
    let real = ChatMember {
        user: user(5, "Ann"),
        kind: MemberKind::Administrator(admin_rights(true)),
    };
    let alias = ChatMember {
        user: user(1087968824, "Group"),
        kind: MemberKind::Member,
    };
    let mut ctx = Ctx::new(message(50, Some(alias.user.clone())))
        .unwrap()
        .upgrade(anonymous_bot(), alias);
    ctx.adopt_real_sender(real);
    assert_eq!(
        anonymous_precheck(&ctx, &store).err(),
        Some(Error::AlreadyAnonymous)
    );
}

#[test]
fn snapshots_swap_cleanly() {
    let bot = promoting_bot();
    let member = ChatMember {
        user: user(5, "Ann"),
        kind: MemberKind::Member,
    };
    let mut loaded = Loaded::new(bot.clone(), member.clone());

    let newer = ChatMember {
        user: user(5, "Ann"),
        kind: MemberKind::Administrator(admin_rights(true)),
    };
    let old = loaded.swap_sender(newer.clone());
    assert_eq!(old, member);
    assert_eq!(loaded.sender, newer);

    let other_bot = anonymous_bot();
    let old_bot = loaded.swap_bot(other_bot.clone());
    assert_eq!(old_bot, bot);
    assert_eq!(loaded.me, other_bot);
}

#[test]
fn listing_renders_one_line_per_record() {
    let records = vec![
        TitleRecord {
            title: "Chief".into(),
            chat_id: 3,
            user_id: 42,
        },
        TitleRecord {
            title: "Scout".into(),
            chat_id: 3,
            user_id: 7,
        },
    ];
    assert_eq!(
        render_titles(&records),
        "<code>in Chat(3):</code>\n<code>Chief: User(42)</code>\n<code>Scout: User(7)</code>"
    );
    assert_eq!(render_titles(&Vec::new()), "No titles found.");
}

#[test]
fn rejections_carry_their_wording() {
    assert_eq!(Error::NoSender.describe(), "Message has no sender");
    assert_eq!(
        Error::NotInGroup.describe(),
        "This command can only be used in group"
    );
    assert_eq!(Error::TitleAlreadyInUse.describe(), "Title already in use");
    assert_eq!(
        Error::Platform.describe(),
        "Platform request failed, please retry later"
    );
    assert_eq!(
        Error::NoTitleRecord.describe(),
        "Before making anonymous, use /title first to register"
    );
}

#[test]
fn title_input_is_checked_without_any_context() {
    assert_eq!(title_input_check(""), Err(Error::EmptyTitle));
    assert_eq!(title_input_check("Chief"), Ok(()));
}

#[test]
fn nuke_report_counts_only_successes() {
    let outcomes = vec![true, true, false, true];
    assert_eq!(nuke_report(5, &outcomes), "Found 4 admins, demoted 3");
    assert_eq!(nuke_report(0, &Vec::new()), "Found 0 admins, demoted 0");
}

#[test]
fn finding_an_admin_returns_the_first_match() {
    let admins = vec![
        ChatMember {
            user: named_user(2, "Ada", "twin"),
            kind: MemberKind::Administrator(admin_rights(true)),
        },
        ChatMember {
            user: named_user(3, "Ben", "twin"),
            kind: MemberKind::Administrator(admin_rights(true)),
        },
    ];
    let owner = ChatMember {
        user: user(1, "Own"),
        kind: MemberKind::Owner,
    };
    let ctx = resolved(promoting_bot(), owner);
    assert_eq!(ctx.find_admin_with_username(&admins, "twin"), Some(0));
}
