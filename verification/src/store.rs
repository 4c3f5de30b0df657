//! The durable title index: a bidirectional mapping between `(chat, user)`
//! and title, persisted in one embedded key-value tree (sled).
//!
//! The tree's contents are modelled as a map from key bytes to value bytes;
//! every store operation's contract is stated against that model. The tree
//! itself is reached only through the trusted wrappers gathered here.

use vstd::prelude::*;
use vstd::slice::slice_to_vec;
use vstd::slice::slice_subrange;
use vstd::utf8::{
    decode_utf8, encode_utf8, encode_utf8_decode_utf8, encode_utf8_valid_utf8, valid_utf8,
};
use crate::codec::{lemma_u64_be_injective, parse_i64_dec, parse_u64_dec, u64_be, u64_from_be, u64_to_be};
use crate::error::Error;
use crate::keys::{
    chat_key, chat_prefix, lemma_chat_key_injective, lemma_chat_prefix_determines,
    lemma_dec_i64_sep_free, lemma_key_families_disjoint, make_chat_key, make_chat_prefix,
    make_title_key, sep, title_key,
};

verus! {

/// The embedded key-value tree (sled's `Db`), opaque to verification.
#[verifier::external_type_specification]
#[verifier::external_body]
pub struct ExDb(sled::Db);

/// The contents of one tree handle: key bytes to value bytes.
pub uninterp spec fn kv_entries(db: sled::Db) -> Map<Seq<u8>, Seq<u8>>;

/// Relies on `String::from_utf8`: succeeds exactly on valid UTF-8 input,
/// returning the string those bytes encode.
#[verifier::external_body]
fn string_from_utf8(bytes: Vec<u8>) -> (r: Option<String>)
    ensures
        r is Some <==> valid_utf8(bytes@),
        r matches Some(s) ==> encode_utf8(s@) == bytes@,
{
    String::from_utf8(bytes).ok()
}

/// The durable bidirectional index between `(chat, user)` and title.
pub struct TitleStore {
    db: sled::Db,
}

impl View for TitleStore {
    type V = Map<Seq<u8>, Seq<u8>>;

    closed spec fn view(&self) -> Map<Seq<u8>, Seq<u8>> {
        kv_entries(self.db)
    }
}

impl TitleStore {
    /// Relies on `sled::open`: opens (or creates) the tree stored at `path`.
    /// Nothing is known of a fresh handle's contents; they are whatever the
    /// directory held.
    #[verifier::external_body]
    pub fn open(path: &str) -> (r: Result<TitleStore, Error>)
        ensures
            r matches Err(e) ==> e == Error::Storage,
    {
        match sled::open(path) {
            Ok(db) => Ok(TitleStore { db }),
            Err(_) => Err(Error::Storage),
        }
    }

    /// Relies on `sled::Tree::insert`: on success the tree maps `key` to
    /// `value` and is otherwise unchanged.
    #[verifier::external_body]
    fn kv_insert(&mut self, key: &Vec<u8>, value: &Vec<u8>) -> (r: Result<(), Error>)
        ensures
            r is Ok ==> kv_entries(final(self).db) == kv_entries(old(self).db).insert(
                key@,
                value@,
            ),
            r matches Err(e) ==> e == Error::Storage,
    {
        match self.db.insert(key.as_slice(), value.as_slice()) {
            Ok(_) => Ok(()),
            Err(_) => Err(Error::Storage),
        }
    }

    /// Relies on `sled::Tree::get`: reports the value under `key`, if any,
    /// without changing the tree.
    #[verifier::external_body]
    fn kv_get(&self, key: &Vec<u8>) -> (r: Result<Option<Vec<u8>>, Error>)
        ensures
            r matches Ok(v) ==> match v {
                Some(b) => kv_entries(self.db).contains_key(key@) && b@ == kv_entries(
                    self.db,
                )[key@],
                None => !kv_entries(self.db).contains_key(key@),
            },
            r matches Err(e) ==> e == Error::Storage,
    {
        match self.db.get(key.as_slice()) {
            Ok(Some(v)) => Ok(Some(v.to_vec())),
            Ok(None) => Ok(None),
            Err(_) => Err(Error::Storage),
        }
    }

    /// Relies on `sled::Tree::remove`: on success the tree no longer maps
    /// `key` and is otherwise unchanged.
    #[verifier::external_body]
    fn kv_remove(&mut self, key: &Vec<u8>) -> (r: Result<(), Error>)
        ensures
            r is Ok ==> kv_entries(final(self).db) == kv_entries(old(self).db).remove(key@),
            r matches Err(e) ==> e == Error::Storage,
    {
        match self.db.remove(key.as_slice()) {
            Ok(_) => Ok(()),
            Err(_) => Err(Error::Storage),
        }
    }

    /// Relies on `sled::Tree::scan_prefix`: iterates over exactly the
    /// entries whose key starts with `prefix`, each key reported once, in
    /// ascending key order, without changing the tree.
    #[verifier::external_body]
    fn kv_scan_prefix(&self, prefix: &Vec<u8>) -> (r: Result<Vec<(Vec<u8>, Vec<u8>)>, Error>)
        ensures
            r matches Ok(entries) ==> {
                &&& forall|i: int|
                    #![trigger entries@[i]]
                    0 <= i < entries@.len() ==> prefix@.is_prefix_of(entries@[i].0@)
                        && kv_entries(self.db).contains_key(entries@[i].0@) && entries@[i].1@
                        == kv_entries(self.db)[entries@[i].0@]
                &&& forall|k: Seq<u8>|
                    #![trigger kv_entries(self.db).contains_key(k)]
                    kv_entries(self.db).contains_key(k) && prefix@.is_prefix_of(k) ==> exists|i: int|
                        0 <= i < entries@.len() && #[trigger] entries@[i].0@ == k
                &&& forall|i: int, j: int|
                    #![trigger entries@[i], entries@[j]]
                    0 <= i < j < entries@.len() ==> crate::codec::lex_lt(
                        entries@[i].0@,
                        entries@[j].0@,
                    )
            },
            r matches Err(e) ==> e == Error::Storage,
    {
        let mut out: Vec<(Vec<u8>, Vec<u8>)> = Vec::new();
        for item in self.db.scan_prefix(prefix.as_slice()) {
            match item {
                Ok((k, v)) => out.push((k.to_vec(), v.to_vec())),
                Err(_) => return Err(Error::Storage),
            }
        }
        Ok(out)
    }

    /// Relies on `sled::Tree::flush`: blocks until all writes so far are
    /// durable on disk, reading and changing nothing.
    #[verifier::external_body]
    pub fn flush(&self) -> (r: Result<(), Error>)
        ensures
            r matches Err(e) ==> e == Error::Storage,
    {
        match self.db.flush() {
            Ok(_) => Ok(()),
            Err(_) => Err(Error::Storage),
        }
    }
}

/// The title stored for `(chat, user)`, when its value bytes decode.
pub open spec fn stored_title(m: Map<Seq<u8>, Seq<u8>>, chat: int, user: u64) -> Option<
    Seq<char>,
> {
    if m.contains_key(chat_key(chat, user as nat)) && valid_utf8(
        m[chat_key(chat, user as nat)],
    ) {
        Some(decode_utf8(m[chat_key(chat, user as nat)]))
    } else {
        None
    }
}

/// The user stored for `(chat, title)`, when its value bytes are an
/// eight-byte id.
pub open spec fn stored_user(m: Map<Seq<u8>, Seq<u8>>, chat: int, title: Seq<char>) -> Option<
    u64,
> {
    if m.contains_key(title_key(chat, title)) && (exists|u: u64|
        m[title_key(chat, title)] == u64_be(u)) {
        Some(choose|u: u64| m[title_key(chat, title)] == u64_be(u))
    } else {
        None
    }
}

/// A stored forward value that is not valid UTF-8: the record exists but
/// its title cannot be read back.
pub open spec fn corrupt_forward(m: Map<Seq<u8>, Seq<u8>>, chat: int, user: u64) -> bool {
    m.contains_key(chat_key(chat, user as nat)) && !valid_utf8(m[chat_key(chat, user as nat)])
}

/// A stored reverse value that is not an eight-byte id: the title is
/// claimed but its holder cannot be read back.
pub open spec fn corrupt_reverse(m: Map<Seq<u8>, Seq<u8>>, chat: int, title: Seq<char>) -> bool {
    m.contains_key(title_key(chat, title)) && m[title_key(chat, title)].len() != 8
}

/// The map after removing the record of `(chat, user)`, if one is stored.
pub open spec fn spec_remove_by_user(m: Map<Seq<u8>, Seq<u8>>, chat: int, user: u64) -> Map<
    Seq<u8>,
    Seq<u8>,
> {
    match stored_title(m, chat, user) {
        Some(t) => m.remove(title_key(chat, t)).remove(chat_key(chat, user as nat)),
        None => m,
    }
}

/// The map after removing the record of `(chat, title)`, if one is stored.
pub open spec fn spec_remove_by_title(m: Map<Seq<u8>, Seq<u8>>, chat: int, title: Seq<char>) -> Map<
    Seq<u8>,
    Seq<u8>,
> {
    match stored_user(m, chat, title) {
        Some(u) => m.remove(title_key(chat, title)).remove(chat_key(chat, u as nat)),
        None => m,
    }
}

/// The map after a demotion sweep cleared its targets' records, in order:
/// each target's record goes as by [`spec_remove_by_user`], and nothing
/// else is touched.
pub open spec fn spec_nuke_clear(m: Map<Seq<u8>, Seq<u8>>, chat: int, targets: Seq<u64>) -> Map<
    Seq<u8>,
    Seq<u8>,
>
    decreases targets.len(),
{
    if targets.len() == 0 {
        m
    } else {
        spec_remove_by_user(spec_nuke_clear(m, chat, targets.drop_last()), chat, targets.last())
    }
}

/// The map after a successful title insertion: any prior record of the
/// claimant goes, then both sides of the new record are written.
pub open spec fn spec_insert_title(
    m: Map<Seq<u8>, Seq<u8>>,
    chat: int,
    user: u64,
    title: Seq<char>,
) -> Map<Seq<u8>, Seq<u8>> {
    spec_remove_by_user(m, chat, user).insert(
        chat_key(chat, user as nat),
        encode_utf8(title),
    ).insert(title_key(chat, title), u64_be(user))
}

/// True when `title` is already held in `chat` by a user other than `user`.
pub open spec fn title_conflict(
    m: Map<Seq<u8>, Seq<u8>>,
    chat: int,
    user: u64,
    title: Seq<char>,
) -> bool {
    exists|u2: u64|
        m.contains_key(title_key(chat, title)) && m[title_key(chat, title)] == u64_be(u2) && u2
            != user
}

/// The one-line HTML rendering of one record.
pub open spec fn spec_render_record(rec: TitleRecord) -> Seq<char> {
    "<code>"@ + rec.title@ + ": User("@ + crate::codec::dec_chars_u64(rec.user_id as nat)
        + ")</code>"@
}

/// True when `v` accounts for every stored entry under `chat`'s scan
/// prefix: no forward record of the chat is missing from the listing.
pub open spec fn lists_whole_chat(
    m: Map<Seq<u8>, Seq<u8>>,
    chat: int,
    v: Seq<TitleRecord>,
) -> bool {
    forall|k: Seq<u8>|
        #![trigger m.contains_key(k)]
        m.contains_key(k) && chat_prefix(chat).is_prefix_of(k) ==> exists|j: int|
            0 <= j < v.len() && chat_key(chat, #[trigger] v[j].user_id as nat) == k
}

/// One stored association between a chat member and a display title.
#[derive(Debug, Clone, PartialEq, Eq)]
pub struct TitleRecord {
    pub title: String,
    pub chat_id: i64,
    pub user_id: u64,
}

impl TitleRecord {
    /// Write both sides of this record, unconditionally.
    ///
    /// This is the raw double write; the checked operation callers want is
    /// [`TitleStore::insert_title`].
    pub fn insert_into(&self, store: &mut TitleStore) -> (r: Result<(), Error>)
        ensures
            r is Ok ==> final(store)@ == old(store)@.insert(
                chat_key(self.chat_id as int, self.user_id as nat),
                encode_utf8(self.title@),
            ).insert(title_key(self.chat_id as int, self.title@), u64_be(self.user_id)),
            r matches Err(e) ==> e == Error::Storage,
    {
        let ck = make_chat_key(self.chat_id, self.user_id);
        let tb = self.title.as_str().as_bytes_vec();
        store.kv_insert(&ck, &tb)?;
        let tk = make_title_key(self.chat_id, self.title.as_str());
        let ub = u64_to_be(self.user_id);
        store.kv_insert(&tk, &ub)?;
        Ok(())
    }

    /// Look a record up by chat and user.
    pub fn get_with_id(store: &TitleStore, chat_id: i64, user_id: u64) -> (r: Result<
        Option<TitleRecord>,
        Error,
    >)
        ensures
            r matches Ok(Some(rec)) ==> rec.chat_id == chat_id && rec.user_id == user_id
                && stored_title(store@, chat_id as int, user_id) == Some(rec.title@)
                && store@.contains_key(chat_key(chat_id as int, user_id as nat)) && encode_utf8(
                rec.title@,
            ) == store@[chat_key(chat_id as int, user_id as nat)],
            r matches Ok(v) && v is None ==> !store@.contains_key(
                chat_key(chat_id as int, user_id as nat),
            ),
            r matches Err(e) ==> e == Error::Storage || (e == Error::BadValue && corrupt_forward(
                store@,
                chat_id as int,
                user_id,
            )),
    {
        let ck = make_chat_key(chat_id, user_id);
        match store.kv_get(&ck)? {
            None => Ok(None),
            Some(bytes) => {
                proof {
                    broadcast use encode_utf8_decode_utf8;

                }
                match string_from_utf8(bytes) {
                    Some(title) => Ok(Some(TitleRecord { title, chat_id, user_id })),
                    None => Err(Error::BadValue),
                }
            },
        }
    }

    /// Look a record up by chat and title.
    pub fn get_with_title(store: &TitleStore, chat_id: i64, title: &str) -> (r: Result<
        Option<TitleRecord>,
        Error,
    >)
        ensures
            r matches Ok(Some(rec)) ==> rec.chat_id == chat_id && rec.title@ == title@
                && stored_user(store@, chat_id as int, title@) == Some(rec.user_id)
                && store@.contains_key(title_key(chat_id as int, title@))
                && store@[title_key(chat_id as int, title@)] == u64_be(rec.user_id),
            r matches Ok(v) && v is None ==> !store@.contains_key(
                title_key(chat_id as int, title@),
            ),
            r matches Err(e) ==> e == Error::Storage || (e == Error::BadValue && corrupt_reverse(
                store@,
                chat_id as int,
                title@,
            )),
    {
        let tk = make_title_key(chat_id, title);
        match store.kv_get(&tk)? {
            None => Ok(None),
            Some(bytes) => match u64_from_be(bytes.as_slice()) {
                Some(uid) => {
                    proof {
                        let m = store@;
                        let k = title_key(chat_id as int, title@);
                        assert(m[k] == u64_be(uid));
                        let u2 = choose|u: u64| m[k] == u64_be(u);
                        lemma_u64_be_injective(u2, uid);
                    }
                    Ok(Some(TitleRecord { title: title.to_owned(), chat_id, user_id: uid }))
                },
                None => Err(Error::BadValue),
            },
        }
    }

    /// Delete both sides of this record.
    pub fn remove_from(&self, store: &mut TitleStore) -> (r: Result<(), Error>)
        ensures
            r is Ok ==> final(store)@ == old(store)@.remove(
                title_key(self.chat_id as int, self.title@),
            ).remove(chat_key(self.chat_id as int, self.user_id as nat)),
            r matches Err(e) ==> e == Error::Storage,
    {
        let tk = make_title_key(self.chat_id, self.title.as_str());
        let ck = make_chat_key(self.chat_id, self.user_id);
        store.kv_remove(&tk)?;
        store.kv_remove(&ck)?;
        Ok(())
    }

    /// Decode one scanned entry back into a record. Succeeds exactly on a
    /// canonical forward key with UTF-8 value bytes.
    pub fn parse_chat_key(key: &[u8], value: &[u8]) -> (r: Result<TitleRecord, Error>)
        ensures
            r matches Ok(rec) ==> key@ == chat_key(rec.chat_id as int, rec.user_id as nat)
                && encode_utf8(rec.title@) == value@,
            (exists|c: i64, u: u64| key@ == chat_key(c as int, u as nat)) && valid_utf8(value@)
                ==> r is Ok,
    {
        let len = key.len();
        if len < 5 || key[0] != 0x63 || key[1] != 0x68 || key[2] != 0x61 || key[3] != 0x74
            || key[4] != 0x24 {
            proof {
                lemma_parse_shape_mismatch(key@);
            }
            return Err(Error::BadKey);
        }
        let mut p: usize = 5;
        while p < len && key[p] != 0x24
            invariant
                5 <= p <= len,
                len == key@.len(),
                forall|j: int| 5 <= j < p ==> key@[j] != sep(),
            decreases len - p,
        {
            p = p + 1;
        }
        if p >= len {
            proof {
                lemma_parse_no_second_sep(key@, p as int);
            }
            return Err(Error::BadKey);
        }
        let chat_slice = slice_subrange(key, 5, p);
        let chat_id = match parse_i64_dec(chat_slice) {
            Some(c) => c,
            None => {
                proof {
                    lemma_parse_chat_segment(key@, p as int);
                }
                return Err(Error::BadKey);
            },
        };
        let user_slice = slice_subrange(key, p + 1, len);
        let user_id = match parse_u64_dec(user_slice) {
            Some(u) => u,
            None => {
                proof {
                    lemma_parse_chat_segment(key@, p as int);
                }
                return Err(Error::BadKey);
            },
        };
        let title = match string_from_utf8(slice_to_vec(value)) {
            Some(t) => t,
            None => {
                return Err(Error::BadValue);
            },
        };
        let rec = TitleRecord { title, chat_id, user_id };
        proof {
            assert(key@ =~= chat_key(chat_id as int, user_id as nat));
        }
        Ok(rec)
    }

    /// The one-line HTML rendering of this record, as shown in listings.
    pub fn render(&self) -> (r: String)
        ensures
            r@ == spec_render_record(*self),
    {
        proof {
            reveal_strlit("<code>");
            reveal_strlit(": User(");
            reveal_strlit(")</code>");
        }
        let mut out = String::new();
        out.append("<code>");
        out.append(self.title.as_str());
        out.append(": User(");
        crate::codec::push_dec_u64(self.user_id, &mut out);
        out.append(")</code>");
        proof {
            assert(out@ =~= spec_render_record(*self));
        }
        out
    }

    /// All records of one chat, in the order of the key scan.
    pub fn list_in_chat(store: &TitleStore, chat_id: i64) -> (r: Result<Vec<TitleRecord>, Error>)
        ensures
            r matches Ok(v) ==> forall|j: int|
                #![trigger v@[j]]
                0 <= j < v@.len() ==> v@[j].chat_id == chat_id && store@.contains_key(
                    chat_key(chat_id as int, v@[j].user_id as nat),
                ) && encode_utf8(v@[j].title@) == store@[chat_key(
                    chat_id as int,
                    v@[j].user_id as nat,
                )],
            r matches Ok(v) ==> lists_whole_chat(store@, chat_id as int, v@),
            r matches Ok(v) ==> forall|i: int, j: int|
                #![trigger v@[i], v@[j]]
                0 <= i < j < v@.len() ==> crate::codec::lex_lt(
                    chat_key(chat_id as int, v@[i].user_id as nat),
                    chat_key(chat_id as int, v@[j].user_id as nat),
                ),
    {
        let prefix = make_chat_prefix(chat_id);
        let entries = store.kv_scan_prefix(&prefix)?;
        let mut out: Vec<TitleRecord> = Vec::new();
        let n = entries.len();
        let mut i: usize = 0;
        while i < n
            invariant
                0 <= i <= n,
                n == entries@.len(),
                out@.len() == i,
                forall|i2: int|
                    #![trigger entries@[i2]]
                    0 <= i2 < n ==> chat_prefix(chat_id as int).is_prefix_of(entries@[i2].0@)
                        && store@.contains_key(entries@[i2].0@) && entries@[i2].1@
                        == store@[entries@[i2].0@],
                forall|j: int|
                    #![trigger out@[j]]
                    0 <= j < i ==> out@[j].chat_id == chat_id && entries@[j].0@ == chat_key(
                        chat_id as int,
                        out@[j].user_id as nat,
                    ) && encode_utf8(out@[j].title@) == entries@[j].1@,
            decreases n - i,
        {
            let rec = TitleRecord::parse_chat_key(entries[i].0.as_slice(), entries[i].1.as_slice())?;
            proof {
                lemma_chat_prefix_determines(
                    chat_id as int,
                    rec.chat_id as int,
                    rec.user_id as nat,
                );
            }
            out.push(rec);
            i = i + 1;
        }
        proof {
            assert forall|j: int|
                #![trigger out@[j]]
                0 <= j < out@.len() implies out@[j].chat_id == chat_id && store@.contains_key(
                chat_key(chat_id as int, out@[j].user_id as nat),
            ) && encode_utf8(out@[j].title@) == store@[chat_key(
                chat_id as int,
                out@[j].user_id as nat,
            )] by {
                assert(entries@[j].0@ == chat_key(chat_id as int, out@[j].user_id as nat));
            }
            assert forall|k: Seq<u8>|
                #![trigger store@.contains_key(k)]
                store@.contains_key(k) && chat_prefix(chat_id as int).is_prefix_of(
                    k,
                ) implies exists|j: int|
                0 <= j < out@.len() && chat_key(chat_id as int, #[trigger] out@[j].user_id as nat)
                    == k by {
                assert(exists|i2: int| 0 <= i2 < entries@.len() && entries@[i2].0@ == k);
                let i0 = choose|i2: int| 0 <= i2 < entries@.len() && entries@[i2].0@ == k;
                assert(entries@[i0].0@ == chat_key(chat_id as int, out@[i0].user_id as nat));
                assert(chat_key(chat_id as int, out@[i0].user_id as nat) == k);
            }
            assert(lists_whole_chat(store@, chat_id as int, out@));
        }
        Ok(out)
    }
}

impl TitleStore {
    /// Claim `title` for `(chat_id, user_id)`: rejected with
    /// [`Error::TitleAlreadyInUse`] when a different user already holds the
    /// title in this chat; otherwise any prior record of the claimant is
    /// removed and both sides of the new record are written.
    pub fn insert_title(&mut self, chat_id: i64, user_id: u64, title: &str) -> (r: Result<
        (),
        Error,
    >)
        ensures
            r is Ok ==> final(self)@ == spec_insert_title(
                old(self)@,
                chat_id as int,
                user_id,
                title@,
            ),
            r is Ok ==> !title_conflict(old(self)@, chat_id as int, user_id, title@),
            r == Err::<(), Error>(Error::TitleAlreadyInUse) ==> title_conflict(
                old(self)@,
                chat_id as int,
                user_id,
                title@,
            ) && final(self)@ == old(self)@,
            r == Err::<(), Error>(Error::BadValue) ==> (corrupt_reverse(
                old(self)@,
                chat_id as int,
                title@,
            ) || corrupt_forward(old(self)@, chat_id as int, user_id)) && final(self)@ == old(
                self,
            )@,
            r matches Err(e) ==> e == Error::TitleAlreadyInUse || e == Error::Storage || e
                == Error::BadValue,
    {
        match TitleRecord::get_with_title(self, chat_id, title) {
            Err(e) => {
                return Err(e);
            },
            Ok(Some(rec)) => {
                if rec.user_id != user_id {
                    return Err(Error::TitleAlreadyInUse);
                }
                proof {
                    if title_conflict(old(self)@, chat_id as int, user_id, title@) {
                        let u2 = choose|u2: u64|
                            old(self)@.contains_key(title_key(chat_id as int, title@)) && old(
                                self,
                            )@[title_key(chat_id as int, title@)] == u64_be(u2) && u2 != user_id;
                        lemma_u64_be_injective(u2, rec.user_id);
                    }
                }
            },
            Ok(None) => {},
        }
        match TitleRecord::get_with_id(self, chat_id, user_id) {
            Err(e) => {
                return Err(e);
            },
            Ok(Some(prior)) => {
                prior.remove_from(self)?;
            },
            Ok(None) => {},
        }
        let rec = TitleRecord { title: title.to_owned(), chat_id, user_id };
        rec.insert_into(self)?;
        Ok(())
    }

    /// Remove the record of `(chat_id, user_id)`, deleting both sides;
    /// removing an absent record is a no-op success.
    pub fn remove_by_user(&mut self, chat_id: i64, user_id: u64) -> (r: Result<(), Error>)
        ensures
            r is Ok ==> final(self)@ == spec_remove_by_user(old(self)@, chat_id as int, user_id),
            r is Ok ==> !final(self)@.contains_key(chat_key(chat_id as int, user_id as nat)),
            !old(self)@.contains_key(chat_key(chat_id as int, user_id as nat)) ==> final(self)@
                == old(self)@,
            r == Err::<(), Error>(Error::BadValue) ==> corrupt_forward(
                old(self)@,
                chat_id as int,
                user_id,
            ) && final(self)@ == old(self)@,
            r matches Err(e) ==> e == Error::Storage || e == Error::BadValue,
    {
        match TitleRecord::get_with_id(self, chat_id, user_id) {
            Err(e) => Err(e),
            Ok(None) => Ok(()),
            Ok(Some(rec)) => rec.remove_from(self),
        }
    }

    /// Remove the record holding `title` in `chat_id`, deleting both sides;
    /// removing an absent record is a no-op success.
    pub fn remove_by_title(&mut self, chat_id: i64, title: &str) -> (r: Result<(), Error>)
        ensures
            r is Ok ==> final(self)@ == spec_remove_by_title(old(self)@, chat_id as int, title@),
            !old(self)@.contains_key(title_key(chat_id as int, title@)) ==> final(self)@ == old(
                self,
            )@,
            r == Err::<(), Error>(Error::BadValue) ==> corrupt_reverse(
                old(self)@,
                chat_id as int,
                title@,
            ) && final(self)@ == old(self)@,
            r matches Err(e) ==> e == Error::Storage || e == Error::BadValue,
    {
        match TitleRecord::get_with_title(self, chat_id, title) {
            Err(e) => Err(e),
            Ok(None) => Ok(()),
            Ok(Some(rec)) => rec.remove_from(self),
        }
    }
}

/// After a successful insertion, looking the pair up by user yields the new
/// title and looking it up by title yields the holder.
pub proof fn lemma_insert_title_round_trip(
    m: Map<Seq<u8>, Seq<u8>>,
    chat: int,
    user: u64,
    title: Seq<char>,
)
    ensures
        stored_title(spec_insert_title(m, chat, user, title), chat, user) == Some(title),
        stored_user(spec_insert_title(m, chat, user, title), chat, title) == Some(user),
{
    broadcast use encode_utf8_decode_utf8, encode_utf8_valid_utf8;

    let m2 = spec_insert_title(m, chat, user, title);
    lemma_key_families_disjoint(chat, user as nat, chat, title);
    assert(m2[chat_key(chat, user as nat)] == encode_utf8(title));
    assert(decode_utf8(encode_utf8(title)) == title);
    assert(m2[title_key(chat, title)] == u64_be(user));
    let u2 = choose|u: u64| m2[title_key(chat, title)] == u64_be(u);
    lemma_u64_be_injective(u2, user);
}

/// After one user claims a title, the same title claimed by any other user
/// is a conflict.
pub proof fn lemma_reclaim_conflicts(
    m: Map<Seq<u8>, Seq<u8>>,
    chat: int,
    user: u64,
    other: u64,
    title: Seq<char>,
)
    requires
        other != user,
    ensures
        title_conflict(spec_insert_title(m, chat, user, title), chat, other, title),
{
    let m2 = spec_insert_title(m, chat, user, title);
    assert(m2.contains_key(title_key(chat, title)) && m2[title_key(chat, title)] == u64_be(user)
        && user != other);
}

/// Removing a user's record twice equals removing it once: the second
/// removal finds nothing.
pub proof fn lemma_remove_by_user_idempotent(m: Map<Seq<u8>, Seq<u8>>, chat: int, user: u64)
    ensures
        spec_remove_by_user(spec_remove_by_user(m, chat, user), chat, user) == spec_remove_by_user(
            m,
            chat,
            user,
        ),
{
    let m1 = spec_remove_by_user(m, chat, user);
    if stored_title(m, chat, user) is Some {
        assert(!m1.contains_key(chat_key(chat, user as nat)));
    }
}

/// A removal never adds or alters entries: what remains was there before.
pub proof fn lemma_remove_by_user_shrinks(m: Map<Seq<u8>, Seq<u8>>, chat: int, user: u64)
    ensures
        forall|k: Seq<u8>|
            #![trigger spec_remove_by_user(m, chat, user).contains_key(k)]
            spec_remove_by_user(m, chat, user).contains_key(k) ==> m.contains_key(k)
                && spec_remove_by_user(m, chat, user)[k] == m[k],
{
}

/// A sweep touches only its targets: any user outside the target list keeps
/// their forward record, byte for byte.
pub proof fn lemma_nuke_clear_keeps_untargeted(
    m: Map<Seq<u8>, Seq<u8>>,
    chat: int,
    targets: Seq<u64>,
    user: u64,
)
    requires
        !targets.contains(user),
    ensures
        spec_nuke_clear(m, chat, targets).contains_key(chat_key(chat, user as nat))
            <==> m.contains_key(chat_key(chat, user as nat)),
        spec_nuke_clear(m, chat, targets).contains_key(chat_key(chat, user as nat))
            ==> spec_nuke_clear(m, chat, targets)[chat_key(chat, user as nat)] == m[chat_key(
            chat,
            user as nat,
        )],
    decreases targets.len(),
{
    if targets.len() > 0 {
        let head = targets.drop_last();
        let t = targets.last();
        assert(!head.contains(user)) by {
            if head.contains(user) {
                let i = choose|i: int| 0 <= i < head.len() && head[i] == user;
                assert(targets[i] == user);
                assert(targets.contains(user));
            }
        }
        assert(t != user) by {
            if t == user {
                assert(targets[targets.len() - 1] == user);
                assert(targets.contains(user));
            }
        }
        lemma_nuke_clear_keeps_untargeted(m, chat, head, user);
        assert(chat_key(chat, t as nat) != chat_key(chat, user as nat)) by {
            if chat_key(chat, t as nat) == chat_key(chat, user as nat) {
                lemma_chat_key_injective(chat, t as nat, chat, user as nat);
            }
        }
        let m1 = spec_nuke_clear(m, chat, head);
        match stored_title(m1, chat, t) {
            Some(title) => {
                lemma_key_families_disjoint(chat, user as nat, chat, title);
            },
            None => {},
        }
    }
}

/// A byte string that fails the five-byte forward tag is no forward key.
proof fn lemma_parse_shape_mismatch(key: Seq<u8>)
    requires
        key.len() < 5 || key[0] != 0x63 || key[1] != 0x68 || key[2] != 0x61 || key[3] != 0x74
            || key[4] != 0x24,
    ensures
        forall|c: i64, u: u64| key != chat_key(c as int, u as nat),
{
    assert forall|c: i64, u: u64| key != chat_key(c as int, u as nat) by {
        let k = chat_key(c as int, u as nat);
        crate::codec::lemma_dec_u64_digits(u as nat);
        assert(k.len() >= 7);
        assert(k[0] == 0x63 && k[1] == 0x68 && k[2] == 0x61 && k[3] == 0x74 && k[4] == 0x24);
    }
}

/// A byte string with no separator after the tag is no forward key.
proof fn lemma_parse_no_second_sep(key: Seq<u8>, p: int)
    requires
        p >= key.len(),
        5 <= p,
        forall|j: int| 5 <= j < p ==> key[j] != sep(),
    ensures
        forall|c: i64, u: u64| key != chat_key(c as int, u as nat),
{
    assert forall|c: i64, u: u64| key != chat_key(c as int, u as nat) by {
        if key == chat_key(c as int, u as nat) {
            lemma_dec_i64_sep_free(c as int);
            let dl = crate::codec::dec_i64(c as int).len() as int;
            assert(key[5 + dl] == sep());
        }
    }
}

/// When the bytes between the separators fail to parse, the string is no
/// forward key: a forward key's segments are canonical decimals.
proof fn lemma_parse_chat_segment(key: Seq<u8>, p: int)
    requires
        5 <= p < key.len(),
        key[p] == sep(),
        forall|j: int| 5 <= j < p ==> key[j] != sep(),
    ensures
        forall|c: i64, u: u64|
            key == chat_key(c as int, u as nat) ==> key.subrange(5, p) == crate::codec::dec_i64(
                c as int,
            ) && key.subrange(p + 1, key.len() as int) == crate::codec::dec_u64(u as nat),
{
    assert forall|c: i64, u: u64| key == chat_key(c as int, u as nat) implies key.subrange(5, p)
        == crate::codec::dec_i64(c as int) && key.subrange(p + 1, key.len() as int)
        == crate::codec::dec_u64(u as nat) by {
        lemma_dec_i64_sep_free(c as int);
        crate::codec::lemma_dec_u64_digits(u as nat);
        let d = crate::codec::dec_i64(c as int);
        let w = crate::codec::dec_u64(u as nat);
        let dl = d.len() as int;
        assert(key[5 + dl] == sep());
        assert(forall|j: int| 5 <= j < 5 + dl ==> key[j] == d[j - 5] && key[j] != sep());
        if p < 5 + dl {
            assert(key[p] == d[p - 5]);
            assert(key[p] != sep());
        }
        if p > 5 + dl {
            assert(key[5 + dl] != sep());
        }
        assert(p == 5 + dl);
        assert(key.subrange(5, p) =~= d);
        assert(key.subrange(p + 1, key.len() as int) =~= w);
    }
}

} // verus!
