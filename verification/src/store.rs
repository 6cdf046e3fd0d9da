//! The tag-keyed command store: an ordered byte-keyed database holding one
//! command per tag, with exact lookup, prefix suggestions on a miss, delete,
//! and a full listing. The database itself is an outside embedded store; its
//! contents are modelled as a map from key bytes to value bytes, and every
//! operation's effect on that map is stated and proved here.

use vstd::prelude::*;
use crate::bytes::{lex_lt, lex_le};

verus! {

#[verifier::external_type_specification]
#[verifier::external_body]
pub struct ExDb(sled::Db);

#[verifier::external_type_specification]
#[verifier::external_body]
pub struct ExSledError(sled::Error);

/// The contents of an open database tree, as a map from key bytes to value
/// bytes.
pub uninterp spec fn db_view(db: sled::Db) -> Map<Seq<u8>, Seq<u8>>;

/// The contents of a store holding nothing.
pub open spec fn empty_store() -> Map<Seq<u8>, Seq<u8>> {
    Map::empty()
}

/// An error from the underlying database, carrying its printable message.
#[derive(Debug)]
pub enum StoreError {
    Backend(String),
}

/// Relies on the backend error's Display implementation for a printable
/// message.
#[verifier::external_body]
fn backend_message(e: &sled::Error) -> String {
    format!("{}", e)
}

fn backend_error(e: sled::Error) -> StoreError {
    StoreError::Backend(backend_message(&e))
}

/// Relies on sled::open: opens (or creates) the database tree rooted at the
/// given file-system path; its contents are whatever the files there hold.
#[verifier::external_body]
fn sled_open_at(path: &str) -> Result<sled::Db, sled::Error> {
    sled::open(path)
}

/// Relies on sled::Config::temporary: the tree is created at a freshly
/// generated temporary path, so it starts empty and its files are removed
/// when the handle is dropped.
#[verifier::external_body]
fn sled_open_temporary() -> (r: Result<sled::Db, sled::Error>)
    ensures
        r is Ok ==> db_view(r->Ok_0) == empty_store(),
{
    sled::Config::new().temporary(true).open()
}

/// Relies on sled::Tree::insert: on success the key maps to the new value and
/// the previous value, if any, is returned.
#[verifier::external_body]
fn sled_insert(db: &mut sled::Db, key: &Vec<u8>, value: &Vec<u8>) -> (r: Result<
    Option<Vec<u8>>,
    sled::Error,
>)
    ensures
        r is Ok ==> db_view(*final(db)) == db_view(*old(db)).insert(key@, value@),
        r is Ok ==> (match r->Ok_0 {
            Some(prev) => db_view(*old(db)).dom().contains(key@) && prev@ == db_view(*old(db))[key@],
            None => !db_view(*old(db)).dom().contains(key@),
        }),
{
    db.insert(key.as_slice(), value.as_slice()).map(|o| o.map(|iv| iv.to_vec()))
}

/// Relies on sled::Tree::get: returns the value held at the key, if any.
#[verifier::external_body]
fn sled_get(db: &sled::Db, key: &Vec<u8>) -> (r: Result<Option<Vec<u8>>, sled::Error>)
    ensures
        r is Ok ==> (match r->Ok_0 {
            Some(v) => db_view(*db).dom().contains(key@) && v@ == db_view(*db)[key@],
            None => !db_view(*db).dom().contains(key@),
        }),
{
    db.get(key.as_slice()).map(|o| o.map(|iv| iv.to_vec()))
}

/// Relies on sled::Tree::remove: on success the key is absent and the value
/// it held, if any, is returned.
#[verifier::external_body]
fn sled_remove(db: &mut sled::Db, key: &Vec<u8>) -> (r: Result<Option<Vec<u8>>, sled::Error>)
    ensures
        r is Ok ==> db_view(*final(db)) == db_view(*old(db)).remove(key@),
        r is Ok ==> (match r->Ok_0 {
            Some(prev) => db_view(*old(db)).dom().contains(key@) && prev@ == db_view(*old(db))[key@],
            None => !db_view(*old(db)).dom().contains(key@),
        }),
{
    db.remove(key.as_slice()).map(|o| o.map(|iv| iv.to_vec()))
}

/// Relies on sled::Tree::flush: write buffers are forced to disk; the tree's
/// contents are untouched.
#[verifier::external_body]
fn sled_flush(db: &sled::Db) -> Result<usize, sled::Error> {
    db.flush()
}

/// The listed keys are exactly the stored keys in `[lo, hi)`, in strictly
/// ascending lexicographic order.
pub open spec fn range_keys_post(
    m: Map<Seq<u8>, Seq<u8>>,
    lo: Seq<u8>,
    hi: Seq<u8>,
    ks: Seq<Seq<u8>>,
) -> bool {
    &&& forall|i: int|
        0 <= i < ks.len() ==> m.dom().contains(#[trigger] ks[i]) && lex_le(lo, ks[i]) && lex_lt(
            ks[i],
            hi,
        )
    &&& forall|k: Seq<u8>|
        #[trigger] m.dom().contains(k) && lex_le(lo, k) && lex_lt(k, hi) ==> ks.contains(k)
    &&& forall|i: int, j: int| 0 <= i < j < ks.len() ==> lex_lt(#[trigger] ks[i], #[trigger] ks[j])
}

/// Relies on sled::Tree::range: iterates the keys in `[lo, hi)` in ascending
/// lexicographic order.
#[verifier::external_body]
fn sled_range_keys(db: &sled::Db, lo: &Vec<u8>, hi: &Vec<u8>) -> (r: Result<
    Vec<Vec<u8>>,
    sled::Error,
>)
    ensures
        r is Ok ==> range_keys_post(
            db_view(*db),
            lo@,
            hi@,
            r->Ok_0@.map_values(|k: Vec<u8>| k@),
        ),
{
    db.range(lo.as_slice()..hi.as_slice()).keys().map(|k| k.map(|iv| iv.to_vec())).collect()
}

/// The listed pairs are exactly the stored entries, keys in strictly
/// ascending lexicographic order.
pub open spec fn entries_post(m: Map<Seq<u8>, Seq<u8>>, ps: Seq<(Seq<u8>, Seq<u8>)>) -> bool {
    &&& forall|i: int|
        0 <= i < ps.len() ==> m.dom().contains((#[trigger] ps[i]).0) && ps[i].1 == m[ps[i].0]
    &&& forall|k: Seq<u8>|
        #[trigger] m.dom().contains(k) ==> exists|i: int|
            0 <= i < ps.len() && (#[trigger] ps[i]).0 == k
    &&& forall|i: int, j: int|
        0 <= i < j < ps.len() ==> lex_lt((#[trigger] ps[i]).0, (#[trigger] ps[j]).0)
}

/// Relies on sled::Tree::iter: iterates all entries in ascending key order.
#[verifier::external_body]
fn sled_all_entries(db: &sled::Db) -> (r: Result<Vec<(Vec<u8>, Vec<u8>)>, sled::Error>)
    ensures
        r is Ok ==> entries_post(
            db_view(*db),
            r->Ok_0@.map_values(|p: (Vec<u8>, Vec<u8>)| (p.0@, p.1@)),
        ),
{
    db.iter().map(|e| e.map(|(k, v)| (k.to_vec(), v.to_vec()))).collect()
}

/// The upper bound of the prefix scan for a tag: the tag with its last byte
/// incremented, so that `[tag, upper)` spans every key extending the tag.
pub open spec fn prefix_upper(tag: Seq<u8>) -> Seq<u8> {
    if tag.len() == 0 {
        tag
    } else {
        tag.update(tag.len() - 1, (tag.last() + 1) as u8)
    }
}

/// The stored tags offered as suggestions when `tag` itself is absent: all
/// keys in the half-open range `[tag, prefix_upper(tag))`.
pub open spec fn suggestions_for(m: Map<Seq<u8>, Seq<u8>>, tag: Seq<u8>) -> Set<Seq<u8>> {
    Set::new(|k: Seq<u8>| m.dom().contains(k) && lex_le(tag, k) && lex_lt(k, prefix_upper(tag)))
}

/// Computes `prefix_upper` for a tag held as a byte vector.
pub fn prefix_upper_bound(tag: &Vec<u8>) -> (r: Vec<u8>)
    requires
        tag@.len() > 0 ==> tag@.last() < 255,
    ensures
        r@ == prefix_upper(tag@),
{
    let n = tag.len();
    let mut out: Vec<u8> = Vec::new();
    if n == 0 {
        proof {
            assert(out@ =~= prefix_upper(tag@));
        }
        return out;
    }
    let mut i: usize = 0;
    while i < n - 1
        invariant
            n == tag@.len(),
            n > 0,
            i <= n - 1,
            out@ =~= tag@.subrange(0, i as int),
        decreases n - i,
    {
        out.push(tag[i]);
        i = i + 1;
    }
    out.push(tag[n - 1] + 1);
    proof {
        assert(out@ =~= prefix_upper(tag@));
    }
    out
}

/// The result of looking a tag up: the stored command, or the stored tags
/// sharing the prefix when the tag itself is absent, or nothing at all.
#[derive(Debug, PartialEq)]
pub enum LoadOutcome {
    Found(Vec<u8>),
    Suggestions(Vec<Vec<u8>>),
    NotFound,
}

/// What a successful load reports of the store's contents: `Found` carries
/// exactly the command stored under the tag; `Suggestions` carries every
/// stored tag in the prefix range, sorted, and only when there is at least
/// one; `NotFound` means the tag is absent and the prefix range is empty.
pub open spec fn load_post(m: Map<Seq<u8>, Seq<u8>>, tag: Seq<u8>, outcome: LoadOutcome) -> bool {
    match outcome {
        LoadOutcome::Found(c) => m.dom().contains(tag) && c@ == m[tag],
        LoadOutcome::Suggestions(ks) => {
            &&& !m.dom().contains(tag)
            &&& ks@.len() > 0
            &&& forall|i: int|
                0 <= i < ks@.len() ==> suggestions_for(m, tag).contains(#[trigger] ks@[i]@)
            &&& forall|k: Seq<u8>|
                #[trigger] suggestions_for(m, tag).contains(k) ==> ks@.map_values(
                    |kk: Vec<u8>| kk@,
                ).contains(k)
            &&& forall|i: int, j: int| 0 <= i < j < ks@.len() ==> lex_lt(ks@[i]@, ks@[j]@)
        },
        LoadOutcome::NotFound => {
            &&& !m.dom().contains(tag)
            &&& forall|k: Seq<u8>| !(#[trigger] suggestions_for(m, tag).contains(k))
        },
    }
}

/// A handle on the command store. Its view is the map from tag bytes to
/// command bytes that the database currently holds.
pub struct CommandStore {
    db: sled::Db,
}

impl View for CommandStore {
    type V = Map<Seq<u8>, Seq<u8>>;

    closed spec fn view(&self) -> Map<Seq<u8>, Seq<u8>> {
        db_view(self.db)
    }
}

impl CommandStore {
    /// Opens the store rooted at the given file-system path; the contents are
    /// whatever that path already holds.
    pub fn open(path: &str) -> Result<CommandStore, StoreError> {
        match sled_open_at(path) {
            Ok(db) => Ok(CommandStore { db }),
            Err(e) => Err(backend_error(e)),
        }
    }

    /// Opens a store at a fresh temporary location: it starts empty and
    /// leaves nothing behind.
    pub fn open_temporary() -> (r: Result<CommandStore, StoreError>)
        ensures
            r is Ok ==> r->Ok_0@ == empty_store(),
    {
        match sled_open_temporary() {
            Ok(db) => Ok(CommandStore { db }),
            Err(e) => Err(backend_error(e)),
        }
    }

    /// Stores a command under a tag, overwriting any previous command, and
    /// forces the write to disk.
    pub fn store(&mut self, tag: &Vec<u8>, command: &Vec<u8>) -> (r: Result<(), StoreError>)
        ensures
            r is Ok ==> final(self)@ == old(self)@.insert(tag@, command@),
    {
        match sled_insert(&mut self.db, tag, command) {
            Err(e) => Err(backend_error(e)),
            Ok(_) => match sled_flush(&self.db) {
                Err(e) => Err(backend_error(e)),
                Ok(_) => Ok(()),
            },
        }
    }

    /// Removes the tag if present, reporting whether a command was stored
    /// under it.
    pub fn delete(&mut self, tag: &Vec<u8>) -> (r: Result<bool, StoreError>)
        ensures
            r is Ok ==> final(self)@ == old(self)@.remove(tag@),
            r is Ok ==> (r->Ok_0 <==> old(self)@.dom().contains(tag@)),
    {
        match sled_remove(&mut self.db, tag) {
            Err(e) => Err(backend_error(e)),
            Ok(prev) => Ok(prev.is_some()),
        }
    }

    /// Resolves a tag: the stored command on an exact match; otherwise the
    /// sorted stored tags in the prefix range as suggestions; otherwise a
    /// plain miss.
    pub fn load(&self, tag: &Vec<u8>) -> (r: Result<LoadOutcome, StoreError>)
        requires
            tag@.len() > 0 ==> tag@.last() < 255,
        ensures
            r is Ok ==> load_post(self@, tag@, r->Ok_0),
    {
        match sled_get(&self.db, tag) {
            Err(e) => Err(backend_error(e)),
            Ok(Some(v)) => Ok(LoadOutcome::Found(v)),
            Ok(None) => {
                let hi = prefix_upper_bound(tag);
                match sled_range_keys(&self.db, tag, &hi) {
                    Err(e) => Err(backend_error(e)),
                    Ok(ks) => {
                        if ks.len() > 0 {
                            proof {
                                assert forall|i: int| 0 <= i < ks@.len() implies suggestions_for(
                                    self@,
                                    tag@,
                                ).contains(#[trigger] ks@[i]@) by {
                                    assert(ks@.map_values(|k: Vec<u8>| k@)[i] == ks@[i]@);
                                }
                                assert forall|k: Seq<u8>| #[trigger] suggestions_for(
                                    self@,
                                    tag@,
                                ).contains(k) implies ks@.map_values(|kk: Vec<u8>| kk@).contains(
                                    k,
                                ) by {}
                                assert forall|i: int, j: int|
                                    0 <= i < j < ks@.len() implies lex_lt(ks@[i]@, ks@[j]@) by {
                                    let ksm = ks@.map_values(|k: Vec<u8>| k@);
                                    assert(ksm[i] == ks@[i]@);
                                    assert(ksm[j] == ks@[j]@);
                                }
                            }
                            Ok(LoadOutcome::Suggestions(ks))
                        } else {
                            proof {
                                assert forall|k: Seq<u8>| !(#[trigger] suggestions_for(
                                    self@,
                                    tag@,
                                ).contains(k)) by {
                                    let ksm = ks@.map_values(|kk: Vec<u8>| kk@);
                                    if suggestions_for(self@, tag@).contains(k) {
                                        assert(ksm.contains(k));
                                    }
                                }
                            }
                            Ok(LoadOutcome::NotFound)
                        }
                    },
                }
            },
        }
    }

    /// Lists every stored entry as (tag, command) pairs in ascending tag
    /// order.
    pub fn entries(&self) -> (r: Result<Vec<(Vec<u8>, Vec<u8>)>, StoreError>)
        ensures
            r is Ok ==> entries_post(self@, r->Ok_0@.map_values(|p: (Vec<u8>, Vec<u8>)| (p.0@, p.1@))),
    {
        match sled_all_entries(&self.db) {
            Ok(ps) => Ok(ps),
            Err(e) => Err(backend_error(e)),
        }
    }
}

/// A key lies in `[tag, prefix_upper(tag))` exactly when the tag is a byte
/// prefix of it.
proof fn lemma_range_iff_prefix(tag: Seq<u8>, k: Seq<u8>)
    requires
        tag.len() > 0,
        tag.last() < 255,
    ensures
        (lex_le(tag, k) && lex_lt(k, prefix_upper(tag))) <==> tag.is_prefix_of(k),
    decreases tag.len(),
{
    let upper = prefix_upper(tag);
    if k.len() == 0 {
        assert(!lex_lt(tag, k));
        assert(tag != k);
        assert(!tag.is_prefix_of(k));
    } else if tag.len() == 1 {
        assert(tag.last() == tag[0]);
        assert(upper =~= seq![(tag[0] + 1) as u8]);
        if tag[0] == k[0] {
            assert(tag.is_prefix_of(k)) by {
                assert(tag =~= k.subrange(0, 1));
            }
            assert(lex_lt(k, upper));
            if k.len() == 1 {
                assert(tag =~= k);
            } else {
                assert(lex_lt(tag, k)) by {
                    assert(tag.drop_first() =~= Seq::<u8>::empty());
                    assert(k.drop_first().len() > 0);
                    assert(lex_lt(tag.drop_first(), k.drop_first()));
                }
            }
        } else if tag[0] < k[0] {
            assert(!lex_lt(k, upper)) by {
                assert(upper.drop_first() =~= Seq::<u8>::empty());
                assert(!lex_lt(k.drop_first(), upper.drop_first()));
            }
            assert(!tag.is_prefix_of(k)) by {
                if tag.is_prefix_of(k) {
                    assert(k.subrange(0, 1)[0] == k[0]);
                }
            }
        } else {
            assert(!lex_lt(tag, k));
            assert(tag != k) by {
                if tag == k {
                    assert(tag[0] == k[0]);
                }
            }
            assert(!tag.is_prefix_of(k)) by {
                if tag.is_prefix_of(k) {
                    assert(k.subrange(0, 1)[0] == k[0]);
                }
            }
        }
    } else {
        let tagd = tag.drop_first();
        let kd = k.drop_first();
        let n = tag.len();
        assert(tagd.last() == tag.last());
        assert(upper[0] == tag[0]);
        assert(upper.drop_first() =~= prefix_upper(tagd));
        if tag[0] == k[0] {
            lemma_range_iff_prefix(tagd, kd);
            assert(tagd == kd ==> tag == k) by {
                if tagd == kd {
                    assert(tag.len() == k.len());
                    assert forall|i: int| 0 <= i < tag.len() implies tag[i] == k[i] by {
                        if i >= 1 {
                            assert(tag[i] == tagd[i - 1]);
                            assert(k[i] == kd[i - 1]);
                        }
                    }
                    assert(tag =~= k);
                }
            }
            assert(tag.is_prefix_of(k) ==> tagd.is_prefix_of(kd)) by {
                if tag.is_prefix_of(k) {
                    assert(tagd =~= kd.subrange(0, n - 1));
                }
            }
            assert(tagd.is_prefix_of(kd) ==> tag.is_prefix_of(k)) by {
                if tagd.is_prefix_of(kd) {
                    assert(tag.len() <= k.len());
                    assert forall|i: int| 0 <= i < tag.len() implies tag[i] == k.subrange(
                        0,
                        n as int,
                    )[i] by {
                        if i >= 1 {
                            assert(tagd[i - 1] == kd.subrange(0, n - 1)[i - 1]);
                            assert(kd.subrange(0, n - 1)[i - 1] == kd[i - 1]);
                            assert(kd[i - 1] == k[i]);
                        }
                    }
                    assert(tag =~= k.subrange(0, n as int));
                }
            }
        } else if tag[0] < k[0] {
            assert(!lex_lt(k, upper));
            assert(!tag.is_prefix_of(k)) by {
                if tag.is_prefix_of(k) {
                    assert(k.subrange(0, n as int)[0] == k[0]);
                }
            }
        } else {
            assert(!lex_lt(tag, k));
            assert(tag != k) by {
                if tag == k {
                    assert(tag[0] == k[0]);
                }
            }
            assert(!tag.is_prefix_of(k)) by {
                if tag.is_prefix_of(k) {
                    assert(k.subrange(0, n as int)[0] == k[0]);
                }
            }
        }
    }
}

/// Law: for a tag the store can scan for, the suggestion set holds exactly
/// the stored tags that the queried tag is a byte prefix of.
pub proof fn lemma_suggestions_are_prefix_matches(
    m: Map<Seq<u8>, Seq<u8>>,
    tag: Seq<u8>,
    k: Seq<u8>,
)
    requires
        tag.len() > 0,
        tag.last() < 255,
    ensures
        suggestions_for(m, tag).contains(k) <==> (m.dom().contains(k) && tag.is_prefix_of(k)),
{
    lemma_range_iff_prefix(tag, k);
}

/// Law: storing a command under a tag and then loading that same tag yields
/// exactly the stored text.
pub proof fn lemma_store_then_load(
    m: Map<Seq<u8>, Seq<u8>>,
    tag: Seq<u8>,
    command: Seq<u8>,
    outcome: LoadOutcome,
)
    requires
        load_post(m.insert(tag, command), tag, outcome),
    ensures
        outcome matches LoadOutcome::Found(c) && c@ == command,
{
    assert(m.insert(tag, command).dom().contains(tag));
}

/// Law: deleting a tag and then loading it never finds a command; when no
/// other stored tag lies in the deleted tag's prefix range, the load reports
/// a plain miss.
pub proof fn lemma_delete_then_load(m: Map<Seq<u8>, Seq<u8>>, tag: Seq<u8>, outcome: LoadOutcome)
    requires
        load_post(m.remove(tag), tag, outcome),
    ensures
        !(outcome is Found),
        (forall|k: Seq<u8>|
            !(#[trigger] suggestions_for(m.remove(tag), tag).contains(k))) ==> outcome is NotFound,
{
    assert(!m.remove(tag).dom().contains(tag));
    if forall|k: Seq<u8>| !(#[trigger] suggestions_for(m.remove(tag), tag).contains(k)) {
        match outcome {
            LoadOutcome::Suggestions(ks) => {
                assert(suggestions_for(m.remove(tag), tag).contains(ks@[0]@));
            },
            _ => {},
        }
    }
}

} // verus!
