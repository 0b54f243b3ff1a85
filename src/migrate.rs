use vstd::prelude::*;
use vstd::utf8::{decode_utf8, is_ascii_chars, valid_utf8};

use crate::cache::MediaCache;
use crate::key::key_of_url;

verus! {

/// A direct entry of a cache root, as listed by the file system.
pub struct DirEntry {
    pub name: String,
    /// Whether the entry is a regular file.
    pub is_file: bool,
}

/// A move of the legacy file `from` (a name directly under the cache root) to
/// the relative path `to` under the same root.
pub struct Rename {
    pub from: String,
    pub to: String,
}

impl View for DirEntry {
    type V = (Seq<char>, bool);

    open spec fn view(&self) -> (Seq<char>, bool) {
        (self.name@, self.is_file)
    }
}

impl View for Rename {
    type V = (Seq<char>, Seq<char>);

    open spec fn view(&self) -> (Seq<char>, Seq<char>) {
        (self.from@, self.to@)
    }
}

/// The bytes that a text decodes to in Crockford base-32, if it is valid there.
pub uninterp spec fn crockford_decoded(s: Seq<char>) -> Option<Seq<u8>>;

/// Relies on `base32::decode` with the Crockford alphabet: the result depends
/// on the text alone, and text that is not ASCII never decodes.
#[verifier::external_body]
fn crockford_decode(s: &str) -> (r: Option<Vec<u8>>)
    ensures
        r matches Some(v) <==> crockford_decoded(s@) is Some,
        r matches Some(v) ==> v@ == crockford_decoded(s@)->0,
        !is_ascii_chars(s@) ==> r is None,
{
    base32::decode(base32::Alphabet::Crockford, s)
}

/// Relies on `String::from_utf8`: it succeeds exactly on well-formed UTF-8,
/// and the string then holds the characters that the bytes encode.
#[verifier::external_body]
fn string_from_utf8(b: Vec<u8>) -> (r: Option<String>)
    ensures
        r is Some <==> valid_utf8(b@),
        r matches Some(s) ==> s@ == decode_utf8(b@),
{
    String::from_utf8(b).ok()
}

/// The URL that a legacy file name stands for: the name decoded as Crockford
/// base-32, where the bytes are well-formed UTF-8.
pub open spec fn legacy_url(name: Seq<char>) -> Option<Seq<char>> {
    match crockford_decoded(name) {
        Some(b) => if valid_utf8(b) {
            Some(decode_utf8(b))
        } else {
            None
        },
        None => None,
    }
}

/// Where migration moves an entry: only regular files with a legacy name move,
/// to the cache key of the URL that the name encodes.
pub open spec fn migration_target(e: (Seq<char>, bool)) -> Option<Seq<char>> {
    if e.1 {
        match legacy_url(e.0) {
            Some(u) => Some(key_of_url(u)),
            None => None,
        }
    } else {
        None
    }
}

/// The moves that migration makes on a listing, in listing order.
pub open spec fn migration_plan(entries: Seq<(Seq<char>, bool)>) -> Seq<(Seq<char>, Seq<char>)>
    decreases entries.len(),
{
    if entries.len() == 0 {
        Seq::empty()
    } else {
        let last = entries.last();
        let rest = migration_plan(entries.drop_last());
        match migration_target(last) {
            Some(to) => rest.push((last.0, to)),
            None => rest,
        }
    }
}

impl MediaCache {
    /// Plans the move of every legacy entry of this cache's root (a regular
    /// file named with the Crockford base-32 encoding of a UTF-8 URL) to the
    /// URL's cache key. Other entries are left where they are.
    pub fn migrate_v0(&self, entries: &Vec<DirEntry>) -> (r: Vec<Rename>)
        ensures
            r@.map_values(|x: Rename| x@) == migration_plan(entries@.map_values(|e: DirEntry| e@)),
    {
        let ghost es = entries@.map_values(|e: DirEntry| e@);
        let mut r: Vec<Rename> = Vec::new();
        let mut i: usize = 0;
        while i < entries.len()
            invariant
                i <= entries@.len(),
                es == entries@.map_values(|e: DirEntry| e@),
                r@.map_values(|x: Rename| x@) == migration_plan(es.subrange(0, i as int)),
            decreases entries@.len() - i,
        {
            let e = &entries[i];
            proof {
                assert(es.subrange(0, i + 1).drop_last() =~= es.subrange(0, i as int));
                assert(es.subrange(0, i + 1).last() == e@);
            }
            if e.is_file {
                match crockford_decode(e.name.as_str()) {
                    Some(bytes) => match string_from_utf8(bytes) {
                        Some(url) => {
                            let to = MediaCache::key(url.as_str());
                            let ghost before = r@.map_values(|x: Rename| x@);
                            r.push(Rename { from: e.name.clone(), to });
                            proof {
                                assert(r@.map_values(|x: Rename| x@) =~= before.push((e.name@, to@)));
                            }
                        },
                        None => {},
                    },
                    None => {},
                }
            }
            i = i + 1;
        }
        proof {
            assert(es.subrange(0, entries@.len() as int) =~= es);
        }
        r
    }
}

proof fn lemma_plan_empty(entries: Seq<(Seq<char>, bool)>)
    requires
        forall|i: int| 0 <= i < entries.len() ==> migration_target(#[trigger] entries[i]) is None,
    ensures
        migration_plan(entries) == Seq::<(Seq<char>, Seq<char>)>::empty(),
    decreases entries.len(),
{
    if entries.len() > 0 {
        lemma_plan_empty(entries.drop_last());
    }
}

/// Migration is idempotent: once every planned move has been made, the
/// listing that remains (the entries that did not move, plus directories such
/// as the new shard directories) plans no move at all, so a second run leaves
/// the files as the first left them.
pub proof fn lemma_migration_idempotent(
    entries: Seq<(Seq<char>, bool)>,
    after: Seq<(Seq<char>, bool)>,
)
    requires
        forall|j: int|
            0 <= j < after.len() ==> !(#[trigger] after[j]).1 || exists|i: int|
                0 <= i < entries.len() && entries[i] == after[j] && migration_target(
                    entries[i],
                ) is None,
    ensures
        migration_plan(after) == Seq::<(Seq<char>, Seq<char>)>::empty(),
{
    lemma_plan_empty(after);
}

/// The entries of a listing that migration leaves directly under the root,
/// in order: every entry that it does not move.
pub open spec fn left_after(entries: Seq<(Seq<char>, bool)>) -> Seq<(Seq<char>, bool)>
    decreases entries.len(),
{
    if entries.len() == 0 {
        Seq::empty()
    } else {
        let rest = left_after(entries.drop_last());
        if migration_target(entries.last()) is Some {
            rest
        } else {
            rest.push(entries.last())
        }
    }
}

proof fn lemma_left_after_stays(entries: Seq<(Seq<char>, bool)>)
    ensures
        forall|i: int|
            0 <= i < left_after(entries).len() ==> migration_target(#[trigger] left_after(entries)[i])
                is None,
    decreases entries.len(),
{
    if entries.len() > 0 {
        lemma_left_after_stays(entries.drop_last());
    }
}

/// Running migration twice is running it once: after a first run whose moves
/// all succeed, the root holds the entries it did not move plus directories
/// (the shard directories of the new layout and any that were there), and a
/// second run on that listing plans no move, so every file keeps its path.
pub proof fn lemma_migrate_twice(entries: Seq<(Seq<char>, bool)>, dirs: Seq<(Seq<char>, bool)>)
    requires
        forall|j: int| 0 <= j < dirs.len() ==> !(#[trigger] dirs[j]).1,
    ensures
        migration_plan(left_after(entries) + dirs) == Seq::<(Seq<char>, Seq<char>)>::empty(),
{
    lemma_left_after_stays(entries);
    let l = left_after(entries);
    let all = l + dirs;
    assert forall|i: int| 0 <= i < all.len() implies migration_target(#[trigger] all[i]) is None by {
        if i < l.len() {
            assert(all[i] == l[i]);
        } else {
            assert(all[i] == dirs[i - l.len()]);
        }
    }
    lemma_plan_empty(all);
}

/// The move `m` is that of a regular file of the listing, to its target.
pub open spec fn moves_listed_file(entries: Seq<(Seq<char>, bool)>, m: (Seq<char>, Seq<char>)) -> bool {
    exists|i: int|
        0 <= i < entries.len() && (#[trigger] entries[i]).1 && entries[i].0 == m.0
            && migration_target(entries[i]) == Some(m.1)
}

/// Migration moves regular files of the listing only, each to its own target:
/// a directory (such as a shard directory of the new layout) is never moved,
/// and the files inside it are not in the listing at all.
pub proof fn lemma_migration_moves_only_files(entries: Seq<(Seq<char>, bool)>)
    ensures
        forall|k: int|
            0 <= k < migration_plan(entries).len() ==> moves_listed_file(
                entries,
                #[trigger] migration_plan(entries)[k],
            ),
    decreases entries.len(),
{
    if entries.len() > 0 {
        let rest = entries.drop_last();
        lemma_migration_moves_only_files(rest);
        let p = migration_plan(entries);
        let q = migration_plan(rest);
        assert forall|k: int| 0 <= k < p.len() implies moves_listed_file(entries, #[trigger] p[k]) by {
            if k < q.len() {
                assert(p[k] == q[k]);
                assert(moves_listed_file(rest, q[k]));
                let i = choose|i: int|
                    0 <= i < rest.len() && (#[trigger] rest[i]).1 && rest[i].0 == q[k].0
                        && migration_target(rest[i]) == Some(q[k].1);
                assert(entries[i] == rest[i]);
            } else {
                let i = entries.len() - 1;
                assert(entries[i] == entries.last());
                assert(migration_target(entries.last()) is Some);
                assert(p[k] == (entries.last().0, migration_target(entries.last())->0));
            }
        }
    }
}

/// A legacy file whose name decodes to a URL is planned to move to exactly
/// that URL's cache key; a name that does not decode plans no move.
pub proof fn lemma_migration_decode(name: Seq<char>, url: Seq<char>)
    ensures
        legacy_url(name) == Some(url) ==> migration_plan(seq![(name, true)]) == seq![
            (name, key_of_url(url)),
        ],
        crockford_decoded(name) is None ==> migration_plan(seq![(name, true)]) == Seq::<
            (Seq<char>, Seq<char>),
        >::empty(),
{
    let s = seq![(name, true)];
    assert(s.drop_last() =~= Seq::<(Seq<char>, bool)>::empty());
    assert(migration_plan(s.drop_last()) == Seq::<(Seq<char>, Seq<char>)>::empty());
    if legacy_url(name) == Some(url) {
        assert(Seq::<(Seq<char>, Seq<char>)>::empty().push((name, key_of_url(url))) =~= seq![
            (name, key_of_url(url)),
        ]);
    }
}

} // verus!
