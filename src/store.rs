//! The archive part store: an index from lookup key to the bytes of an
//! archive member, built once and read-only afterwards.
use vstd::prelude::*;

use crate::archive::{
    archive_members, member_count, open_archive, read_member, zip_read, MemberView,
};
use crate::names::{
    is_part_file, is_part_file_name, normalize_entry_name, normalize_query_name,
    slash_normalized, strip_part_prefix,
};

verus! {

/// The map that a sequence of (key, bytes) pairs describes, later pairs
/// overriding earlier ones.
pub open spec fn table_map(s: Seq<(Seq<char>, Seq<u8>)>) -> Map<Seq<char>, Seq<u8>>
    decreases s.len(),
{
    if s.len() == 0 {
        Map::empty()
    } else {
        table_map(s.drop_last()).insert(s.last().0, s.last().1)
    }
}

pub open spec fn keys_unique(s: Seq<(Seq<char>, Seq<u8>)>) -> bool {
    forall|i: int, j: int| 0 <= i < s.len() && 0 <= j < s.len() && i != j ==> s[i].0 != s[j].0
}

/// The index built from archive members `(path, bytes)` in archive order:
/// members whose key is not model data are ignored, and of two members with
/// one key the later wins.
pub open spec fn index_of(entries: Seq<(Seq<char>, Seq<u8>)>) -> Map<Seq<char>, Seq<u8>>
    decreases entries.len(),
{
    if entries.len() == 0 {
        Map::empty()
    } else {
        let prev = index_of(entries.drop_last());
        let key = strip_part_prefix(entries.last().0);
        if is_part_file(key) {
            prev.insert(key, entries.last().1)
        } else {
            prev
        }
    }
}

/// The keys reported as duplicates while building `index_of(entries)`: one
/// report for each member whose key was already present.
pub open spec fn duplicates_of(entries: Seq<(Seq<char>, Seq<u8>)>) -> Seq<Seq<char>>
    decreases entries.len(),
{
    if entries.len() == 0 {
        Seq::empty()
    } else {
        let prev = duplicates_of(entries.drop_last());
        let key = strip_part_prefix(entries.last().0);
        if is_part_file(key) && index_of(entries.drop_last()).contains_key(key) {
            prev.push(key)
        } else {
            prev
        }
    }
}

pub proof fn lemma_table_lookup(s: Seq<(Seq<char>, Seq<u8>)>, k: Seq<char>)
    requires
        keys_unique(s),
    ensures
        table_map(s).contains_key(k) <==> exists|i: int| 0 <= i < s.len() && s[i].0 == k,
        forall|i: int| 0 <= i < s.len() && s[i].0 == k ==> table_map(s)[k] == s[i].1,
    decreases s.len(),
{
    if s.len() > 0 {
        let t = s.drop_last();
        assert(keys_unique(t));
        lemma_table_lookup(t, k);
        if s.last().0 != k {
            assert forall|i: int| 0 <= i < t.len() && t[i].0 == k implies 0 <= i < s.len()
                && s[i].0 == k by {}
            if exists|i: int| 0 <= i < s.len() && s[i].0 == k {
                let i = choose|i: int| 0 <= i < s.len() && s[i].0 == k;
                assert(t[i].0 == k);
            }
        }
    }
}

pub proof fn lemma_table_update(s: Seq<(Seq<char>, Seq<u8>)>, i: int, d: Seq<u8>)
    requires
        keys_unique(s),
        0 <= i < s.len(),
    ensures
        keys_unique(s.update(i, (s[i].0, d))),
        table_map(s.update(i, (s[i].0, d))) == table_map(s).insert(s[i].0, d),
    decreases s.len(),
{
    let u = s.update(i, (s[i].0, d));
    assert(u.drop_last() =~= if i == s.len() - 1 {
        s.drop_last()
    } else {
        s.drop_last().update(i, (s[i].0, d))
    });
    if i < s.len() - 1 {
        assert(keys_unique(s.drop_last()));
        lemma_table_update(s.drop_last(), i, d);
        assert(s.last().0 != s[i].0);
        assert(table_map(u) =~= table_map(s).insert(s[i].0, d));
    } else {
        assert(table_map(u) =~= table_map(s).insert(s[i].0, d));
    }
}

/// Every member of the archive could be read.
pub open spec fn all_readable(members: Seq<MemberView>) -> bool {
    forall|i: int| 0 <= i < members.len() ==> members[i] is Some
}

/// The members that were read and have a safe path, as `(path, bytes)`, in
/// archive order.
pub open spec fn named_members(members: Seq<MemberView>) -> Seq<(Seq<char>, Seq<u8>)>
    decreases members.len(),
{
    if members.len() == 0 {
        Seq::empty()
    } else {
        let prev = named_members(members.drop_last());
        match members.last() {
            Some((Some(name), data)) => prev.push((name, data)),
            _ => prev,
        }
    }
}

/// One archive member, as the archive reader hands it over.
pub struct ArchiveEntry {
    pub name: String,
    pub data: Vec<u8>,
}

impl ArchiveEntry {
    pub open spec fn view(&self) -> (Seq<char>, Seq<u8>) {
        (self.name@, self.data@)
    }
}

pub open spec fn entries_view(entries: Seq<ArchiveEntry>) -> Seq<(Seq<char>, Seq<u8>)> {
    entries.map_values(|e: ArchiveEntry| e.view())
}

/// What happened to one archive member during ingestion.
#[derive(PartialEq, Eq, Structural, Debug, Clone, Copy)]
pub enum Ingested {
    /// Its key does not name model data; it was ignored.
    Ignored,
    /// Its key was new.
    Added,
    /// Its key was present already: the new bytes replaced the old ones.
    Duplicate,
}

/// Building the library failed.
#[derive(PartialEq, Eq, Structural, Debug, Clone, Copy)]
pub enum IngestionError {
    /// The bytes are not a readable zip archive.
    InvalidArchive,
    /// The member at this index could not be read or decompressed.
    UnreadableMember { index: usize },
}

/// A lookup found no member under the normalized name.
#[derive(Debug, Clone)]
pub struct NotFound {
    pub name: String,
}

/// The part library: each lookup key mapped to the complete bytes of its
/// archive member, plus the keys that were reported as duplicates while it
/// was built.
#[derive(Debug)]
pub struct PartLibrary {
    parts: Vec<(String, Vec<u8>)>,
    duplicates: Vec<String>,
}

impl PartLibrary {
    pub closed spec fn pairs(&self) -> Seq<(Seq<char>, Seq<u8>)> {
        self.parts@.map_values(|e: (String, Vec<u8>)| (e.0@, e.1@))
    }

    /// Keys are unique, so each key is held once.
    pub open spec fn wf(&self) -> bool {
        keys_unique(self.pairs())
    }

    /// The key-to-bytes index.
    pub open spec fn view(&self) -> Map<Seq<char>, Seq<u8>> {
        table_map(self.pairs())
    }

    pub closed spec fn duplicates_view(&self) -> Seq<Seq<char>> {
        self.duplicates@.map_values(|s: String| s@)
    }

    /// An empty library.
    pub fn empty() -> (r: PartLibrary)
        ensures
            r.wf(),
            r@ == Map::<Seq<char>, Seq<u8>>::empty(),
            r.duplicates_view() == Seq::<Seq<char>>::empty(),
    {
        let r = PartLibrary { parts: Vec::new(), duplicates: Vec::new() };
        assert(r.pairs() =~= Seq::empty());
        assert(r.duplicates_view() =~= Seq::empty());
        r
    }

    /// Builds the library from the bytes of a zip archive. Bytes that are no
    /// zip archive give `InvalidArchive`; a member that cannot be read gives
    /// `UnreadableMember` with the index of the first such member. Otherwise
    /// every member with a safe relative UTF-8 path is ingested in archive
    /// order (see `ingest`), and members without one are skipped.
    pub fn new(archive_bytes: Vec<u8>) -> (r: Result<PartLibrary, IngestionError>)
        ensures
            match zip_read(archive_bytes@) {
                None => r == Err::<PartLibrary, IngestionError>(IngestionError::InvalidArchive),
                Some(members) => match r {
                    Ok(lib) => all_readable(members) && lib.wf() && lib@ == index_of(
                        named_members(members),
                    ) && lib.duplicates_view() == duplicates_of(named_members(members)),
                    Err(IngestionError::UnreadableMember { index }) => index < members.len()
                        && members[index as int] is None && all_readable(
                        members.subrange(0, index as int),
                    ),
                    Err(IngestionError::InvalidArchive) => false,
                },
            },
    {
        let ghost bytes = archive_bytes@;
        let mut archive = match open_archive(archive_bytes) {
            Ok(a) => a,
            Err(_) => return Err(IngestionError::InvalidArchive),
        };
        let ghost members = archive_members(archive);
        let count = member_count(&archive);
        let mut lib = PartLibrary::empty();
        let mut i: usize = 0;
        while i < count
            invariant
                zip_read(bytes) == Some(members),
                bytes == archive_bytes@,
                archive_members(archive) == members,
                count == members.len(),
                i <= count,
                all_readable(members.subrange(0, i as int)),
                lib.wf(),
                lib@ == index_of(named_members(members.subrange(0, i as int))),
                lib.duplicates_view() == duplicates_of(named_members(members.subrange(0, i as int))),
            decreases count - i,
        {
            let ghost prefix = members.subrange(0, i + 1);
            proof {
                assert(prefix.drop_last() =~= members.subrange(0, i as int));
                assert(prefix.last() == members[i as int]);
            }
            let member = match read_member(&mut archive, i) {
                Ok((name, data)) => Some((name, data)),
                Err(_) => None,
            };
            let ghost read = named_members(members.subrange(0, i as int));
            match lib.add_member(i, member) {
                Err(e) => {
                    assert(members[i as int] is None);
                    return Err(e);
                },
                Ok(_) => {
                    proof {
                        if let Some((Some(name), data)) = prefix.last() {
                            assert(read.push((name, data)).drop_last() =~= read);
                        }
                    }
                },
            }
            proof {
                assert forall|j: int| 0 <= j < i + 1 implies #[trigger] prefix[j] is Some by {
                    if j < i {
                        assert(prefix[j] == members.subrange(0, i as int)[j]);
                    }
                }
            }
            i = i + 1;
        }
        assert(members.subrange(0, count as int) =~= members);
        Ok(lib)
    }

    /// The position of `key` in the table, if it is there.
    fn position(&self, key: &String) -> (r: Option<usize>)
        requires
            self.wf(),
        ensures
            match r {
                Some(i) => i < self.parts@.len() && self.pairs()[i as int].0 == key@,
                None => forall|i: int| 0 <= i < self.parts@.len() ==> self.pairs()[i].0 != key@,
            },
    {
        let mut i: usize = 0;
        while i < self.parts.len()
            invariant
                i <= self.parts@.len(),
                forall|j: int| 0 <= j < i ==> self.pairs()[j].0 != key@,
            decreases self.parts@.len() - i,
        {
            if self.parts[i].0 == *key {
                return Some(i);
            }
            i = i + 1;
        }
        None
    }

    /// Adds one archive member: its path is normalized, a key that does not
    /// name model data is ignored, and a key that is present already has its
    /// bytes replaced and is recorded as a duplicate.
    pub fn ingest(&mut self, path: &str, data: Vec<u8>) -> (r: Ingested)
        requires
            old(self).wf(),
        ensures
            final(self).wf(),
            ({
                let key = strip_part_prefix(path@);
                &&& r == (if !is_part_file(key) {
                    Ingested::Ignored
                } else if old(self)@.contains_key(key) {
                    Ingested::Duplicate
                } else {
                    Ingested::Added
                })
                &&& final(self)@ == (if is_part_file(key) {
                    old(self)@.insert(key, data@)
                } else {
                    old(self)@
                })
                &&& final(self).duplicates_view() == (if r == Ingested::Duplicate {
                    old(self).duplicates_view().push(key)
                } else {
                    old(self).duplicates_view()
                })
            }),
    {
        let key = normalize_entry_name(path);
        if !is_part_file_name(key.as_str()) {
            return Ingested::Ignored;
        }
        proof {
            lemma_table_lookup(self.pairs(), key@);
        }
        match self.position(&key) {
            Some(i) => {
                let ghost before = self.pairs();
                proof {
                    lemma_table_update(before, i as int, data@);
                }
                self.parts.set(i, (key.clone(), data));
                assert(self.pairs() =~= before.update(i as int, (before[i as int].0, data@)));
                self.duplicates.push(key);
                assert(self.duplicates_view() =~= old(self).duplicates_view().push(key@));
                Ingested::Duplicate
            },
            None => {
                assert(!old(self)@.contains_key(key@));
                let ghost before = self.pairs();
                self.parts.push((key, data));
                assert(self.pairs() =~= before.push((key@, data@)));
                assert(self.pairs().drop_last() =~= before);
                Ingested::Added
            },
        }
    }

    /// Adds member `index` of an archive as the reader yielded it: an
    /// unreadable member (`None`) is an error and leaves the library as it
    /// was, a member without a safe path is ignored, and any other is
    /// ingested (see `ingest`).
    pub fn add_member(&mut self, index: usize, member: Option<(Option<String>, Vec<u8>)>) -> (r:
        Result<Ingested, IngestionError>)
        requires
            old(self).wf(),
        ensures
            final(self).wf(),
            match member {
                None => r == Err::<Ingested, IngestionError>(
                    IngestionError::UnreadableMember { index },
                ) && final(self)@ == old(self)@ && final(self).duplicates_view() == old(
                    self,
                ).duplicates_view(),
                Some((None, _)) => r == Ok::<Ingested, IngestionError>(Ingested::Ignored)
                    && final(self)@ == old(self)@ && final(self).duplicates_view() == old(
                    self,
                ).duplicates_view(),
                Some((Some(path), data)) => {
                    let key = strip_part_prefix(path@);
                    &&& r is Ok
                    &&& final(self)@ == (if is_part_file(key) {
                        old(self)@.insert(key, data@)
                    } else {
                        old(self)@
                    })
                    &&& final(self).duplicates_view() == (if is_part_file(key)
                        && old(self)@.contains_key(key) {
                        old(self).duplicates_view().push(key)
                    } else {
                        old(self).duplicates_view()
                    })
                },
            },
    {
        match member {
            None => Err(IngestionError::UnreadableMember { index }),
            Some((None, _)) => Ok(Ingested::Ignored),
            Some((Some(path), data)) => Ok(self.ingest(path.as_str(), data)),
        }
    }

    /// Builds a library from archive members in archive order.
    pub fn from_entries(entries: &Vec<ArchiveEntry>) -> (r: PartLibrary)
        ensures
            r.wf(),
            r@ == index_of(entries_view(entries@)),
            r.duplicates_view() == duplicates_of(entries_view(entries@)),
    {
        let mut lib = PartLibrary::empty();
        let mut i: usize = 0;
        while i < entries.len()
            invariant
                i <= entries@.len(),
                lib.wf(),
                lib@ == index_of(entries_view(entries@).subrange(0, i as int)),
                lib.duplicates_view() == duplicates_of(entries_view(entries@).subrange(0, i as int)),
            decreases entries@.len() - i,
        {
            let e = &entries[i];
            let data = e.data.clone();
            lib.ingest(e.name.as_str(), data);
            proof {
                let all = entries_view(entries@);
                assert(all.subrange(0, i + 1).drop_last() =~= all.subrange(0, i as int));
                assert(all.subrange(0, i + 1).last() == (e.name@, e.data@));
            }
            i = i + 1;
        }
        assert(entries_view(entries@).subrange(0, entries@.len() as int) =~= entries_view(entries@));
        lib
    }

    /// The complete bytes stored under the slash-normalized form of `name`.
    pub fn get_part(&self, name: &str) -> (r: Result<Vec<u8>, NotFound>)
        requires
            self.wf(),
        ensures
            match r {
                Ok(bytes) => self@.contains_key(slash_normalized(name@))
                    && bytes@ == self@[slash_normalized(name@)],
                Err(e) => !self@.contains_key(slash_normalized(name@))
                    && e.name@ == slash_normalized(name@),
            },
    {
        let key = normalize_query_name(name);
        proof {
            lemma_table_lookup(self.pairs(), key@);
        }
        match self.position(&key) {
            Some(i) => {
                let bytes = self.parts[i].1.clone();
                Ok(bytes)
            },
            None => Err(NotFound { name: key }),
        }
    }

    /// The number of parts held.
    pub fn len(&self) -> (r: usize)
        requires
            self.wf(),
        ensures
            r == self@.len(),
    {
        proof {
            lemma_unique_len(self.pairs());
        }
        self.parts.len()
    }

    /// The keys that were reported as duplicates while the library was built.
    pub fn duplicates(&self) -> (r: &Vec<String>)
        ensures
            r@.map_values(|s: String| s@) == self.duplicates_view(),
    {
        &self.duplicates
    }
}

pub proof fn lemma_unique_len(s: Seq<(Seq<char>, Seq<u8>)>)
    requires
        keys_unique(s),
    ensures
        table_map(s).dom().finite(),
        table_map(s).len() == s.len(),
    decreases s.len(),
{
    if s.len() > 0 {
        let t = s.drop_last();
        assert(keys_unique(t));
        lemma_unique_len(t);
        lemma_table_lookup(t, s.last().0);
    }
}

} // verus!

verus! {

/// Two archive members whose paths normalize to one key of model data leave
/// exactly one mapping, holding the later member's bytes, and exactly one
/// duplicate report; building never fails on them.
pub proof fn lemma_duplicate_kept_once(first: (Seq<char>, Seq<u8>), second: (Seq<char>, Seq<u8>))
    requires
        strip_part_prefix(first.0) == strip_part_prefix(second.0),
        is_part_file(strip_part_prefix(first.0)),
    ensures
        index_of(seq![first, second]) == Map::<Seq<char>, Seq<u8>>::empty().insert(
            strip_part_prefix(first.0),
            second.1,
        ),
        index_of(seq![first, second]).len() == 1,
        duplicates_of(seq![first, second]) == seq![strip_part_prefix(first.0)],
{
    let s = seq![first, second];
    let k = strip_part_prefix(first.0);
    assert(s.drop_last() =~= seq![first]);
    let one = seq![first];
    assert(one.drop_last().len() == 0);
    assert(index_of(one.drop_last()) == Map::<Seq<char>, Seq<u8>>::empty());
    assert(duplicates_of(one.drop_last()) == Seq::<Seq<char>>::empty());
    assert(one.last() == first);
    assert(index_of(seq![first]) == Map::<Seq<char>, Seq<u8>>::empty().insert(k, first.1));
    assert(index_of(s) =~= Map::<Seq<char>, Seq<u8>>::empty().insert(k, second.1));
    assert(Map::<Seq<char>, Seq<u8>>::empty().insert(k, second.1).dom() =~= set![k]);
    assert(duplicates_of(seq![first]) =~= Seq::<Seq<char>>::empty());
    assert(duplicates_of(s) =~= seq![k]);
}

} // verus!
