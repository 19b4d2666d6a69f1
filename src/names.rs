//! Part names: how archive member paths and query names become lookup keys.
use vstd::prelude::*;

verus! {

/// The archive prefixes that are stripped from member paths, in the order in
/// which they are tried.
pub open spec fn part_prefixes() -> Seq<Seq<char>> {
    seq![
        seq!['l', 'd', 'r', 'a', 'w', '/'],
        seq!['p', 'a', 'r', 't', 's', '/'],
        seq!['p', '/'],
        seq!['m', 'o', 'd', 'e', 'l', 's', '/'],
    ]
}

pub open spec fn starts_with(s: Seq<char>, p: Seq<char>) -> bool {
    p.len() <= s.len() && s.subrange(0, p.len() as int) == p
}

pub open spec fn ends_with(s: Seq<char>, p: Seq<char>) -> bool {
    p.len() <= s.len() && s.subrange(s.len() - p.len(), s.len() as int) == p
}

/// The index of the first prefix of `part_prefixes()` that `name` starts with,
/// searching from index `from`.
pub open spec fn first_prefix_from(name: Seq<char>, from: int) -> Option<int>
    decreases part_prefixes().len() - from,
{
    if from < 0 || from >= part_prefixes().len() {
        None
    } else if starts_with(name, part_prefixes()[from]) {
        Some(from)
    } else {
        first_prefix_from(name, from + 1)
    }
}

/// The lookup key of an archive member path: the first matching prefix is
/// removed, once; everything after it is kept as it is.
pub open spec fn strip_part_prefix(name: Seq<char>) -> Seq<char> {
    match first_prefix_from(name, 0) {
        Some(i) => name.subrange(part_prefixes()[i].len() as int, name.len() as int),
        None => name,
    }
}

/// A key names model data when it ends in `.ldr` or `.dat`.
pub open spec fn is_part_file(key: Seq<char>) -> bool {
    ends_with(key, seq!['.', 'l', 'd', 'r']) || ends_with(key, seq!['.', 'd', 'a', 't'])
}

/// A query name with every backslash turned into a forward slash.
pub open spec fn slash_normalized(query: Seq<char>) -> Seq<char> {
    query.map_values(|c: char| if c == '\\' { '/' } else { c })
}

/// When the `i`-th prefix is the first one that a path starts with, the key
/// is exactly what follows that prefix, internal slashes included.
pub proof fn lemma_strip_first_prefix(i: int, rest: Seq<char>)
    requires
        0 <= i < part_prefixes().len(),
        forall|j: int| 0 <= j < i ==> !starts_with(part_prefixes()[i] + rest, #[trigger] part_prefixes()[j]),
    ensures
        strip_part_prefix(part_prefixes()[i] + rest) == rest,
{
    let name = part_prefixes()[i] + rest;
    let p = part_prefixes()[i];
    assert(name.subrange(0, p.len() as int) =~= p);
    reveal_with_fuel(first_prefix_from, 5);
    assert(first_prefix_from(name, 0) == Some(i)) by {
        if i > 0 {
            assert(!starts_with(name, part_prefixes()[0]));
        }
        if i > 1 {
            assert(!starts_with(name, part_prefixes()[1]));
        }
        if i > 2 {
            assert(!starts_with(name, part_prefixes()[2]));
        }
    }
    assert(name.subrange(p.len() as int, name.len() as int) =~= rest);
}

/// Whether `s` starts with `p`, compared character by character.
pub fn has_prefix(s: &str, p: &str) -> (r: bool)
    ensures
        r == starts_with(s@, p@),
{
    let n = s.unicode_len();
    let m = p.unicode_len();
    if m > n {
        return false;
    }
    let mut i: usize = 0;
    while i < m
        invariant
            m == p@.len(),
            n == s@.len(),
            m <= n,
            i <= m,
            forall|j: int| 0 <= j < i ==> s@[j] == p@[j],
        decreases m - i,
    {
        if s.get_char(i) != p.get_char(i) {
            assert(s@.subrange(0, m as int)[i as int] != p@[i as int]);
            return false;
        }
        i = i + 1;
    }
    assert(s@.subrange(0, m as int) =~= p@);
    true
}

/// Whether `s` ends with `p`, compared character by character.
pub fn has_suffix(s: &str, p: &str) -> (r: bool)
    ensures
        r == ends_with(s@, p@),
{
    let n = s.unicode_len();
    let m = p.unicode_len();
    if m > n {
        return false;
    }
    let off = n - m;
    let mut i: usize = 0;
    while i < m
        invariant
            m == p@.len(),
            n == s@.len(),
            m <= n,
            off == n - m,
            i <= m,
            forall|j: int| 0 <= j < i ==> s@[off + j] == p@[j],
        decreases m - i,
    {
        if s.get_char(off + i) != p.get_char(i) {
            assert(s@.subrange(off as int, n as int)[i as int] != p@[i as int]);
            return false;
        }
        i = i + 1;
    }
    assert(s@.subrange(off as int, n as int) =~= p@);
    true
}

/// The lookup key of an archive member path (see `strip_part_prefix`).
pub fn normalize_entry_name(name: &str) -> (r: String)
    ensures
        r@ == strip_part_prefix(name@),
{
    proof {
        reveal_strlit("ldraw/");
        reveal_strlit("parts/");
        reveal_strlit("p/");
        reveal_strlit("models/");
        assert("ldraw/"@ =~= part_prefixes()[0]);
        assert("parts/"@ =~= part_prefixes()[1]);
        assert("p/"@ =~= part_prefixes()[2]);
        assert("models/"@ =~= part_prefixes()[3]);
    }
    let n = name.unicode_len();
    let skip: usize = if has_prefix(name, "ldraw/") {
        6
    } else if has_prefix(name, "parts/") {
        6
    } else if has_prefix(name, "p/") {
        2
    } else if has_prefix(name, "models/") {
        7
    } else {
        0
    };
    proof {
        reveal_with_fuel(first_prefix_from, 5);
    }
    String::from_str(name.substring_char(skip, n))
}

/// Whether a lookup key names model data (see `is_part_file`).
pub fn is_part_file_name(key: &str) -> (r: bool)
    ensures
        r == is_part_file(key@),
{
    proof {
        reveal_strlit(".ldr");
        reveal_strlit(".dat");
        assert(".ldr"@ =~= seq!['.', 'l', 'd', 'r']);
        assert(".dat"@ =~= seq!['.', 'd', 'a', 't']);
    }
    has_suffix(key, ".ldr") || has_suffix(key, ".dat")
}

/// The lookup key of a query name (see `slash_normalized`).
pub fn normalize_query_name(query: &str) -> (r: String)
    ensures
        r@ == slash_normalized(query@),
{
    let n = query.unicode_len();
    let mut out = String::new();
    let mut i: usize = 0;
    while i < n
        invariant
            n == query@.len(),
            i <= n,
            out@ == slash_normalized(query@.subrange(0, i as int)),
        decreases n - i,
    {
        let ghost before = out@;
        if query.get_char(i) == '\\' {
            proof {
                reveal_strlit("/");
            }
            out.append("/");
        } else {
            out.append(query.substring_char(i, i + 1));
        }
        assert(slash_normalized(query@.subrange(0, i + 1)) =~= slash_normalized(
            query@.subrange(0, i as int),
        ).push(slash_normalized(query@)[i as int]));
        assert(out@ =~= slash_normalized(query@.subrange(0, i + 1)));
        i = i + 1;
    }
    assert(query@.subrange(0, n as int) =~= query@);
    out
}

} // verus!
