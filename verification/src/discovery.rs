//! Disk discovery: picking the candidate block-device namespaces out of a
//! host's namespace listing.
//!
//! The host-specific enumeration (listing the namespace directory) is I/O
//! and stays outside the library; what stands here is the decision logic:
//! a listed entry names a disk namespace when, after stripping the leading
//! colons and the surrounding slashes, the remainder starts with `disk`.
//! On hosts without an enumeration mechanism discovery is an explicit
//! no-op that contributes no candidates.

use vstd::prelude::*;

verus! {

/// The byte `:`, the namespace separator.
pub const COLON: u8 = 58;

/// The byte `/`, the path separator.
pub const SLASH: u8 = 47;

/// The byte `d`.
pub const LOWER_D: u8 = 100;

/// The byte `i`.
pub const LOWER_I: u8 = 105;

/// The byte `s`.
pub const LOWER_S: u8 = 115;

/// The byte `k`.
pub const LOWER_K: u8 = 107;

/// `s` with every leading occurrence of `c` removed.
pub open spec fn drop_leading(s: Seq<u8>, c: u8) -> Seq<u8>
    decreases s.len(),
{
    if s.len() > 0 && s[0] == c {
        drop_leading(s.skip(1), c)
    } else {
        s
    }
}

/// `s` with every trailing occurrence of `c` removed.
pub open spec fn drop_trailing(s: Seq<u8>, c: u8) -> Seq<u8>
    decreases s.len(),
{
    if s.len() > 0 && s[s.len() - 1] == c {
        drop_trailing(s.drop_last(), c)
    } else {
        s
    }
}

/// A listed entry reduced to its bare scheme name: leading colons gone,
/// then the surrounding slashes gone.
pub open spec fn trimmed_scheme(name: Seq<u8>) -> Seq<u8> {
    drop_trailing(drop_leading(drop_leading(name, COLON), SLASH), SLASH)
}

/// Whether `p` is a prefix of `s`.
pub open spec fn has_prefix(s: Seq<u8>, p: Seq<u8>) -> bool {
    p.len() <= s.len() && s.subrange(0, p.len() as int) == p
}

/// The marker that a scheme name serves raw disks.
pub open spec fn disk_prefix() -> Seq<u8> {
    seq![LOWER_D, LOWER_I, LOWER_S, LOWER_K]
}

/// The candidate namespace derived from one listed entry: the trimmed
/// scheme name with a trailing colon, provided the name starts with
/// `disk`; nothing otherwise.
pub open spec fn spec_disk_scheme(name: Seq<u8>) -> Option<Seq<u8>> {
    let t = trimmed_scheme(name);
    if has_prefix(t, disk_prefix()) {
        Some(t.push(COLON))
    } else {
        None
    }
}

/// All candidate namespaces of a listing, in listing order.
pub open spec fn spec_disk_schemes(names: Seq<Seq<u8>>) -> Seq<Seq<u8>>
    decreases names.len(),
{
    if names.len() == 0 {
        Seq::empty()
    } else {
        let rest = spec_disk_schemes(names.drop_last());
        match spec_disk_scheme(names.last()) {
            Some(s) => rest.push(s),
            None => rest,
        }
    }
}

/// Dropping every leading `c` is the same as skipping past the first run
/// of `c`.
proof fn lemma_drop_leading_at(s: Seq<u8>, c: u8, i: int)
    requires
        0 <= i <= s.len(),
        forall|j: int| 0 <= j < i ==> s[j] == c,
        i < s.len() ==> s[i] != c,
    ensures
        drop_leading(s, c) == s.skip(i),
    decreases i,
{
    if i == 0 {
        assert(s.skip(0) =~= s);
    } else {
        assert(s[0] == c);
        let t = s.skip(1);
        assert(forall|j: int| 0 <= j < i - 1 ==> t[j] == c);
        lemma_drop_leading_at(t, c, i - 1);
        assert(t.skip(i - 1) =~= s.skip(i));
    }
}

/// Dropping every trailing `c` is the same as cutting the sequence at the
/// end of its last non-`c` byte.
proof fn lemma_drop_trailing_at(s: Seq<u8>, c: u8, k: int)
    requires
        0 <= k <= s.len(),
        forall|j: int| k <= j < s.len() ==> s[j] == c,
        k > 0 ==> s[k - 1] != c,
    ensures
        drop_trailing(s, c) == s.take(k),
    decreases s.len(),
{
    if k < s.len() {
        assert(s[s.len() - 1] == c);
        let t = s.drop_last();
        assert(forall|j: int| k <= j < t.len() ==> t[j] == c);
        lemma_drop_trailing_at(t, c, k);
        assert(t.take(k) =~= s.take(k));
    } else {
        assert(drop_trailing(s, c) == s);
        assert(s.take(k) =~= s);
    }
}

/// The candidate namespace derived from one listed entry name, or nothing
/// when the entry does not name a disk scheme.
pub fn disk_scheme_of(name: &Vec<u8>) -> (r: Option<Vec<u8>>)
    ensures
        match r {
            Some(v) => spec_disk_scheme(name@) == Some(v@),
            None => spec_disk_scheme(name@) is None,
        },
{
    let len = name.len();

    let mut start: usize = 0;
    while start < len && name[start] == COLON
        invariant
            0 <= start <= len,
            len == name@.len(),
            forall|j: int| 0 <= j < start ==> name@[j] == COLON,
        decreases len - start,
    {
        start = start + 1;
    }
    proof {
        lemma_drop_leading_at(name@, COLON, start as int);
    }
    let ghost s1 = name@.skip(start as int);

    let colon_end = start;
    while start < len && name[start] == SLASH
        invariant
            colon_end <= start <= len,
            len == name@.len(),
            forall|j: int| colon_end <= j < start ==> name@[j] == SLASH,
        decreases len - start,
    {
        start = start + 1;
    }
    proof {
        assert(forall|j: int| 0 <= j < start - colon_end ==> s1[j] == SLASH);
        lemma_drop_leading_at(s1, SLASH, start - colon_end);
        assert(s1.skip(start - colon_end) =~= name@.skip(start as int));
    }
    let ghost s2 = name@.skip(start as int);

    let mut end: usize = len;
    while end > start && name[end - 1] == SLASH
        invariant
            start <= end <= len,
            len == name@.len(),
            forall|j: int| end <= j < len ==> name@[j] == SLASH,
        decreases end,
    {
        end = end - 1;
    }
    proof {
        assert(forall|j: int| end - start <= j < s2.len() ==> s2[j] == SLASH);
        lemma_drop_trailing_at(s2, SLASH, end - start);
        assert(s2.take(end - start) =~= name@.subrange(start as int, end as int));
    }
    let ghost t = name@.subrange(start as int, end as int);
    assert(trimmed_scheme(name@) == t);

    if end - start >= 4
        && name[start] == LOWER_D
        && name[start + 1] == LOWER_I
        && name[start + 2] == LOWER_S
        && name[start + 3] == LOWER_K
    {
        assert(t.subrange(0, 4) =~= disk_prefix());
        let mut out: Vec<u8> = Vec::new();
        let mut i = start;
        while i < end
            invariant
                start <= i <= end <= len,
                len == name@.len(),
                out@ =~= name@.subrange(start as int, i as int),
            decreases end - i,
        {
            out.push(name[i]);
            i = i + 1;
        }
        out.push(COLON);
        assert(out@ =~= t.push(COLON));
        Some(out)
    } else {
        proof {
            if has_prefix(t, disk_prefix()) {
                assert(t.subrange(0, 4)[0] == t[0]);
                assert(t.subrange(0, 4)[1] == t[1]);
                assert(t.subrange(0, 4)[2] == t[2]);
                assert(t.subrange(0, 4)[3] == t[3]);
                assert(false);
            }
        }
        None
    }
}

/// The candidate disk namespaces of a host listing, in listing order.
/// Entries that do not name a disk scheme contribute nothing; a bad
/// entry never aborts discovery.
pub fn disk_scheme_candidates(names: &Vec<Vec<u8>>) -> (r: Vec<Vec<u8>>)
    ensures
        r.deep_view() == spec_disk_schemes(names.deep_view()),
{
    let mut out: Vec<Vec<u8>> = Vec::new();
    let mut i: usize = 0;
    while i < names.len()
        invariant
            0 <= i <= names@.len(),
            out.deep_view() == spec_disk_schemes(names.deep_view().take(i as int)),
        decreases names@.len() - i,
    {
        let ghost pre = names.deep_view().take(i as int);
        let ghost post = names.deep_view().take(i as int + 1);
        proof {
            assert(post.drop_last() =~~= pre);
            assert(post.last() == names@[i as int]@);
        }
        match disk_scheme_of(&names[i]) {
            Some(v) => {
                let ghost old_out = out.deep_view();
                out.push(v);
                proof {
                    assert(out.deep_view() =~~= old_out.push(v@));
                }
            },
            None => {},
        }
        i = i + 1;
    }
    proof {
        assert(names.deep_view().take(names@.len() as int) =~~= names.deep_view());
    }
    out
}

/// Discovery on a host without a block-device enumeration mechanism:
/// an explicit no-op that contributes no candidate paths. Hosts with a
/// mechanism list their namespaces outside the library and reduce the
/// listing through [`disk_scheme_candidates`].
pub fn disk_paths(paths: &mut Vec<String>)
    ensures
        final(paths)@ == old(paths)@,
{
}

} // verus!
