//! Verified string helpers: equality and substring search over `&str`,
//! joining of path segments, and decimal rendering of counters.

use vstd::prelude::*;
use vstd::string::*;

verus! {

/// What `str::to_lowercase` returns for a given sequence of characters.  The
/// full Unicode lowercase mapping is not written out here; the classifier's
/// contracts speak of this name instead.
pub uninterp spec fn lower_of(s: Seq<char>) -> Seq<char>;

/// Relies on `str::to_lowercase`: its result depends on the characters of the
/// input alone (no locale is consulted).
#[verifier::external_body]
pub fn to_lowercase_string(s: &str) -> (r: String)
    ensures
        r@ == lower_of(s@),
{
    s.to_lowercase()
}

/// The decimal digit character for a value below ten.
pub open spec fn digit_char(d: nat) -> char {
    ((48 + d) as u8) as char
}

/// The decimal representation of a natural number, most significant digit
/// first, with no leading zeros (a single `'0'` for zero).
pub open spec fn spec_decimal(n: nat) -> Seq<char>
    decreases n,
{
    if n < 10 {
        seq![digit_char(n)]
    } else {
        spec_decimal(n / 10).push(digit_char(n % 10))
    }
}

/// The one-character string slice for a decimal digit.
fn digit_str(d: usize) -> (s: &'static str)
    requires
        d < 10,
    ensures
        s@ == seq![digit_char(d as nat)],
{
    proof {
        reveal_strlit("0");
        reveal_strlit("1");
        reveal_strlit("2");
        reveal_strlit("3");
        reveal_strlit("4");
        reveal_strlit("5");
        reveal_strlit("6");
        reveal_strlit("7");
        reveal_strlit("8");
        reveal_strlit("9");
    }
    match d {
        0 => "0",
        1 => "1",
        2 => "2",
        3 => "3",
        4 => "4",
        5 => "5",
        6 => "6",
        7 => "7",
        8 => "8",
        _ => "9",
    }
}

/// Renders a number as its decimal digits, most significant first.
pub fn usize_to_decimal(n: usize) -> (s: String)
    ensures
        s@ == spec_decimal(n as nat),
    decreases n,
{
    if n < 10 {
        let s = String::from_str(digit_str(n));
        proof {
            assert(s@ =~= spec_decimal(n as nat));
        }
        s
    } else {
        let mut s = usize_to_decimal(n / 10);
        s.append(digit_str(n % 10));
        proof {
            assert(s@ =~= spec_decimal(n as nat));
        }
        s
    }
}

/// Character-for-character equality of two string slices.
pub fn str_eq(a: &str, b: &str) -> (r: bool)
    ensures
        r == (a@ == b@),
{
    let alen = a.unicode_len();
    let blen = b.unicode_len();
    if alen != blen {
        return false;
    }
    let mut i: usize = 0;
    while i < alen
        invariant
            alen == a@.len(),
            blen == b@.len(),
            alen == blen,
            i <= alen,
            forall|j: int| 0 <= j < i ==> a@[j] == b@[j],
        decreases alen - i,
    {
        if a.get_char(i) != b.get_char(i) {
            return false;
        }
        i += 1;
    }
    proof {
        assert(a@ =~= b@);
    }
    true
}

/// The needle occurs in the haystack starting at position `i`.
pub open spec fn contains_at(hay: Seq<char>, needle: Seq<char>, i: int) -> bool {
    0 <= i && i + needle.len() <= hay.len() && hay.subrange(i, i + needle.len()) == needle
}

/// The needle occurs somewhere in the haystack.
pub open spec fn spec_contains(hay: Seq<char>, needle: Seq<char>) -> bool {
    exists|i: int| contains_at(hay, needle, i)
}

/// Whether the needle occurs in the haystack starting at position `i`.
fn matches_at(hay: &str, needle: &str, i: usize) -> (r: bool)
    requires
        i + needle@.len() <= hay@.len(),
    ensures
        r == contains_at(hay@, needle@, i as int),
{
    let hlen = hay.unicode_len();
    let nlen = needle.unicode_len();
    let mut j: usize = 0;
    while j < nlen
        invariant
            hlen == hay@.len(),
            nlen == needle@.len(),
            i + nlen <= hay@.len(),
            j <= nlen,
            forall|k: int| 0 <= k < j ==> hay@[i + k] == needle@[k],
        decreases nlen - j,
    {
        if hay.get_char(i + j) != needle.get_char(j) {
            proof {
                assert(hay@.subrange(i as int, i + needle@.len())[j as int] != needle@[j as int]);
            }
            return false;
        }
        j += 1;
    }
    proof {
        assert(hay@.subrange(i as int, i + needle@.len()) =~= needle@);
    }
    true
}

/// Substring search: whether `needle` occurs anywhere in `hay`.
pub fn str_contains(hay: &str, needle: &str) -> (r: bool)
    ensures
        r == spec_contains(hay@, needle@),
{
    let hlen = hay.unicode_len();
    let nlen = needle.unicode_len();
    if nlen > hlen {
        proof {
            assert(forall|i: int| !contains_at(hay@, needle@, i));
        }
        return false;
    }
    if nlen == 0 {
        proof {
            assert(hay@.subrange(0, 0) =~= needle@);
            assert(contains_at(hay@, needle@, 0));
        }
        return true;
    }
    let mut i: usize = 0;
    while i <= hlen - nlen
        invariant
            hlen == hay@.len(),
            nlen == needle@.len(),
            1 <= nlen <= hlen,
            i <= hlen - nlen + 1,
            forall|j: int| 0 <= j < i ==> !contains_at(hay@, needle@, j),
        decreases hlen - i,
    {
        if matches_at(hay, needle, i) {
            return true;
        }
        i += 1;
    }
    proof {
        assert(forall|j: int| j >= i ==> !contains_at(hay@, needle@, j));
    }
    false
}

/// The parts joined with the separator between consecutive parts.
pub open spec fn spec_join(parts: Seq<Seq<char>>, sep: Seq<char>) -> Seq<char>
    decreases parts.len(),
{
    if parts.len() == 0 {
        Seq::empty()
    } else if parts.len() == 1 {
        parts[0]
    } else {
        parts[0] + sep + spec_join(parts.drop_first(), sep)
    }
}

/// Appending one more part extends the join by a separator and that part.
pub proof fn lemma_join_push(parts: Seq<Seq<char>>, sep: Seq<char>, last: Seq<char>)
    requires
        parts.len() >= 1,
    ensures
        spec_join(parts.push(last), sep) == spec_join(parts, sep) + sep + last,
    decreases parts.len(),
{
    let p = parts.push(last);
    if parts.len() == 1 {
        assert(p.len() == 2);
        assert(p.drop_first() =~= seq![last]);
        assert(spec_join(seq![last], sep) == last);
        assert(spec_join(p, sep) == p[0] + sep + spec_join(p.drop_first(), sep));
        assert(p[0] == parts[0]);
        assert(spec_join(p, sep) == parts[0] + sep + last);
    } else {
        assert(p.drop_first() =~= parts.drop_first().push(last));
        lemma_join_push(parts.drop_first(), sep, last);
        assert(spec_join(p, sep) == p[0] + sep + spec_join(parts.drop_first().push(last), sep));
        assert(p[0] == parts[0]);
        assert((parts[0] + sep + (spec_join(parts.drop_first(), sep) + sep + last)) =~= (parts[0]
            + sep + spec_join(parts.drop_first(), sep)) + sep + last);
    }
}

/// Number of positions at or after `i` where `sub` occurs in `s`.
pub open spec fn count_occ_from(s: Seq<char>, sub: Seq<char>, i: int) -> nat
    decreases s.len() - i,
{
    if i >= s.len() {
        0
    } else {
        (if contains_at(s, sub, i) {
            1nat
        } else {
            0nat
        }) + count_occ_from(s, sub, i + 1)
    }
}

/// Number of positions where `sub` occurs in `s`.
pub open spec fn count_occ(s: Seq<char>, sub: Seq<char>) -> nat {
    count_occ_from(s, sub, 0)
}

proof fn lemma_count_skip_range(s: Seq<char>, sub: Seq<char>, i: int, j: int)
    requires
        i <= j,
        forall|p: int| i <= p < j ==> !contains_at(s, sub, p),
    ensures
        count_occ_from(s, sub, i) == count_occ_from(s, sub, j),
    decreases j - i,
{
    if i < j {
        lemma_count_skip_range(s, sub, i + 1, j);
    }
}

proof fn lemma_count_none(s: Seq<char>, sub: Seq<char>, i: int)
    requires
        forall|p: int| i <= p ==> !contains_at(s, sub, p),
    ensures
        count_occ_from(s, sub, i) == 0,
    decreases s.len() - i,
{
    if i < s.len() {
        lemma_count_none(s, sub, i + 1);
    }
}

proof fn lemma_count_shift(s: Seq<char>, t: Seq<char>, sub: Seq<char>, d: int, i: int)
    requires
        d >= 0,
        i >= 0,
        s.len() == t.len() + d,
        forall|p: int| 0 <= p ==> (contains_at(s, sub, p + d) <==> contains_at(t, sub, p)),
    ensures
        count_occ_from(s, sub, i + d) == count_occ_from(t, sub, i),
    decreases t.len() - i,
{
    if i >= t.len() {
        assert(i + d >= s.len());
    } else {
        assert(contains_at(s, sub, i + d) <==> contains_at(t, sub, i));
        lemma_count_shift(s, t, sub, d, i + 1);
    }
}

/// A name is clean when it is non-empty and has no `'>'` character; joins of
/// clean names contain the separator exactly between consecutive names.
pub open spec fn clean_name(n: Seq<char>) -> bool {
    n.len() >= 1 && forall|i: int| 0 <= i < n.len() ==> n[i] != '>'
}

proof fn lemma_join_first(names: Seq<Seq<char>>, sep: Seq<char>)
    requires
        names.len() >= 1,
        names[0].len() >= 1,
    ensures
        spec_join(names, sep).len() >= 1,
        spec_join(names, sep)[0] == names[0][0],
    decreases names.len(),
{
    if names.len() == 1 {
    } else {
        assert(spec_join(names, sep) == names[0] + sep + spec_join(names.drop_first(), sep));
        assert((names[0] + sep + spec_join(names.drop_first(), sep))[0] == names[0][0]);
    }
}

/// An item's depth counts the `" > "`-separated segments of its parent path:
/// the path that joins `n` clean ancestor names holds the separator at
/// exactly `n - 1` positions, and it is empty exactly when there is no
/// ancestor.  (A name that is empty or contains `'>'` can break this
/// correspondence, so those are left out.)
pub proof fn lemma_depth_matches_segments(names: Seq<Seq<char>>)
    requires
        forall|i: int| 0 <= i < names.len() ==> clean_name(#[trigger] names[i]),
    ensures
        (spec_join(names, " > "@).len() == 0) == (names.len() == 0),
        names.len() == count_occ(spec_join(names, " > "@), " > "@) + (
        if spec_join(names, " > "@).len() == 0 {
            0int
        } else {
            1int
        }),
    decreases names.len(),
{
    reveal_strlit(" > ");
    let sep = " > "@;
    assert(sep.len() == 3 && sep[0] == ' ' && sep[1] == '>' && sep[2] == ' ');
    if names.len() == 0 {
        assert(spec_join(names, sep).len() == 0);
        assert(forall|p: int| !contains_at(spec_join(names, sep), sep, p));
        lemma_count_none(spec_join(names, sep), sep, 0);
    } else if names.len() == 1 {
        let s = spec_join(names, sep);
        assert(s == names[0]);
        assert(clean_name(names[0]));
        assert forall|p: int| !contains_at(s, sep, p) by {
            if contains_at(s, sep, p) {
                assert(s.subrange(p, p + 3)[1] == s[p + 1]);
                assert(s[p + 1] == '>');
            }
        }
        lemma_count_none(s, sep, 0);
    } else {
        let a = names[0];
        let rest = names.drop_first();
        assert(forall|i: int| 0 <= i < rest.len() ==> clean_name(#[trigger] rest[i]));
        lemma_depth_matches_segments(rest);
        let jn = spec_join(rest, sep);
        let s = spec_join(names, sep);
        assert(s == a + sep + jn);
        let al = a.len() as int;
        let d = al + 3;
        assert(jn.len() >= 1);
        assert(clean_name(rest[0]));
        lemma_join_first(rest, sep);
        assert(jn[0] == rest[0][0]);
        assert(jn[0] != '>');
        // no occurrence can start inside the first name
        assert forall|p: int| 0 <= p < al implies !contains_at(s, sep, p) by {
            if contains_at(s, sep, p) {
                assert(s.subrange(p, p + 3)[1] == s[p + 1]);
                assert(s[p + 1] == '>');
                if p + 1 < al {
                    assert(s[p + 1] == a[p + 1]);
                } else {
                    assert(s[p + 1] == sep[0]);
                }
            }
        }
        // the separator occurs right after the first name
        assert(contains_at(s, sep, al)) by {
            assert(s.subrange(al, al + 3) =~= sep);
        }
        // and not at the two positions after its start
        assert(!contains_at(s, sep, al + 1)) by {
            if contains_at(s, sep, al + 1) {
                assert(s.subrange(al + 1, al + 4)[1] == s[al + 2]);
                assert(s[al + 2] == sep[2]);
            }
        }
        assert(!contains_at(s, sep, al + 2)) by {
            if contains_at(s, sep, al + 2) {
                assert(s.subrange(al + 2, al + 5)[1] == s[al + 3]);
                assert(s[al + 3] == jn[0]);
            }
        }
        // from the end of the separator on, occurrences are those of the rest
        assert forall|p: int| 0 <= p implies (contains_at(s, sep, p + d) <==> contains_at(
            jn,
            sep,
            p,
        )) by {
            if contains_at(s, sep, p + d) {
                assert(s.subrange(p + d, p + d + 3) =~= jn.subrange(p, p + 3));
            }
            if contains_at(jn, sep, p) {
                assert(jn.subrange(p, p + 3) =~= s.subrange(p + d, p + d + 3));
            }
        }
        lemma_count_skip_range(s, sep, 0, al);
        assert(count_occ_from(s, sep, al) == 1 + count_occ_from(s, sep, al + 1));
        lemma_count_skip_range(s, sep, al + 1, al + 3);
        lemma_count_shift(s, jn, sep, d, 0);
        assert(count_occ(s, sep) == 1 + count_occ(jn, sep));
    }
}

/// Joins the given parts with the separator, as the parts' ancestor path is
/// written.
pub fn join_strings(parts: &Vec<String>, sep: &str) -> (r: String)
    ensures
        r@ == spec_join(parts.deep_view(), sep@),
{
    let ghost gparts = parts.deep_view();
    let mut r = String::new();
    let mut i: usize = 0;
    while i < parts.len()
        invariant
            gparts == parts.deep_view(),
            gparts.len() == parts.len(),
            forall|j: int| 0 <= j < gparts.len() ==> gparts[j] == parts@[j]@,
            i <= parts.len(),
            r@ == spec_join(gparts.take(i as int), sep@),
        decreases parts.len() - i,
    {
        if i > 0 {
            r.append(sep);
        }
        r.append(parts[i].as_str());
        proof {
            let t1 = gparts.take(i as int);
            let t2 = gparts.take(i + 1);
            assert(t2 =~= t1.push(gparts[i as int]));
            if i > 0 {
                lemma_join_push(t1, sep@, gparts[i as int]);
            } else {
                assert(t2 =~= seq![gparts[0]]);
            }
        }
        i += 1;
    }
    proof {
        assert(gparts.take(parts.len() as int) =~= gparts);
    }
    r
}

} // verus!
