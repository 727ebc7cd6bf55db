//! Character-level groundwork for key material: the alphanumeric alphabet,
//! lexicographic ordering of keys, splitting a two-segment key at its
//! separator, and decimal rendering.

use vstd::prelude::*;
use vstd::string::*;

verus! {

/// A character usable in generated key material: ASCII alphanumeric.
pub open spec fn is_key_char(c: char) -> bool {
    ('A' as u32 <= c as u32 && c as u32 <= 'Z' as u32) || ('a' as u32 <= c as u32 && c as u32
        <= 'z' as u32) || ('0' as u32 <= c as u32 && c as u32 <= '9' as u32)
}

/// Every character of `s` is ASCII alphanumeric.
pub open spec fn alphanumeric_seq(s: Seq<char>) -> bool {
    forall|i: int| 0 <= i < s.len() ==> is_key_char(#[trigger] s[i])
}

/// Strict lexicographic order on character sequences, by code point.
pub open spec fn lex_lt(a: Seq<char>, b: Seq<char>) -> bool
    decreases a.len(),
{
    if b.len() == 0 {
        false
    } else if a.len() == 0 {
        true
    } else if (a[0] as int) < (b[0] as int) {
        true
    } else if a[0] == b[0] {
        lex_lt(a.drop_first(), b.drop_first())
    } else {
        false
    }
}

/// Reflexive closure of `lex_lt`.
pub open spec fn lex_leq(a: Seq<char>, b: Seq<char>) -> bool {
    lex_lt(a, b) || a == b
}

/// `lex_lt` is irreflexive-asymmetric: two sequences cannot each precede
/// the other.
pub proof fn lemma_lex_lt_asym(a: Seq<char>, b: Seq<char>)
    requires
        lex_lt(a, b),
    ensures
        !lex_lt(b, a),
    decreases a.len(),
{
    if a.len() != 0 && b.len() != 0 && a[0] == b[0] {
        lemma_lex_lt_asym(a.drop_first(), b.drop_first());
    }
}

/// `lex_lt` is total: any two sequences are ordered or equal.
pub proof fn lemma_lex_total(a: Seq<char>, b: Seq<char>)
    ensures
        lex_lt(a, b) || lex_lt(b, a) || a == b,
    decreases a.len(),
{
    if a.len() == 0 && b.len() == 0 {
        assert(a =~= b);
    } else if a.len() != 0 && b.len() != 0 && a[0] == b[0] {
        lemma_lex_total(a.drop_first(), b.drop_first());
        if a.drop_first() == b.drop_first() {
            assert(a.drop_first().len() == a.len() - 1);
            assert(b.drop_first().len() == b.len() - 1);
            assert(a.len() == b.len());
            assert forall|i: int| 0 <= i < a.len() implies a[i] == b[i] by {
                if i >= 1 {
                    assert(a.drop_first()[i - 1] == a[i]);
                    assert(b.drop_first()[i - 1] == b[i]);
                }
            }
            assert(a =~= b);
        }
    } else if a.len() != 0 && b.len() != 0 {
        assert(a[0] != b[0]);
        assert((a[0] as int) < (b[0] as int) || (b[0] as int) < (a[0] as int));
        assert(lex_lt(a, b) || lex_lt(b, a));
    }
}

/// `lex_lt` is transitive.
pub proof fn lemma_lex_lt_trans(a: Seq<char>, b: Seq<char>, c: Seq<char>)
    requires
        lex_lt(a, b),
        lex_lt(b, c),
    ensures
        lex_lt(a, c),
    decreases a.len(),
{
    if a.len() != 0 && b.len() != 0 && c.len() != 0 && a[0] == b[0] && b[0] == c[0] {
        lemma_lex_lt_trans(a.drop_first(), b.drop_first(), c.drop_first());
    }
}

/// `lex_leq` is transitive.
pub proof fn lemma_lex_leq_trans(a: Seq<char>, b: Seq<char>, c: Seq<char>)
    requires
        lex_leq(a, b),
        lex_leq(b, c),
    ensures
        lex_leq(a, c),
{
    if lex_lt(a, b) && lex_lt(b, c) {
        lemma_lex_lt_trans(a, b, c);
    }
}

/// `lex_leq` is antisymmetric.
pub proof fn lemma_lex_leq_antisym(a: Seq<char>, b: Seq<char>)
    requires
        lex_leq(a, b),
        lex_leq(b, a),
    ensures
        a == b,
{
    if lex_lt(a, b) {
        lemma_lex_lt_asym(a, b);
    }
}

/// The lexicographically least element of a non-empty family of sequences.
pub open spec fn lex_min_seq(vals: Seq<Seq<char>>) -> Seq<char>
    recommends
        vals.len() > 0,
    decreases vals.len(),
{
    if vals.len() <= 1 {
        vals[0]
    } else {
        let rest = lex_min_seq(vals.drop_first());
        if lex_leq(vals[0], rest) {
            vals[0]
        } else {
            rest
        }
    }
}

/// The least element belongs to the family and precedes every member.
pub proof fn lemma_lex_min_seq(vals: Seq<Seq<char>>)
    requires
        vals.len() > 0,
    ensures
        vals.contains(lex_min_seq(vals)),
        forall|i: int| 0 <= i < vals.len() ==> lex_leq(lex_min_seq(vals), #[trigger] vals[i]),
    decreases vals.len(),
{
    if vals.len() > 1 {
        let rest = vals.drop_first();
        lemma_lex_min_seq(rest);
        let m = lex_min_seq(vals);
        let mr = lex_min_seq(rest);
        lemma_lex_total(vals[0], mr);
        assert forall|i: int| 0 <= i < vals.len() implies lex_leq(m, #[trigger] vals[i]) by {
            if i >= 1 {
                assert(vals[i] == rest[i - 1]);
                if !lex_leq(vals[0], mr) {
                    assert(lex_leq(mr, rest[i - 1]));
                } else {
                    lemma_lex_leq_trans(vals[0], mr, rest[i - 1]);
                }
            }
        }
        if !lex_leq(vals[0], mr) {
            assert(rest.contains(mr));
            let j = choose|j: int| 0 <= j < rest.len() && rest[j] == mr;
            assert(vals[j + 1] == mr);
        }
    } else {
        assert(vals[0] == lex_min_seq(vals));
    }
}

/// A member preceding every member is the least element.
pub proof fn lemma_lex_min_seq_unique(vals: Seq<Seq<char>>, v: Seq<char>)
    requires
        vals.len() > 0,
        vals.contains(v),
        forall|i: int| 0 <= i < vals.len() ==> lex_leq(v, #[trigger] vals[i]),
    ensures
        v == lex_min_seq(vals),
{
    lemma_lex_min_seq(vals);
    let m = lex_min_seq(vals);
    let i = choose|i: int| 0 <= i < vals.len() && vals[i] == m;
    let j = choose|j: int| 0 <= j < vals.len() && vals[j] == v;
    assert(lex_leq(v, vals[i]));
    assert(lex_leq(m, vals[j]));
    lemma_lex_leq_antisym(v, m);
}

/// Index of the first `'_'` in `s`, or `s.len()` if none occurs.
pub open spec fn underscore_idx(s: Seq<char>) -> int
    decreases s.len(),
{
    if s.len() == 0 {
        0
    } else if s[0] == '_' {
        0
    } else {
        1 + underscore_idx(s.drop_first())
    }
}

/// Whether `s` holds a `'_'` separator anywhere.
pub open spec fn has_underscore(s: Seq<char>) -> bool {
    underscore_idx(s) < s.len()
}

/// The public segment of a two-segment key: the characters before the
/// first `'_'` (the whole of `s` if no separator occurs).
pub open spec fn pub_part(s: Seq<char>) -> Seq<char> {
    s.subrange(0, underscore_idx(s))
}

/// Basic facts about `underscore_idx`: it is a position within the
/// sequence, everything before it differs from `'_'`, and it points at a
/// `'_'` when one occurs.
pub proof fn lemma_underscore_idx(s: Seq<char>)
    ensures
        0 <= underscore_idx(s) <= s.len(),
        forall|j: int| 0 <= j < underscore_idx(s) ==> s[j] != '_',
        underscore_idx(s) < s.len() ==> s[underscore_idx(s)] == '_',
    decreases s.len(),
{
    if s.len() != 0 && s[0] != '_' {
        let d = s.drop_first();
        lemma_underscore_idx(d);
        assert forall|j: int| 0 <= j < underscore_idx(s) implies s[j] != '_' by {
            if j >= 1 {
                assert(d[j - 1] == s[j]);
                assert(d[j - 1] != '_');
            }
        }
        if underscore_idx(s) < s.len() {
            assert(d[underscore_idx(s) - 1] == s[underscore_idx(s)]);
        }
    }
}

/// Sharing a prefix of length `i` reduces the lexicographic comparison to
/// the comparison of the remainders.
pub proof fn lemma_lex_lt_common_prefix(a: Seq<char>, b: Seq<char>, i: int)
    requires
        0 <= i <= a.len(),
        i <= b.len(),
        forall|j: int| 0 <= j < i ==> a[j] == b[j],
    ensures
        lex_lt(a, b) == lex_lt(a.skip(i), b.skip(i)),
    decreases i,
{
    if i == 0 {
        assert(a.skip(0) =~= a);
        assert(b.skip(0) =~= b);
    } else {
        let da = a.drop_first();
        let db = b.drop_first();
        assert(a[0] == b[0]);
        assert forall|j: int| 0 <= j < i - 1 implies da[j] == db[j] by {
            assert(a[j + 1] == b[j + 1]);
        }
        lemma_lex_lt_common_prefix(da, db, i - 1);
        assert(da.skip(i - 1) =~= a.skip(i));
        assert(db.skip(i - 1) =~= b.skip(i));
    }
}

/// Compares two strings in lexicographic code-point order.
pub fn str_lt(a: &String, b: &String) -> (r: bool)
    ensures
        r == lex_lt(a@, b@),
{
    let alen: usize = a.as_str().unicode_len();
    let blen: usize = b.as_str().unicode_len();
    let mut i: usize = 0;
    while i < blen
        invariant
            i <= alen,
            i <= blen,
            alen as int == a@.len(),
            blen as int == b@.len(),
            forall|j: int| 0 <= j < i ==> a@[j] == b@[j],
        decreases blen - i,
    {
        if i == alen {
            proof {
                lemma_lex_lt_common_prefix(a@, b@, i as int);
            }
            return true;
        }
        let ca = a.as_str().get_char(i);
        let cb = b.as_str().get_char(i);
        if ca < cb {
            proof {
                lemma_lex_lt_common_prefix(a@, b@, i as int);
            }
            return true;
        }
        if cb < ca {
            proof {
                lemma_lex_lt_common_prefix(a@, b@, i as int);
            }
            return false;
        }
        i = i + 1;
    }
    proof {
        lemma_lex_lt_common_prefix(a@, b@, i as int);
    }
    false
}

/// The separator position is determined by its characterization: no `'_'`
/// before position `i`, and either `i` is the end or holds a `'_'`.
pub proof fn lemma_underscore_idx_is(s: Seq<char>, i: int)
    requires
        0 <= i <= s.len(),
        forall|j: int| 0 <= j < i ==> s[j] != '_',
        i < s.len() ==> s[i] == '_',
    ensures
        underscore_idx(s) == i,
{
    lemma_underscore_idx(s);
    let u = underscore_idx(s);
    if u < i {
        assert(s[u] != '_');
    } else if i < u {
        assert(s[i] != '_');
    }
}

/// Position of the first `'_'` of `s`, or its length if none occurs.
pub fn find_underscore(s: &str) -> (i: usize)
    ensures
        i as int == underscore_idx(s@),
{
    let n: usize = s.unicode_len();
    let mut i: usize = 0;
    while i < n
        invariant
            i <= n,
            n as int == s@.len(),
            forall|j: int| 0 <= j < i ==> s@[j] != '_',
        decreases n - i,
    {
        if s.get_char(i) == '_' {
            proof {
                lemma_underscore_idx_is(s@, i as int);
            }
            return i;
        }
        i = i + 1;
    }
    proof {
        lemma_underscore_idx_is(s@, n as int);
    }
    n
}

/// The public segment of a two-segment secret key: the characters before
/// the first `'_'`.
pub fn split_public_key(s: &String) -> (r: String)
    ensures
        r@ == pub_part(s@),
{
    proof {
        lemma_underscore_idx(s@);
    }
    let i = find_underscore(s.as_str());
    let part = s.as_str().substring_char(0, i);
    String::from_str(part)
}

/// Relies on `String::push`: appends the given character to the end of
/// the string.
#[verifier::external_body]
pub(crate) fn push_char(s: &mut String, c: char)
    ensures
        final(s)@ == old(s)@.push(c),
{
    s.push(c)
}

/// The character for a single decimal digit.
pub open spec fn dec_digit(d: nat) -> char {
    (48 + d) as char
}

/// The decimal rendering of `n`, most significant digit first.
pub open spec fn dec_str(n: nat) -> Seq<char>
    decreases n,
{
    if n < 10 {
        seq![dec_digit(n)]
    } else {
        dec_str(n / 10).push(dec_digit(n % 10))
    }
}

/// A decimal rendering is non-empty and uses only alphanumeric characters.
pub proof fn lemma_dec_str_chars(n: nat)
    ensures
        dec_str(n).len() >= 1,
        alphanumeric_seq(dec_str(n)),
    decreases n,
{
    if n < 10 {
        assert(is_key_char(dec_digit(n)));
    } else {
        lemma_dec_str_chars(n / 10);
        assert(is_key_char(dec_digit(n % 10)));
        assert forall|i: int| 0 <= i < dec_str(n).len() implies is_key_char(
            #[trigger] dec_str(n)[i],
        ) by {
            if i < dec_str(n).len() - 1 {
                assert(dec_str(n)[i] == dec_str(n / 10)[i]);
            }
        }
    }
}

/// Renders `n` in decimal.
pub fn u64_to_dec_string(n: u64) -> (s: String)
    ensures
        s@ == dec_str(n as nat),
    decreases n,
{
    if n < 10 {
        let mut s = String::new();
        push_char(&mut s, dec_digit_char(n));
        proof {
            assert(s@ =~= dec_str(n as nat));
        }
        s
    } else {
        let mut s = u64_to_dec_string(n / 10);
        push_char(&mut s, dec_digit_char(n % 10));
        proof {
            assert(s@ =~= dec_str(n as nat));
        }
        s
    }
}

/// The character for digit `d`.
fn dec_digit_char(d: u64) -> (c: char)
    requires
        d < 10,
    ensures
        c == dec_digit(d as nat),
{
    (48 + d as u8) as char
}

} // verus!

