//! String utilities: character-level comparison, prefix tests, substring
//! search and splitting. Everything here is defined over the character
//! sequences that `&str` and `String` denote.

use vstd::prelude::*;

verus! {

/// Strict lexicographic order on character sequences, comparing characters
/// by their scalar values.
pub open spec fn chars_lt(a: Seq<char>, b: Seq<char>) -> bool
    decreases a.len(),
{
    if a.len() == 0 {
        b.len() > 0
    } else if b.len() == 0 {
        false
    } else if a[0] as u32 != b[0] as u32 {
        (a[0] as u32) < (b[0] as u32)
    } else {
        chars_lt(a.drop_first(), b.drop_first())
    }
}

/// Reflexive closure of `chars_lt`.
pub open spec fn chars_le(a: Seq<char>, b: Seq<char>) -> bool {
    a == b || chars_lt(a, b)
}

proof fn lemma_char_cast_injective(c1: char, c2: char)
    requires
        c1 as u32 == c2 as u32,
    ensures
        c1 == c2,
{
}

pub proof fn lemma_chars_lt_irreflexive(a: Seq<char>)
    ensures
        !chars_lt(a, a),
    decreases a.len(),
{
    if a.len() > 0 {
        lemma_chars_lt_irreflexive(a.drop_first());
    }
}

pub proof fn lemma_chars_lt_asymmetric(a: Seq<char>, b: Seq<char>)
    requires
        chars_lt(a, b),
    ensures
        !chars_lt(b, a),
    decreases a.len(),
{
    if a.len() > 0 && b.len() > 0 && a[0] as u32 == b[0] as u32 {
        lemma_chars_lt_asymmetric(a.drop_first(), b.drop_first());
    }
}

pub proof fn lemma_chars_lt_connected(a: Seq<char>, b: Seq<char>)
    requires
        a != b,
    ensures
        chars_lt(a, b) || chars_lt(b, a),
    decreases a.len(),
{
    if a.len() == 0 {
        if b.len() == 0 {
            assert(a =~= b);
        }
    } else if b.len() == 0 {
    } else if a[0] as u32 == b[0] as u32 {
        lemma_char_cast_injective(a[0], b[0]);
        assert(a[0] == b[0]);
        if a.drop_first() == b.drop_first() {
            assert(a.drop_first().len() == a.len() - 1);
            assert(b.drop_first().len() == b.len() - 1);
            assert forall|i: int| 0 <= i < a.len() implies a[i] == b[i] by {
                if i >= 1 {
                    assert(a.drop_first()[i - 1] == a[i]);
                    assert(b.drop_first()[i - 1] == b[i]);
                }
            }
            assert(a =~= b);
        } else {
            lemma_chars_lt_connected(a.drop_first(), b.drop_first());
        }
    }
}

pub proof fn lemma_chars_lt_transitive(a: Seq<char>, b: Seq<char>, c: Seq<char>)
    requires
        chars_lt(a, b),
        chars_lt(b, c),
    ensures
        chars_lt(a, c),
    decreases a.len(),
{
    if a.len() > 0 {
        if b.len() > 0 && c.len() > 0 && a[0] as u32 == b[0] as u32 && b[0] as u32 == c[0]
            as u32 {
            lemma_chars_lt_transitive(a.drop_first(), b.drop_first(), c.drop_first());
        }
    }
}

/// `a` and `b` denote the same character sequence.
pub fn str_eq(a: &str, b: &str) -> (r: bool)
    ensures
        r == (a@ == b@),
{
    let alen = a.unicode_len();
    let blen = b.unicode_len();
    if alen != blen {
        proof {
            if a@ == b@ {
                assert(a@.len() == b@.len());
            }
        }
        return false;
    }
    let mut i: usize = 0;
    while i < alen
        invariant
            alen == a@.len(),
            blen == b@.len(),
            alen == blen,
            i <= alen,
            forall|j: int| 0 <= j < i ==> a@[j] == b@[j],
        decreases alen - i,
    {
        if a.get_char(i) != b.get_char(i) {
            proof {
                if a@ == b@ {
                    assert(a@[i as int] == b@[i as int]);
                }
            }
            return false;
        }
        i += 1;
    }
    proof {
        assert(a@ =~= b@);
    }
    true
}

/// `a` comes strictly before `b` in the lexicographic order on characters.
#[verifier::loop_isolation(false)]
pub fn str_lt(a: &str, b: &str) -> (r: bool)
    ensures
        r == chars_lt(a@, b@),
{
    let alen = a.unicode_len();
    let blen = b.unicode_len();
    let mut i: usize = 0;
    proof {
        assert(a@.skip(0) =~= a@);
        assert(b@.skip(0) =~= b@);
    }
    loop
        invariant
            alen == a@.len(),
            blen == b@.len(),
            i <= alen,
            i <= blen,
            chars_lt(a@, b@) == chars_lt(a@.skip(i as int), b@.skip(i as int)),
        decreases alen - i,
    {
        if i == alen {
            return i < blen;
        }
        if i == blen {
            return false;
        }
        let ca = a.get_char(i);
        let cb = b.get_char(i);
        if ca as u32 != cb as u32 {
            return (ca as u32) < (cb as u32);
        }
        proof {
            assert(a@.skip(i as int)[0] == a@[i as int]);
            assert(b@.skip(i as int)[0] == b@[i as int]);
            assert(a@.skip(i as int).drop_first() =~= a@.skip(i + 1));
            assert(b@.skip(i as int).drop_first() =~= b@.skip(i + 1));
        }
        i += 1;
    }
}

/// `s` begins with the characters of `prefix`.
pub open spec fn has_prefix(s: Seq<char>, prefix: Seq<char>) -> bool {
    prefix.len() <= s.len() && s.subrange(0, prefix.len() as int) == prefix
}

#[verifier::loop_isolation(false)]
pub fn starts_with(s: &str, prefix: &str) -> (r: bool)
    ensures
        r == has_prefix(s@, prefix@),
{
    let slen = s.unicode_len();
    let plen = prefix.unicode_len();
    if plen > slen {
        return false;
    }
    let mut i: usize = 0;
    while i < plen
        invariant
            plen <= slen,
            i <= plen,
            forall|j: int| 0 <= j < i ==> s@[j] == prefix@[j],
        decreases plen - i,
    {
        if s.get_char(i) != prefix.get_char(i) {
            proof {
                if has_prefix(s@, prefix@) {
                    assert(s@.subrange(0, plen as int)[i as int] == s@[i as int]);
                }
            }
            return false;
        }
        i += 1;
    }
    proof {
        assert(s@.subrange(0, plen as int) =~= prefix@);
    }
    true
}

/// Index of the first occurrence of `d` as a contiguous run inside `s`.
pub open spec fn find_sub(s: Seq<char>, d: Seq<char>) -> Option<int>
    decreases s.len(),
{
    if d.len() > s.len() {
        None
    } else if d.len() == 0 {
        Some(0int)
    } else if s.subrange(0, d.len() as int) == d {
        Some(0int)
    } else {
        match find_sub(s.drop_first(), d) {
            Some(i) => Some(i + 1),
            None => None,
        }
    }
}

/// Index of the first occurrence of the character `c` in `s`.
pub open spec fn find_char(s: Seq<char>, c: char) -> Option<int>
    decreases s.len(),
{
    if s.len() == 0 {
        None
    } else if s[0] == c {
        Some(0int)
    } else {
        match find_char(s.drop_first(), c) {
            Some(i) => Some(i + 1),
            None => None,
        }
    }
}

pub proof fn lemma_find_sub_at(s: Seq<char>, d: Seq<char>, i: int)
    requires
        0 <= i,
        i + d.len() <= s.len(),
        s.subrange(i, i + d.len()) == d,
        forall|j: int| 0 <= j < i ==> #[trigger] s.subrange(j, j + d.len()) != d,
    ensures
        find_sub(s, d) == Some(i),
    decreases s.len(),
{
    if d.len() == 0 && i > 0 {
        assert(s.subrange(0, 0int + d.len()) =~= d);
    } else if i == 0 {
        assert(s.subrange(0, d.len() as int) == d);
    } else {
        assert(s.subrange(0, 0int + d.len()) != d);
        assert(s.subrange(0, d.len() as int) != d);
        let t = s.drop_first();
        assert(t.subrange(i - 1, i - 1 + d.len()) =~= s.subrange(i, i + d.len()));
        assert forall|j: int| 0 <= j < i - 1 implies #[trigger] t.subrange(j, j + d.len()) != d by {
            assert(t.subrange(j, j + d.len()) =~= s.subrange(j + 1, j + 1 + d.len()));
        }
        lemma_find_sub_at(t, d, i - 1);
    }
}

pub proof fn lemma_find_sub_none(s: Seq<char>, d: Seq<char>)
    requires
        forall|j: int| 0 <= j && j + d.len() <= s.len() ==> #[trigger] s.subrange(j, j + d.len()) != d,
    ensures
        find_sub(s, d) == None::<int>,
    decreases s.len(),
{
    if d.len() == 0 && d.len() <= s.len() {
        assert(s.subrange(0, 0int + d.len()) =~= d);
    } else if d.len() <= s.len() {
        assert(s.subrange(0, 0int + d.len()) != d);
        assert(s.subrange(0, d.len() as int) != d);
        let t = s.drop_first();
        assert forall|j: int| 0 <= j && j + d.len() <= t.len() implies #[trigger] t.subrange(
            j,
            j + d.len(),
        ) != d by {
            assert(t.subrange(j, j + d.len()) =~= s.subrange(j + 1, j + 1 + d.len()));
        }
        lemma_find_sub_none(t, d);
    }
}

pub proof fn lemma_find_sub_props(s: Seq<char>, d: Seq<char>)
    ensures
        find_sub(s, d) matches Some(i) ==> 0 <= i && i + d.len() <= s.len() && s.subrange(
            i,
            i + d.len(),
        ) == d,
    decreases s.len(),
{
    if d.len() > s.len() {
    } else if d.len() == 0 {
        assert(s.subrange(0, 0) =~= d);
    } else if s.subrange(0, d.len() as int) == d {
    } else {
        let t = s.drop_first();
        lemma_find_sub_props(t, d);
        if let Some(i) = find_sub(t, d) {
            assert(t.subrange(i, i + d.len()) =~= s.subrange(i + 1, i + 1 + d.len()));
        }
    }
}

pub proof fn lemma_find_char_at(s: Seq<char>, c: char, i: int)
    requires
        0 <= i < s.len(),
        s[i] == c,
        forall|j: int| 0 <= j < i ==> s[j] != c,
    ensures
        find_char(s, c) == Some(i),
    decreases s.len(),
{
    if i > 0 {
        lemma_find_char_at(s.drop_first(), c, i - 1);
    }
}

pub proof fn lemma_find_char_none(s: Seq<char>, c: char)
    requires
        forall|j: int| 0 <= j < s.len() ==> s[j] != c,
    ensures
        find_char(s, c) == None::<int>,
    decreases s.len(),
{
    if s.len() > 0 {
        lemma_find_char_none(s.drop_first(), c);
    }
}

pub proof fn lemma_find_char_props(s: Seq<char>, c: char)
    ensures
        find_char(s, c) matches Some(i) ==> 0 <= i < s.len() && s[i] == c,
    decreases s.len(),
{
    if s.len() > 0 && s[0] != c {
        lemma_find_char_props(s.drop_first(), c);
    }
}

/// Index of the first occurrence of `d` inside `s`, if any.
#[verifier::loop_isolation(false)]
pub fn find_substring(s: &str, d: &str) -> (r: Option<usize>)
    ensures
        match r {
            Some(i) => find_sub(s@, d@) == Some(i as int),
            None => find_sub(s@, d@) is None,
        },
{
    let slen = s.unicode_len();
    let dlen = d.unicode_len();
    if dlen > slen {
        proof {
            lemma_find_sub_none(s@, d@);
        }
        return None;
    }
    let mut i: usize = 0;
    while i <= slen - dlen
        invariant
            i <= slen - dlen + 1,
            forall|j: int| 0 <= j < i ==> #[trigger] s@.subrange(j, j + d@.len()) != d@,
        decreases slen - i,
    {
        let piece = s.substring_char(i, i + dlen);
        if str_eq(piece, d) {
            proof {
                lemma_find_sub_at(s@, d@, i as int);
            }
            return Some(i);
        }
        proof {
            if d@.len() == 0 {
                assert(s@.subrange(i as int, i as int) =~= d@);
            }
        }
        i += 1;
    }
    proof {
        lemma_find_sub_none(s@, d@);
    }
    None
}

/// Index of the first occurrence of the character `c` in `s`, if any.
#[verifier::loop_isolation(false)]
pub fn find_char_in(s: &str, c: char) -> (r: Option<usize>)
    ensures
        match r {
            Some(i) => find_char(s@, c) == Some(i as int),
            None => find_char(s@, c) is None,
        },
{
    let slen = s.unicode_len();
    let mut i: usize = 0;
    while i < slen
        invariant
            i <= slen,
            forall|j: int| 0 <= j < i ==> s@[j] != c,
        decreases slen - i,
    {
        if s.get_char(i) == c {
            proof {
                lemma_find_char_at(s@, c, i as int);
            }
            return Some(i);
        }
        i += 1;
    }
    proof {
        lemma_find_char_none(s@, c);
    }
    None
}

/// The pieces of `s` between occurrences of the separator `sep`: splitting
/// the empty sequence gives one empty piece, and a separator at either end
/// contributes an empty piece.
pub open spec fn split_chars(s: Seq<char>, sep: char) -> Seq<Seq<char>>
    decreases s.len(),
{
    match find_char(s, sep) {
        None => seq![s],
        Some(i) => if 0 <= i < s.len() {
            seq![s.subrange(0, i)] + split_chars(s.subrange(i + 1, s.len() as int), sep)
        } else {
            seq![s]
        },
    }
}

/// The character sequences that a sequence of strings denotes.
pub open spec fn strs_view(v: Seq<String>) -> Seq<Seq<char>> {
    Seq::new(v.len(), |i: int| v[i]@)
}

/// Split `s` at every occurrence of `sep`.
#[verifier::loop_isolation(false)]
pub fn split_on_char(s: &str, sep: char) -> (r: Vec<String>)
    ensures
        strs_view(r@) == split_chars(s@, sep),
{
    let slen = s.unicode_len();
    let mut out: Vec<String> = Vec::new();
    let mut pos: usize = 0;
    proof {
        assert(s@.subrange(0, slen as int) =~= s@);
        assert(strs_view(out@) =~= Seq::<Seq<char>>::empty());
    }
    loop
        invariant
            pos <= slen,
            split_chars(s@, sep) == strs_view(out@) + split_chars(
                s@.subrange(pos as int, slen as int),
                sep,
            ),
        decreases slen - pos,
    {
        let ghost rem = s@.subrange(pos as int, slen as int);
        let ghost out0 = out@;
        let mut j: usize = pos;
        let mut found = false;
        while j < slen && !found
            invariant
                pos <= j <= slen,
                forall|k: int| pos <= k < j ==> s@[k] != sep,
                found ==> j < slen && s@[j as int] == sep,
            decreases slen - j + (if found {
                0int
            } else {
                1int
            }),
        {
            if s.get_char(j) == sep {
                found = true;
            } else {
                j += 1;
            }
        }
        if found {
            proof {
                assert forall|k: int| 0 <= k < j - pos implies rem[k] != sep by {
                    assert(rem[k] == s@[pos + k]);
                }
                assert(rem[j - pos] == s@[j as int]);
                lemma_find_char_at(rem, sep, j - pos);
                assert(rem.subrange(0, (j - pos) as int) =~= s@.subrange(pos as int, j as int));
                assert(rem.subrange((j - pos) as int + 1, rem.len() as int) =~= s@.subrange(
                    j + 1,
                    slen as int,
                ));
            }
            let piece = s.substring_char(pos, j).to_owned();
            let ghost pv = piece@;
            out.push(piece);
            proof {
                assert(pv == s@.subrange(pos as int, j as int));
                assert(strs_view(out@) =~= strs_view(out0) + seq![pv]);
                assert(split_chars(rem, sep) == seq![rem.subrange(0, (j - pos) as int)]
                    + split_chars(rem.subrange((j - pos) as int + 1, rem.len() as int), sep));
                assert(strs_view(out0) + split_chars(rem, sep) =~= strs_view(out@) + split_chars(
                    s@.subrange(j + 1, slen as int),
                    sep,
                ));
            }
            pos = j + 1;
        } else {
            proof {
                assert forall|k: int| 0 <= k < rem.len() implies rem[k] != sep by {
                    assert(rem[k] == s@[pos + k]);
                }
                lemma_find_char_none(rem, sep);
            }
            let piece = s.substring_char(pos, slen).to_owned();
            out.push(piece);
            proof {
                assert(strs_view(out@) =~= strs_view(out0) + seq![rem]);
                assert(strs_view(out0) + split_chars(rem, sep) =~= strs_view(out@));
            }
            return out;
        }
    }
}

/// Whether `s` denotes the same characters as one of the strings in `v`.
pub fn contains_str(v: &Vec<String>, s: &str) -> (r: bool)
    ensures
        r == strs_view(v@).contains(s@),
{
    let mut i: usize = 0;
    while i < v.len()
        invariant
            i <= v@.len(),
            forall|j: int| 0 <= j < i ==> v@[j]@ != s@,
        decreases v@.len() - i,
    {
        if str_eq(v[i].as_str(), s) {
            proof {
                assert(strs_view(v@)[i as int] == s@);
            }
            return true;
        }
        i += 1;
    }
    proof {
        if strs_view(v@).contains(s@) {
            let j = choose|j: int| 0 <= j < strs_view(v@).len() && strs_view(v@)[j] == s@;
            assert(v@[j]@ == s@);
        }
    }
    false
}

/// Search `string` for `delimiter` and split at its first occurrence,
/// returning the text before it, the delimiter itself, and the text after
/// it; `None` when the delimiter does not occur.
#[verifier::loop_isolation(false)]
pub fn split_with_delimiter(string: &str, delimiter: &str) -> (r: Option<
    (String, String, String),
>)
    ensures
        r is None <==> find_sub(string@, delimiter@) is None,
        r matches Some(parts) ==> find_sub(string@, delimiter@) matches Some(i) && parts.0@
            == string@.subrange(0, i) && parts.1@ == delimiter@ && parts.2@ == string@.subrange(
            i + delimiter@.len(),
            string@.len() as int,
        ),
{
    match find_substring(string, delimiter) {
        None => None,
        Some(i) => {
            proof {
                lemma_find_sub_props(string@, delimiter@);
            }
            let dlen = delimiter.unicode_len();
            let slen = string.unicode_len();
            let before = string.substring_char(0, i).to_owned();
            let after = string.substring_char(i + dlen, slen).to_owned();
            Some((before, delimiter.to_owned(), after))
        },
    }
}

} // verus!
