//! Character-level helpers: equality of strings, prefixes up to a separator,
//! recognition of dictionary file names, and the two Unicode operations the
//! library leans on the standard library for.

use vstd::prelude::*;
use vstd::string::StrSliceExecFns;
use vstd::string::StringExecFns;

verus! {

/// What `str::to_lowercase` returns for a string with these characters.
pub uninterp spec fn lower_of(s: Seq<char>) -> Seq<char>;

/// Whether `char::is_alphabetic` holds of this character.
pub uninterp spec fn is_alpha(c: char) -> bool;

/// Relies on `str::to_lowercase`: the result depends on the characters alone.
#[verifier::external_body]
pub(crate) fn lowercase(s: &str) -> (r: String)
    ensures
        r@ == lower_of(s@),
{
    s.to_lowercase()
}

/// Relies on `char::is_alphabetic`: the result depends on the character alone.
#[verifier::external_body]
pub(crate) fn alphabetic(c: char) -> (r: bool)
    ensures
        r == is_alpha(c),
{
    c.is_alphabetic()
}

/// Character-by-character string equality.
pub fn str_eq(a: &str, b: &str) -> (r: bool)
    ensures
        r == (a@ == b@),
{
    let alen = a.unicode_len();
    let blen = b.unicode_len();
    if alen != blen {
        return false;
    }
    let mut i: usize = 0;
    while i < alen
        invariant
            alen == a@.len(),
            blen == b@.len(),
            alen == blen,
            i <= alen,
            forall|j: int| 0 <= j < i ==> a@[j] == b@[j],
        decreases alen - i,
    {
        if a.get_char(i) != b.get_char(i) {
            return false;
        }
        i += 1;
    }
    proof {
        assert(a@ =~= b@);
    }
    true
}

/// The characters of `s` before the first occurrence of `c`; all of `s` if
/// `c` does not occur.
pub open spec fn prefix_before(s: Seq<char>, c: char) -> Seq<char>
    decreases s.len(),
{
    if s.len() == 0 {
        s
    } else if s[0] == c {
        Seq::empty()
    } else {
        seq![s[0]] + prefix_before(s.drop_first(), c)
    }
}

proof fn lemma_prefix_before_take(s: Seq<char>, c: char, i: int)
    requires
        0 <= i <= s.len(),
        forall|j: int| 0 <= j < i ==> s[j] != c,
        i < s.len() ==> s[i] == c,
    ensures
        prefix_before(s, c) == s.take(i),
    decreases i,
{
    if i == 0 {
        if s.len() == 0 {
            assert(prefix_before(s, c) =~= s.take(0));
        } else {
            assert(s[0] == c);
            assert(prefix_before(s, c) =~= s.take(0));
        }
    } else {
        assert(s[0] != c);
        let rest = s.drop_first();
        assert(forall|j: int| 0 <= j < i - 1 ==> rest[j] != c);
        assert(i - 1 < rest.len() ==> rest[i - 1] == c);
        lemma_prefix_before_take(rest, c, i - 1);
        assert(seq![s[0]] + rest.take(i - 1) =~= s.take(i));
    }
}

/// The index of the first occurrence of `c` in `s`, or the length of `s` if
/// `c` does not occur.
fn find_char(s: &str, c: char) -> (i: usize)
    ensures
        i <= s@.len(),
        forall|j: int| 0 <= j < i ==> s@[j] != c,
        i < s@.len() ==> s@[i as int] == c,
{
    let n = s.unicode_len();
    let mut i: usize = 0;
    while i < n
        invariant
            n == s@.len(),
            i <= n,
            forall|j: int| 0 <= j < i ==> s@[j] != c,
        decreases n - i,
    {
        if s.get_char(i) == c {
            return i;
        }
        i += 1;
    }
    i
}

/// The part of `s` before the first occurrence of `c`, as a fresh string.
pub fn char_prefix(s: &str, c: char) -> (r: String)
    ensures
        r@ == prefix_before(s@, c),
{
    let i = find_char(s, c);
    let sub = s.substring_char(0, i);
    proof {
        lemma_prefix_before_take(s@, c, i as int);
    }
    String::from_str(sub)
}

/// Whether a file name carries the dictionary extension: a last `.` that is
/// not the leading character, followed exactly by `dic`.
pub open spec fn has_dic_ext(name: Seq<char>) -> bool {
    exists|i: int|
        1 <= i < name.len() && name[i] == '.' && (forall|j: int|
            i < j < name.len() ==> name[j] != '.') && name.subrange(i + 1, name.len() as int)
            == "dic"@
}

/// The index one past the last occurrence of `c` in `s`, or 0 if `c` does not
/// occur.
fn rfind_char(s: &str, c: char) -> (k: usize)
    ensures
        k <= s@.len(),
        k > 0 ==> s@[k - 1] == c,
        forall|j: int| k <= j < s@.len() ==> s@[j] != c,
{
    let n = s.unicode_len();
    let mut k: usize = n;
    while k > 0
        invariant
            n == s@.len(),
            k <= n,
            forall|j: int| k <= j < n ==> s@[j] != c,
        decreases k,
    {
        if s.get_char(k - 1) == c {
            return k;
        }
        k -= 1;
    }
    k
}

/// Whether this file name names a dictionary file, as the catalog builder
/// recognizes one.
pub fn has_dic_extension(name: &str) -> (r: bool)
    ensures
        r == has_dic_ext(name@),
{
    let n = name.unicode_len();
    let k = rfind_char(name, '.');
    if k <= 1 {
        proof {
            if has_dic_ext(name@) {
                let i = choose|i: int|
                    1 <= i < name@.len() && name@[i] == '.' && (forall|j: int|
                        i < j < name@.len() ==> name@[j] != '.') && name@.subrange(
                        i + 1,
                        name@.len() as int,
                    ) == "dic"@;
                assert(name@[i] == '.');
                assert(false);
            }
        }
        false
    } else {
        let i = k - 1;
        let suffix = name.substring_char(k, n);
        let r = str_eq(suffix, "dic");
        proof {
            if r {
                assert(1 <= i < name@.len() && name@[i as int] == '.' && (forall|j: int|
                    i < j < name@.len() ==> name@[j] != '.') && name@.subrange(
                    i + 1,
                    name@.len() as int,
                ) == "dic"@);
            } else {
                if has_dic_ext(name@) {
                    let w = choose|w: int|
                        1 <= w < name@.len() && name@[w] == '.' && (forall|j: int|
                            w < j < name@.len() ==> name@[j] != '.') && name@.subrange(
                            w + 1,
                            name@.len() as int,
                        ) == "dic"@;
                    assert(!(w < i)) by {
                        if w < i {
                            assert(name@[i as int] == '.');
                        }
                    }
                    assert(!(w > i)) by {
                        if w > i {
                            assert(name@[w] != '.');
                        }
                    }
                    assert(w == i);
                    assert(false);
                }
            }
        }
        r
    }
}

} // verus!
