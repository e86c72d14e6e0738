//! Strings as sequences of characters: what trimming, searching and stripping mean, and the
//! executable functions that do them.

use vstd::prelude::*;

verus! {

/// The Unicode property `White_Space`.
pub open spec fn is_whitespace(c: char) -> bool {
    let u = c as u32;
    ||| 0x09 <= u <= 0x0d
    ||| u == 0x20
    ||| u == 0x85
    ||| u == 0xa0
    ||| u == 0x1680
    ||| 0x2000 <= u <= 0x200a
    ||| u == 0x2028
    ||| u == 0x2029
    ||| u == 0x202f
    ||| u == 0x205f
    ||| u == 0x3000
}

/// `s` without the whitespace at its start.
pub open spec fn trim_start(s: Seq<char>) -> Seq<char>
    decreases s.len(),
{
    if s.len() > 0 && is_whitespace(s.first()) {
        trim_start(s.drop_first())
    } else {
        s
    }
}

/// `s` without the whitespace at its end.
pub open spec fn trim_end(s: Seq<char>) -> Seq<char>
    decreases s.len(),
{
    if s.len() > 0 && is_whitespace(s.last()) {
        trim_end(s.drop_last())
    } else {
        s
    }
}

/// `s` without the whitespace at its start and at its end.
pub open spec fn trimmed(s: Seq<char>) -> Seq<char> {
    trim_end(trim_start(s))
}

/// Whether `pattern` stands in `s` at index `i`.
pub open spec fn occurs_at(s: Seq<char>, pattern: Seq<char>, i: int) -> bool {
    &&& 0 <= i <= s.len() - pattern.len()
    &&& s.subrange(i, i + pattern.len()) == pattern
}

/// Whether `pattern` stands anywhere in `s`.
pub open spec fn contains_text(s: Seq<char>, pattern: Seq<char>) -> bool {
    exists|i: int| occurs_at(s, pattern, i)
}

/// Whether `i` is the first index at which `pattern` stands in `s`.
pub open spec fn first_occurrence(s: Seq<char>, pattern: Seq<char>, i: int) -> bool {
    &&& occurs_at(s, pattern, i)
    &&& forall|j: int| j < i ==> !occurs_at(s, pattern, j)
}

/// What stands before and after the first occurrence of `pattern` in `s`, where there is one.
pub open spec fn split_first(s: Seq<char>, pattern: Seq<char>) -> Option<(Seq<char>, Seq<char>)> {
    if contains_text(s, pattern) {
        let i = choose|i: int| first_occurrence(s, pattern, i);
        Some((s.take(i), s.skip(i + pattern.len())))
    } else {
        None
    }
}

/// Trusted: `str::trim` returns the string slice with leading and trailing whitespace removed,
/// where whitespace is what has the Unicode property `White_Space`.
pub assume_specification[ str::trim ](s: &str) -> (r: &str)
    ensures
        r@ == trimmed(s@),
;

/// Trusted: `str::split_once` splits the string on the first occurrence of the delimiter and
/// returns what stands before it and what stands after it, or `None` where the delimiter does
/// not occur.
#[verifier::external_body]
pub(crate) fn split_once<'a>(s: &'a str, delimiter: &str) -> (r: Option<(&'a str, &'a str)>)
    ensures
        r is Some <==> contains_text(s@, delimiter@),
        r matches Some((before, after)) ==> {
            &&& first_occurrence(s@, delimiter@, before@.len() as int)
            &&& before@ == s@.take(before@.len() as int)
            &&& after@ == s@.skip((before@.len() + delimiter@.len()) as int)
        },
{
    s.split_once(delimiter)
}

/// Trusted: `str::strip_prefix` returns what follows the prefix where the string starts with it,
/// and `None` where it does not.
#[verifier::external_body]
pub(crate) fn strip_prefix<'a>(s: &'a str, prefix: &str) -> (r: Option<&'a str>)
    ensures
        r is Some <==> occurs_at(s@, prefix@, 0),
        r matches Some(rest) ==> rest@ == s@.skip(prefix@.len() as int),
{
    s.strip_prefix(prefix)
}

/// Trusted: `str::strip_suffix` returns what precedes the suffix where the string ends with it,
/// and `None` where it does not.
#[verifier::external_body]
pub(crate) fn strip_suffix<'a>(s: &'a str, suffix: &str) -> (r: Option<&'a str>)
    ensures
        r is Some <==> occurs_at(s@, suffix@, s@.len() - suffix@.len()),
        r matches Some(rest) ==> rest@ == s@.take(s@.len() - suffix@.len()),
{
    s.strip_suffix(suffix)
}

/// Whether `s` starts with `prefix`.
pub fn starts_with(s: &str, prefix: &str) -> (r: bool)
    ensures
        r == occurs_at(s@, prefix@, 0),
{
    strip_prefix(s, prefix).is_some()
}

/// Whether `s` ends with `suffix`.
pub fn ends_with(s: &str, suffix: &str) -> (r: bool)
    ensures
        r == occurs_at(s@, suffix@, s@.len() - suffix@.len()),
{
    strip_suffix(s, suffix).is_some()
}

/// Whether `pattern` stands anywhere in `s`.
pub fn contains(s: &str, pattern: &str) -> (r: bool)
    ensures
        r == contains_text(s@, pattern@),
{
    split_once(s, pattern).is_some()
}

/// Whether the two strings hold the same characters.
pub fn same_text(a: &str, b: &str) -> (r: bool)
    ensures
        r == (a@ == b@),
{
    match strip_prefix(a, b) {
        Some(rest) => {
            assert(rest@.len() == 0 ==> a@ =~= a@.subrange(0, b@.len() as int));
            rest.is_empty()
        },
        None => {
            assert(a@ == b@ ==> a@.subrange(0, b@.len() as int) =~= b@);
            false
        },
    }
}

/// `s` with `suffix` removed from its end as often as it stands there.
pub open spec fn without_suffixes(s: Seq<char>, suffix: Seq<char>) -> Seq<char>
    decreases s.len(),
{
    if suffix.len() > 0 && occurs_at(s, suffix, s.len() - suffix.len()) {
        without_suffixes(s.take(s.len() - suffix.len()), suffix)
    } else {
        s
    }
}

/// Removes `suffix` from the end of `s` as often as it stands there.
pub fn trim_end_matches<'a>(s: &'a str, suffix: &str) -> (r: &'a str)
    ensures
        r@ == without_suffixes(s@, suffix@),
{
    if suffix.is_empty() {
        return s;
    }
    let mut rest = s;
    loop
        invariant
            suffix@.len() > 0,
            without_suffixes(s@, suffix@) == without_suffixes(rest@, suffix@),
        decreases rest@.len(),
    {
        match strip_suffix(rest, suffix) {
            Some(shorter) => rest = shorter,
            None => return rest,
        }
    }
}

/// Trimming gives a stretch of the string that has no whitespace at either end, and cuts off
/// nothing but whitespace.
pub proof fn trimmed_is_a_stretch(s: Seq<char>)
    ensures
        trimmed(s).len() > 0 ==> !is_whitespace(trimmed(s).first()) && !is_whitespace(
            trimmed(s).last(),
        ),
        exists|i: int, j: int|
            0 <= i <= j <= s.len() && #[trigger] s.subrange(i, j) == trimmed(s) && (forall|k: int|
                0 <= k < i || j <= k < s.len() ==> is_whitespace(#[trigger] s[k])),
{
    let i = trim_start_stretch(s);
    let j = trim_end_stretch(s.skip(i));
    assert(s.subrange(i, i + j) =~= s.skip(i).take(j));
    assert forall|k: int| 0 <= k < i || i + j <= k < s.len() implies is_whitespace(
        #[trigger] s[k],
    ) by {
        if k >= i {
            assert(s.skip(i)[k - i] == s[k]);
        }
    }
}

/// Trimming twice is trimming once.
pub proof fn trimmed_twice(s: Seq<char>)
    ensures
        trimmed(trimmed(s)) == trimmed(s),
{
    trimmed_is_a_stretch(s);
    trimmed_without_whitespace_at_ends(trimmed(s));
}

/// A string without whitespace at either end is trimmed already.
pub proof fn trimmed_without_whitespace_at_ends(s: Seq<char>)
    requires
        s.len() > 0 ==> !is_whitespace(s.first()) && !is_whitespace(s.last()),
    ensures
        trimmed(s) == s,
{
}

proof fn trim_start_stretch(s: Seq<char>) -> (i: int)
    ensures
        0 <= i <= s.len(),
        trim_start(s) == s.skip(i),
        i < s.len() ==> !is_whitespace(s[i]),
        forall|k: int| 0 <= k < i ==> is_whitespace(#[trigger] s[k]),
    decreases s.len(),
{
    if s.len() > 0 && is_whitespace(s.first()) {
        let i = trim_start_stretch(s.drop_first());
        assert(s.drop_first().skip(i) =~= s.skip(i + 1));
        assert forall|k: int| 0 <= k < i + 1 implies is_whitespace(#[trigger] s[k]) by {
            if k > 0 {
                assert(s.drop_first()[k - 1] == s[k]);
            }
        }
        i + 1
    } else {
        assert(s.skip(0) =~= s);
        0
    }
}

proof fn trim_end_stretch(s: Seq<char>) -> (j: int)
    ensures
        0 <= j <= s.len(),
        trim_end(s) == s.take(j),
        j > 0 ==> !is_whitespace(s[j - 1]),
        forall|k: int| j <= k < s.len() ==> is_whitespace(#[trigger] s[k]),
    decreases s.len(),
{
    if s.len() > 0 && is_whitespace(s.last()) {
        let j = trim_end_stretch(s.drop_last());
        assert(s.drop_last().take(j) =~= s.take(j));
        assert forall|k: int| j <= k < s.len() implies is_whitespace(#[trigger] s[k]) by {
            if k < s.len() - 1 {
                assert(s.drop_last()[k] == s[k]);
            }
        }
        j
    } else {
        assert(s.take(s.len() as int) =~= s);
        s.len() as int
    }
}

/// A string has at most one first occurrence of a pattern.
pub proof fn first_occurrence_is_unique(s: Seq<char>, pattern: Seq<char>, i: int, j: int)
    requires
        first_occurrence(s, pattern, i),
        first_occurrence(s, pattern, j),
    ensures
        i == j,
{
}

/// `split_first` cuts at the first occurrence.
pub proof fn split_first_at(s: Seq<char>, pattern: Seq<char>, i: int)
    requires
        first_occurrence(s, pattern, i),
    ensures
        split_first(s, pattern) == Some((s.take(i), s.skip(i + pattern.len()))),
{
    let j = choose|j: int| first_occurrence(s, pattern, j);
    first_occurrence_is_unique(s, pattern, i, j);
}

/// Whether the first character of `pattern` stands in it only once, so that two occurrences of
/// the pattern never overlap.
pub open spec fn head_is_unique(pattern: Seq<char>) -> bool {
    &&& pattern.len() > 0
    &&& forall|k: int| 1 <= k < pattern.len() ==> #[trigger] pattern[k] != pattern[0]
}

/// Where `before` does not hold the pattern, the first occurrence in `before + pattern + after`
/// is the one between the two.
pub proof fn first_occurrence_after(before: Seq<char>, pattern: Seq<char>, after: Seq<char>)
    requires
        head_is_unique(pattern),
        !contains_text(before, pattern),
    ensures
        first_occurrence(before + pattern + after, pattern, before.len() as int),
        (before + pattern + after).skip((before.len() + pattern.len()) as int) == after,
        (before + pattern + after).take(before.len() as int) == before,
{
    let s = before + pattern + after;
    let n = before.len() as int;
    let m = pattern.len() as int;
    assert(s.subrange(n, n + m) =~= pattern);
    assert(s.skip(n + m) =~= after);
    assert(s.take(n) =~= before);
    assert forall|j: int| j < n implies !occurs_at(s, pattern, j) by {
        if occurs_at(s, pattern, j) {
            if j + m <= n {
                assert(before.subrange(j, j + m) =~= s.subrange(j, j + m));
                assert(occurs_at(before, pattern, j));
            } else {
                assert(s.subrange(j, j + m)[n - j] == s[n]);
                assert(pattern[n - j] == pattern[0]);
            }
        }
    }
}

/// Cutting `before + pattern + after` at the pattern gives the two parts back, where `before` does
/// not hold it.
pub proof fn split_first_gives_back(before: Seq<char>, pattern: Seq<char>, after: Seq<char>)
    requires
        head_is_unique(pattern),
        !contains_text(before, pattern),
    ensures
        split_first(before + pattern + after, pattern) == Some((before, after)),
{
    first_occurrence_after(before, pattern, after);
    split_first_at(before + pattern + after, pattern, before.len() as int);
}

/// A pattern that stands anywhere in a string has a first occurrence there.
pub proof fn first_occurrence_exists(s: Seq<char>, pattern: Seq<char>)
    requires
        contains_text(s, pattern),
    ensures
        exists|i: int| first_occurrence(s, pattern, i),
{
    let i = choose|i: int| occurs_at(s, pattern, i);
    earliest_occurrence(s, pattern, i);
}

proof fn earliest_occurrence(s: Seq<char>, pattern: Seq<char>, i: int)
    requires
        occurs_at(s, pattern, i),
    ensures
        exists|k: int| first_occurrence(s, pattern, k),
    decreases i,
{
    if forall|j: int| j < i ==> !occurs_at(s, pattern, j) {
        assert(first_occurrence(s, pattern, i));
    } else {
        let j = choose|j: int| j < i && occurs_at(s, pattern, j);
        earliest_occurrence(s, pattern, j);
    }
}

/// What stands before the first occurrence of a pattern does not hold the pattern.
pub proof fn split_first_before(s: Seq<char>, pattern: Seq<char>)
    requires
        contains_text(s, pattern),
    ensures
        split_first(s, pattern) is Some,
        pattern.len() > 0 ==> !contains_text((split_first(s, pattern)->0).0, pattern),
{
    first_occurrence_exists(s, pattern);
    let i = choose|i: int| first_occurrence(s, pattern, i);
    split_first_at(s, pattern, i);
    let before = s.take(i);
    if pattern.len() > 0 && contains_text(before, pattern) {
        let j = choose|j: int| occurs_at(before, pattern, j);
        assert(before.subrange(j, j + pattern.len()) =~= s.subrange(j, j + pattern.len()));
        assert(occurs_at(s, pattern, j));
    }
}

/// Trimming brings no pattern into a string that does not hold it.
pub proof fn trimmed_holds_nothing_new(s: Seq<char>, pattern: Seq<char>)
    requires
        !contains_text(s, pattern),
    ensures
        !contains_text(trimmed(s), pattern),
{
    trimmed_is_a_stretch(s);
    let (i, j) = choose|i: int, j: int|
        0 <= i <= j <= s.len() && #[trigger] s.subrange(i, j) == trimmed(s);
    if contains_text(trimmed(s), pattern) {
        let k = choose|k: int| occurs_at(trimmed(s), pattern, k);
        assert(s.subrange(i + k, i + k + pattern.len()) =~= trimmed(s).subrange(
            k,
            k + pattern.len(),
        ));
        assert(occurs_at(s, pattern, i + k));
    }
}

/// What is put behind a string that holds the pattern does not move the first occurrence.
pub proof fn split_first_before_more(s: Seq<char>, pattern: Seq<char>, more: Seq<char>)
    requires
        contains_text(s, pattern),
    ensures
        split_first(s + more, pattern) == Some(
            ((split_first(s, pattern)->0).0, (split_first(s, pattern)->0).1 + more),
        ),
{
    first_occurrence_exists(s, pattern);
    let i = choose|i: int| first_occurrence(s, pattern, i);
    let n = pattern.len() as int;
    split_first_at(s, pattern, i);
    assert((s + more).subrange(i, i + n) =~= s.subrange(i, i + n));
    assert forall|j: int| j < i implies !occurs_at(s + more, pattern, j) by {
        if occurs_at(s + more, pattern, j) {
            assert((s + more).subrange(j, j + n) =~= s.subrange(j, j + n));
            assert(occurs_at(s, pattern, j));
        }
    }
    split_first_at(s + more, pattern, i);
    assert((s + more).take(i) =~= s.take(i));
    assert((s + more).skip(i + n) =~= s.skip(i + n) + more);
}

/// `pattern`, `n` times in a row.
pub open spec fn repeated(pattern: Seq<char>, n: nat) -> Seq<char>
    decreases n,
{
    if n == 0 {
        Seq::empty()
    } else {
        repeated(pattern, (n - 1) as nat) + pattern
    }
}

/// Removing a suffix cuts off nothing but that suffix, and leaves none of it at the end.
pub proof fn without_suffixes_is_a_prefix(s: Seq<char>, suffix: Seq<char>)
    requires
        suffix.len() > 0,
    ensures
        !occurs_at(
            without_suffixes(s, suffix),
            suffix,
            without_suffixes(s, suffix).len() - suffix.len(),
        ),
        exists|n: nat| s == without_suffixes(s, suffix) + #[trigger] repeated(suffix, n),
    decreases s.len(),
{
    let rest = without_suffixes(s, suffix);
    let k = s.len() - suffix.len();
    if occurs_at(s, suffix, k) {
        let shorter = s.take(k);
        without_suffixes_is_a_prefix(shorter, suffix);
        let n = choose|n: nat| shorter == rest + #[trigger] repeated(suffix, n);
        assert(s =~= shorter + s.subrange(k, s.len() as int));
        assert(s =~= rest + repeated(suffix, n + 1));
    } else {
        assert(s =~= rest + repeated(suffix, 0));
    }
}

/// A suffix that was put behind a string, however often, is removed again, where the string does
/// not end with it itself.
pub proof fn suffixes_are_removed(s: Seq<char>, suffix: Seq<char>, n: nat)
    requires
        suffix.len() > 0,
        !occurs_at(s, suffix, s.len() - suffix.len()),
    ensures
        without_suffixes(s + repeated(suffix, n), suffix) == s,
    decreases n,
{
    let all = s + repeated(suffix, n);
    if n == 0 {
        assert(all =~= s);
    } else {
        let shorter = s + repeated(suffix, (n - 1) as nat);
        suffixes_are_removed(s, suffix, (n - 1) as nat);
        assert(all =~= shorter + suffix);
        let k = all.len() - suffix.len();
        assert(all.subrange(k, all.len() as int) =~= suffix);
        assert(all.take(k) =~= shorter);
    }
}

/// Whether `s` holds nothing but whitespace.
pub open spec fn is_blank(s: Seq<char>) -> bool {
    forall|k: int| 0 <= k < s.len() ==> is_whitespace(#[trigger] s[k])
}

/// Whitespace around a string is trimmed off, all of it, and nothing else is.
pub proof fn trimmed_between_blanks(a: Seq<char>, s: Seq<char>, b: Seq<char>)
    requires
        is_blank(a),
        is_blank(b),
        s.len() > 0 ==> !is_whitespace(s.first()) && !is_whitespace(s.last()),
    ensures
        trimmed(a + s + b) == s,
{
    let all = a + s + b;
    trimmed_is_a_stretch(all);
    let (i, j) = choose|i: int, j: int|
        0 <= i <= j <= all.len() && #[trigger] all.subrange(i, j) == trimmed(all) && (forall|k: int|
            0 <= k < i || j <= k < all.len() ==> is_whitespace(#[trigger] all[k]));
    let t = trimmed(all);
    if i < j {
        assert(t.first() == all[i] && t.last() == all[j - 1]);
        if i < a.len() {
            assert(all[i] == a[i]);
        }
        if j > a.len() + s.len() {
            assert(all[j - 1] == b[j - 1 - a.len() - s.len()]);
        }
        if i >= a.len() + s.len() {
            assert(all[i] == b[i - a.len() - s.len()]);
        }
        if j <= a.len() {
            assert(all[j - 1] == a[j - 1]);
        }
    }
    if s.len() > 0 {
        assert(all[a.len() as int] == s.first());
        assert(all[a.len() + s.len() - 1] == s.last());
        assert(i <= a.len() && j >= a.len() + s.len());
        assert(i == a.len() && j == a.len() + s.len());
    } else {
        assert(i == j);
    }
    assert(t =~= s);
}

/// Nothing is left of a string by trimming exactly where it is blank.
pub proof fn trimmed_is_empty_where_blank(s: Seq<char>)
    ensures
        trimmed(s).len() == 0 <==> is_blank(s),
{
    trimmed_is_a_stretch(s);
    let (i, j) = choose|i: int, j: int|
        0 <= i <= j <= s.len() && #[trigger] s.subrange(i, j) == trimmed(s) && (forall|k: int|
            0 <= k < i || j <= k < s.len() ==> is_whitespace(#[trigger] s[k]));
    if i < j {
        assert(trimmed(s).first() == s[i]);
    }
}

/// Removing the empty string changes nothing.
pub proof fn empty_suffix_is_not_removed(s: Seq<char>)
    ensures
        without_suffixes(s, Seq::empty()) == s,
{
}

} // verus!
