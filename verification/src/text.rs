//! Character-level text utilities, each with its mathematical meaning over
//! `Seq<char>`: trimming, searching, replacing, splitting, number formatting
//! and the lexicographic order that `String` comparison uses.

use vstd::prelude::*;

verus! {

broadcast use vstd::string::group_string_axioms;

// ---------------------------------------------------------------------------
// Character classes
// ---------------------------------------------------------------------------

/// Unicode `White_Space`, the property that `char::is_whitespace` and
/// `str::trim` use.
pub open spec fn is_white(c: char) -> bool {
    let u = c as u32;
    (9 <= u && u <= 13) || u == 32 || u == 0x85 || u == 0xa0 || u == 0x1680 || (0x2000 <= u
        && u <= 0x200a) || u == 0x2028 || u == 0x2029 || u == 0x202f || u == 0x205f || u == 0x3000
}

pub fn char_is_white(c: char) -> (b: bool)
    ensures
        b == is_white(c),
{
    let u = c as u32;
    (9 <= u && u <= 13) || u == 32 || u == 0x85 || u == 0xa0 || u == 0x1680 || (0x2000 <= u
        && u <= 0x200a) || u == 0x2028 || u == 0x2029 || u == 0x202f || u == 0x205f || u == 0x3000
}

pub open spec fn is_ascii_digit(c: char) -> bool {
    '0' <= c && c <= '9'
}

pub open spec fn is_ascii_alnum(c: char) -> bool {
    ('0' <= c && c <= '9') || ('a' <= c && c <= 'z') || ('A' <= c && c <= 'Z')
}

/// What `char::is_alphanumeric` returns: Unicode `Alphabetic` or `Numeric`.
pub uninterp spec fn alphanumeric_of(c: char) -> bool;

/// Calls `char::is_alphanumeric`. Its result is named `alphanumeric_of`; on
/// ASCII characters it is the ASCII letters and digits, as std documents.
#[verifier::external_body]
pub(crate) fn char_is_alphanumeric(c: char) -> (b: bool)
    ensures
        b == alphanumeric_of(c),
        (c as u32) < 128 ==> (b == is_ascii_alnum(c)),
{
    c.is_alphanumeric()
}

/// What `str::to_lowercase` returns (full Unicode case mapping).
pub uninterp spec fn lowercase_of(s: Seq<char>) -> Seq<char>;

/// What `str::to_uppercase` returns (full Unicode case mapping).
pub uninterp spec fn uppercase_of(s: Seq<char>) -> Seq<char>;

pub open spec fn ascii_lower_char(c: char) -> char {
    if 'A' <= c && c <= 'Z' {
        ((c as u32) + 32) as char
    } else {
        c
    }
}

pub open spec fn is_ascii_seq(s: Seq<char>) -> bool {
    forall|i: int| 0 <= i < s.len() ==> (#[trigger] s[i] as u32) < 128
}

/// The string with `A`..`Z` turned into `a`..`z`, every other character
/// kept.
pub open spec fn ascii_fold(s: Seq<char>) -> Seq<char> {
    s.map_values(|c: char| ascii_lower_char(c))
}

/// Calls `str::to_lowercase`. The result is named `lowercase_of`; on an
/// ASCII string it maps `A`..`Z` to `a`..`z` and keeps every other character;
/// every character maps to at least one, so a non-empty string stays
/// non-empty. The Unicode lower case of `A`..`Z` is `a`..`z`, and the one
/// mapping that looks at its neighbours (final sigma) looks only at whether
/// they are cased letters, which both forms of an ASCII letter are: so
/// lowering the ASCII letters first changes nothing.
#[verifier::external_body]
pub(crate) fn to_lower(s: &str) -> (r: String)
    ensures
        r@ == lowercase_of(s@),
        r@ == lowercase_of(ascii_fold(s@)),
        is_ascii_seq(s@) ==> r@ == s@.map_values(|c: char| ascii_lower_char(c)),
        s@.len() > 0 ==> r@.len() > 0,
{
    s.to_lowercase()
}

/// Calls `str::to_uppercase`; the result is named `uppercase_of`.
#[verifier::external_body]
pub(crate) fn to_upper(s: &str) -> (r: String)
    ensures
        r@ == uppercase_of(s@),
{
    s.to_uppercase()
}

// ---------------------------------------------------------------------------
// Building strings
// ---------------------------------------------------------------------------

/// Calls `String::push`, which appends one character.
#[verifier::external_body]
pub(crate) fn push_char(s: &mut String, c: char)
    ensures
        final(s)@ == old(s)@.push(c),
{
    s.push(c)
}

/// The characters of a string slice, in order.
pub fn to_chars(s: &str) -> (v: Vec<char>)
    ensures
        v@ == s@,
{
    let mut v: Vec<char> = Vec::new();
    for c in iter: s.chars()
        invariant
            v@ == iter.seq().take(iter.index()),
            iter.seq() == s@,
    {
        v.push(c);
    }
    v
}

/// A string made of `v[lo..hi]`.
pub fn string_of_range(v: &Vec<char>, lo: usize, hi: usize) -> (r: String)
    requires
        lo <= hi <= v.len(),
    ensures
        r@ == v@.subrange(lo as int, hi as int),
{
    let mut r = String::new();
    let mut i = lo;
    while i < hi
        invariant
            lo <= i <= hi <= v.len(),
            r@ == v@.subrange(lo as int, i as int),
        decreases hi - i,
    {
        push_char(&mut r, v[i]);
        i += 1;
        assert(r@ =~= v@.subrange(lo as int, i as int));
    }
    r
}

/// A copy of a string slice as an owned `String`.
pub fn owned(s: &str) -> (r: String)
    ensures
        r@ == s@,
{
    s.to_string()
}

/// Concatenation of two slices into a new `String`.
pub fn concat2(a: &str, b: &str) -> (r: String)
    ensures
        r@ == a@ + b@,
{
    let mut r = a.to_string();
    r.append(b);
    r
}

/// Copies of every string in a vector.
pub fn copy_strings(v: &Vec<String>) -> (r: Vec<String>)
    ensures
        r@ == v@,
{
    let mut r: Vec<String> = Vec::new();
    for i in 0..v.len()
        invariant
            r@ == v@.take(i as int),
    {
        r.push(v[i].clone());
        assert(r@ =~= v@.take(i + 1));
    }
    assert(v@.take(v.len() as int) =~= v@);
    r
}

pub open spec fn views(v: Seq<String>) -> Seq<Seq<char>> {
    v.map_values(|s: String| s@)
}

/// The view of an optional string.
pub open spec fn opt_view(o: Option<String>) -> Option<Seq<char>> {
    match o {
        Some(s) => Some(s@),
        None => None,
    }
}

/// `o.unwrap_or_default()` on an optional string.
pub open spec fn or_empty(o: Option<String>) -> Seq<char> {
    match o {
        Some(s) => s@,
        None => Seq::empty(),
    }
}

pub fn str_or_empty(o: &Option<String>) -> (r: String)
    ensures
        r@ == or_empty(*o),
{
    match o {
        Some(s) => s.clone(),
        None => String::new(),
    }
}

// ---------------------------------------------------------------------------
// Prefixes, suffixes, occurrences
// ---------------------------------------------------------------------------

pub open spec fn has_prefix(s: Seq<char>, p: Seq<char>) -> bool {
    p.len() <= s.len() && s.subrange(0, p.len() as int) == p
}

pub open spec fn has_suffix(s: Seq<char>, p: Seq<char>) -> bool {
    p.len() <= s.len() && s.subrange(s.len() - p.len(), s.len() as int) == p
}

/// `needle` occurs in `hay` starting at position `i`.
pub open spec fn occurs_at(hay: Seq<char>, needle: Seq<char>, i: int) -> bool {
    0 <= i && i + needle.len() <= hay.len() && hay.subrange(i, i + needle.len()) == needle
}

pub open spec fn contains_seq(hay: Seq<char>, needle: Seq<char>) -> bool {
    exists|i: int| occurs_at(hay, needle, i)
}

/// The first position `>= start` where `needle` occurs in `hay`.
pub open spec fn find_from(hay: Seq<char>, needle: Seq<char>, start: int) -> Option<int>
    decreases hay.len() + 1 - start,
{
    if start < 0 || start + needle.len() > hay.len() {
        None
    } else if occurs_at(hay, needle, start) {
        Some(start)
    } else {
        find_from(hay, needle, start + 1)
    }
}

pub fn matches_at(hay: &Vec<char>, needle: &Vec<char>, i: usize) -> (b: bool)
    ensures
        b == occurs_at(hay@, needle@, i as int),
{
    if needle.len() > hay.len() || i > hay.len() - needle.len() {
        return false;
    }
    let mut k: usize = 0;
    while k < needle.len()
        invariant
            i + needle.len() <= hay.len(),
            k <= needle.len(),
            forall|j: int| 0 <= j < k ==> hay@[i + j] == needle@[j],
        decreases needle.len() - k,
    {
        if hay[i + k] != needle[k] {
            assert(hay@.subrange(i as int, i + needle.len())[k as int] != needle@[k as int]);
            return false;
        }
        k += 1;
    }
    assert(hay@.subrange(i as int, i + needle.len()) =~= needle@);
    true
}

proof fn lemma_find_from_none(hay: Seq<char>, needle: Seq<char>, start: int)
    requires
        find_from(hay, needle, start) is None,
        start >= 0,
    ensures
        forall|j: int| j >= start ==> !occurs_at(hay, needle, j),
    decreases hay.len() + 1 - start,
{
    if start + needle.len() <= hay.len() {
        lemma_find_from_none(hay, needle, start + 1);
    }
}

proof fn lemma_find_from_some(hay: Seq<char>, needle: Seq<char>, start: int)
    requires
        find_from(hay, needle, start) is Some,
        start >= 0,
    ensures
        occurs_at(hay, needle, find_from(hay, needle, start)->0),
        find_from(hay, needle, start)->0 >= start,
        forall|j: int| start <= j < find_from(hay, needle, start)->0 ==> !occurs_at(hay, needle, j),
    decreases hay.len() + 1 - start,
{
    if !occurs_at(hay, needle, start) {
        lemma_find_from_some(hay, needle, start + 1);
    }
}

/// `find_from` is the first occurrence at or after `start`.
pub proof fn lemma_find_from(hay: Seq<char>, needle: Seq<char>, start: int)
    requires
        start >= 0,
    ensures
        find_from(hay, needle, start) is Some ==> occurs_at(hay, needle, find_from(hay, needle, start)->0)
            && find_from(hay, needle, start)->0 >= start
            && forall|j: int| start <= j < find_from(hay, needle, start)->0 ==> !occurs_at(hay, needle, j),
        find_from(hay, needle, start) is None ==> forall|j: int| j >= start ==> !occurs_at(hay, needle, j),
{
    if find_from(hay, needle, start) is Some {
        lemma_find_from_some(hay, needle, start);
    } else {
        lemma_find_from_none(hay, needle, start);
    }
}

pub fn find_chars(hay: &Vec<char>, needle: &Vec<char>, start: usize) -> (r: Option<usize>)
    ensures
        r is Some ==> find_from(hay@, needle@, start as int) == Some(r->0 as int),
        r is None ==> find_from(hay@, needle@, start as int) is None,
{
    if needle.len() > hay.len() || start > hay.len() - needle.len() {
        return None;
    }
    if needle.len() == 0 {
        assert(hay@.subrange(start as int, start as int) =~= needle@);
        return Some(start);
    }
    let mut i = start;
    while i <= hay.len() - needle.len()
        invariant
            0 < needle.len() <= hay.len(),
            start <= i,
            find_from(hay@, needle@, start as int) == find_from(hay@, needle@, i as int),
        decreases hay.len() - i,
    {
        if matches_at(hay, needle, i) {
            return Some(i);
        }
        i += 1;
    }
    None
}

pub proof fn lemma_find_from_zero_contains(hay: Seq<char>, needle: Seq<char>)
    ensures
        (find_from(hay, needle, 0) is Some) == contains_seq(hay, needle),
{
    lemma_find_from(hay, needle, 0);
    if contains_seq(hay, needle) {
        let i = choose|i: int| occurs_at(hay, needle, i);
        assert(i >= 0);
    }
}

pub fn contains_chars(hay: &Vec<char>, needle: &Vec<char>) -> (b: bool)
    ensures
        b == contains_seq(hay@, needle@),
{
    proof {
        lemma_find_from_zero_contains(hay@, needle@);
    }
    find_chars(hay, needle, 0).is_some()
}

/// Whether `needle` occurs in `hay`, as `str::contains` decides.
pub fn contains(hay: &str, needle: &str) -> (b: bool)
    ensures
        b == contains_seq(hay@, needle@),
{
    let h = to_chars(hay);
    let n = to_chars(needle);
    contains_chars(&h, &n)
}

pub fn starts_with(s: &str, p: &str) -> (b: bool)
    ensures
        b == has_prefix(s@, p@),
{
    let sv = to_chars(s);
    let pv = to_chars(p);
    let b = matches_at(&sv, &pv, 0);
    assert(b == has_prefix(s@, p@));
    b
}

pub fn ends_with(s: &str, p: &str) -> (b: bool)
    ensures
        b == has_suffix(s@, p@),
{
    let sv = to_chars(s);
    let pv = to_chars(p);
    if pv.len() > sv.len() {
        return false;
    }
    matches_at(&sv, &pv, sv.len() - pv.len())
}

pub fn str_eq(a: &str, b: &str) -> (r: bool)
    ensures
        r == (a@ == b@),
{
    let av = to_chars(a);
    let bv = to_chars(b);
    if av.len() != bv.len() {
        return false;
    }
    let r = matches_at(&av, &bv, 0);
    assert(r ==> av@.subrange(0, bv@.len() as int) =~= av@);
    assert(av@ == bv@ ==> av@.subrange(0, bv@.len() as int) =~= av@);
    r
}

// ---------------------------------------------------------------------------
// Trimming
// ---------------------------------------------------------------------------

pub open spec fn trim_start(s: Seq<char>) -> Seq<char>
    decreases s.len(),
{
    if s.len() > 0 && is_white(s[0]) {
        trim_start(s.drop_first())
    } else {
        s
    }
}

pub open spec fn trim_end(s: Seq<char>) -> Seq<char>
    decreases s.len(),
{
    if s.len() > 0 && is_white(s.last()) {
        trim_end(s.drop_last())
    } else {
        s
    }
}

/// `str::trim`: both ends without Unicode white space.
pub open spec fn trim_seq(s: Seq<char>) -> Seq<char> {
    trim_end(trim_start(s))
}

/// Index of the first character that is not white space (`v.len()` if none).
pub fn skip_white(v: &Vec<char>, from: usize) -> (i: usize)
    requires
        from <= v.len(),
    ensures
        from <= i <= v.len(),
        trim_start(v@.subrange(from as int, v.len() as int)) == v@.subrange(i as int, v.len() as int),
        i < v.len() ==> !is_white(v@[i as int]),
        forall|j: int| from <= j < i ==> is_white(#[trigger] v@[j]),
{
    let mut i = from;
    while i < v.len() && char_is_white(v[i])
        invariant
            from <= i <= v.len(),
            trim_start(v@.subrange(from as int, v.len() as int)) == trim_start(
                v@.subrange(i as int, v.len() as int),
            ),
            forall|j: int| from <= j < i ==> is_white(#[trigger] v@[j]),
        decreases v.len() - i,
    {
        assert(v@.subrange(i as int, v.len() as int).drop_first() =~= v@.subrange(
            i + 1,
            v.len() as int,
        ));
        i += 1;
    }
    i
}

/// Index one past the last character of `v[lo..hi]` that is not white space.
pub fn skip_white_back(v: &Vec<char>, lo: usize, hi: usize) -> (j: usize)
    requires
        lo <= hi <= v.len(),
    ensures
        lo <= j <= hi,
        trim_end(v@.subrange(lo as int, hi as int)) == v@.subrange(lo as int, j as int),
        j > lo ==> !is_white(v@[j - 1]),
{
    let mut j = hi;
    while j > lo && char_is_white(v[j - 1])
        invariant
            lo <= j <= hi,
            hi <= v.len(),
            trim_end(v@.subrange(lo as int, hi as int)) == trim_end(v@.subrange(lo as int, j as int)),
        decreases j,
    {
        assert(v@.subrange(lo as int, j as int).drop_last() =~= v@.subrange(lo as int, j - 1));
        j -= 1;
    }
    j
}

pub proof fn lemma_trim_start_white(s: Seq<char>)
    ensures
        trim_start(s).len() > 0 ==> !is_white(trim_start(s)[0]),
        trim_start(s).len() <= s.len(),
        trim_start(s) == s.subrange(s.len() - trim_start(s).len(), s.len() as int),
    decreases s.len(),
{
    if s.len() > 0 && is_white(s[0]) {
        lemma_trim_start_white(s.drop_first());
        assert(s.drop_first().subrange(
            s.drop_first().len() - trim_start(s).len(),
            s.drop_first().len() as int,
        ) =~= s.subrange(s.len() - trim_start(s).len(), s.len() as int));
    } else {
        assert(s.subrange(0, s.len() as int) =~= s);
    }
}

pub fn trim_chars(v: &Vec<char>) -> (r: (usize, usize))
    ensures
        r.0 <= r.1 <= v.len(),
        trim_seq(v@) == v@.subrange(r.0 as int, r.1 as int),
{
    let i = skip_white(v, 0);
    assert(v@.subrange(0, v.len() as int) =~= v@);
    let j = skip_white_back(v, i, v.len());
    (i, j)
}

proof fn lemma_fold_white(c: char)
    ensures
        is_white(ascii_lower_char(c)) == is_white(c),
{
    if 'A' <= c && c <= 'Z' {
        assert(('A' as u32) == 65 && ('Z' as u32) == 90);
        assert(ascii_lower_char(c) as u32 == (c as u32) + 32);
    }
}

/// Folding the ASCII letters and trimming white space commute.
pub proof fn lemma_trim_fold(s: Seq<char>)
    ensures
        trim_seq(ascii_fold(s)) == ascii_fold(trim_seq(s)),
{
    lemma_trim_start_fold(s);
    lemma_trim_end_fold(trim_start(s));
}

proof fn lemma_trim_start_fold(s: Seq<char>)
    ensures
        trim_start(ascii_fold(s)) == ascii_fold(trim_start(s)),
    decreases s.len(),
{
    if s.len() > 0 {
        lemma_fold_white(s[0]);
        assert(ascii_fold(s)[0] == ascii_lower_char(s[0]));
        if is_white(s[0]) {
            assert(ascii_fold(s).drop_first() =~= ascii_fold(s.drop_first()));
            lemma_trim_start_fold(s.drop_first());
        }
    } else {
        assert(ascii_fold(s) =~= s);
    }
}

proof fn lemma_trim_end_fold(s: Seq<char>)
    ensures
        trim_end(ascii_fold(s)) == ascii_fold(trim_end(s)),
    decreases s.len(),
{
    if s.len() > 0 {
        lemma_fold_white(s.last());
        assert(ascii_fold(s).last() == ascii_lower_char(s.last()));
        if is_white(s.last()) {
            assert(ascii_fold(s).drop_last() =~= ascii_fold(s.drop_last()));
            lemma_trim_end_fold(s.drop_last());
        }
    } else {
        assert(ascii_fold(s) =~= s);
    }
}

/// `str::trim`.
pub fn trim(s: &str) -> (r: String)
    ensures
        r@ == trim_seq(s@),
{
    let v = to_chars(s);
    let (i, j) = trim_chars(&v);
    string_of_range(&v, i, j)
}

// ---------------------------------------------------------------------------
// Replacing and mapping characters
// ---------------------------------------------------------------------------

/// `s.replace(c, r)` for a single-character pattern.
pub open spec fn replace_char(s: Seq<char>, c: char, r: Seq<char>) -> Seq<char>
    decreases s.len(),
{
    if s.len() == 0 {
        Seq::empty()
    } else {
        replace_char(s.drop_last(), c, r) + (if s.last() == c {
            r
        } else {
            seq![s.last()]
        })
    }
}

pub fn replace(s: &str, c: char, r: &str) -> (out: String)
    ensures
        out@ == replace_char(s@, c, r@),
{
    let v = to_chars(s);
    let mut out = String::new();
    let mut i: usize = 0;
    while i < v.len()
        invariant
            i <= v.len(),
            v@ == s@,
            out@ == replace_char(v@.subrange(0, i as int), c, r@),
        decreases v.len() - i,
    {
        let ghost before = out@;
        if v[i] == c {
            out.append(r);
        } else {
            push_char(&mut out, v[i]);
        }
        assert(v@.subrange(0, i + 1).drop_last() =~= v@.subrange(0, i as int));
        i += 1;
    }
    assert(v@.subrange(0, v.len() as int) =~= v@);
    out
}

// ---------------------------------------------------------------------------
// Splitting
// ---------------------------------------------------------------------------

/// Length of the run of non-white characters at the start of `s`.
pub open spec fn word_len(s: Seq<char>) -> nat
    decreases s.len(),
{
    if s.len() == 0 || is_white(s[0]) {
        0
    } else {
        1 + word_len(s.drop_first())
    }
}

/// `str::split_whitespace`: the maximal runs of non-white characters.
pub open spec fn words(s: Seq<char>) -> Seq<Seq<char>>
    decreases s.len(),
{
    let t = trim_start(s);
    if t.len() == 0 {
        Seq::empty()
    } else {
        let w = word_len(t);
        if w == 0 || w > t.len() || t.len() > s.len() {
            Seq::empty()
        } else {
            seq![t.subrange(0, w as int)] + words(t.subrange(w as int, t.len() as int))
        }
    }
}

pub proof fn lemma_word_len(s: Seq<char>)
    ensures
        word_len(s) <= s.len(),
        forall|j: int| 0 <= j < word_len(s) ==> !is_white(#[trigger] s[j]),
        word_len(s) < s.len() ==> is_white(s[word_len(s) as int]),
    decreases s.len(),
{
    if s.len() > 0 && !is_white(s[0]) {
        lemma_word_len(s.drop_first());
        assert forall|j: int| 0 <= j < word_len(s) implies !is_white(#[trigger] s[j]) by {
            if j > 0 {
                assert(s[j] == s.drop_first()[j - 1]);
            }
        }
    }
}

/// Index one past the run of non-white characters starting at `from`.
pub fn skip_word(v: &Vec<char>, from: usize) -> (i: usize)
    requires
        from <= v.len(),
    ensures
        from <= i <= v.len(),
        i - from == word_len(v@.subrange(from as int, v.len() as int)),
{
    let mut i = from;
    while i < v.len() && !char_is_white(v[i])
        invariant
            from <= i <= v.len(),
            word_len(v@.subrange(from as int, v.len() as int)) == (i - from) + word_len(
                v@.subrange(i as int, v.len() as int),
            ),
        decreases v.len() - i,
    {
        assert(v@.subrange(i as int, v.len() as int).drop_first() =~= v@.subrange(
            i + 1,
            v.len() as int,
        ));
        i += 1;
    }
    i
}

/// `s.split_whitespace()` collected.
pub fn split_words(s: &str) -> (r: Vec<String>)
    ensures
        views(r@) == words(s@),
{
    let v = to_chars(s);
    let mut r: Vec<String> = Vec::new();
    let mut i: usize = 0;
    assert(v@.subrange(0, v.len() as int) =~= v@);
    while i < v.len()
        invariant
            i <= v.len(),
            v@ == s@,
            words(s@) == views(r@) + words(v@.subrange(i as int, v.len() as int)),
        decreases v.len() - i,
    {
        let ghost rest = v@.subrange(i as int, v.len() as int);
        let a = skip_white(&v, i);
        proof {
            lemma_trim_start_white(rest);
        }
        if a == v.len() {
            assert(words(rest) =~= Seq::<Seq<char>>::empty());
            i = a;
            assert(v@.subrange(i as int, v.len() as int) =~= Seq::<char>::empty());
            assert(words(v@.subrange(i as int, v.len() as int)) =~= Seq::<Seq<char>>::empty());
        } else {
            let b = skip_word(&v, a);
            let ghost t = v@.subrange(a as int, v.len() as int);
            assert(t == trim_start(rest));
            assert(word_len(t) > 0);
            assert(t.subrange(0, (b - a) as int) =~= v@.subrange(a as int, b as int));
            assert(t.subrange((b - a) as int, t.len() as int) =~= v@.subrange(
                b as int,
                v.len() as int,
            ));
            let w = string_of_range(&v, a, b);
            let ghost old_r = r@;
            r.push(w);
            assert(views(r@) =~= views(old_r) + seq![v@.subrange(a as int, b as int)]);
            i = b;
        }
    }
    assert(v@.subrange(v.len() as int, v.len() as int) =~= Seq::<char>::empty());
    assert(words(Seq::<char>::empty()) =~= Seq::<Seq<char>>::empty());
    assert(views(r@) =~= views(r@) + Seq::<Seq<char>>::empty());
    r
}

// ---------------------------------------------------------------------------
// Numbers
// ---------------------------------------------------------------------------

pub open spec fn digit_char(d: nat) -> char {
    ((d % 10) + 48) as char
}

/// Decimal representation of a natural number, as `Display` prints it.
pub open spec fn decimal(n: nat) -> Seq<char>
    decreases n,
{
    if n < 10 {
        seq![digit_char(n)]
    } else {
        decimal(n / 10) + seq![digit_char(n % 10)]
    }
}

pub fn digit(d: u64) -> (c: char)
    requires
        d < 10,
    ensures
        c == digit_char(d as nat),
{
    if d == 0 {
        '0'
    } else if d == 1 {
        '1'
    } else if d == 2 {
        '2'
    } else if d == 3 {
        '3'
    } else if d == 4 {
        '4'
    } else if d == 5 {
        '5'
    } else if d == 6 {
        '6'
    } else if d == 7 {
        '7'
    } else if d == 8 {
        '8'
    } else {
        '9'
    }
}

/// The decimal digits of `n`.
pub fn u64_to_string(n: u64) -> (s: String)
    ensures
        s@ == decimal(n as nat),
{
    let mut rev: Vec<char> = Vec::new();
    let mut m = n;
    let ghost mut acc: Seq<char> = Seq::empty();
    // invariant: decimal(n) == decimal(m) + acc, when m >= 10 or handled below
    while m >= 10
        invariant
            decimal(n as nat) == decimal(m as nat) + acc,
            rev@ == acc.reverse(),
        decreases m,
    {
        let d = m % 10;
        let c = digit(d);
        proof {
            assert(decimal(m as nat) == decimal((m / 10) as nat) + seq![digit_char((m % 10) as nat)]);
            assert(decimal(n as nat) =~= decimal((m / 10) as nat) + (seq![c] + acc));
            acc = seq![c] + acc;
        }
        rev.push(c);
        assert(rev@ =~= acc.reverse());
        m = m / 10;
    }
    let c = digit(m);
    rev.push(c);
    proof {
        acc = seq![c] + acc;
        assert(rev@ =~= acc.reverse());
        assert(decimal(n as nat) =~= acc);
    }
    let mut s = String::new();
    let mut k = rev.len();
    while k > 0
        invariant
            k <= rev.len(),
            rev@ == acc.reverse(),
            s@ == acc.subrange(0, (rev.len() - k) as int),
        decreases k,
    {
        k -= 1;
        push_char(&mut s, rev[k]);
        assert(s@ =~= acc.subrange(0, (rev.len() - k) as int));
    }
    assert(acc.subrange(0, rev.len() as int) =~= acc);
    s
}

pub fn usize_to_string(n: usize) -> (s: String)
    ensures
        s@ == decimal(n as nat),
{
    u64_to_string(n as u64)
}

// ---------------------------------------------------------------------------
// Lexicographic order (the order of `String` and of `BTreeMap<String, _>`)
// ---------------------------------------------------------------------------

/// `a < b` in the order of `String`: byte order of UTF-8, which is the code
/// point order of the characters.
pub open spec fn seq_lt(a: Seq<char>, b: Seq<char>) -> bool
    decreases a.len(),
{
    if a.len() == 0 {
        b.len() > 0
    } else if b.len() == 0 {
        false
    } else if a[0] < b[0] {
        true
    } else if a[0] > b[0] {
        false
    } else {
        seq_lt(a.drop_first(), b.drop_first())
    }
}

pub fn chars_lt(a: &Vec<char>, b: &Vec<char>) -> (r: bool)
    ensures
        r == seq_lt(a@, b@),
{
    let mut i: usize = 0;
    assert(a@.subrange(0, a.len() as int) =~= a@);
    assert(b@.subrange(0, b.len() as int) =~= b@);
    while i < a.len() && i < b.len()
        invariant
            i <= a.len(),
            i <= b.len(),
            seq_lt(a@, b@) == seq_lt(a@.subrange(i as int, a.len() as int), b@.subrange(i as int, b.len() as int)),
        decreases a.len() - i,
    {
        let x = a[i];
        let y = b[i];
        assert(a@.subrange(i as int, a.len() as int)[0] == a@[i as int]);
        assert(b@.subrange(i as int, b.len() as int)[0] == b@[i as int]);
        if x < y {
            return true;
        }
        if x > y {
            return false;
        }
        assert(a@.subrange(i as int, a.len() as int).drop_first() =~= a@.subrange(i + 1, a.len() as int));
        assert(b@.subrange(i as int, b.len() as int).drop_first() =~= b@.subrange(i + 1, b.len() as int));
        i += 1;
    }
    i == a.len() && i < b.len()
}

pub fn str_lt(a: &str, b: &str) -> (r: bool)
    ensures
        r == seq_lt(a@, b@),
{
    let av = to_chars(a);
    let bv = to_chars(b);
    chars_lt(&av, &bv)
}

pub proof fn lemma_lt_irreflexive(a: Seq<char>)
    ensures
        !seq_lt(a, a),
    decreases a.len(),
{
    if a.len() > 0 {
        lemma_lt_irreflexive(a.drop_first());
    }
}

pub proof fn lemma_lt_total(a: Seq<char>, b: Seq<char>)
    ensures
        a == b || seq_lt(a, b) || seq_lt(b, a),
    decreases a.len(),
{
    if a.len() > 0 && b.len() > 0 && a[0] == b[0] {
        lemma_lt_total(a.drop_first(), b.drop_first());
        if a.drop_first() == b.drop_first() {
            assert(a =~= seq![a[0]] + a.drop_first());
            assert(b =~= seq![b[0]] + b.drop_first());
        }
    } else if a.len() > 0 && b.len() > 0 {
    } else if a.len() == 0 && b.len() == 0 {
        assert(a =~= b);
    }
}

pub proof fn lemma_lt_asym(a: Seq<char>, b: Seq<char>)
    ensures
        !(seq_lt(a, b) && seq_lt(b, a)),
    decreases a.len(),
{
    if a.len() > 0 && b.len() > 0 && a[0] == b[0] {
        lemma_lt_asym(a.drop_first(), b.drop_first());
    }
}

pub proof fn lemma_lt_trans(a: Seq<char>, b: Seq<char>, c: Seq<char>)
    requires
        seq_lt(a, b),
        seq_lt(b, c),
    ensures
        seq_lt(a, c),
    decreases a.len(),
{
    if a.len() > 0 && b.len() > 0 && c.len() > 0 && a[0] == b[0] && b[0] == c[0] {
        lemma_lt_trans(a.drop_first(), b.drop_first(), c.drop_first());
    }
}

} // verus!

verus! {

// ---------------------------------------------------------------------------
// Sequences
// ---------------------------------------------------------------------------

/// The elements of `s` that satisfy `p`, in order.
pub open spec fn keep<A>(s: Seq<A>, p: spec_fn(A) -> bool) -> Seq<A>
    decreases s.len(),
{
    if s.len() == 0 {
        Seq::empty()
    } else if p(s.last()) {
        keep(s.drop_last(), p).push(s.last())
    } else {
        keep(s.drop_last(), p)
    }
}

/// Unfolding `keep` on a prefix extended by one element.
pub proof fn lemma_keep_take<A>(s: Seq<A>, p: spec_fn(A) -> bool, i: int)
    requires
        0 <= i < s.len(),
    ensures
        keep(s.take(i + 1), p) == if p(s[i]) {
            keep(s.take(i), p).push(s[i])
        } else {
            keep(s.take(i), p)
        },
{
    assert(s.take(i + 1).drop_last() =~= s.take(i));
}

pub proof fn lemma_keep_len<A>(s: Seq<A>, p: spec_fn(A) -> bool)
    ensures
        keep(s, p).len() <= s.len(),
        forall|j: int| 0 <= j < keep(s, p).len() ==> p(#[trigger] keep(s, p)[j]),
    decreases s.len(),
{
    if s.len() > 0 {
        lemma_keep_len(s.drop_last(), p);
    }
}

/// Any element of `s` that satisfies `p` makes `keep(s, p)` non-empty, and
/// the first such element comes first.
pub proof fn lemma_keep_first<A>(s: Seq<A>, p: spec_fn(A) -> bool, i: int)
    requires
        0 <= i < s.len(),
        p(s[i]),
        forall|j: int| 0 <= j < i ==> !p(#[trigger] s[j]),
    ensures
        keep(s, p).len() > 0,
        keep(s, p)[0] == s[i],
    decreases s.len(),
{
    if i < s.len() - 1 {
        lemma_keep_first(s.drop_last(), p, i);
    } else {
        assert forall|j: int| 0 <= j < s.drop_last().len() implies !p(#[trigger] s.drop_last()[j]) by {
            assert(s.drop_last()[j] == s[j]);
        }
        lemma_keep_none(s.drop_last(), p);
    }
}

pub proof fn lemma_keep_nonempty<A>(s: Seq<A>, p: spec_fn(A) -> bool, i: int)
    requires
        0 <= i < s.len(),
        p(s[i]),
    ensures
        keep(s, p).len() > 0,
    decreases s.len(),
{
    if i < s.len() - 1 && !p(s.last()) {
        assert(s.drop_last()[i] == s[i]);
        lemma_keep_nonempty(s.drop_last(), p, i);
    }
}

pub proof fn lemma_keep_none<A>(s: Seq<A>, p: spec_fn(A) -> bool)
    requires
        forall|j: int| 0 <= j < s.len() ==> !p(#[trigger] s[j]),
    ensures
        keep(s, p).len() == 0,
    decreases s.len(),
{
    if s.len() > 0 {
        assert(!p(s[s.len() - 1]));
        assert forall|j: int| 0 <= j < s.drop_last().len() implies !p(#[trigger] s.drop_last()[j]) by {
            assert(s.drop_last()[j] == s[j]);
        }
        lemma_keep_none(s.drop_last(), p);
    }
}

} // verus!

verus! {

// ---------------------------------------------------------------------------
// Joining and sorting lists of strings
// ---------------------------------------------------------------------------

/// `ss.join(sep)`.
pub open spec fn join_seq(ss: Seq<Seq<char>>, sep: Seq<char>) -> Seq<char>
    decreases ss.len(),
{
    if ss.len() == 0 {
        Seq::empty()
    } else if ss.len() == 1 {
        ss[0]
    } else {
        join_seq(ss.drop_last(), sep) + sep + ss.last()
    }
}

pub fn join(v: &Vec<String>, sep: &str) -> (r: String)
    ensures
        r@ == join_seq(views(v@), sep@),
{
    let mut r = String::new();
    for i in 0..v.len()
        invariant
            r@ == join_seq(views(v@.take(i as int)), sep@),
    {
        assert(views(v@.take(i + 1)).drop_last() =~= views(v@.take(i as int)));
        if i > 0 {
            r.append(sep);
        }
        r.append(v[i].as_str());
    }
    assert(v@.take(v.len() as int) =~= v@);
    r
}

/// Inserts `x` before the first element that is not smaller than it.
pub open spec fn ins_sorted(l: Seq<Seq<char>>, x: Seq<char>) -> Seq<Seq<char>>
    decreases l.len(),
{
    if l.len() == 0 {
        seq![x]
    } else if !seq_lt(l[0], x) {
        seq![x] + l
    } else {
        seq![l[0]] + ins_sorted(l.drop_first(), x)
    }
}

/// The strings in ascending order, repetitions kept (what `sort` gives).
pub open spec fn sort_seq(s: Seq<Seq<char>>) -> Seq<Seq<char>>
    decreases s.len(),
{
    if s.len() == 0 {
        Seq::empty()
    } else {
        ins_sorted(sort_seq(s.drop_last()), s.last())
    }
}

proof fn lemma_ins_sorted_at(l: Seq<Seq<char>>, x: Seq<char>, j: int)
    requires
        0 <= j <= l.len(),
        forall|i: int| 0 <= i < j ==> seq_lt(#[trigger] l[i], x),
        j < l.len() ==> !seq_lt(l[j], x),
    ensures
        ins_sorted(l, x) == l.insert(j, x),
    decreases j,
{
    if j > 0 {
        let t = l.drop_first();
        assert forall|i: int| 0 <= i < j - 1 implies seq_lt(#[trigger] t[i], x) by {
            assert(t[i] == l[i + 1]);
        }
        lemma_ins_sorted_at(t, x, j - 1);
        assert(seq![l[0]] + t.insert(j - 1, x) =~= l.insert(j, x));
    } else {
        assert(seq![x] + l =~= l.insert(0, x));
    }
}

/// Two insertions commute.
proof fn lemma_ins_sorted_comm(l: Seq<Seq<char>>, a: Seq<char>, b: Seq<char>)
    ensures
        ins_sorted(ins_sorted(l, a), b) == ins_sorted(ins_sorted(l, b), a),
    decreases l.len(),
{
    lemma_lt_total(a, b);
    lemma_lt_asym(a, b);
    if l.len() == 0 {
        assert(seq![a].drop_first() =~= Seq::<Seq<char>>::empty());
        assert(seq![b].drop_first() =~= Seq::<Seq<char>>::empty());
        assert(ins_sorted(Seq::<Seq<char>>::empty(), a) == seq![a]);
        assert(ins_sorted(Seq::<Seq<char>>::empty(), b) == seq![b]);
        assert(ins_sorted(l, a) =~= seq![a]);
        assert(ins_sorted(l, b) =~= seq![b]);
        if seq_lt(a, b) {
            assert(ins_sorted(seq![a], b) =~= seq![a] + seq![b]);
            assert(ins_sorted(seq![b], a) =~= seq![a] + seq![b]);
        } else if seq_lt(b, a) {
            assert(ins_sorted(seq![a], b) =~= seq![b] + seq![a]);
            assert(ins_sorted(seq![b], a) =~= seq![b] + seq![a]);
        }
    } else {
        let h = l[0];
        let t = l.drop_first();
        lemma_lt_total(h, a);
        lemma_lt_total(h, b);
        lemma_lt_asym(h, a);
        lemma_lt_asym(h, b);
        if seq_lt(a, h) && seq_lt(h, b) {
            lemma_lt_trans(a, h, b);
        }
        if seq_lt(b, h) && seq_lt(h, a) {
            lemma_lt_trans(b, h, a);
        }
        if seq_lt(h, a) && seq_lt(h, b) {
            lemma_ins_sorted_comm(t, a, b);
            let ta = ins_sorted(t, a);
            let tb = ins_sorted(t, b);
            assert((seq![h] + ta).drop_first() =~= ta);
            assert((seq![h] + tb).drop_first() =~= tb);
            assert(ins_sorted(seq![h] + ta, b) =~= seq![h] + ins_sorted(ta, b));
            assert(ins_sorted(seq![h] + tb, a) =~= seq![h] + ins_sorted(tb, a));
        } else if seq_lt(h, a) {
            let ta = ins_sorted(t, a);
            assert((seq![h] + ta).drop_first() =~= ta);
            assert((seq![b] + l).drop_first() =~= l);
            assert(ins_sorted(ins_sorted(l, a), b) =~= seq![b] + (seq![h] + ta));
            assert(ins_sorted(ins_sorted(l, b), a) =~= seq![b] + (seq![h] + ta));
        } else if seq_lt(h, b) {
            let tb = ins_sorted(t, b);
            assert((seq![h] + tb).drop_first() =~= tb);
            assert((seq![a] + l).drop_first() =~= l);
            assert(ins_sorted(ins_sorted(l, b), a) =~= seq![a] + (seq![h] + tb));
            assert(ins_sorted(ins_sorted(l, a), b) =~= seq![a] + (seq![h] + tb));
        } else {
            assert((seq![a] + l).drop_first() =~= l);
            assert((seq![b] + l).drop_first() =~= l);
            assert(ins_sorted(ins_sorted(l, a), b) =~= ins_sorted(ins_sorted(l, b), a));
        }
    }
}

/// Sorting may take any element last.
proof fn lemma_sort_remove(s: Seq<Seq<char>>, j: int)
    requires
        0 <= j < s.len(),
    ensures
        sort_seq(s) == ins_sorted(sort_seq(s.remove(j)), s[j]),
    decreases s.len(),
{
    if j < s.len() - 1 {
        let d = s.drop_last();
        lemma_sort_remove(d, j);
        assert(d.remove(j) =~= s.remove(j).drop_last());
        assert(s.remove(j).last() == s.last());
        lemma_ins_sorted_comm(sort_seq(d.remove(j)), s[j], s.last());
    } else {
        assert(s.remove(j) =~= s.drop_last());
    }
}

/// Sorting does not see the order of the strings: two sequences with the
/// same strings, as many times each, sort to the same sequence.
pub proof fn lemma_sort_permutation(s1: Seq<Seq<char>>, s2: Seq<Seq<char>>)
    requires
        s1.to_multiset() == s2.to_multiset(),
    ensures
        sort_seq(s1) == sort_seq(s2),
    decreases s1.len(),
{
    broadcast use vstd::seq_lib::group_to_multiset_ensures;
    broadcast use vstd::multiset::group_multiset_axioms;
    if s1.len() == 0 {
        assert(s2.to_multiset().len() == 0);
        assert(s2.len() == 0);
        assert(s1 =~= s2);
    } else {
        let x = s1.last();
        assert(s1 =~= s1.drop_last().push(x));
        assert(s1.to_multiset().count(x) > 0);
        assert(s2.contains(x));
        let j = choose|j: int| 0 <= j < s2.len() && s2[j] == x;
        assert(s2.remove(j).to_multiset() == s2.to_multiset().remove(x));
        assert(s1.drop_last().to_multiset() =~= s1.to_multiset().remove(x));
        lemma_sort_permutation(s1.drop_last(), s2.remove(j));
        lemma_sort_remove(s2, j);
    }
}

/// A copy of the strings in ascending order (stable insertion sort).
pub fn sort_strings(v: &Vec<String>) -> (r: Vec<String>)
    ensures
        views(r@) == sort_seq(views(v@)),
{
    let mut r: Vec<String> = Vec::new();
    for i in 0..v.len()
        invariant
            views(r@) == sort_seq(views(v@.take(i as int))),
    {
        let x = v[i].clone();
        let ghost l = views(r@);
        let mut j: usize = 0;
        while j < r.len() && str_lt(r[j].as_str(), x.as_str())
            invariant
                j <= r.len(),
                l == views(r@),
                forall|m: int| 0 <= m < j ==> seq_lt(#[trigger] l[m], x@),
            decreases r.len() - j,
        {
            j += 1;
        }
        proof {
            lemma_ins_sorted_at(l, x@, j as int);
            assert(views(v@.take(i + 1)).drop_last() =~= views(v@.take(i as int)));
        }
        r.insert(j, x);
        assert(views(r@) =~= l.insert(j as int, v@[i as int]@));
    }
    assert(v@.take(v.len() as int) =~= v@);
    r
}

/// `bool` as `Display` prints it.
pub open spec fn bool_text(b: bool) -> Seq<char> {
    if b {
        "true"@
    } else {
        "false"@
    }
}

pub fn bool_string(b: bool) -> (r: String)
    ensures
        r@ == bool_text(b),
{
    if b {
        "true".to_string()
    } else {
        "false".to_string()
    }
}

} // verus!

verus! {

pub proof fn lemma_map_take<A, B>(s: Seq<A>, f: spec_fn(A) -> B, i: int)
    requires
        0 <= i < s.len(),
    ensures
        s.take(i + 1).map_values(f) == s.take(i).map_values(f).push(f(s[i])),
{
    assert(s.take(i + 1).map_values(f) =~= s.take(i).map_values(f).push(f(s[i])));
}

pub proof fn lemma_map_push<A, B>(s: Seq<A>, f: spec_fn(A) -> B, x: A)
    ensures
        s.push(x).map_values(f) == s.map_values(f).push(f(x)),
{
    assert(s.push(x).map_values(f) =~= s.map_values(f).push(f(x)));
}

} // verus!

verus! {

pub proof fn lemma_keep_contains<A>(s: Seq<A>, p: spec_fn(A) -> bool)
    ensures
        forall|x: A| keep(s, p).contains(x) <==> (s.contains(x) && p(x)),
    decreases s.len(),
{
    if s.len() > 0 {
        lemma_keep_contains(s.drop_last(), p);
        assert forall|x: A| keep(s, p).contains(x) <==> (s.contains(x) && p(x)) by {
            let k = keep(s.drop_last(), p);
            if s.contains(x) && p(x) {
                let i = choose|i: int| 0 <= i < s.len() && s[i] == x;
                if i < s.len() - 1 {
                    assert(s.drop_last()[i] == x);
                    assert(s.drop_last().contains(x));
                    let j = choose|j: int| 0 <= j < k.len() && k[j] == x;
                    if p(s.last()) {
                        assert(keep(s, p)[j] == x);
                    }
                } else {
                    assert(keep(s, p)[keep(s, p).len() - 1] == x);
                }
            }
            if keep(s, p).contains(x) {
                let j = choose|j: int| 0 <= j < keep(s, p).len() && keep(s, p)[j] == x;
                if p(s.last()) && j == keep(s, p).len() - 1 {
                    assert(x == s.last());
                    assert(s[s.len() - 1] == x);
                } else {
                    assert(k[j] == x);
                    assert(k.contains(x));
                    assert(s.drop_last().contains(x) && p(x));
                    let d = s.drop_last();
                    let i = choose|i: int| 0 <= i < d.len() && d[i] == x;
                    assert(d[i] == s[i]);
                    assert(s[i] == x);
                    assert(s.contains(x));
                }
            }
        }
    }
}

} // verus!

verus! {

pub proof fn lemma_keep_contains_at<A>(s: Seq<A>, p: spec_fn(A) -> bool, x: A)
    ensures
        keep(s, p).contains(x) <==> (s.contains(x) && p(x)),
{
    lemma_keep_contains(s, p);
}

} // verus!

verus! {

/// The concatenation of a sequence of sequences.
pub open spec fn flatten<A>(s: Seq<Seq<A>>) -> Seq<A>
    decreases s.len(),
{
    if s.len() == 0 {
        Seq::empty()
    } else {
        flatten(s.drop_last()) + s.last()
    }
}

pub proof fn lemma_flatten_take<A>(s: Seq<Seq<A>>, i: int)
    requires
        0 <= i < s.len(),
    ensures
        flatten(s.take(i + 1)) == flatten(s.take(i)) + s[i],
{
    assert(s.take(i + 1).drop_last() =~= s.take(i));
}

/// Removes every trailing `c`.
pub open spec fn trim_end_char(s: Seq<char>, c: char) -> Seq<char>
    decreases s.len(),
{
    if s.len() > 0 && s.last() == c {
        trim_end_char(s.drop_last(), c)
    } else {
        s
    }
}

pub fn trim_end_matches_char(s: &str, c: char) -> (r: String)
    ensures
        r@ == trim_end_char(s@, c),
{
    let v = to_chars(s);
    let mut j = v.len();
    assert(v@.subrange(0, v.len() as int) =~= v@);
    while j > 0 && v[j - 1] == c
        invariant
            j <= v.len(),
            trim_end_char(v@, c) == trim_end_char(v@.subrange(0, j as int), c),
        decreases j,
    {
        assert(v@.subrange(0, j as int).drop_last() =~= v@.subrange(0, j - 1));
        j -= 1;
    }
    string_of_range(&v, 0, j)
}

/// `s` cut at every `c`: all pieces, the last one too (possibly empty).
pub open spec fn split_on(s: Seq<char>, c: char) -> Seq<Seq<char>>
    decreases s.len(),
{
    if s.len() == 0 {
        seq![Seq::empty()]
    } else {
        let r = split_on(s.drop_last(), c);
        if s.last() == c {
            r.push(Seq::empty())
        } else {
            r.update(r.len() - 1, r.last().push(s.last()))
        }
    }
}

pub proof fn lemma_split_on_nonempty(s: Seq<char>, c: char)
    ensures
        split_on(s, c).len() >= 1,
    decreases s.len(),
{
    if s.len() > 0 {
        lemma_split_on_nonempty(s.drop_last(), c);
    }
}

/// The pieces of `s` between occurrences of `c` (see [`split_on`]).
pub fn split_char(s: &str, c: char) -> (r: Vec<String>)
    ensures
        views(r@) == split_on(s@, c),
{
    let v = to_chars(s);
    let mut out: Vec<String> = Vec::new();
    let mut cur = String::new();
    assert(v@.take(0) =~= Seq::<char>::empty());
    assert(views(out@).push(cur@) =~= split_on(v@.take(0), c));
    for i in 0..v.len()
        invariant
            v@ == s@,
            split_on(v@.take(i as int), c) == views(out@).push(cur@),
    {
        let ch = v[i];
        assert(v@.take(i + 1).drop_last() =~= v@.take(i as int));
        assert(v@.take(i + 1).last() == ch);
        if ch == c {
            let ghost before = out@;
            out.push(cur);
            proof {
                lemma_map_push(before, |x: String| x@, out@.last());
            }
            cur = String::new();
            assert(views(out@).push(cur@) =~= split_on(v@.take(i + 1), c));
        } else {
            let ghost old_cur = cur@;
            push_char(&mut cur, ch);
            assert(views(out@).push(cur@) =~= views(out@).push(old_cur).update(
                views(out@).len() as int,
                old_cur.push(ch),
            ));
        }
    }
    let ghost before = out@;
    out.push(cur);
    proof {
        lemma_map_push(before, |x: String| x@, out@.last());
        assert(v@.take(v.len() as int) =~= v@);
    }
    out
}

/// How many times `c` occurs in `s`.
pub open spec fn count_of(s: Seq<char>, c: char) -> nat
    decreases s.len(),
{
    if s.len() == 0 {
        0
    } else {
        count_of(s.drop_last(), c) + if s.last() == c {
            1nat
        } else {
            0nat
        }
    }
}

pub proof fn lemma_count_of_le(s: Seq<char>, c: char)
    ensures
        count_of(s, c) <= s.len(),
        s.len() > 0 && s.last() != c ==> count_of(s, c) < s.len(),
    decreases s.len(),
{
    if s.len() > 0 {
        lemma_count_of_le(s.drop_last(), c);
    }
}

/// The number of lines `str::lines` yields: pieces ended by a line feed, and
/// a last piece without one when it is not empty.
pub open spec fn line_count(s: Seq<char>) -> nat {
    if s.len() == 0 {
        0
    } else {
        count_of(s, '\n') + if s.last() == '\n' {
            0nat
        } else {
            1nat
        }
    }
}

/// Counts the lines of `s` (see [`line_count`]).
pub fn count_lines(s: &str) -> (n: usize)
    ensures
        n == line_count(s@),
{
    let v = to_chars(s);
    let mut n: usize = 0;
    for i in 0..v.len()
        invariant
            v@ == s@,
            n == count_of(v@.take(i as int), '\n'),
            n <= i,
    {
        assert(v@.take(i + 1).drop_last() =~= v@.take(i as int));
        if v[i] == '\n' {
            n += 1;
        }
    }
    assert(v@.take(v.len() as int) =~= v@);
    if v.len() > 0 && v[v.len() - 1] != '\n' {
        proof {
            lemma_count_of_le(v@, '\n');
        }
        n += 1;
    }
    n
}

/// Whether `s` is one of `v`.
pub fn vec_contains(v: &Vec<String>, s: &str) -> (b: bool)
    ensures
        b == views(v@).contains(s@),
{
    let mut i: usize = 0;
    while i < v.len()
        invariant
            i <= v@.len(),
            forall|j: int| 0 <= j < i ==> #[trigger] v@[j]@ != s@,
        decreases v@.len() - i,
    {
        if str_eq(v[i].as_str(), s) {
            assert(views(v@)[i as int] == s@);
            return true;
        }
        i += 1;
    }
    assert(!views(v@).contains(s@)) by {
        if views(v@).contains(s@) {
            let j = choose|j: int| 0 <= j < views(v@).len() && views(v@)[j] == s@;
            assert(v@[j]@ == s@);
        }
    }
    false
}

/// Whether the UTF-8 encoding of `s` (what `str::len` counts) has at least
/// three bytes.
pub fn has_three_bytes(s: &str) -> (b: bool)
    ensures
        b == (vstd::utf8::encode_utf8(s@).len() >= 3),
{
    let v = to_chars(s);
    let mut acc: usize = 0;
    let mut i: usize = 0;
    assert(v@.subrange(0, v.len() as int) =~= v@);
    while i < v.len()
        invariant
            v@ == s@,
            i <= v.len(),
            acc < 3,
            acc + vstd::utf8::encode_utf8(v@.subrange(i as int, v.len() as int)).len()
                == vstd::utf8::encode_utf8(v@).len(),
        decreases v.len() - i,
    {
        let c = v[i];
        let u = c as u32;
        let w: usize = if u < 0x80 {
            1
        } else if u < 0x800 {
            2
        } else if u < 0x10000 {
            3
        } else {
            4
        };
        assert(v@.subrange(i as int, v.len() as int).drop_first() =~= v@.subrange(i + 1, v.len() as int));
        assert(v@.subrange(i as int, v.len() as int)[0] == c);
        proof {
            vstd::utf8::char_is_scalar(c);
        }
        assert(vstd::utf8::encode_scalar(c as u32).len() == w);
        acc = acc + w;
        if acc >= 3 {
            return true;
        }
        i += 1;
    }
    false
}

} // verus!
