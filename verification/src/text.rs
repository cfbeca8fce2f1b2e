//! Text: the handful of string operations the rest of the library is
//! written in, each stated over sequences of characters.

use vstd::prelude::*;
use vstd::string::*;

verus! {

/// `String::push` appends one character.
pub assume_specification[ String::push ](s: &mut String, c: char)
    ensures
        final(s)@ == old(s)@.push(c),
;

/// How the standard library's `Debug` writes a string: quoted and escaped.
pub uninterp spec fn debug_form(s: Seq<char>) -> Seq<char>;

/// Formats with `{:?}`. The escaping rules of `impl Debug for str` are left
/// to the standard library; all that is claimed is that the same string is
/// always written the same way.
#[verifier::external_body]
pub(crate) fn debug_quoted(s: &str) -> (r: String)
    ensures
        r@ == debug_form(s@),
{
    format!("{:?}", s)
}

// ---- views -----------------------------------------------------------

/// The text of each string.
pub open spec fn texts(v: Seq<String>) -> Seq<Seq<char>> {
    v.map_values(|s: String| s@)
}

/// The text of an optional string.
pub open spec fn opt_text(o: Option<String>) -> Option<Seq<char>> {
    match o {
        Some(s) => Some(s@),
        None => None,
    }
}

/// The text of an optional borrowed string.
pub open spec fn opt_str(o: Option<&str>) -> Option<Seq<char>> {
    match o {
        Some(s) => Some(s@),
        None => None,
    }
}

/// Key/value pairs as pairs of text.
pub open spec fn pair_texts(v: Seq<(String, String)>) -> Seq<(Seq<char>, Seq<char>)> {
    v.map_values(|p: (String, String)| (p.0@, p.1@))
}

// ---- basics ----------------------------------------------------------

/// The characters of `s`.
pub fn chars_of(s: &str) -> (r: Vec<char>)
    ensures
        r@ == s@,
{
    let mut v: Vec<char> = Vec::new();
    for c in it: s.chars()
        invariant
            it.seq() == s@,
            v@ == s@.take(it.index() as int),
    {
        v.push(c);
    }
    assert(s@.take(s@.len() as int) =~= s@);
    v
}

/// Whether two strings hold the same characters.
pub fn same(a: &str, b: &str) -> (r: bool)
    ensures
        r == (a@ == b@),
{
    let x = chars_of(a);
    let y = chars_of(b);
    if x.len() != y.len() {
        return false;
    }
    let mut i: usize = 0;
    while i < x.len()
        invariant
            x@ == a@,
            y@ == b@,
            x.len() == y.len(),
            i <= x.len(),
            forall|k: int| 0 <= k < i ==> x@[k] == y@[k],
        decreases x.len() - i,
    {
        if x[i] != y[i] {
            assert(a@[i as int] != b@[i as int]);
            return false;
        }
        i = i + 1;
    }
    assert(a@ =~= b@);
    true
}

/// A copy of an optional string.
pub fn clone_opt(o: &Option<String>) -> (r: Option<String>)
    ensures
        r == *o,
{
    match o {
        Some(s) => Some(s.clone()),
        None => None,
    }
}

/// A copy of a list of strings.
pub fn clone_list(v: &Vec<String>) -> (r: Vec<String>)
    ensures
        r@ == v@,
{
    let mut out: Vec<String> = Vec::new();
    let mut i: usize = 0;
    while i < v.len()
        invariant
            i <= v.len(),
            out@ == v@.take(i as int),
        decreases v.len() - i,
    {
        out.push(v[i].clone());
        i = i + 1;
    }
    assert(v@.take(v@.len() as int) =~= v@);
    out
}

/// A copy of a list of key/value pairs.
pub fn clone_pairs(v: &Vec<(String, String)>) -> (r: Vec<(String, String)>)
    ensures
        r@ == v@,
{
    let mut out: Vec<(String, String)> = Vec::new();
    let mut i: usize = 0;
    while i < v.len()
        invariant
            i <= v.len(),
            out@ == v@.take(i as int),
        decreases v.len() - i,
    {
        out.push((v[i].0.clone(), v[i].1.clone()));
        i = i + 1;
    }
    assert(v@.take(v@.len() as int) =~= v@);
    out
}

/// Whether two optional strings are the same.
pub fn same_opt(a: &Option<String>, b: &Option<String>) -> (r: bool)
    ensures
        r == (opt_text(*a) == opt_text(*b)),
{
    match (a, b) {
        (Some(x), Some(y)) => same(x.as_str(), y.as_str()),
        (None, None) => true,
        _ => false,
    }
}

/// Whether two lists hold the same strings in the same order.
pub fn same_list(a: &Vec<String>, b: &Vec<String>) -> (r: bool)
    ensures
        r == (texts(a@) == texts(b@)),
{
    assert(texts(a@).len() == a.len() && texts(b@).len() == b.len());
    if a.len() != b.len() {
        return false;
    }
    let mut i: usize = 0;
    while i < a.len()
        invariant
            a.len() == b.len(),
            i <= a.len(),
            forall|k: int| 0 <= k < i ==> texts(a@)[k] == texts(b@)[k],
        decreases a.len() - i,
    {
        if !same(a[i].as_str(), b[i].as_str()) {
            assert(texts(a@)[i as int] != texts(b@)[i as int]);
            return false;
        }
        i = i + 1;
    }
    assert(texts(a@) =~= texts(b@));
    true
}

/// Whether two lists hold the same pairs in the same order.
pub fn same_pairs(a: &Vec<(String, String)>, b: &Vec<(String, String)>) -> (r: bool)
    ensures
        r == (pair_texts(a@) == pair_texts(b@)),
{
    assert(pair_texts(a@).len() == a.len() && pair_texts(b@).len() == b.len());
    if a.len() != b.len() {
        return false;
    }
    let mut i: usize = 0;
    while i < a.len()
        invariant
            a.len() == b.len(),
            i <= a.len(),
            forall|k: int| 0 <= k < i ==> pair_texts(a@)[k] == pair_texts(b@)[k],
        decreases a.len() - i,
    {
        if !same(a[i].0.as_str(), b[i].0.as_str()) || !same(a[i].1.as_str(), b[i].1.as_str()) {
            assert(pair_texts(a@)[i as int] != pair_texts(b@)[i as int]);
            return false;
        }
        i = i + 1;
    }
    assert(pair_texts(a@) =~= pair_texts(b@));
    true
}

/// Appends a string to a list.
pub fn push_text(v: &mut Vec<String>, s: String)
    ensures
        texts(final(v)@) == texts(old(v)@).push(s@),
{
    let ghost t = s@;
    v.push(s);
    assert(texts(v@) =~= texts(old(v)@).push(t));
}

/// Appends a pair to a list.
pub fn push_pair(v: &mut Vec<(String, String)>, k: &str, val: &str)
    ensures
        pair_texts(final(v)@) == pair_texts(old(v)@).push((k@, val@)),
{
    v.push((k.to_owned(), val.to_owned()));
    assert(pair_texts(v@) =~= pair_texts(old(v)@).push((k@, val@)));
}

/// Whether a list holds a string.
pub fn in_list(v: &Vec<String>, s: &str) -> (r: bool)
    ensures
        r == texts(v@).contains(s@),
{
    let mut i: usize = 0;
    while i < v.len()
        invariant
            i <= v.len(),
            forall|k: int| 0 <= k < i ==> texts(v@)[k] != s@,
        decreases v.len() - i,
    {
        if same(v[i].as_str(), s) {
            assert(texts(v@)[i as int] == s@);
            return true;
        }
        i = i + 1;
    }
    false
}

// ---- trimming --------------------------------------------------------

/// Unicode's `White_Space` property.
pub open spec fn spec_is_space(c: char) -> bool {
    ||| '\u{9}' <= c <= '\u{d}'
    ||| c == ' '
    ||| c == '\u{85}'
    ||| c == '\u{a0}'
    ||| c == '\u{1680}'
    ||| '\u{2000}' <= c <= '\u{200a}'
    ||| c == '\u{2028}'
    ||| c == '\u{2029}'
    ||| c == '\u{202f}'
    ||| c == '\u{205f}'
    ||| c == '\u{3000}'
}

/// Whether a character is white space.
#[verifier::when_used_as_spec(spec_is_space)]
pub fn is_space(c: char) -> (r: bool)
    ensures
        r == spec_is_space(c),
{
    ('\u{9}' <= c && c <= '\u{d}') || c == ' ' || c == '\u{85}' || c == '\u{a0}' || c == '\u{1680}'
        || ('\u{2000}' <= c && c <= '\u{200a}') || c == '\u{2028}' || c == '\u{2029}' || c
        == '\u{202f}' || c == '\u{205f}' || c == '\u{3000}'
}

/// `s` without its leading characters that satisfy `p`.
pub open spec fn drop_leading(s: Seq<char>, p: spec_fn(char) -> bool) -> Seq<char>
    decreases s.len(),
{
    if s.len() > 0 && p(s[0]) {
        drop_leading(s.subrange(1, s.len() as int), p)
    } else {
        s
    }
}

/// `s` without its trailing characters that satisfy `p`.
pub open spec fn drop_trailing(s: Seq<char>, p: spec_fn(char) -> bool) -> Seq<char>
    decreases s.len(),
{
    if s.len() > 0 && p(s.last()) {
        drop_trailing(s.drop_last(), p)
    } else {
        s
    }
}

/// White space, or one given character.
pub open spec fn strippable(only: Option<char>) -> spec_fn(char) -> bool {
    |c: char|
        match only {
            Some(x) => c == x,
            None => spec_is_space(c),
        }
}

/// `s` without surrounding white space.
pub open spec fn trimmed(s: Seq<char>) -> Seq<char> {
    drop_trailing(drop_leading(s, strippable(None)), strippable(None))
}

/// `s` without surrounding occurrences of `c`.
pub open spec fn trimmed_of(s: Seq<char>, c: char) -> Seq<char> {
    drop_trailing(drop_leading(s, strippable(Some(c))), strippable(Some(c)))
}

fn strips(c: char, only: Option<char>) -> (r: bool)
    ensures
        r == strippable(only)(c),
{
    match only {
        Some(x) => c == x,
        None => is_space(c),
    }
}

fn trim_by(s: &str, only: Option<char>) -> (r: &str)
    ensures
        r@ == drop_trailing(drop_leading(s@, strippable(only)), strippable(only)),
{
    let v = chars_of(s);
    let n: usize = v.len();
    let mut a: usize = 0;
    assert(s@.subrange(0, n as int) =~= s@);
    while a < n && strips(v[a], only)
        invariant
            v@ == s@,
            n == v.len(),
            a <= n,
            drop_leading(s@, strippable(only)) == drop_leading(
                s@.subrange(a as int, n as int),
                strippable(only),
            ),
        decreases n - a,
    {
        assert(s@.subrange(a as int, n as int).subrange(1, n - a) =~= s@.subrange(
            a + 1,
            n as int,
        ));
        a = a + 1;
    }
    let mut b: usize = n;
    while a < b && strips(v[b - 1], only)
        invariant
            v@ == s@,
            n == v.len(),
            a <= b <= n,
            drop_trailing(s@.subrange(a as int, n as int), strippable(only)) == drop_trailing(
                s@.subrange(a as int, b as int),
                strippable(only),
            ),
        decreases b,
    {
        assert(s@.subrange(a as int, b as int).drop_last() =~= s@.subrange(a as int, b - 1));
        b = b - 1;
    }
    s.substring_char(a, b)
}

/// `str::trim`.
pub fn trim(s: &str) -> (r: &str)
    ensures
        r@ == trimmed(s@),
{
    trim_by(s, None)
}

/// `str::trim_matches` with one character.
pub fn trim_of(s: &str, c: char) -> (r: &str)
    ensures
        r@ == trimmed_of(s@, c),
{
    trim_by(s, Some(c))
}

// ---- searching -------------------------------------------------------

/// `pat` stands in `s` at position `i`.
pub open spec fn is_at(s: Seq<char>, pat: Seq<char>, i: int) -> bool {
    0 <= i && i + pat.len() <= s.len() && s.subrange(i, i + pat.len()) == pat
}

/// The first position at or after `i` where `pat` stands in `s`.
pub open spec fn find_from(s: Seq<char>, pat: Seq<char>, i: int) -> Option<int>
    decreases s.len() + 1 - i,
{
    if i + pat.len() > s.len() {
        None
    } else if is_at(s, pat, i) {
        Some(i)
    } else {
        find_from(s, pat, i + 1)
    }
}

/// `pat` stands somewhere in `s`.
pub open spec fn occurs(s: Seq<char>, pat: Seq<char>) -> bool {
    exists|i: int| is_at(s, pat, i)
}

/// The two sides of the first occurrence of `pat` in `s`.
pub open spec fn split_first(s: Seq<char>, pat: Seq<char>) -> Option<(Seq<char>, Seq<char>)> {
    match find_from(s, pat, 0) {
        Some(i) => Some((s.subrange(0, i), s.subrange(i + pat.len(), s.len() as int))),
        None => None,
    }
}

/// What [`find_from`] finds is the first occurrence, and it misses none.
pub proof fn find_from_is_first(s: Seq<char>, pat: Seq<char>, i: int)
    requires
        0 <= i,
    ensures
        match find_from(s, pat, i) {
            Some(j) => i <= j && is_at(s, pat, j) && forall|k: int|
                i <= k < j ==> !#[trigger] is_at(s, pat, k),
            None => forall|k: int| i <= k ==> !#[trigger] is_at(s, pat, k),
        },
    decreases s.len() + 1 - i,
{
    if i + pat.len() <= s.len() && !is_at(s, pat, i) {
        find_from_is_first(s, pat, i + 1);
    }
}

fn stands_at(v: &Vec<char>, p: &Vec<char>, i: usize) -> (r: bool)
    requires
        i + p.len() <= v.len(),
    ensures
        r == is_at(v@, p@, i as int),
{
    let mut k: usize = 0;
    while k < p.len()
        invariant
            i + p.len() <= v.len(),
            k <= p.len(),
            forall|j: int| 0 <= j < k ==> v@[i + j] == p@[j],
        decreases p.len() - k,
    {
        if v[i + k] != p[k] {
            assert(v@.subrange(i as int, i + p.len())[k as int] != p@[k as int]);
            return false;
        }
        k = k + 1;
    }
    assert(v@.subrange(i as int, i + p.len()) =~= p@);
    true
}

/// The position of the first occurrence of `pat`, in characters.
pub fn find(s: &str, pat: &str) -> (r: Option<usize>)
    ensures
        match r {
            Some(i) => find_from(s@, pat@, 0) == Some(i as int) && i + pat@.len() <= s@.len(),
            None => find_from(s@, pat@, 0) is None,
        },
{
    let v = chars_of(s);
    let p = chars_of(pat);
    let mut i: usize = 0;
    while i <= v.len() && p.len() <= v.len() - i
        invariant
            v@ == s@,
            p@ == pat@,
            i <= v.len() + 1,
            find_from(s@, pat@, 0) == find_from(s@, pat@, i as int),
        decreases v.len() + 1 - i,
    {
        if stands_at(&v, &p, i) {
            return Some(i);
        }
        if i == v.len() {
            assert(find_from(s@, pat@, i + 1) is None);
            return None;
        }
        i = i + 1;
    }
    None
}

/// `str::contains`.
pub fn contains(s: &str, pat: &str) -> (r: bool)
    ensures
        r == occurs(s@, pat@),
{
    proof {
        find_from_is_first(s@, pat@, 0);
    }
    find(s, pat).is_some()
}

/// `str::split_once`.
pub fn split_once<'a>(s: &'a str, pat: &str) -> (r: Option<(&'a str, &'a str)>)
    ensures
        match r {
            Some((a, b)) => split_first(s@, pat@) == Some((a@, b@)),
            None => split_first(s@, pat@) is None,
        },
{
    match find(s, pat) {
        Some(i) => {
            proof {
                find_from_is_first(s@, pat@, 0);
            }
            let n: usize = s.unicode_len();
            let m: usize = pat.unicode_len();
            Some((s.substring_char(0, i), s.substring_char(i + m, n)))
        },
        None => None,
    }
}

/// The two sides of the last occurrence of `c` in `s`.
pub open spec fn split_last(s: Seq<char>, c: char) -> Option<(Seq<char>, Seq<char>)>
    decreases s.len(),
{
    if s.len() == 0 {
        None
    } else if s.last() == c {
        Some((s.drop_last(), Seq::<char>::empty()))
    } else {
        match split_last(s.drop_last(), c) {
            Some((a, b)) => Some((a, b.push(s.last()))),
            None => None,
        }
    }
}

/// What [`split_last`] says, by position: `c` stands between the two sides
/// and not in the second.
pub proof fn split_last_at(s: Seq<char>, c: char, i: int)
    requires
        0 <= i < s.len(),
        s[i] == c,
        forall|k: int| i < k < s.len() ==> s[k] != c,
    ensures
        split_last(s, c) == Some((s.subrange(0, i), s.subrange(i + 1, s.len() as int))),
    decreases s.len(),
{
    if s.last() == c {
        assert(i == s.len() - 1);
        assert(s.drop_last() =~= s.subrange(0, i));
        assert(s.subrange(i + 1, s.len() as int) =~= Seq::<char>::empty());
    } else {
        split_last_at(s.drop_last(), c, i);
        assert(s.drop_last().subrange(0, i) =~= s.subrange(0, i));
        assert(s.drop_last().subrange(i + 1, s.len() - 1).push(s.last()) =~= s.subrange(
            i + 1,
            s.len() as int,
        ));
    }
}

/// Text in which a character does not stand has no last place of it.
pub proof fn split_last_none(s: Seq<char>, c: char)
    requires
        forall|k: int| 0 <= k < s.len() ==> s[k] != c,
    ensures
        split_last(s, c) is None,
    decreases s.len(),
{
    if s.len() > 0 {
        split_last_none(s.drop_last(), c);
    }
}

/// `str::rsplit_once` with one character.
pub fn rsplit_once(s: &str, c: char) -> (r: Option<(&str, &str)>)
    ensures
        match r {
            Some((a, b)) => split_last(s@, c) == Some((a@, b@)),
            None => split_last(s@, c) is None,
        },
{
    let v = chars_of(s);
    let n: usize = v.len();
    let mut i: usize = n;
    while i > 0
        invariant
            v@ == s@,
            n == v.len(),
            i <= n,
            forall|k: int| i <= k < n ==> v@[k] != c,
        decreases i,
    {
        if v[i - 1] == c {
            proof {
                split_last_at(s@, c, i - 1);
            }
            return Some((s.substring_char(0, i - 1), s.substring_char(i, n)));
        }
        i = i - 1;
    }
    proof {
        split_last_none(s@, c);
    }
    None
}

/// `s` begins with `pat`.
pub open spec fn begins_with(s: Seq<char>, pat: Seq<char>) -> bool {
    is_at(s, pat, 0)
}

/// `str::strip_prefix`.
pub fn strip_prefix<'a>(s: &'a str, pat: &str) -> (r: Option<&'a str>)
    ensures
        match r {
            Some(t) => begins_with(s@, pat@) && t@ == s@.subrange(pat@.len() as int, s@.len() as int),
            None => !begins_with(s@, pat@),
        },
{
    let v = chars_of(s);
    let p = chars_of(pat);
    if p.len() <= v.len() && stands_at(&v, &p, 0) {
        Some(s.substring_char(p.len(), v.len()))
    } else {
        None
    }
}

/// `str::starts_with`.
pub fn starts_with(s: &str, pat: &str) -> (r: bool)
    ensures
        r == begins_with(s@, pat@),
{
    strip_prefix(s, pat).is_some()
}

/// `s` without the occurrences of `pat` it begins with.
pub open spec fn without_prefixes(s: Seq<char>, pat: Seq<char>) -> Seq<char>
    decreases s.len(),
{
    if pat.len() > 0 && begins_with(s, pat) {
        without_prefixes(s.subrange(pat.len() as int, s.len() as int), pat)
    } else {
        s
    }
}

/// `str::trim_start_matches` with a string.
pub fn trim_prefixes<'a>(s: &'a str, pat: &str) -> (r: &'a str)
    requires
        pat@.len() > 0,
    ensures
        r@ == without_prefixes(s@, pat@),
{
    let mut rest = s;
    loop
        invariant
            pat@.len() > 0,
            without_prefixes(s@, pat@) == without_prefixes(rest@, pat@),
        decreases rest@.len(),
    {
        match strip_prefix(rest, pat) {
            Some(t) => {
                rest = t;
            },
            None => {
                return rest;
            },
        }
    }
}

/// An ASCII capital as its small letter, and anything else as it is.
pub open spec fn lower(c: char) -> char {
    if 'A' <= c <= 'Z' {
        ((c as u8) + 32) as u8 as char
    } else {
        c
    }
}

/// `str::to_ascii_lowercase`.
pub fn lowered(s: &str) -> (r: String)
    ensures
        r@ == s@.map_values(|c: char| lower(c)),
{
    let v = chars_of(s);
    let mut out = String::new();
    let ghost want = s@.map_values(|c: char| lower(c));
    let mut i: usize = 0;
    while i < v.len()
        invariant
            i <= v.len(),
            v@ == s@,
            want == s@.map_values(|c: char| lower(c)),
            out@ == want.take(i as int),
        decreases v.len() - i,
    {
        let c = v[i];
        let l = if 'A' <= c && c <= 'Z' {
            ((c as u8) + 32) as char
        } else {
            c
        };
        out.push(l);
        assert(l == want[i as int]);
        assert(out@ =~= want.take(i + 1));
        i = i + 1;
    }
    assert(want.take(want.len() as int) =~= want);
    out
}

// ---- splitting and joining -------------------------------------------

/// The pieces of `s` between occurrences of `c`.
pub open spec fn split_on(s: Seq<char>, c: char) -> Seq<Seq<char>>
    decreases s.len(),
{
    if s.len() == 0 {
        seq![s]
    } else {
        let before = split_on(s.drop_last(), c);
        if s.last() == c {
            before.push(Seq::<char>::empty())
        } else {
            before.update(before.len() - 1, before.last().push(s.last()))
        }
    }
}

proof fn split_on_nonempty(s: Seq<char>, c: char)
    ensures
        split_on(s, c).len() > 0,
    decreases s.len(),
{
    if s.len() > 0 {
        split_on_nonempty(s.drop_last(), c);
    }
}

/// `str::split` on one character.
pub fn split(s: &str, c: char) -> (r: Vec<String>)
    ensures
        texts(r@) == split_on(s@, c),
        r.len() > 0,
{
    let v = chars_of(s);
    let mut out: Vec<String> = Vec::new();
    let mut piece = String::new();
    let mut i: usize = 0;
    assert(s@.take(0) =~= Seq::<char>::empty());
    assert(texts(out@).push(piece@) =~= split_on(s@.take(0), c));
    while i < v.len()
        invariant
            v@ == s@,
            i <= v.len(),
            texts(out@).push(piece@) == split_on(s@.take(i as int), c),
        decreases v.len() - i,
    {
        let ghost before = split_on(s@.take(i as int), c);
        let ghost old_out = texts(out@);
        let ghost old_piece = piece@;
        assert(s@.take(i + 1).drop_last() =~= s@.take(i as int));
        assert(s@.take(i + 1).last() == s@[i as int]);
        if v[i] == c {
            out.push(piece);
            piece = String::new();
            assert(texts(out@) =~= old_out.push(old_piece));
        } else {
            piece.push(v[i]);
            assert(before.update(before.len() - 1, before.last().push(s@[i as int]))
                =~= old_out.push(piece@));
        }
        i = i + 1;
    }
    assert(s@.take(s@.len() as int) =~= s@);
    let ghost last_piece = piece@;
    let ghost last_out = texts(out@);
    out.push(piece);
    assert(texts(out@) =~= last_out.push(last_piece));
    out
}

/// The lines of `s`: what stands between line feeds, without the carriage
/// return before a line feed, and without an empty last piece.
pub open spec fn lines_of(s: Seq<char>) -> Seq<Seq<char>> {
    let pieces = split_on(s, '\n');
    let ended = pieces.drop_last().map_values(|l: Seq<char>| without_cr(l));
    if pieces.last().len() == 0 {
        ended
    } else {
        ended.push(pieces.last())
    }
}

/// A line without its final carriage return.
pub open spec fn without_cr(l: Seq<char>) -> Seq<char> {
    if l.len() > 0 && l.last() == '\r' {
        l.drop_last()
    } else {
        l
    }
}

/// `str::lines`.
pub fn lines(s: &str) -> (r: Vec<String>)
    ensures
        texts(r@) == lines_of(s@),
{
    let pieces = split(s, '\n');
    let ghost want = split_on(s@, '\n');
    let mut out: Vec<String> = Vec::new();
    let n: usize = pieces.len();
    let mut i: usize = 0;
    while i + 1 < n
        invariant
            n == pieces.len(),
            n > 0,
            texts(pieces@) == want,
            i < n,
            texts(out@) == want.drop_last().map_values(|l: Seq<char>| without_cr(l)).take(i as int),
        decreases n - i,
    {
        let l = pieces[i].as_str();
        assert(l@ == want[i as int]);
        let v = chars_of(l);
        let m: usize = v.len();
        let ghost prior = texts(out@);
        if m > 0 && v[m - 1] == '\r' {
            let cut = l.substring_char(0, m - 1).to_owned();
            assert(cut@ =~= without_cr(l@));
            out.push(cut);
        } else {
            out.push(l.to_owned());
        }
        assert(texts(out@) =~= prior.push(without_cr(l@)));
        i = i + 1;
    }
    assert(texts(pieces@)[n - 1] == want[n - 1]);
    let ghost prior = texts(out@);
    let ghost ended = want.drop_last().map_values(|l: Seq<char>| without_cr(l));
    assert(prior =~= ended);
    if pieces[n - 1].as_str().unicode_len() > 0 {
        out.push(pieces[n - 1].clone());
        assert(texts(out@) =~= prior.push(want.last()));
    }
    out
}

/// The parts one after the other, with `sep` between two of them.
pub open spec fn joined(parts: Seq<Seq<char>>, sep: Seq<char>) -> Seq<char>
    decreases parts.len(),
{
    if parts.len() == 0 {
        Seq::empty()
    } else if parts.len() == 1 {
        parts[0]
    } else {
        joined(parts.drop_last(), sep) + sep + parts.last()
    }
}

/// `[String]::join`.
pub fn join(parts: &Vec<String>, sep: &str) -> (r: String)
    ensures
        r@ == joined(texts(parts@), sep@),
{
    let mut out = String::new();
    let mut i: usize = 0;
    while i < parts.len()
        invariant
            i <= parts.len(),
            out@ == joined(texts(parts@).take(i as int), sep@),
        decreases parts.len() - i,
    {
        let ghost upto = texts(parts@).take(i + 1);
        assert(upto.drop_last() =~= texts(parts@).take(i as int));
        if i > 0 {
            out.append(sep);
        }
        out.append(parts[i].as_str());
        assert(out@ =~= joined(upto, sep@));
        i = i + 1;
    }
    assert(texts(parts@).take(parts@.len() as int) =~= texts(parts@));
    out
}

/// The parts one after the other.
pub open spec fn concatenated(parts: Seq<Seq<char>>) -> Seq<char>
    decreases parts.len(),
{
    if parts.len() == 0 {
        Seq::empty()
    } else {
        concatenated(parts.drop_last()) + parts.last()
    }
}

/// Appends the parts one after the other.
pub fn append_all(out: &mut String, parts: &Vec<String>)
    ensures
        final(out)@ == old(out)@ + concatenated(texts(parts@)),
{
    let ghost all = texts(parts@);
    let ghost start = out@;
    let mut i: usize = 0;
    assert(out@ =~= start + concatenated(all.take(0)));
    while i < parts.len()
        invariant
            i <= parts.len(),
            all == texts(parts@),
            out@ == start + concatenated(all.take(i as int)),
        decreases parts.len() - i,
    {
        assert(all.take(i + 1).drop_last() =~= all.take(i as int));
        out.append(parts[i].as_str());
        assert(out@ =~= start + concatenated(all.take(i + 1)));
        i = i + 1;
    }
    assert(all.take(i as int) =~= all);
}

/// `n` spaces.
pub open spec fn spaces(n: nat) -> Seq<char> {
    Seq::new(n, |i: int| ' ')
}

/// `s` with spaces behind it, at least `width` characters wide.
pub open spec fn padded_right(s: Seq<char>, width: nat) -> Seq<char> {
    if s.len() >= width {
        s
    } else {
        s + spaces((width - s.len()) as nat)
    }
}

/// `s` with spaces before it, at least `width` characters wide.
pub open spec fn padded_left(s: Seq<char>, width: nat) -> Seq<char> {
    if s.len() >= width {
        s
    } else {
        spaces((width - s.len()) as nat) + s
    }
}

fn append_spaces(out: &mut String, n: usize)
    ensures
        final(out)@ == old(out)@ + spaces(n as nat),
{
    let ghost start = out@;
    let mut i: usize = 0;
    assert(out@ =~= start + spaces(0));
    while i < n
        invariant
            i <= n,
            out@ == start + spaces(i as nat),
        decreases n - i,
    {
        out.push(' ');
        assert(out@ =~= start + spaces((i + 1) as nat));
        i = i + 1;
    }
}

/// Appends `s`, left-aligned.
pub fn append_left(out: &mut String, s: &str, width: usize)
    ensures
        final(out)@ == old(out)@ + padded_right(s@, width as nat),
{
    let n: usize = s.unicode_len();
    out.append(s);
    if n < width {
        append_spaces(out, width - n);
        assert(out@ =~= old(out)@ + padded_right(s@, width as nat));
    }
}

/// Appends `s`, right-aligned.
pub fn append_right(out: &mut String, s: &str, width: usize)
    ensures
        final(out)@ == old(out)@ + padded_left(s@, width as nat),
{
    let n: usize = s.unicode_len();
    if n < width {
        append_spaces(out, width - n);
        out.append(s);
        assert(out@ =~= old(out)@ + padded_left(s@, width as nat));
    } else {
        out.append(s);
    }
}

// ---- numbers ---------------------------------------------------------

/// The digit for `d`.
pub open spec fn digit(d: nat) -> char {
    if d == 0 { '0' } else if d == 1 { '1' } else if d == 2 { '2' } else if d == 3 { '3' }
    else if d == 4 { '4' } else if d == 5 { '5' } else if d == 6 { '6' } else if d == 7 { '7' }
    else if d == 8 { '8' } else { '9' }
}

/// `n` in decimal.
pub open spec fn decimal(n: nat) -> Seq<char>
    decreases n,
{
    if n < 10 {
        seq![digit(n)]
    } else {
        decimal(n / 10).push(digit(n % 10))
    }
}

fn digit_char(d: u64) -> (r: char)
    requires
        d < 10,
    ensures
        r == digit(d as nat),
{
    if d == 0 { '0' } else if d == 1 { '1' } else if d == 2 { '2' } else if d == 3 { '3' }
    else if d == 4 { '4' } else if d == 5 { '5' } else if d == 6 { '6' } else if d == 7 { '7' }
    else if d == 8 { '8' } else { '9' }
}

/// Appends `n` in decimal.
pub fn append_decimal(out: &mut String, n: u64)
    ensures
        final(out)@ == old(out)@ + decimal(n as nat),
    decreases n,
{
    if n < 10 {
        out.push(digit_char(n));
        assert(out@ =~= old(out)@ + decimal(n as nat));
    } else {
        append_decimal(out, n / 10);
        out.push(digit_char(n % 10));
        assert(out@ =~= old(out)@ + decimal(n as nat));
    }
}

/// `n` in decimal.
pub fn decimal_of(n: u64) -> (r: String)
    ensures
        r@ == decimal(n as nat),
{
    let mut s = String::new();
    append_decimal(&mut s, n);
    assert(s@ =~= decimal(n as nat));
    s
}

/// Appends `n` in decimal.
pub fn append_wide_decimal(out: &mut String, n: u128)
    ensures
        final(out)@ == old(out)@ + decimal(n as nat),
    decreases n,
{
    if n < 10 {
        out.push(digit_char(n as u64));
    } else {
        append_wide_decimal(out, n / 10);
        out.push(digit_char((n % 10) as u64));
    }
    assert(out@ =~= old(out)@ + decimal(n as nat));
}

/// An integer in decimal, with a minus sign where it is negative.
pub open spec fn signed_decimal(n: int) -> Seq<char> {
    if n < 0 {
        seq!['-'] + decimal((-n) as nat)
    } else {
        decimal(n as nat)
    }
}

/// `n` in decimal.
pub fn signed_decimal_of(n: i64) -> (r: String)
    ensures
        r@ == signed_decimal(n as int),
{
    if n < 0 {
        let mut s = String::new();
        s.push('-');
        let m: u64 = if n == i64::MIN { 0x8000_0000_0000_0000 } else { (-n) as u64 };
        append_decimal(&mut s, m);
        assert(s@ =~= signed_decimal(n as int));
        s
    } else {
        decimal_of(n as u64)
    }
}

/// The value of a decimal digit.
pub open spec fn digit_value(c: char) -> Option<nat> {
    if '0' <= c <= '9' {
        Some((c as int - '0' as int) as nat)
    } else {
        None
    }
}

/// The value of a run of decimal digits; none for anything else.
pub open spec fn digits_value(s: Seq<char>) -> Option<nat>
    decreases s.len(),
{
    if s.len() == 0 {
        Some(0)
    } else {
        match (digits_value(s.drop_last()), digit_value(s.last())) {
            (Some(v), Some(d)) => Some(v * 10 + d),
            _ => None,
        }
    }
}

/// What parsing an unsigned integer no larger than `max` gives: an optional
/// plus sign, then one digit or more, with a value that fits.
pub open spec fn parsed(s: Seq<char>, max: nat) -> Option<nat> {
    let d = if s.len() > 0 && s[0] == '+' {
        s.subrange(1, s.len() as int)
    } else {
        s
    };
    if d.len() == 0 {
        None
    } else {
        match digits_value(d) {
            Some(v) => if v <= max {
                Some(v)
            } else {
                None
            },
            None => None,
        }
    }
}

proof fn digits_value_prefix(s: Seq<char>, i: int)
    requires
        0 <= i <= s.len(),
        digits_value(s.take(i)) is None,
    ensures
        digits_value(s) is None,
    decreases s.len() - i,
{
    if i == s.len() {
        assert(s.take(i) =~= s);
    } else {
        assert(s.take(i + 1).drop_last() =~= s.take(i));
        digits_value_prefix(s, i + 1);
    }
}

/// Parses an unsigned integer no larger than `max`, as `str::parse` does.
pub fn parse_up_to(s: &str, max: u64) -> (r: Option<u64>)
    ensures
        match r {
            Some(v) => parsed(s@, max as nat) == Some(v as nat),
            None => parsed(s@, max as nat) is None,
        },
{
    let v = chars_of(s);
    let start: usize = if v.len() > 0 && v[0] == '+' { 1 } else { 0 };
    let ghost d = s@.subrange(start as int, s@.len() as int);
    assert(start == 0 ==> d =~= s@);
    if start == v.len() {
        return None;
    }
    let mut value: u64 = 0;
    let mut over: bool = false;
    let mut i: usize = start;
    assert(d.take(0) =~= Seq::<char>::empty());
    while i < v.len()
        invariant
            v@ == s@,
            start <= i <= v.len(),
            start == 0 ==> d == s@ && (s@.len() > 0 ==> s@[0] != '+'),
            start != 0 ==> start == 1 && s@.len() > 0 && s@[0] == '+',
            d == s@.subrange(start as int, s@.len() as int),
            digits_value(d.take(i - start)) is Some,
            over ==> digits_value(d.take(i - start))->0 > max,
            !over ==> value <= max && digits_value(d.take(i - start))->0 == value,
        decreases v.len() - i,
    {
        let c = v[i];
        assert(d.take(i - start + 1).drop_last() =~= d.take(i - start));
        assert(d.take(i - start + 1).last() == c);
        if !('0' <= c && c <= '9') {
            proof {
                digits_value_prefix(d, i - start + 1);
            }
            return None;
        }
        let x: u64 = (c as u32 - '0' as u32) as u64;
        if !over {
            let big: u128 = value as u128 * 10 + x as u128;
            if big > max as u128 {
                over = true;
            } else {
                value = big as u64;
            }
        }
        i = i + 1;
    }
    assert(d.take(d.len() as int) =~= d);
    if over {
        None
    } else {
        Some(value)
    }
}

// ---- order -----------------------------------------------------------

/// `a` comes no later than `b` in the order of their characters.
pub open spec fn text_le(a: Seq<char>, b: Seq<char>) -> bool
    decreases a.len(),
{
    if a.len() == 0 {
        true
    } else if b.len() == 0 {
        false
    } else if a[0] == b[0] {
        text_le(a.subrange(1, a.len() as int), b.subrange(1, b.len() as int))
    } else {
        a[0] < b[0]
    }
}

/// Whether `a` comes no later than `b`.
pub fn is_text_le(a: &str, b: &str) -> (r: bool)
    ensures
        r == text_le(a@, b@),
{
    let x = chars_of(a);
    let y = chars_of(b);
    let mut i: usize = 0;
    assert(a@.subrange(0, a@.len() as int) =~= a@);
    assert(b@.subrange(0, b@.len() as int) =~= b@);
    while i < x.len() && i < y.len()
        invariant
            x@ == a@,
            y@ == b@,
            i <= x.len(),
            i <= y.len(),
            text_le(a@, b@) == text_le(
                a@.subrange(i as int, a@.len() as int),
                b@.subrange(i as int, b@.len() as int),
            ),
        decreases x.len() - i,
    {
        let ghost ra = a@.subrange(i as int, a@.len() as int);
        let ghost rb = b@.subrange(i as int, b@.len() as int);
        assert(ra.subrange(1, ra.len() as int) =~= a@.subrange(i + 1, a@.len() as int));
        assert(rb.subrange(1, rb.len() as int) =~= b@.subrange(i + 1, b@.len() as int));
        if x[i] != y[i] {
            return x[i] < y[i];
        }
        i = i + 1;
    }
    i == x.len()
}

/// Of any two texts one comes no later than the other, and both do only where
/// they are one.
pub proof fn text_le_is_total(a: Seq<char>, b: Seq<char>)
    ensures
        text_le(a, b) || text_le(b, a),
        text_le(a, b) && text_le(b, a) ==> a == b,
    decreases a.len(),
{
    if a.len() > 0 && b.len() > 0 && a[0] == b[0] {
        let x = a.subrange(1, a.len() as int);
        let y = b.subrange(1, b.len() as int);
        text_le_is_total(x, y);
        if text_le(a, b) && text_le(b, a) {
            assert(a =~= seq![a[0]] + x);
            assert(b =~= seq![b[0]] + y);
        }
    } else if a.len() == 0 && b.len() == 0 {
        assert(a =~= b);
    }
}

/// The order of texts carries over.
pub proof fn text_le_is_transitive(a: Seq<char>, b: Seq<char>, c: Seq<char>)
    requires
        text_le(a, b),
        text_le(b, c),
    ensures
        text_le(a, c),
    decreases a.len(),
{
    if a.len() > 0 && b.len() > 0 && c.len() > 0 && a[0] == b[0] && b[0] == c[0] {
        text_le_is_transitive(
            a.subrange(1, a.len() as int),
            b.subrange(1, b.len() as int),
            c.subrange(1, c.len() as int),
        );
    }
}

// ---- what holds of every text ----------------------------------------

proof fn leading_goes(s: Seq<char>, p: spec_fn(char) -> bool) -> (a: int)
    ensures
        0 <= a <= s.len(),
        drop_leading(s, p) == s.subrange(a, s.len() as int),
        forall|k: int| 0 <= k < a ==> p(#[trigger] s[k]),
        a < s.len() ==> !p(s[a]),
    decreases s.len(),
{
    if s.len() > 0 && p(s[0]) {
        let t = s.subrange(1, s.len() as int);
        let b = leading_goes(t, p);
        assert(t.subrange(b, t.len() as int) =~= s.subrange(b + 1, s.len() as int));
        assert forall|k: int| 0 <= k < b + 1 implies p(#[trigger] s[k]) by {
            if k > 0 {
                assert(t[k - 1] == s[k]);
            }
        }
        if b + 1 < s.len() {
            assert(t[b] == s[b + 1]);
        }
        b + 1
    } else {
        assert(s.subrange(0, s.len() as int) =~= s);
        0
    }
}

proof fn trailing_goes(s: Seq<char>, p: spec_fn(char) -> bool) -> (b: int)
    ensures
        0 <= b <= s.len(),
        drop_trailing(s, p) == s.subrange(0, b),
        forall|k: int| b <= k < s.len() ==> p(#[trigger] s[k]),
        b > 0 ==> !p(s[b - 1]),
    decreases s.len(),
{
    if s.len() > 0 && p(s.last()) {
        let t = s.drop_last();
        let b = trailing_goes(t, p);
        assert(t.subrange(0, b) =~= s.subrange(0, b));
        assert forall|k: int| b <= k < s.len() implies p(#[trigger] s[k]) by {
            if k < s.len() - 1 {
                assert(t[k] == s[k]);
            }
        }
        b
    } else {
        assert(s.subrange(0, s.len() as int) =~= s);
        s.len() as int
    }
}

/// `s` from `a` to `b`: white space stands before and behind it, and neither
/// at its start nor at its end.
pub open spec fn is_core(s: Seq<char>, a: int, b: int) -> bool {
    &&& 0 <= a <= b <= s.len()
    &&& forall|k: int| 0 <= k < a ==> spec_is_space(#[trigger] s[k])
    &&& forall|k: int| b <= k < s.len() ==> spec_is_space(#[trigger] s[k])
    &&& a < b ==> !spec_is_space(s[a]) && !spec_is_space(s[b - 1])
}

/// Trimming takes off the surrounding white space and nothing else.
pub proof fn trimming_takes_only_space(s: Seq<char>, a: int, b: int)
    requires
        is_core(s, a, b),
    ensures
        trimmed(s) == s.subrange(a, b),
{
    let p = strippable(None);
    let x = leading_goes(s, p);
    let t = drop_leading(s, p);
    let y = trailing_goes(t, p);
    if a < b {
        assert(p(s[a]) == spec_is_space(s[a]));
        assert(x == a) by {
            if x < a {
                assert(spec_is_space(s[x]));
            }
        }
        assert(t[b - 1 - a] == s[b - 1]);
        assert(y == b - a) by {
            if y > b - a {
                assert(t[y - 1] == s[a + y - 1]);
                assert(spec_is_space(s[a + y - 1]));
            }
        }
    } else {
        if x < s.len() {
            if x < a {
                assert(spec_is_space(s[x]));
            } else {
                assert(spec_is_space(s[x]));
            }
        }
        assert(t.len() == 0);
    }
    assert(trimmed(s) =~= s.subrange(a, b));
}

/// Every text has such a core.
pub proof fn trimming_leaves_a_core(s: Seq<char>) -> (r: (int, int))
    ensures
        is_core(s, r.0, r.1),
        trimmed(s) == s.subrange(r.0, r.1),
{
    let p = strippable(None);
    let x = leading_goes(s, p);
    let t = drop_leading(s, p);
    let y = trailing_goes(t, p);
    assert forall|k: int| 0 <= k < x implies spec_is_space(#[trigger] s[k]) by {
        assert(p(s[k]));
    }
    assert forall|k: int| x + y <= k < s.len() implies spec_is_space(#[trigger] s[k]) by {
        assert(t[k - x] == s[k]);
        assert(p(t[k - x]));
    }
    if y > 0 {
        assert(t[0] == s[x]);
        assert(!p(s[x]));
        assert(t[y - 1] == s[x + y - 1]);
        assert(!p(t[y - 1]));
    }
    assert(t.subrange(0, y) =~= s.subrange(x, x + y));
    (x, x + y)
}

/// Text that neither starts nor ends with white space is left as it is.
pub proof fn trimming_keeps_the_rest(s: Seq<char>)
    requires
        s.len() > 0 ==> !spec_is_space(s[0]) && !spec_is_space(s.last()),
    ensures
        trimmed(s) == s,
{
    trimming_takes_only_space(s, 0, s.len() as int);
    assert(s.subrange(0, s.len() as int) =~= s);
}

/// Spaces, tabs and line ends are white space; no letter, digit or other
/// printing ASCII character is.
pub proof fn what_is_white_space(c: char)
    ensures
        c == ' ' || c == '\t' || c == '\n' || c == '\r' ==> spec_is_space(c),
        '!' <= c <= '~' ==> !spec_is_space(c),
{
}

/// The sides of the first occurrence, by its position.
pub proof fn split_first_at(s: Seq<char>, pat: Seq<char>, i: int)
    requires
        is_at(s, pat, i),
        forall|k: int| 0 <= k < i ==> !#[trigger] is_at(s, pat, k),
    ensures
        split_first(s, pat) == Some((s.subrange(0, i), s.subrange(i + pat.len(), s.len() as int))),
{
    find_from_is_first(s, pat, 0);
}

/// Text in which a pattern does not occur is not split.
pub proof fn split_first_nowhere(s: Seq<char>, pat: Seq<char>)
    ensures
        split_first(s, pat) is None <==> !occurs(s, pat),
        occurs(s, pat) <==> exists|a: Seq<char>, b: Seq<char>| s == #[trigger] (a + pat + b),
{
    find_from_is_first(s, pat, 0);
    if occurs(s, pat) {
        let i = choose|i: int| is_at(s, pat, i);
        let a = s.subrange(0, i);
        let b = s.subrange(i + pat.len(), s.len() as int);
        assert(s =~= a + s.subrange(i, i + pat.len()) + b);
        assert(s == a + pat + b);
    }
    if exists|a: Seq<char>, b: Seq<char>| s == #[trigger] (a + pat + b) {
        let (a, b) = choose|a: Seq<char>, b: Seq<char>| s == #[trigger] (a + pat + b);
        assert(s.subrange(a.len() as int, a.len() as int + pat.len()) =~= pat);
        assert(is_at(s, pat, a.len() as int));
    }
}

/// A text stands in every text it is a part of.
pub proof fn a_part_occurs(a: Seq<char>, pat: Seq<char>, b: Seq<char>)
    ensures
        occurs(a + pat + b, pat),
{
    let s = a + pat + b;
    let i = a.len() as int;
    assert(s.subrange(i, i + pat.len()) =~= pat);
    assert(is_at(s, pat, i));
}

/// What stands in a text stands in every text that one is a part of.
pub proof fn a_part_of_a_part_occurs(a: Seq<char>, t: Seq<char>, b: Seq<char>, pat: Seq<char>)
    requires
        occurs(t, pat),
    ensures
        occurs(a + t + b, pat),
{
    let s = a + t + b;
    let i = choose|i: int| is_at(t, pat, i);
    let j = a.len() + i;
    assert(s.subrange(j, j + pat.len()) =~= t.subrange(i, i + pat.len()));
    assert(is_at(s, pat, j));
}

/// A text begins with its prefixes, and with nothing else.
pub proof fn what_it_begins_with(s: Seq<char>, pat: Seq<char>)
    ensures
        begins_with(s, pat) <==> pat.len() <= s.len() && s.take(pat.len() as int) == pat,
{
    if pat.len() <= s.len() {
        assert(s.take(pat.len() as int) =~= s.subrange(0, pat.len() as int));
    }
}

/// The pieces hold no separator, and put together again they are the text.
pub proof fn splitting_loses_nothing(s: Seq<char>, c: char)
    ensures
        split_on(s, c).len() > 0,
        joined(split_on(s, c), seq![c]) == s,
        forall|i: int| 0 <= i < split_on(s, c).len() ==> !(#[trigger] split_on(s, c)[i]).contains(c),
    decreases s.len(),
{
    let all = split_on(s, c);
    if s.len() > 0 {
        let t = s.drop_last();
        let before = split_on(t, c);
        splitting_loses_nothing(t, c);
        if s.last() == c {
            assert(all.drop_last() =~= before);
            assert(joined(all, seq![c]) =~= t + seq![c]);
            assert(s =~= t + seq![c]);
        } else {
            assert(all.drop_last() =~= before.drop_last());
            assert(s =~= t.push(s.last()));
            assert(!all.last().contains(c)) by {
                if all.last().contains(c) {
                    let k = choose|k: int| 0 <= k < all.last().len() && all.last()[k] == c;
                    assert(k < before.last().len());
                    assert(before.last()[k] == c);
                    assert(before[before.len() - 1].contains(c));
                }
            }
            assert forall|i: int| 0 <= i < all.len() implies !(#[trigger] all[i]).contains(c) by {
                if i < all.len() - 1 {
                    assert(all[i] == before[i]);
                }
            }
            if before.len() > 1 {
                assert(joined(all, seq![c]) =~= joined(before, seq![c]).push(s.last()));
            } else {
                assert(joined(all, seq![c]) =~= s);
            }
        }
    } else {
        assert(all[0] =~= s);
    }
}

proof fn split_at_a_separator(s: Seq<char>, c: char, t: Seq<char>)
    ensures
        split_on(s + seq![c] + t, c) == split_on(s, c) + split_on(t, c),
    decreases t.len(),
{
    let all = s + seq![c] + t;
    split_on_nonempty(t, c);
    split_on_nonempty(s, c);
    if t.len() == 0 {
        assert(all.drop_last() =~= s);
        assert(all.last() == c);
        assert(t =~= Seq::<char>::empty());
        assert(split_on(all, c) =~= split_on(s, c) + split_on(t, c));
    } else {
        let u = t.drop_last();
        split_at_a_separator(s, c, u);
        split_on_nonempty(u, c);
        assert(all.drop_last() =~= s + seq![c] + u);
        assert(all.last() == t.last());
        assert(split_on(all, c) =~= split_on(s, c) + split_on(t, c));
    }
}

proof fn split_nowhere(s: Seq<char>, c: char)
    requires
        !s.contains(c),
    ensures
        split_on(s, c) == seq![s],
    decreases s.len(),
{
    if s.len() > 0 {
        let t = s.drop_last();
        assert(!t.contains(c)) by {
            if t.contains(c) {
                let k = choose|k: int| 0 <= k < t.len() && t[k] == c;
                assert(s[k] == c);
            }
        }
        assert(s[s.len() - 1] != c);
        split_nowhere(t, c);
        assert(t.push(s.last()) =~= s);
        assert(split_on(s, c) =~= seq![s]);
    }
}

/// The lines of a text are its first line, without a carriage return at its
/// end, and the lines of what stands behind it.
pub proof fn the_first_line_comes_first(l: Seq<char>, rest: Seq<char>)
    requires
        !l.contains('\n'),
    ensures
        lines_of(l + seq!['\n'] + rest) == seq![without_cr(l)] + lines_of(rest),
{
    split_at_a_separator(l, '\n', rest);
    split_nowhere(l, '\n');
    split_on_nonempty(rest, '\n');
    let a = split_on(l + seq!['\n'] + rest, '\n');
    let b = split_on(rest, '\n');
    assert(a =~= seq![l] + b);
    assert(a.last() == b.last());
    assert(lines_of(l + seq!['\n'] + rest) =~= seq![without_cr(l)] + lines_of(rest));
}

/// The lines behind a line feed are the last of the lines.
pub proof fn what_follows_a_break_comes_last(s: Seq<char>, t: Seq<char>)
    ensures
        ({
            let all = lines_of(s + seq!['\n'] + t);
            let last = lines_of(t);
            &&& all.len() >= last.len()
            &&& all.subrange(all.len() - last.len(), all.len() as int) == last
        }),
{
    split_at_a_separator(s, '\n', t);
    split_on_nonempty(s, '\n');
    split_on_nonempty(t, '\n');
    let a = split_on(s, '\n');
    let b = split_on(t, '\n');
    let all = lines_of(s + seq!['\n'] + t);
    let last = lines_of(t);
    assert((a + b).drop_last() =~= a + b.drop_last());
    assert((a + b).last() == b.last());
    assert(all.len() == a.len() + last.len());
    assert(all.subrange(all.len() - last.len(), all.len() as int) =~= last);
}

/// Text without a line feed is one line, and no text is none.
pub proof fn a_line_is_itself(l: Seq<char>)
    requires
        !l.contains('\n'),
    ensures
        lines_of(l) == (if l.len() == 0 {
            Seq::empty()
        } else {
            seq![l]
        }),
{
    split_nowhere(l, '\n');
    assert(lines_of(l) =~= (if l.len() == 0 {
        Seq::empty()
    } else {
        seq![l]
    }));
}

/// Joined parts are the first, the separator, and the others joined.
pub proof fn joining_starts_with_the_first(parts: Seq<Seq<char>>, sep: Seq<char>)
    ensures
        parts.len() == 0 ==> joined(parts, sep).len() == 0,
        parts.len() == 1 ==> joined(parts, sep) == parts[0],
        parts.len() > 1 ==> joined(parts, sep) == parts[0] + sep + joined(
            parts.subrange(1, parts.len() as int),
            sep,
        ),
    decreases parts.len(),
{
    if parts.len() > 1 {
        let rest = parts.subrange(1, parts.len() as int);
        joining_starts_with_the_first(parts.drop_last(), sep);
        assert(rest.last() == parts.last());
        if parts.len() == 2 {
            assert(joined(parts.drop_last(), sep) == parts[0]);
            assert(joined(rest, sep) == parts[1]);
        } else {
            assert(rest.drop_last() =~= parts.drop_last().subrange(1, parts.len() - 1));
            assert(parts.drop_last()[0] == parts[0]);
        }
        assert(joined(parts, sep) =~= parts[0] + sep + joined(rest, sep));
    }
}

/// Every part stands in what was joined.
pub proof fn every_part_is_there(parts: Seq<Seq<char>>, sep: Seq<char>, i: int)
    requires
        0 <= i < parts.len(),
    ensures
        occurs(joined(parts, sep), parts[i]),
    decreases parts.len(),
{
    let all = joined(parts, sep);
    if parts.len() == 1 {
        assert(all.subrange(0, all.len() as int) =~= parts[i]);
        assert(is_at(all, parts[i], 0));
    } else {
        let before = joined(parts.drop_last(), sep);
        if i == parts.len() - 1 {
            let at = before.len() as int + sep.len();
            assert(all.subrange(at, at + parts[i].len()) =~= parts[i]);
            assert(is_at(all, parts[i], at));
        } else {
            every_part_is_there(parts.drop_last(), sep, i);
            assert(parts.drop_last()[i] == parts[i]);
            let at = choose|at: int| is_at(before, parts[i], at);
            assert(all.subrange(at, at + parts[i].len()) =~= before.subrange(
                at,
                at + parts[i].len(),
            ));
            assert(is_at(all, parts[i], at));
        }
    }
}

/// What a part ends with stands in what was joined.
pub proof fn the_end_of_a_part_is_there(
    parts: Seq<Seq<char>>,
    sep: Seq<char>,
    head: Seq<char>,
    tail: Seq<char>,
)
    requires
        parts.contains(head + tail),
    ensures
        occurs(joined(parts, sep), tail),
{
    let k = choose|k: int| 0 <= k < parts.len() && parts[k] == head + tail;
    every_part_is_there(parts, sep, k);
    let all = joined(parts, sep);
    let i = choose|i: int| is_at(all, parts[k], i);
    let j = i + head.len();
    assert(all.subrange(j, j + tail.len()) =~= all.subrange(i, i + parts[k].len()).subrange(
        head.len() as int,
        head.len() as int + tail.len(),
    ));
    assert((head + tail).subrange(head.len() as int, head.len() as int + tail.len()) =~= tail);
    assert(is_at(all, tail, j));
}

/// A number can be read back from its decimal form, which holds digits alone
/// and no leading zero.
pub proof fn a_number_reads_back(n: nat, max: nat)
    requires
        n <= max,
    ensures
        parsed(decimal(n), max) == Some(n),
        digits_value(decimal(n)) == Some(n),
        decimal(n).len() > 0,
        forall|i: int| 0 <= i < decimal(n).len() ==> '0' <= #[trigger] decimal(n)[i] <= '9',
        decimal(n)[0] == '0' ==> n == 0,
    decreases n,
{
    if n < 10 {
        assert(decimal(n).drop_last() =~= Seq::<char>::empty());
        assert(digits_value(Seq::<char>::empty()) == Some(0nat));
        assert(digit_value(digit(n)) == Some(n));
    } else {
        a_number_reads_back(n / 10, n / 10);
        assert(decimal(n).drop_last() =~= decimal(n / 10));
        assert(digit_value(digit(n % 10)) == Some(n % 10));
        assert(decimal(n)[0] == decimal(n / 10)[0]);
    }
}

/// A number that parses holds nothing but digits behind an optional sign, and
/// its value is no larger than asked for.
pub proof fn only_digits_parse(s: Seq<char>, max: nat)
    requires
        parsed(s, max) is Some,
    ensures
        s.len() > 0,
        parsed(s, max)->0 <= max,
        s[0] == '+' ==> s.len() > 1,
        forall|i: int| 1 <= i < s.len() ==> '0' <= #[trigger] s[i] <= '9',
        s[0] == '+' || '0' <= s[0] <= '9',
{
    if s[0] == '+' {
        let d = s.subrange(1, s.len() as int);
        only_digits(d);
        assert forall|i: int| 1 <= i < s.len() implies '0' <= #[trigger] s[i] <= '9' by {
            assert(d[i - 1] == s[i]);
        }
    } else {
        only_digits(s);
    }
}

proof fn only_digits(s: Seq<char>)
    requires
        digits_value(s) is Some,
    ensures
        forall|i: int| 0 <= i < s.len() ==> '0' <= #[trigger] s[i] <= '9',
    decreases s.len(),
{
    if s.len() > 0 {
        only_digits(s.drop_last());
        assert forall|i: int| 0 <= i < s.len() implies '0' <= #[trigger] s[i] <= '9' by {
            if i < s.len() - 1 {
                assert(s.drop_last()[i] == s[i]);
            }
        }
    }
}

/// A digit more makes ten times as much, and the digit.
pub proof fn digits_count_by_tens(s: Seq<char>, d: nat)
    requires
        d < 10,
        digits_value(s) is Some,
    ensures
        digits_value(s.push(('0' as u32 + d) as char)) == Some(digits_value(s)->0 * 10 + d),
{
    let c = ('0' as u32 + d) as char;
    assert(s.push(c).drop_last() =~= s);
    assert(digit_value(c) == Some(d));
}

/// Padding keeps the text and makes it wide enough, with spaces alone.
pub proof fn padding_adds_only_spaces(s: Seq<char>, width: nat)
    ensures
        padded_right(s, width).take(s.len() as int) == s,
        padded_left(s, width).subrange(
            padded_left(s, width).len() - s.len(),
            padded_left(s, width).len() as int,
        ) == s,
        padded_right(s, width).len() == (if s.len() < width { width } else { s.len() }),
        padded_left(s, width).len() == (if s.len() < width { width } else { s.len() }),
        forall|i: int|
            s.len() <= i < padded_right(s, width).len() ==> #[trigger] padded_right(s, width)[i]
                == ' ',
        forall|i: int|
            0 <= i < padded_left(s, width).len() - s.len() ==> #[trigger] padded_left(s, width)[i]
                == ' ',
{
    assert(padded_right(s, width).take(s.len() as int) =~= s);
    assert(padded_left(s, width).subrange(
        padded_left(s, width).len() - s.len(),
        padded_left(s, width).len() as int,
    ) =~= s);
}

/// Prefixes are taken off until none is left.
pub proof fn no_prefix_is_left(s: Seq<char>, pat: Seq<char>)
    requires
        pat.len() > 0,
    ensures
        !begins_with(without_prefixes(s, pat), pat),
        !begins_with(s, pat) ==> without_prefixes(s, pat) == s,
        without_prefixes(pat + s, pat) == without_prefixes(s, pat),
    decreases s.len(),
{
    assert((pat + s).subrange(0, pat.len() as int) =~= pat);
    assert((pat + s).subrange(pat.len() as int, (pat + s).len() as int) =~= s);
    assert(begins_with(pat + s, pat));
    if begins_with(s, pat) {
        no_prefix_is_left(s.subrange(pat.len() as int, s.len() as int), pat);
    }
}

/// Small letters stand for capitals, and nothing else changes.
pub proof fn only_capitals_change(c: char)
    ensures
        'A' <= c <= 'Z' ==> lower(c) as u32 == c as u32 + 32,
        !('A' <= c <= 'Z') ==> lower(c) == c,
{
}

/// The order of texts is decided where they first differ, and a prefix comes
/// first.
pub proof fn the_first_difference_decides(a: Seq<char>, b: Seq<char>, i: int)
    requires
        0 <= i <= a.len(),
        i <= b.len(),
        a.take(i) == b.take(i),
        i < a.len() && i < b.len() ==> a[i] != b[i],
    ensures
        text_le(a, b) == (i == a.len() || (i < b.len() && a[i] < b[i])),
    decreases i,
{
    if i > 0 {
        assert(a.take(i)[0] == a[0] && b.take(i)[0] == b[0]);
        let x = a.subrange(1, a.len() as int);
        let y = b.subrange(1, b.len() as int);
        assert forall|k: int| 0 <= k < i - 1 implies #[trigger] x[k] == y[k] by {
            assert(a.take(i)[k + 1] == a[k + 1] && b.take(i)[k + 1] == b[k + 1]);
            assert(x[k] == a[k + 1] && y[k] == b[k + 1]);
        }
        assert(x.take(i - 1) =~= y.take(i - 1));
        the_first_difference_decides(x, y, i - 1);
    }
}

} // verus!
