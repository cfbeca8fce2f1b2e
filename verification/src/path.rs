//! Unix paths, as text.

use crate::text::{
    is_text_le, same, split, split_on, text_le, text_le_is_total, text_le_is_transitive, texts,
};
use vstd::prelude::*;
use vstd::string::*;

verus! {

/// Whether a path starts at the root.
pub open spec fn absolute(p: Seq<char>) -> bool {
    p.len() > 0 && p[0] == '/'
}

/// Whether piece `i` of a path counts as a component: empty pieces do not,
/// and `.` only at the start of a relative path.
pub open spec fn counts(p: Seq<char>, pieces: Seq<Seq<char>>, i: int) -> bool {
    pieces[i].len() > 0 && (pieces[i] != seq!['.'] || (i == 0 && !absolute(p)))
}

/// The first `n` pieces' components.
pub open spec fn components_upto(p: Seq<char>, pieces: Seq<Seq<char>>, n: nat) -> Seq<Seq<char>>
    decreases n,
{
    if n == 0 {
        Seq::empty()
    } else {
        let before = components_upto(p, pieces, (n - 1) as nat);
        if counts(p, pieces, n - 1) {
            before.push(pieces[n - 1])
        } else {
            before
        }
    }
}

/// The components of a path, without the root.
pub open spec fn components(p: Seq<char>) -> Seq<Seq<char>> {
    components_upto(p, split_on(p, '/'), split_on(p, '/').len())
}

/// Two ways of writing one path.
pub open spec fn same_path(a: Seq<char>, b: Seq<char>) -> bool {
    absolute(a) == absolute(b) && components(a) == components(b)
}

/// `p` is `dir` or lies below it.
pub open spec fn below(p: Seq<char>, dir: Seq<char>) -> bool {
    &&& absolute(p) == absolute(dir)
    &&& components(dir).len() <= components(p).len()
    &&& components(p).take(components(dir).len() as int) == components(dir)
}

/// The last component, where it names something; empty otherwise.
pub open spec fn file_name(p: Seq<char>) -> Seq<char> {
    let c = components(p);
    if c.len() == 0 || c.last() == seq!['.', '.'] || c.last() == seq!['.'] {
        Seq::empty()
    } else {
        c.last()
    }
}

/// `name` inside `dir`; an absolute name stands for itself.
pub open spec fn joined_path(dir: Seq<char>, name: Seq<char>) -> Seq<char> {
    if absolute(name) {
        name
    } else if dir.len() == 0 || dir.last() == '/' {
        dir + name
    } else {
        dir.push('/') + name
    }
}

fn is_absolute(p: &str) -> (r: bool)
    ensures
        r == absolute(p@),
{
    p.unicode_len() > 0 && p.get_char(0) == '/'
}

/// The components of a path, without the root.
pub fn components_of(p: &str) -> (r: Vec<String>)
    ensures
        texts(r@) == components(p@),
{
    let rooted = is_absolute(p);
    let pieces = split(p, '/');
    let ghost all = split_on(p@, '/');
    let mut out: Vec<String> = Vec::new();
    let mut i: usize = 0;
    assert(texts(out@) =~= components_upto(p@, all, 0));
    proof {
        reveal_strlit(".");
        assert("."@ =~= seq!['.']);
    }
    while i < pieces.len()
        invariant
            i <= pieces.len(),
            rooted == absolute(p@),
            all == split_on(p@, '/'),
            texts(pieces@) == all,
            texts(out@) == components_upto(p@, all, i as nat),
            "."@ == seq!['.'],
        decreases pieces.len() - i,
    {
        let piece = pieces[i].as_str();
        assert(piece@ == all[i as int]);
        let ghost before = texts(out@);
        if piece.unicode_len() > 0 && (!same(piece, ".") || (i == 0 && !rooted)) {
            out.push(pieces[i].clone());
            assert(texts(out@) =~= before.push(all[i as int]));
        }
        i = i + 1;
    }
    out
}

fn starts_with_all(v: &Vec<String>, w: &Vec<String>) -> (r: bool)
    ensures
        r == (w.len() <= v.len() && texts(v@).take(w.len() as int) == texts(w@)),
{
    if w.len() > v.len() {
        return false;
    }
    let mut i: usize = 0;
    while i < w.len()
        invariant
            i <= w.len() <= v.len(),
            forall|k: int| 0 <= k < i ==> texts(v@)[k] == texts(w@)[k],
        decreases w.len() - i,
    {
        if !same(v[i].as_str(), w[i].as_str()) {
            assert(texts(v@).take(w.len() as int)[i as int] != texts(w@)[i as int]);
            return false;
        }
        i = i + 1;
    }
    assert(texts(v@).take(w.len() as int) =~= texts(w@));
    true
}

/// Whether two strings name one path.
pub fn is_same_path(a: &str, b: &str) -> (r: bool)
    ensures
        r == same_path(a@, b@),
{
    let x = components_of(a);
    let y = components_of(b);
    let r = is_absolute(a) == is_absolute(b) && x.len() == y.len() && starts_with_all(&x, &y);
    assert(texts(x@).take(x.len() as int) =~= texts(x@));
    assert(x.len() == texts(x@).len() && y.len() == texts(y@).len());
    r
}

/// Whether `p` is `dir` or lies below it.
pub fn is_below(p: &str, dir: &str) -> (r: bool)
    ensures
        r == below(p@, dir@),
{
    let x = components_of(p);
    let y = components_of(dir);
    assert(x.len() == texts(x@).len() && y.len() == texts(y@).len());
    is_absolute(p) == is_absolute(dir) && starts_with_all(&x, &y)
}

/// The last component, where it names something; empty otherwise.
pub fn file_name_of(p: &str) -> (r: String)
    ensures
        r@ == file_name(p@),
{
    let c = components_of(p);
    let n: usize = c.len();
    assert(n == texts(c@).len());
    proof {
        reveal_strlit(".");
        reveal_strlit("..");
        assert("."@ =~= seq!['.']);
        assert(".."@ =~= seq!['.', '.']);
    }
    if n == 0 {
        return String::new();
    }
    assert(c@[n - 1]@ == texts(c@).last());
    if same(c[n - 1].as_str(), "..") || same(c[n - 1].as_str(), ".") {
        return String::new();
    }
    c[n - 1].clone()
}

/// `name` inside `dir`.
pub fn join_path(dir: &str, name: &str) -> (r: String)
    ensures
        r@ == joined_path(dir@, name@),
{
    if is_absolute(name) {
        return name.to_owned();
    }
    let n: usize = dir.unicode_len();
    let mut out = dir.to_owned();
    if n > 0 && dir.get_char(n - 1) != '/' {
        out.push('/');
    }
    out.append(name);
    out
}

/// Whether one of `v` is `p`.
pub fn any_same_path(v: &Vec<String>, p: &str) -> (r: bool)
    ensures
        r == exists|i: int| 0 <= i < v.len() && same_path(#[trigger] texts(v@)[i], p@),
{
    let mut i: usize = 0;
    while i < v.len()
        invariant
            i <= v.len(),
            forall|k: int| 0 <= k < i ==> !same_path(#[trigger] texts(v@)[k], p@),
        decreases v.len() - i,
    {
        if is_same_path(v[i].as_str(), p) {
            assert(same_path(texts(v@)[i as int], p@));
            return true;
        }
        i = i + 1;
    }
    false
}

/// Whether `p` is one of `dirs` or lies below one.
pub fn any_above(dirs: &Vec<String>, p: &str) -> (r: bool)
    ensures
        r == exists|i: int| 0 <= i < dirs.len() && below(p@, #[trigger] texts(dirs@)[i]),
{
    let mut i: usize = 0;
    while i < dirs.len()
        invariant
            i <= dirs.len(),
            forall|k: int| 0 <= k < i ==> !below(p@, #[trigger] texts(dirs@)[k]),
        decreases dirs.len() - i,
    {
        if is_below(p, dirs[i].as_str()) {
            assert(below(p@, texts(dirs@)[i as int]));
            return true;
        }
        i = i + 1;
    }
    false
}

// ---- order -----------------------------------------------------------

/// What kind of component this is, in the order of the kinds: this directory,
/// the one above, or a name.
pub open spec fn component_kind(c: Seq<char>) -> int {
    if c == seq!['.'] {
        0
    } else if c == seq!['.', '.'] {
        1
    } else {
        2
    }
}

/// `a` comes before `b`: by kind, and names by their characters.
pub open spec fn component_before(a: Seq<char>, b: Seq<char>) -> bool {
    component_kind(a) < component_kind(b) || (component_kind(a) == component_kind(b) && a != b
        && text_le(a, b))
}

/// The first component that differs decides; what ends first comes first.
pub open spec fn components_le(a: Seq<Seq<char>>, b: Seq<Seq<char>>) -> bool
    decreases a.len(),
{
    if a.len() == 0 {
        true
    } else if b.len() == 0 {
        false
    } else if a[0] == b[0] {
        components_le(a.subrange(1, a.len() as int), b.subrange(1, b.len() as int))
    } else {
        component_before(a[0], b[0])
    }
}

/// `a` comes no later than `b` in the order of paths, in which the root is a
/// component before every other.
pub open spec fn path_le(a: Seq<char>, b: Seq<char>) -> bool {
    if absolute(a) == absolute(b) {
        components_le(components(a), components(b))
    } else if absolute(a) {
        components(b).len() > 0
    } else {
        components(a).len() == 0
    }
}

fn kind_of(c: &str) -> (r: u8)
    ensures
        r == component_kind(c@),
{
    proof {
        reveal_strlit(".");
        reveal_strlit("..");
        assert("."@ =~= seq!['.']);
        assert(".."@ =~= seq!['.', '.']);
    }
    if same(c, ".") {
        0
    } else if same(c, "..") {
        1
    } else {
        2
    }
}

fn is_components_le(v: &Vec<String>, w: &Vec<String>) -> (r: bool)
    ensures
        r == components_le(texts(v@), texts(w@)),
{
    let ghost a = texts(v@);
    let ghost b = texts(w@);
    let mut i: usize = 0;
    assert(a.subrange(0, a.len() as int) =~= a);
    assert(b.subrange(0, b.len() as int) =~= b);
    while i < v.len() && i < w.len()
        invariant
            a == texts(v@),
            b == texts(w@),
            i <= v.len(),
            i <= w.len(),
            components_le(a, b) == components_le(
                a.subrange(i as int, a.len() as int),
                b.subrange(i as int, b.len() as int),
            ),
        decreases v.len() - i,
    {
        let ghost ra = a.subrange(i as int, a.len() as int);
        let ghost rb = b.subrange(i as int, b.len() as int);
        assert(ra.subrange(1, ra.len() as int) =~= a.subrange(i + 1, a.len() as int));
        assert(rb.subrange(1, rb.len() as int) =~= b.subrange(i + 1, b.len() as int));
        let x = v[i].as_str();
        let y = w[i].as_str();
        assert(ra[0] == x@ && rb[0] == y@);
        if !same(x, y) {
            let k = kind_of(x);
            let l = kind_of(y);
            return k < l || (k == l && is_text_le(x, y));
        }
        i = i + 1;
    }
    i == v.len()
}

/// Whether `a` comes no later than `b` in the order of paths.
pub fn is_path_le(a: &str, b: &str) -> (r: bool)
    ensures
        r == path_le(a@, b@),
{
    let x = components_of(a);
    let y = components_of(b);
    assert(x.len() == texts(x@).len() && y.len() == texts(y@).len());
    let rooted = is_absolute(a);
    if rooted == is_absolute(b) {
        is_components_le(&x, &y)
    } else if rooted {
        y.len() > 0
    } else {
        x.len() == 0
    }
}

/// `x` behind everything that comes no later.
pub open spec fn insert_path(sorted: Seq<Seq<char>>, x: Seq<char>) -> Seq<Seq<char>>
    decreases sorted.len(),
{
    if sorted.len() == 0 || path_le(sorted.last(), x) {
        sorted.push(x)
    } else {
        insert_path(sorted.drop_last(), x).push(sorted.last())
    }
}

/// The same paths, in the order of paths.
pub open spec fn in_path_order(v: Seq<Seq<char>>) -> Seq<Seq<char>>
    decreases v.len(),
{
    if v.len() == 0 {
        Seq::empty()
    } else {
        insert_path(in_path_order(v.drop_last()), v.last())
    }
}

proof fn insert_path_at(sorted: Seq<Seq<char>>, x: Seq<char>, p: int)
    requires
        0 <= p <= sorted.len(),
        p > 0 ==> path_le(sorted[p - 1], x),
        forall|k: int| p <= k < sorted.len() ==> !path_le(#[trigger] sorted[k], x),
    ensures
        insert_path(sorted, x) == sorted.insert(p, x),
    decreases sorted.len(),
{
    if p == sorted.len() {
        assert(sorted.insert(p, x) =~= sorted.push(x));
    } else {
        let rest = sorted.drop_last();
        assert forall|k: int| p <= k < rest.len() implies !path_le(#[trigger] rest[k], x) by {
            assert(rest[k] == sorted[k]);
        }
        assert(!path_le(sorted[sorted.len() - 1], x));
        insert_path_at(rest, x, p);
        assert(rest.insert(p, x).push(sorted.last()) =~= sorted.insert(p, x));
    }
}

/// Puts paths in the order of paths.
pub fn sort_paths(v: &Vec<String>) -> (r: Vec<String>)
    ensures
        texts(r@) == in_path_order(texts(v@)),
{
    let ghost all = texts(v@);
    let mut out: Vec<String> = Vec::new();
    let mut i: usize = 0;
    assert(texts(out@) =~= in_path_order(all.take(0)));
    while i < v.len()
        invariant
            i <= v.len(),
            all == texts(v@),
            texts(out@) == in_path_order(all.take(i as int)),
        decreases v.len() - i,
    {
        assert(all.take(i + 1).drop_last() =~= all.take(i as int));
        assert(all.take(i + 1).last() == v@[i as int]@);
        let x = v[i].as_str();
        let ghost before = texts(out@);
        let mut p: usize = out.len();
        while p > 0 && !is_path_le(out[p - 1].as_str(), x)
            invariant
                p <= out.len(),
                before == texts(out@),
                forall|k: int| p <= k < out.len() ==> !path_le(#[trigger] before[k], x@),
            decreases p,
        {
            assert(before[p - 1] == out@[p - 1]@);
            p = p - 1;
        }
        proof {
            if p > 0 {
                assert(before[p - 1] == out@[p - 1]@);
            }
            insert_path_at(before, x@, p as int);
        }
        out.insert(p, v[i].clone());
        assert(texts(out@) =~= before.insert(p as int, x@));
        i = i + 1;
    }
    assert(all.take(i as int) =~= all);
    out
}

proof fn components_le_is_total(a: Seq<Seq<char>>, b: Seq<Seq<char>>)
    ensures
        components_le(a, b) || components_le(b, a),
    decreases a.len(),
{
    if a.len() > 0 && b.len() > 0 {
        if a[0] == b[0] {
            components_le_is_total(a.subrange(1, a.len() as int), b.subrange(1, b.len() as int));
        } else {
            text_le_is_total(a[0], b[0]);
        }
    }
}

proof fn components_le_is_transitive(a: Seq<Seq<char>>, b: Seq<Seq<char>>, c: Seq<Seq<char>>)
    requires
        components_le(a, b),
        components_le(b, c),
    ensures
        components_le(a, c),
    decreases a.len(),
{
    if a.len() > 0 && b.len() > 0 && c.len() > 0 {
        if a[0] == b[0] && b[0] == c[0] {
            components_le_is_transitive(
                a.subrange(1, a.len() as int),
                b.subrange(1, b.len() as int),
                c.subrange(1, c.len() as int),
            );
        } else if a[0] != b[0] && b[0] != c[0] {
            if component_kind(a[0]) == component_kind(b[0]) && component_kind(b[0])
                == component_kind(c[0]) {
                text_le_is_transitive(a[0], b[0], c[0]);
                text_le_is_total(a[0], b[0]);
            }
        }
    }
}

proof fn path_le_is_transitive(a: Seq<char>, b: Seq<char>, c: Seq<char>)
    requires
        path_le(a, b),
        path_le(b, c),
    ensures
        path_le(a, c),
{
    if absolute(a) == absolute(b) && absolute(b) == absolute(c) {
        components_le_is_transitive(components(a), components(b), components(c));
    }
}

/// No path comes later than one that follows it.
pub open spec fn paths_sorted(v: Seq<Seq<char>>) -> bool {
    forall|i: int, j: int| 0 <= i < j < v.len() ==> path_le(#[trigger] v[i], #[trigger] v[j])
}

/// No two of the strings name one path.
pub open spec fn paths_differ(v: Seq<Seq<char>>) -> bool {
    forall|i: int, j: int| 0 <= i < j < v.len() ==> !same_path(#[trigger] v[i], #[trigger] v[j])
}

proof fn inserting(sorted: Seq<Seq<char>>, x: Seq<char>)
    requires
        paths_sorted(sorted),
    ensures
        paths_sorted(insert_path(sorted, x)),
        exists|p: int| 0 <= p <= sorted.len() && #[trigger] sorted.insert(p, x) == insert_path(
            sorted,
            x,
        ),
    decreases sorted.len(),
{
    let r = insert_path(sorted, x);
    if sorted.len() == 0 || path_le(sorted.last(), x) {
        assert(sorted.insert(sorted.len() as int, x) =~= r);
        assert forall|i: int, j: int| 0 <= i < j < r.len() implies path_le(
            #[trigger] r[i],
            #[trigger] r[j],
        ) by {
            if j == sorted.len() && i < sorted.len() - 1 {
                path_le_is_transitive(sorted[i], sorted.last(), x);
            }
        }
    } else {
        let rest = sorted.drop_last();
        assert forall|i: int, j: int| 0 <= i < j < rest.len() implies path_le(
            #[trigger] rest[i],
            #[trigger] rest[j],
        ) by {
            assert(rest[i] == sorted[i] && rest[j] == sorted[j]);
        }
        inserting(rest, x);
        let q = insert_path(rest, x);
        let p = choose|p: int|
            0 <= p <= rest.len() && #[trigger] rest.insert(p, x) == insert_path(rest, x);
        assert(rest.insert(p, x).push(sorted.last()) =~= sorted.insert(p, x));
        let last = sorted.last();
        assert(path_le(x, last)) by {
            if absolute(x) == absolute(last) {
                components_le_is_total(components(x), components(last));
            }
        }
        assert forall|i: int, j: int| 0 <= i < j < r.len() implies path_le(
            #[trigger] r[i],
            #[trigger] r[j],
        ) by {
            if j == q.len() {
                assert(r[i] == rest.insert(p, x)[i]);
                if i < p {
                    assert(r[i] == sorted[i]);
                } else if i > p {
                    assert(r[i] == sorted[i - 1]);
                }
            } else {
                assert(r[i] == q[i] && r[j] == q[j]);
            }
        }
    }
}

/// Putting paths in order neither adds nor loses one, nor makes two of one.
pub proof fn in_path_order_sorts(v: Seq<Seq<char>>)
    ensures
        paths_sorted(in_path_order(v)),
        forall|p: Seq<char>| #[trigger] in_path_order(v).contains(p) <==> v.contains(p),
        paths_differ(v) ==> paths_differ(in_path_order(v)),
    decreases v.len(),
{
    let r = in_path_order(v);
    if v.len() > 0 {
        let rest = v.drop_last();
        let x = v.last();
        let s = in_path_order(rest);
        in_path_order_sorts(rest);
        inserting(s, x);
        let k = choose|k: int| 0 <= k <= s.len() && #[trigger] s.insert(k, x) == insert_path(s, x);
        assert(r == s.insert(k, x));
        assert forall|p: Seq<char>| #[trigger] r.contains(p) <==> v.contains(p) by {
            if r.contains(p) {
                let i = choose|i: int| 0 <= i < r.len() && r[i] == p;
                if i == k {
                    assert(v[v.len() - 1] == p);
                } else {
                    assert(s.contains(p)) by {
                        if i < k {
                            assert(s[i] == p);
                        } else {
                            assert(s[i - 1] == p);
                        }
                    }
                    let j = choose|j: int| 0 <= j < rest.len() && rest[j] == p;
                    assert(v[j] == p);
                }
            }
            if v.contains(p) {
                let i = choose|i: int| 0 <= i < v.len() && v[i] == p;
                if i == v.len() - 1 {
                    assert(r[k] == p);
                } else {
                    assert(rest[i] == p);
                    assert(s.contains(p));
                    let j = choose|j: int| 0 <= j < s.len() && s[j] == p;
                    if j < k {
                        assert(r[j] == p);
                    } else {
                        assert(r[j + 1] == p);
                    }
                }
            }
        }
        if paths_differ(v) {
            assert forall|i: int, j: int| 0 <= i < j < rest.len() implies !same_path(
                #[trigger] rest[i],
                #[trigger] rest[j],
            ) by {
                assert(rest[i] == v[i] && rest[j] == v[j]);
            }
            assert forall|i: int| 0 <= i < s.len() implies !same_path(#[trigger] s[i], x) by {
                assert(s.contains(s[i]));
                let j = choose|j: int| 0 <= j < rest.len() && rest[j] == s[i];
                assert(v[j] == s[i] && v[v.len() - 1] == x);
            }
            assert forall|i: int, j: int| 0 <= i < j < r.len() implies !same_path(
                #[trigger] r[i],
                #[trigger] r[j],
            ) by {
                let a = if i < k {
                    i
                } else {
                    i - 1
                };
                let b = if j < k {
                    j
                } else {
                    j - 1
                };
                if i == k {
                    assert(r[j] == s[b]);
                } else if j == k {
                    assert(r[i] == s[a]);
                } else {
                    assert(r[i] == s[a] && r[j] == s[b]);
                }
            }
        }
    }
}

// ---- what a path is --------------------------------------------------

/// One piece more of a path counts exactly where it is not empty, and where it
/// is a dot only at the front of a path that does not start at the root.
pub proof fn one_piece_more(p: Seq<char>, pieces: Seq<Seq<char>>, n: nat)
    requires
        n < pieces.len(),
    ensures
        ({
            let x = pieces[n as int];
            let dot = x.len() == 1 && x[0] == '.';
            let rooted = p.len() > 0 && p[0] == '/';
            let before = components_upto(p, pieces, n);
            &&& components_upto(p, pieces, 0).len() == 0
            &&& x.len() == 0 ==> components_upto(p, pieces, n + 1) == before
            &&& dot && (n > 0 || rooted) ==> components_upto(p, pieces, n + 1) == before
            &&& x.len() > 0 && !(dot && (n > 0 || rooted)) ==> components_upto(p, pieces, n + 1)
                == before.push(x)
        }),
{
    let x = pieces[n as int];
    if x.len() == 1 && x[0] == '.' {
        assert(x =~= seq!['.']);
    }
}

/// A path's components are what stands between its slashes.
pub proof fn components_stand_between_slashes(p: Seq<char>)
    ensures
        components(p) == components_upto(p, split_on(p, '/'), split_on(p, '/').len()),
        absolute(p) <==> p.len() > 0 && p[0] == '/',
{
}

/// What lies below a directory has the directory's components and then its
/// own.
pub proof fn what_lies_below(p: Seq<char>, dir: Seq<char>, rest: Seq<Seq<char>>)
    ensures
        absolute(p) == absolute(dir) && components(p) == components(dir) + rest ==> below(p, dir),
        below(p, dir) ==> absolute(p) == absolute(dir) && components(p) == components(dir)
            + components(p).subrange(components(dir).len() as int, components(p).len() as int),
        below(p, p),
        below(p, dir) && below(dir, p) <==> same_path(p, dir),
{
    let c = components(p);
    let d = components(dir);
    if c == d + rest {
        assert(c.take(d.len() as int) =~= d);
    }
    if below(p, dir) {
        assert(c =~= d + c.subrange(d.len() as int, c.len() as int));
    }
    assert(c.take(c.len() as int) =~= c);
    assert(d.take(d.len() as int) =~= d);
}

/// What lies below what lies below a directory lies below the directory.
pub proof fn below_carries_on(p: Seq<char>, q: Seq<char>, dir: Seq<char>)
    requires
        below(p, q),
        below(q, dir),
    ensures
        below(p, dir),
{
    let n = components(dir).len() as int;
    assert(components(p).take(n) =~= components(p).take(components(q).len() as int).take(n));
}

/// A path's name is its last component, unless that names no file.
pub proof fn a_name_is_the_last_component(p: Seq<char>, before: Seq<Seq<char>>, x: Seq<char>)
    ensures
        components(p).len() == 0 ==> file_name(p).len() == 0,
        components(p) == before.push(x) && x != "."@ && x != ".."@ ==> file_name(p) == x,
        components(p) == before.push(x) && (x == "."@ || x == ".."@) ==> file_name(p).len() == 0,
{
    reveal_strlit(".");
    reveal_strlit("..");
    assert("."@ =~= seq!['.']);
    assert(".."@ =~= seq!['.', '.']);
    if components(p) == before.push(x) {
        assert(components(p).last() == x);
    }
}

/// A name inside a directory stands behind the directory, with one slash
/// between them; an absolute one stands for itself.
pub proof fn one_slash_between(dir: Seq<char>, name: Seq<char>)
    ensures
        name.len() > 0 && name[0] == '/' ==> joined_path(dir, name) == name,
        !(name.len() > 0 && name[0] == '/') ==> ({
            let j = joined_path(dir, name);
            &&& dir.len() == 0 ==> j == name
            &&& dir.len() > 0 && dir.last() == '/' ==> j == dir + name
            &&& dir.len() > 0 && dir.last() != '/' ==> j == dir + seq!['/'] + name
        }),
{
    if dir.len() == 0 {
        assert(dir + name =~= name);
    }
    assert(dir.push('/') =~= dir + seq!['/']);
}

/// The first component in which two lists differ decides: a dot comes before
/// two dots, those before every name, and names go by their characters. What
/// ends first comes first.
pub proof fn the_first_other_component_decides(a: Seq<Seq<char>>, b: Seq<Seq<char>>, i: int)
    requires
        0 <= i <= a.len(),
        i <= b.len(),
        a.take(i) == b.take(i),
        i < a.len() && i < b.len() ==> a[i] != b[i],
    ensures
        i == a.len() ==> components_le(a, b),
        i < a.len() && i == b.len() ==> !components_le(a, b),
        i < a.len() && i < b.len() ==> {
            &&& a[i] == "."@ ==> components_le(a, b)
            &&& b[i] == "."@ ==> !components_le(a, b)
            &&& a[i] == ".."@ && b[i] != "."@ ==> components_le(a, b)
            &&& b[i] == ".."@ && a[i] != "."@ ==> !components_le(a, b)
            &&& a[i] != "."@ && a[i] != ".."@ && b[i] != "."@ && b[i] != ".."@ ==> (
            components_le(a, b) <==> text_le(a[i], b[i]))
        },
    decreases i,
{
    reveal_strlit(".");
    reveal_strlit("..");
    assert("."@ =~= seq!['.']);
    assert(".."@ =~= seq!['.', '.']);
    if i > 0 {
        assert(a.take(i)[0] == a[0] && b.take(i)[0] == b[0]);
        let x = a.subrange(1, a.len() as int);
        let y = b.subrange(1, b.len() as int);
        assert forall|k: int| 0 <= k < i - 1 implies #[trigger] x[k] == y[k] by {
            assert(a.take(i)[k + 1] == a[k + 1] && b.take(i)[k + 1] == b[k + 1]);
        }
        assert(x.take(i - 1) =~= y.take(i - 1));
        the_first_other_component_decides(x, y, i - 1);
    }
}

/// Paths stand in one line, in which a path from the root comes before every
/// other but the empty one.
pub proof fn paths_stand_in_line(a: Seq<char>, b: Seq<char>)
    ensures
        path_le(a, b) || path_le(b, a),
        absolute(a) == absolute(b) ==> (path_le(a, b) <==> components_le(
            components(a),
            components(b),
        )),
        absolute(a) && !absolute(b) ==> (path_le(a, b) <==> components(b).len() > 0) && (path_le(
            b,
            a,
        ) <==> components(b).len() == 0),
{
    components_le_is_total(components(a), components(b));
}

} // verus!
