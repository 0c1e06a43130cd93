//! Path resolution confined to the server root.
//!
//! A logical path is a sequence of names below the root. A requested path
//! starting with `/` replaces the current directory, any other is applied
//! to it; `.` and empty pieces are skipped and `..` drops the last name.
//! A `..` with no name left to drop would leave the root: that is refused,
//! never clamped.
use vstd::prelude::*;
use vstd::string::*;

use crate::error::Error;
use crate::text::{fields, fields_from, find_item, lemma_find_item_bounds};

verus! {

pub open spec fn dot() -> Seq<char> {
    seq!['.']
}

pub open spec fn dot_dot() -> Seq<char> {
    seq!['.', '.']
}

/// A name that may stand in a resolved path.
pub open spec fn is_name(s: Seq<char>) -> bool {
    s.len() > 0 && s != dot() && s != dot_dot()
}

pub open spec fn all_names(v: Seq<Seq<char>>) -> bool {
    forall|i: int| 0 <= i < v.len() ==> is_name(#[trigger] v[i])
}

pub open spec fn texts(v: Seq<String>) -> Seq<Seq<char>> {
    v.map_values(|s: String| s@)
}

/// Applies the pieces `parts` one after another to the directory `base`;
/// `None` where a `..` finds no name to drop.
pub open spec fn walk(base: Seq<Seq<char>>, parts: Seq<Seq<char>>) -> Option<Seq<Seq<char>>>
    decreases parts.len(),
{
    if parts.len() == 0 {
        Some(base)
    } else {
        let p = parts[0];
        let rest = parts.drop_first();
        if p.len() == 0 || p == dot() {
            walk(base, rest)
        } else if p == dot_dot() {
            if base.len() == 0 {
                None
            } else {
                walk(base.drop_last(), rest)
            }
        } else {
            walk(base.push(p), rest)
        }
    }
}

/// Whether `p` is rooted: it starts with `/`.
pub open spec fn is_rooted(p: Seq<char>) -> bool {
    p.len() > 0 && p[0] == '/'
}

/// The logical path that `requested` names from the directory `cwd`, or
/// `None` where it would leave the root.
pub open spec fn resolve_path(cwd: Seq<Seq<char>>, requested: Seq<char>) -> Option<Seq<Seq<char>>> {
    walk(
        if is_rooted(requested) {
            Seq::empty()
        } else {
            cwd
        },
        fields(requested, '/'),
    )
}

/// `prefix` followed by `/name` for each name of `names`.
pub open spec fn under(prefix: Seq<char>, names: Seq<Seq<char>>) -> Seq<char>
    decreases names.len(),
{
    if names.len() == 0 {
        prefix
    } else {
        under(prefix, names.drop_last()) + seq!['/'] + names.last()
    }
}

/// The text of a logical path: `/` for the root, else `/a/b`.
pub open spec fn logical_text(names: Seq<Seq<char>>) -> Seq<char> {
    if names.len() == 0 {
        seq!['/']
    } else {
        under(Seq::empty(), names)
    }
}

/// Whether the physical path `candidate` lies at or below `root`.
pub open spec fn is_within(root: Seq<char>, candidate: Seq<char>) -> bool {
    &&& candidate.len() >= root.len()
    &&& candidate.take(root.len() as int) == root
    &&& (candidate.len() == root.len() || candidate[root.len() as int] == '/' || (root.len() > 0
        && root.last() == '/'))
}

proof fn lemma_walk_names(base: Seq<Seq<char>>, parts: Seq<Seq<char>>)
    requires
        all_names(base),
    ensures
        walk(base, parts) matches Some(v) ==> all_names(v),
    decreases parts.len(),
{
    if parts.len() > 0 {
        let p = parts[0];
        let rest = parts.drop_first();
        if p.len() == 0 || p == dot() {
            lemma_walk_names(base, rest);
        } else if p == dot_dot() {
            if base.len() > 0 {
                lemma_walk_names(base.drop_last(), rest);
            }
        } else {
            assert(all_names(base.push(p)));
            lemma_walk_names(base.push(p), rest);
        }
    }
}

pub proof fn lemma_resolve_names(cwd: Seq<Seq<char>>, requested: Seq<char>)
    requires
        all_names(cwd),
    ensures
        resolve_path(cwd, requested) matches Some(v) ==> all_names(v),
{
    lemma_walk_names(
        if is_rooted(requested) {
            Seq::empty()
        } else {
            cwd
        },
        fields(requested, '/'),
    );
}

fn find_char_from(s: &str, c: char, from: usize, n: usize) -> (r: usize)
    requires
        n == s@.len(),
        from <= n,
    ensures
        r == find_item(s@, c, from as int),
{
    let mut i = from;
    while i < n
        invariant
            n == s@.len(),
            from <= i <= n,
            find_item(s@, c, from as int) == find_item(s@, c, i as int),
        decreases n - i,
    {
        if s.get_char(i) == c {
            return i;
        }
        i = i + 1;
    }
    i
}

/// The pieces of `p` between slashes.
pub fn split_path(p: &str) -> (r: Vec<String>)
    ensures
        texts(r@) == fields(p@, '/'),
{
    let n = p.unicode_len();
    let mut out: Vec<String> = Vec::new();
    let mut from: usize = 0;
    loop
        invariant
            n == p@.len(),
            from <= n,
            texts(out@) + fields_from(p@, '/', from as int) == fields(p@, '/'),
        decreases n - from,
    {
        let e = find_char_from(p, '/', from, n);
        proof {
            lemma_find_item_bounds(p@, '/', from as int);
        }
        let piece = String::from_str(p.substring_char(from, e));
        let ghost before = texts(out@);
        out.push(piece);
        assert(texts(out@) =~= before.push(piece@));
        if e >= n {
            assert(texts(out@) =~= before + fields_from(p@, '/', from as int));
            return out;
        }
        assert(texts(out@) + fields_from(p@, '/', (e + 1) as int) =~= before + fields_from(
            p@,
            '/',
            from as int,
        ));
        from = e + 1;
    }
}

fn is_dot(s: &String) -> (r: bool)
    ensures
        r == (s@ == dot()),
{
    let t = s.as_str();
    if t.unicode_len() != 1 {
        return false;
    }
    let c = t.get_char(0);
    assert(c == '.' ==> s@ =~= dot());
    c == '.'
}

fn is_dot_dot(s: &String) -> (r: bool)
    ensures
        r == (s@ == dot_dot()),
{
    let t = s.as_str();
    if t.unicode_len() != 2 {
        return false;
    }
    let c0 = t.get_char(0);
    let c1 = t.get_char(1);
    assert(c0 == '.' && c1 == '.' ==> s@ =~= dot_dot());
    c0 == '.' && c1 == '.'
}

/// A copy of a list of names.
pub fn copy_names(v: &Vec<String>) -> (r: Vec<String>)
    ensures
        texts(r@) == texts(v@),
{
    let mut r: Vec<String> = Vec::new();
    let mut i: usize = 0;
    while i < v.len()
        invariant
            0 <= i <= v.len(),
            texts(r@) == texts(v@).take(i as int),
        decreases v.len() - i,
    {
        let s = String::from_str(v[i].as_str());
        let ghost before = texts(r@);
        r.push(s);
        assert(texts(r@) =~= before.push(v@[i as int]@));
        i = i + 1;
        assert(texts(r@) =~= texts(v@).take(i as int));
    }
    assert(texts(v@).take(i as int) =~= texts(v@));
    r
}

/// Applies `parts` to `base` as `walk` does.
fn walk_parts(base: Vec<String>, parts: &Vec<String>) -> (r: Option<Vec<String>>)
    ensures
        r.is_some() == walk(texts(base@), texts(parts@)).is_some(),
        r matches Some(v) ==> walk(texts(base@), texts(parts@)) == Some(texts(v@)),
{
    let mut cur = base;
    let mut i: usize = 0;
    assert(texts(parts@).skip(0) =~= texts(parts@));
    while i < parts.len()
        invariant
            0 <= i <= parts.len(),
            walk(texts(cur@), texts(parts@).skip(i as int)) == walk(texts(base@), texts(parts@)),
        decreases parts.len() - i,
    {
        let ghost rest = texts(parts@).skip(i as int);
        assert(rest.drop_first() =~= texts(parts@).skip(i + 1));
        assert(rest[0] == parts@[i as int]@);
        let p = &parts[i];
        if p.as_str().is_empty() || is_dot(p) {
        } else if is_dot_dot(p) {
            if cur.len() == 0 {
                return None;
            }
            let ghost before = texts(cur@);
            cur.pop();
            assert(texts(cur@) =~= before.drop_last());
        } else {
            let ghost before = texts(cur@);
            cur.push(String::from_str(p.as_str()));
            assert(texts(cur@) =~= before.push(p@));
        }
        i = i + 1;
    }
    assert(texts(parts@).skip(i as int) =~= Seq::<Seq<char>>::empty());
    Some(cur)
}

/// The logical path that `requested` names from the directory `cwd`.
///
/// Fails with `PathViolation` exactly where the path would leave the root.
pub fn resolve(cwd: &Vec<String>, requested: &str) -> (r: Result<Vec<String>, Error>)
    ensures
        match r {
            Ok(v) => resolve_path(texts(cwd@), requested@) == Some(texts(v@)),
            Err(e) => e == Error::PathViolation && resolve_path(texts(cwd@), requested@).is_none(),
        },
{
    let rooted = !requested.is_empty() && requested.get_char(0) == '/';
    let base = if rooted {
        Vec::new()
    } else {
        copy_names(cwd)
    };
    assert(texts(base@) == (if is_rooted(requested@) {
        Seq::<Seq<char>>::empty()
    } else {
        texts(cwd@)
    }));
    let parts = split_path(requested);
    match walk_parts(base, &parts) {
        Some(v) => Ok(v),
        None => Err(Error::PathViolation),
    }
}

/// `prefix` followed by `/name` for each name.
pub fn render_under(prefix: &str, names: &Vec<String>) -> (r: String)
    ensures
        r@ == under(prefix@, texts(names@)),
{
    let mut out = String::from_str(prefix);
    let mut i: usize = 0;
    while i < names.len()
        invariant
            0 <= i <= names.len(),
            out@ == under(prefix@, texts(names@).take(i as int)),
        decreases names.len() - i,
    {
        proof {
            reveal_strlit("/");
        }
        out.append("/");
        out.append(names[i].as_str());
        i = i + 1;
        assert(texts(names@).take(i as int).drop_last() =~= texts(names@).take(i - 1));
    }
    assert(texts(names@).take(i as int) =~= texts(names@));
    out
}

/// The text of a logical path.
pub fn logical_path(names: &Vec<String>) -> (r: String)
    ensures
        r@ == logical_text(texts(names@)),
{
    if names.len() == 0 {
        proof {
            reveal_strlit("/");
        }
        let r = String::from_str("/");
        assert(r@ =~= seq!['/']);
        r
    } else {
        proof {
            reveal_strlit("");
        }
        assert(""@ =~= Seq::<char>::empty());
        render_under("", names)
    }
}

/// Whether the physical path `candidate` lies at or below `root`.
pub fn within_root(root: &str, candidate: &str) -> (r: bool)
    ensures
        r == is_within(root@, candidate@),
{
    let n = root.unicode_len();
    let m = candidate.unicode_len();
    if m < n {
        return false;
    }
    let mut i: usize = 0;
    while i < n
        invariant
            n == root@.len(),
            m == candidate@.len(),
            n <= m,
            0 <= i <= n,
            forall|j: int| 0 <= j < i ==> root@[j] == candidate@[j],
        decreases n - i,
    {
        if root.get_char(i) != candidate.get_char(i) {
            assert(candidate@.take(n as int)[i as int] != root@[i as int]);
            return false;
        }
        i = i + 1;
    }
    assert(candidate@.take(n as int) =~= root@);
    if m == n {
        return true;
    }
    candidate.get_char(n) == '/' || (n > 0 && root.get_char(n - 1) == '/')
}

/// `dir/name`: the path of the entry `name` of the directory `dir`.
pub open spec fn child_text(dir: Seq<char>, name: Seq<char>) -> Seq<char> {
    if dir.len() > 0 && dir.last() == '/' {
        dir + name
    } else {
        dir + seq!['/'] + name
    }
}

/// The path of the entry `name` of the directory `dir`.
pub fn join_child(dir: &str, name: &str) -> (r: String)
    ensures
        r@ == child_text(dir@, name@),
{
    let n = dir.unicode_len();
    let mut out = String::from_str(dir);
    if n == 0 || dir.get_char(n - 1) != '/' {
        proof {
            reveal_strlit("/");
        }
        out.append("/");
    }
    out.append(name);
    out
}

} // verus!
