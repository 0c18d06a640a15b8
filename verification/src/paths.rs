//! Paths of a Unix file system, as text.

use vstd::prelude::*;
use crate::scan::{self, glue, split};
use crate::text::{self, cat2, cat3, chars_of, same};

verus! {

/// `rel` below `base`: an absolute `rel` stands for itself.
pub open spec fn joined(base: Seq<char>, rel: Seq<char>) -> Seq<char> {
    if rel.len() > 0 && rel[0] == '/' {
        rel
    } else if base.len() == 0 || base.last() == '/' {
        base + rel
    } else {
        base + "/"@ + rel
    }
}

/// `rel` below `base`.
pub fn join(base: &str, rel: &str) -> (r: String)
    ensures
        r@ == joined(base@, rel@),
{
    let b = chars_of(base);
    let c = chars_of(rel);
    if c.len() > 0 && c[0] == '/' {
        rel.to_owned()
    } else if b.len() == 0 || b[b.len() - 1] == '/' {
        cat2(base, rel)
    } else {
        cat3(base, "/", rel)
    }
}

/// Whether a piece of a path stands for a step: an empty one does not, and a single dot does only
/// at the start of a relative path.
pub open spec fn is_step(pieces: Seq<Seq<char>>, i: int) -> bool {
    pieces[i].len() > 0 && (pieces[i] != "."@ || i == 0)
}

/// The steps among the first `n` pieces of a path.
pub open spec fn steps_of(pieces: Seq<Seq<char>>, n: int) -> Seq<Seq<char>>
    decreases n,
{
    if n <= 0 {
        Seq::empty()
    } else if is_step(pieces, n - 1) {
        steps_of(pieces, n - 1).push(pieces[n - 1])
    } else {
        steps_of(pieces, n - 1)
    }
}

/// The components of a path: `/` at the start of an absolute one, then its steps. Two texts name
/// the same path where their components are the same.
pub open spec fn components(s: Seq<char>) -> Seq<Seq<char>> {
    let pieces = scan::pieces(s, '/');
    let steps = steps_of(pieces, pieces.len() as int);
    if s.len() > 0 && s[0] == '/' {
        seq!["/"@] + steps
    } else {
        steps
    }
}

/// The components of a path.
pub fn components_of(s: &str) -> (r: Vec<String>)
    ensures
        text::texts(r@) == components(s@),
{
    let chars = chars_of(s);
    let parts = split(s, '/');
    let ghost all = text::texts(parts@);
    let mut out: Vec<String> = Vec::new();
    let absolute = chars.len() > 0 && chars[0] == '/';
    if absolute {
        out.push("/".to_owned());
    }
    let ghost head = text::texts(out@);
    assert(absolute ==> head =~= seq!["/"@]);
    assert(!absolute ==> head =~= Seq::<Seq<char>>::empty());
    let mut i: usize = 0;
    while i < parts.len()
        invariant
            i <= parts@.len(),
            all == text::texts(parts@),
            text::texts(out@) =~= head + steps_of(all, i as int),
        decreases parts@.len() - i,
    {
        let part = parts[i].as_str();
        assert(all[i as int] == part@);
        let ghost before = text::texts(out@);
        if !part.is_empty() && (!same(part, ".") || i == 0) {
            out.push(part.to_owned());
            assert(text::texts(out@) =~= before.push(part@));
        }
        i += 1;
    }
    assert(text::texts(out@) =~= components(s@));
    out
}

/// Whether two texts name the same path.
pub fn same_path(a: &str, b: &str) -> (r: bool)
    ensures
        r == (components(a@) == components(b@)),
{
    let x = components_of(a);
    let y = components_of(b);
    let ghost p = components(a@);
    let ghost q = components(b@);
    if x.len() != y.len() {
        assert(p.len() != q.len());
        return false;
    }
    let mut i: usize = 0;
    while i < x.len()
        invariant
            i <= x@.len() == y@.len(),
            p == text::texts(x@),
            q == text::texts(y@),
            p == components(a@),
            q == components(b@),
            forall|k: int| 0 <= k < i ==> p[k] == q[k],
        decreases x@.len() - i,
    {
        if !same(x[i].as_str(), y[i].as_str()) {
            assert(p[i as int] != q[i as int]);
            return false;
        }
        assert(p[i as int] == q[i as int]);
        i += 1;
    }
    assert(p =~= q);
    true
}

/// Whether a list of components begins with another.
pub open spec fn leads(q: Seq<Seq<char>>, p: Seq<Seq<char>>) -> bool {
    q.len() <= p.len() && p.take(q.len() as int) == q
}

fn leads_to(y: &[String], x: &[String]) -> (r: bool)
    ensures
        r == leads(text::texts(y@), text::texts(x@)),
{
    let ghost p = text::texts(x@);
    let ghost q = text::texts(y@);
    if y.len() > x.len() {
        return false;
    }
    let mut i: usize = 0;
    while i < y.len()
        invariant
            i <= y@.len() <= x@.len(),
            p == text::texts(x@),
            q == text::texts(y@),
            forall|k: int| 0 <= k < i ==> p[k] == q[k],
        decreases y@.len() - i,
    {
        if !same(x[i].as_str(), y[i].as_str()) {
            assert(p.take(q.len() as int)[i as int] != q[i as int]);
            return false;
        }
        assert(p[i as int] == q[i as int]);
        i += 1;
    }
    assert(p.take(q.len() as int) =~= q);
    true
}

/// Whether a path lies at or below another, as the two are written.
pub open spec fn below(path: Seq<char>, root: Seq<char>) -> bool {
    leads(components(root), components(path))
}

/// Whether `path` lies at or below `root`, as the two are written.
pub fn is_below(path: &str, root: &str) -> (r: bool)
    ensures
        r == below(path@, root@),
{
    let x = components_of(path);
    let y = components_of(root);
    leads_to(y.as_slice(), x.as_slice())
}

/// Where the components of an absolute path lead: `..` takes back the step before it, and at the
/// root there is none to take back.
pub open spec fn resolved(c: Seq<Seq<char>>) -> Seq<Seq<char>>
    decreases c.len(),
{
    if c.len() == 0 {
        Seq::empty()
    } else {
        let rest = resolved(c.drop_last());
        if c.last() != ".."@ {
            rest.push(c.last())
        } else if rest.len() > 1 {
            rest.drop_last()
        } else {
            rest
        }
    }
}

fn resolve(c: &[String]) -> (r: Vec<String>)
    ensures
        text::texts(r@) == resolved(text::texts(c@)),
{
    let ghost all = text::texts(c@);
    let mut out: Vec<String> = Vec::new();
    let mut i: usize = 0;
    assert(text::texts(out@) =~= resolved(all.take(0)));
    while i < c.len()
        invariant
            i <= c@.len(),
            all == text::texts(c@),
            text::texts(out@) == resolved(all.take(i as int)),
        decreases c@.len() - i,
    {
        let ghost was = text::texts(out@);
        let ghost longer = all.take(i + 1);
        assert(longer.drop_last() =~= all.take(i as int));
        assert(longer.last() == c@[i as int]@);
        if !same(c[i].as_str(), "..") {
            out.push(c[i].clone());
            assert(text::texts(out@) =~= was.push(c@[i as int]@));
        } else if out.len() > 1 {
            out.pop();
            assert(text::texts(out@) =~= was.drop_last());
        }
        i += 1;
    }
    assert(all.take(i as int) =~= all);
    out
}

/// Whether a path leads to a place at or below another, once each `..` of theirs is followed.
pub open spec fn resolves_below(path: Seq<char>, root: Seq<char>) -> bool {
    leads(resolved(components(root)), resolved(components(path)))
}

/// Whether `path` leads to a place at or below `root`, once each `..` of theirs is followed.
pub fn is_resolved_below(path: &str, root: &str) -> (r: bool)
    ensures
        r == resolves_below(path@, root@),
{
    let x = components_of(path);
    let y = components_of(root);
    let p = resolve(x.as_slice());
    let q = resolve(y.as_slice());
    leads_to(q.as_slice(), p.as_slice())
}

/// A path without `..` leads where it says.
pub proof fn a_straight_path_resolves_to_itself(c: Seq<Seq<char>>)
    requires
        !c.contains(".."@),
    ensures
        resolved(c) == c,
    decreases c.len(),
{
    if c.len() > 0 {
        let rest = c.drop_last();
        assert forall|i: int| 0 <= i < rest.len() implies rest[i] != ".."@ by {
            assert(c.contains(c[i]));
        }
        a_straight_path_resolves_to_itself(rest);
        assert(c.contains(c[c.len() - 1]));
        assert(rest.push(c.last()) =~= c);
    } else {
        assert(resolved(c) =~= c);
    }
}

/// The text of a path with these components.
pub open spec fn path_text(c: Seq<Seq<char>>) -> Seq<char> {
    if c.len() > 0 && c[0] == "/"@ {
        "/"@ + scan::glued(c.skip(1), "/"@)
    } else {
        scan::glued(c, "/"@)
    }
}

/// The path that holds this one: nothing for the root and for the empty path.
pub open spec fn parent_of(s: Seq<char>) -> Option<Seq<char>> {
    let c = components(s);
    if c.len() == 0 || (c.len() == 1 && c[0] == "/"@) {
        None
    } else {
        Some(path_text(c.drop_last()))
    }
}

/// The path that holds this one.
pub fn parent(s: &str) -> (r: Option<String>)
    ensures
        match r {
            Some(p) => parent_of(s@) == Some(p@),
            None => parent_of(s@) is None,
        },
{
    let mut c = components_of(s);
    let ghost all = components(s@);
    if c.len() == 0 {
        return None;
    }
    assert(all[0] == c@[0]@);
    if c.len() == 1 && same(c[0].as_str(), "/") {
        return None;
    }
    c.pop();
    assert(text::texts(c@) =~= all.drop_last());
    if c.len() > 0 && same(c[0].as_str(), "/") {
        assert(all.drop_last()[0] == c@[0]@);
        Some(cat2("/", glue(c.as_slice(), 1, "/").as_str()))
    } else {
        assert(c@.len() > 0 ==> all.drop_last()[0] == c@[0]@);
        assert(text::texts(c@).skip(0) =~= text::texts(c@));
        Some(glue(c.as_slice(), 0, "/"))
    }
}

// ---- laws ----------------------------------------------------------------------------------

/// A path below another is that one, a slash and it, and no second slash where there is one; one that
/// begins with a slash stands for itself.
pub proof fn how_paths_are_joined(base: Seq<char>, rel: Seq<char>)
    ensures
        rel.len() > 0 && rel[0] == '/' ==> joined(base, rel) == rel,
        !(rel.len() > 0 && rel[0] == '/') && base.len() > 0 && base.last() != '/' ==> joined(
            base,
            rel,
        ) == base + seq!['/'] + rel,
        !(rel.len() > 0 && rel[0] == '/') && base.len() > 0 && base.last() == '/' ==> joined(
            base,
            rel,
        ) == base + rel,
        !(rel.len() > 0 && rel[0] == '/') && base.len() == 0 ==> joined(base, rel) == rel,
{
    reveal_strlit("/");
    assert("/"@ =~= seq!['/']);
    assert(Seq::<char>::empty() + rel =~= rel);
    if base.len() == 0 {
        assert(base + rel =~= rel);
    }
}

/// One list of components begins with another exactly where something can be put behind that to make
/// it.
pub proof fn what_leads(q: Seq<Seq<char>>, rest: Seq<Seq<char>>, p: Seq<Seq<char>>)
    ensures
        leads(q, q + rest),
        leads(q, p) ==> p == q + p.skip(q.len() as int),
{
    assert((q + rest).take(q.len() as int) =~= q);
    if leads(q, p) {
        assert(p =~= p.take(q.len() as int) + p.skip(q.len() as int));
    }
}

/// A step and a step up lead back to where they began; from the root nothing leads further up.
pub proof fn a_step_up_undoes_a_step(c: Seq<Seq<char>>, x: Seq<char>)
    requires
        x != ".."@,
        c.len() > 0,
        resolved(c).len() > 0,
    ensures
        resolved(c.push(x).push(".."@)) == resolved(c),
        resolved(c.push(x)) == resolved(c).push(x),
        resolved(c).len() == 1 ==> resolved(c.push(".."@)) == resolved(c),
{
    let a = c.push(x);
    assert(a.drop_last() =~= c);
    assert(a.push(".."@).drop_last() =~= a);
    assert(resolved(a).drop_last() =~= resolved(c));
    assert(c.push(".."@).drop_last() =~= c);
}

proof fn steps_of_names(pieces: Seq<Seq<char>>, from: int, n: int)
    requires
        0 <= from <= n <= pieces.len(),
        forall|i: int| 0 <= i < from ==> (#[trigger] pieces[i]).len() == 0,
        forall|i: int|
            from <= i < pieces.len() ==> (#[trigger] pieces[i]).len() > 0 && pieces[i] != "."@,
    ensures
        steps_of(pieces, n) == pieces.subrange(from, n),
    decreases n,
{
    if n > from {
        steps_of_names(pieces, from, n - 1);
        assert(pieces.subrange(from, n) =~= pieces.subrange(from, n - 1).push(pieces[n - 1]));
    } else {
        assert(pieces.subrange(from, n) =~= Seq::empty());
        no_steps(pieces, n);
    }
}

proof fn no_steps(pieces: Seq<Seq<char>>, n: int)
    requires
        0 <= n <= pieces.len(),
        forall|i: int| 0 <= i < n ==> (#[trigger] pieces[i]).len() == 0,
    ensures
        steps_of(pieces, n) =~= Seq::empty(),
    decreases n,
{
    if n > 0 {
        no_steps(pieces, n - 1);
    }
}

/// The components of an absolute path are the root and the names between its slashes.
pub proof fn the_names_of_a_path_are_its_components(names: Seq<Seq<char>>)
    requires
        names.len() > 0,
        forall|i: int| 0 <= i < names.len() ==> (#[trigger] names[i]).len() > 0 && names[i] != "."@,
        forall|k: int, j: int|
            0 <= k < names.len() && 0 <= j < names[k].len() ==> #[trigger] names[k][j] != '/',
    ensures
        components(seq!['/'] + scan::glued(names, seq!['/'])) == seq!["/"@] + names,
        components(scan::glued(names, seq!['/'])) == names,
{
    let empty = Seq::<char>::empty();
    let all = seq![empty] + names;
    let s = seq!['/'] + scan::glued(names, seq!['/']);
    assert forall|k: int, j: int| 0 <= k < all.len() && 0 <= j < all[k].len() implies #[trigger] all[k][j]
        != '/' by {
        if k > 0 {
            assert(all[k] == names[k - 1]);
            assert(names[k - 1][j] != '/');
        }
    }
    scan::what_was_put_together_comes_apart(all, '/');
    scan::what_was_put_together_comes_apart(names, '/');
    scan::glued_begins(empty, names, seq!['/']);
    assert(scan::glued(all, seq!['/']) =~= s);
    steps_of_names(all, 1, all.len() as int);
    assert(all.subrange(1, all.len() as int) =~= names);
    assert(s[0] == '/');
    steps_of_names(names, 0, names.len() as int);
    assert(names.subrange(0, names.len() as int) =~= names);
    let t = scan::glued(names, seq!['/']);
    scan::glued_first(names, seq!['/']);
    assert(t[0] == names[0][0]);
    assert(names[0][0] != '/');
}

/// Empty pieces, and single dots behind the first piece, are no steps; everything else is.
pub proof fn what_is_a_step(pieces: Seq<Seq<char>>, i: int)
    requires
        0 <= i < pieces.len(),
    ensures
        is_step(pieces, i) <==> pieces[i].len() > 0 && !(i > 0 && pieces[i] == "."@),
        steps_of(pieces, i + 1) == if is_step(pieces, i) {
            steps_of(pieces, i).push(pieces[i])
        } else {
            steps_of(pieces, i)
        },
{
}

/// A path lies below a root exactly where its components begin with those of the root, once each step
/// up is followed where that is asked.
pub proof fn what_lies_below(path: Seq<char>, root: Seq<char>, rest: Seq<Seq<char>>)
    ensures
        components(path) == components(root) + rest ==> below(path, root),
        below(path, root) ==> components(path) == components(root) + components(path).skip(
            components(root).len() as int,
        ),
        resolved(components(path)) == resolved(components(root)) + rest ==> resolves_below(
            path,
            root,
        ),
        resolves_below(path, root) ==> resolved(components(path)) == resolved(components(root))
            + resolved(components(path)).skip(resolved(components(root)).len() as int),
{
    what_leads(components(root), rest, components(path));
    what_leads(resolved(components(root)), rest, resolved(components(path)));
}

/// The path that holds another has all its components but the last.
pub proof fn what_holds_a_path(s: Seq<char>)
    ensures
        parent_of(s) is None <==> components(s).len() == 0 || components(s) == seq!["/"@],
        parent_of(s) matches Some(p) ==> p == path_text(components(s).drop_last()),
{
    if components(s).len() == 1 && components(s)[0] == "/"@ {
        assert(components(s) =~= seq!["/"@]);
    }
}

} // verus!
