//! Searching, splitting and trimming text.

use vstd::prelude::*;
use crate::text::{self, chars_of, same, slice_string};

verus! {

/// The first place at or behind `from` that holds `c`.
pub open spec fn first_at(s: Seq<char>, c: char, from: int) -> Option<int>
    decreases s.len() - from,
{
    if from < 0 || from >= s.len() {
        None
    } else if s[from] == c {
        Some(from)
    } else {
        first_at(s, c, from + 1)
    }
}

/// What `first_at` finds lies in range, holds the character, and nothing before it does.
pub proof fn first_at_finds(s: Seq<char>, c: char, from: int)
    requires
        0 <= from,
    ensures
        match first_at(s, c, from) {
            Some(i) => from <= i < s.len() && s[i] == c && forall|j: int|
                from <= j < i ==> s[j] != c,
            None => forall|j: int| from <= j < s.len() ==> s[j] != c,
        },
    decreases s.len() - from,
{
    if from < s.len() && s[from] != c {
        first_at_finds(s, c, from + 1);
    }
}

/// The place of the first `c` at or behind `from`.
pub fn find_from(s: &[char], c: char, from: usize) -> (r: Option<usize>)
    ensures
        match r {
            Some(i) => first_at(s@, c, from as int) == Some(i as int) && from <= i < s@.len()
                && s@[i as int] == c,
            None => first_at(s@, c, from as int) is None,
        },
{
    let mut i: usize = from;
    while i < s.len()
        invariant
            from <= i,
            first_at(s@, c, from as int) == first_at(s@, c, i as int),
        decreases s@.len() - i,
    {
        if s[i] == c {
            return Some(i);
        }
        i += 1;
    }
    None
}

/// The pieces of `s` between the places that hold `sep`. There is always at least one.
pub open spec fn pieces(s: Seq<char>, sep: char) -> Seq<Seq<char>>
    decreases s.len(),
{
    match first_at(s, sep, 0) {
        Some(i) => if 0 <= i < s.len() {
            seq![s.take(i)] + pieces(s.skip(i + 1), sep)
        } else {
            seq![s]
        },
        None => seq![s],
    }
}

/// Searching from a place on is searching what stands from there on.
pub proof fn first_at_shift(s: Seq<char>, c: char, from: int, k: int)
    requires
        0 <= from <= k <= s.len(),
    ensures
        match first_at(s, c, k) {
            Some(i) => first_at(s.skip(from), c, k - from) == Some(i - from),
            None => first_at(s.skip(from), c, k - from) is None,
        },
    decreases s.len() - k,
{
    if k < s.len() {
        assert(s.skip(from)[k - from] == s[k]);
        if s[k] != c {
            first_at_shift(s, c, from, k + 1);
        }
    }
}

/// The pieces of `s` between the places that hold `sep`.
pub fn split(s: &str, sep: char) -> (r: Vec<String>)
    ensures
        text::texts(r@) == pieces(s@, sep),
        r@.len() > 0,
{
    let chars = chars_of(s);
    let mut out: Vec<String> = Vec::new();
    let mut from: usize = 0;
    assert(chars@.skip(0) =~= chars@);
    assert(text::texts(out@) =~= Seq::<Seq<char>>::empty());
    loop
        invariant
            from <= chars@.len(),
            chars@ == s@,
            text::texts(out@) + pieces(chars@.skip(from as int), sep) =~= pieces(s@, sep),
        decreases chars@.len() - from,
    {
        let ghost rest = chars@.skip(from as int);
        proof {
            first_at_shift(chars@, sep, from as int, from as int);
            first_at_finds(rest, sep, 0);
        }
        let ghost before = text::texts(out@);
        match find_from(chars.as_slice(), sep, from) {
            Some(i) => {
                let piece = slice_string(chars.as_slice(), from, i);
                proof {
                    assert(piece@ =~= rest.take(i - from));
                    assert(rest.skip(i - from + 1) =~= chars@.skip(i + 1));
                }
                out.push(piece);
                assert(text::texts(out@) =~= before.push(piece@));
                assert(pieces(rest, sep) == seq![piece@] + pieces(chars@.skip(i + 1), sep));
                assert(i < chars.len());
                from = i + 1;
            },
            None => {
                let piece = slice_string(chars.as_slice(), from, chars.len());
                assert(piece@ =~= rest);
                out.push(piece);
                assert(text::texts(out@) =~= before.push(piece@));
                return out;
            },
        }
    }
}

/// What stands before and behind the first `sep`, where there is one.
pub open spec fn halves(s: Seq<char>, sep: char) -> Option<(Seq<char>, Seq<char>)> {
    match first_at(s, sep, 0) {
        Some(i) => Some((s.take(i), s.skip(i + 1))),
        None => None,
    }
}

/// What stands before and behind the first `sep`, where there is one.
pub fn split_once(s: &str, sep: char) -> (r: Option<(String, String)>)
    ensures
        match r {
            Some((a, b)) => halves(s@, sep) == Some((a@, b@)),
            None => halves(s@, sep) is None,
        },
{
    let chars = chars_of(s);
    match find_from(chars.as_slice(), sep, 0) {
        Some(i) => {
            assert(i < chars.len());
            let a = slice_string(chars.as_slice(), 0, i);
            let b = slice_string(chars.as_slice(), i + 1, chars.len());
            assert(a@ =~= s@.take(i as int));
            assert(b@ =~= s@.skip(i + 1));
            Some((a, b))
        },
        None => None,
    }
}

/// The characters of Unicode's `White_Space` property.
pub open spec fn is_white(c: char) -> bool {
    let n = c as int;
    ||| 0x09 <= n <= 0x0d
    ||| n == 0x20
    ||| n == 0x85
    ||| n == 0xa0
    ||| n == 0x1680
    ||| 0x2000 <= n <= 0x200a
    ||| n == 0x2028
    ||| n == 0x2029
    ||| n == 0x202f
    ||| n == 0x205f
    ||| n == 0x3000
}

/// Whether `c` is white space.
pub fn white(c: char) -> (r: bool)
    ensures
        r == is_white(c),
{
    ('\u{9}' <= c && c <= '\u{d}') || c == '\u{20}' || c == '\u{85}' || c == '\u{a0}' || c
        == '\u{1680}' || ('\u{2000}' <= c && c <= '\u{200a}') || c == '\u{2028}' || c
        == '\u{2029}' || c == '\u{202f}' || c == '\u{205f}' || c == '\u{3000}'
}

/// `s` without the white space it begins with.
pub open spec fn trimmed_start(s: Seq<char>) -> Seq<char>
    decreases s.len(),
{
    if s.len() > 0 && is_white(s[0]) {
        trimmed_start(s.skip(1))
    } else {
        s
    }
}

/// `s` without the white space it ends with.
pub open spec fn trimmed_end(s: Seq<char>) -> Seq<char>
    decreases s.len(),
{
    if s.len() > 0 && is_white(s.last()) {
        trimmed_end(s.drop_last())
    } else {
        s
    }
}

/// `s` without the white space at either end.
pub open spec fn trimmed(s: Seq<char>) -> Seq<char> {
    trimmed_end(trimmed_start(s))
}

/// `s` without the white space at either end.
pub fn trim(s: &str) -> (r: String)
    ensures
        r@ == trimmed(s@),
{
    let chars = chars_of(s);
    let mut from: usize = 0;
    assert(chars@.skip(0) =~= chars@);
    while from < chars.len() && white(chars[from])
        invariant
            from <= chars@.len(),
            trimmed_start(chars@) == trimmed_start(chars@.skip(from as int)),
        decreases chars@.len() - from,
    {
        assert(chars@.skip(from as int).skip(1) =~= chars@.skip(from + 1));
        from += 1;
    }
    let ghost rest = chars@.skip(from as int);
    assert(trimmed_start(chars@) == rest);
    let mut to: usize = chars.len();
    assert(chars@.subrange(from as int, to as int) =~= rest);
    while to > from && white(chars[to - 1])
        invariant
            from <= to <= chars@.len(),
            trimmed_end(rest) == trimmed_end(chars@.subrange(from as int, to as int)),
        decreases to,
    {
        assert(chars@.subrange(from as int, to as int).drop_last() =~= chars@.subrange(
            from as int,
            to - 1,
        ));
        to -= 1;
    }
    slice_string(chars.as_slice(), from, to)
}

/// Whether `s` begins with `p`.
pub open spec fn begins(s: Seq<char>, p: Seq<char>) -> bool {
    p.len() <= s.len() && s.take(p.len() as int) == p
}

/// Whether `s` holds `p` somewhere.
pub open spec fn holds(s: Seq<char>, p: Seq<char>) -> bool {
    exists|i: int| 0 <= i <= s.len() && #[trigger] begins(s.skip(i), p)
}

fn begins_at(s: &[char], p: &[char], at: usize) -> (r: bool)
    requires
        at <= s@.len(),
    ensures
        r == begins(s@.skip(at as int), p@),
{
    if p.len() > s.len() - at {
        return false;
    }
    let total: usize = s.len();
    let mut i: usize = 0;
    while i < p.len()
        invariant
            total == s@.len(),
            i <= p@.len() <= s@.len() - at,
            forall|k: int| 0 <= k < i ==> s@[at + k] == p@[k],
        decreases p@.len() - i,
    {
        if s[at + i] != p[i] {
            assert(s@.skip(at as int).take(p@.len() as int)[i as int] != p@[i as int]);
            return false;
        }
        i += 1;
    }
    assert(s@.skip(at as int).take(p@.len() as int) =~= p@);
    true
}

/// Whether `s` begins with `p`.
pub fn starts_with(s: &str, p: &str) -> (r: bool)
    ensures
        r == begins(s@, p@),
{
    let a = chars_of(s);
    let b = chars_of(p);
    assert(a@.skip(0) =~= a@);
    begins_at(a.as_slice(), b.as_slice(), 0)
}

/// `s` without the prefix `p`, where it begins with it.
pub fn strip_prefix(s: &str, p: &str) -> (r: Option<String>)
    ensures
        match r {
            Some(t) => begins(s@, p@) && t@ == s@.skip(p@.len() as int),
            None => !begins(s@, p@),
        },
{
    let a = chars_of(s);
    let b = chars_of(p);
    assert(a@.skip(0) =~= a@);
    if begins_at(a.as_slice(), b.as_slice(), 0) {
        let t = slice_string(a.as_slice(), b.len(), a.len());
        assert(t@ =~= s@.skip(p@.len() as int));
        Some(t)
    } else {
        None
    }
}

/// Whether `s` holds `p` somewhere.
pub fn contains(s: &str, p: &str) -> (r: bool)
    ensures
        r == holds(s@, p@),
{
    let a = chars_of(s);
    let b = chars_of(p);
    let mut i: usize = 0;
    loop
        invariant
            a@ == s@,
            b@ == p@,
            i <= a@.len(),
            forall|k: int| 0 <= k < i ==> !#[trigger] begins(a@.skip(k), b@),
        decreases a@.len() - i,
    {
        if begins_at(a.as_slice(), b.as_slice(), i) {
            return true;
        }
        if i == a.len() {
            return false;
        }
        i += 1;
    }
}

/// Whether some string of the list is `want`.
pub fn lists(v: &[String], want: &str) -> (r: bool)
    ensures
        r == text::texts(v@).contains(want@),
{
    let mut i: usize = 0;
    while i < v.len()
        invariant
            i <= v@.len(),
            forall|k: int| 0 <= k < i ==> text::texts(v@)[k] != want@,
        decreases v@.len() - i,
    {
        if same(v[i].as_str(), want) {
            assert(text::texts(v@)[i as int] == want@);
            return true;
        }
        i += 1;
    }
    false
}

/// The texts of a list, one behind the other, with `sep` between them.
pub open spec fn glued(v: Seq<Seq<char>>, sep: Seq<char>) -> Seq<char>
    decreases v.len(),
{
    if v.len() == 0 {
        Seq::empty()
    } else if v.len() == 1 {
        v[0]
    } else {
        glued(v.drop_last(), sep) + sep + v.last()
    }
}

/// What a text holds, every longer one around it holds too.
pub proof fn held_within(before: Seq<char>, s: Seq<char>, behind: Seq<char>, p: Seq<char>)
    requires
        holds(s, p),
    ensures
        holds(before + s + behind, p),
{
    let i = choose|i: int| 0 <= i <= s.len() && #[trigger] begins(s.skip(i), p);
    let all = before + s + behind;
    let at = before.len() + i;
    assert(all.skip(at) =~= s.skip(i) + behind);
    assert((s.skip(i) + behind).take(p.len() as int) =~= s.skip(i).take(p.len() as int));
    assert(begins(all.skip(at), p));
}

/// What is glued holds each of its parts.
pub proof fn glued_holds(v: Seq<Seq<char>>, sep: Seq<char>, i: int)
    requires
        0 <= i < v.len(),
    ensures
        holds(glued(v, sep), v[i]),
    decreases v.len(),
{
    let all = glued(v, sep);
    if i == v.len() - 1 {
        let at = all.len() - v[i].len();
        assert(all.skip(at) =~= v[i]);
        assert(v[i].take(v[i].len() as int) =~= v[i]);
        assert(begins(all.skip(at), v[i]));
    } else {
        glued_holds(v.drop_last(), sep, i);
        held_within(Seq::empty(), glued(v.drop_last(), sep), sep + v.last(), v[i]);
        assert(Seq::<char>::empty() + glued(v.drop_last(), sep) + (sep + v.last()) =~= all);
    }
}

/// The strings of a list from `from` on, one behind the other, with `sep` between them.
pub fn glue(v: &[String], from: usize, sep: &str) -> (r: String)
    requires
        from <= v@.len(),
    ensures
        r@ == glued(text::texts(v@).skip(from as int), sep@),
{
    let ghost all = text::texts(v@).skip(from as int);
    let mut out = String::new();
    let mut i: usize = from;
    assert(all.take(0) =~= Seq::<Seq<char>>::empty());
    while i < v.len()
        invariant
            from <= i <= v@.len(),
            all == text::texts(v@).skip(from as int),
            out@ == glued(all.take(i - from), sep@),
        decreases v@.len() - i,
    {
        let ghost shorter = all.take(i - from);
        let ghost longer = all.take(i - from + 1);
        assert(longer.drop_last() =~= shorter);
        assert(longer.last() == v@[i as int]@);
        if i > from {
            out.append(sep);
        }
        out.append(v[i].as_str());
        assert(out@ =~= glued(longer, sep@));
        i += 1;
    }
    assert(all.take(i - from) =~= all);
    out
}

/// `s` without a carriage return at its end.
pub open spec fn chomped(s: Seq<char>) -> Seq<char> {
    if s.len() > 0 && s.last() == '\r' {
        s.drop_last()
    } else {
        s
    }
}

/// The lines of a text: what stands before each line feed, without a carriage return before it,
/// and what stands behind the last one, where anything does.
pub open spec fn lines_of(s: Seq<char>) -> Seq<Seq<char>>
    decreases s.len(),
{
    if s.len() == 0 {
        Seq::empty()
    } else {
        match first_at(s, '\n', 0) {
            Some(i) => if 0 <= i < s.len() {
                seq![chomped(s.take(i))] + lines_of(s.skip(i + 1))
            } else {
                seq![s]
            },
            None => seq![s],
        }
    }
}

/// The lines of a text.
pub fn lines(s: &str) -> (r: Vec<String>)
    ensures
        text::texts(r@) == lines_of(s@),
{
    let chars = chars_of(s);
    let mut out: Vec<String> = Vec::new();
    let mut from: usize = 0;
    assert(chars@.skip(0) =~= chars@);
    assert(text::texts(out@) =~= Seq::<Seq<char>>::empty());
    while from < chars.len()
        invariant
            from <= chars@.len(),
            chars@ == s@,
            text::texts(out@) + lines_of(chars@.skip(from as int)) =~= lines_of(s@),
        decreases chars@.len() - from,
    {
        let ghost rest = chars@.skip(from as int);
        proof {
            first_at_shift(chars@, '\n', from as int, from as int);
            first_at_finds(rest, '\n', 0);
        }
        let ghost before = text::texts(out@);
        match find_from(chars.as_slice(), '\n', from) {
            Some(i) => {
                assert(i < chars.len());
                let to: usize = if i > from && chars[i - 1] == '\r' {
                    i - 1
                } else {
                    i
                };
                let line = slice_string(chars.as_slice(), from, to);
                proof {
                    assert(rest.take(i - from).len() > 0 ==> rest.take(i - from).last()
                        == chars@[i - 1]);
                    assert(line@ =~= chomped(rest.take(i - from)));
                    assert(rest.skip(i - from + 1) =~= chars@.skip(i + 1));
                }
                out.push(line);
                assert(text::texts(out@) =~= before.push(line@));
                assert(lines_of(rest) == seq![line@] + lines_of(chars@.skip(i + 1)));
                from = i + 1;
            },
            None => {
                let line = slice_string(chars.as_slice(), from, chars.len());
                assert(line@ =~= rest);
                out.push(line);
                assert(text::texts(out@) =~= before.push(line@));
                return out;
            },
        }
    }
    assert(chars@.skip(from as int) =~= Seq::<char>::empty());
    out
}

/// The last `n` lines of a text, with line feeds between them.
pub open spec fn last_lines(s: Seq<char>, n: nat) -> Seq<char> {
    let all = lines_of(s);
    let from = if all.len() > n {
        all.len() - n
    } else {
        0
    };
    glued(all.skip(from), "\n"@)
}

/// The last `n` lines of a text, with line feeds between them.
pub fn tail_lines(s: &str, n: u32) -> (r: String)
    ensures
        r@ == last_lines(s@, n as nat),
{
    let all = lines(s);
    let n64: u64 = n as u64;
    let len: u64 = all.len() as u64;
    let from: usize = if len > n64 {
        (len - n64) as usize
    } else {
        0
    };
    glue(all.as_slice(), from, "\n")
}

// ---- laws ----------------------------------------------------------------------------------

proof fn glued_from_the_front(a: Seq<char>, v: Seq<Seq<char>>, sep: Seq<char>)
    requires
        v.len() > 0,
    ensures
        glued(seq![a] + v, sep) == a + sep + glued(v, sep),
    decreases v.len(),
{
    let all = seq![a] + v;
    assert(all.drop_last() =~= seq![a] + v.drop_last());
    assert(all.last() == v.last());
    if v.len() == 1 {
        assert(all.drop_last() =~= seq![a]);
        assert(glued(seq![a], sep) == a);
        assert(glued(all, sep) =~= a + sep + v[0]);
    } else {
        glued_from_the_front(a, v.drop_last(), sep);
        assert(glued(all, sep) =~= a + sep + glued(v, sep));
    }
}

/// The pieces of a text, put together with what set them apart, are the text, and none of them holds
/// what set them apart.
pub proof fn pieces_make_the_whole(s: Seq<char>, sep: char, k: int, j: int)
    ensures
        pieces(s, sep).len() > 0,
        glued(pieces(s, sep), seq![sep]) == s,
        0 <= k < pieces(s, sep).len() && 0 <= j < pieces(s, sep)[k].len() ==> pieces(s, sep)[k][j]
            != sep,
    decreases s.len(),
{
    first_at_finds(s, sep, 0);
    match first_at(s, sep, 0) {
        Some(i) => {
            let rest = s.skip(i + 1);
            pieces_make_the_whole(rest, sep, k - 1, j);
            glued_from_the_front(s.take(i), pieces(rest, sep), seq![sep]);
            assert(s.take(i) + seq![sep] + rest =~= s);
            if 0 < k < pieces(s, sep).len() {
                assert(pieces(s, sep)[k] == pieces(rest, sep)[k - 1]);
            }
        },
        None => {},
    }
}

/// Texts that do not hold what sets them apart are the pieces of what they are put together to.
pub proof fn what_was_put_together_comes_apart(v: Seq<Seq<char>>, sep: char)
    requires
        v.len() > 0,
        forall|k: int, j: int|
            0 <= k < v.len() && 0 <= j < v[k].len() ==> #[trigger] v[k][j] != sep,
    ensures
        pieces(glued(v, seq![sep]), sep) == v,
    decreases v.len(),
{
    let s = glued(v, seq![sep]);
    first_at_finds(s, sep, 0);
    if v.len() == 1 {
        assert(s == v[0]);
        if let Some(i) = first_at(s, sep, 0) {
            assert(v[0][i] != sep);
        }
        assert(pieces(s, sep) =~= v);
    } else {
        let rest = v.skip(1);
        assert(seq![v[0]] + rest =~= v);
        glued_from_the_front(v[0], rest, seq![sep]);
        assert forall|k: int, j: int| 0 <= k < rest.len() && 0 <= j < rest[k].len() implies #[trigger] rest[k][j]
            != sep by {
            assert(v[k + 1][j] != sep);
        }
        what_was_put_together_comes_apart(rest, sep);
        let n = v[0].len() as int;
        assert(s[n] == sep);
        let i = first_at(s, sep, 0).unwrap();
        assert(i == n) by {
            if i < n {
                assert(s[i] == v[0][i]);
            }
        }
        assert(s.take(i) =~= v[0]);
        assert(s.skip(i + 1) =~= glued(rest, seq![sep]));
    }
}

/// A text is cut in two at the first place that sets it apart, which is in neither part.
pub proof fn halves_make_the_whole(s: Seq<char>, sep: char, j: int)
    ensures
        match halves(s, sep) {
            Some((a, b)) => s == a + seq![sep] + b && (0 <= j < a.len() ==> a[j] != sep),
            None => 0 <= j < s.len() ==> s[j] != sep,
        },
{
    first_at_finds(s, sep, 0);
    if let Some(i) = first_at(s, sep, 0) {
        assert(s.take(i) + seq![sep] + s.skip(i + 1) =~= s);
    }
}

/// A text begins with another exactly where something can be put behind that to make it.
pub proof fn what_begins_a_text(p: Seq<char>, rest: Seq<char>, s: Seq<char>)
    ensures
        begins(p + rest, p),
        begins(s, p) ==> s == p + s.skip(p.len() as int),
{
    assert((p + rest).take(p.len() as int) =~= p);
    if begins(s, p) {
        assert(s =~= s.take(p.len() as int) + s.skip(p.len() as int));
    }
}

/// A text holds another exactly where it can be put together around it.
pub proof fn what_is_held(a: Seq<char>, p: Seq<char>, b: Seq<char>)
    ensures
        holds(a + p + b, p),
{
    let s = a + p + b;
    assert(s.skip(a.len() as int) =~= p + b);
    what_begins_a_text(p, b, s);
    assert(begins(s.skip(a.len() as int), p));
}

proof fn trimmed_start_is_a_part(s: Seq<char>) -> (i: int)
    ensures
        0 <= i <= s.len(),
        trimmed_start(s) == s.skip(i),
        forall|k: int| 0 <= k < i ==> is_white(#[trigger] s[k]),
        i < s.len() ==> !is_white(s[i]),
    decreases s.len(),
{
    if s.len() > 0 && is_white(s[0]) {
        let t = s.skip(1);
        let i = trimmed_start_is_a_part(t);
        assert(t.skip(i) =~= s.skip(i + 1));
        assert forall|k: int| 0 <= k < i + 1 implies is_white(#[trigger] s[k]) by {
            if k > 0 {
                assert(t[k - 1] == s[k]);
            }
        }
        if i + 1 < s.len() {
            assert(t[i] == s[i + 1]);
        }
        i + 1
    } else {
        assert(s.skip(0) =~= s);
        0
    }
}

proof fn trimmed_end_is_a_part(s: Seq<char>) -> (n: int)
    ensures
        0 <= n <= s.len(),
        trimmed_end(s) == s.take(n),
        forall|k: int| n <= k < s.len() ==> is_white(#[trigger] s[k]),
        n > 0 ==> !is_white(s[n - 1]),
    decreases s.len(),
{
    if s.len() > 0 && is_white(s.last()) {
        let t = s.drop_last();
        let n = trimmed_end_is_a_part(t);
        assert(t.take(n) =~= s.take(n));
        assert forall|k: int| n <= k < s.len() implies is_white(#[trigger] s[k]) by {
            if k < t.len() {
                assert(t[k] == s[k]);
            }
        }
        if n > 0 {
            assert(t[n - 1] == s[n - 1]);
        }
        n
    } else {
        assert(s.take(s.len() as int) =~= s);
        s.len() as int
    }
}

/// Trimming takes the white space off both ends, all of it, and nothing else: what is left is a part
/// of the text that neither begins nor ends with any, and around it there was nothing but white space.
pub proof fn only_outer_white_is_trimmed(s: Seq<char>) -> (at: (int, int))
    ensures
        0 <= at.0 <= at.1 <= s.len(),
        trimmed(s) == s.subrange(at.0, at.1),
        forall|k: int| 0 <= k < at.0 ==> is_white(#[trigger] s[k]),
        forall|k: int| at.1 <= k < s.len() ==> is_white(#[trigger] s[k]),
        trimmed(s).len() > 0 ==> !is_white(trimmed(s)[0]) && !is_white(trimmed(s).last()),
{
    let i = trimmed_start_is_a_part(s);
    let t = s.skip(i);
    let n = trimmed_end_is_a_part(t);
    assert(t.take(n) =~= s.subrange(i, i + n));
    assert forall|k: int| i + n <= k < s.len() implies is_white(#[trigger] s[k]) by {
        assert(t[k - i] == s[k]);
    }
    if n > 0 {
        assert(trimmed(s)[0] == s[i]);
        assert(trimmed(s).last() == t[n - 1]);
    }
    (i, i + n)
}

/// Spaces, tabs and line ends are white space; letters, digits and signs are not.
pub proof fn what_is_white(c: char)
    requires
        (c as int) < 128,
    ensures
        is_white(c) <==> c == ' ' || c == '\t' || c == '\n' || c == '\r' || c as int == 11
            || c as int == 12,
{
}

/// A line is what stands before a line end, without a carriage return there, and what is behind it is
/// read on its own. A text without one is one line.
pub proof fn lines_are_read_one_by_one(line: Seq<char>, rest: Seq<char>)
    requires
        forall|i: int| 0 <= i < line.len() ==> (#[trigger] line[i]) != '\n',
        line.len() == 0 || line.last() != '\r',
    ensures
        lines_of(line + seq!['\n'] + rest) == seq![line] + lines_of(rest),
        lines_of(line + seq!['\r', '\n'] + rest) == seq![line] + lines_of(rest),
        line.len() > 0 ==> lines_of(line) == seq![line],
        lines_of(Seq::empty()).len() == 0,
{
    let n = line.len() as int;
    let s = line + seq!['\n'] + rest;
    first_at_finds(s, '\n', 0);
    assert(s[n] == '\n');
    let i = first_at(s, '\n', 0).unwrap();
    assert(i == n) by {
        if i < n {
            assert(s[i] == line[i]);
        }
    }
    assert(s.take(n) =~= line);
    assert(s.skip(n + 1) =~= rest);
    let t = line + seq!['\r', '\n'] + rest;
    first_at_finds(t, '\n', 0);
    assert(t[n + 1] == '\n');
    let j = first_at(t, '\n', 0).unwrap();
    assert(j == n + 1) by {
        if j < n {
            assert(t[j] == line[j]);
        } else if j == n {
            assert(t[j] == '\r');
        }
    }
    assert(t.take(n + 1) =~= line + seq!['\r']);
    assert((line + seq!['\r']).drop_last() =~= line);
    assert(t.skip(n + 2) =~= rest);
    if n > 0 {
        first_at_finds(line, '\n', 0);
        if let Some(k) = first_at(line, '\n', 0) {
            assert(line[k] != '\n');
        }
    }
}

/// The last lines of a text are its last lines: as many as were asked for, or all where there are not
/// so many, in order, with line ends between them.
pub proof fn the_last_lines_are_the_last(s: Seq<char>, n: nat, front: Seq<Seq<char>>, back: Seq<Seq<char>>)
    requires
        lines_of(s) == front + back,
        back.len() == n || (back.len() < n && front.len() == 0),
    ensures
        last_lines(s, n) == glued(back, "\n"@),
{
    assert((front + back).skip(front.len() as int) =~= back);
}

/// What is put together holds its parts in order, with what sets them apart between each two and
/// nowhere else.
pub proof fn how_texts_are_put_together(v: Seq<Seq<char>>, sep: Seq<char>, a: Seq<char>)
    ensures
        glued(Seq::empty(), sep).len() == 0,
        glued(seq![a], sep) == a,
        v.len() > 0 ==> glued(v.push(a), sep) == glued(v, sep) + sep + a,
{
    assert(v.push(a).drop_last() =~= v);
}

/// What is put together with one more before it begins with that and what sets it apart.
pub proof fn glued_begins(a: Seq<char>, v: Seq<Seq<char>>, sep: Seq<char>)
    requires
        v.len() > 0,
    ensures
        glued(seq![a] + v, sep) == a + sep + glued(v, sep),
{
    glued_from_the_front(a, v, sep);
}

/// What is put together begins with its first part.
pub proof fn glued_first(v: Seq<Seq<char>>, sep: Seq<char>)
    requires
        v.len() > 0,
    ensures
        begins(glued(v, sep), v[0]),
        v[0].len() > 0 ==> glued(v, sep).len() > 0 && glued(v, sep)[0] == v[0][0],
{
    if v.len() > 1 {
        assert(v =~= seq![v[0]] + v.skip(1));
        glued_from_the_front(v[0], v.skip(1), sep);
        assert(glued(v, sep) =~= v[0] + (sep + glued(v.skip(1), sep)));
        what_begins_a_text(v[0], sep + glued(v.skip(1), sep), Seq::empty());
    } else {
        assert(v[0].take(v[0].len() as int) =~= v[0]);
    }
}

} // verus!
