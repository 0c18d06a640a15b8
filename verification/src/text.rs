//! Text as a sequence of characters: the string operations the other modules are stated over.

use vstd::prelude::*;

verus! {

/// `String::push` of std: the character is added behind the last one.
pub assume_specification[ String::push ](s: &mut String, c: char)
    ensures
        final(s)@ == old(s)@.push(c),
;

/// `==` of two string slices of std: true exactly where the two hold the same characters.
pub assume_specification[ <str as PartialEq>::eq ](a: &str, b: &str) -> (r: bool)
    ensures
        r == (a@ == b@),
;

/// What `{:?}` of std writes for a string: the text in quotes, with what cannot be printed
/// escaped.
pub uninterp spec fn debug_text(s: Seq<char>) -> Seq<char>;

/// `format!("{:?}", s)` of std. Which characters std escapes, and how, is left unsaid.
#[verifier::external_body]
pub(crate) fn debug_of(s: &str) -> (r: String)
    ensures
        r@ == debug_text(s@),
{
    format!("{:?}", s)
}

/// What `String::from_utf8_lossy` of std makes of bytes.
pub uninterp spec fn lossy_text(bytes: Seq<u8>) -> Seq<char>;

/// `String::from_utf8_lossy` of std: what is valid UTF-8 is decoded as it stands. How many
/// replacement characters stand for what is not valid is left unsaid.
#[verifier::external_body]
pub(crate) fn decode_lossy(bytes: &[u8]) -> (r: String)
    ensures
        r@ == lossy_text(bytes@),
        vstd::utf8::valid_utf8(bytes@) ==> r@ == vstd::utf8::decode_utf8(bytes@),
{
    String::from_utf8_lossy(bytes).into_owned()
}

/// What std says of bytes that are no UTF-8.
pub uninterp spec fn utf8_complaint(bytes: Seq<u8>) -> Seq<char>;

/// `String::from_utf8` of std: the text that the bytes encode, or, where they are no UTF-8, what
/// its error prints. How the error is worded is left unsaid.
#[verifier::external_body]
pub(crate) fn decode_exact(bytes: Vec<u8>) -> (r: Result<String, String>)
    ensures
        match r {
            Ok(s) => vstd::utf8::valid_utf8(bytes@) && s@ == vstd::utf8::decode_utf8(bytes@),
            Err(e) => !vstd::utf8::valid_utf8(bytes@) && e@ == utf8_complaint(bytes@),
        },
{
    String::from_utf8(bytes).map_err(|e| e.to_string())
}

/// What base64 decodes a text to with its standard alphabet and padding, or what it says of a text
/// that it cannot decode.
pub uninterp spec fn base64_bytes(s: Seq<char>) -> Result<Seq<u8>, Seq<char>>;

/// `Engine::decode` of base64, with `general_purpose::STANDARD`. Which bytes a text stands for,
/// and how an error is worded, is left unsaid.
#[verifier::external_body]
pub(crate) fn decode_base64(s: &str) -> (r: Result<Vec<u8>, String>)
    ensures
        match r {
            Ok(b) => base64_bytes(s@) == Ok::<Seq<u8>, Seq<char>>(b@),
            Err(e) => base64_bytes(s@) == Err::<Seq<u8>, Seq<char>>(e@),
        },
{
    base64::Engine::decode(&base64::engine::general_purpose::STANDARD, s).map_err(|e| e.to_string())
}

/// Whether the two slices hold the same characters.
pub fn same(a: &str, b: &str) -> (r: bool)
    ensures
        r == (a@ == b@),
{
    *a == *b
}

/// The characters of `s`, in order.
pub fn chars_of(s: &str) -> (r: Vec<char>)
    ensures
        r@ == s@,
{
    let mut out: Vec<char> = Vec::new();
    for c in iter: s.chars()
        invariant
            out@ == s@.take(iter.index() as int),
            iter.seq() == s@,
    {
        out.push(c);
    }
    proof {
        assert(s@.take(s@.len() as int) =~= s@);
    }
    out
}

/// The string that holds the characters from `from` up to, not including, `to`.
pub fn slice_string(chars: &[char], from: usize, to: usize) -> (r: String)
    requires
        from <= to <= chars@.len(),
    ensures
        r@ == chars@.subrange(from as int, to as int),
{
    let mut out = String::new();
    let mut i: usize = from;
    while i < to
        invariant
            from <= i <= to <= chars@.len(),
            out@ == chars@.subrange(from as int, i as int),
        decreases to - i,
    {
        out.push(chars[i]);
        i += 1;
        assert(chars@.subrange(from as int, i as int) =~= chars@.subrange(
            from as int,
            i - 1,
        ).push(chars@[i - 1]));
    }
    out
}

/// `a` followed by `b`.
pub fn cat2(a: &str, b: &str) -> (r: String)
    ensures
        r@ == a@ + b@,
{
    let mut s = a.to_owned();
    s.append(b);
    s
}

/// `a`, `b` and `c`, one behind the other.
pub fn cat3(a: &str, b: &str, c: &str) -> (r: String)
    ensures
        r@ == a@ + b@ + c@,
{
    let mut s = cat2(a, b);
    s.append(c);
    s
}

/// Four texts, one behind the other.
pub fn cat4(a: &str, b: &str, c: &str, d: &str) -> (r: String)
    ensures
        r@ == a@ + b@ + c@ + d@,
{
    let mut s = cat3(a, b, c);
    s.append(d);
    s
}

/// Five texts, one behind the other.
pub fn cat5(a: &str, b: &str, c: &str, d: &str, e: &str) -> (r: String)
    ensures
        r@ == a@ + b@ + c@ + d@ + e@,
{
    let mut s = cat4(a, b, c, d);
    s.append(e);
    s
}

/// Six texts, one behind the other.
pub fn cat6(a: &str, b: &str, c: &str, d: &str, e: &str, f: &str) -> (r: String)
    ensures
        r@ == a@ + b@ + c@ + d@ + e@ + f@,
{
    let mut s = cat5(a, b, c, d, e);
    s.append(f);
    s
}

/// Seven texts, one behind the other.
pub fn cat7(a: &str, b: &str, c: &str, d: &str, e: &str, f: &str, g: &str) -> (r: String)
    ensures
        r@ == a@ + b@ + c@ + d@ + e@ + f@ + g@,
{
    let mut s = cat6(a, b, c, d, e, f);
    s.append(g);
    s
}

/// Eight texts, one behind the other.
pub fn cat8(a: &str, b: &str, c: &str, d: &str, e: &str, f: &str, g: &str, h: &str) -> (r: String)
    ensures
        r@ == a@ + b@ + c@ + d@ + e@ + f@ + g@ + h@,
{
    let mut s = cat7(a, b, c, d, e, f, g);
    s.append(h);
    s
}

/// The characters of each string of a list.
pub open spec fn texts(v: Seq<String>) -> Seq<Seq<char>> {
    v.map_values(|s: String| s@)
}

/// A copy of a list of strings.
pub fn clone_strings(v: &[String]) -> (r: Vec<String>)
    ensures
        r@ == v@,
{
    let mut out: Vec<String> = Vec::new();
    let mut i: usize = 0;
    while i < v.len()
        invariant
            i <= v@.len(),
            out@ =~= v@.take(i as int),
        decreases v@.len() - i,
    {
        out.push(v[i].clone());
        i += 1;
    }
    assert(v@.take(i as int) =~= v@);
    out
}

/// A copy of an optional string.
pub fn clone_opt(v: &Option<String>) -> (r: Option<String>)
    ensures
        r == *v,
{
    match v {
        Some(s) => Some(s.clone()),
        None => None,
    }
}

// ---- order -------------------------------------------------------------------------------

/// `a` comes before `b` where the first character in which they differ is smaller in `a`, or
/// where `a` is a proper prefix of `b`.
pub open spec fn lex_less(a: Seq<char>, b: Seq<char>) -> bool
    decreases a.len(),
{
    if b.len() == 0 {
        false
    } else if a.len() == 0 {
        true
    } else if a[0] == b[0] {
        lex_less(a.skip(1), b.skip(1))
    } else {
        (a[0] as int) < (b[0] as int)
    }
}

/// Nothing comes before itself.
pub proof fn lex_less_irreflexive(a: Seq<char>)
    ensures
        !lex_less(a, a),
    decreases a.len(),
{
    if a.len() > 0 {
        lex_less_irreflexive(a.skip(1));
    }
}

/// The order is transitive.
pub proof fn lex_less_transitive(a: Seq<char>, b: Seq<char>, c: Seq<char>)
    requires
        lex_less(a, b),
        lex_less(b, c),
    ensures
        lex_less(a, c),
    decreases a.len(),
{
    if a.len() > 0 && b.len() > 0 && c.len() > 0 && a[0] == b[0] && b[0] == c[0] {
        lex_less_transitive(a.skip(1), b.skip(1), c.skip(1));
    }
}

/// Of two different texts one comes before the other.
pub proof fn lex_less_total(a: Seq<char>, b: Seq<char>)
    ensures
        a == b || lex_less(a, b) || lex_less(b, a),
    decreases a.len(),
{
    if a.len() == 0 || b.len() == 0 {
        assert(a.len() == b.len() ==> a =~= b);
    } else if a[0] == b[0] {
        lex_less_total(a.skip(1), b.skip(1));
        if a.skip(1) == b.skip(1) {
            assert(a =~= seq![a[0]] + a.skip(1));
            assert(b =~= seq![b[0]] + b.skip(1));
        }
    } else {
        assert((a[0] as int) != (b[0] as int));
    }
}

/// Whether `a` comes before `b` in the order of `lex_less`.
pub fn less(a: &str, b: &str) -> (r: bool)
    ensures
        r == lex_less(a@, b@),
{
    let x = chars_of(a);
    let y = chars_of(b);
    let mut i: usize = 0;
    assert(x@.skip(0) =~= x@ && y@.skip(0) =~= y@);
    while i < x.len() && i < y.len() && x[i] == y[i]
        invariant
            i <= x@.len(),
            i <= y@.len(),
            lex_less(x@, y@) == lex_less(x@.skip(i as int), y@.skip(i as int)),
        decreases x@.len() - i,
    {
        assert(x@.skip(i as int).skip(1) =~= x@.skip(i + 1));
        assert(y@.skip(i as int).skip(1) =~= y@.skip(i + 1));
        i += 1;
    }
    if i >= y.len() {
        false
    } else if i >= x.len() {
        true
    } else {
        x[i] < y[i]
    }
}

/// Each text of the list comes before every later one: the list is in order and holds nothing
/// twice.
pub open spec fn ascending(v: Seq<Seq<char>>) -> bool {
    forall|i: int, j: int| 0 <= i < j < v.len() ==> #[trigger] lex_less(v[i], v[j])
}

/// Puts `s` into an ascending list, where it is not in it yet.
pub fn insert_ascending(v: &mut Vec<String>, s: String)
    requires
        ascending(texts(old(v)@)),
    ensures
        ascending(texts(final(v)@)),
        texts(final(v)@).to_set() == texts(old(v)@).to_set().insert(s@),
{
    let ghost before = texts(v@);
    let mut i: usize = 0;
    while i < v.len() && less(v[i].as_str(), s.as_str())
        invariant
            i <= v@.len(),
            texts(v@) == before,
            forall|k: int| 0 <= k < i ==> #[trigger] lex_less(before[k], s@),
        decreases v@.len() - i,
    {
        i += 1;
    }
    if i < v.len() && same(v[i].as_str(), s.as_str()) {
        assert(before[i as int] == s@);
        assert(before.to_set().insert(s@) =~= before.to_set());
    } else {
        proof {
            if i < before.len() {
                lex_less_total(before[i as int], s@);
            }
            assert forall|k: int| i <= k < before.len() implies #[trigger] lex_less(
                s@,
                before[k],
            ) by {
                if k > i {
                    lex_less_transitive(s@, before[i as int], before[k]);
                }
            }
        }
        let ghost text = s@;
        v.insert(i, s);
        proof {
            assert(texts(v@) =~= before.insert(i as int, text));
            let after = texts(v@);
            assert forall|x: Seq<char>| after.to_set().contains(x) <==> before.to_set().insert(
                text,
            ).contains(x) by {
                if after.to_set().contains(x) {
                    let k = choose|k: int| 0 <= k < after.len() && after[k] == x;
                    if k < i {
                        assert(before[k] == x);
                    } else if k > i {
                        assert(before[k - 1] == x);
                    }
                }
                if before.to_set().contains(x) {
                    let k = choose|k: int| 0 <= k < before.len() && before[k] == x;
                    if k < i {
                        assert(after[k] == x);
                    } else {
                        assert(after[k + 1] == x);
                    }
                }
                assert(after[i as int] == text);
            }
            assert(after.to_set() =~= before.to_set().insert(text));
            assert forall|p: int, q: int| 0 <= p < q < after.len() implies #[trigger] lex_less(
                after[p],
                after[q],
            ) by {
                let bp = if p < i { p } else { p - 1 };
                let bq = if q < i { q } else { q - 1 };
                if p != i && q != i {
                    assert(after[p] == before[bp] && after[q] == before[bq]);
                } else if p == i {
                    assert(after[q] == before[bq]);
                } else {
                    assert(after[p] == before[bp]);
                }
            }
        }
    }
}

/// The texts of a set as a list, in order.
pub open spec fn sorted(s: Set<Seq<char>>) -> Seq<Seq<char>> {
    choose|v: Seq<Seq<char>>| ascending(v) && v.to_set() == s
}

/// There is one way to list the texts of a set in order.
pub proof fn ascending_is_unique(a: Seq<Seq<char>>, b: Seq<Seq<char>>)
    requires
        ascending(a),
        ascending(b),
        a.to_set() == b.to_set(),
    ensures
        a == b,
    decreases a.len(),
{
    if a.len() == 0 {
        if b.len() > 0 {
            assert(b.to_set().contains(b[0]));
            assert(a.to_set().contains(b[0]));
        }
        assert(a =~= b);
    } else {
        assert(a.to_set().contains(a[0]));
        assert(b.to_set().contains(a[0]));
        assert(b.len() > 0);
        let x = a.last();
        let y = b.last();
        assert(a[a.len() - 1] == x && b[b.len() - 1] == y);
        assert(a.to_set().contains(x) && b.to_set().contains(y));
        let j = choose|j: int| 0 <= j < b.len() && b[j] == x;
        let i = choose|i: int| 0 <= i < a.len() && a[i] == y;
        if x != y {
            assert(lex_less(b[j], b[b.len() - 1]));
            assert(lex_less(a[i], a[a.len() - 1]));
            lex_less_transitive(x, y, x);
            lex_less_irreflexive(x);
        }
        let p = a.drop_last();
        let q = b.drop_last();
        without_last(a);
        without_last(b);
        assert(p.to_set() =~= q.to_set());
        ascending_is_unique(p, q);
        assert(a =~= p.push(x));
        assert(b =~= q.push(y));
    }
}

proof fn without_last(a: Seq<Seq<char>>)
    requires
        ascending(a),
        a.len() > 0,
    ensures
        ascending(a.drop_last()),
        a.drop_last().to_set() == a.to_set().remove(a.last()),
{
    let p = a.drop_last();
    assert forall|i: int, j: int| 0 <= i < j < p.len() implies #[trigger] lex_less(p[i], p[j]) by {
        assert(p[i] == a[i] && p[j] == a[j]);
    }
    assert forall|x: Seq<char>| p.to_set().contains(x) <==> a.to_set().remove(
        a.last(),
    ).contains(x) by {
        if p.to_set().contains(x) {
            let i = choose|i: int| 0 <= i < p.len() && p[i] == x;
            assert(a[i] == x);
            assert(lex_less(a[i], a[a.len() - 1]));
            lex_less_irreflexive(x);
        }
        if a.to_set().remove(a.last()).contains(x) {
            let i = choose|i: int| 0 <= i < a.len() && a[i] == x;
            assert(p[i] == x);
        }
    }
    assert(p.to_set() =~= a.to_set().remove(a.last()));
}

/// No text of the list comes before an earlier one.
pub open spec fn in_order(v: Seq<Seq<char>>) -> bool {
    forall|i: int, j: int| 0 <= i < j < v.len() ==> !#[trigger] lex_less(v[j], v[i])
}

/// Whether `out` holds what `v` holds, as often, in order.
pub open spec fn arranges(out: Seq<Seq<char>>, v: Seq<Seq<char>>) -> bool {
    in_order(out) && out.to_multiset() == v.to_multiset()
}

/// The texts of a list, in order.
pub fn arrange(v: &[String]) -> (r: Vec<String>)
    ensures
        arranges(texts(r@), texts(v@)),
        r@.len() == v@.len(),
{
    let ghost all = texts(v@);
    let mut out: Vec<String> = Vec::new();
    let mut i: usize = 0;
    assert(texts(out@) =~= all.take(0));
    while i < v.len()
        invariant
            i <= v@.len(),
            all == texts(v@),
            out@.len() == i,
            arranges(texts(out@), all.take(i as int)),
        decreases v@.len() - i,
    {
        let ghost before = texts(out@);
        let s = v[i].clone();
        let mut k: usize = out.len();
        while k > 0 && less(s.as_str(), out[k - 1].as_str())
            invariant
                k <= out@.len(),
                before == texts(out@),
                forall|j: int| k <= j < before.len() ==> #[trigger] lex_less(s@, before[j]),
            decreases k,
        {
            k -= 1;
        }
        proof {
            vstd::seq_lib::to_multiset_insert(before, k as int, s@);
            vstd::seq_lib::to_multiset_build(all.take(i as int), s@);
            assert(all.take(i + 1) =~= all.take(i as int).push(s@));
            let new = before.insert(k as int, s@);
            assert forall|a: int, b: int| 0 <= a < b < new.len() implies !#[trigger] lex_less(
                new[b],
                new[a],
            ) by {
                lex_less_irreflexive(s@);
                if a == k {
                    assert(lex_less(s@, before[b - 1]));
                    if lex_less(before[b - 1], s@) {
                        lex_less_transitive(s@, before[b - 1], s@);
                    }
                } else if b == k {
                    assert(!lex_less(s@, before[k - 1]));
                    if lex_less(s@, before[a]) {
                        lex_less_total(before[a], before[k - 1]);
                        if a < k - 1 {
                            assert(!lex_less(before[k - 1], before[a]));
                        }
                        if lex_less(before[a], before[k - 1]) {
                            lex_less_transitive(s@, before[a], before[k - 1]);
                        }
                    }
                } else {
                    let x = if a < k {
                        a
                    } else {
                        a - 1
                    };
                    let y = if b < k {
                        b
                    } else {
                        b - 1
                    };
                    assert(!lex_less(before[y], before[x]));
                }
            }
        }
        out.insert(k, s);
        assert(texts(out@) =~= before.insert(k as int, s@));
        i += 1;
    }
    assert(all.take(i as int) =~= all);
    out
}

/// A text comes before all that it begins, and of two that differ the one with the smaller character
/// where they first do.
pub proof fn how_texts_are_ordered(p: Seq<char>, x: Seq<char>, y: Seq<char>)
    ensures
        x.len() > 0 ==> lex_less(p, p + x),
        x.len() > 0 && y.len() > 0 && x[0] as int != y[0] as int ==> (lex_less(p + x, p + y) <==> (
        x[0] as int) < (y[0] as int)),
    decreases p.len(),
{
    if p.len() > 0 {
        let q = p.skip(1);
        how_texts_are_ordered(q, x, y);
        assert((p + x).skip(1) =~= q + x);
        assert((p + y).skip(1) =~= q + y);
        assert((p + x)[0] == p[0]);
        assert((p + y)[0] == p[0]);
    } else {
        assert(p + x =~= x);
        assert(p + y =~= y);
    }
}

/// A list that is in order and holds a set is that set in order.
pub proof fn a_sorted_list_is_the_sorted_set(v: Seq<Seq<char>>, s: Set<Seq<char>>)
    requires
        ascending(v),
        v.to_set() == s,
    ensures
        sorted(s) == v,
{
    ascending_is_unique(sorted(s), v);
}

} // verus!
