//! References to variables in the values and arguments of a manifest.

use vstd::prelude::*;
use crate::scan::{self, find_from};
use crate::table::Table;
use crate::text::{chars_of, slice_string};

verus! {

/// The variables of a table.
pub open spec fn variables(t: Table<String>) -> Map<Seq<char>, Seq<char>> {
    t@.map_values(|s: String| s@)
}

/// `s` with its references to variables replaced.
///
/// `$(NAME)` becomes the value of a variable of that name, and stays as it stands where there is
/// none. `$$` becomes one `$`. Every other `$` stays. What a variable holds is not looked at again.
pub open spec fn expanded(s: Seq<char>, vars: Map<Seq<char>, Seq<char>>) -> Seq<char>
    decreases s.len(),
{
    if s.len() == 0 {
        s
    } else if s[0] != '$' || s.len() == 1 {
        seq![s[0]] + expanded(s.skip(1), vars)
    } else if s[1] == '$' {
        seq!['$'] + expanded(s.skip(2), vars)
    } else if s[1] == '(' && scan::first_at(s, ')', 2) is Some && 2 <= scan::first_at(
        s,
        ')',
        2,
    )->0 < s.len() {
        let close = scan::first_at(s, ')', 2)->0;
        let name = s.subrange(2, close);
        (if vars.dom().contains(name) {
            vars[name]
        } else {
            s.take(close + 1)
        }) + expanded(s.skip(close + 1), vars)
    } else {
        seq!['$'] + expanded(s.skip(1), vars)
    }
}

/// `raw` with its references to the variables in `defined` replaced.
pub fn expand_env_refs(raw: &str, defined: &Table<String>) -> (r: String)
    ensures
        r@ == expanded(raw@, variables(*defined)),
{
    let chars = chars_of(raw);
    let ghost vars = variables(*defined);
    let mut out = String::new();
    let mut i: usize = 0;
    assert(chars@.skip(0) =~= chars@);
    while i < chars.len()
        invariant
            i <= chars@.len(),
            chars@ == raw@,
            vars == variables(*defined),
            out@ + expanded(chars@.skip(i as int), vars) =~= expanded(raw@, vars),
        decreases chars@.len() - i,
    {
        let ghost rest = chars@.skip(i as int);
        assert(rest.skip(1) =~= chars@.skip(i + 1));
        if chars[i] != '$' || chars.len() - i == 1 {
            out.push(chars[i]);
            i += 1;
        } else if chars[i + 1] == '$' {
            assert(rest.skip(2) =~= chars@.skip(i + 2));
            out.push('$');
            i += 2;
        } else if chars[i + 1] == '(' {
            proof {
                scan::first_at_shift(chars@, ')', i as int, i + 2);
                scan::first_at_finds(rest, ')', 2);
            }
            match find_from(chars.as_slice(), ')', i + 2) {
                Some(close) => {
                    assert(close < chars.len());
                    let name = slice_string(chars.as_slice(), i + 2, close);
                    assert(name@ =~= rest.subrange(2, close - i));
                    assert(rest.skip(close - i + 1) =~= chars@.skip(close + 1));
                    match defined.get(name.as_str()) {
                        Some(v) => {
                            out.append(v.as_str());
                        },
                        None => {
                            let whole = slice_string(chars.as_slice(), i, close + 1);
                            assert(whole@ =~= rest.take(close - i + 1));
                            out.append(whole.as_str());
                        },
                    }
                    i = close + 1;
                },
                None => {
                    out.push('$');
                    i += 1;
                },
            }
        } else {
            out.push('$');
            i += 1;
        }
    }
    assert(chars@.skip(i as int) =~= Seq::<char>::empty());
    out
}

// ---- laws ----------------------------------------------------------------------------------

/// Text without a `$` is left as it stands.
pub proof fn plain_text_is_kept(s: Seq<char>, vars: Map<Seq<char>, Seq<char>>)
    requires
        forall|i: int| 0 <= i < s.len() ==> s[i] != '$',
    ensures
        expanded(s, vars) == s,
    decreases s.len(),
{
    if s.len() > 0 {
        assert forall|i: int| 0 <= i < s.skip(1).len() implies s.skip(1)[i] != '$' by {
            assert(s.skip(1)[i] == s[i + 1]);
        }
        plain_text_is_kept(s.skip(1), vars);
        assert(seq![s[0]] + s.skip(1) =~= s);
    }
}

/// Whether no reference in `s` names one of these variables.
pub open spec fn refers_to_none(s: Seq<char>, vars: Map<Seq<char>, Seq<char>>) -> bool {
    forall|a: int, b: int|
        2 <= a <= b < s.len() && s[a - 2] == '$' && s[a - 1] == '(' && s[b] == ')'
            ==> !vars.dom().contains(#[trigger] s.subrange(a, b))
}

/// References that name no variable are left exactly as they were written: without `$$`, text in
/// which no variable is named does not change, whatever variables there are.
pub proof fn undefined_is_verbatim(s: Seq<char>, vars: Map<Seq<char>, Seq<char>>)
    requires
        forall|i: int| 0 <= i < s.len() - 1 ==> !(s[i] == '$' && #[trigger] s[i + 1] == '$'),
        refers_to_none(s, vars),
    ensures
        expanded(s, vars) == s,
    decreases s.len(),
{
    if s.len() > 0 {
        assert forall|k: int| 0 < k <= s.len() implies expanded(#[trigger] s.skip(k), vars)
            == s.skip(k) by {
            let t = s.skip(k);
            assert forall|i: int| 0 <= i < t.len() - 1 implies !(t[i] == '$' && #[trigger] t[i + 1]
                == '$') by {
                assert(t[i] == s[i + k] && t[i + 1] == s[i + k + 1]);
            }
            assert forall|a: int, b: int|
                2 <= a <= b < t.len() && t[a - 2] == '$' && t[a - 1] == '(' && t[b]
                    == ')' implies !vars.dom().contains(#[trigger] t.subrange(a, b)) by {
                assert(t.subrange(a, b) =~= s.subrange(a + k, b + k));
            }
            undefined_is_verbatim(t, vars);
        }
        scan::first_at_finds(s, ')', 2);
        assert(seq![s[0]] + s.skip(1) =~= s);
        if s.len() > 1 {
            assert(!(s[0] == '$' && s[0int + 1] == '$'));
        }
        match scan::first_at(s, ')', 2) {
            Some(close) => {
                assert(s.take(close + 1) + s.skip(close + 1) =~= s);
                if s[0] == '$' && s[1] == '(' {
                    assert(!vars.dom().contains(s.subrange(2, close)));
                }
            },
            None => {},
        }
    }
}

/// A reference, written out.
pub open spec fn reference(name: Seq<char>) -> Seq<char> {
    seq!['$', '('] + name + seq![')']
}

proof fn a_reference_is_read(name: Seq<char>, rest: Seq<char>, vars: Map<Seq<char>, Seq<char>>)
    requires
        forall|i: int| 0 <= i < name.len() ==> name[i] != ')',
    ensures
        expanded(reference(name) + rest, vars) == (if vars.dom().contains(name) {
            vars[name]
        } else {
            reference(name)
        }) + expanded(rest, vars),
{
    let s = reference(name) + rest;
    scan::first_at_finds(s, ')', 2);
    let close: int = name.len() as int + 2;
    assert(s[close] == ')');
    assert forall|i: int| 2 <= i < close implies s[i] != ')' by {
        assert(s[i] == name[i - 2]);
    }
    assert(scan::first_at(s, ')', 2) == Some(close));
    assert(s.subrange(2, close) =~= name);
    assert(s.take(close + 1) =~= reference(name));
    assert(s.skip(close + 1) =~= rest);
}

/// A reference becomes the variable's value, character for character, even where that holds a
/// reference itself, and what is behind it is read on from there.
pub proof fn reference_becomes_value(
    name: Seq<char>,
    rest: Seq<char>,
    vars: Map<Seq<char>, Seq<char>>,
)
    requires
        vars.dom().contains(name),
        forall|i: int| 0 <= i < name.len() ==> name[i] != ')',
    ensures
        expanded(reference(name) + rest, vars) == vars[name] + expanded(rest, vars),
{
    a_reference_is_read(name, rest, vars);
}

/// A reference to a variable that there is not stays as it stands, whatever others there are.
pub proof fn unknown_reference_stays(
    name: Seq<char>,
    rest: Seq<char>,
    vars: Map<Seq<char>, Seq<char>>,
)
    requires
        !vars.dom().contains(name),
        forall|i: int| 0 <= i < name.len() ==> name[i] != ')',
    ensures
        expanded(reference(name) + rest, vars) == reference(name) + expanded(rest, vars),
{
    a_reference_is_read(name, rest, vars);
}

/// A doubled dollar becomes one, and refers to nothing: what is behind it is read on its own.
pub proof fn doubled_dollar_is_one(rest: Seq<char>, vars: Map<Seq<char>, Seq<char>>)
    ensures
        expanded(seq!['$', '$'] + rest, vars) == seq!['$'] + expanded(rest, vars),
{
    let s = seq!['$', '$'] + rest;
    assert(s.skip(2) =~= rest);
}

/// So a reference behind a doubled dollar comes out as it would be written, with one dollar,
/// whatever variables there are.
pub proof fn doubled_dollar_escapes(name: Seq<char>, vars: Map<Seq<char>, Seq<char>>)
    requires
        forall|i: int| 0 <= i < name.len() ==> name[i] != '$',
    ensures
        expanded(seq!['$'] + reference(name), vars) == reference(name),
{
    let tail = seq!['('] + name + seq![')'];
    assert(seq!['$'] + reference(name) =~= seq!['$', '$'] + tail);
    doubled_dollar_is_one(tail, vars);
    assert forall|i: int| 0 <= i < tail.len() implies tail[i] != '$' by {
        if 0 < i < tail.len() - 1 {
            assert(tail[i] == name[i - 1]);
        }
    }
    plain_text_is_kept(tail, vars);
    assert(seq!['$'] + tail =~= reference(name));
}

/// Any other character is kept, and so is a dollar that begins neither a reference nor a doubled one:
/// what is behind them is read on its own.
pub proof fn other_characters_are_kept(c: char, rest: Seq<char>, vars: Map<Seq<char>, Seq<char>>)
    requires
        c != '$' || rest.len() == 0 || (rest[0] != '$' && (rest[0] != '(' || forall|i: int|
            0 <= i < rest.len() ==> rest[i] != ')')),
    ensures
        expanded(seq![c] + rest, vars) == seq![c] + expanded(rest, vars),
        expanded(Seq::empty(), vars).len() == 0,
{
    let s = seq![c] + rest;
    assert(s.skip(1) =~= rest);
    if c == '$' && rest.len() > 0 {
        assert(s[1] == rest[0]);
        scan::first_at_finds(s, ')', 2);
        if rest[0] == '(' {
            if let Some(i) = scan::first_at(s, ')', 2) {
                assert(s[i] == rest[i - 1]);
            }
        }
    }
}

} // verus!
