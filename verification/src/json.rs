//! A JSON document as the rest of the library reads and writes it.

use vstd::prelude::*;
use crate::number;
use crate::scan::{self, split};
use crate::text::{self, chars_of, same};

verus! {

/// A JSON value. A number with a fraction or an exponent is kept as its text.
#[derive(Debug)]
pub enum Json {
    Null,
    Bool(bool),
    Int(i128),
    Decimal(String),
    Str(String),
    Arr(Vec<Json>),
    Obj(Vec<(String, Json)>),
}

/// Whether a value is made of texts, arrays and objects alone.
pub open spec fn textual(v: Json) -> bool
    decreases v,
{
    match v {
        Json::Str(_) => true,
        Json::Arr(items) => all_textual(items@),
        Json::Obj(fields) => textual_fields(fields@),
        _ => false,
    }
}

/// Whether each value of a list is textual.
pub open spec fn all_textual(items: Seq<Json>) -> bool
    decreases items,
{
    items.len() == 0 || (all_textual(items.drop_last()) && textual(items.last()))
}

/// Whether the value of each field is textual.
pub open spec fn textual_fields(fields: Seq<(String, Json)>) -> bool
    decreases fields,
{
    fields.len() == 0 || (textual_fields(fields.drop_last()) && textual(fields.last().1))
}

/// What a `Json` stands for: an object is a map from its keys.
#[verifier::ext_equal]
pub enum Doc {
    Null,
    Bool(bool),
    Int(int),
    Decimal(Seq<char>),
    Str(Seq<char>),
    Arr(Seq<Doc>),
    Obj(Map<Seq<char>, Doc>),
}

impl View for Json {
    type V = Doc;

    open spec fn view(&self) -> Doc {
        doc_of(*self)
    }
}

/// What a value stands for.
pub open spec fn doc_of(v: Json) -> Doc
    decreases v,
{
    match v {
        Json::Null => Doc::Null,
        Json::Bool(b) => Doc::Bool(b),
        Json::Int(n) => Doc::Int(n as int),
        Json::Decimal(s) => Doc::Decimal(s@),
        Json::Str(s) => Doc::Str(s@),
        Json::Arr(items) => Doc::Arr(docs(items@)),
        Json::Obj(fields) => Doc::Obj(entries(fields@)),
    }
}

/// What each value of a list stands for.
pub open spec fn docs(items: Seq<Json>) -> Seq<Doc>
    decreases items,
{
    if items.len() == 0 {
        Seq::empty()
    } else {
        docs(items.drop_last()).push(doc_of(items.last()))
    }
}

/// What a list of fields stands for: of two fields with one name, the later one counts.
pub open spec fn entries(fields: Seq<(String, Json)>) -> Map<Seq<char>, Doc>
    decreases fields,
{
    if fields.len() == 0 {
        Map::empty()
    } else {
        entries(fields.drop_last()).insert(fields.last().0@, doc_of(fields.last().1))
    }
}

/// A list of values and what they stand for have the same length, place by place.
pub broadcast proof fn docs_index(items: Seq<Json>)
    ensures
        (#[trigger] docs(items)).len() == items.len(),
        forall|i: int| 0 <= i < items.len() ==> #[trigger] docs(items)[i] == items[i]@,
    decreases items.len(),
{
    if items.len() > 0 {
        docs_index(items.drop_last());
        assert forall|i: int| 0 <= i < items.len() implies #[trigger] docs(items)[i]
            == items[i]@ by {
            if i < items.len() - 1 {
                assert(items.drop_last()[i] == items[i]);
                assert(docs(items)[i] == docs(items.drop_last())[i]);
            }
        }
    }
}

impl Doc {
    /// The value of a field of an object.
    pub open spec fn get(self, key: Seq<char>) -> Option<Doc> {
        match self {
            Doc::Obj(m) => if m.dom().contains(key) {
                Some(m[key])
            } else {
                None
            },
            _ => None,
        }
    }

    /// The value of a field of a field.
    pub open spec fn get2(self, a: Seq<char>, b: Seq<char>) -> Option<Doc> {
        match self.get(a) {
            Some(d) => d.get(b),
            None => None,
        }
    }

    /// The text of a string.
    pub open spec fn text(self) -> Option<Seq<char>> {
        match self {
            Doc::Str(s) => Some(s),
            _ => None,
        }
    }

    /// The text of a field that is a string.
    pub open spec fn str_at(self, key: Seq<char>) -> Option<Seq<char>> {
        match self.get(key) {
            Some(d) => d.text(),
            None => None,
        }
    }

    /// The text of a field of a field that is a string.
    pub open spec fn str_at2(self, a: Seq<char>, b: Seq<char>) -> Option<Seq<char>> {
        match self.get2(a, b) {
            Some(d) => d.text(),
            None => None,
        }
    }

    /// The items of an array.
    pub open spec fn arr(self) -> Option<Seq<Doc>> {
        match self {
            Doc::Arr(a) => Some(a),
            _ => None,
        }
    }

    /// The items of a field that is an array.
    pub open spec fn arr_at(self, key: Seq<char>) -> Option<Seq<Doc>> {
        match self.get(key) {
            Some(d) => d.arr(),
            None => None,
        }
    }

    /// The items of a field of a field that is an array.
    pub open spec fn arr_at2(self, a: Seq<char>, b: Seq<char>) -> Option<Seq<Doc>> {
        match self.get2(a, b) {
            Some(d) => d.arr(),
            None => None,
        }
    }

    /// The truth value of a field that is one.
    pub open spec fn bool_at(self, key: Seq<char>) -> Option<bool> {
        match self.get(key) {
            Some(Doc::Bool(b)) => Some(b),
            _ => None,
        }
    }

    /// The number of a field that is an `i64`.
    pub open spec fn int_at(self, key: Seq<char>) -> Option<int> {
        match self.get(key) {
            Some(Doc::Int(n)) => if i64::MIN <= n <= i64::MAX {
                Some(n)
            } else {
                None
            },
            _ => None,
        }
    }
}

/// Whether two optional references agree with an optional model value.
pub open spec fn same_doc(r: Option<&Json>, d: Option<Doc>) -> bool {
    match r {
        Some(v) => d == Some(v@),
        None => d is None,
    }
}

/// Whether an optional slice of text agrees with an optional model text.
pub open spec fn same_text(r: Option<&str>, d: Option<Seq<char>>) -> bool {
    match r {
        Some(s) => d == Some(s@),
        None => d is None,
    }
}

/// Whether an optional list agrees with an optional model list.
pub open spec fn same_list(r: Option<&Vec<Json>>, d: Option<Seq<Doc>>) -> bool {
    match r {
        Some(v) => d == Some(docs(v@)),
        None => d is None,
    }
}

proof fn entries_skip_last(fields: Seq<(String, Json)>, n: int, key: Seq<char>)
    requires
        0 <= n <= fields.len(),
        forall|j: int| n <= j < fields.len() ==> fields[j].0@ != key,
    ensures
        entries(fields).dom().contains(key) == entries(fields.take(n)).dom().contains(key),
        entries(fields).dom().contains(key) ==> entries(fields)[key] == entries(
            fields.take(n),
        )[key],
    decreases fields.len(),
{
    if n < fields.len() {
        assert(fields.drop_last().take(n) =~= fields.take(n));
        entries_skip_last(fields.drop_last(), n, key);
    } else {
        assert(fields.take(n) =~= fields);
    }
}

proof fn entries_update(fields: Seq<(String, Json)>, i: int, key: String, v: Json)
    requires
        0 <= i < fields.len(),
        fields[i].0@ == key@,
        forall|j: int| i < j < fields.len() ==> fields[j].0@ != key@,
    ensures
        entries(fields.update(i, (key, v))) == entries(fields).insert(key@, v@),
    decreases fields.len(),
{
    let new = fields.update(i, (key, v));
    if i == fields.len() - 1 {
        assert(new.drop_last() =~= fields.drop_last());
        assert(entries(new) =~= entries(fields).insert(key@, v@));
    } else {
        assert(new.drop_last() =~= fields.drop_last().update(i, (key, v)));
        entries_update(fields.drop_last(), i, key, v);
        assert(entries(new) =~= entries(fields).insert(key@, v@));
    }
}

proof fn textual_update(fields: Seq<(String, Json)>, i: int, f: (String, Json))
    requires
        0 <= i < fields.len(),
        textual_fields(fields),
        textual(f.1),
    ensures
        textual_fields(fields.update(i, f)),
    decreases fields.len(),
{
    let new = fields.update(i, f);
    if i == fields.len() - 1 {
        assert(new.drop_last() =~= fields.drop_last());
    } else {
        assert(new.drop_last() =~= fields.drop_last().update(i, f));
        textual_update(fields.drop_last(), i, f);
    }
}

/// The place of the last field named `key`.
fn last_field(fields: &Vec<(String, Json)>, key: &str) -> (r: Option<usize>)
    ensures
        match r {
            Some(i) => i < fields@.len() && fields@[i as int].0@ == key@ && forall|j: int|
                i < j < fields@.len() ==> fields@[j].0@ != key@,
            None => forall|j: int| 0 <= j < fields@.len() ==> fields@[j].0@ != key@,
        },
{
    let mut i: usize = fields.len();
    while i > 0
        invariant
            i <= fields@.len(),
            forall|j: int| i <= j < fields@.len() ==> fields@[j].0@ != key@,
        decreases i,
    {
        i -= 1;
        if same(fields[i].0.as_str(), key) {
            return Some(i);
        }
    }
    None
}

impl Json {
    /// The value of the field `key`, where this is an object that has it.
    pub fn get(&self, key: &str) -> (r: Option<&Json>)
        ensures
            same_doc(r, self@.get(key@)),
    {
        match self {
            Json::Obj(fields) => {
                match last_field(fields, key) {
                    Some(i) => {
                        proof {
                            entries_skip_last(fields@, i + 1, key@);
                            assert(fields@.take(i + 1).drop_last() =~= fields@.take(i as int));
                        }
                        Some(&fields[i].1)
                    },
                    None => {
                        proof {
                            entries_skip_last(fields@, 0, key@);
                        }
                        None
                    },
                }
            },
            _ => None,
        }
    }

    /// The value of the field `b` of the field `a`.
    pub fn get2(&self, a: &str, b: &str) -> (r: Option<&Json>)
        ensures
            same_doc(r, self@.get2(a@, b@)),
    {
        match self.get(a) {
            Some(v) => v.get(b),
            None => None,
        }
    }

    /// The text, where this is a string.
    pub fn as_str(&self) -> (r: Option<&str>)
        ensures
            same_text(r, self@.text()),
    {
        match self {
            Json::Str(s) => Some(s.as_str()),
            _ => None,
        }
    }

    /// The items, where this is an array.
    pub fn as_array(&self) -> (r: Option<&Vec<Json>>)
        ensures
            same_list(r, self@.arr()),
    {
        match self {
            Json::Arr(items) => Some(items),
            _ => None,
        }
    }

    /// The truth value, where this is one.
    pub fn as_bool(&self) -> (r: Option<bool>)
        ensures
            r == match self@ {
                Doc::Bool(b) => Some(b),
                _ => None,
            },
    {
        match self {
            Json::Bool(b) => Some(*b),
            _ => None,
        }
    }

    /// The number, where this is one that an `i64` holds.
    pub fn as_i64(&self) -> (r: Option<i64>)
        ensures
            match r {
                Some(n) => self@ == Doc::Int(n as int),
                None => self@ matches Doc::Int(n) ==> n < i64::MIN || n > i64::MAX,
            },
    {
        match self {
            Json::Int(n) => if -0x8000_0000_0000_0000 <= *n && *n <= 0x7fff_ffff_ffff_ffff {
                Some(*n as i64)
            } else {
                None
            },
            _ => None,
        }
    }

    /// Whether this is an object.
    pub fn is_object(&self) -> (r: bool)
        ensures
            r == (self@ is Obj),
    {
        match self {
            Json::Obj(_) => true,
            _ => false,
        }
    }

    /// The text of the field `key`.
    pub fn str_at(&self, key: &str) -> (r: Option<&str>)
        ensures
            same_text(r, self@.str_at(key@)),
    {
        match self.get(key) {
            Some(v) => v.as_str(),
            None => None,
        }
    }

    /// The text of the field `b` of the field `a`.
    pub fn str_at2(&self, a: &str, b: &str) -> (r: Option<&str>)
        ensures
            same_text(r, self@.str_at2(a@, b@)),
    {
        match self.get2(a, b) {
            Some(v) => v.as_str(),
            None => None,
        }
    }

    /// The items of the field `key`.
    pub fn arr_at(&self, key: &str) -> (r: Option<&Vec<Json>>)
        ensures
            same_list(r, self@.arr_at(key@)),
    {
        match self.get(key) {
            Some(v) => v.as_array(),
            None => None,
        }
    }

    /// The items of the field `b` of the field `a`.
    pub fn arr_at2(&self, a: &str, b: &str) -> (r: Option<&Vec<Json>>)
        ensures
            same_list(r, self@.arr_at2(a@, b@)),
    {
        match self.get2(a, b) {
            Some(v) => v.as_array(),
            None => None,
        }
    }

    /// A string.
    pub fn string(s: &str) -> (r: Json)
        ensures
            r@ == Doc::Str(s@),
            textual(r),
    {
        Json::Str(s.to_owned())
    }

    /// An object without fields.
    pub fn object() -> (r: Json)
        ensures
            r@ == Doc::Obj(Map::empty()),
            textual(r),
    {
        Json::Obj(Vec::new())
    }

    /// An array.
    pub fn array(items: Vec<Json>) -> (r: Json)
        ensures
            r@ == Doc::Arr(docs(items@)),
            textual(r) == all_textual(items@),
    {
        Json::Arr(items)
    }

    /// Gives the field `key` of an object the value `v`. What is no object stays as it is.
    pub fn set(&mut self, key: &str, v: Json)
        ensures
            match old(self)@ {
                Doc::Obj(m) => final(self)@ == Doc::Obj(m.insert(key@, v@)),
                _ => *final(self) == *old(self),
            },
            textual(*old(self)) && textual(v) ==> textual(*final(self)),
    {
        let ghost was_textual = textual(*self) && textual(v);
        match self {
            Json::Obj(fields) => {
                let ghost old_fields = fields@;
                let k = key.to_owned();
                match last_field(&*fields, key) {
                    Some(i) => {
                        proof {
                            entries_update(old_fields, i as int, k, v);
                            if was_textual {
                                textual_update(old_fields, i as int, (k, v));
                            }
                        }
                        fields.set(i, (k, v));
                    },
                    None => {
                        fields.push((k, v));
                        assert(fields@.drop_last() =~= old_fields);
                    },
                }
            },
            _ => {},
        }
    }

    /// This object with the field `key` given the value `v`.
    pub fn with(self, key: &str, v: Json) -> (r: Json)
        ensures
            match self@ {
                Doc::Obj(m) => r@ == Doc::Obj(m.insert(key@, v@)),
                _ => r == self,
            },
            textual(self) && textual(v) ==> textual(r),
    {
        let mut out = self;
        out.set(key, v);
        out
    }

    /// The names of the fields, where this is an object.
    pub fn keys(&self) -> (r: Option<Vec<String>>)
        ensures
            match self@ {
                Doc::Obj(m) => r matches Some(v) && forall|k: Seq<char>|
                    m.dom().contains(k) <==> #[trigger] text::texts(v@).contains(k),
                _ => r is None,
            },
    {
        match self {
            Json::Obj(fields) => {
                let mut out: Vec<String> = Vec::new();
                let mut i: usize = 0;
                while i < fields.len()
                    invariant
                        i <= fields@.len(),
                        forall|k: Seq<char>|
                            entries(fields@.take(i as int)).dom().contains(k)
                                <==> #[trigger] text::texts(out@).contains(k),
                    decreases fields@.len() - i,
                {
                    let ghost before = text::texts(out@);
                    let ghost name = fields@[i as int].0@;
                    assert(fields@.take(i + 1).drop_last() =~= fields@.take(i as int));
                    out.push(fields[i].0.clone());
                    assert(text::texts(out@) =~= before.push(name));
                    assert forall|k: Seq<char>|
                        entries(fields@.take(i + 1)).dom().contains(k)
                            <==> #[trigger] text::texts(out@).contains(k) by {
                        let p = before.push(name);
                        if before.contains(k) {
                            let j = choose|j: int| 0 <= j < before.len() && before[j] == k;
                            assert(p[j] == k);
                        }
                        if k == name {
                            assert(p[before.len() as int] == k);
                        }
                        if p.contains(k) {
                            let j = choose|j: int| 0 <= j < p.len() && p[j] == k;
                            if j < before.len() {
                                assert(before[j] == k);
                            }
                        }
                    }
                    i += 1;
                }
                assert(fields@.take(i as int) =~= fields@);
                Some(out)
            },
            _ => None,
        }
    }

    /// A copy.
    pub fn copy(&self) -> (r: Json)
        ensures
            r@ == self@,
        decreases self,
    {
        match self {
            Json::Null => Json::Null,
            Json::Bool(b) => Json::Bool(*b),
            Json::Int(n) => Json::Int(*n),
            Json::Decimal(s) => Json::Decimal(s.clone()),
            Json::Str(s) => Json::Str(s.clone()),
            Json::Arr(items) => {
                let mut out: Vec<Json> = Vec::new();
                let mut i: usize = 0;
                assert(docs(out@) =~= docs(items@.take(0)));
                while i < items.len()
                    invariant
                        i <= items@.len(),
                        docs(out@) == docs(items@.take(i as int)),
                        decreases_to!(self => items@),
                    decreases items@.len() - i,
                {
                    assert(decreases_to!(items@ => items@[i as int]));
                    let ghost before = out@;
                    out.push(items[i].copy());
                    assert(out@.drop_last() =~= before);
                    assert(items@.take(i + 1).drop_last() =~= items@.take(i as int));
                    i += 1;
                }
                assert(items@.take(i as int) =~= items@);
                Json::Arr(out)
            },
            Json::Obj(fields) => {
                let mut out: Vec<(String, Json)> = Vec::new();
                let mut i: usize = 0;
                assert(entries(out@) =~= entries(fields@.take(0)));
                while i < fields.len()
                    invariant
                        i <= fields@.len(),
                        entries(out@) == entries(fields@.take(i as int)),
                        decreases_to!(self => fields@),
                    decreases fields@.len() - i,
                {
                    assert(decreases_to!(fields@ => fields@[i as int]));
                    assert(decreases_to!(fields@[i as int] => fields@[i as int].1));
                    let ghost before = out@;
                    let v = fields[i].1.copy();
                    out.push((fields[i].0.clone(), v));
                    assert(out@.drop_last() =~= before);
                    assert(fields@.take(i + 1).drop_last() =~= fields@.take(i as int));
                    i += 1;
                }
                assert(fields@.take(i as int) =~= fields@);
                Json::Obj(out)
            },
        }
    }
}

// ---- pointers ------------------------------------------------------------------------------

/// `s` with each `a` that `b` follows replaced, together with it, by `c`.
pub open spec fn replaced(s: Seq<char>, a: char, b: char, c: char) -> Seq<char>
    decreases s.len(),
{
    if s.len() == 0 {
        s
    } else if s.len() >= 2 && s[0] == a && s[1] == b {
        seq![c] + replaced(s.skip(2), a, b, c)
    } else {
        seq![s[0]] + replaced(s.skip(1), a, b, c)
    }
}

fn replace(s: &str, a: char, b: char, c: char) -> (r: String)
    ensures
        r@ == replaced(s@, a, b, c),
{
    let chars = chars_of(s);
    let mut out = String::new();
    let mut i: usize = 0;
    assert(chars@.skip(0) =~= chars@);
    while i < chars.len()
        invariant
            i <= chars@.len(),
            chars@ == s@,
            out@ + replaced(chars@.skip(i as int), a, b, c) =~= replaced(s@, a, b, c),
        decreases chars@.len() - i,
    {
        let ghost rest = chars@.skip(i as int);
        if chars.len() - i >= 2 && chars[i] == a && chars[i + 1] == b {
            assert(rest.skip(2) =~= chars@.skip(i + 2));
            out.push(c);
            i += 2;
        } else {
            assert(rest.skip(1) =~= chars@.skip(i + 1));
            out.push(chars[i]);
            i += 1;
        }
    }
    out
}

/// A step of a pointer as it is looked up: `~1` stands for `/`, then `~0` for `~`.
pub open spec fn token(s: Seq<char>) -> Seq<char> {
    replaced(replaced(s, '~', '1', '/'), '~', '0', '~')
}

/// The place in an array that a step names: digits, without a leading zero.
pub open spec fn place(s: Seq<char>) -> Option<nat> {
    if s.len() > 1 && s[0] == '0' {
        None
    } else {
        number::read_digits(s)
    }
}

impl Doc {
    /// What one step of a pointer leads to.
    pub open spec fn step(self, t: Seq<char>) -> Option<Doc> {
        match self {
            Doc::Obj(m) => self.get(t),
            Doc::Arr(a) => match place(t) {
                Some(n) => if n < a.len() {
                    Some(a[n as int])
                } else {
                    None
                },
                None => None,
            },
            _ => None,
        }
    }

    /// What the steps lead to, one behind the other.
    pub open spec fn walk(self, steps: Seq<Seq<char>>) -> Option<Doc>
        decreases steps.len(),
    {
        if steps.len() == 0 {
            Some(self)
        } else {
            match self.step(token(steps[0])) {
                Some(d) => d.walk(steps.skip(1)),
                None => None,
            }
        }
    }

    /// What a pointer leads to: the steps stand behind the `/` of `p`.
    pub open spec fn at(self, p: Seq<char>) -> Option<Doc> {
        if p.len() == 0 {
            Some(self)
        } else if p[0] != '/' {
            None
        } else {
            self.walk(scan::pieces(p, '/').skip(1))
        }
    }
}

impl Json {
    fn step(&self, t: &str) -> (r: Option<&Json>)
        ensures
            same_doc(r, self@.step(t@)),
    {
        broadcast use docs_index;

        match self {
            Json::Obj(fields) => {
                assert(self@ == Doc::Obj(entries(fields@)));
                self.get(t)
            },
            Json::Arr(items) => {
                let c = chars_of(t);
                if c.len() > 1 && c[0] == '0' {
                    None
                } else {
                    let len: u64 = items.len() as u64;
                    assert(self@ == Doc::Arr(docs(items@)));
                    assert(docs(items@).len() == len);
                    match number::parse_digits(t) {
                        Some(n) => if n < len {
                            Some(&items[n as usize])
                        } else {
                            None
                        },
                        None => None,
                    }
                }
            },
            _ => None,
        }
    }

    /// What the pointer `p` leads to.
    pub fn pointer(&self, p: &str) -> (r: Option<&Json>)
        ensures
            same_doc(r, self@.at(p@)),
    {
        let chars = chars_of(p);
        if chars.len() == 0 {
            return Some(self);
        }
        if chars[0] != '/' {
            return None;
        }
        let steps = split(p, '/');
        let ghost all = text::texts(steps@);
        let mut here: &Json = self;
        let mut i: usize = 1;
        while i < steps.len()
            invariant
                1 <= i <= steps@.len(),
                all == text::texts(steps@),
                here@.walk(all.skip(i as int)) == self@.at(p@),
            decreases steps@.len() - i,
        {
            let t = replace(replace(steps[i].as_str(), '~', '1', '/').as_str(), '~', '0', '~');
            assert(all.skip(i as int)[0] == steps@[i as int]@);
            assert(all.skip(i as int).skip(1) =~= all.skip(i + 1));
            match here.step(t.as_str()) {
                Some(v) => {
                    here = v;
                },
                None => {
                    return None;
                },
            }
            i += 1;
        }
        Some(here)
    }
}

// ---- text ----------------------------------------------------------------------------------

/// A JSON value of serde_json.
#[verifier::external_type_specification]
#[verifier::external_body]
pub struct ExSerdeValue(serde_json::Value);

/// What a value of serde_json holds.
pub uninterp spec fn json_contents(v: serde_json::Value) -> Doc;

/// What serde_json writes for a value that holds `d`.
pub uninterp spec fn json_text(d: Doc) -> Seq<char>;

/// What values of serde_json hold.
pub open spec fn all_contents(v: Seq<serde_json::Value>) -> Seq<Doc> {
    v.map_values(|x: serde_json::Value| json_contents(x))
}

/// What fields of serde_json hold: of two fields with one name, the later one counts.
pub open spec fn field_contents(v: Seq<(String, serde_json::Value)>) -> Map<Seq<char>, Doc>
    decreases v.len(),
{
    if v.len() == 0 {
        Map::empty()
    } else {
        field_contents(v.drop_last()).insert(v.last().0@, json_contents(v.last().1))
    }
}

/// `From<&str>` of `serde_json::Value`: a string that holds the text.
#[verifier::external_body]
fn serde_string(s: &str) -> (r: serde_json::Value)
    ensures
        json_contents(r) == Doc::Str(s@),
{
    serde_json::Value::from(s)
}

/// `From<Vec<Value>>` of `serde_json::Value`: an array that holds the values, in order.
#[verifier::external_body]
fn serde_array(items: Vec<serde_json::Value>) -> (r: serde_json::Value)
    ensures
        json_contents(r) == Doc::Arr(all_contents(items@)),
{
    serde_json::Value::from(items)
}

/// `FromIterator<(String, Value)>` of `serde_json::Value`: an object that holds the fields, of
/// which a later one takes the place of an earlier one with its name.
#[verifier::external_body]
fn serde_object(fields: Vec<(String, serde_json::Value)>) -> (r: serde_json::Value)
    ensures
        json_contents(r) == Doc::Obj(field_contents(fields@)),
{
    serde_json::Value::from_iter(fields)
}

proof fn textual_items(items: Seq<Json>, i: int)
    requires
        all_textual(items),
        0 <= i < items.len(),
    ensures
        textual(items[i]),
    decreases items.len(),
{
    if i < items.len() - 1 {
        textual_items(items.drop_last(), i);
    }
}

proof fn textual_values(fields: Seq<(String, Json)>, i: int)
    requires
        textual_fields(fields),
        0 <= i < fields.len(),
    ensures
        textual(fields[i].1),
    decreases fields.len(),
{
    if i < fields.len() - 1 {
        textual_values(fields.drop_last(), i);
    }
}

fn to_serde(v: &Json) -> (r: serde_json::Value)
    requires
        textual(*v),
    ensures
        json_contents(r) == v@,
    decreases v,
{
    match v {
        Json::Arr(items) => {
            let mut out: Vec<serde_json::Value> = Vec::new();
            let mut i: usize = 0;
            assert(all_contents(out@) =~= docs(items@.take(0)));
            while i < items.len()
                invariant
                    i <= items@.len(),
                    all_textual(items@),
                    all_contents(out@) == docs(items@.take(i as int)),
                    decreases_to!(v => items@),
                decreases items@.len() - i,
            {
                assert(decreases_to!(items@ => items@[i as int]));
                proof {
                    textual_items(items@, i as int);
                }
                let ghost before = out@;
                let x = to_serde(&items[i]);
                out.push(x);
                assert(all_contents(out@) =~= all_contents(before).push(json_contents(x)));
                assert(items@.take(i + 1).drop_last() =~= items@.take(i as int));
                i += 1;
            }
            assert(items@.take(i as int) =~= items@);
            serde_array(out)
        },
        Json::Obj(fields) => {
            let mut out: Vec<(String, serde_json::Value)> = Vec::new();
            let mut i: usize = 0;
            assert(field_contents(out@) =~= entries(fields@.take(0)));
            while i < fields.len()
                invariant
                    i <= fields@.len(),
                    textual_fields(fields@),
                    field_contents(out@) == entries(fields@.take(i as int)),
                    decreases_to!(v => fields@),
                decreases fields@.len() - i,
            {
                assert(decreases_to!(fields@ => fields@[i as int]));
                assert(decreases_to!(fields@[i as int] => fields@[i as int].1));
                proof {
                    textual_values(fields@, i as int);
                }
                let ghost before = out@;
                let x = to_serde(&fields[i].1);
                out.push((fields[i].0.clone(), x));
                assert(out@.drop_last() =~= before);
                assert(fields@.take(i + 1).drop_last() =~= fields@.take(i as int));
                i += 1;
            }
            assert(fields@.take(i as int) =~= fields@);
            serde_object(out)
        },
        Json::Str(s) => serde_string(s.as_str()),
        _ => serde_string(""),
    }
}

/// `to_string` of a `serde_json::Value`, by way of its `Display`: the compact text, which depends
/// on nothing but what the value holds. How strings are escaped is left unsaid.
#[verifier::external_body]
fn serde_text(v: &serde_json::Value) -> (r: String)
    ensures
        r@ == json_text(json_contents(*v)),
{
    v.to_string()
}

impl Json {
    /// The text of a value made of texts, arrays and objects.
    pub fn to_json(&self) -> (r: String)
        requires
            textual(*self),
        ensures
            r@ == json_text(self@),
    {
        serde_text(&to_serde(self))
    }
}

// ---- laws ----------------------------------------------------------------------------------

proof fn nothing_to_replace(s: Seq<char>, a: char, b: char, c: char)
    requires
        forall|i: int| 0 <= i < s.len() ==> (#[trigger] s[i]) != a,
    ensures
        replaced(s, a, b, c) == s,
    decreases s.len(),
{
    if s.len() > 0 {
        let t = s.skip(1);
        assert forall|i: int| 0 <= i < t.len() implies (#[trigger] t[i]) != a by {
            assert(t[i] == s[i + 1]);
        }
        nothing_to_replace(t, a, b, c);
        assert(seq![s[0]] + t =~= s);
    }
}

/// A pointer of two names leads to the field of the second name of the field of the first.
pub proof fn a_pointer_leads_from_field_to_field(d: Doc, a: Seq<char>, b: Seq<char>)
    requires
        forall|i: int| 0 <= i < a.len() ==> (#[trigger] a[i]) != '/' && a[i] != '~',
        forall|i: int| 0 <= i < b.len() ==> (#[trigger] b[i]) != '/' && b[i] != '~',
        d is Obj,
        d.get(a) matches Some(e) ==> e is Obj,
    ensures
        d.at(seq!['/'] + a + seq!['/'] + b) == d.get2(a, b),
{
    let p = seq!['/'] + a + seq!['/'] + b;
    let all = seq![Seq::<char>::empty(), a, b];
    let two = seq![a, b];
    assert(all =~= seq![Seq::<char>::empty()] + two);
    assert(two =~= seq![a] + seq![b]);
    scan::glued_begins(a, seq![b], seq!['/']);
    scan::how_texts_are_put_together(Seq::empty(), seq!['/'], b);
    scan::glued_begins(Seq::empty(), two, seq!['/']);
    assert(scan::glued(all, seq!['/']) =~= p);
    assert forall|k: int, j: int| 0 <= k < all.len() && 0 <= j < all[k].len() implies #[trigger] all[k][j]
        != '/' by {
        if k == 1 {
            assert(all[1] == a);
        } else if k == 2 {
            assert(all[2] == b);
        }
    }
    scan::what_was_put_together_comes_apart(all, '/');
    let steps = scan::pieces(p, '/').skip(1);
    assert(steps =~= two);
    nothing_to_replace(a, '~', '1', '/');
    nothing_to_replace(a, '~', '0', '~');
    nothing_to_replace(b, '~', '1', '/');
    nothing_to_replace(b, '~', '0', '~');
    assert(token(a) == a);
    assert(token(b) == b);
    assert(steps.skip(1) =~= seq![b]);
    assert(seq![b].skip(1) =~= Seq::<Seq<char>>::empty());
    match d.get(a) {
        Some(e) => {
            assert(e.walk(seq![b]) == match e.step(b) {
                Some(f) => f.walk(Seq::empty()),
                None => None,
            });
        },
        None => {},
    }
}

/// What a value stands for is told by its form, its items in order and its fields by name; of two
/// fields with one name the later counts.
pub proof fn what_a_value_stands_for(
    items: Seq<Json>,
    fields: Seq<(String, Json)>,
    key: String,
    v: Json,
    other: Seq<char>,
)
    ensures
        docs(items.push(v)) == docs(items).push(doc_of(v)),
        docs(Seq::empty()).len() == 0,
        entries(fields.push((key, v))).dom().contains(key@),
        entries(fields.push((key, v)))[key@] == doc_of(v),
        other != key@ ==> entries(fields.push((key, v))).dom().contains(other) == entries(
            fields,
        ).dom().contains(other) && (entries(fields).dom().contains(other) ==> entries(
            fields.push((key, v)),
        )[other] == entries(fields)[other]),
        doc_of(Json::Null) is Null,
        v matches Json::Bool(b) ==> doc_of(v) == Doc::Bool(b),
        v matches Json::Int(n) ==> doc_of(v) == Doc::Int(n as int),
        v matches Json::Str(s) ==> doc_of(v) == Doc::Str(s@),
{
    assert(items.push(v).drop_last() =~= items);
    assert(fields.push((key, v)).drop_last() =~= fields);
}

/// A field of an object is found by its name, and there is none of anything else.
pub proof fn how_fields_are_found(m: Map<Seq<char>, Doc>, key: Seq<char>, d: Doc, s: Seq<char>)
    ensures
        m.dom().contains(key) ==> Doc::Obj(m).get(key) == Some(m[key]),
        !m.dom().contains(key) ==> Doc::Obj(m).get(key) is None,
        !(d is Obj) ==> d.get(key) is None,
        d.str_at(key) == Some(s) <==> d.get(key) == Some(Doc::Str(s)),
        forall|b: bool| d.bool_at(key) == Some(b) <==> d.get(key) == Some(Doc::Bool(b)),
        forall|a: Seq<Doc>| d.arr_at(key) == Some(a) <==> d.get(key) == Some(Doc::Arr(a)),
        forall|n: int|
            i64::MIN <= n <= i64::MAX ==> (d.int_at(key) == Some(n) <==> d.get(key) == Some(
                Doc::Int(n),
            )),
{
}

} // verus!
