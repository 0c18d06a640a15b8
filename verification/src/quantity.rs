//! Amounts of a resource as a manifest writes them: `500m`, `1Gi`, `1.5`.

use vstd::prelude::*;
use crate::json::{Doc, Json};
use crate::number::{self, decimal_i128, parse_digits};
use crate::scan::{self, split_once};
use crate::text::{cat2, chars_of, same, slice_string};

verus! {

/// The unit in which an amount is counted.
#[derive(Clone, Copy, Debug, PartialEq, Eq, Structural)]
pub enum QuantityUnit {
    /// Thousandths of a processor.
    MilliCores,
    /// Bytes.
    Bytes,
}

/// How many units the amount `1` is.
pub open spec fn scale(unit: QuantityUnit) -> nat {
    match unit {
        QuantityUnit::MilliCores => 1000,
        QuantityUnit::Bytes => 1,
    }
}

/// What a suffix multiplies by and divides by.
pub open spec fn factor(s: Seq<char>) -> Option<(nat, nat)> {
    if s.len() == 0 {
        Some((1, 1))
    } else if s == "n"@ {
        Some((1, 1_000_000_000))
    } else if s == "u"@ {
        Some((1, 1_000_000))
    } else if s == "m"@ {
        Some((1, 1000))
    } else if s == "k"@ {
        Some((1000, 1))
    } else if s == "M"@ {
        Some((1_000_000, 1))
    } else if s == "G"@ {
        Some((1_000_000_000, 1))
    } else if s == "T"@ {
        Some((1_000_000_000_000, 1))
    } else if s == "P"@ {
        Some((1_000_000_000_000_000, 1))
    } else if s == "E"@ {
        Some((1_000_000_000_000_000_000, 1))
    } else if s == "Ki"@ {
        Some((0x400, 1))
    } else if s == "Mi"@ {
        Some((0x10_0000, 1))
    } else if s == "Gi"@ {
        Some((0x4000_0000, 1))
    } else if s == "Ti"@ {
        Some((0x100_0000_0000, 1))
    } else if s == "Pi"@ {
        Some((0x4_0000_0000_0000, 1))
    } else if s == "Ei"@ {
        Some((0x1000_0000_0000_0000, 1))
    } else {
        None
    }
}

/// Whether a character belongs to the number in front of the suffix.
pub open spec fn in_number(c: char) -> bool {
    number::digit_value(c) is Some || c == '.'
}

/// How many characters the number in front of the suffix has.
pub open spec fn number_len(s: Seq<char>) -> nat
    decreases s.len(),
{
    if s.len() == 0 || !in_number(s[0]) {
        0
    } else {
        1 + number_len(s.skip(1))
    }
}

/// Ten to the power of `n`.
pub open spec fn ten_to(n: nat) -> nat
    decreases n,
{
    if n == 0 {
        1
    } else {
        10 * ten_to((n - 1) as nat)
    }
}

/// The digits before and behind the point.
pub open spec fn digits_of(num: Seq<char>) -> (Seq<char>, Seq<char>) {
    match scan::halves(num, '.') {
        Some((a, b)) => (a, b),
        None => (num, Seq::empty()),
    }
}

/// `a / b`, rounded up.
pub open spec fn rounded_up(a: int, b: int) -> int {
    a / b + if a % b != 0 {
        1int
    } else {
        0int
    }
}

/// The amount that digits and a suffix stand for, in units, rounded up: nothing where the number
/// has more than eighteen digits behind the point or does not fit.
pub open spec fn amount(
    whole: Seq<char>,
    frac: Seq<char>,
    suffix: Seq<char>,
    unit: QuantityUnit,
) -> Option<int> {
    match (number::read_digits(whole + frac), factor(suffix)) {
        (Some(n), Some((mul, div))) => {
            let top = n * mul * scale(unit);
            let bottom = ten_to(frac.len()) * div;
            if frac.len() <= 18 && n <= u64::MAX && top <= u128::MAX && rounded_up(
                top as int,
                bottom as int,
            ) <= i64::MAX {
                Some(rounded_up(top as int, bottom as int))
            } else {
                None
            }
        },
        _ => None,
    }
}

/// The amount that a text stands for, in units.
pub open spec fn quantity(s: Seq<char>, unit: QuantityUnit) -> Option<int> {
    let k = number_len(s) as int;
    let (whole, frac) = digits_of(s.take(k));
    amount(whole, frac, s.skip(k), unit)
}

fn factor_of(s: &str) -> (r: Option<(u128, u128)>)
    ensures
        match r {
            Some((a, b)) => factor(s@) == Some((a as nat, b as nat)) && 1 <= a
                <= 0x1000_0000_0000_0000 && 1 <= b <= 1_000_000_000,
            None => factor(s@) is None,
        },
{
    if s.is_empty() {
        return Some((1, 1));
    }
    if same(s, "n") {
        Some((1, 1_000_000_000))
    } else if same(s, "u") {
        Some((1, 1_000_000))
    } else if same(s, "m") {
        Some((1, 1000))
    } else if same(s, "k") {
        Some((1000, 1))
    } else if same(s, "M") {
        Some((1_000_000, 1))
    } else if same(s, "G") {
        Some((1_000_000_000, 1))
    } else if same(s, "T") {
        Some((1_000_000_000_000, 1))
    } else if same(s, "P") {
        Some((1_000_000_000_000_000, 1))
    } else if same(s, "E") {
        Some((1_000_000_000_000_000_000, 1))
    } else if same(s, "Ki") {
        Some((0x400, 1))
    } else if same(s, "Mi") {
        Some((0x10_0000, 1))
    } else if same(s, "Gi") {
        Some((0x4000_0000, 1))
    } else if same(s, "Ti") {
        Some((0x100_0000_0000, 1))
    } else if same(s, "Pi") {
        Some((0x4_0000_0000_0000, 1))
    } else if same(s, "Ei") {
        Some((0x1000_0000_0000_0000, 1))
    } else {
        None
    }
}

fn ten_to_the(n: usize) -> (r: u128)
    requires
        n <= 18,
    ensures
        r == ten_to(n as nat),
        1 <= r <= 1_000_000_000_000_000_000,
    decreases n,
{
    reveal_with_fuel(ten_to, 20);
    match n {
        0 => 1,
        1 => 10,
        2 => 100,
        3 => 1_000,
        4 => 10_000,
        5 => 100_000,
        6 => 1_000_000,
        7 => 10_000_000,
        8 => 100_000_000,
        9 => 1_000_000_000,
        10 => 10_000_000_000,
        11 => 100_000_000_000,
        12 => 1_000_000_000_000,
        13 => 10_000_000_000_000,
        14 => 100_000_000_000_000,
        15 => 1_000_000_000_000_000,
        16 => 10_000_000_000_000_000,
        17 => 100_000_000_000_000_000,
        _ => 1_000_000_000_000_000_000,
    }
}

/// The amount that a text stands for, in units.
pub fn parse_quantity(s: &str, unit: QuantityUnit) -> (r: Option<i64>)
    ensures
        match r {
            Some(n) => quantity(s@, unit) == Some(n as int) && n >= 0,
            None => quantity(s@, unit) is None,
        },
{
    let chars = chars_of(s);
    let mut k: usize = 0;
    assert(chars@.skip(0) =~= chars@);
    while k < chars.len() && (('0' <= chars[k] && chars[k] <= '9') || chars[k] == '.')
        invariant
            k <= chars@.len(),
            number_len(chars@) == k + number_len(chars@.skip(k as int)),
        decreases chars@.len() - k,
    {
        assert(chars@.skip(k as int).skip(1) =~= chars@.skip(k + 1));
        k += 1;
    }
    assert(number_len(chars@.skip(k as int)) == 0);
    let num = slice_string(chars.as_slice(), 0, k);
    let suffix = slice_string(chars.as_slice(), k, chars.len());
    assert(num@ =~= s@.take(k as int));
    assert(suffix@ =~= s@.skip(k as int));
    let (whole, frac): (String, String) = match split_once(num.as_str(), '.') {
        Some((a, b)) => (a, b),
        None => (num, String::new()),
    };
    assert(digits_of(s@.take(k as int)) == (whole@, frac@)) by {
        assert(frac@ =~= Seq::<char>::empty() || scan::halves(num@, '.') is Some);
    }
    let places = frac.as_str().unicode_len();
    let digits = cat2(whole.as_str(), frac.as_str());
    let n = match parse_digits(digits.as_str()) {
        Some(n) => n as u128,
        None => {
            return None;
        },
    };
    let (mul, div): (u128, u128) = match factor_of(suffix.as_str()) {
        Some(f) => f,
        None => {
            return None;
        },
    };
    if places > 18 {
        return None;
    }
    let unit_scale: u128 = match unit {
        QuantityUnit::MilliCores => 1000,
        QuantityUnit::Bytes => 1,
    };
    let scaled = match n.checked_mul(mul) {
        Some(x) => x,
        None => {
            proof {
                assert(n * mul <= u64::MAX * 0x1000_0000_0000_0000) by (nonlinear_arith)
                    requires
                        n <= u64::MAX,
                        mul <= 0x1000_0000_0000_0000,
                ;
            }
            return None;
        },
    };
    let top = match scaled.checked_mul(unit_scale) {
        Some(x) => x,
        None => {
            return None;
        },
    };
    let tens = ten_to_the(places);
    assert(1 <= tens * div <= 1_000_000_000_000_000_000 * 1_000_000_000) by (nonlinear_arith)
        requires
            1 <= tens <= 1_000_000_000_000_000_000,
            1 <= div <= 1_000_000_000,
    ;
    let bottom: u128 = tens * div;
    let quotient: u128 = top / bottom;
    let rest: u128 = top % bottom;
    let limit: u128 = 0x7fff_ffff_ffff_ffff;
    let up: u128 = if rest != 0 {
        1
    } else {
        0
    };
    proof {
        assert(rounded_up(top as int, bottom as int) == quotient + up);
    }
    if quotient > limit - up {
        return None;
    }
    Some((quotient + up) as i64)
}

/// What a container says of one resource.
#[derive(Debug, PartialEq, Eq)]
pub enum ResourceBound {
    /// This amount, in units.
    Amount(i64),
    /// Nothing.
    Unset,
    /// Something that is no amount.
    Unparseable(String),
}

/// What a `ResourceBound` stands for.
pub enum BoundView {
    Amount(int),
    Unset,
    Unparseable(Seq<char>),
}

impl View for ResourceBound {
    type V = BoundView;

    open spec fn view(&self) -> BoundView {
        match self {
            ResourceBound::Amount(n) => BoundView::Amount(*n as int),
            ResourceBound::Unset => BoundView::Unset,
            ResourceBound::Unparseable(s) => BoundView::Unparseable(s@),
        }
    }
}

/// What a text says of a resource.
pub open spec fn bound_of_text(s: Seq<char>, unit: QuantityUnit) -> BoundView {
    match quantity(s, unit) {
        Some(n) => BoundView::Amount(n),
        None => BoundView::Unparseable(s),
    }
}

/// What a field of a list of resources says: a text, or a number as its text.
pub open spec fn bound_of(bucket: Option<Doc>, field: Seq<char>, unit: QuantityUnit) -> BoundView {
    match bucket {
        None => BoundView::Unset,
        Some(b) => match b.get(field) {
            None => BoundView::Unset,
            Some(Doc::Str(s)) => bound_of_text(s, unit),
            Some(Doc::Int(n)) => bound_of_text(number::decimal(n), unit),
            Some(Doc::Decimal(s)) => bound_of_text(s, unit),
            Some(_) => BoundView::Unparseable(""@),
        },
    }
}

impl ResourceBound {
    /// What a text says of a resource.
    pub fn of_text(s: &str, unit: QuantityUnit) -> (r: ResourceBound)
        ensures
            r@ == bound_of_text(s@, unit),
            r matches ResourceBound::Amount(n) ==> n >= 0,
    {
        match parse_quantity(s, unit) {
            Some(n) => ResourceBound::Amount(n),
            None => ResourceBound::Unparseable(s.to_owned()),
        }
    }

    /// What the field `field` of a list of resources says.
    pub fn read(bucket: Option<&Json>, field: &str, unit: QuantityUnit) -> (r: ResourceBound)
        ensures
            r@ == bound_of(crate::node_lease::doc_opt(bucket), field@, unit),
            r matches ResourceBound::Amount(n) ==> n >= 0,
    {
        match bucket {
            None => ResourceBound::Unset,
            Some(b) => match b.get(field) {
                None => ResourceBound::Unset,
                Some(v) => match v {
                    Json::Str(s) => ResourceBound::of_text(s.as_str(), unit),
                    Json::Int(n) => ResourceBound::of_text(decimal_i128(*n).as_str(), unit),
                    Json::Decimal(s) => ResourceBound::of_text(s.as_str(), unit),
                    _ => ResourceBound::Unparseable("".to_owned()),
                },
            },
        }
    }

    /// The amount, where there is one.
    pub fn value(&self) -> (r: Option<i64>)
        ensures
            r == match self {
                ResourceBound::Amount(n) => Some(*n),
                _ => None,
            },
    {
        match self {
            ResourceBound::Amount(n) => Some(*n),
            _ => None,
        }
    }

    /// A copy.
    pub fn copy(&self) -> (r: ResourceBound)
        ensures
            r == *self,
    {
        match self {
            ResourceBound::Amount(n) => ResourceBound::Amount(*n),
            ResourceBound::Unset => ResourceBound::Unset,
            ResourceBound::Unparseable(s) => ResourceBound::Unparseable(s.clone()),
        }
    }
}

/// The resources of a container.
#[derive(Debug, PartialEq, Eq)]
pub struct Resources {
    pub cpu_limit_milli: ResourceBound,
    pub cpu_request_milli: ResourceBound,
    pub memory_limit_bytes: ResourceBound,
}

/// What a `Resources` stands for.
pub struct ResourcesView {
    pub cpu_limit_milli: BoundView,
    pub cpu_request_milli: BoundView,
    pub memory_limit_bytes: BoundView,
}

impl View for Resources {
    type V = ResourcesView;

    open spec fn view(&self) -> ResourcesView {
        ResourcesView {
            cpu_limit_milli: self.cpu_limit_milli@,
            cpu_request_milli: self.cpu_request_milli@,
            memory_limit_bytes: self.memory_limit_bytes@,
        }
    }
}

/// The resources that the manifest of a container states.
pub open spec fn resources_of(c: Doc) -> ResourcesView {
    let limits = c.get2("resources"@, "limits"@);
    let requests = c.get2("resources"@, "requests"@);
    ResourcesView {
        cpu_limit_milli: bound_of(limits, "cpu"@, QuantityUnit::MilliCores),
        cpu_request_milli: bound_of(requests, "cpu"@, QuantityUnit::MilliCores),
        memory_limit_bytes: bound_of(limits, "memory"@, QuantityUnit::Bytes),
    }
}

impl Default for Resources {
    fn default() -> (r: Resources)
        ensures
            r.cpu_limit_milli is Unset,
            r.cpu_request_milli is Unset,
            r.memory_limit_bytes is Unset,
    {
        Resources {
            cpu_limit_milli: ResourceBound::Unset,
            cpu_request_milli: ResourceBound::Unset,
            memory_limit_bytes: ResourceBound::Unset,
        }
    }
}

/// The amount in a bound.
pub open spec fn set_to(b: ResourceBound) -> Option<i64> {
    match b {
        ResourceBound::Amount(n) => Some(n),
        _ => None,
    }
}

/// The weight that a number of thousandths of a processor gives a container against others.
pub open spec fn weight_of(milli: int) -> int {
    let shares = milli * 1024 / 1000;
    let kept = if shares < 2 {
        2
    } else if shares > 262144 {
        262144
    } else {
        shares
    };
    1 + (kept - 2) * 9999 / 262142
}

impl Resources {
    /// The resources that the manifest of a container states.
    pub fn from_container_json(c: &Json) -> (r: Resources)
        ensures
            r@ == resources_of(c@),
    {
        let limits = c.get2("resources", "limits");
        let requests = c.get2("resources", "requests");
        Resources {
            cpu_limit_milli: ResourceBound::read(limits, "cpu", QuantityUnit::MilliCores),
            cpu_request_milli: ResourceBound::read(requests, "cpu", QuantityUnit::MilliCores),
            memory_limit_bytes: ResourceBound::read(limits, "memory", QuantityUnit::Bytes),
        }
    }

    /// Whether no amount is stated.
    pub fn is_unset(&self) -> (r: bool)
        ensures
            r == (set_to(self.cpu_limit_milli) is None && set_to(self.cpu_request_milli) is None
                && set_to(self.memory_limit_bytes) is None),
    {
        self.cpu_limit_milli.value().is_none() && self.cpu_request_milli.value().is_none()
            && self.memory_limit_bytes.value().is_none()
    }

    /// The container's weight against others, where it requests a part of a processor.
    pub fn cpu_weight(&self) -> (r: Option<i64>)
        ensures
            match set_to(self.cpu_request_milli) {
                None => r is None,
                Some(m) => r matches Some(w) && w == weight_of(m as int) && 1 <= w <= 10000,
            },
    {
        match self.cpu_request_milli.value() {
            None => None,
            Some(milli) => {
                let m: i128 = milli as i128;
                let scaled: i128 = m * 1024;
                let kept: i128 = if scaled < 2000 {
                    2
                } else {
                    let shares: i128 = scaled / 1000;
                    if shares > 262144 {
                        262144
                    } else {
                        shares
                    }
                };
                let w: i128 = 1 + (kept - 2) * 9999 / 262142;
                Some(w as i64)
            },
        }
    }

    /// A copy.
    pub fn copy(&self) -> (r: Resources)
        ensures
            r == *self,
    {
        Resources {
            cpu_limit_milli: self.cpu_limit_milli.copy(),
            cpu_request_milli: self.cpu_request_milli.copy(),
            memory_limit_bytes: self.memory_limit_bytes.copy(),
        }
    }
}

// ---- laws ----------------------------------------------------------------------------------

/// Each suffix stands for a thousand, or 1024, of the one before it, and each small one for a
/// thousandth of the one behind it. No suffix is one.
pub proof fn each_suffix_is_so_many_of_the_last()
    ensures
        factor(""@) == Some((1nat, 1nat)),
        factor("m"@) == Some((1nat, 1000nat)),
        factor("u"@) == Some((1nat, 1000 * factor("m"@).unwrap().1)),
        factor("n"@) == Some((1nat, 1000 * factor("u"@).unwrap().1)),
        factor("k"@) == Some((1000nat, 1nat)),
        factor("M"@) == Some((1000 * factor("k"@).unwrap().0, 1nat)),
        factor("G"@) == Some((1000 * factor("M"@).unwrap().0, 1nat)),
        factor("T"@) == Some((1000 * factor("G"@).unwrap().0, 1nat)),
        factor("P"@) == Some((1000 * factor("T"@).unwrap().0, 1nat)),
        factor("E"@) == Some((1000 * factor("P"@).unwrap().0, 1nat)),
        factor("Ki"@) == Some((1024nat, 1nat)),
        factor("Mi"@) == Some((1024 * factor("Ki"@).unwrap().0, 1nat)),
        factor("Gi"@) == Some((1024 * factor("Mi"@).unwrap().0, 1nat)),
        factor("Ti"@) == Some((1024 * factor("Gi"@).unwrap().0, 1nat)),
        factor("Pi"@) == Some((1024 * factor("Ti"@).unwrap().0, 1nat)),
        factor("Ei"@) == Some((1024 * factor("Pi"@).unwrap().0, 1nat)),
{
    reveal_strlit("");
    reveal_strlit("n");
    reveal_strlit("u");
    reveal_strlit("m");
    reveal_strlit("k");
    reveal_strlit("M");
    reveal_strlit("G");
    reveal_strlit("T");
    reveal_strlit("P");
    reveal_strlit("E");
    reveal_strlit("Ki");
    reveal_strlit("Mi");
    reveal_strlit("Gi");
    reveal_strlit("Ti");
    reveal_strlit("Pi");
    reveal_strlit("Ei");
    assert("n"@[0] == 'n');
    assert("u"@[0] == 'u');
    assert("m"@[0] == 'm');
    assert("k"@[0] == 'k');
    assert("M"@[0] == 'M');
    assert("G"@[0] == 'G');
    assert("T"@[0] == 'T');
    assert("P"@[0] == 'P');
    assert("E"@[0] == 'E');
    assert("Ki"@[0] == 'K');
    assert("Mi"@[0] == 'M');
    assert("Gi"@[0] == 'G');
    assert("Ti"@[0] == 'T');
    assert("Pi"@[0] == 'P');
    assert("Ei"@[0] == 'E');
    assert("Ki"@.len() == 2 && "Mi"@.len() == 2 && "Gi"@.len() == 2 && "Ti"@.len() == 2
        && "Pi"@.len() == 2 && "Ei"@.len() == 2);
    assert("k"@.len() == 1 && "M"@.len() == 1 && "G"@.len() == 1 && "T"@.len() == 1 && "P"@.len()
        == 1 && "E"@.len() == 1 && "n"@.len() == 1 && "u"@.len() == 1 && "m"@.len() == 1);
}

/// No other suffix stands for anything.
pub proof fn no_other_suffix_counts(s: Seq<char>)
    requires
        s.len() > 2 || (s.len() == 2 && s[1] != 'i') || (s.len() == 1 && s[0] != 'n' && s[0] != 'u'
            && s[0] != 'm' && s[0] != 'k' && s[0] != 'M' && s[0] != 'G' && s[0] != 'T' && s[0]
            != 'P' && s[0] != 'E'),
    ensures
        factor(s) is None,
{
    reveal_strlit("n");
    reveal_strlit("u");
    reveal_strlit("m");
    reveal_strlit("k");
    reveal_strlit("M");
    reveal_strlit("G");
    reveal_strlit("T");
    reveal_strlit("P");
    reveal_strlit("E");
    reveal_strlit("Ki");
    reveal_strlit("Mi");
    reveal_strlit("Gi");
    reveal_strlit("Ti");
    reveal_strlit("Pi");
    reveal_strlit("Ei");
    assert("n"@[0] == 'n');
    assert("u"@[0] == 'u');
    assert("m"@[0] == 'm');
    assert("k"@[0] == 'k');
    assert("M"@[0] == 'M');
    assert("G"@[0] == 'G');
    assert("T"@[0] == 'T');
    assert("P"@[0] == 'P');
    assert("E"@[0] == 'E');
    assert("Ki"@[1] == 'i');
    assert("Mi"@[1] == 'i');
    assert("Gi"@[1] == 'i');
    assert("Ti"@[1] == 'i');
    assert("Pi"@[1] == 'i');
    assert("Ei"@[1] == 'i');
    assert("Ki"@.len() == 2 && "Mi"@.len() == 2 && "Gi"@.len() == 2 && "Ti"@.len() == 2
        && "Pi"@.len() == 2 && "Ei"@.len() == 2);
    assert("k"@.len() == 1 && "M"@.len() == 1 && "G"@.len() == 1 && "T"@.len() == 1 && "P"@.len()
        == 1 && "E"@.len() == 1 && "n"@.len() == 1 && "u"@.len() == 1 && "m"@.len() == 1);
}

proof fn ten_to_is_positive(n: nat)
    ensures
        ten_to(n) >= 1,
    decreases n,
{
    if n > 0 {
        ten_to_is_positive((n - 1) as nat);
    }
}

/// An amount is the least whole number of units that is not below what is written: `n` digits with
/// the point before the last few of them, times what the suffix multiplies by, over what it divides by.
/// A processor has a thousand units, a byte is one.
pub proof fn an_amount_is_rounded_up(
    whole: Seq<char>,
    frac: Seq<char>,
    suffix: Seq<char>,
    unit: QuantityUnit,
)
    requires
        amount(whole, frac, suffix, unit) is Some,
    ensures
        ({
            let r = amount(whole, frac, suffix, unit).unwrap();
            let n = number::read_digits(whole + frac).unwrap();
            let mul = factor(suffix).unwrap().0;
            let div = factor(suffix).unwrap().1;
            let units: nat = match unit {
                QuantityUnit::MilliCores => 1000,
                QuantityUnit::Bytes => 1,
            };
            let top = (n * mul * units) as int;
            let bottom = (ten_to(frac.len()) * div) as int;
            &&& number::read_digits(whole + frac) is Some
            &&& factor(suffix) is Some
            &&& 0 <= r <= i64::MAX
            &&& frac.len() <= 18
            &&& r * bottom >= top
            &&& (r - 1) * bottom < top
        }),
{
    let n = number::read_digits(whole + frac).unwrap();
    let mul = factor(suffix).unwrap().0;
    let div = factor(suffix).unwrap().1;
    let top = (n * mul * scale(unit)) as int;
    let bottom = (ten_to(frac.len()) * div) as int;
    ten_to_is_positive(frac.len());
    assert(div >= 1);
    assert(bottom >= 1) by (nonlinear_arith)
        requires
            ten_to(frac.len()) >= 1,
            div >= 1,
            bottom == ten_to(frac.len()) * div,
    ;
    assert(top >= 0);
    let r = rounded_up(top, bottom);
    vstd::arithmetic::div_mod::lemma_fundamental_div_mod(top, bottom);
    assert(r * bottom >= top && (r - 1) * bottom < top && r >= 0) by (nonlinear_arith)
        requires
            bottom >= 1,
            top >= 0,
            top == bottom * (top / bottom) + top % bottom,
            0 <= top % bottom < bottom,
            r == top / bottom + if top % bottom != 0 {
                1int
            } else {
                0int
            },
    ;
}

/// What is written without a point and fits is an amount, and a suffix that stands for nothing, or
/// what is no number, is none.
pub proof fn what_is_an_amount(whole: Seq<char>, suffix: Seq<char>, unit: QuantityUnit)
    ensures
        number::read_digits(whole) is None || factor(suffix) is None ==> amount(
            whole,
            Seq::empty(),
            suffix,
            unit,
        ) is None,
        number::read_digits(whole) is Some && number::read_digits(whole).unwrap() <= u64::MAX
            && suffix.len() == 0 && unit is Bytes && number::read_digits(whole).unwrap()
            <= i64::MAX ==> amount(whole, Seq::empty(), suffix, unit) == Some(
            number::read_digits(whole).unwrap() as int,
        ),
        number::read_digits(whole) is Some && suffix.len() == 0 && unit is MilliCores
            && number::read_digits(whole).unwrap() <= 9_000_000_000_000_000 ==> amount(
            whole,
            Seq::empty(),
            suffix,
            unit,
        ) == Some(1000 * number::read_digits(whole).unwrap() as int),
{
    assert(whole + Seq::<char>::empty() =~= whole);
    if number::read_digits(whole) is Some && suffix.len() == 0 {
        let n = number::read_digits(whole).unwrap();
        let units = scale(unit);
        assert(ten_to(0) == 1);
        assert(n * 1nat * units == n * units) by (nonlinear_arith);
        assert(ten_to(0) * 1nat == 1);
        let top = (n * 1nat * units) as int;
        assert(rounded_up(top, 1) == top);
    }
}

proof fn number_len_counts(num: Seq<char>, suffix: Seq<char>)
    requires
        forall|i: int|
            0 <= i < num.len() ==> '0' as int <= (#[trigger] num[i]) as int <= '9' as int || num[i]
                == '.',
        suffix.len() == 0 || !('0' as int <= suffix[0] as int <= '9' as int || suffix[0] == '.'),
    ensures
        number_len(num + suffix) == num.len(),
    decreases num.len(),
{
    let s = num + suffix;
    if num.len() > 0 {
        assert(s[0] == num[0]);
        assert(s.skip(1) =~= num.skip(1) + suffix);
        number_len_counts(num.skip(1), suffix);
    } else {
        assert(s =~= suffix);
    }
}

/// A quantity is a number, with a point or without, and then a suffix.
pub proof fn how_a_quantity_is_read(
    whole: Seq<char>,
    frac: Seq<char>,
    suffix: Seq<char>,
    unit: QuantityUnit,
)
    requires
        forall|i: int|
            0 <= i < whole.len() ==> '0' as int <= (#[trigger] whole[i]) as int <= '9' as int,
        forall|i: int|
            0 <= i < frac.len() ==> '0' as int <= (#[trigger] frac[i]) as int <= '9' as int,
        suffix.len() == 0 || !('0' as int <= suffix[0] as int <= '9' as int || suffix[0] == '.'),
    ensures
        quantity(whole + suffix, unit) == amount(whole, Seq::empty(), suffix, unit),
        quantity(whole + seq!['.'] + frac + suffix, unit) == amount(whole, frac, suffix, unit),
{
    number_len_counts(whole, suffix);
    let s = whole + suffix;
    assert(s.take(whole.len() as int) =~= whole);
    assert(s.skip(whole.len() as int) =~= suffix);
    scan::first_at_finds(whole, '.', 0);
    assert(scan::first_at(whole, '.', 0) is None);
    let num = whole + seq!['.'] + frac;
    number_len_counts(num, suffix);
    let t = whole + seq!['.'] + frac + suffix;
    assert(t =~= num + suffix);
    assert(t.take(num.len() as int) =~= num);
    assert(t.skip(num.len() as int) =~= suffix);
    scan::first_at_finds(num, '.', 0);
    assert(num[whole.len() as int] == '.');
    let at = scan::first_at(num, '.', 0).unwrap();
    assert(at == whole.len()) by {
        if at < whole.len() {
            assert(num[at] == whole[at]);
        }
    }
    assert(num.take(at) =~= whole);
    assert(num.skip(at + 1) =~= frac);
}

/// What a manifest states of a resource is read as written: a processor's limit and request in
/// thousandths, the limit of memory in bytes, and each from its own place. What cannot be read is kept
/// as it was written and is no amount.
pub proof fn where_resources_are_stated(c: Doc, s: Seq<char>)
    ensures
        c.get2("resources"@, "limits"@) is None ==> resources_of(c).cpu_limit_milli is Unset
            && resources_of(c).memory_limit_bytes is Unset,
        c.get2("resources"@, "requests"@) is None ==> resources_of(c).cpu_request_milli is Unset,
        c.get2("resources"@, "limits"@) matches Some(l) ==> l.get("cpu"@) == Some(Doc::Str(s))
            ==> resources_of(c).cpu_limit_milli == match quantity(s, QuantityUnit::MilliCores) {
            Some(n) => BoundView::Amount(n),
            None => BoundView::Unparseable(s),
        },
        c.get2("resources"@, "limits"@) matches Some(l) ==> l.get("memory"@) == Some(Doc::Str(s))
            ==> resources_of(c).memory_limit_bytes == match quantity(s, QuantityUnit::Bytes) {
            Some(n) => BoundView::Amount(n),
            None => BoundView::Unparseable(s),
        },
        c.get2("resources"@, "requests"@) matches Some(l) ==> l.get("cpu"@) == Some(Doc::Str(s))
            ==> resources_of(c).cpu_request_milli == match quantity(s, QuantityUnit::MilliCores) {
            Some(n) => BoundView::Amount(n),
            None => BoundView::Unparseable(s),
        },
{
}

/// A resource that a list does not state is unset, a number counts as its text, and nothing else is an
/// amount.
pub proof fn what_states_a_resource(b: Doc, field: Seq<char>, unit: QuantityUnit)
    ensures
        b.get(field) is None ==> bound_of(Some(b), field, unit) is Unset,
        bound_of(None, field, unit) is Unset,
        b.get(field) matches Some(Doc::Int(n)) ==> bound_of(Some(b), field, unit) == match quantity(
            number::decimal(n),
            unit,
        ) {
            Some(m) => BoundView::Amount(m),
            None => BoundView::Unparseable(number::decimal(n)),
        },
        b.get(field) matches Some(Doc::Decimal(s)) ==> bound_of(Some(b), field, unit)
            == match quantity(s, unit) {
            Some(m) => BoundView::Amount(m),
            None => BoundView::Unparseable(s),
        },
        b.get(field) matches Some(d) ==> !(d is Str) && !(d is Int) && !(d is Decimal) ==> bound_of(
            Some(b),
            field,
            unit,
        ) is Unparseable,
{
}

/// The weight of a container grows with the processor time that it asks for, from one to ten
/// thousand, in proportion between the least and the most that counts.
pub proof fn weights_grow_with_requests(a: int, b: int)
    requires
        0 <= a <= b,
    ensures
        weight_of(a) <= weight_of(b),
        1 <= weight_of(a) <= 10000,
        a * 1024 / 1000 <= 2 ==> weight_of(a) == 1,
        b * 1024 / 1000 >= 262144 ==> weight_of(b) == 10000,
        2 <= a * 1024 / 1000 <= 262144 ==> (weight_of(a) - 1) * 262142 <= (a * 1024 / 1000 - 2)
            * 9999 < weight_of(a) * 262142,
{
}

} // verus!
