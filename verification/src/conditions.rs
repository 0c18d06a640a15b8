//! The conditions of an object's status, which several writers share.

use vstd::prelude::*;
use crate::json::{self, Doc, Json};
use crate::text::same;

verus! {

/// The texts of a list of slices.
pub open spec fn slices(v: Seq<&str>) -> Seq<Seq<char>> {
    v.map_values(|s: &str| s@)
}

/// Whether a condition has one of these types.
pub open spec fn has_type(c: Doc, types: Seq<Seq<char>>) -> bool {
    c.str_at("type"@) matches Some(t) && types.contains(t)
}

/// The conditions that have none of these types, in order.
pub open spec fn others(conditions: Seq<Doc>, types: Seq<Seq<char>>) -> Seq<Doc>
    decreases conditions.len(),
{
    if conditions.len() == 0 {
        Seq::empty()
    } else if has_type(conditions.last(), types) {
        others(conditions.drop_last(), types)
    } else {
        others(conditions.drop_last(), types).push(conditions.last())
    }
}

/// Whether a condition has one of these types.
fn of_type(c: &Json, types: &[&str]) -> (r: bool)
    ensures
        r == has_type(c@, slices(types@)),
{
    match c.str_at("type") {
        None => false,
        Some(t) => {
            let mut i: usize = 0;
            while i < types.len()
                invariant
                    i <= types@.len(),
                    c@.str_at("type"@) == Some(t@),
                    forall|k: int| 0 <= k < i ==> slices(types@)[k] != t@,
                decreases types@.len() - i,
            {
                if same(t, types[i]) {
                    assert(slices(types@)[i as int] == t@);
                    return true;
                }
                i += 1;
            }
            false
        },
    }
}

/// The conditions that have none of these types, in order; none where there is no list.
pub fn other_conditions(conditions: Option<&Vec<Json>>, types: &[&str]) -> (r: Vec<Json>)
    ensures
        json::docs(r@) == match conditions {
            Some(list) => others(json::docs(list@), slices(types@)),
            None => Seq::empty(),
        },
{
    let mut out: Vec<Json> = Vec::new();
    assert(json::docs(out@) =~= Seq::<Doc>::empty());
    if let Some(list) = conditions {
        let ghost all = json::docs(list@);
        let mut i: usize = 0;
        while i < list.len()
            invariant
                i <= list@.len(),
                all == json::docs(list@),
                json::docs(out@) == others(all.take(i as int), slices(types@)),
            decreases list@.len() - i,
        {
            let c = &list[i];
            proof {
                json::docs_index(list@);
            }
            assert(all[i as int] == c@);
            assert(all.take(i + 1).drop_last() =~= all.take(i as int));
            assert(all.take(i + 1).last() == c@);
            if !of_type(c, types) {
                let ghost before = out@;
                out.push(c.copy());
                assert(out@.drop_last() =~= before);
            }
            i += 1;
        }
        proof {
            json::docs_index(list@);
        }
        assert(all.take(i as int) =~= all);
    }
    out
}

// ---- laws ----------------------------------------------------------------------------------

/// A condition of another type survives, and none of these types does.
pub proof fn others_survive(conditions: Seq<Doc>, types: Seq<Seq<char>>, c: Doc)
    ensures
        others(conditions, types).contains(c) <==> conditions.contains(c) && !has_type(c, types),
    decreases conditions.len(),
{
    if conditions.len() > 0 {
        let rest = conditions.drop_last();
        others_survive(rest, types, c);
        let kept = others(rest, types);
        assert(conditions =~= rest.push(conditions.last()));
        if rest.contains(c) {
            let k = choose|k: int| 0 <= k < rest.len() && rest[k] == c;
            assert(conditions[k] == c);
        }
        if conditions.contains(c) && c != conditions.last() {
            let k = choose|k: int| 0 <= k < conditions.len() && conditions[k] == c;
            assert(rest[k] == c);
        }
        if c == conditions.last() {
            assert(conditions[conditions.len() - 1] == c);
        }
        if !has_type(conditions.last(), types) {
            let all = kept.push(conditions.last());
            assert(all[kept.len() as int] == conditions.last());
            if kept.contains(c) {
                let k = choose|k: int| 0 <= k < kept.len() && kept[k] == c;
                assert(all[k] == c);
            }
            if all.contains(c) && c != conditions.last() {
                let k = choose|k: int| 0 <= k < all.len() && all[k] == c;
                assert(kept[k] == c);
            }
        }
    }
}

/// The conditions of others are kept in their order.
pub proof fn others_stay_in_order(list: Seq<Doc>, types: Seq<Seq<char>>, c: Doc)
    ensures
        others(Seq::empty(), types).len() == 0,
        c.str_at("type"@) is Some && types.contains(c.str_at("type"@).unwrap()) ==> others(
            list.push(c),
            types,
        ) == others(list, types),
        c.str_at("type"@) is None || !types.contains(c.str_at("type"@).unwrap()) ==> others(
            list.push(c),
            types,
        ) == others(list, types).push(c),
{
    assert(list.push(c).drop_last() =~= list);
}

} // verus!
