//! Tidy lists of device names.

use vstd::prelude::*;

use crate::text;
use crate::text::{not_after, same_text, trim_text};

verus! {

/// The names are in code-point order and none occurs twice.
pub open spec fn strictly_ordered(names: Seq<Seq<char>>) -> bool {
    forall|i: int, j: int|
        0 <= i < j < names.len() ==> text::text_le(#[trigger] names[i], #[trigger] names[j])
            && names[i] != names[j]
}

/// `r` holds the names that are not blank, once each and in order.
pub open spec fn tidied(given: Seq<Seq<char>>, r: Seq<Seq<char>>) -> bool {
    &&& strictly_ordered(r)
    &&& forall|name: Seq<char>| #[trigger]
        r.contains(name) <==> given.contains(name) && text::trimmed(name).len() > 0
}

/// `r` holds the names, once each and in order.
pub open spec fn ordered_once(given: Seq<Seq<char>>, r: Seq<Seq<char>>) -> bool {
    &&& strictly_ordered(r)
    &&& forall|name: Seq<char>| #[trigger] r.contains(name) <==> given.contains(name)
}

proof fn lemma_insert_in_order(names: Seq<Seq<char>>, name: Seq<char>, at: int)
    requires
        strictly_ordered(names),
        0 <= at <= names.len(),
        forall|i: int| 0 <= i < at ==> text::text_le(#[trigger] names[i], name) && names[i] != name,
        at < names.len() ==> !text::text_le(names[at], name),
    ensures
        strictly_ordered(names.insert(at, name)),
        forall|other: Seq<char>| #[trigger]
            names.insert(at, name).contains(other) <==> names.contains(other) || other == name,
{
    let r = names.insert(at, name);
    assert forall|i: int, j: int| 0 <= i < j < r.len() implies text::text_le(
        #[trigger] r[i],
        #[trigger] r[j],
    ) && r[i] != r[j] by {
        if i == at {
            let next = names[at];
            text::lemma_text_le_total(name, next);
            if j > at + 1 {
                assert(r[j] == names[j - 1]);
                text::lemma_text_le_trans(name, next, names[j - 1]);
                if name == names[j - 1] {
                    assert(text::text_le(next, name));
                }
            }
        } else if j == at {
            assert(r[i] == names[i]);
        } else {
            let a = if i < at {
                i
            } else {
                i - 1
            };
            let b = if j < at {
                j
            } else {
                j - 1
            };
            assert(r[i] == names[a] && r[j] == names[b]);
        }
    }
    assert forall|other: Seq<char>| #[trigger] r.contains(other) <==> names.contains(other) || other
        == name by {
        if r.contains(other) {
            let k = choose|k: int| 0 <= k < r.len() && r[k] == other;
            if k < at {
                assert(names[k] == other);
            } else if k > at {
                assert(names[k - 1] == other);
            }
        }
        if names.contains(other) {
            let k = choose|k: int| 0 <= k < names.len() && names[k] == other;
            if k < at {
                assert(r[k] == other);
            } else {
                assert(r[k + 1] == other);
            }
        }
        if other == name {
            assert(r[at] == name);
        }
    }
}

/// Puts a name into an ordered list, unless it is there.
fn insert_name(names: &mut Vec<String>, name: String)
    requires
        strictly_ordered(text::views(old(names)@)),
    ensures
        strictly_ordered(text::views(final(names)@)),
        forall|other: Seq<char>| #[trigger]
            text::views(final(names)@).contains(other) <==> text::views(old(names)@).contains(other)
                || other == name@,
{
    let ghost before = text::views(names@);
    let mut at: usize = 0;
    while at < names.len() && not_after(names[at].as_str(), name.as_str())
        invariant
            before == text::views(names@),
            strictly_ordered(before),
            at <= names@.len(),
            forall|i: int|
                0 <= i < at ==> text::text_le(#[trigger] before[i], name@) && before[i] != name@,
        decreases names@.len() - at,
    {
        assert(before[at as int] == names@[at as int]@);
        if same_text(names[at].as_str(), name.as_str()) {
            assert(before.contains(name@));
            return;
        }
        at += 1;
    }
    proof {
        if at < names@.len() {
            assert(before[at as int] == names@[at as int]@);
        }
        lemma_insert_in_order(before, name@, at as int);
    }
    names.insert(at, name);
    assert(text::views(names@) =~= before.insert(at as int, name@));
}

/// The names, once each and in order.
pub fn order_names(names: &Vec<String>) -> (r: Vec<String>)
    ensures
        ordered_once(text::views(names@), text::views(r@)),
{
    let ghost given = text::views(names@);
    let mut r: Vec<String> = Vec::new();
    let mut i: usize = 0;
    while i < names.len()
        invariant
            given == text::views(names@),
            i <= names@.len(),
            ordered_once(given.take(i as int), text::views(r@)),
        decreases names@.len() - i,
    {
        let ghost before = text::views(r@);
        insert_name(&mut r, names[i].clone());
        proof {
            let t = given.take(i as int);
            let u = given.take(i as int + 1);
            assert(u =~= t.push(given[i as int]));
            assert forall|name: Seq<char>| #[trigger]
                text::views(r@).contains(name) <==> u.contains(name) by {
                assert(before.contains(name) <==> t.contains(name));
                lemma_push_contains(t, given[i as int], name);
            }
        }
        i += 1;
    }
    assert(given.take(i as int) =~= given);
    r
}

proof fn lemma_push_contains(s: Seq<Seq<char>>, last: Seq<char>, name: Seq<char>)
    ensures
        s.push(last).contains(name) <==> s.contains(name) || name == last,
{
    if s.contains(name) {
        let k = choose|k: int| 0 <= k < s.len() && s[k] == name;
        assert(s.push(last)[k] == name);
    }
    if name == last {
        assert(s.push(last)[s.len() as int] == name);
    }
    if s.push(last).contains(name) {
        let k = choose|k: int| 0 <= k < s.push(last).len() && s.push(last)[k] == name;
        if k < s.len() {
            assert(s[k] == name);
        }
    }
}

/// The names that are not blank, once each and in order.
pub fn tidy_names(names: &Vec<String>) -> (r: Vec<String>)
    ensures
        tidied(text::views(names@), text::views(r@)),
{
    let ghost given = text::views(names@);
    let mut r: Vec<String> = Vec::new();
    let mut i: usize = 0;
    while i < names.len()
        invariant
            given == text::views(names@),
            i <= names@.len(),
            tidied(given.take(i as int), text::views(r@)),
        decreases names@.len() - i,
    {
        let ghost before = text::views(r@);
        let blank = trim_text(names[i].as_str()).unicode_len() == 0;
        if !blank {
            insert_name(&mut r, names[i].clone());
        }
        proof {
            let t = given.take(i as int);
            let u = given.take(i as int + 1);
            assert(given[i as int] == names@[i as int]@);
            assert(u =~= t.push(given[i as int]));
            assert forall|name: Seq<char>| #[trigger]
                text::views(r@).contains(name) <==> u.contains(name) && text::trimmed(name).len()
                    > 0 by {
                assert(before.contains(name) <==> t.contains(name) && text::trimmed(name).len() > 0);
                lemma_push_contains(t, given[i as int], name);
            }
        }
        i += 1;
    }
    assert(given.take(i as int) =~= given);
    r
}

/// A tidy list holds every name that was given and is not blank, no other, none
/// twice, and all of them in code-point order.
pub proof fn law_tidy_lists_hold_the_names(
    given: Seq<Seq<char>>,
    r: Seq<Seq<char>>,
    name: Seq<char>,
    i: int,
    j: int,
)
    requires
        tidied(given, r),
    ensures
        given.contains(name) && text::trimmed(name).len() > 0 ==> r.contains(name),
        r.contains(name) ==> given.contains(name) && text::trimmed(name).len() > 0,
        0 <= i < j < r.len() ==> r[i] != r[j] && text::text_le(r[i], r[j]) && !text::text_le(
            r[j],
            r[i],
        ),
{
    if 0 <= i < j < r.len() {
        text::lemma_text_le_total(r[i], r[j]);
    }
}

/// An ordered list holds every name that was given, no other, none twice, and all
/// of them in code-point order.
pub proof fn law_ordered_lists_hold_the_names(
    given: Seq<Seq<char>>,
    r: Seq<Seq<char>>,
    name: Seq<char>,
    i: int,
    j: int,
)
    requires
        ordered_once(given, r),
    ensures
        r.contains(name) <==> given.contains(name),
        0 <= i < j < r.len() ==> r[i] != r[j] && text::text_le(r[i], r[j]),
{
}

} // verus!
