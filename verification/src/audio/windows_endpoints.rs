//! The list of render endpoints and the choice of one.

use vstd::prelude::*;

use crate::audio::capture;
use crate::audio::capture::{best_scored, normalized_wish};
use crate::audio::names;
use crate::audio::names::order_names;
use crate::text;
use crate::text::{contains_text, not_after, same_text, to_lower, trim_text};

verus! {

#[derive(Debug)]
pub struct WindowsRenderEndpoint {
    pub id: String,
    pub name: String,
    pub is_default: bool,
}

/// What is known of a render endpoint.
#[verifier::ext_equal]
pub struct Endpoint {
    pub id: Seq<char>,
    pub name: Seq<char>,
    pub is_default: bool,
}

impl View for WindowsRenderEndpoint {
    type V = Endpoint;

    open spec fn view(&self) -> Endpoint {
        Endpoint { id: self.id@, name: self.name@, is_default: self.is_default }
    }
}

impl Clone for WindowsRenderEndpoint {
    fn clone(&self) -> (r: WindowsRenderEndpoint)
        ensures
            r@ == self@,
    {
        WindowsRenderEndpoint {
            id: self.id.clone(),
            name: self.name.clone(),
            is_default: self.is_default,
        }
    }
}

#[derive(Debug)]
pub struct ResolvedRenderEndpoint {
    pub endpoint: WindowsRenderEndpoint,
    pub preferred_matched: bool,
}

pub open spec fn endpoints(list: Seq<WindowsRenderEndpoint>) -> Seq<Endpoint> {
    Seq::new(list.len(), |i: int| list[i]@)
}

/// Describes an endpoint that was found; one with a blank name is an error.
pub fn describe_endpoint(id: String, name: String, default_id: Option<&str>) -> (r: Result<
    WindowsRenderEndpoint,
    String,
>)
    ensures
        match r {
            Ok(endpoint) => {
                &&& text::trimmed(name@).len() > 0
                &&& endpoint@ == (Endpoint {
                    id: id@,
                    name: name@,
                    is_default: text::some_text(default_id) == Some(id@),
                })
            },
            Err(message) => text::trimmed(name@).len() == 0 && message@
                == "Windows render endpoint friendly name is empty"@,
        },
{
    if trim_text(name.as_str()).unicode_len() == 0 {
        return Err("Windows render endpoint friendly name is empty".to_owned());
    }
    let is_default = match default_id {
        Some(default) => same_text(default, id.as_str()),
        None => false,
    };
    Ok(WindowsRenderEndpoint { id, name, is_default })
}

/// Whether `a` may stand before `b`: by name, then by id.
pub open spec fn endpoint_le(a: Endpoint, b: Endpoint) -> bool {
    if a.name == b.name {
        text::text_le(a.id, b.id)
    } else {
        text::text_le(a.name, b.name)
    }
}

/// Behind the last endpoint that may stand before `e`.
pub open spec fn place(list: Seq<Endpoint>, e: Endpoint) -> int
    decreases list.len(),
{
    if list.len() == 0 {
        0
    } else if endpoint_le(list.last(), e) {
        list.len() as int
    } else {
        place(list.drop_last(), e)
    }
}

/// The list by name and id; endpoints that are alike keep their order.
pub open spec fn sorted(list: Seq<Endpoint>) -> Seq<Endpoint>
    decreases list.len(),
{
    if list.len() == 0 {
        list
    } else {
        let t = sorted(list.drop_last());
        t.insert(place(t, list.last()), list.last())
    }
}

pub open spec fn same_endpoint(a: Endpoint, b: Endpoint) -> bool {
    a.id == b.id || a.name == b.name
}

/// The list without an endpoint that has the id or the name of the one kept
/// before it.
pub open spec fn collapsed(list: Seq<Endpoint>) -> Seq<Endpoint>
    decreases list.len(),
{
    if list.len() <= 1 {
        list
    } else {
        let t = collapsed(list.drop_last());
        if same_endpoint(t.last(), list.last()) {
            t
        } else {
            t.push(list.last())
        }
    }
}

fn may_stand_before(a: &WindowsRenderEndpoint, b: &WindowsRenderEndpoint) -> (r: bool)
    ensures
        r == endpoint_le(a@, b@),
{
    if same_text(a.name.as_str(), b.name.as_str()) {
        not_after(a.id.as_str(), b.id.as_str())
    } else {
        not_after(a.name.as_str(), b.name.as_str())
    }
}

proof fn lemma_place(list: Seq<Endpoint>, e: Endpoint, at: int)
    requires
        0 <= at <= list.len(),
        forall|i: int| at <= i < list.len() ==> !endpoint_le(#[trigger] list[i], e),
        at > 0 ==> endpoint_le(list[at - 1], e),
    ensures
        place(list, e) == at,
    decreases list.len(),
{
    if at < list.len() {
        assert(!endpoint_le(list[list.len() - 1], e));
        lemma_place(list.drop_last(), e, at);
    }
}

fn insert_endpoint(list: &mut Vec<WindowsRenderEndpoint>, e: WindowsRenderEndpoint)
    ensures
        endpoints(final(list)@) == endpoints(old(list)@).insert(
            place(endpoints(old(list)@), e@),
            e@,
        ),
{
    let ghost before = endpoints(list@);
    let mut at: usize = list.len();
    while at > 0 && !may_stand_before(&list[at - 1], &e)
        invariant
            before == endpoints(list@),
            at <= list@.len(),
            forall|i: int| at <= i < list@.len() ==> !endpoint_le(#[trigger] before[i], e@),
        decreases at,
    {
        assert(before[at - 1] == list@[at - 1]@);
        at -= 1;
    }
    proof {
        if at > 0 {
            assert(before[at - 1] == list@[at - 1]@);
        }
        lemma_place(before, e@, at as int);
    }
    list.insert(at, e);
    assert(endpoints(list@) =~= before.insert(at as int, e@));
}

/// Puts the endpoints in order and drops those that repeat an id or a name.
pub fn list_render_endpoints(found: &Vec<WindowsRenderEndpoint>) -> (r: Vec<WindowsRenderEndpoint>)
    ensures
        endpoints(r@) == collapsed(sorted(endpoints(found@))),
{
    let ghost given = endpoints(found@);
    let mut list: Vec<WindowsRenderEndpoint> = Vec::new();
    let mut i: usize = 0;
    assert(endpoints(list@) =~= sorted(given.take(0)));
    while i < found.len()
        invariant
            given == endpoints(found@),
            i <= found@.len(),
            endpoints(list@) == sorted(given.take(i as int)),
        decreases found@.len() - i,
    {
        let ghost t = given.take(i as int + 1);
        assert(t.drop_last() =~= given.take(i as int));
        assert(t.last() == found@[i as int]@);
        insert_endpoint(&mut list, found[i].clone());
        i += 1;
    }
    assert(given.take(i as int) =~= given);
    let ghost ordered = endpoints(list@);
    let mut r: Vec<WindowsRenderEndpoint> = Vec::new();
    let mut k: usize = 0;
    assert(endpoints(r@) =~= collapsed(ordered.take(0)));
    while k < list.len()
        invariant
            ordered == endpoints(list@),
            k <= list@.len(),
            endpoints(r@) == collapsed(ordered.take(k as int)),
            (r@.len() == 0) == (k == 0),
        decreases list@.len() - k,
    {
        let ghost t = ordered.take(k as int + 1);
        let ghost kept = endpoints(r@);
        assert(t.drop_last() =~= ordered.take(k as int));
        assert(t.last() == list@[k as int]@);
        let n: usize = r.len();
        let repeats = n > 0 && (same_text(r[n - 1].id.as_str(), list[k].id.as_str()) || same_text(
            r[n - 1].name.as_str(),
            list[k].name.as_str(),
        ));
        if n > 0 {
            assert(kept.last() == r@[n - 1]@);
        }
        if !repeats {
            r.push(list[k].clone());
            assert(endpoints(r@) =~= kept.push(t.last()));
        }
        if k == 0 {
            assert(collapsed(t) =~= endpoints(r@));
        }
        k += 1;
    }
    assert(ordered.take(k as int) =~= ordered);
    r
}

/// How well an endpoint fits the wish. The speaker in use scores also where it
/// goes by another name.
pub open spec fn endpoint_score(e: Endpoint, wished: Seq<char>) -> int {
    let name = text::lower(e.name);
    let by_name: int = if name == wished {
        1_000
    } else if text::occurs(name, wished) {
        700
    } else {
        0
    };
    by_name + if e.is_default {
        40int
    } else {
        0
    }
}

pub open spec fn endpoint_scores(list: Seq<Endpoint>, wished: Seq<char>) -> Seq<int> {
    Seq::new(list.len(), |i: int| endpoint_score(list[i], wished))
}

/// `at` is the first endpoint in use, or the first of all where none is.
pub open spec fn is_default_place(list: Seq<Endpoint>, at: int) -> bool {
    &&& 0 <= at < list.len()
    &&& forall|j: int| 0 <= j < at ==> !(#[trigger] list[j]).is_default
    &&& list[at].is_default || (at == 0 && forall|j: int|
        0 <= j < list.len() ==> !(#[trigger] list[j]).is_default)
}

fn rate_endpoint(e: &WindowsRenderEndpoint, wished: &str) -> (r: i64)
    ensures
        r == endpoint_score(e@, wished@),
{
    let name = to_lower(e.name.as_str());
    let by_name: i64 = if same_text(name.as_str(), wished) {
        1_000
    } else if contains_text(name.as_str(), wished) {
        700
    } else {
        0
    };
    if e.is_default {
        by_name + 40
    } else {
        by_name
    }
}

fn default_place(list: &Vec<WindowsRenderEndpoint>) -> (r: usize)
    requires
        list@.len() > 0,
    ensures
        is_default_place(endpoints(list@), r as int),
{
    let ghost given = endpoints(list@);
    let mut i: usize = 0;
    while i < list.len()
        invariant
            given == endpoints(list@),
            i <= list@.len(),
            forall|j: int| 0 <= j < i ==> !(#[trigger] given[j]).is_default,
        decreases list@.len() - i,
    {
        assert(given[i as int] == list@[i as int]@);
        if list[i].is_default {
            return i;
        }
        i += 1;
    }
    0
}

fn best_match(list: &Vec<WindowsRenderEndpoint>, wished: &str) -> (r: Option<usize>)
    ensures
        match r {
            Some(at) => capture::is_first_best_scored(
                endpoint_scores(endpoints(list@), wished@),
                at as int,
            ),
            None => capture::none_scored(endpoint_scores(endpoints(list@), wished@)),
        },
{
    let ghost expected = endpoint_scores(endpoints(list@), wished@);
    let mut scores: Vec<i64> = Vec::new();
    let mut i: usize = 0;
    while i < list.len()
        invariant
            expected == endpoint_scores(endpoints(list@), wished@),
            i <= list@.len(),
            scores@.len() == i,
            forall|j: int| 0 <= j < i ==> #[trigger] scores@[j] == expected[j],
        decreases list@.len() - i,
    {
        scores.push(rate_endpoint(&list[i], wished));
        i += 1;
    }
    assert(capture::wide(scores@) =~= expected);
    best_scored(&scores)
}

/// Whether an endpoint is the first in use, or the first of all.
pub open spec fn is_default_choice(list: Seq<Endpoint>, endpoint: Endpoint) -> bool {
    exists|at: int| #[trigger] is_default_place(list, at) && endpoint == list[at]
}

/// Whether an endpoint is the first of the best by the wished-for name.
pub open spec fn is_wished_choice(
    list: Seq<Endpoint>,
    wished: Seq<char>,
    endpoint: Endpoint,
) -> bool {
    exists|at: int| #[trigger]
        capture::is_first_best_scored(endpoint_scores(list, wished), at) && endpoint == list[at]
}

/// Whether an endpoint is the one to use, and whether it counts as the one
/// wished for.
pub open spec fn resolves(
    list: Seq<Endpoint>,
    preferred: Option<Seq<char>>,
    endpoint: Endpoint,
    matched: bool,
) -> bool {
    match capture::wish(preferred) {
        Some(wished) => if matched {
            is_wished_choice(list, wished, endpoint)
        } else {
            capture::none_scored(endpoint_scores(list, wished)) && is_default_choice(list, endpoint)
        },
        None => matched && is_default_choice(list, endpoint),
    }
}

/// Chooses the endpoint to capture: the best by the wished-for name, or the one
/// in use.
pub fn resolve_render_endpoint(
    preferred_name: Option<&str>,
    list: &Vec<WindowsRenderEndpoint>,
) -> (r: Result<ResolvedRenderEndpoint, String>)
    ensures
        match r {
            Ok(found) => list@.len() > 0 && resolves(
                endpoints(list@),
                text::some_text(preferred_name),
                found.endpoint@,
                found.preferred_matched,
            ),
            Err(message) => list@.len() == 0 && message@
                == "Windows reported no active render endpoints"@,
        },
{
    let wished = normalized_wish(preferred_name);
    if list.len() == 0 {
        return Err("Windows reported no active render endpoints".to_owned());
    }
    let ghost given = endpoints(list@);
    match &wished {
        Some(name) => {
            match best_match(list, name.as_str()) {
                Some(at) => {
                    assert(given[at as int] == list@[at as int]@);
                    let endpoint = list[at].clone();
                    assert(is_wished_choice(given, name@, endpoint@));
                    return Ok(ResolvedRenderEndpoint { endpoint, preferred_matched: true });
                },
                None => {},
            }
        },
        None => {},
    }
    let at: usize = default_place(list);
    assert(given[at as int] == list@[at as int]@);
    let endpoint = list[at].clone();
    assert(is_default_choice(given, endpoint@));
    Ok(ResolvedRenderEndpoint { endpoint, preferred_matched: wished.is_none() })
}

/// The names of the endpoints.
pub open spec fn endpoint_names(list: Seq<Endpoint>) -> Seq<Seq<char>> {
    Seq::new(list.len(), |i: int| list[i].name)
}

/// The names of the endpoints, once each and in order.
pub fn list_render_endpoint_names(list: &Vec<WindowsRenderEndpoint>) -> (r: Vec<String>)
    ensures
        names::ordered_once(endpoint_names(endpoints(list@)), text::views(r@)),
{
    let mut found: Vec<String> = Vec::new();
    let mut i: usize = 0;
    while i < list.len()
        invariant
            i <= list@.len(),
            found@.len() == i,
            forall|j: int| 0 <= j < i ==> (#[trigger] found@[j])@ == list@[j].name@,
        decreases list@.len() - i,
    {
        found.push(list[i].name.clone());
        i += 1;
    }
    assert(text::views(found@) =~= endpoint_names(endpoints(list@)));
    order_names(&found)
}

/// The name of the first endpoint in use.
pub fn default_render_endpoint_name(list: &Vec<WindowsRenderEndpoint>) -> (r: Option<String>)
    ensures
        match r {
            Some(name) => exists|at: int| #[trigger]
                is_default_place(endpoints(list@), at) && endpoints(list@)[at].is_default && name@
                    == endpoints(list@)[at].name,
            None => forall|i: int| 0 <= i < list@.len() ==> !(#[trigger] list@[i]).is_default,
        },
{
    if list.len() == 0 {
        return None;
    }
    let ghost given = endpoints(list@);
    let at: usize = default_place(list);
    assert(given[at as int] == list@[at as int]@);
    if list[at].is_default {
        Some(list[at].name.clone())
    } else {
        proof {
            assert forall|i: int| 0 <= i < list@.len() implies !(#[trigger] list@[i]).is_default by {
                assert(given[i] == list@[i]@);
            }
        }
        None
    }
}

/// Every endpoint may stand before those that follow it.
pub open spec fn in_order(list: Seq<Endpoint>) -> bool {
    forall|i: int, j: int|
        0 <= i < j < list.len() ==> endpoint_le(#[trigger] list[i], #[trigger] list[j])
}

proof fn lemma_endpoint_le(a: Endpoint, b: Endpoint, c: Endpoint)
    ensures
        endpoint_le(a, b) || endpoint_le(b, a),
        endpoint_le(a, b) && endpoint_le(b, c) ==> endpoint_le(a, c),
{
    text::lemma_text_le_total(a.name, b.name);
    text::lemma_text_le_total(a.id, b.id);
    text::lemma_text_le_total(b.name, c.name);
    text::lemma_text_le_total(a.name, c.name);
    if endpoint_le(a, b) && endpoint_le(b, c) {
        if a.name == b.name && b.name == c.name {
            text::lemma_text_le_trans(a.id, b.id, c.id);
        } else if a.name != b.name && b.name != c.name {
            text::lemma_text_le_trans(a.name, b.name, c.name);
        }
    }
}

proof fn lemma_place_in_order(list: Seq<Endpoint>, e: Endpoint)
    requires
        in_order(list),
    ensures
        0 <= place(list, e) <= list.len(),
        in_order(list.insert(place(list, e), e)),
    decreases list.len(),
{
    lemma_place_facts(list, e);
    let at = place(list, e);
    let r = list.insert(at, e);
    assert forall|i: int, j: int| 0 <= i < j < r.len() implies endpoint_le(
        #[trigger] r[i],
        #[trigger] r[j],
    ) by {
        if j == at {
            assert(r[i] == list[i]);
            if i < at - 1 {
                lemma_endpoint_le(list[i], list[at - 1], e);
            }
        } else if i == at {
            assert(r[j] == list[j - 1]);
            lemma_endpoint_le(e, list[j - 1], e);
        } else {
            let a = if i < at {
                i
            } else {
                i - 1
            };
            let b = if j < at {
                j
            } else {
                j - 1
            };
            assert(r[i] == list[a] && r[j] == list[b]);
        }
    }
}

proof fn lemma_place_facts(list: Seq<Endpoint>, e: Endpoint)
    ensures
        0 <= place(list, e) <= list.len(),
        forall|i: int| place(list, e) <= i < list.len() ==> !endpoint_le(#[trigger] list[i], e),
        place(list, e) > 0 ==> endpoint_le(list[place(list, e) - 1], e),
    decreases list.len(),
{
    if list.len() > 0 && !endpoint_le(list.last(), e) {
        lemma_place_facts(list.drop_last(), e);
        assert forall|i: int| place(list, e) <= i < list.len() implies !endpoint_le(
            #[trigger] list[i],
            e,
        ) by {
            if i < list.len() - 1 {
                assert(list.drop_last()[i] == list[i]);
            }
        }
    }
}

proof fn lemma_sorted(list: Seq<Endpoint>)
    ensures
        in_order(sorted(list)),
        forall|e: Endpoint| #[trigger] sorted(list).contains(e) ==> list.contains(e),
    decreases list.len(),
{
    if list.len() > 0 {
        let t = sorted(list.drop_last());
        let e = list.last();
        lemma_sorted(list.drop_last());
        lemma_place_in_order(t, e);
        let r = sorted(list);
        let at = place(t, e);
        assert forall|x: Endpoint| #[trigger] r.contains(x) implies list.contains(x) by {
            let k = choose|k: int| 0 <= k < r.len() && r[k] == x;
            if k == at {
                assert(list[list.len() - 1] == x);
            } else {
                let m = if k < at {
                    k
                } else {
                    k - 1
                };
                assert(t[m] == x);
                assert(t.contains(x));
                let n = choose|n: int| 0 <= n < list.drop_last().len() && list.drop_last()[n] == x;
                assert(list[n] == x);
            }
        }
    }
}

proof fn lemma_collapsed(list: Seq<Endpoint>)
    requires
        in_order(list),
    ensures
        names::strictly_ordered(endpoint_names(collapsed(list))),
        forall|e: Endpoint| #[trigger] collapsed(list).contains(e) ==> list.contains(e),
        list.len() > 0 ==> collapsed(list).len() > 0 && endpoint_le(
            collapsed(list).last(),
            list.last(),
        ),
    decreases list.len(),
{
    if list.len() == 1 {
        text::lemma_text_le_total(list[0].id, list[0].id);
    } else if list.len() > 1 {
        let shorter = list.drop_last();
        let t = collapsed(shorter);
        let e = list.last();
        lemma_collapsed(shorter);
        let r = collapsed(list);
        assert(endpoint_le(shorter.last(), e)) by {
            assert(shorter.last() == list[list.len() - 2]);
        }
        lemma_endpoint_le(t.last(), shorter.last(), e);
        text::lemma_text_le_total(e.id, e.id);
        assert forall|x: Endpoint| #[trigger] r.contains(x) implies list.contains(x) by {
            let k = choose|k: int| 0 <= k < r.len() && r[k] == x;
            if k < t.len() {
                assert(t[k] == x);
                assert(t.contains(x));
                let n = choose|n: int| 0 <= n < shorter.len() && shorter[n] == x;
                assert(list[n] == x);
            } else {
                assert(list[list.len() - 1] == x);
            }
        }
        if !same_endpoint(t.last(), e) {
            let tn = endpoint_names(t);
            let rn = endpoint_names(r);
            assert forall|i: int, j: int| 0 <= i < j < rn.len() implies text::text_le(
                #[trigger] rn[i],
                #[trigger] rn[j],
            ) && rn[i] != rn[j] by {
                if j < t.len() {
                    assert(tn[i] == rn[i] && tn[j] == rn[j]);
                } else {
                    let last = t.len() - 1;
                    assert(rn[j] == e.name);
                    assert(tn[last] == t.last().name);
                    if i < last {
                        assert(tn[i] == rn[i]);
                        text::lemma_text_le_trans(tn[i], tn[last], e.name);
                        text::lemma_text_le_total(tn[i], tn[last]);
                        text::lemma_text_le_total(tn[last], e.name);
                    }
                }
            }
        }
    }
}

/// The listed endpoints were all found, and no two of them have one name; they
/// are in the order of their names.
pub proof fn law_listed_endpoints_are_in_order(found: Seq<Endpoint>)
    ensures
        names::strictly_ordered(endpoint_names(collapsed(sorted(found)))),
        forall|e: Endpoint| #[trigger] collapsed(sorted(found)).contains(e) ==> found.contains(e),
{
    lemma_sorted(found);
    lemma_collapsed(sorted(found));
}

/// Endpoints are ordered by name, and by id where the names are the same.
pub proof fn law_endpoints_are_ordered_by_name_then_id(a: Endpoint, b: Endpoint)
    ensures
        a.name != b.name ==> (endpoint_le(a, b) <==> text::text_le(a.name, b.name)),
        a.name == b.name ==> (endpoint_le(a, b) <==> text::text_le(a.id, b.id)),
{
}

/// Ordering loses no endpoint and adds none.
pub proof fn law_ordering_keeps_every_endpoint(list: Seq<Endpoint>)
    ensures
        sorted(list).to_multiset() == list.to_multiset(),
        sorted(list).len() == list.len(),
    decreases list.len(),
{
    if list.len() > 0 {
        let t = sorted(list.drop_last());
        law_ordering_keeps_every_endpoint(list.drop_last());
        lemma_place_facts(t, list.last());
        let at = place(t, list.last());
        vstd::seq_lib::to_multiset_insert(t, at, list.last());
        vstd::seq_lib::to_multiset_build(list.drop_last(), list.last());
        assert(list.drop_last().push(list.last()) =~= list);
    }
}

/// Every endpoint that was found is listed, or one that is listed has its id or
/// its name.
pub proof fn law_every_found_endpoint_is_listed(found: Seq<Endpoint>, e: Endpoint)
    requires
        found.contains(e),
    ensures
        exists|i: int|
            0 <= i < collapsed(sorted(found)).len() && {
                ||| (#[trigger] collapsed(sorted(found))[i]).id == e.id
                ||| collapsed(sorted(found))[i].name == e.name
            },
{
    law_ordering_keeps_every_endpoint(found);
    found.to_multiset_ensures();
    sorted(found).to_multiset_ensures();
    assert(found.to_multiset().count(e) > 0);
    assert(sorted(found).contains(e));
    lemma_collapsed_covers(sorted(found), e);
}

proof fn lemma_collapsed_covers(list: Seq<Endpoint>, e: Endpoint)
    requires
        list.contains(e),
    ensures
        exists|i: int|
            0 <= i < collapsed(list).len() && {
                ||| (#[trigger] collapsed(list)[i]).id == e.id
                ||| collapsed(list)[i].name == e.name
            },
    decreases list.len(),
{
    let k = choose|k: int| 0 <= k < list.len() && list[k] == e;
    if list.len() == 1 {
        assert(collapsed(list)[0].id == e.id);
    } else {
        let shorter = list.drop_last();
        let t = collapsed(shorter);
        let r = collapsed(list);
        lemma_collapsed_is_there(shorter);
        if k < shorter.len() {
            assert(shorter[k] == e);
            lemma_collapsed_covers(shorter, e);
            let i = choose|i: int|
                0 <= i < t.len() && {
                    ||| (#[trigger] t[i]).id == e.id
                    ||| t[i].name == e.name
                };
            assert(r[i] == t[i]);
        } else if same_endpoint(t.last(), e) {
            let i = t.len() - 1;
            assert(r[i].id == e.id || r[i].name == e.name);
        } else {
            assert(r[r.len() - 1].id == e.id);
        }
    }
}

proof fn lemma_collapsed_is_there(list: Seq<Endpoint>)
    ensures
        list.len() > 0 ==> collapsed(list).len() > 0,
    decreases list.len(),
{
    if list.len() > 1 {
        lemma_collapsed_is_there(list.drop_last());
    }
}

/// Only an endpoint that repeats the id or the name of the one listed before it
/// is dropped.
pub proof fn law_only_repetitions_are_dropped(list: Seq<Endpoint>, e: Endpoint)
    requires
        list.len() > 0,
    ensures
        collapsed(seq![e]) == seq![e],
        ({
            let before = collapsed(list);
            let after = collapsed(list.push(e));
            let repeats = before.last().id == e.id || before.last().name == e.name;
            &&& repeats ==> after == before
            &&& !repeats ==> after == before.push(e)
        }),
{
    assert(list.push(e).drop_last() =~= list);
}

/// An endpoint scores 1000 for the wished-for name, 700 for a name that holds it,
/// and 40 for being in use.
pub proof fn law_endpoints_score_by_name(e: Endpoint, wished: Seq<char>)
    ensures
        ({
            let used: int = if e.is_default {
                40
            } else {
                0
            };
            let name = text::lower(e.name);
            &&& name == wished ==> endpoint_score(e, wished) == 1000 + used
            &&& name != wished && text::occurs(name, wished) ==> endpoint_score(e, wished) == 700
                + used
            &&& name != wished && !text::occurs(name, wished) ==> endpoint_score(e, wished) == used
        }),
{
}

/// The endpoint that is used is one of the list. Under a wish none scores more;
/// without one, or where none scores, it is the first in use, or the first of all
/// where none is.
pub proof fn law_resolved_endpoint_is_the_best(
    list: Seq<Endpoint>,
    preferred: Option<Seq<char>>,
    endpoint: Endpoint,
    matched: bool,
    i: int,
)
    requires
        resolves(list, preferred, endpoint, matched),
        0 <= i < list.len(),
    ensures
        list.contains(endpoint),
        ({
            let wishes = preferred is Some && text::trimmed(preferred->0).len() > 0;
            let wished = text::lower(text::trimmed(preferred->0));
            &&& !wishes ==> matched
            &&& wishes && matched ==> endpoint_score(list[i], wished) <= endpoint_score(
                endpoint,
                wished,
            ) && endpoint_score(endpoint, wished) > 0
            &&& wishes && !matched ==> endpoint_score(list[i], wished) <= 0
            &&& !wishes || !matched ==> (list[i].is_default ==> endpoint.is_default)
            &&& (!wishes || !matched) && !endpoint.is_default ==> endpoint == list[0]
        }),
{
    match capture::wish(preferred) {
        Some(wished) => {
            let scores = endpoint_scores(list, wished);
            assert(scores[i] == endpoint_score(list[i], wished));
            if matched {
                let at = choose|at: int| #[trigger]
                    capture::is_first_best_scored(scores, at) && endpoint == list[at];
                assert(scores[at] == endpoint_score(list[at], wished));
                assert(list[at] == endpoint);
            } else {
                let at = choose|at: int| #[trigger]
                    is_default_place(list, at) && endpoint == list[at];
                assert(list[at] == endpoint);
            }
        },
        None => {
            let at = choose|at: int| #[trigger] is_default_place(list, at) && endpoint == list[at];
            assert(list[at] == endpoint);
        },
    }
}

/// Of endpoints that are as good as each other the first is used: before the one
/// that is used under a wish all score less, and before the one that is used
/// without a wish none is in use.
pub proof fn law_the_first_of_the_best_is_used(
    list: Seq<Endpoint>,
    preferred: Option<Seq<char>>,
    endpoint: Endpoint,
    matched: bool,
)
    requires
        resolves(list, preferred, endpoint, matched),
    ensures
        ({
            let wishes = preferred is Some && text::trimmed(preferred->0).len() > 0;
            let wished = text::lower(text::trimmed(preferred->0));
            exists|at: int|
                {
                    &&& 0 <= at < list.len()
                    &&& #[trigger] list[at] == endpoint
                    &&& wishes && matched ==> forall|j: int|
                        0 <= j < at ==> endpoint_score(#[trigger] list[j], wished) < endpoint_score(
                            endpoint,
                            wished,
                        )
                    &&& !wishes || !matched ==> forall|j: int|
                        0 <= j < at ==> !(#[trigger] list[j]).is_default
                }
        }),
{
    match capture::wish(preferred) {
        Some(wished) => {
            let scores = endpoint_scores(list, wished);
            if matched {
                let at = choose|at: int| #[trigger]
                    capture::is_first_best_scored(scores, at) && endpoint == list[at];
                assert forall|j: int| 0 <= j < at implies endpoint_score(#[trigger] list[j], wished)
                    < endpoint_score(endpoint, wished) by {
                    assert(scores[j] < scores[at]);
                }
                assert(list[at] == endpoint);
            } else {
                let at = choose|at: int| #[trigger]
                    is_default_place(list, at) && endpoint == list[at];
                assert(list[at] == endpoint);
            }
        },
        None => {
            let at = choose|at: int| #[trigger] is_default_place(list, at) && endpoint == list[at];
            assert(list[at] == endpoint);
        },
    }
}

/// Endpoints are offered by their own names, each at its place.
pub proof fn law_endpoints_are_offered_by_name(list: Seq<Endpoint>, i: int)
    requires
        0 <= i < list.len(),
    ensures
        endpoint_names(list).len() == list.len(),
        endpoint_names(list)[i] == list[i].name,
{
}

} // verus!
