//! Responsive styles: when the styles are applied again, how a media-query
//! condition breaks into comparisons, and which matching query styles each
//! element. The comparisons of window sizes themselves are made by the
//! application.
use vstd::prelude::*;
use crate::game::string_views;
use crate::strmap::{keys_of, lemma_pairs_to_map_last, pairs_to_map, StrMap};
use crate::text::{
    contains, contains_seq, split, split_all, str_eq, trim, trim_ws,
};

verus! {

/// What asks for the styles to be applied again.
#[derive(Debug)]
pub struct StyleUpdateTrigger {
    /// An update was asked for.
    pub force_update: bool,
    /// The number of styled elements at the last update.
    pub last_frame_entity_count: usize,
}

impl StyleUpdateTrigger {
    /// A trigger that asks for nothing, with no elements seen.
    pub fn new() -> (t: Self)
        ensures
            !t.force_update,
            t.last_frame_entity_count == 0,
    {
        Self { force_update: false, last_frame_entity_count: 0 }
    }
}

/// Why the styles are applied again.
#[derive(Debug, Clone, Copy, PartialEq, Eq, Structural)]
pub enum StyleUpdateReason {
    WindowChanged,
    NewEntities,
    ForceUpdate,
    GameStateChanged,
    InitialLoad,
}

/// Asks for the styles to be applied again.
pub fn force_style_update(trigger: &mut StyleUpdateTrigger)
    ensures
        final(trigger).force_update,
        final(trigger).last_frame_entity_count == old(trigger).last_frame_entity_count,
{
    trigger.force_update = true;
}

/// A change of screen asks for the styles to be applied again.
pub fn on_state_changed(trigger: &mut StyleUpdateTrigger)
    ensures
        final(trigger).force_update,
        final(trigger).last_frame_entity_count == old(trigger).last_frame_entity_count,
{
    trigger.force_update = true;
}

/// Whether the styles are applied again this frame, and why: a changed
/// window comes first, then an explicit request, then a changed number of
/// styled elements, then a cache that was never filled. An update clears the
/// request, remembers the number of elements and marks the cache filled.
pub fn plan_style_update(
    trigger: &mut StyleUpdateTrigger,
    window_changed: bool,
    entity_count: usize,
    cache_valid: &mut bool,
) -> (r: Option<StyleUpdateReason>)
    ensures
        ({
            let new_entities = entity_count != old(trigger).last_frame_entity_count;
            let should = window_changed || old(trigger).force_update || new_entities
                || !*old(cache_valid);
            &&& !should ==> {
                &&& r is None
                &&& *final(trigger) == *old(trigger)
                &&& *final(cache_valid) == *old(cache_valid)
            }
            &&& should ==> {
                &&& r == Some(
                    if window_changed {
                        StyleUpdateReason::WindowChanged
                    } else if old(trigger).force_update {
                        StyleUpdateReason::ForceUpdate
                    } else if new_entities {
                        StyleUpdateReason::NewEntities
                    } else {
                        StyleUpdateReason::InitialLoad
                    },
                )
                &&& !final(trigger).force_update
                &&& final(trigger).last_frame_entity_count == entity_count
                &&& *final(cache_valid)
            }
        }),
{
    let new_entities = entity_count != trigger.last_frame_entity_count;
    let should = window_changed || trigger.force_update || new_entities || !*cache_valid;
    if !should {
        return None;
    }
    let reason = if window_changed {
        StyleUpdateReason::WindowChanged
    } else if trigger.force_update {
        StyleUpdateReason::ForceUpdate
    } else if new_entities {
        StyleUpdateReason::NewEntities
    } else {
        StyleUpdateReason::InitialLoad
    };
    trigger.force_update = false;
    trigger.last_frame_entity_count = entity_count;
    *cache_valid = true;
    Some(reason)
}

/// Records the names of the matching media queries as the active ones when
/// they differ from them, and returns whether they did.
pub fn refresh_active_queries(active: &mut Vec<String>, current: Vec<String>) -> (changed: bool)
    ensures
        changed == (string_views(current@) != string_views(old(active)@)),
        string_views(final(active)@) == string_views(current@),
{
    let changed = active_queries_changed(&current, active);
    if changed {
        *active = current;
    }
    changed
}

/// Whether the names of the active media queries changed.
pub fn active_queries_changed(current: &Vec<String>, previous: &Vec<String>) -> (r: bool)
    ensures
        r == (string_views(current@) != string_views(previous@)),
{
    if current.len() != previous.len() {
        assert(string_views(current@).len() != string_views(previous@).len());
        return true;
    }
    let mut i: usize = 0;
    while i < current.len()
        invariant
            current@.len() == previous@.len(),
            i <= current@.len(),
            forall|k: int| 0 <= k < i ==> current@[k]@ == previous@[k]@,
        decreases current@.len() - i,
    {
        if !str_eq(current[i].as_str(), previous[i].as_str()) {
            assert(string_views(current@)[i as int] != string_views(previous@)[i as int]);
            return true;
        }
        i = i + 1;
    }
    assert(string_views(current@) =~= string_views(previous@));
    false
}

/// A comparison of a media-query condition.
#[derive(Debug, Clone, Copy, PartialEq, Eq, Structural)]
pub enum CompareOp {
    Ge,
    Le,
    Lt,
    Gt,
    Eq,
}

/// One part of a media-query condition.
#[derive(Debug)]
pub enum ConditionPart {
    /// Compare the trimmed text on each side of the operator.
    Compare { op: CompareOp, left: String, right: String },
    /// Not a comparison: the part is false.
    Invalid,
}

/// The operator a condition part is read with, and its text: the first of
/// `>=`, `<=`, `<`, `>`, `==` that occurs in it.
pub open spec fn operator_of(c: Seq<char>) -> Option<(CompareOp, Seq<char>)> {
    if contains_seq(c, ">="@) {
        Some((CompareOp::Ge, ">="@))
    } else if contains_seq(c, "<="@) {
        Some((CompareOp::Le, "<="@))
    } else if contains_seq(c, "<"@) {
        Some((CompareOp::Lt, "<"@))
    } else if contains_seq(c, ">"@) {
        Some((CompareOp::Gt, ">"@))
    } else if contains_seq(c, "=="@) {
        Some((CompareOp::Eq, "=="@))
    } else {
        None
    }
}

/// The trimmed parts of a condition between its ` and `s.
pub fn condition_parts(condition: &str) -> (parts: Vec<String>)
    ensures
        parts@.len() == split_all(condition@, " and "@).len(),
        forall|i: int|
            0 <= i < parts@.len() ==> (#[trigger] parts@[i])@ == trim_ws(
                split_all(condition@, " and "@)[i],
            ),
{
    proof {
        reveal_strlit(" and ");
    }
    let raw = split(condition, " and ");
    let mut parts: Vec<String> = Vec::new();
    let mut i: usize = 0;
    while i < raw.len()
        invariant
            i <= raw@.len(),
            raw@.len() == split_all(condition@, " and "@).len(),
            forall|k: int| 0 <= k < raw@.len() ==> (#[trigger] raw@[k])@ == split_all(condition@, " and "@)[k],
            parts@.len() == i,
            forall|k: int| 0 <= k < i ==> (#[trigger] parts@[k])@ == trim_ws(split_all(condition@, " and "@)[k]),
        decreases raw@.len() - i,
    {
        parts.push(trim(raw[i].as_str()));
        i = i + 1;
    }
    parts
}

/// Reads one trimmed condition part: the first operator that occurs in it
/// must occur exactly once, and the trimmed text on each side is compared.
pub fn classify_condition(part: &str) -> (r: ConditionPart)
    ensures
        match operator_of(part@) {
            None => r is Invalid,
            Some((op, text)) => {
                let pieces = split_all(part@, text);
                if pieces.len() == 2 {
                    r matches ConditionPart::Compare { op: o, left, right } && o == op && left@
                        == trim_ws(pieces[0]) && right@ == trim_ws(pieces[1])
                } else {
                    r is Invalid
                }
            },
        },
{
    proof {
        reveal_strlit(">=");
        reveal_strlit("<=");
        reveal_strlit("<");
        reveal_strlit(">");
        reveal_strlit("==");
    }
    let (op, text) = if contains(part, ">=") {
        (CompareOp::Ge, ">=")
    } else if contains(part, "<=") {
        (CompareOp::Le, "<=")
    } else if contains(part, "<") {
        (CompareOp::Lt, "<")
    } else if contains(part, ">") {
        (CompareOp::Gt, ">")
    } else if contains(part, "==") {
        (CompareOp::Eq, "==")
    } else {
        return ConditionPart::Invalid;
    };
    let pieces = split(part, text);
    if pieces.len() == 2 {
        ConditionPart::Compare {
            op,
            left: trim(pieces[0].as_str()),
            right: trim(pieces[1].as_str()),
        }
    } else {
        ConditionPart::Invalid
    }
}

/// The element ids styled by query `q`, each with its query and position.
pub open spec fn query_entries(q: int, ids: Seq<Seq<char>>) -> Seq<(Seq<char>, (usize, usize))> {
    Seq::new(ids.len(), |k: int| (ids[k], (q as usize, k as usize)))
}

/// The element ids styled by the matching queries, in order, each with its
/// query and position.
pub open spec fn style_entries(qs: Seq<Seq<Seq<char>>>) -> Seq<(Seq<char>, (usize, usize))>
    decreases qs.len(),
{
    if qs.len() == 0 {
        seq![]
    } else {
        style_entries(qs.drop_last()) + query_entries(qs.len() - 1, qs.last())
    }
}

/// The element ids of each query, by their characters.
pub open spec fn query_views(queries: Seq<Vec<String>>) -> Seq<Seq<Seq<char>>> {
    queries.map_values(|v: Vec<String>| string_views(v@))
}

proof fn lemma_pairs_to_map_push<V>(s: Seq<(Seq<char>, V)>, x: (Seq<char>, V))
    ensures
        pairs_to_map(s.push(x)) == pairs_to_map(s).insert(x.0, x.1),
{
    assert(s.push(x).drop_last() =~= s);
}

/// Each entry of the styled elements names an element of its query at its
/// position.
proof fn lemma_entries_valid(qs: Seq<Seq<Seq<char>>>, e: int)
    requires
        qs.len() <= usize::MAX,
        forall|q: int| 0 <= q < qs.len() ==> #[trigger] qs[q].len() <= usize::MAX,
        0 <= e < style_entries(qs).len(),
    ensures
        ({
            let (id, (q, k)) = style_entries(qs)[e];
            &&& q < qs.len()
            &&& k < qs[q as int].len()
            &&& qs[q as int][k as int] == id
        }),
    decreases qs.len(),
{
    let init = qs.drop_last();
    let n1 = style_entries(init).len();
    if e < n1 {
        assert forall|q: int| 0 <= q < init.len() implies #[trigger] init[q].len() <= usize::MAX by {
            assert(init[q] == qs[q]);
        }
        lemma_entries_valid(init, e);
        let (id, (q, k)) = style_entries(init)[e];
        assert(init[q as int] == qs[q as int]);
    } else {
        assert(qs.last().len() <= usize::MAX);
        assert(qs.last() == qs[qs.len() - 1]);
    }
}

/// The entries come query by query, and within a query position by
/// position.
proof fn lemma_entries_ordered(qs: Seq<Seq<Seq<char>>>, e1: int, e2: int)
    requires
        qs.len() <= usize::MAX,
        forall|q: int| 0 <= q < qs.len() ==> #[trigger] qs[q].len() <= usize::MAX,
        0 <= e1 < e2 < style_entries(qs).len(),
    ensures
        ({
            let a = style_entries(qs)[e1].1;
            let b = style_entries(qs)[e2].1;
            a.0 < b.0 || (a.0 == b.0 && a.1 < b.1)
        }),
    decreases qs.len(),
{
    let init = qs.drop_last();
    let n1 = style_entries(init).len();
    assert forall|q: int| 0 <= q < init.len() implies #[trigger] init[q].len() <= usize::MAX by {
        assert(init[q] == qs[q]);
    }
    if e2 < n1 {
        lemma_entries_ordered(init, e1, e2);
    } else if e1 < n1 {
        lemma_entries_valid(init, e1);
    } else {
        assert(qs.last() == qs[qs.len() - 1]);
    }
}

/// Every element of every query has its entry.
proof fn lemma_entries_complete(qs: Seq<Seq<Seq<char>>>, q: int, k: int)
    requires
        qs.len() <= usize::MAX,
        forall|i: int| 0 <= i < qs.len() ==> #[trigger] qs[i].len() <= usize::MAX,
        0 <= q < qs.len(),
        0 <= k < qs[q].len(),
    ensures
        exists|e: int|
            0 <= e < style_entries(qs).len() && #[trigger] style_entries(qs)[e] == (
                qs[q][k],
                (q as usize, k as usize),
            ),
    decreases qs.len(),
{
    let init = qs.drop_last();
    let n1 = style_entries(init).len();
    if q == qs.len() - 1 {
        assert(qs.last() == qs[q]);
        assert(style_entries(qs)[n1 + k] == (qs[q][k], (q as usize, k as usize)));
    } else {
        assert forall|i: int| 0 <= i < init.len() implies #[trigger] init[i].len() <= usize::MAX by {
            assert(init[i] == qs[i]);
        }
        assert(init[q] == qs[q]);
        lemma_entries_complete(init, q, k);
        let e = choose|e: int|
            0 <= e < style_entries(init).len() && #[trigger] style_entries(init)[e] == (
                init[q][k],
                (q as usize, k as usize),
            );
        assert(style_entries(qs)[e] == style_entries(init)[e]);
    }
}

/// Each element takes the style of its own entry in the last query that
/// styles it: an element is in the merged map exactly when some matching
/// query styles it, and then it is bound to a query and position at which
/// that query names this very element, no later query names it, and the
/// query does not name it again further on.
pub proof fn law_each_element_takes_its_last_style(queries: Seq<Seq<Seq<char>>>, id: Seq<char>)
    requires
        queries.len() <= usize::MAX,
        forall|q: int| 0 <= q < queries.len() ==> #[trigger] queries[q].len() <= usize::MAX,
    ensures
        pairs_to_map(style_entries(queries)).contains_key(id) <==> exists|q: int, k: int|
            0 <= q < queries.len() && 0 <= k < queries[q].len() && #[trigger] queries[q][k] == id,
        pairs_to_map(style_entries(queries)).contains_key(id) ==> {
            let (q, k) = pairs_to_map(style_entries(queries))[id];
            &&& q < queries.len()
            &&& k < queries[q as int].len()
            &&& queries[q as int][k as int] == id
            &&& forall|q2: int, k2: int|
                q < q2 < queries.len() && 0 <= k2 < queries[q2].len() ==> #[trigger] queries[q2][k2]
                    != id
            &&& forall|k2: int| k < k2 < queries[q as int].len() ==> #[trigger] queries[q as int][k2] != id
        },
{
    let es = style_entries(queries);
    lemma_pairs_to_map_last(es, id);
    if exists|q: int, k: int|
        0 <= q < queries.len() && 0 <= k < queries[q].len() && #[trigger] queries[q][k] == id {
        let (q, k) = choose|q: int, k: int|
            0 <= q < queries.len() && 0 <= k < queries[q].len() && #[trigger] queries[q][k] == id;
        lemma_entries_complete(queries, q, k);
        let e = choose|e: int|
            0 <= e < es.len() && #[trigger] es[e] == (queries[q][k], (q as usize, k as usize));
        assert(es[e].0 == id);
    }
    if pairs_to_map(es).contains_key(id) {
        let i = choose|i: int|
            0 <= i < es.len() && #[trigger] es[i].0 == id && pairs_to_map(es)[id] == es[i].1
                && forall|j: int| i < j < es.len() ==> es[j].0 != id;
        lemma_entries_valid(queries, i);
        let (q, k) = es[i].1;
        assert forall|q2: int, k2: int|
            q < q2 < queries.len() && 0 <= k2 < queries[q2].len() implies #[trigger] queries[q2][k2]
                != id by {
            if queries[q2][k2] == id {
                lemma_entries_complete(queries, q2, k2);
                let e2 = choose|e2: int|
                    0 <= e2 < es.len() && #[trigger] es[e2] == (
                        queries[q2][k2],
                        (q2 as usize, k2 as usize),
                    );
                if e2 < i {
                    lemma_entries_ordered(queries, e2, i);
                }
                assert(e2 != i);
            }
        }
        assert forall|k2: int| k < k2 < queries[q as int].len() implies #[trigger] queries[q as int][k2]
            != id by {
            if queries[q as int][k2] == id {
                lemma_entries_complete(queries, q as int, k2);
                let e2 = choose|e2: int|
                    0 <= e2 < es.len() && #[trigger] es[e2] == (
                        queries[q as int][k2],
                        (q as int as usize, k2 as usize),
                    );
                if e2 < i {
                    lemma_entries_ordered(queries, e2, i);
                }
                assert(e2 != i);
            }
        }
        if !(exists|q: int, k: int|
            0 <= q < queries.len() && 0 <= k < queries[q].len() && #[trigger] queries[q][k] == id) {
            assert(queries[q as int][k as int] == id);
        }
    }
}

/// Merges the styles of the matching queries, given the element ids that
/// each query styles: each element takes the style of the last query that
/// styles it (by query and position), and every styled element is listed
/// in order.
pub fn merge_matched_styles(queries: &Vec<Vec<String>>) -> (r: (StrMap<(usize, usize)>, Vec<String>))
    ensures
        r.0@ == pairs_to_map(style_entries(query_views(queries@))),
        string_views(r.1@) == keys_of(style_entries(query_views(queries@))),
{
    let ghost qv = query_views(queries@);
    let mut map: StrMap<(usize, usize)> = StrMap::new();
    let mut applied: Vec<String> = Vec::new();
    let mut q: usize = 0;
    while q < queries.len()
        invariant
            qv == query_views(queries@),
            q <= queries@.len(),
            map@ == pairs_to_map(style_entries(qv.take(q as int))),
            string_views(applied@) == keys_of(style_entries(qv.take(q as int))),
        decreases queries@.len() - q,
    {
        let ids = &queries[q];
        let ghost base = style_entries(qv.take(q as int));
        assert(qv[q as int] == string_views(ids@));
        let mut k: usize = 0;
        assert(base + query_entries(q as int, qv[q as int].take(0)) =~= base);
        while k < ids.len()
            invariant
                qv == query_views(queries@),
                q < queries@.len(),
                *ids == queries@[q as int],
                qv[q as int] == string_views(ids@),
                k <= ids@.len(),
                base == style_entries(qv.take(q as int)),
                map@ == pairs_to_map(base + query_entries(q as int, qv[q as int].take(k as int))),
                string_views(applied@) == keys_of(base + query_entries(q as int, qv[q as int].take(k as int))),
            decreases ids@.len() - k,
        {
            let ghost before = base + query_entries(q as int, qv[q as int].take(k as int));
            let ghost entry = (ids@[k as int]@, (q, k));
            assert(base + query_entries(q as int, qv[q as int].take(k + 1)) =~= before.push(entry));
            proof {
                lemma_pairs_to_map_push(before, entry);
            }
            let ghost old_applied = string_views(applied@);
            map.insert(ids[k].clone(), (q, k));
            applied.push(ids[k].clone());
            assert(string_views(applied@) =~= old_applied.push(ids@[k as int]@));
            assert(keys_of(before.push(entry)) =~= keys_of(before).push(entry.0));
            k = k + 1;
        }
        assert(qv[q as int].take(ids@.len() as int) =~= qv[q as int]);
        assert(qv.take(q + 1).drop_last() =~= qv.take(q as int));
        assert(style_entries(qv.take(q + 1)) == base + query_entries(q as int, qv[q as int]));
        q = q + 1;
    }
    assert(qv.take(queries@.len() as int) =~= qv);
    (map, applied)
}

} // verus!
