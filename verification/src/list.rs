//! Filtering profiles by a query.
use vstd::prelude::*;
use crate::text::{contains_sub, has_prefix, lowercase, strip_prefix_spec, strip_prefix, str_contains, to_lower};
use crate::config::{Store, store_profiles};
use crate::types::{Profile, ProfileView, profile_views, views};

verus! {

/// Some item, lowercased, contains `v`.
pub open spec fn any_contains(items: Seq<Seq<char>>, v: Seq<char>) -> bool {
    exists|i: int| 0 <= i < items.len() && contains_sub(lowercase(#[trigger] items[i]), v)
}

/// Whether a profile matches an already lowercased query:
/// `tag:V`, `alias:V` and `name:V` look for `V` in the tags, the aliases
/// or the name (each lowercased); any other query is looked for in the
/// name, the aliases, the tags and the note.
pub open spec fn matches_query(p: ProfileView, ql: Seq<char>) -> bool {
    match strip_prefix_spec(ql, "tag:"@) {
        Some(v) => match p.metadata {
            Some(m) => any_contains(m.tags, v),
            None => false,
        },
        None => match strip_prefix_spec(ql, "alias:"@) {
            Some(v) => match p.metadata {
                Some(m) => any_contains(m.aliases, v),
                None => false,
            },
            None => match strip_prefix_spec(ql, "name:"@) {
                Some(v) => contains_sub(lowercase(p.name), v),
                None => contains_sub(lowercase(p.name), ql) || match p.metadata {
                    Some(m) => any_contains(m.aliases, ql) || any_contains(m.tags, ql) || match m.note {
                        Some(n) => contains_sub(lowercase(n), ql),
                        None => false,
                    },
                    None => false,
                },
            },
        },
    }
}

/// What a filter with this query keeps.
pub open spec fn filter_spec(ps: Seq<ProfileView>, query: Seq<char>) -> Seq<ProfileView> {
    if query.len() == 0 {
        ps
    } else {
        ps.filter(|p: ProfileView| matches_query(p, lowercase(query)))
    }
}

/// Whether some item, lowercased, contains `v`.
fn any_contains_exec(items: &Vec<String>, v: &str) -> (r: bool)
    ensures
        r == any_contains(views(items@), v@),
{
    let n = items.len();
    let ghost iv = views(items@);
    for i in 0..n
        invariant
            n == items@.len(),
            iv == views(items@),
            forall|j: int| 0 <= j < i ==> !contains_sub(lowercase(#[trigger] iv[j]), v@),
    {
        let l = to_lower(items[i].as_str());
        if str_contains(l.as_str(), v) {
            assert(contains_sub(lowercase(iv[i as int]), v@));
            return true;
        }
    }
    false
}

/// Which field a query looks in.
enum QueryKind {
    Tag(String),
    Alias(String),
    Name(String),
    General(String),
}

/// Utility to filter profiles by a query.
pub struct ListFilter;

impl ListFilter {
    /// The profiles that match the query, in order; all of them when the
    /// query is absent or empty. Matching ignores case.
    pub fn filter(profiles: Vec<Profile>, query: Option<&str>) -> (r: Vec<Profile>)
        ensures
            profile_views(r@) == filter_spec(
                profile_views(profiles@),
                match query {
                    Some(q) => q@,
                    None => Seq::<char>::empty(),
                },
            ),
    {
        let query_str = match query {
            Some(q) => q,
            None => "",
        };
        let ghost qv = match query {
            Some(q) => q@,
            None => Seq::<char>::empty(),
        };
        proof {
            reveal_strlit("");
        }
        if query_str.unicode_len() == 0 {
            return profiles;
        }
        let ql = to_lower(query_str);
        let kind = match strip_prefix(ql.as_str(), "tag:") {
            Some(v) => QueryKind::Tag(v),
            None => match strip_prefix(ql.as_str(), "alias:") {
                Some(v) => QueryKind::Alias(v),
                None => match strip_prefix(ql.as_str(), "name:") {
                    Some(v) => QueryKind::Name(v),
                    None => QueryKind::General(ql.clone()),
                },
            },
        };
        let ghost pv = profile_views(profiles@);
        let ghost pred = |p: ProfileView| matches_query(p, lowercase(qv));
        let mut r: Vec<Profile> = Vec::new();
        let n = profiles.len();
        for i in 0..n
            invariant
                n == profiles@.len(),
                pv == profile_views(profiles@),
                ql@ == lowercase(qv),
                pred == (|p: ProfileView| matches_query(p, lowercase(qv))),
                match kind {
                    QueryKind::Tag(v) => strip_prefix_spec(ql@, "tag:"@) == Some(v@),
                    QueryKind::Alias(v) => strip_prefix_spec(ql@, "tag:"@) is None
                        && strip_prefix_spec(ql@, "alias:"@) == Some(v@),
                    QueryKind::Name(v) => strip_prefix_spec(ql@, "tag:"@) is None
                        && strip_prefix_spec(ql@, "alias:"@) is None
                        && strip_prefix_spec(ql@, "name:"@) == Some(v@),
                    QueryKind::General(v) => strip_prefix_spec(ql@, "tag:"@) is None
                        && strip_prefix_spec(ql@, "alias:"@) is None
                        && strip_prefix_spec(ql@, "name:"@) is None && v@ == ql@,
                },
                profile_views(r@) == pv.take(i as int).filter(pred),
        {
            let p = &profiles[i];
            let keep = match &kind {
                QueryKind::Tag(v) => match &p.metadata {
                    Some(m) => any_contains_exec(&m.tags, v.as_str()),
                    None => false,
                },
                QueryKind::Alias(v) => match &p.metadata {
                    Some(m) => any_contains_exec(&m.aliases, v.as_str()),
                    None => false,
                },
                QueryKind::Name(v) => {
                    let ln = to_lower(p.name.as_str());
                    str_contains(ln.as_str(), v.as_str())
                },
                QueryKind::General(v) => {
                    let ln = to_lower(p.name.as_str());
                    if str_contains(ln.as_str(), v.as_str()) {
                        true
                    } else {
                        match &p.metadata {
                            Some(m) => {
                                if any_contains_exec(&m.aliases, v.as_str()) {
                                    true
                                } else if any_contains_exec(&m.tags, v.as_str()) {
                                    true
                                } else {
                                    match &m.note {
                                        Some(note) => {
                                            let lnote = to_lower(note.as_str());
                                            str_contains(lnote.as_str(), v.as_str())
                                        },
                                        None => false,
                                    }
                                }
                            },
                            None => false,
                        }
                    }
                },
            };
            proof {
                assert(pv[i as int] == p@);
                assert(keep == pred(pv[i as int]));
                assert(pv.take(i + 1) =~= pv.take(i as int).push(pv[i as int]));
                pv.take(i as int).lemma_filter_push(pv[i as int], pred);
            }
            if keep {
                r.push(p.duplicate());
                assert(profile_views(r@) =~= profile_views(r@.drop_last()).push(r@.last()@));
            }
        }
        assert(pv.take(n as int) =~= pv);
        r
    }
}

/// Command to list profiles.
pub struct ListCommand;

impl ListCommand {
    /// The profiles to list: all profiles of the store that match the
    /// query (see `ListFilter::filter`).
    pub fn execute(store: &Store, query: Option<String>) -> (r: Vec<Profile>)
        requires
            store@.wf(),
        ensures
            profile_views(r@) == filter_spec(
                store_profiles(store@),
                match query {
                    Some(q) => q@,
                    None => Seq::<char>::empty(),
                },
            ),
    {
        let profiles = store.load_profiles();
        match &query {
            Some(q) => ListFilter::filter(profiles, Some(q.as_str())),
            None => ListFilter::filter(profiles, None),
        }
    }
}

/// Filtering twice with one predicate is filtering once.
proof fn lemma_filter_twice(s: Seq<ProfileView>, pred: spec_fn(ProfileView) -> bool)
    ensures
        s.filter(pred).filter(pred) == s.filter(pred),
    decreases s.len(),
{
    reveal(Seq::filter);
    if s.len() > 0 {
        lemma_filter_twice(s.drop_last(), pred);
        let f = s.drop_last().filter(pred);
        if pred(s.last()) {
            let g = f.push(s.last());
            assert(g.drop_last() =~= f);
            assert(g.last() == s.last());
        }
    }
}

/// Filtering ignores the case of the query: two non-empty queries that
/// lower-case alike keep the same profiles. And filtering the kept
/// profiles again with the same query keeps them all.
pub proof fn law_filter_ignores_case_and_is_idempotent(ps: Seq<ProfileView>, q1: Seq<char>, q2: Seq<char>)
    ensures
        q1.len() > 0 && q2.len() > 0 && lowercase(q1) == lowercase(q2) ==> filter_spec(ps, q1) == filter_spec(
            ps,
            q2,
        ),
        filter_spec(filter_spec(ps, q1), q1) == filter_spec(ps, q1),
{
    if q1.len() > 0 {
        lemma_filter_twice(ps, |p: ProfileView| matches_query(p, lowercase(q1)));
    }
}

/// A non-empty query that, lowercased, starts with none of `tag:`,
/// `alias:` and `name:` keeps, in order, the profiles whose name, one of
/// whose aliases, one of whose tags or whose note contains it, each
/// compared lowercased.
pub proof fn law_general_query_looks_everywhere(ps: Seq<ProfileView>, query: Seq<char>)
    requires
        query.len() > 0,
        !has_prefix(lowercase(query), "tag:"@),
        !has_prefix(lowercase(query), "alias:"@),
        !has_prefix(lowercase(query), "name:"@),
    ensures
        filter_spec(ps, query) == ps.filter(
            |p: ProfileView|
                contains_sub(lowercase(p.name), lowercase(query)) || (p.metadata matches Some(m) && (
                (exists|k: int| 0 <= k < m.aliases.len() && contains_sub(lowercase(#[trigger] m.aliases[k]), lowercase(query)))
                || (exists|k: int| 0 <= k < m.tags.len() && contains_sub(lowercase(#[trigger] m.tags[k]), lowercase(query)))
                || (m.note matches Some(n) && contains_sub(lowercase(n), lowercase(query))))),
        ),
{
    let ql = lowercase(query);
    assert((|p: ProfileView| matches_query(p, ql)) =~= (|p: ProfileView|
        contains_sub(lowercase(p.name), ql) || (p.metadata matches Some(m) && (
        (exists|k: int| 0 <= k < m.aliases.len() && contains_sub(lowercase(#[trigger] m.aliases[k]), ql))
        || (exists|k: int| 0 <= k < m.tags.len() && contains_sub(lowercase(#[trigger] m.tags[k]), ql))
        || (m.note matches Some(n) && contains_sub(lowercase(n), ql))))));
}

/// A non-empty query that, lowercased, is `tag:V` keeps the profiles one
/// of whose tags, lowercased, contains `V`; `alias:V` those one of whose
/// aliases does; `name:V` those whose lowercased name does.
pub proof fn law_prefixed_query_looks_in_one_field(ps: Seq<ProfileView>, query: Seq<char>)
    requires
        query.len() > 0,
    ensures
        has_prefix(lowercase(query), "tag:"@) ==> filter_spec(ps, query) == ps.filter(
            |p: ProfileView|
                p.metadata matches Some(m) && exists|k: int|
                    0 <= k < m.tags.len() && contains_sub(
                        lowercase(#[trigger] m.tags[k]),
                        lowercase(query).subrange("tag:"@.len() as int, lowercase(query).len() as int),
                    ),
        ),
        !has_prefix(lowercase(query), "tag:"@) && has_prefix(lowercase(query), "alias:"@) ==> filter_spec(
            ps,
            query,
        ) == ps.filter(
            |p: ProfileView|
                p.metadata matches Some(m) && exists|k: int|
                    0 <= k < m.aliases.len() && contains_sub(
                        lowercase(#[trigger] m.aliases[k]),
                        lowercase(query).subrange("alias:"@.len() as int, lowercase(query).len() as int),
                    ),
        ),
        !has_prefix(lowercase(query), "tag:"@) && !has_prefix(lowercase(query), "alias:"@) && has_prefix(
            lowercase(query),
            "name:"@,
        ) ==> filter_spec(ps, query) == ps.filter(
            |p: ProfileView|
                contains_sub(
                    lowercase(p.name),
                    lowercase(query).subrange("name:"@.len() as int, lowercase(query).len() as int),
                ),
        ),
{
    let ql = lowercase(query);
    if has_prefix(ql, "tag:"@) {
        let v = ql.subrange("tag:"@.len() as int, ql.len() as int);
        assert((|p: ProfileView| matches_query(p, ql)) =~= (|p: ProfileView|
            p.metadata matches Some(m) && exists|k: int| 0 <= k < m.tags.len() && contains_sub(lowercase(#[trigger] m.tags[k]), v)));
    } else if has_prefix(ql, "alias:"@) {
        let v = ql.subrange("alias:"@.len() as int, ql.len() as int);
        assert((|p: ProfileView| matches_query(p, ql)) =~= (|p: ProfileView|
            p.metadata matches Some(m) && exists|k: int| 0 <= k < m.aliases.len() && contains_sub(lowercase(#[trigger] m.aliases[k]), v)));
    } else if has_prefix(ql, "name:"@) {
        let v = ql.subrange("name:"@.len() as int, ql.len() as int);
        assert((|p: ProfileView| matches_query(p, ql)) =~= (|p: ProfileView| contains_sub(lowercase(p.name), v)));
    }
}

} // verus!
