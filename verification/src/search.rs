//! Ordering of profiles for interactive search, and the search target.
use vstd::prelude::*;
use crate::order::{seq_lt, str_lt, lemma_lt_irreflexive, lemma_lt_transitive, lemma_lt_total, lemma_lt_asymmetric, law_prefix_comes_first};
use crate::config::{Resolution, Store, resolve, store_profiles};
use crate::error::AppError;
use crate::search_view::{display_items, display_lines};
use crate::text::str_eq;
use crate::types::{Profile, ProfileView, profile_views, views};

verus! {

broadcast use vstd::seq_lib::group_to_multiset_ensures;

/// Specific target field to search within.
#[derive(Debug, Clone, Copy, PartialEq, Eq, Structural)]
pub enum SearchTarget {
    /// Search across all fields.
    All,
    /// Search only tags.
    Tags,
    /// Search only aliases.
    Aliases,
    /// Search only profile names.
    Name,
}

/// When the profile was last used (its metadata's timestamp text).
pub open spec fn last_used(p: ProfileView) -> Option<Seq<char>> {
    match p.metadata {
        Some(m) => m.last_used_at,
        None => None,
    }
}

/// Order of optional strings: absent first, then by `seq_lt`.
pub open spec fn opt_lt(x: Option<Seq<char>>, y: Option<Seq<char>>) -> bool {
    match (x, y) {
        (None, Some(_)) => true,
        (Some(a), Some(b)) => seq_lt(a, b),
        _ => false,
    }
}

/// `a` is listed strictly before `b`: more recently used first (a
/// profile never used comes last), then by name.
pub open spec fn sort_before(a: ProfileView, b: ProfileView) -> bool {
    opt_lt(last_used(b), last_used(a)) || (last_used(a) == last_used(b) && seq_lt(a.name, b.name))
}

/// No profile is listed strictly before an earlier one.
pub open spec fn sorted_for_search(s: Seq<ProfileView>) -> bool {
    forall|i: int, j: int| 0 <= i < j < s.len() ==> !sort_before(#[trigger] s[j], #[trigger] s[i])
}

/// In a list sorted for search, of two profiles never used, one whose
/// name is a proper prefix of the other's comes first (as `str`'s order
/// puts `dev` before `dev-admin`).
pub proof fn law_never_used_prefix_sorts_first(s: Seq<ProfileView>, i: int, j: int, rest: Seq<char>)
    requires
        sorted_for_search(s),
        0 <= i < s.len(),
        0 <= j < s.len(),
        last_used(s[i]) is None,
        last_used(s[j]) is None,
        rest.len() > 0,
        s[j].name == s[i].name + rest,
    ensures
        i < j,
{
    law_prefix_comes_first(s[i].name, rest);
    assert(sort_before(s[i], s[j]));
    if j < i {
        assert(!sort_before(s[i], s[j]));
    }
    if i == j {
        assert(s[i].name.len() == s[j].name.len());
    }
}

/// In a list sorted for search, a profile that was used comes before one
/// never used, and of two used profiles the more recently used (the later
/// timestamp) comes first.
pub proof fn law_recently_used_sorts_first(s: Seq<ProfileView>, i: int, j: int)
    requires
        sorted_for_search(s),
        0 <= i < s.len(),
        0 <= j < s.len(),
        last_used(s[i]) is Some,
        last_used(s[j]) is None || seq_lt(last_used(s[j])->0, last_used(s[i])->0),
    ensures
        i < j,
{
    assert(sort_before(s[i], s[j]));
    if j < i {
        assert(!sort_before(s[i], s[j]));
    }
    if i == j {
        lemma_lt_irreflexive(last_used(s[i])->0);
    }
}

/// `opt_lt` is a strict order, total on distinct values.
proof fn lemma_opt_lt(x: Option<Seq<char>>, y: Option<Seq<char>>, z: Option<Seq<char>>)
    ensures
        !opt_lt(x, x),
        opt_lt(x, y) && opt_lt(y, z) ==> opt_lt(x, z),
        !(opt_lt(x, y) && opt_lt(y, x)),
        x == y || opt_lt(x, y) || opt_lt(y, x),
{
    match x {
        Some(a) => lemma_lt_irreflexive(a),
        None => {},
    }
    match (x, y, z) {
        (Some(a), Some(b), Some(c)) => {
            if seq_lt(a, b) && seq_lt(b, c) {
                lemma_lt_transitive(a, b, c);
            }
            lemma_lt_asymmetric(a, b);
            lemma_lt_total(a, b);
        },
        (Some(a), Some(b), None) => {
            lemma_lt_asymmetric(a, b);
            lemma_lt_total(a, b);
        },
        _ => {},
    }
}

/// `sort_before` is a strict order.
pub proof fn lemma_sort_before(a: ProfileView, b: ProfileView, c: ProfileView)
    ensures
        !sort_before(a, a),
        sort_before(a, b) && sort_before(b, c) ==> sort_before(a, c),
        !(sort_before(a, b) && sort_before(b, a)),
{
    lemma_opt_lt(last_used(a), last_used(b), last_used(c));
    lemma_opt_lt(last_used(c), last_used(b), last_used(a));
    lemma_opt_lt(last_used(b), last_used(a), last_used(c));
    lemma_opt_lt(last_used(c), last_used(a), last_used(b));
    lemma_opt_lt(last_used(a), last_used(c), last_used(b));
    lemma_opt_lt(last_used(b), last_used(c), last_used(a));
    lemma_lt_irreflexive(a.name);
    if seq_lt(a.name, b.name) && seq_lt(b.name, c.name) {
        lemma_lt_transitive(a.name, b.name, c.name);
    }
    lemma_lt_asymmetric(a.name, b.name);
}

/// Two profiles have the same sort key: the same time of last use and
/// the same name.
pub open spec fn same_key(a: ProfileView, b: ProfileView) -> bool {
    last_used(a) == last_used(b) && a.name == b.name
}

/// Whether a profile has the sort key of `q`.
pub open spec fn key_of(q: ProfileView) -> spec_fn(ProfileView) -> bool {
    |p: ProfileView| same_key(p, q)
}

/// The profiles of a sequence that have the sort key of `q`, in order.
pub open spec fn with_key(s: Seq<ProfileView>, q: ProfileView) -> Seq<ProfileView> {
    s.filter(key_of(q))
}

/// Filtering an insertion: what is kept before the place, the inserted
/// item if kept, and what is kept after.
proof fn lemma_filter_insert(s: Seq<ProfileView>, p: int, x: ProfileView, pred: spec_fn(ProfileView) -> bool)
    requires
        0 <= p <= s.len(),
    ensures
        s.insert(p, x).filter(pred) == s.take(p).filter(pred) + (if pred(x) {
            seq![x]
        } else {
            Seq::empty()
        }) + s.skip(p).filter(pred),
        s.filter(pred) == s.take(p).filter(pred) + s.skip(p).filter(pred),
{
    reveal_with_fuel(Seq::filter, 2);
    assert(s.insert(p, x) =~= s.take(p) + seq![x] + s.skip(p));
    assert(s =~= s.take(p) + s.skip(p));
    Seq::filter_distributes_over_add(s.take(p) + seq![x], s.skip(p), pred);
    Seq::filter_distributes_over_add(s.take(p), seq![x], pred);
    Seq::filter_distributes_over_add(s.take(p), s.skip(p), pred);
    assert(seq![x].drop_last() =~= Seq::<ProfileView>::empty());
    assert(seq![x].filter(pred) == if pred(x) {
        seq![x]
    } else {
        Seq::empty()
    });
}

/// Whether `a` is listed strictly before `b`.
fn sort_before_exec(a: &Profile, b: &Profile) -> (r: bool)
    ensures
        r == sort_before(a@, b@),
{
    let ta = match &a.metadata {
        Some(m) => &m.last_used_at,
        None => &None,
    };
    let tb = match &b.metadata {
        Some(m) => &m.last_used_at,
        None => &None,
    };
    let newer = match (tb, ta) {
        (None, Some(_)) => true,
        (Some(x), Some(y)) => str_lt(x.as_str(), y.as_str()),
        _ => false,
    };
    if newer {
        return true;
    }
    let same_time = match (ta, tb) {
        (None, None) => true,
        (Some(x), Some(y)) => str_eq(x.as_str(), y.as_str()),
        _ => false,
    };
    same_time && str_lt(a.name.as_str(), b.name.as_str())
}

/// Sorting of profiles for search.
pub struct SearchLogic;

impl SearchLogic {
    /// The profiles sorted by last use (most recent first, never used
    /// last), then by name; profiles with the same key keep their order.
    pub fn sort_profiles(profiles: Vec<Profile>) -> (r: Vec<Profile>)
        ensures
            sorted_for_search(profile_views(r@)),
            profile_views(r@).to_multiset() == profile_views(profiles@).to_multiset(),
            forall|q: ProfileView| #[trigger] with_key(profile_views(r@), q) == with_key(profile_views(profiles@), q),
    {
        let mut r: Vec<Profile> = Vec::new();
        let n = profiles.len();
        let ghost pv = profile_views(profiles@);
        assert(profile_views(r@) =~= pv.take(0));
        for i in 0..n
            invariant
                n == profiles@.len(),
                pv == profile_views(profiles@),
                sorted_for_search(profile_views(r@)),
                profile_views(r@).to_multiset() == pv.take(i as int).to_multiset(),
                forall|q: ProfileView| #[trigger] with_key(profile_views(r@), q) == with_key(pv.take(i as int), q),
        {
            let x = profiles[i].duplicate();
            let ghost rv = profile_views(r@);
            let m = r.len();
            let mut p: usize = 0;
            while p < m && !sort_before_exec(&x, &r[p])
                invariant
                    m == r@.len(),
                    rv == profile_views(r@),
                    p <= m,
                    forall|k: int| 0 <= k < p ==> !sort_before(x@, #[trigger] rv[k]),
                decreases m - p,
            {
                p = p + 1;
            }
            proof {
                assert forall|k: int| p <= k < m implies !sort_before(#[trigger] rv[k], x@) by {
                    assert(sort_before(x@, rv[p as int]));
                    lemma_sort_before(rv[k], x@, rv[p as int]);
                    if k > p {
                        assert(!sort_before(rv[k], rv[p as int]));
                    }
                }
            }
            r.insert(p, x);
            proof {
                let nv = profile_views(r@);
                assert(nv =~= rv.insert(p as int, x@));
                assert forall|a: int, b: int| 0 <= a < b < nv.len() implies !sort_before(
                    #[trigger] nv[b],
                    #[trigger] nv[a],
                ) by {
                    if a < p && b < p {
                    } else if a < p && b == p {
                    } else if a < p && b > p {
                        assert(nv[b] == rv[b - 1]);
                    } else if a == p {
                        assert(nv[b] == rv[b - 1]);
                    } else {
                        assert(nv[a] == rv[a - 1]);
                        assert(nv[b] == rv[b - 1]);
                    }
                }
                vstd::seq_lib::to_multiset_insert(rv, p as int, x@);
                assert(pv.take(i + 1) =~= pv.take(i as int).push(pv[i as int]));
                vstd::seq_lib::to_multiset_build(pv.take(i as int), pv[i as int]);
                assert forall|q: ProfileView| #[trigger] with_key(nv, q) == with_key(pv.take(i + 1), q) by {
                    let pred = key_of(q);
                    lemma_filter_insert(rv, p as int, x@, pred);
                    pv.take(i as int).lemma_filter_push(pv[i as int], pred);
                    assert(with_key(rv, q) == with_key(pv.take(i as int), q));
                    assert(pv[i as int] == x@);
                    if !pred(x@) {
                        assert(nv.filter(pred) =~= rv.filter(pred));
                    } else {
                        assert forall|k: int| 0 <= k < rv.skip(p as int).len() implies !pred(
                            #[trigger] rv.skip(p as int)[k],
                        ) by {
                            let y = rv[p + k];
                            assert(rv.skip(p as int)[k] == y);
                            if same_key(y, q) {
                                lemma_sort_before(y, rv[p as int], x@);
                                lemma_sort_before(x@, x@, x@);
                                if k > 0 {
                                    assert(!sort_before(rv[p + k], rv[p as int]));
                                }
                                assert(sort_before(y, rv[p as int]) == sort_before(x@, rv[p as int]));
                            }
                        }
                        crate::sync::lemma_filter_none(rv.skip(p as int), pred);
                        assert(nv.filter(pred) =~= rv.filter(pred).push(x@));
                    }
                }
            }
        }
        assert(pv.take(n as int) =~= pv);
        r
    }
}

/// The menu of an interactive search: the profiles in search order and
/// the line shown for each.
pub struct SearchMenu {
    pub profiles: Vec<Profile>,
    pub items: Vec<String>,
}

/// How a profile argument resolves.
pub enum NameResolution {
    /// To the profile of this name.
    Resolved(String),
    /// No name was given: the user chooses in an interactive search.
    Search,
}

/// Command to interactively search and select profiles.
pub struct SearchCommand;

impl SearchCommand {
    /// The menu for a search: all profiles sorted for search (see
    /// `SearchLogic::sort_profiles`) and their lines for the target.
    pub fn execute(store: &Store, target: SearchTarget) -> (r: SearchMenu)
        requires
            store@.wf(),
        ensures
            sorted_for_search(profile_views(r.profiles@)),
            profile_views(r.profiles@).to_multiset() == store_profiles(store@).to_multiset(),
            forall|q: ProfileView| #[trigger] with_key(profile_views(r.profiles@), q) == with_key(store_profiles(store@), q),
            views(r.items@) == display_lines(profile_views(r.profiles@), target),
    {
        let profiles = store.load_profiles();
        let sorted = SearchLogic::sort_profiles(profiles);
        let items = display_items(&sorted, target);
        SearchMenu { profiles: sorted, items }
    }

    /// Resolves a profile argument: a given name or alias resolves to
    /// its profile's name (see `resolve`), or is an error when no profile
    /// or several have it; without a name an interactive search is due.
    pub fn resolve_or_search(store: &Store, name_opt: Option<String>) -> (r: Result<NameResolution, AppError>)
        requires
            store@.wf(),
        ensures
            match name_opt {
                None => r matches Ok(NameResolution::Search),
                Some(n) => match resolve(store_profiles(store@), n@) {
                    Resolution::Found(p) => r matches Ok(NameResolution::Resolved(s)) && s@ == p.name,
                    Resolution::NotFound => r matches Err(AppError::ProfileNotFound(s)) && s@ == n@,
                    Resolution::Ambiguous => r matches Err(AppError::AmbiguousProfile(s)) && s@ == n@,
                },
            },
    {
        match name_opt {
            None => Ok(NameResolution::Search),
            Some(name) => match store.find_by_name_or_alias(name.as_str()) {
                Ok(Some(profile)) => Ok(NameResolution::Resolved(profile.name)),
                Ok(None) => Err(AppError::ProfileNotFound(name)),
                Err(e) => Err(e),
            },
        }
    }
}

} // verus!
