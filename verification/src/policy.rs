//! The safety policy: which profiles count as sensitive.
use vstd::prelude::*;
use crate::text::{contains_sub, lowercase, to_lower, str_contains};
use crate::types::views;

verus! {

broadcast use vstd::seq_lib::group_seq_properties;

/// The keywords that the policy uses when none are configured.
pub open spec fn default_keywords() -> Set<Seq<char>> {
    set!["prod"@, "production"@, "live"@, "main"@]
}

/// A profile is sensitive when its lowercased name contains a keyword,
/// or when one of its tags, lowercased, is a keyword.
pub open spec fn sensitive(keywords: Set<Seq<char>>, name: Seq<char>, tags: Seq<Seq<char>>) -> bool {
    (exists|k: Seq<char>| #[trigger] keywords.contains(k) && contains_sub(lowercase(name), k))
        || (exists|i: int| 0 <= i < tags.len() && keywords.contains(lowercase(#[trigger] tags[i])))
}

/// The lowercased form of each keyword, as a set.
pub open spec fn lowered_set(ks: Seq<Seq<char>>) -> Set<Seq<char>> {
    ks.map_values(|k: Seq<char>| lowercase(k)).to_set()
}

/// Policy defining which profiles are considered sensitive
/// (e.g. production environments).
pub struct ProfileSafetyPolicy {
    sensitive_keywords: Vec<String>,
}

impl View for ProfileSafetyPolicy {
    type V = Set<Seq<char>>;

    /// The set of sensitive keywords.
    closed spec fn view(&self) -> Set<Seq<char>> {
        views(self.sensitive_keywords@).to_set()
    }
}

/// Adds `k` to a keyword list unless an equal keyword is there already.
fn insert_keyword(keywords: &mut Vec<String>, k: String)
    requires
        views(old(keywords)@).no_duplicates(),
    ensures
        views(final(keywords)@).no_duplicates(),
        views(final(keywords)@).to_set() == views(old(keywords)@).to_set().insert(k@),
{
    let ghost before = views(keywords@);
    let n = keywords.len();
    for i in 0..n
        invariant
            n == keywords@.len(),
            views(keywords@) == before,
            before.no_duplicates(),
            forall|j: int| 0 <= j < i ==> before[j] != k@,
    {
        if keywords[i] == k {
            assert(before.to_set().contains(k@)) by {
                assert(before[i as int] == k@);
            }
            assert(before.to_set().insert(k@) =~= before.to_set());
            return;
        }
    }
    keywords.push(k);
    proof {
        let after = views(keywords@);
        assert(after =~= before.push(k@));
        assert(!before.contains(k@));
        assert(after.to_set() =~= before.to_set().insert(k@));
    }
}

impl Default for ProfileSafetyPolicy {
    fn default() -> (r: Self)
        ensures
            r@ == default_keywords(),
    {
        ProfileSafetyPolicy::new(None)
    }
}

impl ProfileSafetyPolicy {
    /// Creates a policy from the configured keywords (each lowercased),
    /// or with the default keywords when none are configured. Configured
    /// keywords replace the defaults.
    pub fn new(custom_keywords: Option<Vec<String>>) -> (r: Self)
        ensures
            r@ == match custom_keywords {
                Some(ks) => lowered_set(views(ks@)),
                None => default_keywords(),
            },
    {
        let mut sensitive_keywords: Vec<String> = Vec::new();
        assert(views(sensitive_keywords@) =~= Seq::<Seq<char>>::empty());
        match custom_keywords {
            Some(keywords) => {
                let n = keywords.len();
                let ghost ks = views(keywords@);
                for i in 0..n
                    invariant
                        n == keywords@.len(),
                        ks == views(keywords@),
                        views(sensitive_keywords@).no_duplicates(),
                        views(sensitive_keywords@).to_set() == lowered_set(ks.take(i as int)),
                {
                    let lower = to_lower(keywords[i].as_str());
                    insert_keyword(&mut sensitive_keywords, lower);
                    proof {
                        let f = |k: Seq<char>| lowercase(k);
                        assert(ks.take(i + 1) =~= ks.take(i as int).push(ks[i as int]));
                        assert(ks.take(i + 1).map_values(f) =~= ks.take(i as int).map_values(f).push(
                            lowercase(ks[i as int]),
                        ));
                        assert(lowered_set(ks.take(i + 1)) =~= lowered_set(ks.take(i as int)).insert(
                            lowercase(ks[i as int]),
                        ));
                    }
                }
                assert(ks.take(n as int) =~= ks);
            },
            None => {
                proof {
                    assert(views(sensitive_keywords@).to_set() =~= Set::empty());
                }
                insert_keyword(&mut sensitive_keywords, "prod".to_string());
                insert_keyword(&mut sensitive_keywords, "production".to_string());
                insert_keyword(&mut sensitive_keywords, "live".to_string());
                insert_keyword(&mut sensitive_keywords, "main".to_string());
                assert(views(sensitive_keywords@).to_set() =~= default_keywords());
            },
        }
        ProfileSafetyPolicy { sensitive_keywords }
    }

    /// Checks whether a profile is sensitive, by its name or its tags.
    pub fn is_sensitive_profile(&self, profile_name: &str, tags: &[String]) -> (r: bool)
        ensures
            r == sensitive(self@, profile_name@, views(tags@)),
    {
        let lower_name = to_lower(profile_name);
        let n = self.sensitive_keywords.len();
        let ghost kws = views(self.sensitive_keywords@);
        for i in 0..n
            invariant
                n == self.sensitive_keywords@.len(),
                kws == views(self.sensitive_keywords@),
                lower_name@ == lowercase(profile_name@),
                forall|j: int| 0 <= j < i ==> !contains_sub(lower_name@, #[trigger] kws[j]),
        {
            if str_contains(lower_name.as_str(), self.sensitive_keywords[i].as_str()) {
                assert(kws.to_set().contains(kws[i as int]));
                return true;
            }
        }
        assert forall|k: Seq<char>| #[trigger] self@.contains(k) implies !contains_sub(
            lower_name@,
            k,
        ) by {
            let j = choose|j: int| 0 <= j < kws.len() && kws[j] == k;
        }
        let m = tags.len();
        let ghost ts = views(tags@);
        for i in 0..m
            invariant
                m == tags@.len(),
                n == self.sensitive_keywords@.len(),
                ts == views(tags@),
                kws == views(self.sensitive_keywords@),
                forall|j: int| 0 <= j < i ==> !self@.contains(lowercase(#[trigger] ts[j])),
        {
            let lt = to_lower(tags[i].as_str());
            let mut found = false;
            for j in 0..n
                invariant
                    n == self.sensitive_keywords@.len(),
                    m == tags@.len(),
                    i < m,
                    ts == views(tags@),
                    kws == views(self.sensitive_keywords@),
                    lt@ == lowercase(ts[i as int]),
                    !found,
                    forall|q: int| 0 <= q < j ==> kws[q] != lt@,
            {
                if self.sensitive_keywords[j] == lt {
                    assert(kws.to_set().contains(kws[j as int]));
                    assert(self@.contains(lowercase(ts[i as int])));
                    return true;
                }
            }
            assert(!self@.contains(lt@)) by {
                if self@.contains(lt@) {
                    let q = choose|q: int| 0 <= q < kws.len() && kws[q] == lt@;
                }
            }
        }
        false
    }
}

/// With the default keywords, a profile is sensitive exactly when its
/// lowercased name contains `prod`, `production`, `live` or `main`, or
/// one of its tags, lowercased, is one of these words.
pub proof fn law_default_policy_guards_production(name: Seq<char>, tags: Seq<Seq<char>>)
    ensures
        sensitive(default_keywords(), name, tags) <==> (contains_sub(lowercase(name), "prod"@) || contains_sub(
            lowercase(name),
            "production"@,
        ) || contains_sub(lowercase(name), "live"@) || contains_sub(lowercase(name), "main"@) || exists|i: int|
            0 <= i < tags.len() && (lowercase(#[trigger] tags[i]) == "prod"@ || lowercase(tags[i])
                == "production"@ || lowercase(tags[i]) == "live"@ || lowercase(tags[i]) == "main"@)),
{
    let ks = default_keywords();
    assert(ks.contains("prod"@));
    assert(ks.contains("production"@));
    assert(ks.contains("live"@));
    assert(ks.contains("main"@));
}

} // verus!
