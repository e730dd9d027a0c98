//! Synchronizing the metadata with the AWS sources: adding the profiles
//! that have no metadata and removing the metadata that no profile has.
use vstd::prelude::*;
use crate::config::{
    Store, StoreView, aws_profiles, attach_one, effective_metadata, has_name, is_untracked,
    lemma_attach_names, orphan_names, store_profiles,
};
use crate::metadata::{
    MetaSeq, has_key, lemma_meta_insert, lemma_meta_insert_keys, lemma_meta_remove, lemma_meta_remove_keys,
    lemma_merge_local_names, meta_insert, meta_keys_distinct, meta_lookup, meta_remove,
};
use crate::text::{decimal, decimal_string};
use crate::types::{Metadata, MetadataView, Profile, ProfileView, profile_views, views};

verus! {

/// The names of profiles.
pub open spec fn profile_names(ps: Seq<ProfileView>) -> Seq<Seq<char>> {
    ps.map_values(|p: ProfileView| p.name)
}

/// Empty metadata stored under each name in turn.
pub open spec fn insert_empty_all(m: MetaSeq, names: Seq<Seq<char>>) -> MetaSeq
    decreases names.len(),
{
    if names.len() == 0 {
        m
    } else {
        meta_insert(insert_empty_all(m, names.drop_last()), names.last(), MetadataView::empty())
    }
}

/// The metadata of each name removed in turn.
pub open spec fn remove_all(m: MetaSeq, names: Seq<Seq<char>>) -> MetaSeq
    decreases names.len(),
{
    if names.len() == 0 {
        m
    } else {
        meta_remove(remove_all(m, names.drop_last()), names.last())
    }
}

/// The report on untracked profiles.
pub open spec fn untracked_lines(ps: Seq<ProfileView>) -> Seq<Seq<char>> {
    if ps.len() == 0 {
        seq!["No new profiles to add."@]
    } else {
        seq!["Found "@ + decimal(ps.len()) + " untracked profiles:"@] + ps.map_values(
            |p: ProfileView| "  + "@ + p.name,
        )
    }
}

/// The report on orphaned names.
pub open spec fn orphaned_lines(ns: Seq<Seq<char>>) -> Seq<Seq<char>> {
    if ns.len() == 0 {
        seq!["No orphaned profiles found."@]
    } else {
        seq![
            "\nFound "@ + decimal(ns.len())
                + " orphaned profiles (in metadata but missing from AWS config/creds):"@,
        ] + ns.map_values(|n: Seq<char>| "  - "@ + n)
    }
}

/// What to do with one kind of finding.
#[derive(PartialEq, Eq, Structural)]
pub enum SyncStep {
    /// Nothing: there is nothing to do, or only a check was asked for.
    Skip,
    /// Apply the change.
    Apply,
    /// Ask the user first.
    Ask,
}

/// The step for findings: none without findings or when only checking,
/// else apply when approved in advance, else ask.
pub open spec fn sync_step(has_items: bool, check_only: bool, auto_approve: bool) -> SyncStep {
    if !has_items || check_only {
        SyncStep::Skip
    } else if auto_approve {
        SyncStep::Apply
    } else {
        SyncStep::Ask
    }
}

/// Command to synchronize AWS config with metadata.
pub struct SyncCommand;

impl SyncCommand {
    /// The lines that report untracked profiles.
    pub fn untracked_report(untracked: &Vec<Profile>) -> (r: Vec<String>)
        ensures
            views(r@) == untracked_lines(profile_views(untracked@)),
    {
        let ghost pv = profile_views(untracked@);
        let mut r: Vec<String> = Vec::new();
        let n = untracked.len();
        if n == 0 {
            r.push("No new profiles to add.".to_string());
            assert(views(r@) =~= untracked_lines(pv));
            return r;
        }
        let head = "Found ".to_string().concat(decimal_string(n).as_str()).concat(" untracked profiles:");
        r.push(head);
        for i in 0..n
            invariant
                n == untracked@.len(),
                n > 0,
                pv == profile_views(untracked@),
                views(r@) == seq!["Found "@ + decimal(n as nat) + " untracked profiles:"@]
                    + pv.take(i as int).map_values(|p: ProfileView| "  + "@ + p.name),
        {
            let ghost before = views(r@);
            r.push("  + ".to_string().concat(untracked[i].name.as_str()));
            assert(pv.take(i + 1).map_values(|p: ProfileView| "  + "@ + p.name) =~= pv.take(
                i as int,
            ).map_values(|p: ProfileView| "  + "@ + p.name).push("  + "@ + pv[i as int].name));
            assert(views(r@) =~= before.push("  + "@ + pv[i as int].name));
        }
        assert(pv.take(n as int) =~= pv);
        r
    }

    /// The lines that report orphaned names.
    pub fn orphaned_report(orphaned: &Vec<String>) -> (r: Vec<String>)
        ensures
            views(r@) == orphaned_lines(views(orphaned@)),
    {
        let ghost nv = views(orphaned@);
        let mut r: Vec<String> = Vec::new();
        let n = orphaned.len();
        if n == 0 {
            r.push("No orphaned profiles found.".to_string());
            assert(views(r@) =~= orphaned_lines(nv));
            return r;
        }
        let head = "\nFound ".to_string().concat(decimal_string(n).as_str()).concat(
            " orphaned profiles (in metadata but missing from AWS config/creds):",
        );
        r.push(head);
        for i in 0..n
            invariant
                n == orphaned@.len(),
                n > 0,
                nv == views(orphaned@),
                views(r@) == seq![
                    "\nFound "@ + decimal(n as nat)
                        + " orphaned profiles (in metadata but missing from AWS config/creds):"@,
                ] + nv.take(i as int).map_values(|s: Seq<char>| "  - "@ + s),
        {
            let ghost before = views(r@);
            r.push("  - ".to_string().concat(orphaned[i].as_str()));
            assert(nv.take(i + 1).map_values(|s: Seq<char>| "  - "@ + s) =~= nv.take(
                i as int,
            ).map_values(|s: Seq<char>| "  - "@ + s).push("  - "@ + nv[i as int]));
            assert(views(r@) =~= before.push("  - "@ + nv[i as int]));
        }
        assert(nv.take(n as int) =~= nv);
        r
    }

    /// What to do with findings (see `sync_step`).
    pub fn step(has_items: bool, check_only: bool, auto_approve: bool) -> (r: SyncStep)
        ensures
            r == sync_step(has_items, check_only, auto_approve),
    {
        if !has_items || check_only {
            SyncStep::Skip
        } else if auto_approve {
            SyncStep::Apply
        } else {
            SyncStep::Ask
        }
    }

    /// Stores empty metadata for each untracked profile, in turn; gives
    /// an `Added:` line for each.
    pub fn add_untracked(store: &mut Store, untracked: &Vec<Profile>) -> (r: Vec<String>)
        requires
            old(store)@.wf(),
        ensures
            final(store)@ == (StoreView {
                global: insert_empty_all(old(store)@.global, profile_names(profile_views(untracked@))),
                ..old(store)@
            }),
            final(store)@.wf(),
            views(r@) == profile_names(profile_views(untracked@)).map_values(|n: Seq<char>| "Added: "@ + n),
    {
        let ghost s0 = store@;
        let ghost names = profile_names(profile_views(untracked@));
        let mut r: Vec<String> = Vec::new();
        let n = untracked.len();
        for i in 0..n
            invariant
                n == untracked@.len(),
                names == profile_names(profile_views(untracked@)),
                store@ == (StoreView { global: insert_empty_all(s0.global, names.take(i as int)), ..s0 }),
                store@.wf(),
                views(r@) == names.take(i as int).map_values(|s: Seq<char>| "Added: "@ + s),
        {
            let ghost before = views(r@);
            assert(names.take(i + 1).drop_last() =~= names.take(i as int));
            assert(names[i as int] == untracked@[i as int].name@);
            store.save_metadata(untracked[i].name.as_str(), Metadata::default());
            r.push("Added: ".to_string().concat(untracked[i].name.as_str()));
            assert(names.take(i + 1).map_values(|s: Seq<char>| "Added: "@ + s) =~= names.take(
                i as int,
            ).map_values(|s: Seq<char>| "Added: "@ + s).push("Added: "@ + names[i as int]));
            assert(views(r@) =~= before.push("Added: "@ + names[i as int]));
        }
        assert(names.take(n as int) =~= names);
        r
    }

    /// Removes the metadata of each orphaned name, in turn; gives a
    /// `Removed:` line for each.
    pub fn remove_orphaned(store: &mut Store, orphaned: &Vec<String>) -> (r: Vec<String>)
        requires
            old(store)@.wf(),
        ensures
            final(store)@ == (StoreView { global: remove_all(old(store)@.global, views(orphaned@)), ..old(store)@ }),
            final(store)@.wf(),
            views(r@) == views(orphaned@).map_values(|n: Seq<char>| "Removed: "@ + n),
    {
        let ghost s0 = store@;
        let ghost names = views(orphaned@);
        let mut r: Vec<String> = Vec::new();
        let n = orphaned.len();
        for i in 0..n
            invariant
                n == orphaned@.len(),
                names == views(orphaned@),
                store@ == (StoreView { global: remove_all(s0.global, names.take(i as int)), ..s0 }),
                store@.wf(),
                views(r@) == names.take(i as int).map_values(|s: Seq<char>| "Removed: "@ + s),
        {
            let ghost before = views(r@);
            assert(names.take(i + 1).drop_last() =~= names.take(i as int));
            store.delete_metadata(orphaned[i].as_str());
            r.push("Removed: ".to_string().concat(orphaned[i].as_str()));
            assert(names.take(i + 1).map_values(|s: Seq<char>| "Removed: "@ + s) =~= names.take(
                i as int,
            ).map_values(|s: Seq<char>| "Removed: "@ + s).push("Removed: "@ + names[i as int]));
            assert(views(r@) =~= before.push("Removed: "@ + names[i as int]));
        }
        assert(names.take(n as int) =~= names);
        r
    }
}

/// Keys after storing empty metadata under names: the old keys and the
/// names.
pub proof fn lemma_insert_empty_all(m: MetaSeq, names: Seq<Seq<char>>)
    requires
        meta_keys_distinct(m),
    ensures
        meta_keys_distinct(insert_empty_all(m, names)),
        forall|q: Seq<char>| has_key(insert_empty_all(m, names), q) == (has_key(m, q) || names.contains(q)),
    decreases names.len(),
{
    if names.len() > 0 {
        let d = names.drop_last();
        lemma_insert_empty_all(m, d);
        let prev = insert_empty_all(m, d);
        lemma_meta_insert(prev, names.last(), MetadataView::empty());
        lemma_meta_insert_keys(prev, names.last(), MetadataView::empty());
        assert forall|q: Seq<char>| names.contains(q) == (d.contains(q) || q == names.last()) by {
            if names.contains(q) {
                let j = choose|j: int| 0 <= j < names.len() && names[j] == q;
                if j < d.len() {
                    assert(d[j] == q);
                }
            }
            if d.contains(q) {
                let j = choose|j: int| 0 <= j < d.len() && d[j] == q;
                assert(names[j] == q);
            }
            if q == names.last() {
                assert(names[names.len() - 1] == q);
            }
        }
    }
}

/// Keys after removing the metadata of names: the old keys but the
/// names.
pub proof fn lemma_remove_all(m: MetaSeq, names: Seq<Seq<char>>)
    requires
        meta_keys_distinct(m),
    ensures
        meta_keys_distinct(remove_all(m, names)),
        forall|q: Seq<char>| has_key(remove_all(m, names), q) == (has_key(m, q) && !names.contains(q)),
    decreases names.len(),
{
    if names.len() > 0 {
        let d = names.drop_last();
        lemma_remove_all(m, d);
        let prev = remove_all(m, d);
        lemma_meta_remove(prev, names.last());
        lemma_meta_remove_keys(prev, names.last());
        assert forall|q: Seq<char>| names.contains(q) == (d.contains(q) || q == names.last()) by {
            if names.contains(q) {
                let j = choose|j: int| 0 <= j < names.len() && names[j] == q;
                if j < d.len() {
                    assert(d[j] == q);
                }
            }
            if d.contains(q) {
                let j = choose|j: int| 0 <= j < d.len() && d[j] == q;
                assert(names[j] == q);
            }
            if q == names.last() {
                assert(names[names.len() - 1] == q);
            }
        }
    }
}

/// A filter that keeps nothing is empty.
pub proof fn lemma_filter_none<A>(s: Seq<A>, pred: spec_fn(A) -> bool)
    requires
        forall|i: int| 0 <= i < s.len() ==> !pred(#[trigger] s[i]),
    ensures
        s.filter(pred) == Seq::<A>::empty(),
    decreases s.len(),
{
    reveal(Seq::filter);
    if s.len() > 0 {
        let d = s.drop_last();
        assert forall|i: int| 0 <= i < d.len() implies !pred(#[trigger] d[i]) by {
            assert(d[i] == s[i]);
        }
        lemma_filter_none(d, pred);
        assert(!pred(s[s.len() - 1]));
    }
}

/// A name is orphaned exactly when it has metadata but no profile.
pub proof fn lemma_orphan_names(m: MetaSeq, ps: Seq<ProfileView>)
    ensures
        forall|k: Seq<char>| orphan_names(m, ps).contains(k) == (has_key(m, k) && !has_name(ps, k)),
    decreases m.len(),
{
    if m.len() > 0 {
        let d = m.drop_last();
        lemma_orphan_names(d, ps);
        let prev = orphan_names(d, ps);
        let last = m.last().0;
        assert forall|k: Seq<char>| orphan_names(m, ps).contains(k) == (has_key(m, k) && !has_name(ps, k)) by {
            assert(has_key(m, k) == (has_key(d, k) || k == last)) by {
                if has_key(m, k) {
                    let i = choose|i: int| 0 <= i < m.len() && m[i].0 == k;
                    if i < d.len() {
                        assert(d[i].0 == k);
                    }
                }
                if has_key(d, k) {
                    let i = choose|i: int| 0 <= i < d.len() && d[i].0 == k;
                    assert(m[i].0 == k);
                }
                if k == last {
                    assert(m[m.len() - 1].0 == k);
                }
            }
            if !has_name(ps, last) {
                let r = prev.push(last);
                assert(r.contains(k) == (prev.contains(k) || k == last)) by {
                    if r.contains(k) {
                        let j = choose|j: int| 0 <= j < r.len() && r[j] == k;
                        if j < prev.len() {
                            assert(prev[j] == k);
                        }
                    }
                    if prev.contains(k) {
                        let j = choose|j: int| 0 <= j < prev.len() && prev[j] == k;
                        assert(r[j] == k);
                    }
                    if k == last {
                        assert(r[prev.len() as int] == k);
                    }
                }
            }
        }
    } else {
        assert forall|k: Seq<char>| !has_key(m, k) by {}
    }
}

/// Without orphaned names the list is empty.
proof fn lemma_orphan_names_empty(m: MetaSeq, ps: Seq<ProfileView>)
    requires
        forall|k: Seq<char>| has_key(m, k) ==> has_name(ps, k),
    ensures
        orphan_names(m, ps) == Seq::<Seq<char>>::empty(),
{
    lemma_orphan_names(m, ps);
    let o = orphan_names(m, ps);
    if o.len() > 0 {
        assert(o.contains(o[0]));
        assert(has_key(m, o[0]));
        assert(false);
    }
    assert(o =~= Seq::<Seq<char>>::empty());
}

/// After the untracked profiles that a sync check finds are added with
/// empty metadata, the check finds no untracked profile.
pub proof fn law_sync_adds_all_untracked(s: StoreView)
    requires
        s.wf(),
    ensures
        ({
            let names = profile_names(store_profiles(s).filter(|p: ProfileView| is_untracked(p)));
            let after = StoreView { global: insert_empty_all(s.global, names), ..s };
            store_profiles(after).filter(|p: ProfileView| is_untracked(p)) == Seq::<ProfileView>::empty()
        }),
{
    let ps = store_profiles(s);
    let untracked = ps.filter(|p: ProfileView| is_untracked(p));
    let names = profile_names(untracked);
    let after = StoreView { global: insert_empty_all(s.global, names), ..s };
    let a = aws_profiles(s.config, s.creds, s.env_name, s.access_key);
    let ps2 = store_profiles(after);
    lemma_insert_empty_all(s.global, names);
    lemma_merge_local_names(s.global, match s.local { Some(l) => l, None => Seq::empty() });
    lemma_merge_local_names(after.global, match s.local { Some(l) => l, None => Seq::empty() });
    assert forall|q: Seq<char>| has_key(effective_metadata(s), q) == has_key(s.global, q) by {}
    assert forall|q: Seq<char>| has_key(effective_metadata(after), q) == has_key(after.global, q) by {}
    assert forall|i: int| 0 <= i < ps2.len() implies !is_untracked(#[trigger] ps2[i]) by {
        assert(ps2[i] == attach_one(a[i], effective_metadata(after)));
        assert(ps[i] == attach_one(a[i], effective_metadata(s)));
        if is_untracked(ps2[i]) {
            let n = a[i].name;
            assert(!has_key(effective_metadata(after), n));
            assert(!has_key(s.global, n));
            assert(!names.contains(n));
            assert(meta_lookup(effective_metadata(s), n) is None);
            assert(is_untracked(ps[i]));
            ps.lemma_filter_contains(|p: ProfileView| is_untracked(p), i);
            let j = choose|j: int| 0 <= j < untracked.len() && untracked[j] == ps[i];
            assert(names[j] == n);
        }
    }
    lemma_filter_none(ps2, |p: ProfileView| is_untracked(p));
}

/// After the orphaned names that a sync check finds are removed from
/// the metadata, the check finds no orphaned name.
pub proof fn law_sync_removes_all_orphans(s: StoreView)
    requires
        s.wf(),
    ensures
        ({
            let orphans = orphan_names(effective_metadata(s), store_profiles(s));
            let after = StoreView { global: remove_all(s.global, orphans), ..s };
            orphan_names(effective_metadata(after), store_profiles(after)) == Seq::<Seq<char>>::empty()
        }),
{
    let ps = store_profiles(s);
    let orphans = orphan_names(effective_metadata(s), ps);
    let after = StoreView { global: remove_all(s.global, orphans), ..s };
    let a = aws_profiles(s.config, s.creds, s.env_name, s.access_key);
    let ps2 = store_profiles(after);
    lemma_remove_all(s.global, orphans);
    lemma_merge_local_names(s.global, match s.local { Some(l) => l, None => Seq::empty() });
    lemma_merge_local_names(after.global, match s.local { Some(l) => l, None => Seq::empty() });
    assert forall|q: Seq<char>| has_key(effective_metadata(s), q) == has_key(s.global, q) by {}
    assert forall|q: Seq<char>| has_key(effective_metadata(after), q) == has_key(after.global, q) by {}
    lemma_orphan_names(effective_metadata(s), ps);
    lemma_attach_names(a, effective_metadata(s));
    lemma_attach_names(a, effective_metadata(after));
    assert forall|k: Seq<char>| has_key(effective_metadata(after), k) implies has_name(ps2, k) by {
        assert(has_key(s.global, k) && !orphans.contains(k));
        assert(has_name(ps, k));
        assert(has_name(a, k));
    }
    lemma_orphan_names_empty(effective_metadata(after), ps2);
}

/// A check changes nothing: with `--check` no step applies or asks.
pub proof fn law_check_only_changes_nothing(has_items: bool, auto_approve: bool)
    ensures
        sync_step(has_items, true, auto_approve) == SyncStep::Skip,
{
}

} // verus!
