//! Properties of the library as a whole: how the operations relate to
//! each other, stated over the models that their contracts use.
use vstd::prelude::*;
use crate::config::{
    Resolution, alias_matches, is_untracked, orphan_names, StoreView, attach_one, aws_profiles, effective_metadata, env_profile, env_vars_name,
    has_name, lemma_attach_names, merge_all, name_pos, replace_all, resolve, store_profiles, upsert_merge,
    upsert_replace,
};
use crate::env::{export_line, exports_for};
use crate::exec::{credential_vars, exec_env};
use crate::switch::{switch_env, used_metadata};
use crate::metadata::{
    MetaSeq, first_alias_owner, has_key, key_pos, lemma_first_alias_owner_range, lemma_meta_insert,
    lemma_meta_remove, lemma_merge_local_distinct, meta_insert, meta_keys_distinct, meta_lookup, meta_remove,
    merge_local, overlay,
};
use crate::sync::{
    insert_empty_all, lemma_insert_empty_all, lemma_orphan_names, lemma_remove_all, profile_names, remove_all,
};
use crate::order::{lemma_sorted_of, strictly_sorted};
use crate::types::{MetadataView, ProfileView};
use crate::update::{
    UpdateArgsView, add_remove, base_metadata, first_conflict, is_conflict, is_first_conflict, update_outcome,
    updated_metadata,
};
use crate::error::AppError;

verus! {

/// The names after an upsert: the old ones and the new one.
proof fn lemma_upsert_names(ps: Seq<ProfileView>, p: ProfileView)
    ensures
        forall|n: Seq<char>| has_name(upsert_replace(ps, p), n) == (has_name(ps, n) || n == p.name),
        forall|n: Seq<char>| has_name(upsert_merge(ps, p), n) == (has_name(ps, n) || n == p.name),
{
    let r = upsert_replace(ps, p);
    let m = upsert_merge(ps, p);
    assert forall|n: Seq<char>| has_name(r, n) == (has_name(ps, n) || n == p.name) && has_name(m, n) == (
    has_name(ps, n) || n == p.name) by {
        if has_name(ps, p.name) {
            let k = name_pos(ps, p.name);
            assert(r[k].name == p.name);
            assert(m[k].name == p.name);
            if has_name(ps, n) {
                let i = choose|i: int| 0 <= i < ps.len() && ps[i].name == n;
                assert(r[i].name == n);
                assert(m[i].name == n);
            }
            if has_name(r, n) {
                let i = choose|i: int| 0 <= i < r.len() && r[i].name == n;
                if i != k {
                    assert(ps[i].name == n);
                }
            }
            if has_name(m, n) {
                let i = choose|i: int| 0 <= i < m.len() && m[i].name == n;
                assert(ps[i].name == n);
            }
        } else {
            assert(r[ps.len() as int].name == p.name);
            assert(m[ps.len() as int].name == p.name);
            if has_name(ps, n) {
                let i = choose|i: int| 0 <= i < ps.len() && ps[i].name == n;
                assert(r[i].name == n);
                assert(m[i].name == n);
            }
            if has_name(r, n) {
                let i = choose|i: int| 0 <= i < r.len() && r[i].name == n;
                if i < ps.len() {
                    assert(ps[i].name == n);
                }
            }
            if has_name(m, n) {
                let i = choose|i: int| 0 <= i < m.len() && m[i].name == n;
                if i < ps.len() {
                    assert(ps[i].name == n);
                }
            }
        }
    }
}

/// The names after folds of upserts: the old ones and those of the items.
proof fn lemma_fold_names(ps: Seq<ProfileView>, items: Seq<ProfileView>)
    ensures
        forall|n: Seq<char>| has_name(replace_all(ps, items), n) == (has_name(ps, n) || has_name(items, n)),
        forall|n: Seq<char>| has_name(merge_all(ps, items), n) == (has_name(ps, n) || has_name(items, n)),
    decreases items.len(),
{
    if items.len() > 0 {
        let d = items.drop_last();
        lemma_fold_names(ps, d);
        lemma_upsert_names(replace_all(ps, d), items.last());
        lemma_upsert_names(merge_all(ps, d), items.last());
        assert forall|n: Seq<char>| has_name(items, n) == (has_name(d, n) || n == items.last().name) by {
            if has_name(items, n) {
                let i = choose|i: int| 0 <= i < items.len() && items[i].name == n;
                if i < d.len() {
                    assert(d[i].name == n);
                }
            }
            if has_name(d, n) {
                let i = choose|i: int| 0 <= i < d.len() && d[i].name == n;
                assert(items[i].name == n);
            }
            if n == items.last().name {
                assert(items[items.len() - 1].name == n);
            }
        }
    }
}

/// Every source contributes its profiles: a name is listed exactly when
/// the AWS config file, the credentials file or `AWS_PROFILE` names it,
/// or it is `env-vars` and `AWS_ACCESS_KEY_ID` is set.
pub proof fn law_every_source_is_listed(s: StoreView, n: Seq<char>)
    ensures
        has_name(store_profiles(s), n) == (has_name(s.config, n) || has_name(s.creds, n) || s.env_name == Some(n)
            || (s.access_key && n == env_vars_name())),
{
    let e = Seq::<ProfileView>::empty();
    lemma_fold_names(e, s.config);
    let s1 = replace_all(e, s.config);
    lemma_fold_names(s1, s.creds);
    let s2 = merge_all(s1, s.creds);
    let s3 = match s.env_name {
        Some(x) => upsert_merge(s2, env_profile(x)),
        None => s2,
    };
    match s.env_name {
        Some(x) => lemma_upsert_names(s2, env_profile(x)),
        None => {},
    }
    lemma_upsert_names(s3, env_profile(env_vars_name()));
    let a = aws_profiles(s.config, s.creds, s.env_name, s.access_key);
    lemma_attach_names(a, effective_metadata(s));
}

/// A project file leaves the metadata stored under `name` as it is when
/// none of its entries is named `name` or by an alias of that metadata.
proof fn lemma_merge_local_keeps(g: MetaSeq, local: MetaSeq, name: Seq<char>, m: MetadataView)
    requires
        meta_keys_distinct(g),
        meta_lookup(g, name) == Some(m),
        forall|i: int| 0 <= i < local.len() ==> #[trigger] local[i].0 != name && !m.aliases.contains(local[i].0),
    ensures
        meta_lookup(merge_local(g, local), name) == Some(m),
    decreases local.len(),
{
    if local.len() > 0 {
        let d = local.drop_last();
        assert forall|i: int| 0 <= i < d.len() implies #[trigger] d[i].0 != name && !m.aliases.contains(d[i].0) by {
            assert(d[i] == local[i]);
        }
        lemma_merge_local_keeps(g, d, name, m);
        let prev = merge_local(g, d);
        lemma_merge_local_distinct(g, d);
        let k = local.last().0;
        let l = local.last().1;
        assert(local[local.len() - 1] == local.last());
        assert(k != name && !m.aliases.contains(k));
        if has_key(prev, k) {
            lemma_meta_insert(prev, k, l);
        } else {
            let j = first_alias_owner(prev, k);
            if j >= 0 {
                lemma_first_alias_owner_range(prev, k);
                let p = key_pos(prev, name);
                assert(prev[p].0 == name && prev[p].1 == m);
                assert(j != p);
                let r = prev.update(j, (prev[j].0, overlay(prev[j].1, l)));
                assert(r[p] == prev[p]);
                assert(has_key(r, name));
                let q = key_pos(r, name);
                assert(r[q].0 == name);
                assert(q == p);
            }
        }
    }
}

/// What is saved is read back: after metadata is saved under a listed
/// profile's name, that profile carries exactly it, unless the project's
/// metadata file has an entry named like the profile or like one of the
/// saved aliases (such an entry is applied over it).
pub proof fn law_saved_metadata_is_read_back(s: StoreView, name: Seq<char>, m: MetadataView)
    requires
        s.wf(),
        has_name(store_profiles(s), name),
        match s.local {
            Some(l) => forall|i: int| 0 <= i < l.len() ==> #[trigger] l[i].0 != name && !m.aliases.contains(l[i].0),
            None => true,
        },
    ensures
        ({
            let ps2 = store_profiles(StoreView { global: meta_insert(s.global, name, m), ..s });
            &&& has_name(ps2, name)
            &&& ps2[name_pos(ps2, name)].metadata == Some(m)
        }),
{
    let after = StoreView { global: meta_insert(s.global, name, m), ..s };
    let a = aws_profiles(s.config, s.creds, s.env_name, s.access_key);
    let ps2 = store_profiles(after);
    lemma_meta_insert(s.global, name, m);
    match s.local {
        Some(l) => lemma_merge_local_keeps(after.global, l, name, m),
        None => {},
    }
    lemma_attach_names(a, effective_metadata(s));
    lemma_attach_names(a, effective_metadata(after));
    assert(has_name(a, name));
    assert(has_name(ps2, name));
    let i = name_pos(ps2, name);
    assert(ps2[i] == attach_one(a[i], effective_metadata(after)));
}

/// A save changes only the profile saved to: with no project metadata
/// file in effect, every other profile reads as before.
pub proof fn law_save_keeps_other_profiles(s: StoreView, name: Seq<char>, m: MetadataView)
    requires
        s.wf(),
        s.local is None,
    ensures
        ({
            let ps = store_profiles(s);
            let ps2 = store_profiles(StoreView { global: meta_insert(s.global, name, m), ..s });
            &&& ps2.len() == ps.len()
            &&& forall|i: int| 0 <= i < ps.len() && ps[i].name != name ==> #[trigger] ps2[i] == ps[i]
        }),
{
    let after = StoreView { global: meta_insert(s.global, name, m), ..s };
    let a = aws_profiles(s.config, s.creds, s.env_name, s.access_key);
    let ps = store_profiles(s);
    let ps2 = store_profiles(after);
    lemma_meta_insert(s.global, name, m);
    assert forall|j: int| 0 <= j < ps.len() && ps[j].name != name implies #[trigger] ps2[j] == ps[j] by {
        assert(ps2[j] == attach_one(a[j], after.global));
        assert(ps[j] == attach_one(a[j], s.global));
        assert(meta_lookup(after.global, a[j].name) == meta_lookup(s.global, a[j].name));
    }
}

/// What is deleted is gone: after the metadata of a listed profile is
/// deleted, that profile reads as the AWS sources give it.
pub proof fn law_deleted_metadata_is_gone(s: StoreView, name: Seq<char>)
    requires
        s.wf(),
        has_name(store_profiles(s), name),
    ensures
        ({
            let a = aws_profiles(s.config, s.creds, s.env_name, s.access_key);
            let ps2 = store_profiles(StoreView { global: meta_remove(s.global, name), ..s });
            &&& has_name(ps2, name)
            &&& ps2[name_pos(ps2, name)] == a[name_pos(ps2, name)]
        }),
{
    let after = StoreView { global: meta_remove(s.global, name), ..s };
    let a = aws_profiles(s.config, s.creds, s.env_name, s.access_key);
    let ps2 = store_profiles(after);
    lemma_meta_remove(s.global, name);
    crate::metadata::lemma_merge_local_names(
        after.global,
        match s.local {
            Some(l) => l,
            None => Seq::empty(),
        },
    );
    assert(!has_key(effective_metadata(after), name));
    lemma_attach_names(a, effective_metadata(s));
    lemma_attach_names(a, effective_metadata(after));
    assert(has_name(a, name));
    assert(has_name(ps2, name));
    let i = name_pos(ps2, name);
    assert(ps2[i] == attach_one(a[i], effective_metadata(after)));
}

/// A deletion changes only the profile deleted from: with no project
/// metadata file in effect, every other profile reads as before.
pub proof fn law_delete_keeps_other_profiles(s: StoreView, name: Seq<char>)
    requires
        s.wf(),
        s.local is None,
    ensures
        ({
            let ps = store_profiles(s);
            let ps2 = store_profiles(StoreView { global: meta_remove(s.global, name), ..s });
            &&& ps2.len() == ps.len()
            &&& forall|i: int| 0 <= i < ps.len() && ps[i].name != name ==> #[trigger] ps2[i] == ps[i]
        }),
{
    let after = StoreView { global: meta_remove(s.global, name), ..s };
    let a = aws_profiles(s.config, s.creds, s.env_name, s.access_key);
    let ps = store_profiles(s);
    let ps2 = store_profiles(after);
    lemma_meta_remove(s.global, name);
    assert forall|j: int| 0 <= j < ps.len() && ps[j].name != name implies #[trigger] ps2[j] == ps[j] by {
        assert(ps2[j] == attach_one(a[j], after.global));
        assert(ps[j] == attach_one(a[j], s.global));
        assert(meta_lookup(after.global, a[j].name) == meta_lookup(s.global, a[j].name));
    }
}

/// Storing empty metadata under names that have none keeps the metadata
/// of every other name.
proof fn lemma_insert_empty_keeps(m: MetaSeq, names: Seq<Seq<char>>, k: Seq<char>)
    requires
        meta_keys_distinct(m),
        !names.contains(k),
    ensures
        meta_lookup(insert_empty_all(m, names), k) == meta_lookup(m, k),
    decreases names.len(),
{
    if names.len() > 0 {
        let d = names.drop_last();
        assert(!d.contains(k)) by {
            if d.contains(k) {
                let j = choose|j: int| 0 <= j < d.len() && d[j] == k;
                assert(names[j] == k);
            }
        }
        assert(names.last() != k) by {
            if names.last() == k {
                assert(names[names.len() - 1] == k);
            }
        }
        lemma_insert_empty_keeps(m, d, k);
        lemma_insert_empty_all(m, d);
        lemma_meta_insert(insert_empty_all(m, d), names.last(), MetadataView::empty());
    }
}

/// A sync keeps existing metadata: adding the untracked profiles leaves
/// the metadata stored under every other name as it was.
pub proof fn law_sync_keeps_existing_metadata(s: StoreView, k: Seq<char>)
    requires
        s.wf(),
        has_key(s.global, k),
    ensures
        ({
            let names = profile_names(store_profiles(s).filter(|p: ProfileView| crate::config::is_untracked(p)));
            meta_lookup(insert_empty_all(s.global, names), k) == meta_lookup(s.global, k)
        }),
{
    let ps = store_profiles(s);
    let untracked = ps.filter(|p: ProfileView| crate::config::is_untracked(p));
    let names = profile_names(untracked);
    let a = aws_profiles(s.config, s.creds, s.env_name, s.access_key);
    crate::metadata::lemma_merge_local_names(
        s.global,
        match s.local {
            Some(l) => l,
            None => Seq::empty(),
        },
    );
    assert(has_key(effective_metadata(s), k));
    assert(!names.contains(k)) by {
        if names.contains(k) {
            let j = choose|j: int| 0 <= j < names.len() && names[j] == k;
            let p = untracked[j];
            ps.lemma_filter_pred(|p: ProfileView| crate::config::is_untracked(p), j);
            assert(crate::config::is_untracked(p));
            assert(p.name == k);
            assert(untracked.contains(p)) by {
                assert(untracked[j] == p);
            }
            ps.lemma_filter_contains_rev(|p: ProfileView| crate::config::is_untracked(p), p);
            let i = choose|i: int| 0 <= i < ps.len() && ps[i] == p;
            assert(ps[i] == attach_one(a[i], effective_metadata(s)));
            assert(meta_lookup(effective_metadata(s), k) is Some);
        }
    }
    lemma_insert_empty_keeps(s.global, names, k);
}

/// An exact name takes precedence over aliases: a query that names a
/// profile resolves to that profile.
pub proof fn law_exact_name_wins(ps: Seq<ProfileView>, q: Seq<char>)
    requires
        has_name(ps, q),
    ensures
        resolve(ps, q) == Resolution::Found(ps[name_pos(ps, q)]),
        ps[name_pos(ps, q)].name == q,
{
}

/// The shell exports of a profile and the environment a command gets
/// agree: `AWS_PROFILE` with its name, and the same `AWS_REGION`.
pub proof fn law_exports_match_exec_env(p: ProfileView)
    ensures
        exports_for(p) == exec_env(p, p.name).map_values(
            |kv: (Seq<char>, Seq<char>)| export_line(kv.0, kv.1),
        ),
{
    assert(exports_for(p) =~= exec_env(p, p.name).map_values(
        |kv: (Seq<char>, Seq<char>)| export_line(kv.0, kv.1),
    ));
}

/// An update keeps tags and aliases in increasing order without
/// duplicates: they are the old ones with those added and then those
/// removed.
pub proof fn law_update_sorts_tags_and_aliases(m: MetadataView, a: UpdateArgsView)
    ensures
        strictly_sorted(updated_metadata(m, a).tags),
        updated_metadata(m, a).tags.to_set() == add_remove(m.tags, a.add_tags, a.remove_tags),
        strictly_sorted(updated_metadata(m, a).aliases),
        updated_metadata(m, a).aliases.to_set() == add_remove(m.aliases, a.add_aliases, a.remove_aliases),
{
    broadcast use vstd::set::group_set_axioms, vstd::seq_lib::seq_to_set_is_finite;
    lemma_sorted_of(add_remove(m.tags, a.add_tags, a.remove_tags));
    lemma_sorted_of(add_remove(m.aliases, a.add_aliases, a.remove_aliases));
}

/// Removing the metadata of names keeps the metadata of every other name.
proof fn lemma_remove_keeps(m: MetaSeq, names: Seq<Seq<char>>, k: Seq<char>)
    requires
        meta_keys_distinct(m),
        !names.contains(k),
    ensures
        meta_lookup(remove_all(m, names), k) == meta_lookup(m, k),
    decreases names.len(),
{
    if names.len() > 0 {
        let d = names.drop_last();
        assert(!d.contains(k)) by {
            if d.contains(k) {
                let j = choose|j: int| 0 <= j < d.len() && d[j] == k;
                assert(names[j] == k);
            }
        }
        assert(names.last() != k) by {
            if names.last() == k {
                assert(names[names.len() - 1] == k);
            }
        }
        lemma_remove_keeps(m, d, k);
        lemma_remove_all(m, d);
        lemma_meta_remove(remove_all(m, d), names.last());
    }
}

/// A name of an untracked profile is a listed profile's name.
proof fn lemma_untracked_names_listed(ps: Seq<ProfileView>, q: Seq<char>)
    requires
        profile_names(ps.filter(|p: ProfileView| is_untracked(p))).contains(q),
    ensures
        has_name(ps, q),
{
    let untracked = ps.filter(|p: ProfileView| is_untracked(p));
    let names = profile_names(untracked);
    let j = choose|j: int| 0 <= j < names.len() && names[j] == q;
    let p = untracked[j];
    assert(untracked.contains(p));
    ps.lemma_filter_contains_rev(|p: ProfileView| is_untracked(p), p);
    let i = choose|i: int| 0 <= i < ps.len() && ps[i] == p;
    assert(ps[i].name == q);
}

/// A sync as a whole: after the untracked profiles that one check finds
/// are added with empty metadata and the orphaned names it finds are
/// removed, a new check finds no untracked profile and no orphaned name,
/// and the metadata stored under every other name is as it was.
pub proof fn law_sync_result(s: StoreView, k: Seq<char>)
    requires
        s.wf(),
    ensures
        ({
            let ps = store_profiles(s);
            let untracked = profile_names(ps.filter(|p: ProfileView| is_untracked(p)));
            let orphans = orphan_names(effective_metadata(s), ps);
            let after = StoreView { global: remove_all(insert_empty_all(s.global, untracked), orphans), ..s };
            &&& store_profiles(after).filter(|p: ProfileView| is_untracked(p)) == Seq::<ProfileView>::empty()
            &&& orphan_names(effective_metadata(after), store_profiles(after)) == Seq::<Seq<char>>::empty()
            &&& (!untracked.contains(k) && !orphans.contains(k) ==> meta_lookup(after.global, k) == meta_lookup(
                s.global,
                k,
            ))
        }),
{
    let ps = store_profiles(s);
    let untracked = profile_names(ps.filter(|p: ProfileView| is_untracked(p)));
    let orphans = orphan_names(effective_metadata(s), ps);
    let mid = insert_empty_all(s.global, untracked);
    let after = StoreView { global: remove_all(mid, orphans), ..s };
    let a = aws_profiles(s.config, s.creds, s.env_name, s.access_key);
    let ps2 = store_profiles(after);
    let local = match s.local {
        Some(l) => l,
        None => Seq::empty(),
    };
    lemma_insert_empty_all(s.global, untracked);
    lemma_remove_all(mid, orphans);
    crate::metadata::lemma_merge_local_names(s.global, local);
    crate::metadata::lemma_merge_local_names(after.global, local);
    assert forall|q: Seq<char>| has_key(effective_metadata(s), q) == has_key(s.global, q) by {}
    assert forall|q: Seq<char>| has_key(effective_metadata(after), q) == has_key(after.global, q) by {}
    lemma_orphan_names(effective_metadata(s), ps);
    lemma_attach_names(a, effective_metadata(s));
    lemma_attach_names(a, effective_metadata(after));
    // No untracked profile is left.
    assert forall|i: int| 0 <= i < ps2.len() implies !is_untracked(#[trigger] ps2[i]) by {
        assert(ps2[i] == attach_one(a[i], effective_metadata(after)));
        assert(ps[i] == attach_one(a[i], effective_metadata(s)));
        let n = a[i].name;
        if is_untracked(ps2[i]) {
            assert(has_name(a, n)) by {
                assert(a[i].name == n);
            }
            assert(!orphans.contains(n));
            assert(!has_key(after.global, n));
            assert(!has_key(s.global, n) && !untracked.contains(n));
            assert(is_untracked(ps[i]));
            ps.lemma_filter_contains(|p: ProfileView| is_untracked(p), i);
            let filtered = ps.filter(|p: ProfileView| is_untracked(p));
            let j = choose|j: int| 0 <= j < filtered.len() && filtered[j] == ps[i];
            assert(untracked[j] == n);
        }
    }
    crate::sync::lemma_filter_none(ps2, |p: ProfileView| is_untracked(p));
    // No orphaned name is left.
    lemma_orphan_names(effective_metadata(after), ps2);
    assert forall|q: Seq<char>| has_key(effective_metadata(after), q) implies has_name(ps2, q) by {
        if untracked.contains(q) {
            lemma_untracked_names_listed(ps, q);
        } else {
            assert(has_key(s.global, q) && !orphans.contains(q));
        }
        assert(has_name(a, q));
    }
    let o = orphan_names(effective_metadata(after), ps2);
    if o.len() > 0 {
        assert(o.contains(o[0]));
        assert(has_key(effective_metadata(after), o[0]));
        assert(false);
    }
    assert(o =~= Seq::<Seq<char>>::empty());
    // Other names keep their metadata.
    if !untracked.contains(k) && !orphans.contains(k) {
        lemma_insert_empty_keeps(s.global, untracked, k);
        lemma_remove_keeps(mid, orphans, k);
    }
}

/// Every profile of the AWS sources without metadata is untracked,
/// whatever source it came from (one found in both the config and the
/// credentials file too), the `env-vars` profile excepted; no other
/// profile is.
pub proof fn law_untracked_whatever_the_source(s: StoreView)
    ensures
        store_profiles(s).filter(|p: ProfileView| is_untracked(p)) == store_profiles(s).filter(
            |p: ProfileView| p.name != "env-vars"@ && p.metadata is None,
        ),
{
    assert((|p: ProfileView| is_untracked(p)) =~= (|p: ProfileView| p.name != "env-vars"@ && p.metadata is None));
}

/// An update that would add an alias which already resolves (by name,
/// or as the alias of a single profile) to another profile than the one
/// updated is refused and leaves the store unchanged; when no alias to add
/// before it does so, the error names that alias and that profile.
pub proof fn law_alias_of_another_profile_is_refused(
    before: StoreView,
    a: UpdateArgsView,
    after: StoreView,
    r: Result<(), AppError>,
    p: ProfileView,
    i: int,
    e: ProfileView,
)
    requires
        update_outcome(before, a, after, r),
        resolve(store_profiles(before), a.profile_name) == Resolution::Found(p),
        0 <= i < a.add_aliases.len(),
        resolve(store_profiles(before), a.add_aliases[i]) == Resolution::Found(e),
        e.name != p.name,
    ensures
        r is Err,
        after == before,
        (forall|j: int|
            0 <= j < i ==> !(resolve(store_profiles(before), #[trigger] a.add_aliases[j]) matches Resolution::Found(
                f,
            ) && f.name != p.name)) ==> (r matches Err(AppError::Unknown(m)) && m@ == "Alias '"@
            + a.add_aliases[i] + "' conflicts with existing profile or alias on '"@ + e.name + "'."@),
{
    let ps = store_profiles(before);
    assert(is_conflict(ps, a.add_aliases[i], p.name));
    if forall|j: int|
        0 <= j < i ==> !(resolve(ps, #[trigger] a.add_aliases[j]) matches Resolution::Found(f) && f.name
            != p.name) {
        assert(is_first_conflict(ps, a.add_aliases, p.name, i));
        let f = first_conflict(ps, a.add_aliases, p.name);
        assert(is_first_conflict(ps, a.add_aliases, p.name, f));
        if f < i {
            assert(!is_conflict(ps, a.add_aliases[f], p.name));
        }
        if f > i {
            assert(!is_conflict(ps, a.add_aliases[i], p.name));
        }
        assert(f == i);
    }
}

/// In particular, adding an alias that exactly one other profile has
/// already (and that names no profile) is refused and changes nothing.
pub proof fn law_alias_of_one_other_profile_is_refused(
    before: StoreView,
    a: UpdateArgsView,
    after: StoreView,
    r: Result<(), AppError>,
    p: ProfileView,
    i: int,
)
    requires
        update_outcome(before, a, after, r),
        resolve(store_profiles(before), a.profile_name) == Resolution::Found(p),
        0 <= i < a.add_aliases.len(),
        !has_name(store_profiles(before), a.add_aliases[i]),
        alias_matches(store_profiles(before), a.add_aliases[i]).len() == 1,
        alias_matches(store_profiles(before), a.add_aliases[i])[0].name != p.name,
    ensures
        r is Err,
        after == before,
{
    let ps = store_profiles(before);
    law_alias_of_another_profile_is_refused(before, a, after, r, p, i, alias_matches(ps, a.add_aliases[i])[0]);
}

/// An update whose aliases to add resolve to no other profile than the one
/// updated succeeds and stores that profile's updated metadata under its
/// name, nothing else changing.
pub proof fn law_update_without_conflict_is_saved(
    before: StoreView,
    a: UpdateArgsView,
    after: StoreView,
    r: Result<(), AppError>,
    p: ProfileView,
)
    requires
        update_outcome(before, a, after, r),
        resolve(store_profiles(before), a.profile_name) == Resolution::Found(p),
        forall|i: int|
            0 <= i < a.add_aliases.len() ==> !(resolve(store_profiles(before), #[trigger] a.add_aliases[i]) matches Resolution::Found(
                e,
            ) && e.name != p.name),
    ensures
        r is Ok,
        after == (StoreView {
            global: meta_insert(before.global, p.name, updated_metadata(base_metadata(p), a)),
            ..before
        }),
{
}

/// Some profile of `ps` has the name and the AWS settings (region,
/// output, SSO session, SSO start URL) of `x`.
spec fn carries(ps: Seq<ProfileView>, x: ProfileView) -> bool {
    exists|j: int|
        0 <= j < ps.len() && (#[trigger] ps[j]).name == x.name && ps[j].region == x.region && ps[j].output
            == x.output && ps[j].sso_session == x.sso_session && ps[j].sso_start_url == x.sso_start_url
}

/// Upserts keep the settings of the profiles already there (a replace,
/// those of other names), and a replace brings in those of its profile.
proof fn lemma_upsert_carries(ps: Seq<ProfileView>, p: ProfileView, x: ProfileView)
    ensures
        carries(ps, x) ==> carries(upsert_merge(ps, p), x),
        carries(ps, x) && x.name != p.name ==> carries(upsert_replace(ps, p), x),
        carries(upsert_replace(ps, p), p),
{
    let m = upsert_merge(ps, p);
    let r = upsert_replace(ps, p);
    if carries(ps, x) {
        let j = choose|j: int|
            0 <= j < ps.len() && (#[trigger] ps[j]).name == x.name && ps[j].region == x.region && ps[j].output
                == x.output && ps[j].sso_session == x.sso_session && ps[j].sso_start_url == x.sso_start_url;
        assert(m[j].name == x.name);
        if x.name != p.name {
            if has_name(ps, p.name) {
                assert(j != name_pos(ps, p.name));
            }
            assert(r[j] == ps[j]);
        }
    }
    if has_name(ps, p.name) {
        assert(r[name_pos(ps, p.name)] == p);
    } else {
        assert(r[ps.len() as int] == p);
    }
}

/// A replace fold brings in the settings of each item that no later item
/// of the same name replaces.
proof fn lemma_replace_all_carries(ps: Seq<ProfileView>, items: Seq<ProfileView>, k: int)
    requires
        0 <= k < items.len(),
        forall|k2: int| k < k2 < items.len() ==> (#[trigger] items[k2]).name != items[k].name,
    ensures
        carries(replace_all(ps, items), items[k]),
    decreases items.len(),
{
    let d = items.drop_last();
    if k == items.len() - 1 {
        lemma_upsert_carries(replace_all(ps, d), items.last(), items[k]);
    } else {
        assert forall|k2: int| k < k2 < d.len() implies (#[trigger] d[k2]).name != d[k].name by {
            assert(items[k2] == d[k2]);
        }
        lemma_replace_all_carries(ps, d, k);
        assert(items[items.len() - 1].name != items[k].name);
        lemma_upsert_carries(replace_all(ps, d), items.last(), items[k]);
    }
}

/// A merge fold keeps the settings of the profiles already there.
proof fn lemma_merge_all_carries(ps: Seq<ProfileView>, items: Seq<ProfileView>, x: ProfileView)
    requires
        carries(ps, x),
    ensures
        carries(merge_all(ps, items), x),
    decreases items.len(),
{
    if items.len() > 0 {
        lemma_merge_all_carries(ps, items.drop_last(), x);
        lemma_upsert_carries(merge_all(ps, items.drop_last()), items.last(), x);
    }
}

/// A profile named in the AWS config file is loaded with the region,
/// output, SSO session and SSO start URL of the last config section that
/// names it, whichever other sources name it too and whatever metadata it
/// has.
pub proof fn law_config_settings_are_loaded(s: StoreView, k: int)
    requires
        0 <= k < s.config.len(),
        forall|k2: int| k < k2 < s.config.len() ==> (#[trigger] s.config[k2]).name != s.config[k].name,
    ensures
        exists|j: int|
            0 <= j < store_profiles(s).len() && (#[trigger] store_profiles(s)[j]).name == s.config[k].name
                && store_profiles(s)[j].region == s.config[k].region && store_profiles(s)[j].output
                == s.config[k].output && store_profiles(s)[j].sso_session == s.config[k].sso_session
                && store_profiles(s)[j].sso_start_url == s.config[k].sso_start_url,
{
    let c = s.config[k];
    let e = Seq::<ProfileView>::empty();
    lemma_replace_all_carries(e, s.config, k);
    let s1 = replace_all(e, s.config);
    lemma_merge_all_carries(s1, s.creds, c);
    let s2 = merge_all(s1, s.creds);
    let s3 = match s.env_name {
        Some(x) => upsert_merge(s2, env_profile(x)),
        None => s2,
    };
    match s.env_name {
        Some(x) => lemma_upsert_carries(s2, env_profile(x), c),
        None => {},
    }
    lemma_upsert_carries(s3, env_profile(env_vars_name()), c);
    let a = aws_profiles(s.config, s.creds, s.env_name, s.access_key);
    assert(carries(a, c));
    let j = choose|j: int|
        0 <= j < a.len() && (#[trigger] a[j]).name == c.name && a[j].region == c.region && a[j].output
            == c.output && a[j].sso_session == c.sso_session && a[j].sso_start_url == c.sso_start_url;
    let st = store_profiles(s);
    lemma_attach_names(a, effective_metadata(s));
    assert(st[j] == attach_one(a[j], effective_metadata(s)));
}

/// A region set in a profile's metadata overrides the region of the AWS
/// config: a command run with the profile and the subshell of a switch
/// both get it as `AWS_REGION`, after `AWS_PROFILE` with the name used.
/// Without such an override a command gets the config's region, if any.
pub proof fn law_metadata_region_overrides(p: ProfileView, name: Seq<char>)
    ensures
        (p.metadata matches Some(m) && m.region is Some) ==> {
            let r = p.metadata->0.region->0;
            &&& exec_env(p, name) == seq![("AWS_PROFILE"@, name), ("AWS_REGION"@, r)]
            &&& switch_env(p, name) == seq![("AWS_PROFILE"@, name), ("AWS_REGION"@, r)]
        },
        !(p.metadata matches Some(m) && m.region is Some) ==> exec_env(p, name) == seq![("AWS_PROFILE"@, name)]
            + match p.region {
            Some(r) => seq![("AWS_REGION"@, r)],
            None => Seq::<(Seq<char>, Seq<char>)>::empty(),
        },
{
    if p.metadata matches Some(m) && m.region is Some {
        let r = p.metadata->0.region->0;
        assert(exec_env(p, name) =~= seq![("AWS_PROFILE"@, name), ("AWS_REGION"@, r)]);
        assert(switch_env(p, name) =~= seq![("AWS_PROFILE"@, name), ("AWS_REGION"@, r)]);
    }
}

/// A project metadata file's entry named like a profile's alias (and not
/// like any stored name) is laid over that profile's metadata, when no
/// other profile has the alias: the entry's region and note, and its tags
/// when it has any, win; the aliases and the time of last use stay. An
/// entry named like a stored name replaces what is stored under it.
pub proof fn law_project_entry_applies_through_alias(
    g: MetaSeq,
    k: Seq<char>,
    l: MetadataView,
    name: Seq<char>,
    m: MetadataView,
)
    requires
        meta_keys_distinct(g),
        meta_lookup(g, name) == Some(m),
    ensures
        (!has_key(g, k) && m.aliases.contains(k) && (forall|j: int|
            0 <= j < g.len() && #[trigger] g[j].0 != name ==> !g[j].1.aliases.contains(k))) ==> meta_lookup(
            merge_local(g, seq![(k, l)]),
            name,
        ) == Some(
            MetadataView {
                aliases: m.aliases,
                tags: if l.tags.len() > 0 {
                    l.tags
                } else {
                    m.tags
                },
                note: if l.note is Some {
                    l.note
                } else {
                    m.note
                },
                region: if l.region is Some {
                    l.region
                } else {
                    m.region
                },
                last_used_at: m.last_used_at,
            },
        ),
        has_key(g, k) ==> meta_lookup(merge_local(g, seq![(k, l)]), k) == Some(l),
{
    let one = seq![(k, l)];
    assert(one.drop_last() =~= Seq::<(Seq<char>, MetadataView)>::empty());
    assert(merge_local(g, one.drop_last()) == g);
    assert(one.last() == (k, l));
    assert(merge_local(g, one) == crate::metadata::merge_local_step(g, k, l));
    if has_key(g, k) {
        lemma_meta_insert(g, k, l);
    } else if m.aliases.contains(k) && (forall|j: int|
        0 <= j < g.len() && #[trigger] g[j].0 != name ==> !g[j].1.aliases.contains(k)) {
        let p = key_pos(g, name);
        lemma_first_alias_owner_range(g, k);
        let j = first_alias_owner(g, k);
        assert(g[p].1 == m);
        assert(j >= 0);
        assert(j == p);
        let r = g.update(j, (g[j].0, overlay(g[j].1, l)));
        assert(r[p].0 == name);
        let q = key_pos(r, name);
        assert(r[q].0 == name);
        assert(q == p);
    }
}

/// Unless the environment is to be preserved, a command run with a
/// profile loses exactly the raw credential variables that would take
/// precedence over it: `AWS_ACCESS_KEY_ID`, `AWS_SECRET_ACCESS_KEY` and
/// `AWS_SESSION_TOKEN`, each once.
pub proof fn law_raw_credentials_are_removed()
    ensures
        credential_vars().to_set() == set!["AWS_ACCESS_KEY_ID"@, "AWS_SECRET_ACCESS_KEY"@, "AWS_SESSION_TOKEN"@],
        credential_vars().len() == 3,
{
    let c = credential_vars();
    assert(c[0] == "AWS_ACCESS_KEY_ID"@);
    assert(c[1] == "AWS_SECRET_ACCESS_KEY"@);
    assert(c[2] == "AWS_SESSION_TOKEN"@);
    assert(c.to_set() =~= set!["AWS_ACCESS_KEY_ID"@, "AWS_SECRET_ACCESS_KEY"@, "AWS_SESSION_TOKEN"@]) by {
        assert forall|x: Seq<char>| c.to_set().contains(x) implies (x == "AWS_ACCESS_KEY_ID"@ || x
            == "AWS_SECRET_ACCESS_KEY"@ || x == "AWS_SESSION_TOKEN"@) by {
            let i = choose|i: int| 0 <= i < c.len() && c[i] == x;
        }
        assert(c.contains(c[0]));
        assert(c.contains(c[1]));
        assert(c.contains(c[2]));
    }
}

/// Recording a use of a listed profile at a time marks it as used then
/// and keeps its aliases, tags, note and region (none when it had no
/// metadata), unless the project's metadata file has an entry named like
/// the profile or like one of its aliases.
pub proof fn law_recorded_use_keeps_metadata(s: StoreView, name: Seq<char>, timestamp: Seq<char>)
    requires
        s.wf(),
        has_name(store_profiles(s), name),
        match s.local {
            Some(l) => forall|i: int|
                0 <= i < l.len() ==> #[trigger] l[i].0 != name && !(match store_profiles(
                    s,
                )[name_pos(store_profiles(s), name)].metadata {
                    Some(m) => m.aliases.contains(l[i].0),
                    None => false,
                }),
            None => true,
        },
    ensures
        ({
            let p = store_profiles(s)[name_pos(store_profiles(s), name)];
            let ps2 = store_profiles(
                StoreView { global: meta_insert(s.global, name, used_metadata(p, timestamp)), ..s },
            );
            &&& has_name(ps2, name)
            &&& ps2[name_pos(ps2, name)].metadata == Some(
                match p.metadata {
                    Some(m) => MetadataView {
                        aliases: m.aliases,
                        tags: m.tags,
                        note: m.note,
                        region: m.region,
                        last_used_at: Some(timestamp),
                    },
                    None => MetadataView {
                        aliases: Seq::empty(),
                        tags: Seq::empty(),
                        note: None,
                        region: None,
                        last_used_at: Some(timestamp),
                    },
                },
            )
        }),
{
    let p = store_profiles(s)[name_pos(store_profiles(s), name)];
    let m = used_metadata(p, timestamp);
    match s.local {
        Some(l) => {
            assert forall|i: int| 0 <= i < l.len() implies #[trigger] l[i].0 != name && !m.aliases.contains(l[i].0) by {
                if p.metadata is None {
                    assert(m.aliases =~= Seq::<Seq<char>>::empty());
                }
            }
        },
        None => {},
    }
    law_saved_metadata_is_read_back(s, name, m);
}

/// A successful update is read back (with no project metadata file in
/// effect): the updated profile then has a note and a region that are the
/// ones set, none when unset (a set value winning), else the old ones; the
/// old tags and aliases with those added and then those removed, in
/// increasing order without duplicates; and its old time of last use.
pub proof fn law_update_is_read_back(
    before: StoreView,
    a: UpdateArgsView,
    after: StoreView,
    r: Result<(), AppError>,
    p: ProfileView,
)
    requires
        before.wf(),
        before.local is None,
        update_outcome(before, a, after, r),
        resolve(store_profiles(before), a.profile_name) == Resolution::Found(p),
        r is Ok,
    ensures
        ({
            let ps2 = store_profiles(after);
            let old_m = match p.metadata {
                Some(m) => m,
                None => MetadataView {
                    aliases: Seq::empty(),
                    tags: Seq::empty(),
                    note: None,
                    region: None,
                    last_used_at: None,
                },
            };
            &&& has_name(ps2, p.name)
            &&& ps2[name_pos(ps2, p.name)].metadata matches Some(m2)
            &&& m2.note == (if a.set_note is Some {
                a.set_note
            } else if a.unset_note {
                None
            } else {
                old_m.note
            })
            &&& m2.region == (if a.set_region is Some {
                a.set_region
            } else if a.unset_region {
                None
            } else {
                old_m.region
            })
            &&& m2.last_used_at == old_m.last_used_at
            &&& strictly_sorted(m2.tags)
            &&& m2.tags.to_set() == (old_m.tags.to_set() + a.add_tags.to_set()).difference(a.remove_tags.to_set())
            &&& strictly_sorted(m2.aliases)
            &&& m2.aliases.to_set() == (old_m.aliases.to_set() + a.add_aliases.to_set()).difference(
                a.remove_aliases.to_set(),
            )
        }),
{
    let ps = store_profiles(before);
    if has_name(ps, a.profile_name) {
        assert(ps[name_pos(ps, a.profile_name)].name == a.profile_name);
    } else {
        let am = alias_matches(ps, a.profile_name);
        assert(am.len() == 1);
        assert(am.contains(am[0]));
        ps.lemma_filter_contains_rev(|q: ProfileView| crate::config::has_alias(q, a.profile_name), am[0]);
        let k = choose|k: int| 0 <= k < ps.len() && ps[k] == am[0];
        assert(ps[k].name == p.name);
    }
    assert(has_name(ps, p.name));
    let m = updated_metadata(base_metadata(p), a);
    law_saved_metadata_is_read_back(before, p.name, m);
    law_update_sorts_tags_and_aliases(base_metadata(p), a);
}

} // verus!
