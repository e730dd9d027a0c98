//! Updating the metadata of a profile: tags, aliases, note and region.
use vstd::prelude::*;
use crate::config::{Resolution, Store, StoreView, resolve, store_profiles};
use crate::error::AppError;
use crate::metadata::meta_insert;
use crate::order::{sorted_of, sorted_unique};
use crate::text::str_eq;
use crate::types::{Metadata, MetadataView, ProfileView, copy_strings, list_contains, opt_view, views};

verus! {

broadcast use vstd::seq_lib::group_seq_properties;

/// Arguments for updating profile metadata.
pub struct UpdateArgs {
    /// Name (or alias) of the profile to update.
    pub profile_name: String,
    /// Tags to add to the profile.
    pub add_tags: Vec<String>,
    /// Tags to remove from the profile.
    pub remove_tags: Vec<String>,
    /// Aliases to add to the profile.
    pub add_aliases: Vec<String>,
    /// Aliases to remove from the profile.
    pub remove_aliases: Vec<String>,
    /// Note to set for the profile.
    pub set_note: Option<String>,
    /// Whether to unset the note.
    pub unset_note: bool,
    /// Region to set for the profile.
    pub set_region: Option<String>,
    /// Whether to unset the region.
    pub unset_region: bool,
}

/// View of [`UpdateArgs`].
pub struct UpdateArgsView {
    pub profile_name: Seq<char>,
    pub add_tags: Seq<Seq<char>>,
    pub remove_tags: Seq<Seq<char>>,
    pub add_aliases: Seq<Seq<char>>,
    pub remove_aliases: Seq<Seq<char>>,
    pub set_note: Option<Seq<char>>,
    pub unset_note: bool,
    pub set_region: Option<Seq<char>>,
    pub unset_region: bool,
}

impl View for UpdateArgs {
    type V = UpdateArgsView;

    open spec fn view(&self) -> UpdateArgsView {
        UpdateArgsView {
            profile_name: self.profile_name@,
            add_tags: views(self.add_tags@),
            remove_tags: views(self.remove_tags@),
            add_aliases: views(self.add_aliases@),
            remove_aliases: views(self.remove_aliases@),
            set_note: opt_view(self.set_note),
            unset_note: self.unset_note,
            set_region: opt_view(self.set_region),
            unset_region: self.unset_region,
        }
    }
}

/// The items of `base` with `add` added and then `remove` taken away.
pub open spec fn add_remove(base: Seq<Seq<char>>, add: Seq<Seq<char>>, remove: Seq<Seq<char>>) -> Set<Seq<char>> {
    (base.to_set() + add.to_set()).difference(remove.to_set())
}

/// A set value wins over unsetting, which wins over keeping.
pub open spec fn set_or_unset(old: Option<Seq<char>>, set: Option<Seq<char>>, unset: bool) -> Option<Seq<char>> {
    if set is Some {
        set
    } else if unset {
        None
    } else {
        old
    }
}

/// The metadata after an update: tags and aliases sorted without
/// duplicates, note and region set or unset, the timestamp kept.
pub open spec fn updated_metadata(m: MetadataView, a: UpdateArgsView) -> MetadataView {
    MetadataView {
        tags: sorted_of(add_remove(m.tags, a.add_tags, a.remove_tags)),
        aliases: sorted_of(add_remove(m.aliases, a.add_aliases, a.remove_aliases)),
        note: set_or_unset(m.note, a.set_note, a.unset_note),
        region: set_or_unset(m.region, a.set_region, a.unset_region),
        last_used_at: m.last_used_at,
    }
}

/// The metadata of a profile, or empty metadata.
pub open spec fn base_metadata(p: ProfileView) -> MetadataView {
    match p.metadata {
        Some(m) => m,
        None => MetadataView::empty(),
    }
}

/// Adding alias `a` to the profile named `name` conflicts: `a` resolves
/// to a different profile.
pub open spec fn is_conflict(ps: Seq<ProfileView>, a: Seq<char>, name: Seq<char>) -> bool {
    resolve(ps, a) matches Resolution::Found(e) && e.name != name
}

/// The profile that a conflicting alias resolves to.
pub open spec fn conflict_owner(ps: Seq<ProfileView>, a: Seq<char>) -> Seq<char> {
    match resolve(ps, a) {
        Resolution::Found(e) => e.name,
        _ => Seq::empty(),
    }
}

/// Some alias to add conflicts.
pub open spec fn any_conflict(ps: Seq<ProfileView>, adds: Seq<Seq<char>>, name: Seq<char>) -> bool {
    exists|i: int| 0 <= i < adds.len() && is_conflict(ps, #[trigger] adds[i], name)
}

/// `i` is the position of the first alias to add that conflicts.
pub open spec fn is_first_conflict(ps: Seq<ProfileView>, adds: Seq<Seq<char>>, name: Seq<char>, i: int) -> bool {
    &&& 0 <= i < adds.len()
    &&& is_conflict(ps, adds[i], name)
    &&& forall|j: int| 0 <= j < i ==> !is_conflict(ps, #[trigger] adds[j], name)
}

/// The position of the first alias to add that conflicts.
pub open spec fn first_conflict(ps: Seq<ProfileView>, adds: Seq<Seq<char>>, name: Seq<char>) -> int {
    choose|i: int| is_first_conflict(ps, adds, name, i)
}

/// The message for a profile that cannot be resolved.
pub open spec fn not_found_message(name: Seq<char>) -> Seq<char> {
    "Profile '"@ + name + "' not found. Run 'sync' if it exists in AWS config."@
}

/// The message for an alias that conflicts.
pub open spec fn conflict_message(a: Seq<char>, owner: Seq<char>) -> Seq<char> {
    "Alias '"@ + a + "' conflicts with existing profile or alias on '"@ + owner + "'."@
}

/// The notice for an item that is already there.
pub open spec fn exists_notice(kind: Seq<char>, x: Seq<char>, p: Seq<char>) -> Seq<char> {
    kind + " '"@ + x + "' already exists on profile '"@ + p + "'."@
}

/// The notice for an item to remove that is not there.
pub open spec fn missing_notice(kind: Seq<char>, x: Seq<char>, p: Seq<char>) -> Seq<char> {
    kind + " '"@ + x + "' not found on profile '"@ + p + "'."@
}

/// Notices for the items to add that are there already (counting those
/// added before them).
pub open spec fn add_notices(base: Set<Seq<char>>, adds: Seq<Seq<char>>, kind: Seq<char>, p: Seq<char>) -> Seq<Seq<char>>
    decreases adds.len(),
{
    if adds.len() == 0 {
        Seq::empty()
    } else {
        let prev = add_notices(base, adds.drop_last(), kind, p);
        if (base + adds.drop_last().to_set()).contains(adds.last()) {
            prev.push(exists_notice(kind, adds.last(), p))
        } else {
            prev
        }
    }
}

/// Notices for the items to remove that are not there (counting those
/// removed before them).
pub open spec fn remove_notices(base: Set<Seq<char>>, rems: Seq<Seq<char>>, kind: Seq<char>, p: Seq<char>) -> Seq<Seq<char>>
    decreases rems.len(),
{
    if rems.len() == 0 {
        Seq::empty()
    } else {
        let prev = remove_notices(base, rems.drop_last(), kind, p);
        if !base.difference(rems.drop_last().to_set()).contains(rems.last()) {
            prev.push(missing_notice(kind, rems.last(), p))
        } else {
            prev
        }
    }
}

/// The notices about tags of an update of the profile `p`, in order:
/// tags added, tags removed.
pub open spec fn tag_notices(m: MetadataView, a: UpdateArgsView, p: Seq<char>) -> Seq<Seq<char>> {
    let t0 = m.tags.to_set();
    add_notices(t0, a.add_tags, "Tag"@, p) + remove_notices(t0 + a.add_tags.to_set(), a.remove_tags, "Tag"@, p)
}

/// All notices of an update of the profile `p`, in order: tags added,
/// tags removed, aliases added, aliases removed.
pub open spec fn update_notices(m: MetadataView, a: UpdateArgsView, p: Seq<char>) -> Seq<Seq<char>> {
    let al0 = m.aliases.to_set();
    tag_notices(m, a, p) + add_notices(al0, a.add_aliases, "Alias"@, p) + remove_notices(
        al0 + a.add_aliases.to_set(),
        a.remove_aliases,
        "Alias"@,
        p,
    )
}

/// Adds the items one by one (skipping those present) and collects a
/// notice for each that was present.
fn add_items(list: &mut Vec<String>, adds: &Vec<String>, kind: &str, p: &str, notices: &mut Vec<String>)
    ensures
        views(final(list)@).to_set() == views(old(list)@).to_set() + views(adds@).to_set(),
        views(final(notices)@) == views(old(notices)@) + add_notices(
            views(old(list)@).to_set(),
            views(adds@),
            kind@,
            p@,
        ),
{
    let ghost base = views(list@).to_set();
    let ghost n0 = views(notices@);
    let ghost av = views(adds@);
    let n = adds.len();
    for i in 0..n
        invariant
            n == adds@.len(),
            av == views(adds@),
            views(list@).to_set() == base + av.take(i as int).to_set(),
            views(notices@) == n0 + add_notices(base, av.take(i as int), kind@, p@),
    {
        proof {
            assert(av.take(i + 1).drop_last() =~= av.take(i as int));
            assert(av.take(i + 1).last() == av[i as int]);
            assert(av.take(i + 1) =~= av.take(i as int).push(av[i as int]));
        }
        let x = &adds[i];
        let ghost before = views(list@);
        proof {
            av.take(i as int).lemma_push_to_set_commute(av[i as int]);
            assert(x@ == av[i as int]);
            assert(before.to_set().contains(x@) == before.contains(x@));
        }
        if list_contains(list, x.as_str()) {
            let msg = kind.to_string().concat(" '").concat(x.as_str()).concat(
                "' already exists on profile '",
            ).concat(p).concat("'.");
            notices.push(msg);
            assert(msg@ == exists_notice(kind@, x@, p@));
            assert(views(notices@) =~= views(notices@.drop_last()).push(msg@));
            assert((base + av.take(i as int).to_set()).contains(x@));
            assert(add_notices(base, av.take(i + 1), kind@, p@) == add_notices(base, av.take(i as int), kind@, p@).push(msg@));
            let ghost prev = add_notices(base, av.take(i as int), kind@, p@);
            assert((n0 + prev).push(msg@) =~= n0 + prev.push(msg@));
            assert(views(list@).to_set() =~= base + av.take(i + 1).to_set());
        } else {
            assert(!(base + av.take(i as int).to_set()).contains(x@));
            assert(add_notices(base, av.take(i + 1), kind@, p@) == add_notices(base, av.take(i as int), kind@, p@));
            list.push(x.clone());
            assert(views(list@) =~= before.push(x@));
            proof {
                before.lemma_push_to_set_commute(x@);
            }
            assert(views(list@).to_set() =~= base + av.take(i + 1).to_set());
        }
        assert(views(notices@) =~= n0 + add_notices(base, av.take(i + 1), kind@, p@));
    }
    assert(av.take(n as int) =~= av);
}

/// The items other than `x`.
fn without(list: &Vec<String>, x: &str) -> (r: Vec<String>)
    ensures
        views(r@).to_set() == views(list@).to_set().remove(x@),
{
    let mut r: Vec<String> = Vec::new();
    let n = list.len();
    let ghost lv = views(list@);
    for i in 0..n
        invariant
            n == list@.len(),
            lv == views(list@),
            views(r@).to_set() == lv.take(i as int).to_set().remove(x@),
    {
        assert(lv.take(i + 1) =~= lv.take(i as int).push(lv[i as int]));
        proof {
            lv.take(i as int).lemma_push_to_set_commute(lv[i as int]);
        }
        if !str_eq(list[i].as_str(), x) {
            let ghost before = views(r@);
            r.push(list[i].clone());
            assert(views(r@) =~= before.push(lv[i as int]));
            proof {
                before.lemma_push_to_set_commute(lv[i as int]);
            }
            assert(views(r@).to_set() =~= lv.take(i + 1).to_set().remove(x@));
        } else {
            assert(views(r@).to_set() =~= lv.take(i + 1).to_set().remove(x@));
        }
    }
    assert(lv.take(n as int) =~= lv);
    r
}

/// Removes the items one by one and collects a notice for each that was
/// not present.
fn remove_items(list: &mut Vec<String>, rems: &Vec<String>, kind: &str, p: &str, notices: &mut Vec<String>)
    ensures
        views(final(list)@).to_set() == views(old(list)@).to_set().difference(views(rems@).to_set()),
        views(final(notices)@) == views(old(notices)@) + remove_notices(
            views(old(list)@).to_set(),
            views(rems@),
            kind@,
            p@,
        ),
{
    let ghost base = views(list@).to_set();
    let ghost n0 = views(notices@);
    let ghost rv = views(rems@);
    let n = rems.len();
    for i in 0..n
        invariant
            n == rems@.len(),
            rv == views(rems@),
            views(list@).to_set() == base.difference(rv.take(i as int).to_set()),
            views(notices@) == n0 + remove_notices(base, rv.take(i as int), kind@, p@),
    {
        proof {
            assert(rv.take(i + 1).drop_last() =~= rv.take(i as int));
            assert(rv.take(i + 1).last() == rv[i as int]);
            assert(rv.take(i + 1) =~= rv.take(i as int).push(rv[i as int]));
        }
        let x = &rems[i];
        proof {
            rv.take(i as int).lemma_push_to_set_commute(rv[i as int]);
            assert(x@ == rv[i as int]);
            assert(views(list@).to_set().contains(x@) == views(list@).contains(x@));
        }
        if list_contains(list, x.as_str()) {
            assert(base.difference(rv.take(i as int).to_set()).contains(x@));
            assert(remove_notices(base, rv.take(i + 1), kind@, p@) == remove_notices(base, rv.take(i as int), kind@, p@));
            let r = without(list, x.as_str());
            *list = r;
            assert(views(list@).to_set() =~= base.difference(rv.take(i + 1).to_set()));
        } else {
            let msg = kind.to_string().concat(" '").concat(x.as_str()).concat(
                "' not found on profile '",
            ).concat(p).concat("'.");
            notices.push(msg);
            assert(msg@ == missing_notice(kind@, x@, p@));
            assert(views(notices@) =~= views(notices@.drop_last()).push(msg@));
            assert(!base.difference(rv.take(i as int).to_set()).contains(x@));
            assert(remove_notices(base, rv.take(i + 1), kind@, p@) == remove_notices(base, rv.take(i as int), kind@, p@).push(msg@));
            let ghost prev = remove_notices(base, rv.take(i as int), kind@, p@);
            assert((n0 + prev).push(msg@) =~= n0 + prev.push(msg@));
            assert(views(list@).to_set() =~= base.difference(rv.take(i + 1).to_set()));
        }
        assert(views(notices@) =~= n0 + remove_notices(base, rv.take(i + 1), kind@, p@));
    }
    assert(rv.take(n as int) =~= rv);
}

/// What an update does: a name that resolves to no profile or to
/// several, or an alias to add that already resolves to another profile
/// than the one updated (the first such), is an error and changes
/// nothing; otherwise the profile's updated metadata is stored under its
/// name.
pub open spec fn update_outcome(
    before: StoreView,
    a: UpdateArgsView,
    after: StoreView,
    r: Result<(), AppError>,
) -> bool {
    let ps = store_profiles(before);
    match resolve(ps, a.profile_name) {
        Resolution::Ambiguous => after == before && (r matches Err(AppError::AmbiguousProfile(s)) && s@
            == a.profile_name),
        Resolution::NotFound => after == before && (r matches Err(AppError::Unknown(s)) && s@ == not_found_message(
            a.profile_name,
        )),
        Resolution::Found(p) => if any_conflict(ps, a.add_aliases, p.name) {
            let i = first_conflict(ps, a.add_aliases, p.name);
            after == before && (r matches Err(AppError::Unknown(s)) && s@ == conflict_message(
                a.add_aliases[i],
                conflict_owner(ps, a.add_aliases[i]),
            ))
        } else {
            &&& after == (StoreView {
                global: meta_insert(before.global, p.name, updated_metadata(base_metadata(p), a)),
                ..before
            })
            &&& r is Ok
        },
    }
}

/// The notices that an update gives, in order, about items to add that
/// are there already and items to remove that are not: up to the first
/// conflicting alias when there is one (tags, then the aliases before
/// it), all of them otherwise; none when the name does not resolve.
pub open spec fn update_notice_lines(before: StoreView, a: UpdateArgsView) -> Seq<Seq<char>> {
    let ps = store_profiles(before);
    match resolve(ps, a.profile_name) {
        Resolution::Found(p) => if any_conflict(ps, a.add_aliases, p.name) {
            let m = base_metadata(p);
            tag_notices(m, a, p.name) + add_notices(
                m.aliases.to_set(),
                a.add_aliases.take(first_conflict(ps, a.add_aliases, p.name)),
                "Alias"@,
                p.name,
            )
        } else {
            update_notices(base_metadata(p), a, p.name)
        },
        _ => Seq::empty(),
    }
}

/// Logic for handling profile updates.
pub struct UpdateLogic;

/// Command to update profile metadata.
pub struct UpdateCommand;

impl UpdateLogic {
    /// Updates the metadata of the profile that `args.profile_name`
    /// resolves to (by name or alias) and stores it in the global
    /// metadata (see `update_outcome`). The notices about items already
    /// present or missing are appended to `notices` as they arise, also
    /// those before an error (see `update_notice_lines`).
    pub fn execute(store: &mut Store, args: UpdateArgs, notices: &mut Vec<String>) -> (r: Result<(), AppError>)
        requires
            old(store)@.wf(),
        ensures
            final(store)@.wf(),
            update_outcome(old(store)@, args@, final(store)@, r),
            views(final(notices)@) == views(old(notices)@) + update_notice_lines(old(store)@, args@),
    {
        let ghost ps = store_profiles(store@);
        let ghost a = args@;
        let ghost n0 = views(notices@);
        let profile = match store.find_by_name_or_alias(args.profile_name.as_str()) {
            Ok(Some(p)) => p,
            Ok(None) => {
                let msg = "Profile '".to_string().concat(args.profile_name.as_str()).concat(
                    "' not found. Run 'sync' if it exists in AWS config.",
                );
                assert(views(notices@) =~= n0 + Seq::<Seq<char>>::empty());
                return Err(AppError::Unknown(msg));
            },
            Err(e) => {
                assert(views(notices@) =~= n0 + Seq::<Seq<char>>::empty());
                return Err(e);
            },
        };
        let ghost pv = profile@;
        assert(resolve(ps, a.profile_name) == Resolution::Found(pv));
        let mut meta = match &profile.metadata {
            Some(m) => m.duplicate(),
            None => Metadata::default(),
        };
        assert(meta@ == base_metadata(pv));
        let pname = profile.name.as_str();
        add_items(&mut meta.tags, &args.add_tags, "Tag", pname, notices);
        remove_items(&mut meta.tags, &args.remove_tags, "Tag", pname, notices);
        assert(views(notices@) =~= n0 + tag_notices(base_metadata(pv), a, pv.name));
        // aliases: the first that resolves to another profile is an error
        let n = args.add_aliases.len();
        for i in 0..n
            invariant
                n == args.add_aliases@.len(),
                a == args@,
                ps == store_profiles(store@),
                store@.wf(),
                store@ == old(store)@,
                ps == store_profiles(old(store)@),
                resolve(ps, a.profile_name) == Resolution::Found(pv),
                pname@ == pv.name,
                views(meta.aliases@) == base_metadata(pv).aliases,
                views(notices@) == n0 + tag_notices(base_metadata(pv), a, pv.name),
                n0 == views(old(notices)@),
                forall|j: int| 0 <= j < i ==> !is_conflict(ps, #[trigger] a.add_aliases[j], pv.name),
        {
            let alias = &args.add_aliases[i];
            assert(a.add_aliases[i as int] == alias@);
            let found = store.find_by_name_or_alias(alias.as_str());
            match found {
                Ok(Some(existing)) => {
                    assert(resolve(ps, alias@) is Found);
                    if !str_eq(existing.name.as_str(), pname) {
                        let msg = "Alias '".to_string().concat(alias.as_str()).concat(
                            "' conflicts with existing profile or alias on '",
                        ).concat(existing.name.as_str()).concat("'.");
                        assert(is_first_conflict(ps, a.add_aliases, pv.name, i as int));
                        assert(any_conflict(ps, a.add_aliases, pv.name));
                        let ghost f = first_conflict(ps, a.add_aliases, pv.name);
                        assert(f == i) by {
                            assert(is_first_conflict(ps, a.add_aliases, pv.name, f));
                            if f < i {
                                assert(!is_conflict(ps, a.add_aliases[f], pv.name));
                            } else if f > i {
                                assert(!is_conflict(ps, a.add_aliases[i as int], pv.name));
                            }
                        }
                        assert(msg@ == conflict_message(a.add_aliases[i as int], conflict_owner(ps, a.add_aliases[i as int])));
                        // the notices about the aliases before this one
                        let mut before: Vec<String> = Vec::new();
                        for k in 0..i
                            invariant
                                i < n,
                                n == args.add_aliases@.len(),
                                views(before@) == views(args.add_aliases@).take(k as int),
                        {
                            let x = args.add_aliases[k].clone();
                            assert(x@ == args.add_aliases@[k as int]@);
                            let ghost prev = views(before@);
                            before.push(x);
                            assert(views(before@) =~= prev.push(x@));
                            assert(views(before@) =~= views(args.add_aliases@).take(k + 1));
                        }
                        let mut aliases = copy_strings(&meta.aliases);
                        add_items(&mut aliases, &before, "Alias", pname, notices);
                        assert(views(notices@) =~= n0 + update_notice_lines(old(store)@, a));
                        return Err(AppError::Unknown(msg));
                    }
                },
                _ => {
                    assert(!(resolve(ps, alias@) is Found));
                },
            }
        }
        assert(!any_conflict(ps, a.add_aliases, pv.name));
        add_items(&mut meta.aliases, &args.add_aliases, "Alias", pname, notices);
        remove_items(&mut meta.aliases, &args.remove_aliases, "Alias", pname, notices);
        meta.tags = sorted_unique(&meta.tags);
        meta.aliases = sorted_unique(&meta.aliases);
        match &args.set_note {
            Some(note) => { meta.note = Some(note.clone()); },
            None => if args.unset_note {
                meta.note = None;
            },
        }
        match &args.set_region {
            Some(region) => { meta.region = Some(region.clone()); },
            None => if args.unset_region {
                meta.region = None;
            },
        }
        proof {
            assert(meta@ =~= updated_metadata(base_metadata(pv), a));
            assert(views(notices@) =~= n0 + update_notices(base_metadata(pv), a, pv.name));
        }
        store.save_metadata(pname, meta);
        Ok(())
    }
}

impl UpdateCommand {
    /// Executes the update (see `UpdateLogic::execute`).
    pub fn execute(store: &mut Store, args: UpdateArgs, notices: &mut Vec<String>) -> (r: Result<(), AppError>)
        requires
            old(store)@.wf(),
        ensures
            final(store)@.wf(),
            update_outcome(old(store)@, args@, final(store)@, r),
            views(final(notices)@) == views(old(notices)@) + update_notice_lines(old(store)@, args@),
    {
        UpdateLogic::execute(store, args, notices)
    }
}

} // verus!
