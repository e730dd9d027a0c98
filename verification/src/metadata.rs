//! The metadata store: per-profile metadata keyed by profile name, and
//! the global settings kept beside it.
use vstd::prelude::*;
use crate::text::str_eq;
use crate::types::{copy_opt, copy_strings, opt_view, views, Metadata, MetadataView};

verus! {

/// Global settings of the metadata file (its `config` section).
pub struct GlobalConfig {
    /// Keywords that replace the default sensitive keywords.
    pub sensitive_keywords: Option<Vec<String>>,
    /// A directory that replaces the default SSO cache directory.
    pub sso_cache_path: Option<String>,
}

/// View of [`GlobalConfig`].
pub struct GlobalConfigView {
    pub sensitive_keywords: Option<Seq<Seq<char>>>,
    pub sso_cache_path: Option<Seq<char>>,
}

impl View for GlobalConfig {
    type V = GlobalConfigView;

    open spec fn view(&self) -> GlobalConfigView {
        GlobalConfigView {
            sensitive_keywords: match self.sensitive_keywords {
                Some(ks) => Some(views(ks@)),
                None => None,
            },
            sso_cache_path: opt_view(self.sso_cache_path),
        }
    }
}

impl Default for GlobalConfig {
    fn default() -> (r: Self)
        ensures
            r@.sensitive_keywords is None,
            r@.sso_cache_path is None,
    {
        GlobalConfig { sensitive_keywords: None, sso_cache_path: None }
    }
}

impl GlobalConfig {
    /// A copy of these settings.
    pub fn duplicate(&self) -> (r: GlobalConfig)
        ensures
            r@ == self@,
    {
        GlobalConfig {
            sensitive_keywords: match &self.sensitive_keywords {
                Some(ks) => Some(copy_strings(ks)),
                None => None,
            },
            sso_cache_path: copy_opt(&self.sso_cache_path),
        }
    }
}

/// The metadata of one profile.
pub struct MetadataEntry {
    pub name: String,
    pub metadata: Metadata,
}

/// Contents of a metadata file: settings and per-profile metadata.
pub struct MetadataStore {
    pub config: GlobalConfig,
    pub profiles: Vec<MetadataEntry>,
}

/// Metadata keyed by profile name, in store order.
pub type MetaSeq = Seq<(Seq<char>, MetadataView)>;

/// Views of metadata entries.
pub open spec fn entry_views(es: Seq<MetadataEntry>) -> MetaSeq {
    es.map_values(|e: MetadataEntry| (e.name@, e.metadata@))
}

/// No name occurs twice.
pub open spec fn meta_keys_distinct(m: MetaSeq) -> bool {
    forall|i: int, j: int| 0 <= i < j < m.len() ==> m[i].0 != m[j].0
}

/// Some entry has this name.
pub open spec fn has_key(m: MetaSeq, k: Seq<char>) -> bool {
    exists|i: int| 0 <= i < m.len() && m[i].0 == k
}

/// The position of the entry with this name.
pub open spec fn key_pos(m: MetaSeq, k: Seq<char>) -> int {
    choose|i: int| 0 <= i < m.len() && m[i].0 == k
}

/// The metadata stored under a name.
pub open spec fn meta_lookup(m: MetaSeq, k: Seq<char>) -> Option<MetadataView> {
    if has_key(m, k) {
        Some(m[key_pos(m, k)].1)
    } else {
        None
    }
}

/// Stores `v` under `k`, replacing an entry of that name in place.
pub open spec fn meta_insert(m: MetaSeq, k: Seq<char>, v: MetadataView) -> MetaSeq {
    if has_key(m, k) {
        m.update(key_pos(m, k), (k, v))
    } else {
        m.push((k, v))
    }
}

/// Removes the entry stored under `k`, if any.
pub open spec fn meta_remove(m: MetaSeq, k: Seq<char>) -> MetaSeq {
    if has_key(m, k) {
        m.remove(key_pos(m, k))
    } else {
        m
    }
}

/// Inserts the entries in turn (a later entry of a name wins).
pub open spec fn meta_normalize(es: MetaSeq) -> MetaSeq
    decreases es.len(),
{
    if es.len() == 0 {
        Seq::empty()
    } else {
        let prev = meta_normalize(es.drop_last());
        meta_insert(prev, es.last().0, es.last().1)
    }
}

/// The first entry (position) whose aliases contain `k`, or -1.
pub open spec fn first_alias_owner(m: MetaSeq, k: Seq<char>) -> int
    decreases m.len(),
{
    if m.len() == 0 {
        -1
    } else {
        let j = first_alias_owner(m.drop_last(), k);
        if j >= 0 {
            j
        } else if m.last().1.aliases.contains(k) {
            m.len() - 1
        } else {
            -1
        }
    }
}

/// Global metadata with the fields that a local entry sets laid over it:
/// non-empty tags, a note and a region replace the global ones.
pub open spec fn overlay(g: MetadataView, l: MetadataView) -> MetadataView {
    MetadataView {
        tags: if l.tags.len() > 0 { l.tags } else { g.tags },
        note: if l.note is Some { l.note } else { g.note },
        region: if l.region is Some { l.region } else { g.region },
        ..g
    }
}

/// Applies one entry of a project's local metadata file: an entry
/// named like a global entry replaces it; otherwise an entry named like
/// an alias is laid over the (first) profile that has the alias;
/// otherwise it is ignored.
pub open spec fn merge_local_step(g: MetaSeq, k: Seq<char>, l: MetadataView) -> MetaSeq {
    if has_key(g, k) {
        meta_insert(g, k, l)
    } else {
        let j = first_alias_owner(g, k);
        if j >= 0 {
            g.update(j, (g[j].0, overlay(g[j].1, l)))
        } else {
            g
        }
    }
}

/// Applies the entries of a local metadata file in turn.
pub open spec fn merge_local(g: MetaSeq, local: MetaSeq) -> MetaSeq
    decreases local.len(),
{
    if local.len() == 0 {
        g
    } else {
        let prev = merge_local(g, local.drop_last());
        merge_local_step(prev, local.last().0, local.last().1)
    }
}

/// Inserting keeps names distinct and stores the value.
pub proof fn lemma_meta_insert(m: MetaSeq, k: Seq<char>, v: MetadataView)
    requires
        meta_keys_distinct(m),
    ensures
        meta_keys_distinct(meta_insert(m, k, v)),
        meta_lookup(meta_insert(m, k, v), k) == Some(v),
        forall|q: Seq<char>| q != k ==> meta_lookup(meta_insert(m, k, v), q) == meta_lookup(m, q),
{
    let r = meta_insert(m, k, v);
    if has_key(m, k) {
        let p = key_pos(m, k);
        assert(r[p].0 == k);
        assert forall|q: Seq<char>| q != k implies meta_lookup(r, q) == meta_lookup(m, q) by {
            if has_key(m, q) {
                let i = key_pos(m, q);
                assert(r[i].0 == q);
            }
            if has_key(r, q) {
                let i = key_pos(r, q);
                assert(m[i].0 == q);
            }
        }
    } else {
        assert(r[m.len() as int].0 == k);
        assert forall|q: Seq<char>| q != k implies meta_lookup(r, q) == meta_lookup(m, q) by {
            if has_key(m, q) {
                let i = key_pos(m, q);
                assert(r[i].0 == q);
            }
            if has_key(r, q) {
                let i = key_pos(r, q);
                assert(m[i].0 == q);
            }
        }
    }
}

/// Removing keeps names distinct and drops the name.
pub proof fn lemma_meta_remove(m: MetaSeq, k: Seq<char>)
    requires
        meta_keys_distinct(m),
    ensures
        meta_keys_distinct(meta_remove(m, k)),
        meta_lookup(meta_remove(m, k), k) is None,
        forall|q: Seq<char>| q != k ==> meta_lookup(meta_remove(m, k), q) == meta_lookup(m, q),
{
    let r = meta_remove(m, k);
    if has_key(m, k) {
        let p = key_pos(m, k);
        assert(forall|i: int| 0 <= i < r.len() ==> r[i] == if i < p { m[i] } else { m[i + 1] });
        assert forall|q: Seq<char>| q != k implies meta_lookup(r, q) == meta_lookup(m, q) by {
            if has_key(m, q) {
                let i = key_pos(m, q);
                if i < p {
                    assert(r[i].0 == q);
                } else {
                    assert(r[i - 1].0 == q);
                }
            }
        }
    }
}

/// Normalizing yields distinct names.
pub proof fn lemma_normalize_distinct(es: MetaSeq)
    ensures
        meta_keys_distinct(meta_normalize(es)),
    decreases es.len(),
{
    if es.len() > 0 {
        lemma_normalize_distinct(es.drop_last());
        lemma_meta_insert(meta_normalize(es.drop_last()), es.last().0, es.last().1);
    }
}

/// Of the entries given for one name, the last is kept; a name with no
/// entry has no metadata.
pub proof fn law_last_entry_wins(es: MetaSeq, k: Seq<char>)
    ensures
        forall|i: int|
            0 <= i < es.len() && es[i].0 == k && (forall|j: int| i < j < es.len() ==> #[trigger] es[j].0 != k)
                ==> meta_lookup(meta_normalize(es), k) == Some(#[trigger] es[i].1),
        (forall|i: int| 0 <= i < es.len() ==> #[trigger] es[i].0 != k) ==> meta_lookup(meta_normalize(es), k)
            is None,
    decreases es.len(),
{
    if es.len() > 0 {
        let d = es.drop_last();
        law_last_entry_wins(d, k);
        lemma_normalize_distinct(d);
        lemma_meta_insert(meta_normalize(d), es.last().0, es.last().1);
        assert forall|i: int|
            0 <= i < es.len() && es[i].0 == k && (forall|j: int| i < j < es.len() ==> #[trigger] es[j].0 != k)
                implies meta_lookup(meta_normalize(es), k) == Some(#[trigger] es[i].1) by {
            if i < es.len() - 1 {
                assert(es[es.len() - 1].0 != k);
                assert(d[i] == es[i]);
                assert forall|j: int| i < j < d.len() implies #[trigger] d[j].0 != k by {
                    assert(d[j] == es[j]);
                }
            }
        }
        if forall|i: int| 0 <= i < es.len() ==> #[trigger] es[i].0 != k {
            assert(es[es.len() - 1].0 != k);
            assert forall|i: int| 0 <= i < d.len() implies #[trigger] d[i].0 != k by {
                assert(d[i] == es[i]);
            }
        }
    }
}

/// A merge step keeps names distinct.
pub proof fn lemma_merge_step_distinct(g: MetaSeq, k: Seq<char>, l: MetadataView)
    requires
        meta_keys_distinct(g),
    ensures
        meta_keys_distinct(merge_local_step(g, k, l)),
{
    if has_key(g, k) {
        lemma_meta_insert(g, k, l);
    } else {
        let j = first_alias_owner(g, k);
        if j >= 0 {
            lemma_first_alias_owner_range(g, k);
        }
    }
}

/// A local merge keeps names distinct.
pub proof fn lemma_merge_local_distinct(g: MetaSeq, local: MetaSeq)
    requires
        meta_keys_distinct(g),
    ensures
        meta_keys_distinct(merge_local(g, local)),
    decreases local.len(),
{
    if local.len() > 0 {
        lemma_merge_local_distinct(g, local.drop_last());
        lemma_merge_step_distinct(merge_local(g, local.drop_last()), local.last().0, local.last().1);
    }
}

/// The first alias owner is a position, or -1.
pub proof fn lemma_first_alias_owner_range(m: MetaSeq, k: Seq<char>)
    ensures
        -1 <= first_alias_owner(m, k) < m.len(),
        first_alias_owner(m, k) >= 0 ==> m[first_alias_owner(m, k)].1.aliases.contains(k),
        first_alias_owner(m, k) < 0 ==> forall|i: int| 0 <= i < m.len() ==> !m[i].1.aliases.contains(k),
        forall|i: int| 0 <= i < first_alias_owner(m, k) ==> !m[i].1.aliases.contains(k),
    decreases m.len(),
{
    if m.len() > 0 {
        let d = m.drop_last();
        lemma_first_alias_owner_range(d, k);
        assert forall|i: int| 0 <= i < d.len() implies d[i] == m[i] by {}
    }
}

/// The first alias owner of a sequence is that of a prefix that already
/// has one.
pub proof fn lemma_first_alias_owner_prefix(m: MetaSeq, k: Seq<char>, n: int)
    requires
        0 <= n <= m.len(),
        first_alias_owner(m.take(n), k) >= 0,
    ensures
        first_alias_owner(m, k) == first_alias_owner(m.take(n), k),
    decreases m.len() - n,
{
    if n < m.len() {
        assert(m.take(n + 1).drop_last() =~= m.take(n));
        lemma_first_alias_owner_prefix(m, k, n + 1);
    } else {
        assert(m.take(n) =~= m);
    }
}

/// Two metadata sequences list the same names at the same positions.
pub open spec fn same_names(a: MetaSeq, b: MetaSeq) -> bool {
    a.len() == b.len() && forall|i: int| 0 <= i < a.len() ==> #[trigger] a[i].0 == b[i].0
}

/// Sequences with the same names have the same keys.
pub proof fn lemma_same_names_keys(a: MetaSeq, b: MetaSeq)
    requires
        same_names(a, b),
    ensures
        forall|q: Seq<char>| has_key(a, q) == has_key(b, q),
{
    assert forall|q: Seq<char>| has_key(a, q) == has_key(b, q) by {
        if has_key(a, q) {
            let i = key_pos(a, q);
            assert(b[i].0 == q);
        }
        if has_key(b, q) {
            let i = key_pos(b, q);
            assert(a[i].0 == q);
        }
    }
}

/// Merging a local metadata file keeps the names of the global one, in
/// place; so the metadata in effect has exactly the global names.
pub proof fn lemma_merge_local_names(g: MetaSeq, local: MetaSeq)
    ensures
        same_names(merge_local(g, local), g),
        forall|q: Seq<char>| has_key(merge_local(g, local), q) == has_key(g, q),
    decreases local.len(),
{
    if local.len() > 0 {
        lemma_merge_local_names(g, local.drop_last());
        let prev = merge_local(g, local.drop_last());
        let k = local.last().0;
        let r = merge_local_step(prev, k, local.last().1);
        if has_key(prev, k) {
            let p = key_pos(prev, k);
            assert(prev[p].0 == k);
        } else {
            lemma_first_alias_owner_range(prev, k);
        }
        assert(same_names(r, prev));
    }
    lemma_same_names_keys(merge_local(g, local), g);
}

/// The keys after an insertion: the old ones and the inserted one.
pub proof fn lemma_meta_insert_keys(m: MetaSeq, k: Seq<char>, v: MetadataView)
    requires
        meta_keys_distinct(m),
    ensures
        forall|q: Seq<char>| has_key(meta_insert(m, k, v), q) == (has_key(m, q) || q == k),
{
    lemma_meta_insert(m, k, v);
    assert forall|q: Seq<char>| has_key(meta_insert(m, k, v), q) == (has_key(m, q) || q == k) by {
        if q != k {
            assert(meta_lookup(meta_insert(m, k, v), q) == meta_lookup(m, q));
        } else {
            assert(meta_lookup(meta_insert(m, k, v), k) == Some(v));
        }
    }
}

/// The keys after a removal: the old ones but the removed one.
pub proof fn lemma_meta_remove_keys(m: MetaSeq, k: Seq<char>)
    requires
        meta_keys_distinct(m),
    ensures
        forall|q: Seq<char>| has_key(meta_remove(m, k), q) == (has_key(m, q) && q != k),
{
    lemma_meta_remove(m, k);
    assert forall|q: Seq<char>| has_key(meta_remove(m, k), q) == (has_key(m, q) && q != k) by {
        if q != k {
            assert(meta_lookup(meta_remove(m, k), q) == meta_lookup(m, q));
        } else {
            assert(meta_lookup(meta_remove(m, k), k) is None);
        }
    }
}

/// A copy of a metadata entry.
fn copy_entry(e: &MetadataEntry) -> (r: MetadataEntry)
    ensures
        r.name@ == e.name@,
        r.metadata@ == e.metadata@,
{
    MetadataEntry { name: e.name.clone(), metadata: e.metadata.duplicate() }
}

/// A copy of a list of metadata entries.
pub fn copy_entries(es: &Vec<MetadataEntry>) -> (r: Vec<MetadataEntry>)
    ensures
        entry_views(r@) == entry_views(es@),
{
    let mut g: Vec<MetadataEntry> = Vec::new();
    let n = es.len();
    let ghost ev = entry_views(es@);
    for i in 0..n
        invariant
            n == es@.len(),
            ev == entry_views(es@),
            entry_views(g@) == ev.take(i as int),
    {
        let e = copy_entry(&es[i]);
        let ghost ge = g@;
        g.push(e);
        assert(g@ == ge.push(e));
        assert(entry_views(g@) =~= entry_views(ge).push((e.name@, e.metadata@)));
        assert(ev[i as int] == (es@[i as int].name@, es@[i as int].metadata@));
        assert(ev.take(i + 1) =~= ev.take(i as int).push(ev[i as int]));
    }
    assert(ev.take(n as int) =~= ev);
    g
}

/// The position of the entry with the given name, if any.
pub fn key_position(es: &Vec<MetadataEntry>, name: &str) -> (r: Option<usize>)
    requires
        meta_keys_distinct(entry_views(es@)),
    ensures
        match r {
            Some(i) => has_key(entry_views(es@), name@) && i == key_pos(entry_views(es@), name@)
                && i < es@.len(),
            None => !has_key(entry_views(es@), name@),
        },
{
    let n = es.len();
    let ghost ev = entry_views(es@);
    for i in 0..n
        invariant
            n == es@.len(),
            ev == entry_views(es@),
            meta_keys_distinct(ev),
            forall|j: int| 0 <= j < i ==> ev[j].0 != name@,
    {
        if str_eq(es[i].name.as_str(), name) {
            assert(ev[i as int].0 == name@);
            let ghost c = key_pos(ev, name@);
            assert(c == i);
            return Some(i);
        }
    }
    None
}

/// Stores `metadata` under `name`, replacing an entry of that name.
pub fn insert_entry(es: &mut Vec<MetadataEntry>, name: String, metadata: Metadata)
    requires
        meta_keys_distinct(entry_views(old(es)@)),
    ensures
        entry_views(final(es)@) == meta_insert(entry_views(old(es)@), name@, metadata@),
        meta_keys_distinct(entry_views(final(es)@)),
{
    let ghost before = entry_views(es@);
    proof {
        lemma_meta_insert(before, name@, metadata@);
    }
    match key_position(es, name.as_str()) {
        Some(i) => {
            es[i] = MetadataEntry { name, metadata };
            assert(entry_views(es@) =~= meta_insert(before, name@, metadata@));
        },
        None => {
            es.push(MetadataEntry { name, metadata });
            assert(entry_views(es@) =~= meta_insert(before, name@, metadata@));
        },
    }
}

/// Removes the entry stored under `name`; tells whether there was one.
pub fn remove_entry(es: &mut Vec<MetadataEntry>, name: &str) -> (r: bool)
    requires
        meta_keys_distinct(entry_views(old(es)@)),
    ensures
        r == has_key(entry_views(old(es)@), name@),
        entry_views(final(es)@) == meta_remove(entry_views(old(es)@), name@),
        meta_keys_distinct(entry_views(final(es)@)),
{
    let ghost before = entry_views(es@);
    proof {
        lemma_meta_remove(before, name@);
    }
    match key_position(es, name) {
        Some(i) => {
            es.remove(i);
            assert(entry_views(es@) =~= before.remove(i as int));
            true
        },
        None => false,
    }
}

/// The entries inserted in turn, so that each name occurs once (a later
/// entry of a name wins).
pub fn normalize_entries(es: &Vec<MetadataEntry>) -> (r: Vec<MetadataEntry>)
    ensures
        entry_views(r@) == meta_normalize(entry_views(es@)),
        meta_keys_distinct(entry_views(r@)),
{
    let mut r: Vec<MetadataEntry> = Vec::new();
    let n = es.len();
    let ghost ev = entry_views(es@);
    assert(entry_views(r@) =~= meta_normalize(ev.take(0)));
    for i in 0..n
        invariant
            n == es@.len(),
            ev == entry_views(es@),
            entry_views(r@) == meta_normalize(ev.take(i as int)),
            meta_keys_distinct(entry_views(r@)),
    {
        let e = copy_entry(&es[i]);
        insert_entry(&mut r, e.name, e.metadata);
        assert(ev.take(i + 1).drop_last() =~= ev.take(i as int));
    }
    assert(ev.take(n as int) =~= ev);
    r
}

/// The first entry whose aliases contain `name`, if any.
fn first_alias_owner_exec(es: &Vec<MetadataEntry>, name: &str) -> (r: Option<usize>)
    ensures
        match r {
            Some(i) => i == first_alias_owner(entry_views(es@), name@),
            None => first_alias_owner(entry_views(es@), name@) < 0,
        },
{
    let n = es.len();
    let ghost ev = entry_views(es@);
    for i in 0..n
        invariant
            n == es@.len(),
            ev == entry_views(es@),
            first_alias_owner(ev.take(i as int), name@) < 0,
    {
        let ghost before = ev.take(i as int);
        let found = crate::types::list_contains(&es[i].metadata.aliases, name);
        let ghost al = ev[i as int].1.aliases;
        proof {
            assert(ev.take(i + 1).drop_last() =~= before);
            assert(ev.take(i + 1).last() == ev[i as int]);
        }
        if found {
            proof {
                lemma_first_alias_owner_prefix(ev, name@, i + 1);
            }
            return Some(i);
        }
    }
    assert(ev.take(n as int) =~= ev);
    None
}

/// Lays the fields that a local entry sets over global metadata.
fn overlay_exec(g: &mut Metadata, l: &Metadata)
    ensures
        final(g)@ == overlay(old(g)@, l@),
{
    if l.tags.len() > 0 {
        g.tags = copy_strings(&l.tags);
    }
    if l.note.is_some() {
        g.note = copy_opt(&l.note);
    }
    if l.region.is_some() {
        g.region = copy_opt(&l.region);
    }
}

/// Merges a project's local metadata entries into the global ones (see
/// `merge_local`).
pub fn merge_local_config(global: &mut Vec<MetadataEntry>, local: &Vec<MetadataEntry>)
    requires
        meta_keys_distinct(entry_views(old(global)@)),
    ensures
        entry_views(final(global)@) == merge_local(entry_views(old(global)@), entry_views(local@)),
        meta_keys_distinct(entry_views(final(global)@)),
{
    let ghost g0 = entry_views(global@);
    let ghost lv = entry_views(local@);
    let n = local.len();
    for i in 0..n
        invariant
            n == local@.len(),
            lv == entry_views(local@),
            entry_views(global@) == merge_local(g0, lv.take(i as int)),
            meta_keys_distinct(entry_views(global@)),
    {
        let ghost before = entry_views(global@);
        proof {
            assert(lv.take(i + 1).drop_last() =~= lv.take(i as int));
            assert(lv.take(i + 1).last() == lv[i as int]);
            lemma_merge_step_distinct(before, lv[i as int].0, lv[i as int].1);
        }
        let key = local[i].name.as_str();
        match key_position(global, key) {
            Some(_) => {
                insert_entry(global, local[i].name.clone(), local[i].metadata.duplicate());
            },
            None => {
                match first_alias_owner_exec(global, key) {
                    Some(j) => {
                        proof {
                            lemma_first_alias_owner_range(before, lv[i as int].0);
                        }
                        let mut m = global[j].metadata.duplicate();
                        overlay_exec(&mut m, &local[i].metadata);
                        let nm = global[j].name.clone();
                        global[j] = MetadataEntry { name: nm, metadata: m };
                        assert(entry_views(global@) =~= before.update(
                            j as int,
                            (before[j as int].0, overlay(before[j as int].1, lv[i as int].1)),
                        ));
                    },
                    None => {},
                }
            },
        }
    }
    assert(lv.take(n as int) =~= lv);
}

} // verus!
