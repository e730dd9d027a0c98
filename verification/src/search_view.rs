//! The interactive search menu: the lines it shows, the name read back
//! from a chosen line, and the safety check on the chosen profile.
use vstd::prelude::*;
use crate::interaction::InteractionHandler;
use crate::policy::{ProfileSafetyPolicy, sensitive};
use crate::search::SearchTarget;
use crate::text::{chars_of, push_char, string_of};
use crate::types::{Profile, ProfileView, profile_tags, profile_views, views};

verus! {

/// The length of a text in UTF-8 bytes, as `str::len` gives it.
pub open spec fn byte_len(s: Seq<char>) -> nat {
    (vstd::utf8::encode_utf8(s).len() as usize) as nat
}

/// `n` spaces.
pub open spec fn spaces(n: nat) -> Seq<char> {
    Seq::new(n, |i: int| ' ')
}

/// The text padded with spaces on the right to `w` characters, as
/// `format!("{:<w$}", s)` writes it.
pub open spec fn pad_right(s: Seq<char>, w: nat) -> Seq<char> {
    if s.len() >= w {
        s
    } else {
        s + spaces((w - s.len()) as nat)
    }
}

/// The items joined with a separator.
pub open spec fn join(items: Seq<Seq<char>>, sep: Seq<char>) -> Seq<char>
    decreases items.len(),
{
    if items.len() == 0 {
        Seq::empty()
    } else if items.len() == 1 {
        items[0]
    } else {
        join(items.drop_last(), sep) + sep + items.last()
    }
}

/// The larger of two widths.
pub open spec fn wider(a: nat, b: nat) -> nat {
    if a >= b { a } else { b }
}

/// The width of the name column: the longest name in bytes, at least 4.
pub open spec fn name_width(ps: Seq<ProfileView>) -> nat
    decreases ps.len(),
{
    if ps.len() == 0 {
        4
    } else {
        wider(name_width(ps.drop_last()), byte_len(ps.last().name))
    }
}

/// The region of the AWS config, or the empty text.
pub open spec fn region_text(p: ProfileView) -> Seq<char> {
    match p.region {
        Some(r) => r,
        None => Seq::empty(),
    }
}

/// The width of the region column: the longest region in bytes, at
/// least 6.
pub open spec fn region_width(ps: Seq<ProfileView>) -> nat
    decreases ps.len(),
{
    if ps.len() == 0 {
        6
    } else {
        wider(region_width(ps.drop_last()), byte_len(region_text(ps.last())))
    }
}

/// Tags, aliases and note of a profile as shown (empty without metadata).
pub open spec fn tags_text(p: ProfileView) -> Seq<char> {
    match p.metadata {
        Some(m) => join(m.tags, ", "@),
        None => Seq::empty(),
    }
}

/// The aliases as shown.
pub open spec fn aliases_text(p: ProfileView) -> Seq<char> {
    match p.metadata {
        Some(m) => join(m.aliases, ", "@),
        None => Seq::empty(),
    }
}

/// The note as shown.
pub open spec fn note_text(p: ProfileView) -> Seq<char> {
    match p.metadata {
        Some(m) => match m.note {
            Some(n) => n,
            None => Seq::empty(),
        },
        None => Seq::empty(),
    }
}

/// The menu line of a profile for a target, with the given column widths.
pub open spec fn display_line(p: ProfileView, target: SearchTarget, wn: nat, wr: nat) -> Seq<char> {
    match target {
        SearchTarget::All => pad_right(p.name, wn) + " | "@ + pad_right(region_text(p), wr) + " | "@
            + pad_right(tags_text(p), 4) + " | "@ + pad_right(aliases_text(p), 7) + " | "@ + note_text(p),
        SearchTarget::Tags => pad_right(p.name, wn) + " | "@ + tags_text(p),
        SearchTarget::Aliases => pad_right(p.name, wn) + " | "@ + aliases_text(p),
        SearchTarget::Name => p.name,
    }
}

/// The menu lines of the profiles, in order.
pub open spec fn display_lines(ps: Seq<ProfileView>, target: SearchTarget) -> Seq<Seq<char>> {
    ps.map_values(|p: ProfileView| display_line(p, target, name_width(ps), region_width(ps)))
}

/// The characters that `char::is_whitespace` accepts (Unicode
/// `White_Space`).
pub open spec fn is_space(c: char) -> bool {
    let v = c as u32;
    (0x9 <= v <= 0xD) || v == 0x20 || v == 0x85 || v == 0xA0 || v == 0x1680 || (0x2000 <= v <= 0x200A)
        || v == 0x2028 || v == 0x2029 || v == 0x202F || v == 0x205F || v == 0x3000
}

/// The text without leading white space.
pub open spec fn trim_start_spec(s: Seq<char>) -> Seq<char>
    decreases s.len(),
{
    if s.len() > 0 && is_space(s[0]) {
        trim_start_spec(s.drop_first())
    } else {
        s
    }
}

/// The text without trailing white space.
pub open spec fn trim_end_spec(s: Seq<char>) -> Seq<char>
    decreases s.len(),
{
    if s.len() > 0 && is_space(s.last()) {
        trim_end_spec(s.drop_last())
    } else {
        s
    }
}

/// The text before the first occurrence of `c` (all of it without one).
pub open spec fn before_char(s: Seq<char>, c: char) -> Seq<char>
    decreases s.len(),
{
    if s.len() == 0 {
        s
    } else if s[0] == c {
        Seq::empty()
    } else {
        seq![s[0]] + before_char(s.drop_first(), c)
    }
}

/// The profile name on a chosen menu line: the text before the first
/// `|`, trimmed.
pub open spec fn selected_name_spec(line: Seq<char>) -> Seq<char> {
    trim_end_spec(trim_start_spec(before_char(line, '|')))
}

/// The first profile of this name.
pub open spec fn first_named(ps: Seq<ProfileView>, n: Seq<char>) -> Option<ProfileView>
    decreases ps.len(),
{
    if ps.len() == 0 {
        None
    } else if ps[0].name == n {
        Some(ps[0])
    } else {
        first_named(ps.drop_first(), n)
    }
}

/// The chosen profile needs confirmation: it is listed and sensitive.
pub open spec fn selection_needs_confirmation(
    ps: Seq<ProfileView>,
    keywords: Set<Seq<char>>,
    selected: Seq<char>,
) -> bool {
    match first_named(ps, selected) {
        Some(p) => sensitive(keywords, selected, profile_tags(p)),
        None => false,
    }
}

/// The choice after the safety check, given whether it needs
/// confirmation and the user's answer.
pub open spec fn selection_after_answer(selected: String, needs: bool, confirmed: bool) -> Option<String> {
    if needs && !confirmed {
        None
    } else {
        Some(selected)
    }
}

/// Whether `char::is_whitespace` accepts the character.
pub fn is_space_char(c: char) -> (r: bool)
    ensures
        r == is_space(c),
{
    let v = c as u32;
    (0x9 <= v && v <= 0xD) || v == 0x20 || v == 0x85 || v == 0xA0 || v == 0x1680 || (0x2000 <= v && v
        <= 0x200A) || v == 0x2028 || v == 0x2029 || v == 0x202F || v == 0x205F || v == 0x3000
}

/// The text padded with spaces on the right to `w` characters.
fn pad_right_exec(s: &str, w: usize) -> (r: String)
    ensures
        r@ == pad_right(s@, w as nat),
{
    let n = chars_of(s).len();
    let mut r = s.to_string();
    if n < w {
        let mut k: usize = n;
        while k < w
            invariant
                n <= k <= w,
                n == s@.len(),
                r@ == s@ + spaces((k - n) as nat),
            decreases w - k,
        {
            push_char(&mut r, ' ');
            assert(s@ + spaces((k + 1 - n) as nat) =~= (s@ + spaces((k - n) as nat)).push(' '));
            k = k + 1;
        }
    } else {
        assert(r@ == pad_right(s@, w as nat));
    }
    r
}

/// The items joined with a separator.
pub fn join_strings(items: &Vec<String>, sep: &str) -> (r: String)
    ensures
        r@ == join(views(items@), sep@),
{
    let ghost iv = views(items@);
    let mut r = String::new();
    let n = items.len();
    if n == 0 {
        return r;
    }
    r = items[0].clone();
    assert(iv.take(1) =~= seq![iv[0]]);
    for i in 1..n
        invariant
            n == items@.len(),
            n >= 1,
            iv == views(items@),
            r@ == join(iv.take(i as int), sep@),
    {
        r = r.concat(sep).concat(items[i].as_str());
        assert(iv.take(i + 1).drop_last() =~= iv.take(i as int));
    }
    assert(iv.take(n as int) =~= iv);
    r
}

/// The tags, aliases and note of a profile as shown.
fn profile_texts(p: &Profile) -> (r: (String, String, String))
    ensures
        r.0@ == tags_text(p@),
        r.1@ == aliases_text(p@),
        r.2@ == note_text(p@),
{
    match &p.metadata {
        Some(m) => {
            let note = match &m.note {
                Some(n) => n.clone(),
                None => String::new(),
            };
            (join_strings(&m.tags, ", "), join_strings(&m.aliases, ", "), note)
        },
        None => (String::new(), String::new(), String::new()),
    }
}

/// The column widths: the longest name and region in bytes, at least 4
/// and 6.
fn column_widths(profiles: &Vec<Profile>) -> (r: (usize, usize))
    ensures
        r.0 == name_width(profile_views(profiles@)),
        r.1 == region_width(profile_views(profiles@)),
{
    let ghost pv = profile_views(profiles@);
    let mut wn: usize = 4;
    let mut wr: usize = 6;
    let n = profiles.len();
    for i in 0..n
        invariant
            n == profiles@.len(),
            pv == profile_views(profiles@),
            wn == name_width(pv.take(i as int)),
            wr == region_width(pv.take(i as int)),
    {
        assert(pv.take(i + 1).drop_last() =~= pv.take(i as int));
        assert(pv.take(i + 1).last() == profiles@[i as int]@);
        let ln = profiles[i].name.as_str().len();
        assert(ln == byte_len(pv[i as int].name));
        if ln > wn {
            wn = ln;
        }
        let lr = match &profiles[i].region {
            Some(reg) => reg.as_str().len(),
            None => 0,
        };
        assert(region_text(pv[i as int]) == match profiles@[i as int].region {
            Some(reg) => reg@,
            None => Seq::<char>::empty(),
        });
        assert(lr == byte_len(region_text(pv[i as int])));
        if lr > wr {
            wr = lr;
        }
    }
    assert(pv.take(n as int) =~= pv);
    (wn, wr)
}

/// The menu lines for the profiles (see `display_line`).
pub fn display_items(profiles: &Vec<Profile>, target: SearchTarget) -> (r: Vec<String>)
    ensures
        views(r@) == display_lines(profile_views(profiles@), target),
{
    let ghost pv = profile_views(profiles@);
    let (wn, wr) = column_widths(profiles);
    let mut r: Vec<String> = Vec::new();
    let n = profiles.len();
    for i in 0..n
        invariant
            n == profiles@.len(),
            pv == profile_views(profiles@),
            wn == name_width(pv),
            wr == region_width(pv),
            views(r@) == pv.take(i as int).map_values(
                |p: ProfileView| display_line(p, target, wn as nat, wr as nat),
            ),
    {
        let p = &profiles[i];
        let ghost v = pv[i as int];
        assert(v == p@);
        let line = match target {
            SearchTarget::All => {
                let (tags, aliases, note) = profile_texts(p);
                let region = match &p.region {
                    Some(reg) => reg.clone(),
                    None => String::new(),
                };
                pad_right_exec(p.name.as_str(), wn).concat(" | ").concat(
                    pad_right_exec(region.as_str(), wr).as_str(),
                ).concat(" | ").concat(pad_right_exec(tags.as_str(), 4).as_str()).concat(" | ").concat(
                    pad_right_exec(aliases.as_str(), 7).as_str(),
                ).concat(" | ").concat(note.as_str())
            },
            SearchTarget::Tags => {
                let (tags, _, _) = profile_texts(p);
                pad_right_exec(p.name.as_str(), wn).concat(" | ").concat(tags.as_str())
            },
            SearchTarget::Aliases => {
                let (_, aliases, _) = profile_texts(p);
                pad_right_exec(p.name.as_str(), wn).concat(" | ").concat(aliases.as_str())
            },
            SearchTarget::Name => p.name.clone(),
        };
        assert(line@ == display_line(v, target, wn as nat, wr as nat));
        let ghost before = views(r@);
        r.push(line);
        assert(views(r@) =~= before.push(line@));
        assert(pv.take(i + 1).map_values(|p: ProfileView| display_line(p, target, wn as nat, wr as nat))
            =~= pv.take(i as int).map_values(
            |p: ProfileView| display_line(p, target, wn as nat, wr as nat),
        ).push(display_line(v, target, wn as nat, wr as nat)));
    }
    assert(pv.take(n as int) =~= pv);
    r
}

/// The profile name on a chosen menu line: the text before the first
/// `|`, with white space trimmed.
pub fn selected_name(line: &str) -> (r: String)
    ensures
        r@ == selected_name_spec(line@),
{
    let cs = chars_of(line);
    let n = cs.len();
    let mut end: usize = 0;
    assert(cs@.skip(0) =~= cs@);
    assert(cs@.take(0) + cs@ =~= cs@);
    while end < n && cs[end] != '|'
        invariant
            n == cs@.len(),
            end <= n,
            before_char(cs@, '|') == cs@.take(end as int) + before_char(cs@.skip(end as int), '|'),
        decreases n - end,
    {
        let ghost rest = cs@.skip(end as int);
        assert(rest.drop_first() =~= cs@.skip(end + 1));
        assert(cs@.take(end as int) + seq![rest[0]] =~= cs@.take(end + 1));
        end = end + 1;
    }
    let ghost part = cs@.take(end as int);
    assert(before_char(cs@.skip(end as int), '|') == Seq::<char>::empty());
    assert(before_char(cs@, '|') =~= part);
    let mut start: usize = 0;
    assert(part.subrange(0, end as int) =~= part);
    while start < end && is_space_char(cs[start])
        invariant
            end <= n,
            n == cs@.len(),
            start <= end,
            part == cs@.take(end as int),
            trim_start_spec(part) == trim_start_spec(part.subrange(start as int, end as int)),
        decreases end - start,
    {
        let ghost sub = part.subrange(start as int, end as int);
        assert(sub.drop_first() =~= part.subrange(start + 1, end as int));
        start = start + 1;
    }
    let ghost trimmed_start = part.subrange(start as int, end as int);
    assert(trim_start_spec(part) == trimmed_start);
    let mut stop: usize = end;
    while stop > start && is_space_char(cs[stop - 1])
        invariant
            end <= n,
            n == cs@.len(),
            start <= stop <= end,
            part == cs@.take(end as int),
            trimmed_start == part.subrange(start as int, end as int),
            trim_end_spec(trimmed_start) == trim_end_spec(part.subrange(start as int, stop as int)),
        decreases stop - start,
    {
        let ghost sub = part.subrange(start as int, stop as int);
        assert(sub.drop_last() =~= part.subrange(start as int, stop - 1));
        stop = stop - 1;
    }
    assert(trim_end_spec(trimmed_start) == part.subrange(start as int, stop as int));
    let mut out: Vec<char> = Vec::new();
    for k in start..stop
        invariant
            start <= stop <= end <= n,
            n == cs@.len(),
            part == cs@.take(end as int),
            out@ == part.subrange(start as int, k as int),
    {
        out.push(cs[k]);
        assert(part.subrange(start as int, k + 1) =~= part.subrange(start as int, k as int).push(cs@[k as int]));
    }
    string_of(out.as_slice())
}

/// The interactive search view: the policy that guards a choice and the
/// handler that asks the user.
pub struct SearchView<H: InteractionHandler> {
    policy: ProfileSafetyPolicy,
    handler: H,
}

impl<H: InteractionHandler> SearchView<H> {
    /// A view with this handler and policy.
    pub fn new(handler: H, policy: ProfileSafetyPolicy) -> (r: Self)
        ensures
            r.policy() == policy@,
            r.handler() == handler,
    {
        SearchView { policy, handler }
    }

    /// The keywords of the policy.
    pub closed spec fn policy(&self) -> Set<Seq<char>> {
        self.policy@
    }

    /// The handler that asks the user.
    pub closed spec fn handler(&self) -> H {
        self.handler
    }

    /// Whether the chosen profile needs confirmation: the first profile
    /// of that name is sensitive.
    pub fn needs_confirmation(&self, profiles: &Vec<Profile>, selected: &str) -> (r: bool)
        ensures
            r == selection_needs_confirmation(profile_views(profiles@), self.policy(), selected@),
    {
        let ghost pv = profile_views(profiles@);
        let n = profiles.len();
        let mut i: usize = 0;
        assert(pv.skip(0) =~= pv);
        while i < n
            invariant
                n == profiles@.len(),
                pv == profile_views(profiles@),
                i <= n,
                first_named(pv, selected@) == first_named(pv.skip(i as int), selected@),
            decreases n - i,
        {
            let ghost rest = pv.skip(i as int);
            assert(rest[0] == profiles@[i as int]@);
            if crate::text::str_eq(profiles[i].name.as_str(), selected) {
                let tags = profiles[i].tag_list();
                return self.policy.is_sensitive_profile(selected, tags.as_slice());
            }
            assert(rest.drop_first() =~= pv.skip(i + 1));
            i = i + 1;
        }
        false
    }

    /// The choice after the safety check: a sensitive profile that the
    /// user does not confirm gives `None`; otherwise the chosen name. The
    /// handler is asked about the chosen name, and only when the choice
    /// needs confirmation.
    pub fn finalize_selection(&self, profiles: &Vec<Profile>, selected_profile_name: String) -> (r: Option<String>)
        ensures
            ({
                let needs = selection_needs_confirmation(
                    profile_views(profiles@),
                    self.policy(),
                    selected_profile_name@,
                );
                &&& !needs ==> r == Some(selected_profile_name)
                &&& needs ==> exists|answer: bool|
                    #[trigger] self.handler().may_answer(selected_profile_name@, answer) && r == selection_after_answer(
                        selected_profile_name,
                        true,
                        answer,
                    )
            }),
    {
        let needs = self.needs_confirmation(profiles, selected_profile_name.as_str());
        if needs {
            let answer = self.handler.confirm_sensitive_action(selected_profile_name.as_str());
            assert(self.handler().may_answer(selected_profile_name@, answer));
            Self::after_answer(selected_profile_name, true, answer)
        } else {
            Self::after_answer(selected_profile_name, false, false)
        }
    }

    /// The choice given whether it needs confirmation and the user's
    /// answer: refused when it needs confirmation and is not confirmed.
    pub fn after_answer(selected_profile_name: String, needs: bool, confirmed: bool) -> (r: Option<String>)
        ensures
            r == selection_after_answer(selected_profile_name, needs, confirmed),
    {
        if needs && !confirmed {
            None
        } else {
            Some(selected_profile_name)
        }
    }
}

} // verus!
