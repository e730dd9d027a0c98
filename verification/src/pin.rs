//! Pinning a profile to a directory through its `.envrc` file.
use vstd::prelude::*;
use crate::config::{Store, has_name, name_pos, store_profiles};
use crate::policy::{ProfileSafetyPolicy, sensitive};
use crate::regex_ops::{
    compile, envrc_pattern, export_prefix, first_prefix_line, has_prefix_line, is_first_prefix_line, is_line_end,
    is_match, line_end,
    prefix_line_at, replace_first, regex_replaced,
};
use crate::text::{chars_of, has_prefix, push_char};
use crate::types::profile_tags;

verus! {

/// The export line for a profile.
pub open spec fn pin_line(name: Seq<char>) -> Seq<char> {
    export_prefix() + name
}

/// The `.envrc` text with the export line appended: after a newline
/// when the text does not end with one, and followed by a newline.
pub open spec fn appended(content: Seq<char>, line: Seq<char>) -> Seq<char> {
    (if content.len() > 0 && content.last() != '\n' { content.push('\n') } else { content }) + line
        + "\n"@
}

/// The `.envrc` text after pinning `name`: the first `AWS_PROFILE` export
/// line is replaced by the new one, or, when there is none, the new line
/// is appended.
pub open spec fn pinned_envrc(content: Seq<char>, name: Seq<char>) -> Seq<char> {
    if has_prefix_line(content, export_prefix()) {
        let s = first_prefix_line(content, export_prefix());
        content.subrange(0, s) + pin_line(name) + content.subrange(line_end(content, s), content.len() as int)
    } else {
        appended(content, pin_line(name))
    }
}

/// What pinning decides before writing.
pub enum PinDecision {
    /// Write the `.envrc` file.
    Proceed,
    /// Ask the user to confirm first.
    Confirm,
}

/// Command to pin a profile to the current directory via `.envrc`.
pub struct PinCommand;

impl PinCommand {
    /// Whether to ask before pinning: when the profile exists (by exact
    /// name) and is sensitive, unless `yes`.
    pub fn decide(store: &Store, policy: &ProfileSafetyPolicy, profile_name: &str, yes: bool) -> (r: PinDecision)
        requires
            store@.wf(),
        ensures
            ({
                let ps = store_profiles(store@);
                (r is Confirm) == (has_name(ps, profile_name@) && sensitive(
                    policy@,
                    profile_name@,
                    profile_tags(ps[name_pos(ps, profile_name@)]),
                ) && !yes)
            }),
    {
        match store.find_by_name(profile_name) {
            Some(profile) => {
                let tags = profile.tag_list();
                if policy.is_sensitive_profile(profile_name, tags.as_slice()) && !yes {
                    PinDecision::Confirm
                } else {
                    PinDecision::Proceed
                }
            },
            None => PinDecision::Proceed,
        }
    }

    /// The new `.envrc` text (the existing one, or empty when there is no
    /// file) with `profile_name` pinned. The replacement goes through
    /// `regex::Regex::replace`, which expands `$` references; for a name
    /// without `$` the result is `pinned_envrc`.
    pub fn update_envrc(content: &str, profile_name: &str) -> (r: String)
        ensures
            has_prefix_line(content@, export_prefix()) ==> r@ == regex_replaced(
                envrc_pattern(),
                content@,
                pin_line(profile_name@),
            ),
            !profile_name@.contains('$') ==> r@ == pinned_envrc(content@, profile_name@),
            !has_prefix_line(content@, export_prefix()) ==> r@ == pinned_envrc(content@, profile_name@),
    {
        let export_line = "export AWS_PROFILE=".to_string().concat(profile_name);
        proof {
            reveal_strlit("export AWS_PROFILE=");
            assert(!export_prefix().contains('$'));
            if !profile_name@.contains('$') {
                assert(!export_line@.contains('$')) by {
                    if export_line@.contains('$') {
                        let k = choose|k: int| 0 <= k < export_line@.len() && export_line@[k] == '$';
                        if k < export_prefix().len() {
                            assert(export_prefix()[k] == '$');
                        } else {
                            assert(profile_name@[k - export_prefix().len()] == '$');
                        }
                    }
                }
            }
        }
        let re = compile("(?m)^export AWS_PROFILE=.*$");
        match re {
            Some(re) => {
                if is_match(&re, content) {
                    return replace_first(&re, content, export_line.as_str());
                }
            },
            None => {},
        }
        let cs = chars_of(content);
        let mut out = content.to_string();
        let n = cs.len();
        if n > 0 && cs[n - 1] != '\n' {
            push_char(&mut out, '\n');
        }
        let mut out = out.concat(export_line.as_str());
        push_char(&mut out, '\n');
        proof {
            reveal_strlit("\n");
            assert(out@ =~= appended(content@, pin_line(profile_name@)));
        }
        out
    }
}


/// Every position has exactly one line end.
proof fn lemma_line_end(t: Seq<char>, i: int)
    requires
        0 <= i <= t.len(),
    ensures
        is_line_end(t, i, line_end(t, i)),
        forall|e: int| is_line_end(t, i, e) ==> e == line_end(t, i),
    decreases t.len() - i,
{
    if i == t.len() {
        assert(is_line_end(t, i, i));
    } else if t[i] == '\n' {
        assert(is_line_end(t, i, i));
    } else {
        lemma_line_end(t, i + 1);
        assert(is_line_end(t, i, line_end(t, i + 1)));
    }
    let f = line_end(t, i);
    assert(is_line_end(t, i, f));
    assert forall|e: int| is_line_end(t, i, e) implies e == f by {
        if e < f {
            assert(i <= e < f);
            assert(t[e] != '\n');
        } else if f < e {
            assert(i <= f < e);
            assert(t[f] != '\n');
        }
    }
}

/// A line that starts with a text without newlines has no newline where
/// that text stands.
proof fn lemma_prefix_window(t: Seq<char>, j: int, pre: Seq<char>)
    requires
        0 <= j <= t.len(),
        has_prefix(t.subrange(j, t.len() as int), pre),
        !pre.contains('\n'),
    ensures
        forall|k: int| j <= k < j + pre.len() ==> t[k] != '\n',
{
    assert forall|k: int| j <= k < j + pre.len() implies t[k] != '\n' by {
        assert(t.subrange(j, t.len() as int).subrange(0, pre.len() as int)[k - j] == t[k]);
        assert(pre[k - j] != '\n') by {
            if pre[k - j] == '\n' {
                assert(pre.contains('\n'));
            }
        }
    }
}

/// A line that starts with `pre` at `i` means a first such line exists.
proof fn lemma_first_prefix_line_exists(t: Seq<char>, pre: Seq<char>, i: int)
    requires
        prefix_line_at(t, i, pre),
    ensures
        is_first_prefix_line(t, pre, first_prefix_line(t, pre)),
    decreases i,
{
    if exists|j: int| 0 <= j < i && prefix_line_at(t, j, pre) {
        let j = choose|j: int| 0 <= j < i && prefix_line_at(t, j, pre);
        lemma_first_prefix_line_exists(t, pre, j);
    } else {
        assert(is_first_prefix_line(t, pre, i));
    }
}

/// The first prefix line is found, once one is known to exist at `s`
/// with none before it.
proof fn lemma_first_prefix_line(t: Seq<char>, s: int, pre: Seq<char>)
    requires
        prefix_line_at(t, s, pre),
        forall|j: int| 0 <= j < s ==> !prefix_line_at(t, j, pre),
    ensures
        has_prefix_line(t, pre),
        first_prefix_line(t, pre) == s,
{
    assert(has_prefix_line(t, pre));
    assert(is_first_prefix_line(t, pre, s));
    let f = first_prefix_line(t, pre);
    assert(is_first_prefix_line(t, pre, f));
    if f < s {
        assert(!prefix_line_at(t, f, pre));
    } else if s < f {
        assert(!prefix_line_at(t, s, pre));
    }
}

/// A line of `u` before position `q` that starts with `pre` (which has no
/// newline) is a line of `t` that starts with `pre`, when `u` and `t`
/// agree before `q` and `u` has a newline at `q - 1` (or `q` is 0).
proof fn lemma_prefix_lines_before(t: Seq<char>, u: Seq<char>, q: int, pre: Seq<char>, j: int)
    requires
        0 <= j < q <= u.len(),
        q <= t.len() + 1,
        forall|k: int| 0 <= k < q && k < t.len() ==> #[trigger] u[k] == t[k],
        q > 0 ==> u[q - 1] == '\n',
        q - 1 < t.len() ==> t[q - 1] == '\n',
        !pre.contains('\n'),
        pre.len() > 0,
        prefix_line_at(u, j, pre),
    ensures
        prefix_line_at(t, j, pre),
{
    lemma_prefix_window(u, j, pre);
    if j + pre.len() > q - 1 {
        assert(u[q - 1] != '\n');
    }
    assert(j + pre.len() <= q - 1);
    assert(t.subrange(j, t.len() as int).subrange(0, pre.len() as int) =~= u.subrange(j, u.len() as int).subrange(
        0,
        pre.len() as int,
    ));
}

/// Facts about the export prefix and the export line of a name
/// without newlines.
proof fn lemma_export_line(name: Seq<char>)
    requires
        !name.contains('\n'),
    ensures
        !export_prefix().contains('\n'),
        !pin_line(name).contains('\n'),
        has_prefix(pin_line(name), export_prefix()),
        export_prefix().len() > 0,
{
    reveal_strlit("export AWS_PROFILE=");
    let pre = export_prefix();
    let line = pin_line(name);
    assert(!pre.contains('\n')) by {
        if pre.contains('\n') {
            let k = choose|k: int| 0 <= k < pre.len() && pre[k] == '\n';
            assert(pre[k] != '\n');
        }
    }
    assert(!line.contains('\n')) by {
        if line.contains('\n') {
            let k = choose|k: int| 0 <= k < line.len() && line[k] == '\n';
            if k < pre.len() {
                assert(pre[k] == '\n');
            } else {
                assert(name[k - pre.len()] == '\n');
            }
        }
    }
    assert(line.subrange(0, pre.len() as int) =~= pre);
}

/// Pinning again where an export line was replaced changes nothing.
#[verifier::rlimit(50)]
proof fn lemma_pin_replaced_again(c: Seq<char>, name: Seq<char>, next: Seq<char>)
    requires
        !name.contains('\n'),
        !next.contains('\n'),
        has_prefix_line(c, export_prefix()),
    ensures
        pinned_envrc(pinned_envrc(c, name), next) == pinned_envrc(c, next),
{
    lemma_export_line(name);
    lemma_export_line(next);
    let pre = export_prefix();
    let line = pin_line(name);
    let c1 = pinned_envrc(c, name);
    let s = first_prefix_line(c, pre);
    lemma_first_prefix_line_exists(c, pre, choose|i: int| prefix_line_at(c, i, pre));
    assert(is_first_prefix_line(c, pre, s));
    lemma_line_end(c, s);
    let e = line_end(c, s);
    assert(c1 =~= c.subrange(0, s) + line + c.subrange(e, c.len() as int));
    assert(prefix_line_at(c1, s, pre)) by {
        assert(c1.subrange(s, c1.len() as int).subrange(0, pre.len() as int) =~= pre);
        if s > 0 {
            assert(c1[s - 1] == c[s - 1]);
        }
    }
    assert forall|j: int| 0 <= j < s implies !prefix_line_at(c1, j, pre) by {
        if prefix_line_at(c1, j, pre) {
            assert forall|k: int| 0 <= k < s && k < c.len() implies #[trigger] c1[k] == c[k] by {}
            assert(c[s - 1] == '\n');
            lemma_prefix_lines_before(c, c1, s, pre, j);
        }
    }
    lemma_first_prefix_line(c1, s, pre);
    let e1 = s + line.len();
    assert(is_line_end(c1, s, e1)) by {
        assert forall|k: int| s <= k < e1 implies c1[k] != '\n' by {
            assert(c1[k] == line[k - s]);
            if line[k - s] == '\n' {
                assert(line.contains('\n'));
            }
        }
        if e1 < c1.len() {
            assert(c1[e1] == c[e]);
        }
    }
    lemma_line_end(c1, s);
    assert(c1.subrange(0, s) =~= c.subrange(0, s));
    assert(c1.subrange(e1, c1.len() as int) =~= c.subrange(e, c.len() as int));
}

/// Pinning again where an export line was appended changes nothing.
#[verifier::rlimit(50)]
proof fn lemma_pin_appended_again(c: Seq<char>, name: Seq<char>, next: Seq<char>)
    requires
        !name.contains('\n'),
        !next.contains('\n'),
        !has_prefix_line(c, export_prefix()),
    ensures
        pinned_envrc(pinned_envrc(c, name), next) == pinned_envrc(c, next),
{
    lemma_export_line(name);
    lemma_export_line(next);
    reveal_strlit("\n");
    let pre = export_prefix();
    let line = pin_line(name);
    let c1 = pinned_envrc(c, name);
    let c0 = if c.len() > 0 && c.last() != '\n' { c.push('\n') } else { c };
    let q = c0.len() as int;
    assert(c1 =~= c0 + line + seq!['\n']);
    assert(q > 0 ==> c1[q - 1] == '\n') by {
        if q > 0 {
            assert(c1[q - 1] == c0[q - 1]);
        }
    }
    assert(prefix_line_at(c1, q, pre)) by {
        assert(c1.subrange(q, c1.len() as int).subrange(0, pre.len() as int) =~= pre);
    }
    assert forall|j: int| 0 <= j < q implies !prefix_line_at(c1, j, pre) by {
        if prefix_line_at(c1, j, pre) {
            assert forall|k: int| 0 <= k < q && k < c.len() implies #[trigger] c1[k] == c[k] by {
                assert(c1[k] == c0[k]);
            }
            lemma_prefix_lines_before(c, c1, q, pre, j);
            assert(has_prefix_line(c, pre));
        }
    }
    lemma_first_prefix_line(c1, q, pre);
    let e1 = q + line.len();
    assert(is_line_end(c1, q, e1)) by {
        assert forall|k: int| q <= k < e1 implies c1[k] != '\n' by {
            assert(c1[k] == line[k - q]);
            if line[k - q] == '\n' {
                assert(line.contains('\n'));
            }
        }
        assert(c1[e1] == '\n');
    }
    lemma_line_end(c1, q);
    assert(c1.subrange(0, q) =~= c0);
    assert(c1.subrange(e1, c1.len() as int) =~= seq!['\n']);
    assert(pinned_envrc(c1, next) =~= c0 + pin_line(next) + seq!['\n']);
}

/// Pinning twice is pinning once: a second pin of the same profile (whose
/// name has no newline) leaves the `.envrc` text as the first made it.
pub proof fn law_pin_is_idempotent(content: Seq<char>, name: Seq<char>)
    requires
        !name.contains('\n'),
    ensures
        pinned_envrc(pinned_envrc(content, name), name) == pinned_envrc(content, name),
{
    if has_prefix_line(content, export_prefix()) {
        lemma_pin_replaced_again(content, name, name);
    } else {
        lemma_pin_appended_again(content, name, name);
    }
}

/// The last pin wins: pinning one profile and then another (names without
/// a newline) leaves the `.envrc` text as pinning only the second would.
pub proof fn law_last_pin_wins(content: Seq<char>, first: Seq<char>, second: Seq<char>)
    requires
        !first.contains('\n'),
        !second.contains('\n'),
    ensures
        pinned_envrc(pinned_envrc(content, first), second) == pinned_envrc(content, second),
{
    if has_prefix_line(content, export_prefix()) {
        lemma_pin_replaced_again(content, first, second);
    } else {
        lemma_pin_appended_again(content, first, second);
    }
}

} // verus!
