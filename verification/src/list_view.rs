//! What the profile table highlights for a query, and the SSO marks.
use vstd::prelude::*;
use crate::regex_ops::{Pattern, compile, escape, regex_compiles, regex_escaped};
use crate::sso::{SsoService, SsoStatus};
use crate::text::{lowercase, strip_prefix, strip_prefix_spec, to_lower};

verus! {

/// Which columns a query highlights.
#[derive(Debug, Clone, Copy, PartialEq, Eq, Structural)]
pub struct HighlightConfig {
    pub name: bool,
    pub aliases: bool,
    pub tags: bool,
    pub note: bool,
}

/// Highlighting in no column.
pub open spec fn no_highlight() -> HighlightConfig {
    HighlightConfig { name: false, aliases: false, tags: false, note: false }
}

/// What a query highlights: the text of the case-insensitive pattern
/// (none for an empty query) and the columns. `tag:V`, `alias:V` and
/// `name:V` (prefix matched on the lowercased query) look for the
/// lowercased `V` in one column; any other query for itself, as typed,
/// in all four.
pub open spec fn highlight_for(query: Seq<char>) -> (Option<Seq<char>>, HighlightConfig) {
    if query.len() == 0 {
        (None, no_highlight())
    } else {
        let ql = lowercase(query);
        match strip_prefix_spec(ql, "tag:"@) {
            Some(v) => (Some("(?i)"@ + regex_escaped(v)), HighlightConfig { tags: true, ..no_highlight() }),
            None => match strip_prefix_spec(ql, "alias:"@) {
                Some(v) => (
                    Some("(?i)"@ + regex_escaped(v)),
                    HighlightConfig { aliases: true, ..no_highlight() },
                ),
                None => match strip_prefix_spec(ql, "name:"@) {
                    Some(v) => (
                        Some("(?i)"@ + regex_escaped(v)),
                        HighlightConfig { name: true, ..no_highlight() },
                    ),
                    None => (
                        Some("(?i)"@ + regex_escaped(query)),
                        HighlightConfig { name: true, aliases: true, tags: true, note: true },
                    ),
                },
            },
        }
    }
}

/// The mark shown before a profile's name for its SSO status: green
/// when active, red when expired, white when the profile has no SSO
/// settings, a question mark when the status is unknown.
pub open spec fn sso_mark(status: SsoStatus) -> Seq<char> {
    match status {
        SsoStatus::Active => "🟢 "@,
        SsoStatus::Expired => "🔴 "@,
        SsoStatus::NotConfigured => "⚪ "@,
        SsoStatus::Unknown => "❓ "@,
    }
}

/// The table of profiles: compact or full, what to highlight and the
/// SSO service that gives each profile's status.
pub struct ListView {
    pub short: bool,
    pub regex: Option<Pattern>,
    pub hl_config: HighlightConfig,
    pub sso_service: SsoService,
}

impl ListView {
    /// A view for the query (see `parse_query`).
    pub fn new(short: bool, query: &str, sso_service: SsoService) -> (r: Self)
        ensures
            r.short == short,
            r.hl_config == highlight_for(query@).1,
            match highlight_for(query@).0 {
                None => r.regex is None,
                Some(pat) => (r.regex is Some <==> regex_compiles(pat)) && (r.regex matches Some(p) ==> p@ == pat),
            },
            r.sso_service@ == sso_service@,
    {
        let (regex, hl_config) = Self::parse_query(query);
        ListView { short, regex, hl_config, sso_service }
    }

    /// The pattern and the columns that a query highlights (see
    /// `highlight_for`); no pattern when it does not compile.
    pub fn parse_query(query: &str) -> (r: (Option<Pattern>, HighlightConfig))
        ensures
            r.1 == highlight_for(query@).1,
            match highlight_for(query@).0 {
                None => r.0 is None,
                Some(pat) => (r.0 is Some <==> regex_compiles(pat)) && (r.0 matches Some(p) ==> p@ == pat),
            },
    {
        proof {
            reveal_strlit("");
        }
        if query.unicode_len() == 0 {
            return (None, HighlightConfig { name: false, aliases: false, tags: false, note: false });
        }
        let ql = to_lower(query);
        let (pattern, config) = match strip_prefix(ql.as_str(), "tag:") {
            Some(v) => (escape(v.as_str()), HighlightConfig { name: false, aliases: false, tags: true, note: false }),
            None => match strip_prefix(ql.as_str(), "alias:") {
                Some(v) => (
                    escape(v.as_str()),
                    HighlightConfig { name: false, aliases: true, tags: false, note: false },
                ),
                None => match strip_prefix(ql.as_str(), "name:") {
                    Some(v) => (
                        escape(v.as_str()),
                        HighlightConfig { name: true, aliases: false, tags: false, note: false },
                    ),
                    None => (escape(query), HighlightConfig { name: true, aliases: true, tags: true, note: true }),
                },
            },
        };
        let full = "(?i)".to_string().concat(pattern.as_str());
        (compile(full.as_str()), config)
    }

    /// The mark shown before a profile's name for its SSO status.
    pub fn sso_icon(status: SsoStatus) -> (r: String)
        ensures
            r@ == sso_mark(status),
    {
        match status {
            SsoStatus::Active => "🟢 ".to_string(),
            SsoStatus::Expired => "🔴 ".to_string(),
            SsoStatus::NotConfigured => "⚪ ".to_string(),
            SsoStatus::Unknown => "❓ ".to_string(),
        }
    }
}

} // verus!
