//! Opt-in cross-origin access for browser clients.
//!
//! With no origins configured no headers are sent at all. Listed origins are
//! exact matches against the browser's `Origin` header; the single entry `*`
//! allows any. Methods and headers mirror the preflight request, and
//! credentials stay off.

use crate::config;
use crate::config::ServerConfig;
use crate::text;
use vstd::prelude::*;
use vstd::string::*;

verus! {

/// Browsers may keep a preflight's answer this long.
pub const MAX_AGE_SECS: u64 = 3600;

/// The response headers a page's script may read beyond the safelisted ones.
pub fn exposed_headers() -> (r: Vec<&'static str>)
    ensures
        r@.len() == 2,
        r@[0]@ == "x-request-id"@,
        r@[1]@ == "retry-after"@,
{
    let mut v: Vec<&'static str> = Vec::new();
    v.push("x-request-id");
    v.push("retry-after");
    v
}

/// Which origins may call.
#[derive(Debug)]
pub enum CorsPolicy {
    Any,
    /// These, in lower case as browsers send them.
    Listed(Vec<String>),
}

/// A text in lower case.
pub open spec fn lowered(s: Seq<char>) -> Seq<char> {
    Seq::new(s.len(), |i: int| config::lower(s[i]))
}

/// A character that may stand in a header's value: none of the control characters
/// but the tab.
pub open spec fn header_char(c: char) -> bool {
    (' ' <= c && c != '\u{7f}') || c == '\t'
}

/// A text that can be a header's value.
pub open spec fn header_text(s: Seq<char>) -> bool {
    forall|i: int| 0 <= i < s.len() ==> header_char(#[trigger] s[i])
}

/// The origins of a list of entries: in lower case, without those that no
/// header can carry.
pub open spec fn origins_of(entries: Seq<Seq<char>>) -> Seq<Seq<char>>
    decreases entries.len(),
{
    if entries.len() == 0 {
        Seq::empty()
    } else if header_text(lowered(entries.last())) {
        origins_of(entries.drop_last()).push(lowered(entries.last()))
    } else {
        origins_of(entries.drop_last())
    }
}

fn lower_text(s: &str) -> (r: (String, bool))
    ensures
        r.0@ == lowered(s@),
        r.1 == header_text(lowered(s@)),
{
    let v: Vec<char> = text::chars_of(s);
    let mut out: String = String::new();
    let mut ok: bool = true;
    let mut i: usize = 0;
    while i < v.len()
        invariant
            i <= v@.len(),
            v@ == s@,
            out@ =~= lowered(v@).take(i as int),
            ok == header_text(lowered(v@).take(i as int)),
        decreases v@.len() - i,
    {
        let c: char = config::lower_char(v[i]);
        let good: bool = (' ' <= c && c != '\u{7f}') || c == '\t';
        let ghost before = lowered(v@).take(i as int);
        let ghost after = lowered(v@).take(i + 1);
        assert(after =~= before.push(c));
        assert(header_text(after) == (header_text(before) && good)) by {
            assert(after[i as int] == c);
            if header_text(after) {
                assert forall|j: int| 0 <= j < before.len() implies header_char(
                    #[trigger] before[j],
                ) by {
                    assert(after[j] == before[j]);
                }
            }
        }
        ok = ok && good;
        out.push(c);
        i = i + 1;
    }
    assert(lowered(v@).take(i as int) =~= lowered(v@));
    (out, ok)
}

/// The policy of the configuration; none when no origins are listed, which is
/// the default.
pub fn layer(server: &ServerConfig) -> (r: Option<CorsPolicy>)
    ensures
        ({
            let entries = text::list_view(server.cors_origins@);
            match r {
                None => entries.len() == 0,
                Some(CorsPolicy::Any) => entries.contains("*"@),
                Some(CorsPolicy::Listed(origins)) => entries.len() > 0 && !entries.contains("*"@)
                    && text::list_view(origins@) == origins_of(entries),
            }
        }),
{
    if server.cors_origins.len() == 0 {
        return None;
    }
    if text::contains(&server.cors_origins, "*") {
        return Some(CorsPolicy::Any);
    }
    let ghost all = text::list_view(server.cors_origins@);
    let mut origins: Vec<String> = Vec::new();
    let mut i: usize = 0;
    assert(text::list_view(origins@) =~= origins_of(all.take(0)));
    while i < server.cors_origins.len()
        invariant
            i <= server.cors_origins@.len(),
            all == text::list_view(server.cors_origins@),
            text::list_view(origins@) == origins_of(all.take(i as int)),
        decreases server.cors_origins@.len() - i,
    {
        assert(all.take(i + 1).drop_last() =~= all.take(i as int));
        assert(all.take(i + 1).last() == server.cors_origins@[i as int]@);
        let (origin, ok) = lower_text(server.cors_origins[i].as_str());
        if ok {
            let ghost before = origins@;
            origins.push(origin);
            assert(text::list_view(origins@) =~= text::list_view(before).push(origin@));
        }
        i = i + 1;
    }
    assert(all.take(i as int) =~= all);
    Some(CorsPolicy::Listed(origins))
}

/// A text in lower case has its own characters, letters small and the rest as they are.
pub proof fn law_lower_case_changes_letters_alone(s: Seq<char>, i: int)
    requires
        0 <= i < s.len(),
    ensures
        lowered(s).len() == s.len(),
        'A' <= s[i] <= 'Z' ==> lowered(s)[i] as u32 == s[i] as u32 + 32,
        !('A' <= s[i] <= 'Z') ==> lowered(s)[i] == s[i],
{
}

/// A header's value holds no line end and no other control character but the tab.
pub proof fn law_headers_hold_no_control_characters(s: Seq<char>, i: int)
    ensures
        !header_char('\n'),
        !header_char('\r'),
        !header_char('\u{0}'),
        !header_char('\u{1f}'),
        !header_char('\u{7f}'),
        header_char('\t'),
        header_char(' '),
        header_char('~'),
        forall|c: char| c > '\u{7f}' ==> #[trigger] header_char(c),
        0 <= i < s.len() && !header_char(s[i]) ==> !header_text(s),
        header_text(Seq::empty()),
{
}

/// The origins that are let in are the listed ones in lower case and in order, without
/// those that no header can carry.
pub proof fn law_listed_origins_are_let_in(entries: Seq<Seq<char>>, entry: Seq<char>)
    ensures
        origins_of(Seq::empty()).len() == 0,
        header_text(lowered(entry)) ==> origins_of(entries.push(entry)) == origins_of(
            entries,
        ).push(lowered(entry)),
        !header_text(lowered(entry)) ==> origins_of(entries.push(entry)) == origins_of(entries),
{
    assert(entries.push(entry).drop_last() =~= entries);
}

} // verus!
