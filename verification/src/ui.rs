//! The embedded admin pages. They are served without authentication: the shell
//! is static code, and every piece of data it renders comes from the admin
//! API.

use crate::scan;
use crate::text;
use vstd::prelude::*;
use vstd::string::*;

verus! {

/// What a request under `/ui` is answered.
#[derive(Debug, Clone, Copy, PartialEq, Eq, Structural)]
pub enum UiAnswer {
    /// The asset, to be cached for good: its name changes with its content.
    Immutable,
    /// The asset, to be revalidated each time.
    Revalidate,
    /// The pages are there, but no such asset.
    NotFound,
    /// The pages were never built.
    NotBuilt,
}

/// The path holds the text.
pub open spec fn holds(path: Seq<char>, needle: Seq<char>) -> bool {
    scan::find(path, needle, 0) is Some
}

/// What a request for an asset is answered, given whether the asset and the
/// shell are there.
pub fn serve(path: &str, found: bool, built: bool) -> (r: UiAnswer)
    ensures
        r == (if found {
            if holds(path@, "immutable"@) {
                UiAnswer::Immutable
            } else {
                UiAnswer::Revalidate
            }
        } else if built {
            UiAnswer::NotFound
        } else {
            UiAnswer::NotBuilt
        }),
{
    if !found {
        return if built {
            UiAnswer::NotFound
        } else {
            UiAnswer::NotBuilt
        };
    }
    let v: Vec<char> = text::chars_of(path);
    let needle: Vec<char> = text::chars_of("immutable");
    match scan::find_text(&v, &needle, 0) {
        Some(_) => UiAnswer::Immutable,
        None => UiAnswer::Revalidate,
    }
}

impl UiAnswer {
    pub open spec fn spec_status(self) -> u16 {
        match self {
            UiAnswer::Immutable | UiAnswer::Revalidate => 200,
            UiAnswer::NotFound => 404,
            UiAnswer::NotBuilt => 503,
        }
    }

    /// The status of the answer.
    pub fn status(self) -> (r: u16)
        ensures
            r == self.spec_status(),
    {
        match self {
            UiAnswer::Immutable | UiAnswer::Revalidate => 200,
            UiAnswer::NotFound => 404,
            UiAnswer::NotBuilt => 503,
        }
    }

    /// How long an asset may be cached, for an answer that carries one.
    pub fn cache_control(self) -> (r: Option<&'static str>)
        ensures
            match r {
                Some(s) => (self is Immutable && s@ == "public, max-age=31536000, immutable"@) || (
                self is Revalidate && s@ == "no-cache"@),
                None => self is NotFound || self is NotBuilt,
            },
    {
        match self {
            UiAnswer::Immutable => Some("public, max-age=31536000, immutable"),
            UiAnswer::Revalidate => Some("no-cache"),
            UiAnswer::NotFound | UiAnswer::NotBuilt => None,
        }
    }

    /// The text of an answer that carries no asset.
    pub fn message(self) -> (r: Option<&'static str>)
        ensures
            match r {
                Some(s) => (self is NotFound && s@ == "no such asset"@) || (self is NotBuilt && s@
                    == "admin UI not built: run `npm --prefix admin install && npm --prefix admin run build` and restart (release builds embed it at compile time)"@),
                None => self is Immutable || self is Revalidate,
            },
    {
        match self {
            UiAnswer::Immutable | UiAnswer::Revalidate => None,
            UiAnswer::NotFound => Some("no such asset"),
            UiAnswer::NotBuilt => Some(
                "admin UI not built: run `npm --prefix admin install && npm --prefix admin run build` and restart (release builds embed it at compile time)",
            ),
        }
    }
}

/// Where a request without the trailing slash is sent for good: the shell's
/// asset links are relative and resolve only below it. A query is kept.
pub fn redirect_to_slash(query: Option<&str>) -> (r: String)
    ensures
        r@ == (match query {
            Some(q) => "/ui/?"@ + q@,
            None => "/ui/"@,
        }),
{
    match query {
        Some(q) => {
            let mut location: String = "/ui/?".to_owned();
            location.append(q);
            location
        },
        None => "/ui/".to_owned(),
    }
}

/// A path holds a text where the text stands somewhere in it.
pub proof fn law_paths_hold_what_stands_in_them(path: Seq<char>, needle: Seq<char>, i: int)
    requires
        needle.len() > 0,
        0 <= i,
    ensures
        i + needle.len() <= path.len() && path.subrange(i, i + needle.len()) == needle ==> holds(
            path,
            needle,
        ),
        holds(path, needle) ==> exists|k: int|
            0 <= k && #[trigger] scan::stands_at(path, needle, k),
{
    scan::law_the_first_place_is_found(path, needle, 0, i);
    if i + needle.len() <= path.len() && path.subrange(i, i + needle.len()) == needle {
        assert(scan::stands_at(path, needle, i));
    }
}

/// An asset that is there is a success, one that is not is not found, and pages that were
/// never built are unavailable.
pub proof fn law_answers_have_their_status()
    ensures
        UiAnswer::Immutable.spec_status() == 200,
        UiAnswer::Revalidate.spec_status() == 200,
        UiAnswer::NotFound.spec_status() == 404,
        UiAnswer::NotBuilt.spec_status() == 503,
{
}

} // verus!
