use vstd::prelude::*;

use crate::error::ReleaseError;
use crate::instant::{date_shape, iso_instant, parse_iso_instant, starts_like_date};
use crate::text::{chars_of, has_blank, is_blank, same_chars};

verus! {

/// One boundary of a release window, as written by the user.
/// Instants are seconds since the Unix epoch, in UTC.
#[derive(Debug, Clone, PartialEq, Eq)]
pub enum Timeframe {
    /// The most recent published release.
    Latest,
    /// The current instant.
    Now,
    /// A named tag, resolved through its target commit.
    Tag(String),
    /// An explicit instant.
    DateTime(i64),
}

/// A remote lookup that resolving a boundary needs.
#[derive(Debug, Clone, PartialEq, Eq)]
pub enum Lookup {
    /// The publication instant of the latest release.
    LatestRelease,
    /// The commit instant of the named tag.
    TagCommit(String),
}

/// The lookup, if any, that resolving `tf` needs.
pub open spec fn lookup_of(tf: Timeframe) -> Option<Lookup> {
    match tf {
        Timeframe::Latest => Some(Lookup::LatestRelease),
        Timeframe::Tag(name) => Some(Lookup::TagCommit(name)),
        _ => None,
    }
}

/// The instant that `tf` resolves to, given the current instant `now` and
/// the answer of the remote lookup (`Ok(None)`: nothing by that name).
/// `Now` and `DateTime` never consult the answer.
pub open spec fn resolved(
    tf: Timeframe,
    now: i64,
    answer: Result<Option<i64>, ReleaseError>,
) -> Result<i64, ReleaseError> {
    match tf {
        Timeframe::Now => Ok(now),
        Timeframe::DateTime(t) => Ok(t),
        _ => match answer {
            Ok(Some(t)) => Ok(t),
            Ok(None) => Err(ReleaseError::NotFound),
            Err(e) => Err(e),
        },
    }
}

/// A tag name: not empty, and no blank in it.
pub open spec fn is_tag_name(s: Seq<char>) -> bool {
    s.len() > 0 && forall|k: int| 0 <= k < s.len() ==> !is_blank(#[trigger] s[k])
}

/// `r` is what the text `s` reads as: `latest`, `now`, an ISO-8601 instant
/// (see `iso_instant`), or else a tag name. Any other text is
/// `ConfigInvalid`, and so is text that starts like a date (`YYYY-MM-DD`)
/// without being one of the accepted instants.
pub open spec fn parses_to(s: Seq<char>, r: Result<Timeframe, ReleaseError>) -> bool {
    if s == seq!['l', 'a', 't', 'e', 's', 't'] {
        r == Ok::<Timeframe, ReleaseError>(Timeframe::Latest)
    } else if s == seq!['n', 'o', 'w'] {
        r == Ok::<Timeframe, ReleaseError>(Timeframe::Now)
    } else if iso_instant(s) is Some {
        r == Ok::<Timeframe, ReleaseError>(Timeframe::DateTime(iso_instant(s)->0 as i64))
    } else if date_shape(s) {
        r == Err::<Timeframe, ReleaseError>(ReleaseError::ConfigInvalid)
    } else if is_tag_name(s) {
        r matches Ok(Timeframe::Tag(name)) && name@ == s
    } else {
        r == Err::<Timeframe, ReleaseError>(ReleaseError::ConfigInvalid)
    }
}

impl Timeframe {
    /// Reads a boundary as written in a configuration or on a command line.
    pub fn parse(s: &str) -> (r: Result<Timeframe, ReleaseError>)
        ensures
            parses_to(s@, r),
    {
        let cs = chars_of(s);
        if same_chars(&cs, &vec!['l', 'a', 't', 'e', 's', 't']) {
            return Ok(Timeframe::Latest);
        }
        if same_chars(&cs, &vec!['n', 'o', 'w']) {
            return Ok(Timeframe::Now);
        }
        if let Some(t) = parse_iso_instant(&cs) {
            return Ok(Timeframe::DateTime(t));
        }
        if starts_like_date(&cs) {
            return Err(ReleaseError::ConfigInvalid);
        }
        if cs.len() > 0 && !has_blank(&cs) {
            Ok(Timeframe::Tag(s.to_owned()))
        } else {
            Err(ReleaseError::ConfigInvalid)
        }
    }

    /// The remote lookup that resolving this boundary needs, if any.
    pub fn lookup(&self) -> (r: Option<Lookup>)
        ensures
            r == lookup_of(*self),
    {
        match self {
            Timeframe::Latest => Some(Lookup::LatestRelease),
            Timeframe::Tag(name) => Some(Lookup::TagCommit(name.clone())),
            _ => None,
        }
    }

    /// Resolves this boundary to an instant. `answer` is what the lookup of
    /// `lookup()` returned; transport and access errors pass through unchanged.
    pub fn resolve(&self, now: i64, answer: Result<Option<i64>, ReleaseError>) -> (r: Result<
        i64,
        ReleaseError,
    >)
        ensures
            r == resolved(*self, now, answer),
    {
        match self {
            Timeframe::Now => Ok(now),
            Timeframe::DateTime(t) => Ok(*t),
            _ => match answer {
                Ok(Some(t)) => Ok(t),
                Ok(None) => Err(ReleaseError::NotFound),
                Err(e) => Err(e),
            },
        }
    }
}

/// Resolving `Latest` when the repository has no release, or a tag that does
/// not exist, fails with `NotFound`.
pub proof fn lemma_missing_target_not_found(now: i64, name: String)
    ensures
        resolved(Timeframe::Latest, now, Ok(None)) == Err::<i64, ReleaseError>(
            ReleaseError::NotFound,
        ),
        resolved(Timeframe::Tag(name), now, Ok(None)) == Err::<i64, ReleaseError>(
            ReleaseError::NotFound,
        ),
{
}

} // verus!
