use vstd::prelude::*;

use crate::error::ReleaseError;
use crate::labels::{set_compiles, SkipLabels};
use crate::timeframe::{parses_to, Timeframe};

verus! {

/// What one run works from: the repository, the two boundaries of the
/// release window, the label-exclusion patterns and the template source.
pub struct Config {
    pub owner: String,
    pub repo: String,
    pub from: Timeframe,
    pub to: Timeframe,
    pub skip_labels: SkipLabels,
    pub template: String,
}

impl Config {
    /// The defaults for a repository: from the latest release until now,
    /// skipping no label, with the given template.
    pub fn new(owner: String, repo: String, template: String) -> (r: Config)
        ensures
            r.owner@ == owner@,
            r.repo@ == repo@,
            r.from == Timeframe::Latest,
            r.to == Timeframe::Now,
            r.skip_labels.patterns() == Seq::<Seq<char>>::empty(),
            r.template@ == template@,
    {
        let none: Vec<String> = Vec::new();
        let skip_labels = SkipLabels::new(none).unwrap();
        proof {
            assert(none@.map_values(|p: String| p@) =~= Seq::<Seq<char>>::empty());
        }
        Config { owner, repo, from: Timeframe::Latest, to: Timeframe::Now, skip_labels, template }
    }

    /// A configuration from its textual fields. `ConfigInvalid` exactly when a
    /// boundary does not read as a timeframe or the patterns do not compile.
    pub fn from_text(
        owner: String,
        repo: String,
        from: &str,
        to: &str,
        skip_labels: Vec<String>,
        template: String,
    ) -> (r: Result<Config, ReleaseError>)
        ensures
            r matches Ok(c) ==> {
                &&& c.owner@ == owner@
                &&& c.repo@ == repo@
                &&& parses_to(from@, Ok(c.from))
                &&& parses_to(to@, Ok(c.to))
                &&& c.skip_labels.patterns() == skip_labels@.map_values(|p: String| p@)
                &&& c.template@ == template@
            },
            r is Err ==> r == Err::<Config, ReleaseError>(ReleaseError::ConfigInvalid),
            (parses_to(from@, Err(ReleaseError::ConfigInvalid)) || parses_to(
                to@,
                Err(ReleaseError::ConfigInvalid),
            )) ==> r is Err,
            r is Ok == (!parses_to(from@, Err(ReleaseError::ConfigInvalid)) && !parses_to(
                to@,
                Err(ReleaseError::ConfigInvalid),
            ) && set_compiles(skip_labels@.map_values(|p: String| p@))),
    {
        let from = match Timeframe::parse(from) {
            Ok(t) => t,
            Err(e) => return Err(e),
        };
        let to = match Timeframe::parse(to) {
            Ok(t) => t,
            Err(e) => return Err(e),
        };
        let skip_labels = match SkipLabels::new(skip_labels) {
            Ok(k) => k,
            Err(e) => return Err(e),
        };
        Ok(Config { owner, repo, from, to, skip_labels, template })
    }

    /// Lets values given on the command line take the place of those of the
    /// configuration; a value not given leaves the configured one.
    pub fn apply_overrides(
        &mut self,
        from: Option<Timeframe>,
        to: Option<Timeframe>,
        skip_labels: Option<SkipLabels>,
    )
        ensures
            final(self).owner == old(self).owner,
            final(self).repo == old(self).repo,
            final(self).template == old(self).template,
            final(self).from == match from {
                Some(t) => t,
                None => old(self).from,
            },
            final(self).to == match to {
                Some(t) => t,
                None => old(self).to,
            },
            final(self).skip_labels.patterns() == match skip_labels {
                Some(k) => k.patterns(),
                None => old(self).skip_labels.patterns(),
            },
    {
        if let Some(t) = from {
            self.from = t;
        }
        if let Some(t) = to {
            self.to = t;
        }
        if let Some(k) = skip_labels {
            self.skip_labels = k;
        }
    }
}

} // verus!
