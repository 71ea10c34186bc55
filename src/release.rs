use vstd::prelude::*;

use crate::fetch::PullRequest;
use crate::labels::{retained, SkipLabels};

verus! {

/// One change as the release document lists it.
#[derive(Debug)]
pub struct Entry {
    pub number: u64,
    pub title: String,
    pub author: String,
    pub labels: Vec<String>,
    pub url: String,
}

/// The document handed to the template renderer: the version and its
/// changes, newest first, in the order in which they were fetched.
#[derive(Debug)]
pub struct ReleaseData {
    pub version: String,
    pub entries: Vec<Entry>,
}

/// `e` lists the pull request `p`.
pub open spec fn lists(e: Entry, p: PullRequest) -> bool {
    &&& e.number == p.number
    &&& e.title@ == p.title@
    &&& e.author@ == p.author@
    &&& e.labels@ == p.labels@
    &&& e.url@ == p.url@
}

/// `entries` lists the pull requests of `prs`, one for one and in order.
pub open spec fn lists_all(entries: Seq<Entry>, prs: Seq<PullRequest>) -> bool {
    &&& entries.len() == prs.len()
    &&& forall|i: int| 0 <= i < prs.len() ==> lists(#[trigger] entries[i], prs[i])
}

/// The entry that lists `pr`.
pub fn entry_of(pr: PullRequest) -> (e: Entry)
    ensures
        lists(e, pr),
{
    Entry { number: pr.number, title: pr.title, author: pr.author, labels: pr.labels, url: pr.url }
}

/// Wraps the version and lists the pull requests in the order given.
pub fn assemble(version: String, prs: Vec<PullRequest>) -> (r: ReleaseData)
    ensures
        r.version@ == version@,
        lists_all(r.entries@, prs@),
{
    let ghost items = prs@;
    let n = prs.len();
    let mut prs = prs;
    let mut entries: Vec<Entry> = Vec::new();
    let mut i: usize = 0;
    while i < n
        invariant
            i <= n,
            n == items.len(),
            prs@ == items.skip(i as int),
            lists_all(entries@, items.take(i as int)),
        decreases n - i,
    {
        let pr = prs.remove(0);
        proof {
            assert(items.skip(i + 1) =~= items.skip(i as int).remove(0));
        }
        entries.push(entry_of(pr));
        i = i + 1;
    }
    proof {
        assert(items.take(n as int) =~= items);
    }
    ReleaseData { version, entries }
}

/// Drops the changes that a skip pattern excludes and assembles the rest.
pub fn build_release(version: String, changes: Vec<PullRequest>, skip: &SkipLabels) -> (r:
    ReleaseData)
    ensures
        r.version@ == version@,
        lists_all(r.entries@, retained(skip.patterns(), changes@)),
{
    let kept = skip.filter(changes);
    assemble(version, kept)
}

} // verus!
