use vstd::prelude::*;

use crate::error::ReleaseError;
use crate::fetch::PullRequest;

verus! {

#[verifier::external_type_specification]
#[verifier::external_body]
pub struct ExRegexSet(regex::RegexSet);

#[verifier::external_type_specification]
#[verifier::external_body]
pub struct ExRegexError(regex::Error);

/// Whether the regular expression `pattern` matches somewhere in `text`
/// (a search, not a match of the whole text).
pub uninterp spec fn regex_finds(pattern: Seq<char>, text: Seq<char>) -> bool;

/// Whether the patterns `pats` all compile, together, into one set.
pub uninterp spec fn set_compiles(pats: Seq<Seq<char>>) -> bool;

/// Some pattern of `pats` matches somewhere in `label`.
pub open spec fn label_skipped(pats: Seq<Seq<char>>, label: Seq<char>) -> bool {
    exists|i: int| 0 <= i < pats.len() && regex_finds(#[trigger] pats[i], label)
}

/// Some label of `p` is matched by some pattern of `pats`.
pub open spec fn pr_skipped(pats: Seq<Seq<char>>, p: PullRequest) -> bool {
    exists|j: int| 0 <= j < p.labels@.len() && label_skipped(pats, #[trigger] p.labels@[j]@)
}

/// The pull requests of `s` that no pattern of `pats` excludes, in order.
pub open spec fn retained(pats: Seq<Seq<char>>, s: Seq<PullRequest>) -> Seq<PullRequest> {
    s.filter(|p: PullRequest| !pr_skipped(pats, p))
}

/// The items of `s` whose flag, at the same position of `flags`, is unset.
pub open spec fn keep_unflagged(s: Seq<PullRequest>, flags: Seq<bool>) -> Seq<PullRequest>
    decreases s.len(),
{
    if s.len() == 0 {
        Seq::empty()
    } else {
        let prev = keep_unflagged(s.drop_last(), flags);
        if flags[s.len() - 1] {
            prev
        } else {
            prev.push(s.last())
        }
    }
}

/// The label-exclusion patterns, compiled once.
pub struct SkipLabels {
    patterns: Vec<String>,
    set: regex::RegexSet,
}

/// Relies on `regex::RegexSet::new`: compiles the patterns into one set, or
/// fails when one of them is not a valid regular expression. A set of no
/// pattern always compiles (`RegexSet::empty` is built that way).
#[verifier::external_body]
fn compile_set(patterns: &Vec<String>) -> (r: Result<regex::RegexSet, regex::Error>)
    ensures
        r is Ok == set_compiles(patterns@.map_values(|p: String| p@)),
        patterns@.len() == 0 ==> r is Ok,
{
    regex::RegexSet::new(patterns)
}

/// Relies on `regex::RegexSet::is_match`: true if and only if one of the
/// patterns of the set matches somewhere in the text. The set of a
/// `SkipLabels` is only ever compiled from its own `patterns`.
#[verifier::external_body]
fn set_finds(skip: &SkipLabels, text: &str) -> (r: bool)
    ensures
        r == (exists|i: int|
            0 <= i < skip.patterns().len() && regex_finds(#[trigger] skip.patterns()[i], text@)),
{
    skip.set.is_match(text)
}

impl SkipLabels {
    /// The source text of each pattern, in order.
    pub closed spec fn patterns(&self) -> Seq<Seq<char>> {
        self.patterns@.map_values(|p: String| p@)
    }

    /// Compiles the patterns; `ConfigInvalid` exactly when they do not compile
    /// (one is not a valid regular expression). No pattern at all always
    /// compiles.
    pub fn new(patterns: Vec<String>) -> (r: Result<SkipLabels, ReleaseError>)
        ensures
            r matches Ok(k) ==> k.patterns() == patterns@.map_values(|p: String| p@),
            r matches Err(e) ==> e == ReleaseError::ConfigInvalid,
            r is Ok == set_compiles(patterns@.map_values(|p: String| p@)),
            patterns@.len() == 0 ==> r is Ok,
    {
        match compile_set(&patterns) {
            Ok(set) => Ok(SkipLabels { patterns, set }),
            Err(_) => Err(ReleaseError::ConfigInvalid),
        }
    }

    /// Whether some pattern matches somewhere in `label`.
    pub fn skips_label(&self, label: &str) -> (r: bool)
        ensures
            r == label_skipped(self.patterns(), label@),
    {
        set_finds(self, label)
    }

    /// Whether some label of `pr` is matched by some pattern.
    pub fn skips(&self, pr: &PullRequest) -> (r: bool)
        ensures
            r == pr_skipped(self.patterns(), *pr),
    {
        let n = pr.labels.len();
        let mut j: usize = 0;
        while j < n
            invariant
                j <= n,
                n == pr.labels@.len(),
                forall|k: int| 0 <= k < j ==> !label_skipped(self.patterns(), #[trigger] pr.labels@[k]@),
            decreases n - j,
        {
            if self.skips_label(pr.labels[j].as_str()) {
                return true;
            }
            j = j + 1;
        }
        false
    }

    /// Drops every pull request that one of its labels excludes, keeping the
    /// order of the rest.
    pub fn filter(&self, prs: Vec<PullRequest>) -> (r: Vec<PullRequest>)
        ensures
            r@ == retained(self.patterns(), prs@),
    {
        let n = prs.len();
        let mut flags: Vec<bool> = Vec::new();
        let mut i: usize = 0;
        while i < n
            invariant
                i <= n,
                n == prs@.len(),
                flags@.len() == i,
                forall|k: int| 0 <= k < i ==> #[trigger] flags@[k] == pr_skipped(self.patterns(), prs@[k]),
            decreases n - i,
        {
            let skip = self.skips(&prs[i]);
            flags.push(skip);
            i = i + 1;
        }
        proof {
            lemma_keep_unflagged_retained(self.patterns(), prs@, flags@);
        }
        retain_unflagged(prs, &flags)
    }
}

/// Keeps the pull requests whose flag at the same position is unset, in order.
pub fn retain_unflagged(prs: Vec<PullRequest>, flags: &Vec<bool>) -> (r: Vec<PullRequest>)
    requires
        flags@.len() == prs@.len(),
    ensures
        r@ == keep_unflagged(prs@, flags@),
{
    let ghost items = prs@;
    let n = prs.len();
    let mut prs = prs;
    let mut out: Vec<PullRequest> = Vec::new();
    let mut i: usize = 0;
    while i < n
        invariant
            i <= n,
            n == items.len(),
            flags@.len() == n,
            prs@ == items.skip(i as int),
            out@ == keep_unflagged(items.take(i as int), flags@),
        decreases n - i,
    {
        let pr = prs.remove(0);
        proof {
            assert(items.take(i + 1).drop_last() =~= items.take(i as int));
            assert(items.skip(i + 1) =~= items.skip(i as int).remove(0));
        }
        if !flags[i] {
            out.push(pr);
        }
        i = i + 1;
    }
    proof {
        assert(items.take(n as int) =~= items);
    }
    out
}

proof fn lemma_keep_unflagged_retained(pats: Seq<Seq<char>>, s: Seq<PullRequest>, flags: Seq<bool>)
    requires
        flags.len() == s.len(),
        forall|k: int| 0 <= k < s.len() ==> #[trigger] flags[k] == pr_skipped(pats, s[k]),
    ensures
        keep_unflagged(s, flags) == retained(pats, s),
    decreases s.len(),
{
    broadcast use Seq::lemma_filter_push;

    if s.len() == 0 {
        reveal(Seq::filter);
    } else {
        let front = s.drop_last();
        let fl = flags.take(front.len() as int);
        lemma_keep_unflagged_prefix(front, flags, fl);
        lemma_keep_unflagged_retained(pats, front, fl);
        assert(s =~= front.push(s.last()));
        assert(flags[s.len() - 1] == pr_skipped(pats, s[s.len() - 1]));
    }
}

proof fn lemma_keep_unflagged_prefix(s: Seq<PullRequest>, flags: Seq<bool>, fl: Seq<bool>)
    requires
        fl.len() >= s.len(),
        flags.len() >= s.len(),
        forall|k: int| 0 <= k < s.len() ==> #[trigger] fl[k] == flags[k],
    ensures
        keep_unflagged(s, flags) == keep_unflagged(s, fl),
    decreases s.len(),
{
    if s.len() > 0 {
        lemma_keep_unflagged_prefix(s.drop_last(), flags, fl);
    }
}

/// Filtering twice with the same patterns keeps what filtering once kept.
pub proof fn lemma_filter_idempotent(pats: Seq<Seq<char>>, s: Seq<PullRequest>)
    ensures
        retained(pats, retained(pats, s)) == retained(pats, s),
    decreases s.len(),
{
    let keep = |p: PullRequest| !pr_skipped(pats, p);
    if s.len() == 0 {
        reveal(Seq::filter);
        assert(retained(pats, s) =~= s);
    } else {
        let front = s.drop_last();
        let x = s.last();
        lemma_filter_idempotent(pats, front);
        assert(s =~= front.push(x));
        front.lemma_filter_push(x, keep);
        let once = retained(pats, front);
        if keep(x) {
            once.lemma_filter_push(x, keep);
        }
    }
}

/// With no pattern, filtering keeps every pull request, in order.
pub proof fn lemma_filter_no_pattern(s: Seq<PullRequest>)
    ensures
        retained(Seq::empty(), s) == s,
    decreases s.len(),
{
    broadcast use Seq::lemma_filter_push;

    if s.len() == 0 {
        reveal(Seq::filter);
    } else {
        let front = s.drop_last();
        lemma_filter_no_pattern(front);
        assert(s =~= front.push(s.last()));
        assert(!pr_skipped(Seq::empty(), s.last()));
    }
}

} // verus!
