use vstd::prelude::*;

verus! {

/// A pull request as the remote listing reports it. `merged_at` is the merge
/// instant in seconds since the Unix epoch, `None` for one never merged.
/// `listed_at` is the instant by which the listing is ordered, newest first;
/// no pull request is merged after its `listed_at`. In a listing ordered by
/// merge time it is the merge instant; in one ordered by last update, the
/// instant of the last update.
#[derive(Debug)]
pub struct PullRequest {
    pub number: u64,
    pub title: String,
    pub author: String,
    pub labels: Vec<String>,
    pub url: String,
    pub merged_at: Option<i64>,
    pub listed_at: i64,
}

/// Merged at an instant in `[from, to]`, both bounds included.
pub open spec fn in_window(p: PullRequest, from: i64, to: i64) -> bool {
    match p.merged_at {
        Some(t) => from <= t && t <= to,
        None => false,
    }
}

/// Listed before `from`: neither it nor anything after it in the listing
/// can have been merged in the window.
pub open spec fn is_older(p: PullRequest, from: i64) -> bool {
    p.listed_at < from
}

/// Some item of `s` was listed before `from`.
pub open spec fn has_older(s: Seq<PullRequest>, from: i64) -> bool {
    exists|i: int| 0 <= i < s.len() && is_older(#[trigger] s[i], from)
}

/// What a scan of the listing `s` (newest first) keeps: the items merged in
/// the window that no item listed before `from` precedes, in listing order.
pub open spec fn collected(s: Seq<PullRequest>, from: i64, to: i64) -> Seq<PullRequest>
    decreases s.len(),
{
    if s.len() == 0 {
        Seq::empty()
    } else {
        let prev = collected(s.drop_last(), from, to);
        if !has_older(s.drop_last(), from) && in_window(s.last(), from, to) {
            prev.push(s.last())
        } else {
            prev
        }
    }
}

/// The listing made of the pages `ps`, one after the other.
pub open spec fn concat_pages(ps: Seq<Vec<PullRequest>>) -> Seq<PullRequest>
    decreases ps.len(),
{
    if ps.len() == 0 {
        Seq::empty()
    } else {
        concat_pages(ps.drop_last()) + ps.last()@
    }
}

proof fn lemma_has_older_push(s: Seq<PullRequest>, x: PullRequest, from: i64)
    ensures
        has_older(s.push(x), from) == (has_older(s, from) || is_older(x, from)),
{
    let t = s.push(x);
    if has_older(s, from) {
        let i = choose|i: int| 0 <= i < s.len() && is_older(#[trigger] s[i], from);
        assert(t[i] == s[i]);
    }
    if is_older(x, from) {
        assert(t[s.len() as int] == x);
    }
    if has_older(t, from) {
        let i = choose|i: int| 0 <= i < t.len() && is_older(#[trigger] t[i], from);
        if i < s.len() {
            assert(t[i] == s[i]);
        }
    }
}

proof fn lemma_collected_push(s: Seq<PullRequest>, x: PullRequest, from: i64, to: i64)
    ensures
        collected(s.push(x), from, to) == if !has_older(s, from) && in_window(x, from, to) {
            collected(s, from, to).push(x)
        } else {
            collected(s, from, to)
        },
{
    assert(s.push(x).drop_last() =~= s);
}

/// Every item that a scan keeps lies in the window: items merged outside
/// `[from, to]`, or not merged, never appear.
pub proof fn lemma_collected_in_window(s: Seq<PullRequest>, from: i64, to: i64)
    ensures
        forall|i: int|
            0 <= i < collected(s, from, to).len() ==> in_window(
                #[trigger] collected(s, from, to)[i],
                from,
                to,
            ),
    decreases s.len(),
{
    if s.len() > 0 {
        lemma_collected_in_window(s.drop_last(), from, to);
        let prev = collected(s.drop_last(), from, to);
        let c = collected(s, from, to);
        assert forall|i: int| 0 <= i < c.len() implies in_window(#[trigger] c[i], from, to) by {
            if i < prev.len() {
                assert(c[i] == prev[i]);
            }
        }
    }
}

/// Once an item listed before `from` has been seen, what follows it in the
/// listing changes nothing in what a scan keeps.
pub proof fn lemma_collected_stops(s: Seq<PullRequest>, rest: Seq<PullRequest>, from: i64, to: i64)
    requires
        has_older(s, from),
    ensures
        collected(s + rest, from, to) == collected(s, from, to),
        has_older(s + rest, from),
    decreases rest.len(),
{
    if rest.len() == 0 {
        assert(s + rest =~= s);
    } else {
        let front = rest.drop_last();
        lemma_collected_stops(s, front, from, to);
        assert(s + rest =~= (s + front).push(rest.last()));
        lemma_collected_push(s + front, rest.last(), from, to);
        lemma_has_older_push(s + front, rest.last(), from);
    }
}

proof fn lemma_concat_take_succ(ps: Seq<Vec<PullRequest>>, k: int)
    requires
        0 <= k < ps.len(),
    ensures
        concat_pages(ps.take(k + 1)) == concat_pages(ps.take(k)) + ps[k]@,
{
    assert(ps.take(k + 1).drop_last() =~= ps.take(k));
}

/// The state of a paginated scan over the pull requests of a repository,
/// newest `listed_at` first, for the merge window `[from, to]`.
///
/// The caller asks `next_page` which page to request, hands the page to
/// `take_page`, and repeats until `next_page` says `None`. A page that fails
/// to arrive ends the whole operation with the caller's error.
pub struct Fetcher {
    from: i64,
    to: i64,
    accepted: Vec<PullRequest>,
    pages: u64,
    stopped: bool,
    done: bool,
    seen: Ghost<Seq<PullRequest>>,
}

impl Fetcher {
    /// Lower bound of the window.
    pub closed spec fn from(&self) -> i64 {
        self.from
    }

    /// Upper bound of the window.
    pub closed spec fn to(&self) -> i64 {
        self.to
    }

    /// Every item of the pages taken so far, in listing order.
    pub closed spec fn seen(&self) -> Seq<PullRequest> {
        self.seen@
    }

    /// How many pages have been taken.
    pub closed spec fn pages_taken(&self) -> nat {
        self.pages as nat
    }

    /// No further page is wanted.
    pub closed spec fn done(&self) -> bool {
        self.done
    }

    /// What has been kept so far.
    pub closed spec fn kept(&self) -> Seq<PullRequest> {
        self.accepted@
    }

    pub closed spec fn wf(&self) -> bool {
        &&& self.accepted@ == collected(self.seen@, self.from, self.to)
        &&& self.stopped == has_older(self.seen@, self.from)
        &&& self.stopped ==> self.done
    }

    /// A scan that has taken no page yet.
    pub fn new(from: i64, to: i64) -> (r: Fetcher)
        ensures
            r.wf(),
            r.from() == from,
            r.to() == to,
            r.seen() == Seq::<PullRequest>::empty(),
            r.pages_taken() == 0,
            !r.done(),
    {
        Fetcher {
            from,
            to,
            accepted: Vec::new(),
            pages: 0,
            stopped: false,
            done: false,
            seen: Ghost(Seq::empty()),
        }
    }

    /// Whether the scan is over.
    pub fn is_done(&self) -> (r: bool)
        ensures
            r == self.done(),
    {
        self.done
    }

    /// The zero-based index of the page to request next, or `None` once the
    /// scan is over.
    pub fn next_page(&self) -> (r: Option<u64>)
        ensures
            r == if self.done() {
                None
            } else {
                Some(self.pages_taken() as u64)
            },
    {
        if self.done {
            None
        } else {
            Some(self.pages)
        }
    }

    /// Scans one page of the listing. `last` tells that the listing has no
    /// page after this one. The scan is over after a last page, or once an
    /// item listed before the window has been seen.
    pub fn take_page(&mut self, page: Vec<PullRequest>, last: bool)
        requires
            old(self).wf(),
            !old(self).done(),
            old(self).pages_taken() < u64::MAX,
        ensures
            final(self).wf(),
            final(self).from() == old(self).from(),
            final(self).to() == old(self).to(),
            final(self).seen() == old(self).seen() + page@,
            final(self).pages_taken() == old(self).pages_taken() + 1,
            final(self).done() == (last || has_older(final(self).seen(), final(self).from())),
            final(self).kept() == collected(final(self).seen(), final(self).from(), final(self).to()),
    {
        let ghost start = self.seen@;
        let ghost items = page@;
        let mut page = page;
        let n = page.len();
        let mut i: usize = 0;
        while i < n
            invariant
                i <= n,
                n == items.len(),
                page@ == items.skip(i as int),
                self.seen@ == start + items.take(i as int),
                self.accepted@ == collected(self.seen@, self.from, self.to),
                self.stopped == has_older(self.seen@, self.from),
                self.from == old(self).from,
                self.to == old(self).to,
                self.pages == old(self).pages,
                self.pages < u64::MAX,
            decreases n - i,
        {
            let pr = page.remove(0);
            proof {
                assert(items.take(i + 1) =~= items.take(i as int).push(pr));
                assert(items.skip(i + 1) =~= items.skip(i as int).remove(0));
                lemma_collected_push(self.seen@, pr, self.from, self.to);
                lemma_has_older_push(self.seen@, pr, self.from);
                self.seen@ = self.seen@.push(pr);
            }
            let older = pr.listed_at < self.from;
            let keep = match pr.merged_at {
                Some(t) => !self.stopped && self.from <= t && t <= self.to,
                None => false,
            };
            if keep {
                self.accepted.push(pr);
            }
            if older {
                self.stopped = true;
            }
            i = i + 1;
        }
        proof {
            assert(items.take(n as int) =~= items);
        }
        self.pages = self.pages + 1;
        self.done = last || self.stopped;
    }

    /// Ends the scan and hands over what it kept, in listing order.
    pub fn into_changes(self) -> (r: Vec<PullRequest>)
        requires
            self.wf(),
        ensures
            r@ == collected(self.seen(), self.from(), self.to()),
            forall|i: int| 0 <= i < r@.len() ==> in_window(#[trigger] r@[i], self.from(), self.to()),
    {
        proof {
            lemma_collected_in_window(self.seen@, self.from, self.to);
        }
        self.accepted
    }
}

/// Runs a scan over a listing held in memory, one page at a time, and returns
/// what it kept together with the number of pages it requested.
///
/// A page is requested only while no item listed before `from` has been seen,
/// and the scan requests pages until it has seen one or the listing ends.
pub fn fetch_listing(pages: Vec<Vec<PullRequest>>, from: i64, to: i64) -> (r: (
    Vec<PullRequest>,
    usize,
))
    ensures
        r.1 <= pages@.len(),
        forall|j: int|
            0 <= j < r.1 ==> !has_older(#[trigger] concat_pages(pages@.take(j)), from),
        r.1 == pages@.len() || has_older(concat_pages(pages@.take(r.1 as int)), from),
        r.0@ == collected(concat_pages(pages@.take(r.1 as int)), from, to),
        r.0@ == collected(concat_pages(pages@), from, to),
        forall|i: int| 0 <= i < r.0@.len() ==> in_window(#[trigger] r.0@[i], from, to),
{
    let ghost all = pages@;
    let n = pages.len();
    let mut pages = pages;
    let mut fetcher = Fetcher::new(from, to);
    let mut k: usize = 0;
    while k < n && !fetcher.is_done()
        invariant
            k <= n,
            n == all.len(),
            pages@ == all.skip(k as int),
            fetcher.wf(),
            fetcher.from() == from,
            fetcher.to() == to,
            fetcher.seen() == concat_pages(all.take(k as int)),
            fetcher.pages_taken() == k,
            k == 0 ==> !fetcher.done(),
            k > 0 ==> (fetcher.done() == (k == n || has_older(fetcher.seen(), from))),
            forall|j: int| 0 <= j < k ==> !has_older(#[trigger] concat_pages(all.take(j)), from),
        decreases n - k,
    {
        let page = pages.remove(0);
        proof {
            assert(all.skip(k + 1) =~= all.skip(k as int).remove(0));
            lemma_concat_take_succ(all, k as int);
        }
        fetcher.take_page(page, k + 1 == n);
        k = k + 1;
    }
    let ghost seen = fetcher.seen();
    let kept = fetcher.into_changes();
    proof {
        assert(all.take(n as int) =~= all);
        if k < n {
            lemma_concat_split(all, k as int);
            lemma_collected_stops(seen, concat_pages(all.skip(k as int)), from, to);
        }
        lemma_collected_in_window(seen, from, to);
    }
    (kept, k)
}

proof fn lemma_concat_split(ps: Seq<Vec<PullRequest>>, k: int)
    requires
        0 <= k <= ps.len(),
    ensures
        concat_pages(ps) == concat_pages(ps.take(k)) + concat_pages(ps.skip(k)),
    decreases ps.len(),
{
    if k == ps.len() {
        assert(ps.take(k) =~= ps);
        assert(ps.skip(k) =~= Seq::<Vec<PullRequest>>::empty());
        assert(concat_pages(ps.take(k)) + Seq::<PullRequest>::empty() =~= concat_pages(ps.take(k)));
    } else {
        let front = ps.drop_last();
        lemma_concat_split(front, k);
        assert(front.take(k) =~= ps.take(k));
        assert(ps.skip(k).drop_last() =~= front.skip(k));
        assert(ps.skip(k).last() == ps.last());
        assert(concat_pages(ps.take(k)) + (concat_pages(front.skip(k)) + ps.last()@) =~= (
        concat_pages(ps.take(k)) + concat_pages(front.skip(k))) + ps.last()@);
    }
}

} // verus!
