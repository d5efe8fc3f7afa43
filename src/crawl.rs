//! The paginated crawl of a catalog listing.
//!
//! The catalog hands out a listing one bounded page at a time and declares the
//! listing's total length with the first page. A `Crawl` decides which page to
//! fetch next and gathers the items; whoever holds it performs the fetches.
use vstd::prelude::*;
use crate::api::Item;

verus! {

/// How many items each page request asks for.
pub const PAGE_SIZE: u64 = 50;

/// What a crawl has gathered so far.
pub ghost struct CrawlView {
    /// The total that the first page declared (0 before it came).
    pub total: u64,
    /// How many pages have come back successfully.
    pub pages: nat,
    /// Whether the crawl has finished.
    pub done: bool,
    /// The items of those pages, in server order.
    pub items: Seq<Item>,
}

/// The state of a crawl after one more page: a failed page ends it and keeps
/// what came before; a page that came back adds its items, and the crawl ends
/// once the pages fetched cover the total declared by the first one.
pub open spec fn after_page(v: CrawlView, page: Option<(Seq<Item>, u64)>) -> CrawlView {
    match page {
        None => CrawlView { done: true, ..v },
        Some((its, declared)) => {
            let total = if v.pages == 0 { declared } else { v.total };
            let pages = v.pages + 1;
            CrawlView { total, pages, done: pages * PAGE_SIZE >= total, items: v.items + its }
        },
    }
}

/// How many pages a crawl of a listing of `total` items fetches.
pub open spec fn page_count(total: nat) -> nat {
    if total <= PAGE_SIZE {
        1
    } else {
        ((total + PAGE_SIZE - 1) / PAGE_SIZE as int) as nat
    }
}

/// A crawl in progress.
pub struct Crawl {
    next: u64,
    total: u64,
    pages: u64,
    done: bool,
    items: Vec<Item>,
}

impl View for Crawl {
    type V = CrawlView;

    closed spec fn view(&self) -> CrawlView {
        CrawlView { total: self.total, pages: self.pages as nat, done: self.done, items: self.items@ }
    }
}

impl Crawl {
    /// The crawl's internal consistency: the next start follows from the pages fetched.
    pub closed spec fn wf(&self) -> bool {
        !self.done ==> {
            &&& self.next == self.pages * PAGE_SIZE
            &&& (self.pages == 0 || self.next < self.total)
        }
    }

    /// A crawl that has fetched nothing yet.
    pub fn new() -> (r: Crawl)
        ensures
            r.wf(),
            r@ == fresh(),
    {
        Crawl { next: 0, total: 0, pages: 0, done: false, items: Vec::new() }
    }

    /// Where the next page starts, or none once the crawl has finished.
    pub fn next_start(&self) -> (r: Option<u64>)
        requires
            self.wf(),
        ensures
            r == (if self@.done { None } else { Some((self@.pages * PAGE_SIZE) as u64) }),
    {
        if self.done {
            None
        } else {
            Some(self.next)
        }
    }

    /// Takes in the outcome of fetching the page at `next_start`: its items and
    /// the declared total, or none if the fetch failed.
    pub fn on_page(&mut self, page: Option<(Vec<Item>, u64)>)
        requires
            old(self).wf(),
            !old(self)@.done,
        ensures
            final(self).wf(),
            final(self)@ == after_page(
                old(self)@,
                match page {
                    Some((its, declared)) => Some((its@, declared)),
                    None => None,
                },
            ),
    {
        match page {
            None => {
                self.done = true;
            },
            Some((its, declared)) => {
                let mut its = its;
                if self.pages == 0 {
                    self.total = declared;
                }
                self.items.append(&mut its);
                assert(self.pages * PAGE_SIZE <= u64::MAX);
                assert(self.pages + 1 <= u64::MAX) by (nonlinear_arith)
                    requires
                        self.pages * PAGE_SIZE <= u64::MAX,
                        PAGE_SIZE == 50,
                ;
                let ghost p = self.pages as int;
                self.pages = self.pages + 1;
                if self.total - self.next <= PAGE_SIZE {
                    self.done = true;
                } else {
                    self.next = self.next + PAGE_SIZE;
                }
                assert((p + 1) * PAGE_SIZE == p * PAGE_SIZE + PAGE_SIZE) by (nonlinear_arith);
            },
        }
    }

    /// The items gathered, in server order.
    pub fn into_items(self) -> (r: Vec<Item>)
        ensures
            r@ == self@.items,
    {
        self.items
    }
}

/// A crawl whose pages all succeed fetches page `k` (at start `k * PAGE_SIZE`)
/// exactly when `k` is below the page count of the declared total: the first
/// page always, then each page that starts before the total.
pub proof fn lemma_pages_fetched(total: u64, k: nat)
    ensures
        (k == 0 || k * PAGE_SIZE < total) <==> k < page_count(total as nat),
{
    let t = total as int;
    let ki = k as int;
    if t <= 50 {
        if ki != 0 {
            assert(ki * 50 >= 50) by (nonlinear_arith)
                requires
                    ki >= 1,
            ;
        }
    } else {
        let c = (t + 49) / 50;
        assert(ki < c <==> ki * 50 < t) by (nonlinear_arith)
            requires
                c == (t + 49) / 50,
                t > 50,
                ki >= 0,
        ;
    }
}

/// A crawl that has fetched nothing yet.
pub open spec fn fresh() -> CrawlView {
    CrawlView { total: 0, pages: 0, done: false, items: Seq::empty() }
}

/// The state of a crawl after `pages` come back in turn, each declaring the
/// total `declared`; pages left once the crawl has finished are not fetched.
pub open spec fn run(v: CrawlView, pages: Seq<Seq<Item>>, declared: u64) -> CrawlView
    decreases pages.len(),
{
    if pages.len() == 0 || v.done {
        v
    } else {
        run(after_page(v, Some((pages[0], declared))), pages.drop_first(), declared)
    }
}

proof fn lemma_run_from(v: CrawlView, pages: Seq<Seq<Item>>, declared: u64)
    requires
        !v.done,
        v.pages == 0 ==> v.total == 0,
        v.pages > 0 ==> v.total == declared && v.pages * PAGE_SIZE < declared,
        v.pages + pages.len() <= page_count(declared as nat),
    ensures
        run(v, pages, declared) == (CrawlView {
            total: if v.pages + pages.len() == 0 { 0 } else { declared },
            pages: v.pages + pages.len(),
            done: v.pages + pages.len() == page_count(declared as nat),
            items: v.items + pages.flatten(),
        }),
    decreases pages.len(),
{
    lemma_pages_fetched(declared, v.pages);
    if pages.len() == 0 {
        assert(v.items + pages.flatten() =~= v.items);
        assert(run(v, pages, declared) == v);
    } else {
        let w = after_page(v, Some((pages[0], declared)));
        assert(run(v, pages, declared) == run(w, pages.drop_first(), declared));
        lemma_pages_fetched(declared, w.pages);
        assert(v.items + pages.flatten() =~= w.items + pages.drop_first().flatten());
        if w.done {
            assert(pages.drop_first().len() == 0);
            assert(w.items + pages.drop_first().flatten() =~= w.items);
        } else {
            lemma_run_from(w, pages.drop_first(), declared);
        }
    }
}

/// Every page answering with the total `declared`, a crawl that has been
/// handed `n` pages (at most the page count) has fetched them at starts
/// `0, PAGE_SIZE, ..., (n - 1) * PAGE_SIZE`, holds their items in order, and
/// has finished exactly when `n` is the page count of `declared`.
pub proof fn lemma_crawl_complete(pages: Seq<Seq<Item>>, declared: u64)
    requires
        pages.len() <= page_count(declared as nat),
    ensures
        run(fresh(), pages, declared).pages == pages.len(),
        run(fresh(), pages, declared).done <==> pages.len() == page_count(declared as nat),
        run(fresh(), pages, declared).items == pages.flatten(),
{
    lemma_run_from(fresh(), pages, declared);
    assert(fresh().items + pages.flatten() =~= pages.flatten());
}

} // verus!
