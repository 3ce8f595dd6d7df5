//! The Connect IQ app catalog: the records its API returns, and the paging
//! of a keyword search, which asks for the next page whenever the apps of
//! the pages fetched so far are used up.

use vstd::prelude::*;
use std::collections::{HashMap, VecDeque};
use crate::resource::{InvalidTypeId, ResourceType, type_of_id};

verus! {

/// A localized name and description of an app.
#[derive(Debug, Default)]
pub struct ConnectIQLocale {
    pub locale: String,
    pub name: String,
    pub description: String,
    pub whats_new: String,
}

/// The developer of an app.
#[derive(Debug, Default)]
pub struct ConnectIQDeveloper {
    pub full_name: Option<String>,
    pub developer_display_name: String,
    pub logo_url: Option<String>,
    pub logo_url_dark: Option<String>,
    pub trusted_developer: bool,
}

/// The download size of an app per device type.
#[derive(Debug, Default)]
pub struct ConnectIQFileSize {
    pub internal_version_number: i64,
    pub byte_count_by_device_type_id: HashMap<i64, i64>,
}

/// Whether an app has settings, per device type.
#[derive(Debug, Default)]
pub struct ConnecTIQSettingsAvailability {
    pub internal_version_number: i64,
    pub availability_by_device_type_id: HashMap<i64, bool>,
}

/// A device type that Connect IQ apps run on.
#[derive(Debug, Default)]
pub struct ConnectIQDeviceType {
    pub additional_names: Vec<String>,
    pub id: String,
    pub image_url: String,
    pub name: String,
    pub part_number: String,
    pub url_name: String,
}

/// The number of apps asked for per page.
pub const PAGE_SIZE: usize = 30;

/// A request for one page of search results.
#[derive(Debug)]
pub struct PageRequest {
    pub keyword: String,
    pub page_size: usize,
    pub start_page_index: usize,
}

/// What the search does next.
#[derive(Debug)]
pub enum SearchStep<T> {
    /// Hand out this app.
    Item(T),
    /// Fetch this page, then report it with `page_arrived`.
    Fetch(PageRequest),
    /// The search is over.
    Done,
}

/// The state of a keyword search over the app catalog: apps fetched but not
/// handed out yet, where the next page starts, and whether there are more
/// pages.
pub struct ConnectIQSearch<T> {
    keyword: String,
    apps: VecDeque<T>,
    start_page_index: usize,
    has_more_pages: bool,
}

impl<T> ConnectIQSearch<T> {
    /// The keyword searched for.
    pub closed spec fn keyword(&self) -> Seq<char> {
        self.keyword@
    }

    /// The apps fetched and not handed out yet, in order.
    pub closed spec fn pending(&self) -> Seq<T> {
        self.apps@
    }

    /// The index at which the next page starts.
    pub closed spec fn next_start(&self) -> nat {
        self.start_page_index as nat
    }

    /// Whether more pages may follow.
    pub closed spec fn more_pages(&self) -> bool {
        self.has_more_pages
    }

    /// The state as a whole: the pending apps, the next start index, and
    /// whether more pages may follow.
    pub open spec fn model(&self) -> (Seq<T>, nat, bool) {
        (self.pending(), self.next_start(), self.more_pages())
    }

    /// A search that has fetched nothing yet.
    pub fn new(keyword: String) -> (r: ConnectIQSearch<T>)
        ensures
            r.keyword() == keyword@,
            r.pending() == Seq::<T>::empty(),
            r.next_start() == 0,
            r.more_pages(),
    {
        ConnectIQSearch { keyword, apps: VecDeque::new(), start_page_index: 0, has_more_pages: true }
    }

    /// The index at which the next page starts.
    pub fn start_page_index(&self) -> (r: usize)
        ensures
            r == self.next_start(),
    {
        self.start_page_index
    }

    /// The next step: hand out the first pending app; with none pending,
    /// fetch the next page if there may be more, else stop.
    pub fn next_step(&mut self) -> (step: SearchStep<T>)
        ensures
            final(self).keyword() == old(self).keyword(),
            final(self).next_start() == old(self).next_start(),
            final(self).more_pages() == old(self).more_pages(),
            old(self).pending().len() > 0 ==> step == SearchStep::Item(old(self).pending()[0])
                && final(self).pending() == old(self).pending().drop_first(),
            old(self).pending().len() == 0 ==> final(self).pending() == old(self).pending(),
            old(self).pending().len() == 0 && !old(self).more_pages() ==> step is Done,
            old(self).pending().len() == 0 && old(self).more_pages() ==> (step matches SearchStep::Fetch(req)
                && req.keyword@ == old(self).keyword() && req.page_size == PAGE_SIZE
                && req.start_page_index == old(self).next_start()),
    {
        match self.apps.pop_front() {
            Some(app) => {
                proof {
                    assert(self.apps@ =~= old(self).apps@.drop_first());
                }
                SearchStep::Item(app)
            },
            None => {
                if !self.has_more_pages {
                    SearchStep::Done
                } else {
                    SearchStep::Fetch(
                        PageRequest {
                            keyword: self.keyword.clone(),
                            page_size: PAGE_SIZE,
                            start_page_index: self.start_page_index,
                        },
                    )
                }
            },
        }
    }

    /// Takes in the page that the last `Fetch` asked for: its apps and the
    /// total number of results, or `None` where the request failed. A page
    /// queues its apps and moves the start on by a page; more pages follow
    /// while the next start is below the total. A failure ends the search.
    pub fn page_arrived(&mut self, page: Option<(Vec<T>, usize)>)
        requires
            page is Some ==> old(self).next_start() + PAGE_SIZE <= usize::MAX,
        ensures
            final(self).keyword() == old(self).keyword(),
            final(self).model() == after_page(old(self).model(), page_view(page)),
            match page {
                Some((apps, total)) => {
                    &&& final(self).pending() == old(self).pending() + apps@
                    &&& final(self).next_start() == old(self).next_start() + PAGE_SIZE
                    &&& final(self).more_pages() == (old(self).next_start() + PAGE_SIZE < total)
                },
                None => {
                    &&& final(self).pending() == old(self).pending()
                    &&& final(self).next_start() == old(self).next_start()
                    &&& !final(self).more_pages()
                },
            },
    {
        match page {
            Some((mut apps, total)) => {
                let ghost added = apps@;
                let ghost before = self.apps@;
                let ghost kw = self.keyword@;
                let start = self.start_page_index;
                let n = apps.len();
                let mut k: usize = 0;
                while apps.len() > 0
                    invariant
                        added.len() == n,
                        self.keyword@ == kw,
                        self.start_page_index == start,
                        k <= added.len(),
                        apps@ == added.skip(k as int),
                        self.apps@ == before + added.take(k as int),
                    decreases apps@.len(),
                {
                    let app = apps.remove(0);
                    self.apps.push_back(app);
                    proof {
                        assert(added.take(k + 1) =~= added.take(k as int).push(added[k as int]));
                        assert(apps@ =~= added.skip(k + 1));
                    }
                    k = k + 1;
                }
                proof {
                    assert(added.take(k as int) =~= added);
                }
                self.has_more_pages = self.start_page_index + PAGE_SIZE < total;
                self.start_page_index = self.start_page_index + PAGE_SIZE;
            },
            None => {
                self.has_more_pages = false;
            },
        }
    }
}

/// A reply to a page request as plain values: the page's apps and the total
/// number of results, or `None` for a failed request.
pub open spec fn page_view<T>(page: Option<(Vec<T>, usize)>) -> Option<(Seq<T>, nat)> {
    match page {
        Some((apps, total)) => Some((apps@, total as nat)),
        None => None,
    }
}

/// The state of a search once the reply to its pending request came in: a
/// page queues its apps, moves the start on by a page and leaves more pages
/// while the next start is below the total; a failure ends the search.
pub open spec fn after_page<T>(m: (Seq<T>, nat, bool), page: Option<(Seq<T>, nat)>) -> (Seq<T>, nat, bool) {
    match page {
        Some((apps, total)) => (m.0 + apps, (m.1 + PAGE_SIZE) as nat, m.1 + PAGE_SIZE < total),
        None => (m.0, m.1, false),
    }
}

/// What a search in state `m` yields when it is driven with `next_step` and
/// `page_arrived`, each request starting at index `s` being answered with
/// `answers(s)`, and at most `fuel` requests made: the apps handed out in
/// order, the start index of each request made, and whether the search
/// reached `Done`.
pub open spec fn run<T>(
    m: (Seq<T>, nat, bool),
    answers: spec_fn(nat) -> Option<(Seq<T>, nat)>,
    fuel: nat,
) -> (Seq<T>, Seq<nat>, bool)
    decreases fuel, m.0.len(),
{
    if m.0.len() > 0 {
        let r = run((m.0.drop_first(), m.1, m.2), answers, fuel);
        (seq![m.0[0]] + r.0, r.1, r.2)
    } else if !m.2 {
        (Seq::empty(), Seq::empty(), true)
    } else if fuel == 0 {
        (Seq::empty(), Seq::empty(), false)
    } else {
        let r = run(after_page(m, answers(m.1)), answers, (fuel - 1) as nat);
        (r.0, seq![m.1] + r.1, r.2)
    }
}

/// The state of a search that has fetched nothing yet.
pub open spec fn initial_model<T>() -> (Seq<T>, nat, bool) {
    (Seq::empty(), 0, true)
}

/// The number of pages a search fetches when every page reports `total`
/// results: at least one, and enough pages of `PAGE_SIZE` to cover `total`.
pub open spec fn page_count(total: nat) -> nat {
    if total <= PAGE_SIZE {
        1
    } else {
        ((total + 29) / 30) as nat
    }
}

/// The index at which page `k` (counting from 0) starts.
pub open spec fn page_start(k: nat) -> nat {
    (PAGE_SIZE * k) as nat
}

/// The start indexes of `n` consecutive requests from page `first` on.
pub open spec fn starts_from(first: nat, n: nat) -> Seq<nat> {
    Seq::new(n, |i: int| page_start((first + i) as nat))
}

/// Pending apps are handed out first, in order; what follows is what the
/// search yields once they are gone.
proof fn lemma_run_drains<T>(
    m: (Seq<T>, nat, bool),
    answers: spec_fn(nat) -> Option<(Seq<T>, nat)>,
    fuel: nat,
)
    ensures
        run(m, answers, fuel) == ({
            let r = run((Seq::<T>::empty(), m.1, m.2), answers, fuel);
            (m.0 + r.0, r.1, r.2)
        }),
    decreases m.0.len(),
{
    if m.0.len() > 0 {
        lemma_run_drains((m.0.drop_first(), m.1, m.2), answers, fuel);
        let r = run((Seq::<T>::empty(), m.1, m.2), answers, fuel);
        assert(seq![m.0[0]] + (m.0.drop_first() + r.0) =~= m.0 + r.0);
    } else {
        assert(m.0 =~= Seq::<T>::empty());
        assert(m.0 + run((Seq::<T>::empty(), m.1, m.2), answers, fuel).0
            =~= run((Seq::<T>::empty(), m.1, m.2), answers, fuel).0);
    }
}

/// After page `k` (counting from 0) more pages follow exactly when `k + 1`
/// is below the page count.
proof fn lemma_more_pages_follow(total: nat, k: nat)
    ensures
        (page_start(k + 1) < total) == (k + 1 < page_count(total)),
{
    if total > PAGE_SIZE {
        let c = (total + 29) / 30;
        assert(30 * c <= total + 29 && total + 29 < 30 * c + 30) by (nonlinear_arith)
            requires c == (total + 29) / 30, total > 0;
        assert((30 * (k + 1) < total) == (k + 1 < c)) by (nonlinear_arith)
            requires 30 * c <= total + 29, total + 29 < 30 * c + 30;
    } else {
        assert(PAGE_SIZE * (k + 1) >= PAGE_SIZE) by (nonlinear_arith);
    }
}

/// From page `j` on, every page `i` below `page_count(total)` answered with
/// `pages[i]` and `total`.
proof fn lemma_run_all_pages_from<T>(
    answers: spec_fn(nat) -> Option<(Seq<T>, nat)>,
    pages: Seq<Seq<T>>,
    total: nat,
    j: nat,
    fuel: nat,
)
    requires
        pages.len() == page_count(total),
        j <= pages.len(),
        fuel >= pages.len() - j,
        forall|i: nat| j <= i < pages.len() ==> #[trigger] answers(page_start(i)) == Some((pages[i as int], total)),
    ensures
        run((Seq::<T>::empty(), page_start(j), j < pages.len()), answers, fuel)
            == (pages.subrange(j as int, pages.len() as int).flatten(), starts_from(j, (pages.len() - j) as nat), true),
    decreases pages.len() - j,
{
    let n = pages.len();
    let m = (Seq::<T>::empty(), page_start(j), j < n);
    if j == n {
        assert(pages.subrange(j as int, n as int) =~= Seq::<Seq<T>>::empty());
        assert(starts_from(j, 0) =~= Seq::<nat>::empty());
    } else {
        assert(answers(page_start(j)) == Some((pages[j as int], total)));
        let next = after_page(m, answers(m.1));
        lemma_more_pages_follow(total, j);
        assert(page_start(j) + PAGE_SIZE == page_start(j + 1));
        assert(next == (Seq::<T>::empty() + pages[j as int], page_start(j + 1), j + 1 < n));
        lemma_run_drains(next, answers, (fuel - 1) as nat);
        lemma_run_all_pages_from(answers, pages, total, j + 1, (fuel - 1) as nat);
        let rest = pages.subrange(j as int, n as int);
        assert(rest.drop_first() =~= pages.subrange((j + 1) as int, n as int));
        assert(Seq::<T>::empty() + pages[j as int] =~= pages[j as int]);
        assert(seq![page_start(j)] + starts_from(j + 1, (n - (j + 1)) as nat) =~= starts_from(j, (n - j) as nat));
    }
}

/// A search whose every request succeeds, each page `i` holding
/// `pages[i]` and reporting `total` results, hands out the apps of all
/// pages in order and then ends; it makes `page_count(total)` requests,
/// starting at 0, `PAGE_SIZE`, `2 * PAGE_SIZE`, and so on.
pub proof fn lemma_search_yields_all_pages<T>(
    answers: spec_fn(nat) -> Option<(Seq<T>, nat)>,
    pages: Seq<Seq<T>>,
    total: nat,
    fuel: nat,
)
    requires
        pages.len() == page_count(total),
        fuel >= pages.len(),
        forall|i: nat| i < pages.len() ==> #[trigger] answers(page_start(i)) == Some((pages[i as int], total)),
    ensures
        run(initial_model::<T>(), answers, fuel) == (pages.flatten(), starts_from(0, pages.len()), true),
{
    lemma_run_all_pages_from(answers, pages, total, 0, fuel);
    assert(pages.subrange(0, pages.len() as int) =~= pages);
    assert(page_start(0) == 0);
}

/// From page `j` on, the pages below `k` answered with `pages[i]` and a
/// total beyond their end, and the request for page `k` failing.
proof fn lemma_run_until_failure_from<T>(
    answers: spec_fn(nat) -> Option<(Seq<T>, nat)>,
    pages: Seq<(Seq<T>, nat)>,
    j: nat,
    fuel: nat,
)
    requires
        j <= pages.len(),
        fuel > pages.len() - j,
        forall|i: nat| j <= i < pages.len() ==> #[trigger] answers(page_start(i)) == Some(pages[i as int]),
        forall|i: int| 0 <= i < pages.len() ==> #[trigger] pages[i].1 > PAGE_SIZE * (i + 1),
        answers(page_start(pages.len())) is None,
    ensures
        run((Seq::<T>::empty(), page_start(j), true), answers, fuel)
            == (pages.subrange(j as int, pages.len() as int).map_values(|p: (Seq<T>, nat)| p.0).flatten(),
                starts_from(j, (pages.len() + 1 - j) as nat), true),
    decreases pages.len() - j,
{
    let n = pages.len();
    let m = (Seq::<T>::empty(), page_start(j), true);
    let rest = pages.subrange(j as int, n as int).map_values(|p: (Seq<T>, nat)| p.0);
    if j == n {
        let next = after_page(m, answers(m.1));
        assert(next == (Seq::<T>::empty(), page_start(j), false));
        assert(run(next, answers, (fuel - 1) as nat) == (Seq::<T>::empty(), Seq::<nat>::empty(), true));
        assert(rest =~= Seq::<Seq<T>>::empty());
        assert(starts_from(j, 1) =~= seq![page_start(j)]);
        assert(seq![page_start(j)] + Seq::<nat>::empty() =~= seq![page_start(j)]);
    } else {
        assert(answers(page_start(j)) == Some(pages[j as int]));
        let next = after_page(m, answers(m.1));
        assert(pages[j as int].1 > PAGE_SIZE * (j + 1));
        assert(page_start(j) + PAGE_SIZE == page_start(j + 1));
        assert(next == (Seq::<T>::empty() + pages[j as int].0, page_start(j + 1), true));
        lemma_run_drains(next, answers, (fuel - 1) as nat);
        lemma_run_until_failure_from(answers, pages, j + 1, (fuel - 1) as nat);
        assert(rest.drop_first() =~= pages.subrange((j + 1) as int, n as int).map_values(|p: (Seq<T>, nat)| p.0));
        assert(rest[0] == pages[j as int].0);
        assert(Seq::<T>::empty() + pages[j as int].0 =~= pages[j as int].0);
        assert(seq![page_start(j)] + starts_from(j + 1, (n + 1 - (j + 1)) as nat) =~= starts_from(j, (n + 1 - j) as nat));
    }
}

/// A search whose first requests succeed, page `i` holding `pages[i].0` and
/// reporting a total `pages[i].1` beyond the page's end, and whose next
/// request fails, hands out the apps of the pages that arrived, in order, and
/// then ends without handing out anything for the failure; no request
/// follows the failed one.
pub proof fn lemma_search_ends_at_failure<T>(
    answers: spec_fn(nat) -> Option<(Seq<T>, nat)>,
    pages: Seq<(Seq<T>, nat)>,
    fuel: nat,
)
    requires
        fuel > pages.len(),
        forall|i: nat| i < pages.len() ==> #[trigger] answers(page_start(i)) == Some(pages[i as int]),
        forall|i: int| 0 <= i < pages.len() ==> #[trigger] pages[i].1 > PAGE_SIZE * (i + 1),
        answers(page_start(pages.len())) is None,
    ensures
        run(initial_model::<T>(), answers, fuel)
            == (pages.map_values(|p: (Seq<T>, nat)| p.0).flatten(), starts_from(0, (pages.len() + 1) as nat), true),
{
    lemma_run_until_failure_from(answers, pages, 0, fuel);
    assert(pages.subrange(0, pages.len() as int) =~= pages);
    assert(page_start(0) == 0);
}

/// The type of a search result worth listing: results without a website
/// are left out (`None`); for the others the type id must name a type.
pub fn listing_type(website_url: &str, type_id: String) -> (r: Result<Option<ResourceType>, InvalidTypeId>)
    ensures
        website_url@.len() == 0 ==> r matches Ok(None),
        website_url@.len() > 0 ==> match type_of_id(type_id@) {
            Some(t) => r == Ok::<Option<ResourceType>, InvalidTypeId>(Some(t)),
            None => r matches Err(e) && e.id@ == type_id@,
        },
{
    if website_url.unicode_len() == 0 {
        return Ok(None);
    }
    match ResourceType::try_from(type_id) {
        Ok(t) => Ok(Some(t)),
        Err(e) => Err(e),
    }
}

} // verus!
