//! A synchronisation run over the pages of a listing.
//!
//! A run asks for the pages in order. It stops behind the first page that
//! has no next page, whatever cursor that page carries, and it is aborted
//! by the first page that could not be had.

use crate::decode::{RemoteError, RemoteErrorView};
use crate::idempotence::{
    coherent, law_backfilled_listing_asks_nothing, law_second_pass_inserts_nothing,
    law_second_pass_writes_nothing, lemma_filled_shape, series_writes,
};
use crate::models::copy_opt_text;
use crate::remote::{PageInfo, PageInfoView};
use crate::store::{Store, StoreView};
use crate::sync::{
    backfill_ready, filled, inserted_count, reaches_log, run, step, sync_page, wants_backfill,
    RemoteSeries, RemoteSeriesView,
};
use vstd::prelude::*;

verus! {

/// How many series a listing page is asked to hold.
pub const PAGE_SIZE: usize = 50;

/// The type of series that a listing is asked for.
pub const SERIES_TYPE: &'static str = "SCRIM";

/// The seconds between the end of one run and the start of the next.
pub const RUN_INTERVAL_SECONDS: u64 = 600;

/// What follows a page of a listing.
#[derive(Debug)]
pub enum Paging {
    /// The listing ends with the page: the run is over.
    Done,
    /// Another page follows, to be asked for after the cursor.
    Next { after: Option<String> },
}

/// The view of a [`Paging`].
pub enum PagingView {
    Done,
    Next { after: Option<Seq<char>> },
}

impl View for Paging {
    type V = PagingView;

    open spec fn view(&self) -> PagingView {
        match self {
            Paging::Done => PagingView::Done,
            Paging::Next { after } => PagingView::Next { after: after.deep_view() },
        }
    }
}

/// What follows a page with the page information `info`: nothing where it
/// has no next page, whatever its cursor; else the page after its cursor.
pub open spec fn paging_of(info: PageInfoView) -> PagingView {
    if info.has_next_page {
        PagingView::Next { after: info.end_cursor }
    } else {
        PagingView::Done
    }
}

/// Decides what follows a page of a listing.
pub fn paging_after(info: &PageInfo) -> (r: Paging)
    ensures
        r@ == paging_of(info@),
        !info.has_next_page ==> r@ == PagingView::Done,
{
    if info.has_next_page {
        Paging::Next { after: copy_opt_text(&info.end_cursor) }
    } else {
        Paging::Done
    }
}

/// One page of the remote listing, with what the service holds for each of
/// its series.
#[derive(Debug)]
pub struct RemotePage {
    pub items: Vec<RemoteSeries>,
    pub page_info: PageInfo,
}

/// The view of a [`RemotePage`].
pub struct RemotePageView {
    pub items: Seq<RemoteSeriesView>,
    pub page_info: PageInfoView,
}

impl View for RemotePage {
    type V = RemotePageView;

    open spec fn view(&self) -> RemotePageView {
        RemotePageView { items: self.items.deep_view(), page_info: self.page_info@ }
    }
}

impl DeepView for RemotePage {
    type V = RemotePageView;

    open spec fn deep_view(&self) -> RemotePageView {
        self@
    }
}

/// What a run gets when it asks for a page: the page, or the error that
/// ended the call.
#[derive(Debug)]
pub enum PageFetch {
    Page(RemotePage),
    Failed(RemoteError),
}

/// The view of a [`PageFetch`].
pub enum PageFetchView {
    Page(RemotePageView),
    Failed(RemoteErrorView),
}

impl View for PageFetch {
    type V = PageFetchView;

    open spec fn view(&self) -> PageFetchView {
        match self {
            PageFetch::Page(page) => PageFetchView::Page(page@),
            PageFetch::Failed(error) => PageFetchView::Failed(error@),
        }
    }
}

impl DeepView for PageFetch {
    type V = PageFetchView;

    open spec fn deep_view(&self) -> PageFetchView {
        self@
    }
}

/// Whether a run goes on behind the first of `fetches`: it is a page that
/// has a next page.
pub open spec fn goes_on(fetches: Seq<PageFetchView>) -> bool {
    fetches.len() > 0 && match fetches[0] {
        PageFetchView::Page(page) => page.page_info.has_next_page,
        PageFetchView::Failed(_) => false,
    }
}

/// How many pages a run asks for: all up to the first that has no next page
/// or could not be had, and that one.
pub open spec fn pages_read(fetches: Seq<PageFetchView>) -> nat
    decreases fetches.len(),
{
    if fetches.len() == 0 {
        0
    } else if goes_on(fetches) {
        1 + pages_read(fetches.drop_first())
    } else {
        1
    }
}

/// The items of the pages that a run reads, in order.
pub open spec fn items_read(fetches: Seq<PageFetchView>) -> Seq<RemoteSeriesView>
    decreases fetches.len(),
{
    if fetches.len() == 0 {
        Seq::empty()
    } else {
        match fetches[0] {
            PageFetchView::Page(page) => if page.page_info.has_next_page {
                page.items + items_read(fetches.drop_first())
            } else {
                page.items
            },
            PageFetchView::Failed(_) => Seq::empty(),
        }
    }
}

/// The error that aborts a run: that of the first page that could not be
/// had, where the run comes to ask for it.
pub open spec fn abort_of(fetches: Seq<PageFetchView>) -> Option<RemoteErrorView>
    decreases fetches.len(),
{
    if fetches.len() == 0 {
        None
    } else {
        match fetches[0] {
            PageFetchView::Page(page) => if page.page_info.has_next_page {
                abort_of(fetches.drop_first())
            } else {
                None
            },
            PageFetchView::Failed(error) => Some(error),
        }
    }
}

/// The store after a run over a listing.
pub open spec fn run_pages(s: StoreView, fetches: Seq<PageFetchView>) -> StoreView {
    run(s, items_read(fetches))
}

/// How many series rows a run over a listing inserts.
pub open spec fn inserted_in_pages(s: StoreView, fetches: Seq<PageFetchView>) -> nat {
    inserted_count(s, items_read(fetches))
}

/// A pass over two listings, one after the other, is a pass over the one
/// followed by a pass over the other.
pub proof fn lemma_run_concat(s: StoreView, a: Seq<RemoteSeriesView>, b: Seq<RemoteSeriesView>)
    ensures
        run(s, a + b) == run(run(s, a), b),
        inserted_count(s, a + b) == inserted_count(s, a) + inserted_count(run(s, a), b),
    decreases b.len(),
{
    if b.len() == 0 {
        assert(a + b =~= a);
    } else {
        assert((a + b).drop_last() =~= a + b.drop_last());
        assert((a + b).last() == b.last());
        lemma_run_concat(s, a, b.drop_last());
    }
}

/// A pass inserts as many series rows as the series table grows by.
pub proof fn lemma_inserted_is_growth(s: StoreView, items: Seq<RemoteSeriesView>)
    ensures
        run(s, items).series.len() == s.series.len() + inserted_count(s, items),
    decreases items.len(),
{
    if items.len() > 0 {
        let before = run(s, items.drop_last());
        lemma_inserted_is_growth(s, items.drop_last());
        lemma_filled_shape(before, items.last());
        if reaches_log(before, items.last()) {
            assert(step(before, items.last()).series == filled(before, items.last()).series);
        }
    }
}

/// One synchronisation run. The pages of the listing are taken in order,
/// up to the first that has no next page. Returns how many series rows were
/// inserted. A page that could not be had aborts the run with its error;
/// what the pages before it wrote stays written.
pub fn sync_once(store: &mut Store, fetches: &Vec<PageFetch>) -> (r: Result<usize, RemoteError>)
    ensures
        final(store)@ == run_pages(old(store)@, fetches.deep_view()),
        match r {
            Ok(count) => abort_of(fetches.deep_view()) is None && count == inserted_in_pages(
                old(store)@,
                fetches.deep_view(),
            ),
            Err(error) => abort_of(fetches.deep_view()) == Some(error@),
        },
        old(store)@.scores_paired() ==> final(store)@.scores_paired(),
{
    let ghost all = fetches.deep_view();
    let ghost mut done: Seq<RemoteSeriesView> = Seq::empty();
    let mut inserted: usize = 0;
    let mut i: usize = 0;
    assert(all.subrange(0, all.len() as int) =~= all);
    assert(done + items_read(all) =~= items_read(all));
    while i < fetches.len()
        invariant
            i <= fetches.len(),
            all == fetches.deep_view(),
            store@ == run(old(store)@, done),
            inserted == inserted_count(old(store)@, done),
            items_read(all) == done + items_read(all.subrange(i as int, all.len() as int)),
            abort_of(all) == abort_of(all.subrange(i as int, all.len() as int)),
            old(store)@.scores_paired() ==> store@.scores_paired(),
        decreases fetches.len() - i,
    {
        let ghost rest = all.subrange(i as int, all.len() as int);
        proof {
            assert(rest[0] == fetches[i as int]@);
            assert(rest.drop_first() =~= all.subrange(i + 1, all.len() as int));
        }
        match &fetches[i] {
            PageFetch::Failed(error) => {
                assert(done + Seq::<RemoteSeriesView>::empty() =~= done);
                return Err(error.duplicate());
            },
            PageFetch::Page(page) => {
                proof {
                    lemma_run_concat(old(store)@, done, page@.items);
                    lemma_inserted_is_growth(old(store)@, done + page@.items);
                }
                let count = sync_page(store, &page.items).inserted;
                proof {
                    assert(store@.series.len() == old(store)@.series.len() + inserted + count);
                    let next_done = done + page@.items;
                    if page.page_info.has_next_page {
                        assert(next_done + items_read(rest.drop_first()) =~= done + items_read(
                            rest,
                        ));
                    } else {
                        assert(next_done =~= done + items_read(rest));
                    }
                    done = next_done;
                }
                assert(store.series.len() <= usize::MAX);
                inserted = inserted + count;
                if !page.page_info.has_next_page {
                    return Ok(inserted);
                }
            },
        }
        i += 1;
    }
    assert(all.subrange(i as int, all.len() as int) =~= Seq::<PageFetchView>::empty());
    assert(done + Seq::<RemoteSeriesView>::empty() =~= done);
    Ok(inserted)
}

/// Pagination ends with the first page that has no next page: what stands
/// behind it is not asked for, whatever it is and whatever cursor the page
/// carries, and the run is not aborted.
pub proof fn law_last_page_ends_run(
    s: StoreView,
    fetches: Seq<PageFetchView>,
    k: int,
    last: RemotePageView,
)
    requires
        0 <= k < fetches.len(),
        fetches[k] == PageFetchView::Page(last),
        !last.page_info.has_next_page,
        forall|j: int| 0 <= j < k ==> goes_on(#[trigger] fetches.subrange(j, fetches.len() as int)),
    ensures
        pages_read(fetches) == k + 1,
        abort_of(fetches) is None,
        items_read(fetches) == items_read(fetches.subrange(0, k + 1)),
        run_pages(s, fetches) == run_pages(s, fetches.subrange(0, k + 1)),
        inserted_in_pages(s, fetches) == inserted_in_pages(s, fetches.subrange(0, k + 1)),
    decreases k,
{
    let front = fetches.subrange(0, k + 1);
    assert(front[0] == fetches[0]);
    if k > 0 {
        let rest = fetches.drop_first();
        assert(goes_on(fetches.subrange(0, fetches.len() as int)));
        assert(fetches.subrange(0, fetches.len() as int) =~= fetches);
        assert forall|j: int| 0 <= j < k - 1 implies goes_on(
            #[trigger] rest.subrange(j, rest.len() as int),
        ) by {
            assert(goes_on(fetches.subrange(j + 1, fetches.len() as int)));
            assert(rest.subrange(j, rest.len() as int) =~= fetches.subrange(
                j + 1,
                fetches.len() as int,
            ));
        }
        assert(rest[k - 1] == fetches[k]);
        law_last_page_ends_run(s, rest, k - 1, last);
        assert(front.drop_first() =~= rest.subrange(0, k));
    }
}

/// A second run over any unchanged listing inserts no series row.
pub proof fn law_second_run_inserts_nothing(s: StoreView, fetches: Seq<PageFetchView>)
    ensures
        inserted_in_pages(run_pages(s, fetches), fetches) == 0,
{
    law_second_pass_inserts_nothing(s, items_read(fetches));
}

/// Idempotence of a run. A second run over an unchanged listing, which is
/// coherent, leaves the replica as the first run left it: it inserts no series row and rewrites and backfills none.
pub proof fn law_second_run_writes_nothing(s: StoreView, fetches: Seq<PageFetchView>)
    requires
        coherent(items_read(fetches)),
    ensures
        run_pages(run_pages(s, fetches), fetches) == run_pages(s, fetches),
        inserted_in_pages(run_pages(s, fetches), fetches) == 0,
        series_writes(run_pages(s, fetches), items_read(fetches)) == 0,
{
    law_second_pass_writes_nothing(s, items_read(fetches));
}

/// After a run over a coherent listing in which every backfill had its
/// data, a further run asks for no scores and no summary: no series of the
/// listing wants a backfill.
pub proof fn law_backfilled_run_asks_nothing(s: StoreView, fetches: Seq<PageFetchView>)
    requires
        coherent(items_read(fetches)),
        forall|i: int|
            0 <= i < items_read(fetches).len() ==> backfill_ready(
                #[trigger] items_read(fetches)[i],
            ),
    ensures
        forall|i: int|
            0 <= i < items_read(fetches).len() ==> !wants_backfill(
                run_pages(s, fetches),
                #[trigger] items_read(fetches)[i],
            ),
{
    law_backfilled_listing_asks_nothing(s, items_read(fetches));
}

} // verus!
