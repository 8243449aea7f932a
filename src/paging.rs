//! Cursor-based pagination: which page to ask for next, and when to stop.
//!
//! The scan is a state machine. Its owner asks `next_cursor` which page to
//! fetch, fetches it, and hands the page's records and page-info block to
//! `on_page`, until `next_cursor` says that the scan is over.

use vstd::prelude::*;

verus! {

/// The page-info block that the server sends with each page.
#[derive(Debug, Clone)]
pub struct PageInfo {
    pub has_next_page: bool,
    pub end_cursor: Option<String>,
}

/// The text of an optional string.
pub open spec fn opt_view(s: Option<String>) -> Option<Seq<char>> {
    match s {
        Some(t) => Some(t@),
        None => None,
    }
}

/// The cursor of the page that follows, if there is one to fetch: the end
/// cursor where the server says that more pages follow, and none otherwise.
pub open spec fn following_cursor(info: PageInfo) -> Option<Seq<char>> {
    if info.has_next_page {
        opt_view(info.end_cursor)
    } else {
        None
    }
}

/// The cursor of the page that follows the one whose page-info block this
/// is; `None` ends the scan, also where more pages are announced without a
/// cursor to reach them.
pub fn get_cursor(page_info: &PageInfo) -> (r: Option<String>)
    ensures
        opt_view(r) == following_cursor(*page_info),
{
    if page_info.has_next_page {
        match &page_info.end_cursor {
            Some(c) => Some(c.clone()),
            None => None,
        }
    } else {
        None
    }
}

/// The state of a scan, as values.
pub struct ScanModel<T> {
    /// The cursor to fetch the next page with (`None`: the first page).
    pub cursor: Option<Seq<char>>,
    /// The records of the pages received so far, in page order.
    pub records: Seq<T>,
    /// No further page is to be fetched.
    pub done: bool,
    /// How many pages have been received.
    pub pages: nat,
}

/// A scan that has fetched nothing yet.
pub open spec fn scan_start<T>() -> ScanModel<T> {
    ScanModel { cursor: None, records: Seq::empty(), done: false, pages: 0 }
}

/// The scan after one more page, with `records` and page-info block `info`.
pub open spec fn scan_step<T>(s: ScanModel<T>, records: Seq<T>, info: PageInfo) -> ScanModel<T> {
    ScanModel {
        cursor: following_cursor(info),
        records: s.records + records,
        done: following_cursor(info) is None,
        pages: s.pages + 1,
    }
}

/// A paginated scan that gathers records of type `T`.
pub struct Scan<T> {
    cursor: Option<String>,
    records: Vec<T>,
    done: bool,
    pages: Ghost<nat>,
}

impl<T> Scan<T> {
    /// The state of the scan.
    pub closed spec fn model(&self) -> ScanModel<T> {
        ScanModel {
            cursor: opt_view(self.cursor),
            records: self.records@,
            done: self.done,
            pages: self.pages@,
        }
    }

    /// A scan that starts at the first page.
    pub fn new() -> (r: Scan<T>)
        ensures
            r.model() == scan_start::<T>(),
    {
        Scan { cursor: None, records: Vec::new(), done: false, pages: Ghost(0) }
    }

    /// The cursor to fetch the next page with (`Some(None)` for the first
    /// page), or `None` where the scan is over.
    pub fn next_cursor(&self) -> (r: Option<Option<String>>)
        ensures
            self.model().done ==> r is None,
            !self.model().done ==> (r matches Some(c) && opt_view(c) == self.model().cursor),
    {
        if self.done {
            None
        } else {
            match &self.cursor {
                Some(c) => Some(Some(c.clone())),
                None => Some(None),
            }
        }
    }

    /// Takes in the records of the page just fetched, in their order, and
    /// the page's page-info block.
    pub fn on_page(&mut self, records: Vec<T>, page_info: &PageInfo)
        requires
            !old(self).model().done,
        ensures
            final(self).model() == scan_step(old(self).model(), records@, *page_info),
    {
        let mut records = records;
        self.records.append(&mut records);
        let next = get_cursor(page_info);
        self.done = next.is_none();
        self.cursor = next;
        self.pages = Ghost(self.pages@ + 1);
    }

    /// Whether the scan is over.
    pub fn is_done(&self) -> (r: bool)
        ensures
            r == self.model().done,
    {
        self.done
    }

    /// The records gathered, in page order and, within a page, in the
    /// server's order.
    pub fn into_records(self) -> (r: Vec<T>)
        ensures
            r@ == self.model().records,
    {
        self.records
    }
}

/// A page that announces no further page ends the scan, whatever its end
/// cursor: a scan that starts on such a page makes exactly one request.
pub proof fn lemma_last_page_ends_scan<T>(records: Seq<T>, info: PageInfo)
    requires
        !info.has_next_page,
    ensures
        scan_step(scan_start::<T>(), records, info).done,
        scan_step(scan_start::<T>(), records, info).pages == 1,
        scan_step(scan_start::<T>(), records, info).records == records,
{
    assert(Seq::<T>::empty() + records =~= records);
}

/// A page that announces further pages but gives no cursor to reach them
/// ends the scan as well, so the scan cannot go round forever.
pub proof fn lemma_missing_cursor_ends_scan<T>(s: ScanModel<T>, records: Seq<T>, info: PageInfo)
    requires
        info.has_next_page,
        info.end_cursor is None,
    ensures
        scan_step(s, records, info).done,
        scan_step(s, records, info).records == s.records + records,
{
}

/// Only a page that announces further pages and gives a cursor keeps the
/// scan going, and the next request then carries that cursor.
pub proof fn lemma_scan_continues_with_cursor<T>(s: ScanModel<T>, records: Seq<T>, info: PageInfo)
    ensures
        !scan_step(s, records, info).done <==> (info.has_next_page && info.end_cursor is Some),
        !scan_step(s, records, info).done ==> scan_step(s, records, info).cursor == opt_view(
            info.end_cursor,
        ),
{
}

} // verus!
