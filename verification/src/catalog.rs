//! The subscription catalog cursor: pagination state for one sweep of the
//! external subscription catalog.
//!
//! The cursor buffers one fetched page and counts pages from zero. When its
//! buffer runs dry the surrounding application fetches the page the cursor
//! asks for and hands the outcome to `accept_page`; an empty page — or a
//! failed fetch, treated identically — ends the sweep and resets the cursor,
//! so the next sweep re-fetches from offset zero and sees a fresh catalog.

use crate::subscription::Subscription;
use vstd::prelude::*;

verus! {

/// The cursor state as the contracts speak of it.
pub ghost struct CursorModel {
    pub page_size: int,
    pub buffer: Seq<Subscription>,
    pub current_page: int,
}

/// Pagination state over the external subscription catalog.
pub struct CatalogCursor {
    pub page_size: usize,
    pub subscriptions: Vec<Subscription>,
    pub current_page: usize,
}

impl View for CatalogCursor {
    type V = CursorModel;

    open spec fn view(&self) -> CursorModel {
        CursorModel {
            page_size: self.page_size as int,
            buffer: self.subscriptions@,
            current_page: self.current_page as int,
        }
    }
}

/// The page request the cursor issues next: an offset and a count.
pub open spec fn request_of(m: CursorModel) -> (int, int) {
    (m.current_page * m.page_size, m.page_size)
}

/// The cursor after one fetched page is handed in. A failed fetch (`None`)
/// and an empty page both end the sweep and reset the page counter to zero;
/// a non-empty page is buffered and the counter moves on.
pub open spec fn step_accept(m: CursorModel, fetched: Option<Seq<Subscription>>) -> CursorModel {
    match fetched {
        None => CursorModel { current_page: 0, ..m },
        Some(page) => if page.len() == 0 {
            CursorModel { current_page: 0, ..m }
        } else {
            CursorModel { buffer: page, current_page: m.current_page + 1, ..m }
        },
    }
}

/// Exhaustion restarts the sweep: right after an empty page is handed in, the
/// cursor's next request fetches offset zero again, whatever page it was on.
pub proof fn lemma_exhausted_sweep_restarts(m: CursorModel)
    ensures
        step_accept(m, Some(Seq::empty())).current_page == 0,
        request_of(step_accept(m, Some(Seq::empty()))).0 == 0,
        request_of(step_accept(m, Some(Seq::empty()))).1 == m.page_size,
{
}

impl CatalogCursor {
    /// A cursor at the start of its first sweep: empty buffer, page zero.
    pub fn new(page_size: usize) -> (c: CatalogCursor)
        ensures
            c@.page_size == page_size,
            c@.buffer.len() == 0,
            c@.current_page == 0,
    {
        CatalogCursor { page_size, subscriptions: Vec::new(), current_page: 0 }
    }

    /// Whether the buffer is empty, so a page must be fetched before the next
    /// subscription can be yielded.
    pub fn needs_page(&self) -> (r: bool)
        ensures
            r == (self@.buffer.len() == 0),
    {
        self.subscriptions.len() == 0
    }

    /// The offset and count of the page to fetch next.
    pub fn page_request(&self) -> (r: (usize, usize))
        requires
            self@.current_page * self@.page_size <= usize::MAX,
        ensures
            (r.0 as int, r.1 as int) == request_of(self@),
    {
        (self.current_page * self.page_size, self.page_size)
    }

    /// Hands the outcome of one page fetch to the cursor: `None` for a failed
    /// fetch, otherwise the records of the fetched page.
    pub fn accept_page(&mut self, fetched: Option<Vec<Subscription>>)
        requires
            old(self)@.buffer.len() == 0,
            old(self)@.current_page < usize::MAX,
        ensures
            final(self)@ == step_accept(
                old(self)@,
                match fetched {
                    Some(page) => Some(page@),
                    None => None,
                },
            ),
    {
        match fetched {
            None => {
                self.current_page = 0;
            },
            Some(page) => {
                if page.len() == 0 {
                    self.current_page = 0;
                } else {
                    self.subscriptions = page;
                    self.current_page = self.current_page + 1;
                }
            },
        }
    }

    /// Yields the first buffered subscription, or `None` — the exhaustion
    /// signal — when the buffer is empty.
    pub fn take_buffered(&mut self) -> (r: Option<Subscription>)
        ensures
            old(self)@.buffer.len() == 0 ==> r is None && *final(self) == *old(self),
            old(self)@.buffer.len() > 0 ==> r == Some(old(self)@.buffer[0]) && final(self)@.buffer
                == old(self)@.buffer.drop_first() && final(self)@.current_page == old(
                self)@.current_page && final(self)@.page_size == old(self)@.page_size,
    {
        if self.subscriptions.len() == 0 {
            return None;
        }
        let sub = self.subscriptions.remove(0);
        proof {
            assert(final(self)@.buffer =~= old(self)@.buffer.drop_first());
        }
        Some(sub)
    }
}

} // verus!
