use vstd::prelude::*;

use crate::sync::RemoteChannel;

verus! {

/// Largest page the listing endpoint serves.
pub const PAGE_LIMIT: u32 = 1000;

/// The parameters of one listing request.
#[derive(Debug, Clone)]
pub struct PageRequest {
    pub exclude_archived: bool,
    pub include_public: bool,
    pub include_private: bool,
    pub limit: u32,
    pub cursor: Option<String>,
}

/// What the fetch loop does after a page.
#[derive(Debug, Clone, Copy, PartialEq, Eq)]
pub enum PageStep {
    /// Request the next page with the new cursor.
    Continue,
    /// The listing is complete.
    Finished,
    /// The remote handed back a cursor that was already used; stop.
    RepeatedCursor,
    /// More pages remain, but the page budget is spent; stop.
    PageLimitReached,
}

/// A cursor that is absent or empty ends the listing.
pub open spec fn ends_listing(next: Option<Seq<char>>) -> bool {
    match next {
        Some(c) => c.len() == 0,
        None => true,
    }
}

/// The text of an optional cursor.
pub open spec fn cursor_text(c: Option<String>) -> Option<Seq<char>> {
    match c {
        Some(s) => Some(s@),
        None => None,
    }
}

/// The state of a paginated listing: everything fetched so far, in request order, and the
/// cursors already sent.
#[derive(Debug, Clone)]
pub struct Pager {
    fetched: Vec<RemoteChannel>,
    cursor: Option<String>,
    consumed: Vec<String>,
    remaining: Option<u64>,
}

impl Pager {
    /// The channels of all pages so far, in request order.
    pub closed spec fn fetched(&self) -> Seq<RemoteChannel> {
        self.fetched@
    }

    /// The cursor for the next request; `None` for the first.
    pub closed spec fn cursor(&self) -> Option<Seq<char>> {
        cursor_text(self.cursor)
    }

    /// The cursors handed to requests, in order.
    pub closed spec fn consumed(&self) -> Seq<Seq<char>> {
        self.consumed@.map_values(|c: String| c@)
    }

    /// How many more pages may be fetched after the next one; `None` when unbounded.
    pub closed spec fn remaining(&self) -> Option<u64> {
        self.remaining
    }

    /// No cursor is consumed twice, and the current one, if any, is the last consumed.
    pub open spec fn wf(&self) -> bool {
        &&& self.consumed().no_duplicates()
        &&& match self.cursor() {
            Some(c) => self.consumed().len() > 0 && self.consumed().last() == c,
            None => self.consumed().len() == 0,
        }
    }

    /// A listing that has fetched nothing yet, with no bound on the number of pages.
    pub fn new() -> (r: Pager)
        ensures
            r.wf(),
            r.fetched().len() == 0,
            r.cursor() is None,
            r.consumed().len() == 0,
            r.remaining() is None,
    {
        Pager { fetched: Vec::new(), cursor: None, consumed: Vec::new(), remaining: None }
    }

    /// A listing that has fetched nothing yet and stops after `max_pages` pages.
    pub fn with_max_pages(max_pages: u64) -> (r: Pager)
        requires
            max_pages > 0,
        ensures
            r.wf(),
            r.fetched().len() == 0,
            r.cursor() is None,
            r.consumed().len() == 0,
            r.remaining() == Some((max_pages - 1) as u64),
    {
        Pager {
            fetched: Vec::new(),
            cursor: None,
            consumed: Vec::new(),
            remaining: Some(max_pages - 1),
        }
    }

    /// The next request: unarchived public and private channels, the largest page, and the
    /// current cursor.
    pub fn request(&self) -> (r: PageRequest)
        ensures
            r.exclude_archived,
            r.include_public,
            r.include_private,
            r.limit == PAGE_LIMIT,
            cursor_text(r.cursor) == self.cursor(),
    {
        let cursor = match &self.cursor {
            Some(c) => Some(c.clone()),
            None => None,
        };
        PageRequest {
            exclude_archived: true,
            include_public: true,
            include_private: true,
            limit: PAGE_LIMIT,
            cursor,
        }
    }

    /// Whether `c` was already sent.
    fn was_consumed(&self, c: &String) -> (r: bool)
        ensures
            r == self.consumed().contains(c@),
    {
        let mut i: usize = 0;
        while i < self.consumed.len()
            invariant
                i <= self.consumed@.len(),
                forall|j: int| 0 <= j < i ==> self.consumed()[j] != c@,
            decreases self.consumed.len() - i,
        {
            if self.consumed[i] == *c {
                assert(self.consumed()[i as int] == c@);
                return true;
            }
            i = i + 1;
        }
        false
    }

    /// Records one page and its continuation cursor, and says what to do next. The listing ends
    /// exactly when the cursor is absent or empty; a cursor already sent stops it instead of
    /// being sent again, and so does a spent page budget.
    pub fn accept_page(&mut self, channels: Vec<RemoteChannel>, next: Option<String>) -> (r:
        PageStep)
        requires
            old(self).wf(),
        ensures
            final(self).wf(),
            final(self).fetched() == old(self).fetched() + channels@,
            (r == PageStep::Finished) == ends_listing(cursor_text(next)),
            r == PageStep::RepeatedCursor <==> (!ends_listing(cursor_text(next))
                && old(self).consumed().contains(cursor_text(next)->0)),
            r == PageStep::PageLimitReached <==> (!ends_listing(cursor_text(next))
                && !old(self).consumed().contains(cursor_text(next)->0) && old(self).remaining()
                == Some(0u64)),
            r == PageStep::Continue ==> final(self).cursor() == cursor_text(next)
                && final(self).consumed() == old(self).consumed().push(cursor_text(next)->0)
                && final(self).remaining() == match old(self).remaining() {
                Some(n) => Some((n - 1) as u64),
                None => None,
            },
            r != PageStep::Continue ==> final(self).cursor() == old(self).cursor()
                && final(self).consumed() == old(self).consumed() && final(self).remaining()
                == old(self).remaining(),
    {
        let mut channels = channels;
        self.fetched.append(&mut channels);
        match next {
            None => PageStep::Finished,
            Some(c) => {
                if c.unicode_len() == 0 {
                    PageStep::Finished
                } else if self.was_consumed(&c) {
                    PageStep::RepeatedCursor
                } else if self.remaining == Some(0u64) {
                    PageStep::PageLimitReached
                } else {
                    self.remaining = match self.remaining {
                        Some(n) => Some(n - 1),
                        None => None,
                    };
                    let ghost before = self.consumed();
                    self.consumed.push(c.clone());
                    self.cursor = Some(c);
                    proof {
                        assert(self.consumed() =~= before.push(cursor_text(next)->0));
                    }
                    PageStep::Continue
                }
            },
        }
    }

    /// How many channels have been fetched so far.
    pub fn fetched_len(&self) -> (r: usize)
        ensures
            r == self.fetched().len(),
    {
        self.fetched.len()
    }

    /// Everything fetched, in request order.
    pub fn into_fetched(self) -> (r: Vec<RemoteChannel>)
        ensures
            r@ == self.fetched(),
    {
        self.fetched
    }
}

} // verus!
