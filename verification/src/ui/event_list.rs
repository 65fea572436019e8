//! Windowed, paginated selection over the event list.
//!
//! The viewport height is recomputed on each render; pages hold up to
//! `height` consecutive items, the final page possibly fewer.  The stable
//! invariant is `selected_event == current_page * height +
//! page_offset`; every operation is a no-op when there is nothing to
//! select or no viewport yet.

use vstd::prelude::*;

verus! {

/// The paginated selection: how many items exist, the viewport height
/// last seen, and where the selection sits.
#[derive(Debug)]
pub struct EventListState {
    /// Fixed at construction.
    pub event_count: usize,
    /// The viewport height at the last render; zero before the first.
    pub last_height: usize,
    /// `event_count / last_height`, recomputed with the height.
    pub page_count: usize,
    /// The page holding the selection.
    pub current_page: usize,
    /// The absolute index of the selected item.
    pub selected_event: usize,
    /// The selection's offset within its page.
    pub page_offset: usize,
}

impl EventListState {
    /// The stable-state invariant: the absolute selection, the page and
    /// the intra-page offset agree, the selection is in range, and the
    /// page count matches the last height.
    pub open spec fn wf(&self) -> bool {
        &&& self.selected_event == self.current_page * self.last_height + self.page_offset
        &&& (self.event_count > 0 ==> self.selected_event < self.event_count)
        &&& (self.event_count == 0 ==> self.selected_event == 0)
        &&& (self.last_height > 0 ==> {
            &&& self.page_count == self.event_count / self.last_height
            &&& self.current_page == self.selected_event / self.last_height
            &&& self.page_offset == self.selected_event % self.last_height
        })
        &&& (self.last_height == 0 ==> self.current_page == 0 && self.page_count == 0
            && self.page_offset == self.selected_event)
    }

    /// A fresh state over `event_count` items, selecting `selected` when
    /// it is in range and the first item otherwise.  No viewport has
    /// been seen yet.
    pub fn new(event_count: usize, selected: Option<usize>) -> (r: Self)
        ensures
            r.event_count == event_count,
            r.last_height == 0,
            r.wf(),
    {
        let sel = match selected {
            Some(s) => if s < event_count {
                s
            } else {
                0
            },
            None => 0,
        };
        EventListState {
            event_count,
            last_height: 0,
            page_count: 0,
            current_page: 0,
            selected_event: sel,
            page_offset: sel,
        }
    }

    /// Recomputes the page layout for a new viewport height and re-derives
    /// the page and offset of the unchanged selection.
    pub fn calculate_pages(&mut self, height: usize)
        requires
            old(self).wf(),
            height >= 1,
        ensures
            final(self).wf(),
            final(self).event_count == old(self).event_count,
            final(self).selected_event == old(self).selected_event,
            final(self).last_height == height,
            final(self).page_count == old(self).event_count / height,
    {
        proof {
            lemma_div_mod_identity(self.selected_event as int, height as int);
        }
        self.last_height = height;
        self.page_count = self.event_count / height;
        self.current_page = self.selected_event / height;
        self.page_offset = self.selected_event % height;
    }

    /// Selects the first item of the first page.
    pub fn go_home(&mut self)
        requires
            old(self).wf(),
        ensures
            final(self).wf(),
            final(self).event_count == old(self).event_count,
            final(self).last_height == old(self).last_height,
            final(self).page_count == old(self).page_count,
            final(self).selected_event == 0,
            final(self).current_page == 0,
            final(self).page_offset == 0,
    {
        self.selected_event = 0;
        self.current_page = 0;
        self.page_offset = 0;
        proof {
            if self.last_height > 0 {
                assert(0int / self.last_height as int == 0) by (nonlinear_arith)
                    requires
                        self.last_height > 0,
                ;
                assert(0int % self.last_height as int == 0) by (nonlinear_arith)
                    requires
                        self.last_height > 0,
                ;
            }
        }
    }

    /// Steps the absolute selection forward by one, crossing a page
    /// boundary when the offset would leave the page; a no-op at the
    /// last item, with no items, or before the first render.
    pub fn next_event(&mut self)
        requires
            old(self).wf(),
        ensures
            final(self).wf(),
            final(self).event_count == old(self).event_count,
            final(self).last_height == old(self).last_height,
            final(self).page_count == old(self).page_count,
            ({
                if old(self).last_height > 0 && old(self).selected_event + 1 < old(self).event_count {
                    final(self).selected_event == old(self).selected_event + 1
                } else {
                    final(self).selected_event == old(self).selected_event
                        && final(self).current_page == old(self).current_page && final(self).page_offset == old(self).page_offset
                }
            }),
    {
        if self.last_height == 0 {
            return;
        }
        if self.event_count == 0 || self.selected_event >= self.event_count - 1 {
            return;
        }
        let sel = self.selected_event + 1;
        proof {
            lemma_div_mod_identity(sel as int, self.last_height as int);
        }
        self.selected_event = sel;
        self.current_page = sel / self.last_height;
        self.page_offset = sel % self.last_height;
    }

    /// Steps the absolute selection back by one, crossing a page
    /// boundary when the offset would leave the page; a no-op at the
    /// first item or before the first render.
    pub fn prev_event(&mut self)
        requires
            old(self).wf(),
        ensures
            final(self).wf(),
            final(self).event_count == old(self).event_count,
            final(self).last_height == old(self).last_height,
            final(self).page_count == old(self).page_count,
            ({
                if old(self).last_height > 0 && old(self).selected_event > 0 {
                    final(self).selected_event == old(self).selected_event - 1
                } else {
                    final(self).selected_event == old(self).selected_event
                        && final(self).current_page == old(self).current_page && final(self).page_offset == old(self).page_offset
                }
            }),
    {
        if self.last_height == 0 || self.selected_event == 0 {
            return;
        }
        let sel = self.selected_event - 1;
        proof {
            lemma_div_mod_identity(sel as int, self.last_height as int);
        }
        self.selected_event = sel;
        self.current_page = sel / self.last_height;
        self.page_offset = sel % self.last_height;
    }

    /// Advances to the first item of the following page; a no-op on the
    /// page holding the last item, with no items, or before the first
    /// render.
    pub fn next_page(&mut self)
        requires
            old(self).wf(),
        ensures
            final(self).wf(),
            final(self).event_count == old(self).event_count,
            final(self).last_height == old(self).last_height,
            final(self).page_count == old(self).page_count,
            ({
                let h = old(self).last_height;
                if h > 0 && old(self).event_count > 0 && old(self).current_page < (old(self).event_count - 1) as int / h as int {
                    &&& final(self).current_page == old(self).current_page + 1
                    &&& final(self).page_offset == 0
                    &&& final(self).selected_event == (old(self).current_page + 1) * h
                } else {
                    *final(self) == *old(self)
                }
            }),
    {
        if self.last_height == 0 || self.event_count == 0 {
            return;
        }
        let last_page = (self.event_count - 1) / self.last_height;
        if self.current_page >= last_page {
            return;
        }
        let page = self.current_page + 1;
        proof {
            lemma_page_start(
                page as int,
                last_page as int,
                self.last_height as int,
                self.event_count as int,
            );
        }
        self.current_page = page;
        self.page_offset = 0;
        self.selected_event = page * self.last_height;
    }

    /// Moves to the previous page's final offset; from the first page,
    /// back to the first item.  A no-op before the first render.
    pub fn prev_page(&mut self)
        requires
            old(self).wf(),
        ensures
            final(self).wf(),
            final(self).event_count == old(self).event_count,
            final(self).last_height == old(self).last_height,
            final(self).page_count == old(self).page_count,
            ({
                let h = old(self).last_height;
                if h > 0 && old(self).current_page > 0 {
                    &&& final(self).current_page == old(self).current_page - 1
                    &&& final(self).page_offset == h - 1
                    &&& final(self).selected_event == old(self).current_page * h - 1
                } else if h > 0 {
                    final(self).selected_event == 0 && final(self).current_page == 0 && final(self).page_offset == 0
                } else {
                    *final(self) == *old(self)
                }
            }),
    {
        if self.last_height == 0 {
            return;
        }
        if self.current_page == 0 {
            self.selected_event = 0;
            self.page_offset = 0;
            proof {
                assert(0int / self.last_height as int == 0) by (nonlinear_arith)
                    requires
                        self.last_height > 0,
                ;
                assert(0int % self.last_height as int == 0) by (nonlinear_arith)
                    requires
                        self.last_height > 0,
                ;
            }
            return;
        }
        let h = self.last_height;
        let page = self.current_page - 1;
        proof {
            lemma_page_end(
                self.current_page as int,
                h as int,
                self.selected_event as int,
                self.page_offset as int,
                self.event_count as int,
            );
        }
        let sel = self.selected_event - self.page_offset - 1;
        self.current_page = page;
        self.page_offset = h - 1;
        self.selected_event = sel;
    }

    /// Jumps to the last item: the last page, at the final partial
    /// page's last offset.  A no-op with no items or before the first
    /// render.
    pub fn go_end(&mut self)
        requires
            old(self).wf(),
        ensures
            final(self).wf(),
            final(self).event_count == old(self).event_count,
            final(self).last_height == old(self).last_height,
            final(self).page_count == old(self).page_count,
            ({
                let h = old(self).last_height;
                if h > 0 && old(self).event_count > 0 {
                    &&& final(self).selected_event == old(self).event_count - 1
                    &&& final(self).current_page == (old(self).event_count - 1) as int / h as int
                    &&& final(self).page_offset == (old(self).event_count - 1) as int % h as int
                } else {
                    *final(self) == *old(self)
                }
            }),
    {
        if self.last_height == 0 || self.event_count == 0 {
            return;
        }
        let sel = self.event_count - 1;
        proof {
            lemma_div_mod_identity(sel as int, self.last_height as int);
        }
        self.selected_event = sel;
        self.current_page = sel / self.last_height;
        self.page_offset = sel % self.last_height;
    }

    /// Jumps straight to an item: its page becomes current and the
    /// offset is set within it.  A no-op when the index is out of range
    /// or before the first render.
    pub fn focus_event(&mut self, event_idx: usize)
        requires
            old(self).wf(),
        ensures
            final(self).wf(),
            final(self).event_count == old(self).event_count,
            final(self).last_height == old(self).last_height,
            final(self).page_count == old(self).page_count,
            ({
                let h = old(self).last_height;
                if h > 0 && event_idx < old(self).event_count {
                    &&& final(self).selected_event == event_idx
                    &&& final(self).current_page == event_idx as int / h as int
                    &&& final(self).page_offset == event_idx as int % h as int
                } else {
                    *final(self) == *old(self)
                }
            }),
    {
        if self.last_height == 0 || event_idx >= self.event_count {
            return;
        }
        proof {
            lemma_div_mod_identity(event_idx as int, self.last_height as int);
        }
        self.selected_event = event_idx;
        self.current_page = event_idx / self.last_height;
        self.page_offset = event_idx % self.last_height;
    }
}

/// The selection, its page and its offset agree.
proof fn lemma_div_mod_identity(sel: int, h: int)
    requires
        h > 0,
        sel >= 0,
    ensures
        sel == (sel / h) * h + (sel % h),
        0 <= sel % h < h,
        sel % h == sel - (sel / h) * h,
{
    assert(sel == (sel / h) * h + (sel % h)) by (nonlinear_arith)
        requires
            h > 0,
    ;
    assert(0 <= sel % h < h) by (nonlinear_arith)
        requires
            h > 0,
            sel >= 0,
    ;
}

/// A page before the one holding the last item starts strictly inside
/// the item range.
proof fn lemma_page_start(page: int, last_page: int, h: int, count: int)
    requires
        h > 0,
        count > 0,
        0 < page <= last_page,
        last_page == (count - 1) / h,
    ensures
        page * h < count,
        page * h / h == page,
        (page * h) % h == 0,
{
    assert(page * h <= last_page * h) by (nonlinear_arith)
        requires
            page <= last_page,
            h > 0,
    ;
    assert(last_page * h <= count - 1) by (nonlinear_arith)
        requires
            h > 0,
            count > 0,
            last_page == (count - 1) / h,
    ;
    assert(page * h / h == page) by (nonlinear_arith)
        requires
            h > 0,
    ;
    assert((page * h) % h == 0) by (nonlinear_arith)
        requires
            h > 0,
    ;
}

/// Stepping from the start of a page back by one lands on the previous
/// page's final offset.
proof fn lemma_page_end(page: int, h: int, sel: int, off: int, count: int)
    requires
        count >= 0,
        h > 0,
        page > 0,
        sel == page * h + off,
        page == sel / h,
        off == sel % h,
        count > 0 ==> sel < count,
        count == 0 ==> sel == 0,
    ensures
        page * h - 1 == (page - 1) * h + (h - 1),
        (page * h - 1) / h == page - 1,
        (page * h - 1) % h == h - 1,
        page * h - 1 < count,
        sel - off - 1 == page * h - 1,
        sel >= off + 1,
        count > 0,
{
    assert(page * h - 1 == (page - 1) * h + (h - 1)) by (nonlinear_arith)
        requires
            h > 0,
    ;
    assert((page * h - 1) / h == page - 1 && (page * h - 1) % h == h - 1) by (nonlinear_arith)
        requires
            h > 0,
            page > 0,
    ;
    assert(off >= 0) by (nonlinear_arith)
        requires
            off == sel % h,
            h > 0,
    ;
    assert(page * h >= h) by (nonlinear_arith)
        requires
            page > 0,
            h > 0,
    ;
    assert(sel > 0);
    assert(count > 0);
}

} // verus!
