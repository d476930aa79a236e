//! Selection and scrolling of the story list and the comment list.
use vstd::prelude::*;

verus! {

/// Selected row and first visible row of a list.
#[derive(Debug, Clone, Copy, PartialEq, Eq)]
pub struct ListSelection {
    pub selected: Option<usize>,
    pub offset: usize,
}

pub open spec fn select_spec(s: ListSelection, index: Option<usize>) -> ListSelection {
    ListSelection { selected: index, offset: if index is None { 0 } else { s.offset } }
}

impl ListSelection {
    pub open spec fn new_spec() -> ListSelection {
        ListSelection { selected: Some(0), offset: 0 }
    }

    /// First row selected, scrolled to the top.
    pub fn new() -> (r: ListSelection)
        ensures
            r == (ListSelection { selected: Some(0), offset: 0 }),
    {
        ListSelection { selected: Some(0), offset: 0 }
    }

    /// Selects `index`; clearing the selection also scrolls to the top.
    pub fn select(&mut self, index: Option<usize>)
        ensures
            *final(self) == select_spec(*old(self), index),
    {
        self.selected = index;
        if index.is_none() {
            self.offset = 0;
        }
    }
}

pub open spec fn ensure_visible_spec(s: ListSelection, len: usize, page_size: usize) -> ListSelection {
    let ps = if page_size == 0 { 1 } else { page_size };
    if len == 0 || s.selected is None {
        ListSelection { offset: 0, ..s }
    } else if s.selected.unwrap() < s.offset {
        ListSelection { offset: s.selected.unwrap(), ..s }
    } else if s.selected.unwrap() - s.offset >= ps {
        ListSelection { offset: (s.selected.unwrap() - (ps - 1)) as usize, ..s }
    } else {
        s
    }
}

/// Scrolls so that the selected row lies within a page starting at the offset.
pub fn ensure_visible(state: &mut ListSelection, len: usize, page_size: usize)
    ensures
        *final(state) == ensure_visible_spec(*old(state), len, page_size),
{
    if len == 0 {
        state.offset = 0;
        return;
    }
    let selected = match state.selected {
        Some(s) => s,
        None => {
            state.offset = 0;
            return;
        },
    };
    let page_size = if page_size == 0 { 1 } else { page_size };
    if selected < state.offset {
        state.offset = selected;
    } else if selected - state.offset >= page_size {
        state.offset = selected - (page_size - 1);
    }
}

pub open spec fn move_down_spec(s: ListSelection, len: usize) -> ListSelection {
    if len == 0 {
        ListSelection { selected: None, offset: 0 }
    } else {
        let sel = match s.selected {
            Some(v) => v,
            None => 0,
        };
        select_spec(s, Some(if sel >= len - 1 { (len - 1) as usize } else { (sel + 1) as usize }))
    }
}

/// Moves the selection one row down, stopping at the last row.
pub fn move_selection_down(state: &mut ListSelection, len: usize)
    ensures
        *final(state) == move_down_spec(*old(state), len),
{
    if len == 0 {
        state.select(None);
        state.offset = 0;
        return;
    }
    let selected = match state.selected {
        Some(s) => s,
        None => 0,
    };
    let next = if selected >= len - 1 { len - 1 } else { selected + 1 };
    state.select(Some(next));
}

pub open spec fn move_up_spec(s: ListSelection) -> ListSelection {
    match s.selected {
        Some(v) => select_spec(s, Some(if v == 0 { 0 } else { (v - 1) as usize })),
        None => s,
    }
}

/// Moves the selection one row up, stopping at the first row.
pub fn move_selection_up(state: &mut ListSelection)
    ensures
        *final(state) == move_up_spec(*old(state)),
{
    if let Some(selected) = state.selected {
        state.select(Some(selected.saturating_sub(1)));
    }
}

pub open spec fn page_down_spec(s: ListSelection, len: usize, page_size: usize) -> ListSelection {
    if len == 0 {
        ListSelection { selected: None, offset: 0 }
    } else {
        let sel = match s.selected {
            Some(v) => v,
            None => 0,
        };
        let ps = if page_size == 0 { 1 } else { page_size };
        let next = if sel + ps >= len - 1 { (len - 1) as usize } else { (sel + ps) as usize };
        ensure_visible_spec(select_spec(s, Some(next)), len, ps)
    }
}

/// Moves the selection a page down, stopping at the last row.
pub fn page_down(state: &mut ListSelection, len: usize, page_size: usize)
    ensures
        *final(state) == page_down_spec(*old(state), len, page_size),
{
    if len == 0 {
        state.select(None);
        state.offset = 0;
        return;
    }
    let selected = match state.selected {
        Some(s) => s,
        None => 0,
    };
    let page_size = if page_size == 0 { 1 } else { page_size };
    let next = if selected >= len - 1 || page_size >= len - 1 - selected {
        len - 1
    } else {
        selected + page_size
    };
    state.select(Some(next));
    ensure_visible(state, len, page_size);
}

pub open spec fn page_up_spec(s: ListSelection, page_size: usize) -> ListSelection {
    match s.selected {
        Some(v) => {
            let ps = if page_size == 0 { 1 } else { page_size };
            let next = if v < ps { 0 } else { (v - ps) as usize };
            let len = if v == usize::MAX { v } else { (v + 1) as usize };
            ensure_visible_spec(select_spec(s, Some(next)), len, ps)
        },
        None => s,
    }
}

/// Moves the selection a page up, stopping at the first row.
pub fn page_up(state: &mut ListSelection, page_size: usize)
    ensures
        *final(state) == page_up_spec(*old(state), page_size),
{
    let selected = match state.selected {
        Some(s) => s,
        None => {
            return;
        },
    };
    let page_size = if page_size == 0 { 1 } else { page_size };
    state.select(Some(selected.saturating_sub(page_size)));
    ensure_visible(state, selected.saturating_add(1), page_size);
}

/// Rows an item takes on screen: its height, at least one.
pub open spec fn rows(h: usize) -> int {
    if h == 0 { 1 } else { h as int }
}

/// Rows taken by the items before index `k`.
pub open spec fn rows_before(hs: Seq<usize>, k: int) -> int
    decreases k,
{
    if k <= 0 {
        0
    } else {
        rows_before(hs, k - 1) + rows(hs[k - 1])
    }
}

pub proof fn lemma_rows_before_monotone(hs: Seq<usize>, j: int, k: int)
    requires
        0 <= j <= k,
    ensures
        rows_before(hs, j) <= rows_before(hs, k),
    decreases k - j,
{
    if j < k {
        lemma_rows_before_monotone(hs, j, k - 1);
    }
}

/// Whether measured item heights can drive line-based scrolling: a
/// non-empty list, a visible viewport, one height per item, and a total that
/// fits in `usize`.
/// Whether rows can be laid out by height: a non-empty list, a visible
/// viewport, one height per item, and a total that fits in `usize`.
pub open spec fn heights_ready_spec(len: usize, hs: Seq<usize>, viewport_height: usize) -> bool {
    len > 0 && viewport_height > 0 && hs.len() == len && rows_before(hs, len as int) <= usize::MAX
}

pub fn comment_heights_ready(len: usize, item_heights: &Vec<usize>, viewport_height: usize) -> (r: bool)
    ensures
        r == heights_ready_spec(len, item_heights@, viewport_height),
{
    if len == 0 || viewport_height == 0 {
        return false;
    }
    if item_heights.len() != len {
        return false;
    }
    let mut total: usize = 0;
    let mut i: usize = 0;
    while i < len
        invariant
            i <= len,
            item_heights@.len() == len,
            total == rows_before(item_heights@, i as int),
        decreases len - i,
    {
        let h = if item_heights[i] == 0 { 1 } else { item_heights[i] };
        if total > usize::MAX - h {
            proof {
                lemma_rows_before_monotone(item_heights@, i + 1, len as int);
            }
            return false;
        }
        total = total + h;
        i = i + 1;
    }
    true
}

/// Total rows of all items.
pub fn comment_total_lines(item_heights: &Vec<usize>) -> (r: usize)
    requires
        rows_before(item_heights@, item_heights@.len() as int) <= usize::MAX,
    ensures
        r == rows_before(item_heights@, item_heights@.len() as int),
{
    let mut total: usize = 0;
    let mut i: usize = 0;
    while i < item_heights.len()
        invariant
            i <= item_heights@.len(),
            total == rows_before(item_heights@, i as int),
            rows_before(item_heights@, item_heights@.len() as int) <= usize::MAX,
        decreases item_heights@.len() - i,
    {
        proof {
            lemma_rows_before_monotone(item_heights@, i + 1, item_heights@.len() as int);
        }
        let h = if item_heights[i] == 0 { 1 } else { item_heights[i] };
        total = total + h;
        i = i + 1;
    }
    total
}

/// First row and one past the last row of item `index`; past the end, the
/// empty range at the total.
pub fn comment_line_range(item_heights: &Vec<usize>, index: usize) -> (r: (usize, usize))
    requires
        rows_before(item_heights@, item_heights@.len() as int) <= usize::MAX,
    ensures
        index < item_heights@.len() ==> r == (
            rows_before(item_heights@, index as int) as usize,
            rows_before(item_heights@, index + 1) as usize,
        ),
        index >= item_heights@.len() ==> r == (
            rows_before(item_heights@, item_heights@.len() as int) as usize,
            rows_before(item_heights@, item_heights@.len() as int) as usize,
        ),
{
    let mut start: usize = 0;
    let mut i: usize = 0;
    while i < item_heights.len()
        invariant
            i <= item_heights@.len(),
            i <= index,
            start == rows_before(item_heights@, i as int),
            rows_before(item_heights@, item_heights@.len() as int) <= usize::MAX,
        decreases item_heights@.len() - i,
    {
        proof {
            lemma_rows_before_monotone(item_heights@, i + 1, item_heights@.len() as int);
        }
        let h = if item_heights[i] == 0 { 1 } else { item_heights[i] };
        if i == index {
            return (start, start + h);
        }
        start = start + h;
        i = i + 1;
    }
    (start, start)
}

pub open spec fn line_offset_spec(selected: usize, line_offset: usize, hs: Seq<usize>, viewport: usize) -> usize {
    let total = rows_before(hs, hs.len() as int);
    let max_offset = if total > viewport { total - viewport } else { 0 };
    let start = rows_before(hs, selected as int);
    let end = rows_before(hs, selected + 1);
    if end - start >= viewport {
        (if start < max_offset { start } else { max_offset }) as usize
    } else {
        let offset = if line_offset < max_offset { line_offset as int } else { max_offset };
        let offset = if start < offset {
            start
        } else if end > offset + viewport {
            end - viewport
        } else {
            offset
        };
        (if offset < max_offset { offset } else { max_offset }) as usize
    }
}

/// Scrolls the comment view, by rows, so that the selected item shows; a
/// selection past the end moves to the last item.
/// Selection and line offset after scrolling the comment view so that the
/// selected row shows.
pub open spec fn comment_scroll_spec(s: ListSelection, line_offset: usize, hs: Seq<usize>, viewport_height: usize) -> (
    ListSelection,
    usize,
) {
    if hs.len() == 0 || viewport_height == 0 || s.selected is None {
        (s, 0)
    } else {
        let sel = s.selected.unwrap();
        let sel2 = if sel >= hs.len() { (hs.len() - 1) as usize } else { sel };
        (select_spec(s, Some(sel2)), line_offset_spec(sel2, line_offset, hs, viewport_height))
    }
}

pub fn ensure_comment_line_offset(
    state: &mut ListSelection,
    line_offset: &mut usize,
    item_heights: &Vec<usize>,
    viewport_height: usize,
)
    requires
        rows_before(item_heights@, item_heights@.len() as int) <= usize::MAX,
    ensures
        (*final(state), *final(line_offset)) == comment_scroll_spec(
            *old(state),
            *old(line_offset),
            item_heights@,
            viewport_height,
        ),
{
    if item_heights.len() == 0 || viewport_height == 0 {
        *line_offset = 0;
        return;
    }
    let selected = match state.selected {
        Some(s) => s,
        None => {
            *line_offset = 0;
            return;
        },
    };
    let len = item_heights.len();
    let selected = if selected >= len {
        let last = len - 1;
        state.select(Some(last));
        last
    } else {
        state.select(Some(selected));
        selected
    };
    let total_lines = comment_total_lines(item_heights);
    let max_offset = total_lines.saturating_sub(viewport_height);
    let (start, end) = comment_line_range(item_heights, selected);
    proof {
        lemma_rows_before_monotone(item_heights@, 0, selected as int);
        lemma_rows_before_monotone(item_heights@, selected as int, selected + 1);
        lemma_rows_before_monotone(item_heights@, selected + 1, len as int);
    }
    let height = end - start;
    if height >= viewport_height {
        *line_offset = if start < max_offset { start } else { max_offset };
        return;
    }
    let mut offset = if *line_offset < max_offset { *line_offset } else { max_offset };
    if start < offset {
        offset = start;
    } else if end - offset > viewport_height {
        offset = end - viewport_height;
    }
    *line_offset = if offset < max_offset { offset } else { max_offset };
}

/// Selection after paging down by rows: the following items that fit in
/// the viewport, or the next one alone when it is taller than the viewport.
pub open spec fn page_down_rows(hs: Seq<usize>, viewport: int, target: int, used: int) -> int
    decreases hs.len() - target,
{
    if target + 1 >= hs.len() || target < 0 {
        target
    } else {
        let h = rows(hs[target + 1]);
        if used == 0 && h >= viewport {
            target + 1
        } else if used + h > viewport {
            target
        } else {
            page_down_rows(hs, viewport, target + 1, used + h)
        }
    }
}

/// Selection after paging up by rows, symmetric to paging down.
pub open spec fn page_up_rows(hs: Seq<usize>, viewport: int, target: int, used: int) -> int
    decreases target,
{
    if target <= 0 {
        target
    } else {
        let h = rows(hs[target - 1]);
        if used == 0 && h >= viewport {
            target - 1
        } else if used + h > viewport {
            target
        } else {
            page_up_rows(hs, viewport, target - 1, used + h)
        }
    }
}

/// Selection after paging down by rows of the given heights.
pub open spec fn page_down_heights_spec(s: ListSelection, hs: Seq<usize>, viewport_height: usize) -> ListSelection {
    if hs.len() == 0 {
        ListSelection { selected: None, offset: 0 }
    } else {
        let sel = match s.selected {
            Some(v) => v,
            None => 0,
        };
        let sel = if sel >= hs.len() { hs.len() - 1 } else { sel as int };
        let vp = if viewport_height == 0 { 1 } else { viewport_height as int };
        select_spec(s, Some(page_down_rows(hs, vp, sel, 0) as usize))
    }
}

pub fn page_down_with_heights(state: &mut ListSelection, item_heights: &Vec<usize>, viewport_height: usize)
    ensures
        *final(state) == page_down_heights_spec(*old(state), item_heights@, viewport_height),
{
    let len = item_heights.len();
    if len == 0 {
        state.select(None);
        state.offset = 0;
        return;
    }
    let selected = match state.selected {
        Some(s) => s,
        None => 0,
    };
    let selected = if selected >= len { len - 1 } else { selected };
    let viewport_height = if viewport_height == 0 { 1 } else { viewport_height };
    let mut target = selected;
    let mut used: usize = 0;
    let mut done = false;
    while !done && target + 1 < len
        invariant
            target < len,
            len == item_heights@.len(),
            used <= viewport_height,
            !done ==> page_down_rows(item_heights@, viewport_height as int, target as int, used as int)
                == page_down_rows(item_heights@, viewport_height as int, selected as int, 0),
            done ==> target == page_down_rows(item_heights@, viewport_height as int, selected as int, 0),
        decreases len - target, (if done { 0int } else { 1int }),
    {
        let next = target + 1;
        let height = if item_heights[next] == 0 { 1 } else { item_heights[next] };
        if used == 0 && height >= viewport_height {
            target = next;
            done = true;
        } else if height > viewport_height - used {
            done = true;
        } else {
            used = used + height;
            target = next;
        }
    }
    state.select(Some(target));
}

/// Selection after paging up by rows of the given heights.
pub open spec fn page_up_heights_spec(s: ListSelection, hs: Seq<usize>, viewport_height: usize) -> ListSelection {
    if hs.len() == 0 {
        ListSelection { selected: None, offset: 0 }
    } else {
        let sel = match s.selected {
            Some(v) => v,
            None => 0,
        };
        let sel = if sel >= hs.len() { hs.len() - 1 } else { sel as int };
        let vp = if viewport_height == 0 { 1 } else { viewport_height as int };
        select_spec(s, Some(page_up_rows(hs, vp, sel, 0) as usize))
    }
}

pub fn page_up_with_heights(state: &mut ListSelection, item_heights: &Vec<usize>, viewport_height: usize)
    ensures
        *final(state) == page_up_heights_spec(*old(state), item_heights@, viewport_height),
{
    let len = item_heights.len();
    if len == 0 {
        state.select(None);
        state.offset = 0;
        return;
    }
    let selected = match state.selected {
        Some(s) => s,
        None => 0,
    };
    let selected = if selected >= len { len - 1 } else { selected };
    let viewport_height = if viewport_height == 0 { 1 } else { viewport_height };
    let mut target = selected;
    let mut used: usize = 0;
    let mut done = false;
    while !done && target > 0
        invariant
            target < len,
            len == item_heights@.len(),
            used <= viewport_height,
            !done ==> page_up_rows(item_heights@, viewport_height as int, target as int, used as int)
                == page_up_rows(item_heights@, viewport_height as int, selected as int, 0),
            done ==> target == page_up_rows(item_heights@, viewport_height as int, selected as int, 0),
        decreases target, (if done { 0int } else { 1int }),
    {
        let prev = target - 1;
        let height = if item_heights[prev] == 0 { 1 } else { item_heights[prev] };
        if used == 0 && height >= viewport_height {
            target = prev;
            done = true;
        } else if height > viewport_height - used {
            done = true;
        } else {
            used = used + height;
            target = prev;
        }
    }
    state.select(Some(target));
}

/// Scrolls the comment view to the selection when heights are known.
pub fn ensure_comment_visible(
    state: &mut ListSelection,
    line_offset: &mut usize,
    len: usize,
    item_heights: &Vec<usize>,
    viewport_height: usize,
)
    ensures
        heights_ready_spec(len, item_heights@, viewport_height) ==> (*final(state), *final(line_offset))
            == comment_scroll_spec(*old(state), *old(line_offset), item_heights@, viewport_height),
        !heights_ready_spec(len, item_heights@, viewport_height) ==> *final(state) == *old(state)
            && *final(line_offset) == *old(line_offset),
{
    if comment_heights_ready(len, item_heights, viewport_height) {
        ensure_comment_line_offset(state, line_offset, item_heights, viewport_height);
    }
}

/// Pages down by rows when heights are known, else by a fixed page size.
pub fn page_down_comment_list(
    state: &mut ListSelection,
    len: usize,
    page_size: usize,
    line_offset: &mut usize,
    item_heights: &Vec<usize>,
    viewport_height: usize,
)
    ensures
        heights_ready_spec(len, item_heights@, viewport_height) ==> (*final(state), *final(line_offset))
            == comment_scroll_spec(
            page_down_heights_spec(*old(state), item_heights@, viewport_height),
            *old(line_offset),
            item_heights@,
            viewport_height,
        ),
        !heights_ready_spec(len, item_heights@, viewport_height) ==> *final(state) == page_down_spec(*old(state), len, page_size)
            && *final(line_offset) == *old(line_offset),
{
    if comment_heights_ready(len, item_heights, viewport_height) {
        page_down_with_heights(state, item_heights, viewport_height);
        ensure_comment_line_offset(state, line_offset, item_heights, viewport_height);
    } else {
        page_down(state, len, page_size);
    }
}

/// Pages up by rows when heights are known, else by a fixed page size.
pub fn page_up_comment_list(
    state: &mut ListSelection,
    len: usize,
    page_size: usize,
    line_offset: &mut usize,
    item_heights: &Vec<usize>,
    viewport_height: usize,
)
    ensures
        heights_ready_spec(len, item_heights@, viewport_height) ==> (*final(state), *final(line_offset))
            == comment_scroll_spec(
            page_up_heights_spec(*old(state), item_heights@, viewport_height),
            *old(line_offset),
            item_heights@,
            viewport_height,
        ),
        !heights_ready_spec(len, item_heights@, viewport_height) ==> *final(state) == page_up_spec(*old(state), page_size)
            && *final(line_offset) == *old(line_offset),
{
    if comment_heights_ready(len, item_heights, viewport_height) {
        page_up_with_heights(state, item_heights, viewport_height);
        ensure_comment_line_offset(state, line_offset, item_heights, viewport_height);
    } else {
        page_up(state, page_size);
    }
}

} // verus!
