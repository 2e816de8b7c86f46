//! Turning `page` / `limit` request parameters into an offset/limit window
//! over an ordered result, and what such a window selects.

use vstd::prelude::*;

verus! {

/// A slice of an ordered result: skip `offset` rows, then keep at most
/// `limit` rows (all of them when `limit` is `None`).
#[derive(Debug, Clone, Copy, PartialEq, Eq, Structural)]
pub struct Window {
    pub offset: u64,
    pub limit: Option<u64>,
}

/// How one resource pages its listings: the limit used when the request
/// gives none, and whether a limit of 0 means "no limit" (otherwise a
/// limit of 0 selects nothing).
#[derive(Debug, Clone, Copy, PartialEq, Eq, Structural)]
pub struct PageRule {
    pub default_limit: u32,
    pub zero_means_all: bool,
}

#[derive(Debug, Clone, Copy, PartialEq, Eq, Structural)]
pub enum PageError {
    /// A negative `limit` was requested.
    NegativeLimit,
}

/// The page actually served: 1 when absent, and pages below 1 are served
/// as page 1.
pub open spec fn effective_page(page: Option<i32>) -> int {
    match page {
        None => 1,
        Some(p) => if p < 1 {
            1
        } else {
            p as int
        },
    }
}

/// The limit asked for, or the resource's default.
pub open spec fn requested_limit(limit: Option<i32>, rule: PageRule) -> int {
    match limit {
        None => rule.default_limit as int,
        Some(l) => l as int,
    }
}

/// The window for a request: `offset = (page - 1) * limit`.
pub open spec fn window_spec(page: Option<i32>, limit: Option<i32>, rule: PageRule) -> Result<Window, PageError> {
    let l = requested_limit(limit, rule);
    if l < 0 {
        Err(PageError::NegativeLimit)
    } else if l == 0 && rule.zero_means_all {
        Ok(Window { offset: 0, limit: None })
    } else {
        Ok(Window { offset: ((effective_page(page) - 1) * l) as u64, limit: Some(l as u64) })
    }
}

/// Resolves the `page` and `limit` parameters of a listing request.
pub fn page_window(page: Option<i32>, limit: Option<i32>, rule: PageRule) -> (r: Result<Window, PageError>)
    ensures
        r == window_spec(page, limit, rule),
{
    let l: i64 = match limit {
        None => rule.default_limit as i64,
        Some(l) => l as i64,
    };
    if l < 0 {
        return Err(PageError::NegativeLimit);
    }
    if l == 0 && rule.zero_means_all {
        return Ok(Window { offset: 0, limit: None });
    }
    let p: i64 = match page {
        None => 1,
        Some(p) => if p < 1 {
            1
        } else {
            p as i64
        },
    };
    assert(0 <= (p - 1) * l <= 0x7fff_ffff * 0xffff_ffff) by (nonlinear_arith)
        requires
            1 <= p <= 0x7fff_ffff,
            0 <= l <= 0xffff_ffff,
    ;
    let offset = ((p - 1) * l) as u64;
    Ok(Window { offset, limit: Some(l as u64) })
}

/// The rows of `s` that window `w` selects.
pub open spec fn take_window<T>(s: Seq<T>, w: Window) -> Seq<T> {
    let start = if w.offset < s.len() {
        w.offset as int
    } else {
        s.len() as int
    };
    match w.limit {
        None => s.subrange(start, s.len() as int),
        Some(l) => {
            let end = if w.offset + l < s.len() {
                w.offset + l
            } else {
                s.len() as int
            };
            s.subrange(start, end)
        },
    }
}

/// Applies a window to an ordered list of ids.
pub fn apply_window(ids: &Vec<u64>, w: Window) -> (r: Vec<u64>)
    ensures
        r@ == take_window(ids@, w),
{
    let len = ids.len();
    let start: usize = if w.offset < len as u64 {
        w.offset as usize
    } else {
        len
    };
    let end: usize = match w.limit {
        None => len,
        Some(l) => if start < len && l < (len - start) as u64 {
            start + l as usize
        } else {
            len
        },
    };
    let mut out: Vec<u64> = Vec::new();
    let mut i: usize = start;
    while i < end
        invariant
            start <= i <= end <= len,
            len == ids@.len(),
            out@ == ids@.subrange(start as int, i as int),
        decreases end - i,
    {
        out.push(ids[i]);
        i = i + 1;
        assert(out@ =~= ids@.subrange(start as int, i as int));
    }
    out
}

/// Pages follow one another: page `p + 1` starts exactly where page `p`
/// ends, so together they are one contiguous stretch of the ordered
/// result, with no row left out and none served twice.
pub proof fn lemma_next_page_continues<T>(s: Seq<T>, page: i32, limit: i32, rule: PageRule)
    requires
        1 <= page < i32::MAX,
        limit > 0,
    ensures
        window_spec(Some(page), Some(limit), rule) matches Ok(w1) && window_spec(
            Some((page + 1) as i32),
            Some(limit),
            rule,
        ) matches Ok(w2) && w2.offset == w1.offset + limit && take_window(s, w1) + take_window(
            s,
            w2,
        ) == s.subrange(
            if w1.offset < s.len() {
                w1.offset as int
            } else {
                s.len() as int
            },
            if w1.offset + 2 * limit < s.len() {
                w1.offset + 2 * limit
            } else {
                s.len() as int
            },
        ),
{
    let w1 = window_spec(Some(page), Some(limit), rule)->Ok_0;
    let w2 = window_spec(Some((page + 1) as i32), Some(limit), rule)->Ok_0;
    assert((page + 1 - 1) * limit == (page - 1) * limit + limit) by (nonlinear_arith);
    assert(0 <= (page - 1) * limit) by (nonlinear_arith)
        requires
            1 <= page,
            limit > 0,
    ;
    assert((page + 1 - 1) * limit <= 0x7fff_ffff * 0x7fff_ffff) by (nonlinear_arith)
        requires
            1 <= page < 0x7fff_ffff,
            0 < limit <= 0x7fff_ffff,
    ;
    assert(take_window(s, w1) + take_window(s, w2) =~= s.subrange(
        if w1.offset < s.len() {
            w1.offset as int
        } else {
            s.len() as int
        },
        if w1.offset + 2 * limit < s.len() {
            w1.offset + 2 * limit
        } else {
            s.len() as int
        },
    ));
}

} // verus!
