//! Paging through a room's past messages to fill the conversation history.
//!
//! Fetching a page is the caller's business. This module decides how large
//! the next page is and when to stop.

use crate::strings::opt_string_view;
use crate::text::str_eq;
use vstd::prelude::*;

verus! {

/// The most messages asked for in one page.
pub const PAGE_MAX: u64 = 50;

/// Where the backfill of one room stands.
pub struct Backfill {
    /// How many history lines may still be kept.
    pub remaining: u64,
    /// The token to page back from; `None` starts at the end of the timeline.
    pub from_token: Option<String>,
    /// How many history lines were kept so far.
    pub total_appended: u64,
    /// How many pages were asked for so far.
    pub pages: u64,
}

/// Why a backfill ends, or that it goes on.
#[derive(Clone, Copy, Debug, PartialEq, Eq, Structural)]
pub enum PageVerdict {
    /// Ask for the next page.
    Continue,
    /// The page held no message.
    EmptyChunk,
    /// Enough lines were kept.
    LimitReached,
    /// The room has no earlier page, or the token made no progress.
    NoProgress,
}

/// The size of the next page: what may still be kept, but at most [`PAGE_MAX`].
pub open spec fn page_size(remaining: u64) -> u64 {
    if remaining < PAGE_MAX {
        remaining
    } else {
        PAGE_MAX
    }
}

/// The lines that may still be kept after `appended` more were kept.
pub open spec fn remaining_after(remaining: u64, appended: u64) -> u64 {
    if appended < remaining {
        (remaining - appended) as u64
    } else {
        0
    }
}

/// `total` and `more`, stopping at the largest number.
pub open spec fn capped_sum(total: u64, more: u64) -> u64 {
    if total + more <= u64::MAX {
        (total + more) as u64
    } else {
        u64::MAX
    }
}

/// What follows a page: it was empty, or the limit is reached, or there is
/// no usable token to go on from, or the backfill goes on.
pub open spec fn verdict_after(
    remaining: u64,
    from_token: Option<Seq<char>>,
    chunk_empty: bool,
    appended: u64,
    next_token: Option<Seq<char>>,
) -> PageVerdict {
    if chunk_empty {
        PageVerdict::EmptyChunk
    } else if remaining_after(remaining, appended) == 0 {
        PageVerdict::LimitReached
    } else if next_token is None || next_token->0.len() == 0 || from_token == next_token {
        PageVerdict::NoProgress
    } else {
        PageVerdict::Continue
    }
}

impl Backfill {
    /// A backfill that may keep `limit` lines and starts from `from_token`.
    pub fn new(limit: u64, from_token: Option<String>) -> (b: Backfill)
        ensures
            b.remaining == limit,
            b.from_token == from_token,
            b.total_appended == 0,
            b.pages == 0,
    {
        Backfill { remaining: limit, from_token, total_appended: 0, pages: 0 }
    }

    /// The size of the page to ask for next, or `None` where nothing may be kept any more.
    pub fn next_page(&mut self) -> (r: Option<u64>)
        ensures
            r == (if old(self).remaining == 0 {
                None
            } else {
                Some(page_size(old(self).remaining))
            }),
            final(self).remaining == old(self).remaining,
            final(self).from_token == old(self).from_token,
            final(self).total_appended == old(self).total_appended,
            final(self).pages == (if old(self).remaining == 0 {
                old(self).pages
            } else {
                capped_sum(old(self).pages, 1)
            }),
    {
        if self.remaining == 0 {
            return None;
        }
        self.pages = self.pages.saturating_add(1);
        Some(if self.remaining < PAGE_MAX {
            self.remaining
        } else {
            PAGE_MAX
        })
    }

    /// Takes note of a page: `appended` of its messages were kept as history
    /// lines, and `next_token` is where the room says the next page starts.
    pub fn after_page(&mut self, chunk_empty: bool, appended: u64, next_token: Option<String>) -> (v:
        PageVerdict)
        ensures
            v == verdict_after(
                old(self).remaining,
                opt_string_view(old(self).from_token),
                chunk_empty,
                appended,
                opt_string_view(next_token),
            ),
            final(self).pages == old(self).pages,
            chunk_empty ==> final(self).remaining == old(self).remaining
                && final(self).total_appended == old(self).total_appended && final(self).from_token
                == old(self).from_token,
            !chunk_empty ==> final(self).remaining == remaining_after(
                old(self).remaining,
                appended,
            ) && final(self).total_appended == capped_sum(old(self).total_appended, appended),
            v == PageVerdict::Continue ==> final(self).from_token == next_token,
            v != PageVerdict::Continue ==> final(self).from_token == old(self).from_token,
    {
        if chunk_empty {
            return PageVerdict::EmptyChunk;
        }
        self.remaining = self.remaining.saturating_sub(appended);
        self.total_appended = self.total_appended.saturating_add(appended);
        if self.remaining == 0 {
            return PageVerdict::LimitReached;
        }
        match next_token {
            None => PageVerdict::NoProgress,
            Some(token) => {
                let same = match &self.from_token {
                    Some(from) => str_eq(from.as_str(), token.as_str()),
                    None => false,
                };
                if token.as_str().unicode_len() == 0 || same {
                    PageVerdict::NoProgress
                } else {
                    self.from_token = Some(token);
                    PageVerdict::Continue
                }
            },
        }
    }
}

} // verus!
