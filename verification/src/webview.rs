//! What the embedded web views may do: where they may navigate, and how the
//! PDF window answers a request to close it.

use vstd::prelude::*;
use crate::text::{chars_eq, has_prefix, starts_with, to_chars};

verus! {

/// The player page may show nothing but itself.
pub fn player_navigation_allowed(url: &str, allowed: &str) -> (b: bool)
    ensures
        b == (url@ == allowed@),
{
    chars_eq(to_chars(url).as_slice(), to_chars(allowed).as_slice())
}

/// The PDF page may show itself and move between its own fragments: `url` is
/// the page, or the page followed by `#` and anything.
pub open spec fn pdf_url_allowed(url: Seq<char>, allowed: Seq<char>) -> bool {
    url == allowed || (has_prefix(url, allowed) && url.len() > allowed.len() && url[allowed.len() as int]
        == '#')
}

/// Whether the PDF web view may navigate to `url`.
pub fn pdf_navigation_allowed(url: &str, allowed: &str) -> (b: bool)
    ensures
        b == pdf_url_allowed(url@, allowed@),
{
    let u = to_chars(url);
    let a = to_chars(allowed);
    if chars_eq(u.as_slice(), a.as_slice()) {
        return true;
    }
    starts_with(u.as_slice(), a.as_slice()) && u.len() > a.len() && u[a.len()] == '#'
}

/// The navigation rule admits no other site: an allowed URL that is not the
/// page itself differs from it only after a `#`.
pub proof fn lemma_pdf_navigation_stays_on_page(url: Seq<char>, allowed: Seq<char>)
    requires
        pdf_url_allowed(url, allowed),
    ensures
        url.take(allowed.len() as int) == allowed,
        url.len() == allowed.len() || url[allowed.len() as int] == '#',
{
    if url == allowed {
        assert(url.take(allowed.len() as int) =~= allowed);
    }
}

/// What the PDF window does when asked to close.
#[derive(Clone, Copy, Debug, PartialEq, Eq, Structural)]
pub struct PdfCloseDecision {
    /// The window closes.
    pub close: bool,
    /// The window is marked closed.
    pub closed: bool,
    /// The page is asked to close itself (to save or finish first).
    pub ask_page: bool,
}

/// A window already marked closed closes; one whose page is clean and idle
/// is marked closed and closes; otherwise it stays and asks the page.
pub fn pdf_close_request(closed: bool, can_close: bool) -> (d: PdfCloseDecision)
    ensures
        d.close == (closed || can_close),
        d.closed == (closed || can_close),
        d.ask_page == (!closed && !can_close),
{
    if closed {
        PdfCloseDecision { close: true, closed: true, ask_page: false }
    } else if can_close {
        PdfCloseDecision { close: true, closed: true, ask_page: false }
    } else {
        PdfCloseDecision { close: false, closed: false, ask_page: true }
    }
}

} // verus!
