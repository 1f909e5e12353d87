//! How a crawl step fails.

use vstd::prelude::*;

verus! {

/// Why a step produced no result.
#[derive(Debug)]
pub enum CrawlError {
    /// The step reports this message and the crawl goes on with the next
    /// step.
    Message(String),
    /// The page breaks an assumption that the crawler makes without a check
    /// (an element without the expected attribute or child, a page number
    /// at the top of the integer range, a character reference that the HTML
    /// parser cannot decode): the crawl stops here.
    Broken,
}

/// The meaning of a [`CrawlError`].
pub enum Fault {
    Message(Seq<char>),
    Broken,
}

impl View for CrawlError {
    type V = Fault;

    open spec fn view(&self) -> Fault {
        match self {
            CrawlError::Message(m) => Fault::Message(m@),
            CrawlError::Broken => Fault::Broken,
        }
    }
}

/// The meaning of an optional string.
pub open spec fn opt_view(o: Option<String>) -> Option<Seq<char>> {
    match o {
        Some(s) => Some(s@),
        None => None,
    }
}

/// The meaning of a list of optional strings.
pub open spec fn opt_views(v: Seq<Option<String>>) -> Seq<Option<Seq<char>>> {
    v.map_values(|o: Option<String>| opt_view(o))
}

} // verus!
