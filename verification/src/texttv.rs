//! The page-number domain and the page envelope returned by the fetch
//! collaborator.

use vstd::prelude::*;

use crate::error::Error;

verus! {

/// The page shown on startup.
pub const HOME_PAGE_NR: u16 = 100;

/// The smallest valid page number.
pub const MIN_PAGE_NR: u16 = 100;

/// The largest valid page number.
pub const MAX_PAGE_NR: u16 = 801;

/// A page number, guaranteed to lie in `[MIN_PAGE_NR, MAX_PAGE_NR]`.
#[derive(Debug, Clone, Copy)]
pub struct PageNumber(u16);

impl PageNumber {
    /// The number this `PageNumber` holds.
    pub closed spec fn spec_get(self) -> u16 {
        self.0
    }

    /// Whether the held number lies in the valid domain.
    pub open spec fn wf(self) -> bool {
        MIN_PAGE_NR <= self.spec_get() <= MAX_PAGE_NR
    }

    /// Validating conversion: succeeds for exactly the closed interval
    /// `[MIN_PAGE_NR, MAX_PAGE_NR]`.
    pub fn try_from(value: u16) -> (r: Result<PageNumber, Error>)
        ensures
            r is Ok <==> MIN_PAGE_NR <= value <= MAX_PAGE_NR,
            r matches Ok(p) ==> p.wf() && p.spec_get() == value,
            r matches Err(e) ==> e == Error::InvalidPageNumber(value),
    {
        if MIN_PAGE_NR <= value && value <= MAX_PAGE_NR {
            Ok(PageNumber(value))
        } else {
            Err(Error::InvalidPageNumber(value))
        }
    }

    /// The held number, as a plain integer.
    #[verifier::when_used_as_spec(spec_get)]
    pub fn get(self) -> (r: u16)
        ensures
            r == self.spec_get(),
    {
        self.0
    }
}

/// A navigational link within the site's hierarchical structure.
#[derive(Debug)]
pub struct Breadcrumb {
    /// The name of the page.
    pub name: String,
    /// The relative URL of the page.
    pub url: String,
    /// The page number.
    pub num: u16,
}

/// The page envelope the fetch collaborator returns for one page number.
#[derive(Debug)]
pub struct PageResponse {
    /// The page number.
    pub num: u16,
    /// The page title.
    pub title: String,
    /// The page content as markup, one fragment per subpage.
    pub content: Vec<String>,
    /// The page content as plain text, when the fetch asked for it.
    pub content_plain: Option<Vec<String>>,
    /// The next available page, after `num`.
    pub next_page: u16,
    /// The previous available page, before `num`.
    pub prev_page: u16,
    /// When the page was last updated, as a UNIX timestamp.
    pub date_updated_unix: i64,
    /// A permanent link to the current page state.
    pub permalink: String,
    /// A unique ID for the current page state.
    pub id: u64,
    /// The page's location within the site's hierarchy.
    pub breadcrumbs: Vec<Breadcrumb>,
}

/// The concatenation of a sequence of character sequences, in order.
pub open spec fn concat_views(ss: Seq<Seq<char>>) -> Seq<char>
    decreases ss.len(),
{
    if ss.len() == 0 {
        Seq::empty()
    } else {
        concat_views(ss.drop_last()) + ss.last()
    }
}

/// The plain-text rendering of an envelope: its plain-text subpages
/// concatenated in order, or nothing when the fetch did not ask for them.
pub open spec fn spec_plain_text(r: PageResponse) -> Seq<char> {
    match r.content_plain {
        Some(v) => concat_views(v@.map_values(|s: String| s@)),
        None => Seq::empty(),
    }
}

impl PageResponse {
    /// Renders the envelope as plain text.
    pub fn plain_text(&self) -> (out: String)
        ensures
            out@ == spec_plain_text(*self),
    {
        let mut out = String::new();
        match &self.content_plain {
            Some(v) => {
                let ghost views = v@.map_values(|s: String| s@);
                let mut i: usize = 0;
                while i < v.len()
                    invariant
                        i <= v@.len(),
                        views == v@.map_values(|s: String| s@),
                        out@ == concat_views(views.take(i as int)),
                    decreases v@.len() - i,
                {
                    proof {
                        assert(views.take(i + 1).drop_last() =~= views.take(i as int));
                        assert(views.take(i + 1).last() == v@[i as int]@);
                    }
                    out.append(v[i].as_str());
                    i += 1;
                }
                proof {
                    assert(views.take(v@.len() as int) =~= views);
                }
            },
            None => {},
        }
        out
    }
}

/// Validates the order of a requested page range: succeeds exactly when
/// the lower page does not exceed the upper.
pub fn check_page_range(lo: PageNumber, hi: PageNumber) -> (r: Result<(), Error>)
    ensures
        r is Ok <==> lo.spec_get() <= hi.spec_get(),
        r matches Err(e) ==> e == (Error::InvalidPageRange {
            lo: lo.spec_get(),
            hi: hi.spec_get(),
        }),
{
    if lo.get() <= hi.get() {
        Ok(())
    } else {
        Err(Error::InvalidPageRange { lo: lo.get(), hi: hi.get() })
    }
}

/// Picks the envelope a single-page fetch hands back when the transport
/// returned a list: the last one, or the page-number error when the list
/// is empty.
pub fn select_page(pages: Vec<PageResponse>, number: u16) -> (r: Result<PageResponse, Error>)
    ensures
        pages@.len() > 0 ==> (r matches Ok(p) && p == pages@.last()),
        pages@.len() == 0 ==> (r matches Err(e) && e == Error::InvalidPageNumber(number)),
{
    let mut pages = pages;
    match pages.pop() {
        Some(page) => Ok(page),
        None => Err(Error::InvalidPageNumber(number)),
    }
}

} // verus!
