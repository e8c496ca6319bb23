//! The narrow capability surface of the markup query engine: read, out of
//! a markup fragment, the elements matching a selector and the attribute
//! data of their children.
//!
//! The engine's work is deterministic in the fragment and selector texts,
//! so its result is named (`line_children_of`) and every decision on the
//! extracted data is taken by verified code in `page`.

use vstd::prelude::*;

use scraper::{Html, Selector};

verus! {

/// Whether the query engine accepts a selector text. Names the success of
/// scraper's `Selector::parse`, which depends on that text alone.
pub uninterp spec fn selector_ok(selector: Seq<char>) -> bool;

/// The line/child structure the query engine reads out of a markup
/// fragment under a selector: one row per matching element, in document
/// order, and per row one entry per direct element child, in document
/// order, holding the child's class attribute, inline style attribute,
/// and concatenated descendant text. Names the combined result of
/// scraper's `Html::parse_fragment`, `Html::select`, and
/// `ElementRef::{child_elements, attr, text}`, which depends on the two
/// texts alone.
pub uninterp spec fn line_children_of(html: Seq<char>, selector: Seq<char>) -> Seq<
    Seq<(Option<Seq<char>>, Option<Seq<char>>, Seq<char>)>,
>;

/// The view of an optional attribute value.
pub open spec fn opt_view(o: Option<String>) -> Option<Seq<char>> {
    match o {
        Some(s) => Some(s@),
        None => None,
    }
}

/// The view of one extracted child: its class attribute, inline style
/// attribute, and text.
pub open spec fn child_view(c: (Option<String>, Option<String>, String)) -> (
    Option<Seq<char>>,
    Option<Seq<char>>,
    Seq<char>,
) {
    (opt_view(c.0), opt_view(c.1), c.2@)
}

/// Whether one extracted row carries exactly the row of the named model.
pub open spec fn row_matches(
    row: Seq<(Option<String>, Option<String>, String)>,
    mrow: Seq<(Option<Seq<char>>, Option<Seq<char>>, Seq<char>)>,
) -> bool {
    &&& row.len() == mrow.len()
    &&& forall|j: int| 0 <= j < row.len() ==> child_view(#[trigger] row[j]) == mrow[j]
}

/// Whether the extracted rows carry exactly the named model.
pub open spec fn rows_match(
    v: Seq<Vec<(Option<String>, Option<String>, String)>>,
    m: Seq<Seq<(Option<Seq<char>>, Option<Seq<char>>, Seq<char>)>>,
) -> bool {
    &&& v.len() == m.len()
    &&& forall|i: int| 0 <= i < v.len() ==> row_matches((#[trigger] v[i])@, m[i])
}

/// Relies on scraper's `Selector::parse`, `Html::parse_fragment`,
/// `Html::select` and `ElementRef::{child_elements, attr, text}`: compiles
/// the selector text (`None` exactly when the query engine rejects it),
/// parses the fragment — parsing does not fail hard — and reads out, for
/// each matching element in document order, the class attribute, inline
/// style attribute and text of each of its direct element children. Every
/// step is a function of the two texts, so the rows carry the named model.
#[verifier::external_body]
pub(crate) fn select_line_children(html: &str, selector: &str) -> (r: Option<
    Vec<Vec<(Option<String>, Option<String>, String)>>,
>)
    ensures
        r is Some <==> selector_ok(selector@),
        r matches Some(v) ==> rows_match(v@, line_children_of(html@, selector@)),
{
    let Ok(sel) = Selector::parse(selector) else {
        return None;
    };
    let fragment = Html::parse_fragment(html);
    Some(
        fragment.select(&sel).map(|el| {
            el.child_elements().map(|c| {
                (
                    c.attr("class").map(str::to_owned),
                    c.attr("style").map(str::to_owned),
                    c.text().collect::<String>(),
                )
            }).collect()
        }).collect(),
    )
}

} // verus!
