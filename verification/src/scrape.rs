//! The trusted boundary to the `scraper` crate: the HTML document, CSS
//! selectors and element handles are opaque here, and each call the parser
//! makes is wrapped in one function whose contract says what the call yields
//! in terms of the named row data below.

use vstd::prelude::*;

use crate::model::{AnchorModel, RowModel};

verus! {

#[verifier::external_type_specification]
#[verifier::external_body]
pub struct ExHtml(scraper::Html);

#[verifier::external_type_specification]
#[verifier::external_body]
pub struct ExSelector(scraper::Selector);

#[verifier::external_type_specification]
#[verifier::external_body]
pub struct ExElementRef<'a>(scraper::ElementRef<'a>);

/// The workout rows that the given markup holds: container order, then row
/// order within each container.
pub uninterp spec fn rows_in(html: Seq<char>) -> Seq<RowModel>;

/// The workout rows that a parsed document holds.
pub uninterp spec fn doc_rows(d: scraper::Html) -> Seq<RowModel>;

/// The workout rows under one workout-table container, in document order.
pub uninterp spec fn table_rows(t: scraper::ElementRef) -> Seq<RowModel>;

/// The title anchors under one row element, in document order.
pub uninterp spec fn row_titles(r: scraper::ElementRef) -> Seq<AnchorModel>;

/// The inner markup of each date cell under one row element, in document order.
pub uninterp spec fn row_dates(r: scraper::ElementRef) -> Seq<Seq<char>>;

/// The first text node of each distance cell under one row element, in
/// document order.
pub uninterp spec fn row_distances(r: scraper::ElementRef) -> Seq<Option<Seq<char>>>;

/// The inner markup of one element.
pub uninterp spec fn inner_html_of(e: scraper::ElementRef) -> Seq<char>;

/// The value of one element's `href` attribute, when it has one.
pub uninterp spec fn href_of(e: scraper::ElementRef) -> Option<Seq<char>>;

/// The first descendant text node of one element, when it has one.
pub uninterp spec fn first_text_of(e: scraper::ElementRef) -> Option<Seq<char>>;

/// The field data of one row element.
pub open spec fn row_model(r: scraper::ElementRef) -> RowModel {
    RowModel { titles: row_titles(r), dates: row_dates(r), distances: row_distances(r) }
}

/// The anchor data of one title anchor element.
pub open spec fn anchor_model(a: scraper::ElementRef) -> AnchorModel {
    AnchorModel { text: inner_html_of(a), href: href_of(a) }
}

/// The selector list for the workout-table containers.
pub open spec fn table_css() -> Seq<char> {
    ".workout-table"@
}

/// The selector list for the workout rows within a container.
pub open spec fn row_css() -> Seq<char> {
    ".workoutRows"@
}

/// The selector list for the title anchors within a row.
pub open spec fn title_css() -> Seq<char> {
    ".title a"@
}

/// The selector list for the date cells within a row.
pub open spec fn date_css() -> Seq<char> {
    ".six"@
}

/// The selector list for the distance cells within a row.
pub open spec fn distance_css() -> Seq<char> {
    ".three"@
}

/// A parsed CSS selector together with the selector list it was parsed from.
pub struct Sel {
    sel: scraper::Selector,
    css: Ghost<Seq<char>>,
}

impl Sel {
    /// The selector list this selector was parsed from.
    pub closed spec fn css(self) -> Seq<char> {
        self.css@
    }
}

/// Relies on scraper::Selector::parse: each of the five selector lists the
/// precondition admits is valid CSS, so parsing cannot fail, and the returned
/// value denotes the selector that was parsed.
#[verifier::external_body]
fn parse_selector_raw(css: &str) -> scraper::Selector
    requires
        css@ == table_css() || css@ == row_css() || css@ == title_css() || css@ == date_css()
            || css@ == distance_css(),
{
    scraper::Selector::parse(css).unwrap()
}

/// A selector tagged with the selector list it was parsed from.
pub(crate) fn parse_selector(css: &str) -> (s: Sel)
    requires
        css@ == table_css() || css@ == row_css() || css@ == title_css() || css@ == date_css()
            || css@ == distance_css(),
    ensures
        s.css() == css@,
{
    Sel { sel: parse_selector_raw(css), css: Ghost(css@) }
}

/// Relies on scraper::Html::parse_document: parsing is total and a pure
/// function of the markup, so the rows the returned document holds are the
/// rows of the markup itself.
#[verifier::external_body]
pub(crate) fn parse_document(html: &str) -> (d: scraper::Html)
    ensures
        doc_rows(d) == rows_in(html@),
{
    scraper::Html::parse_document(html)
}

/// Relies on scraper::Html::select: with the workout-table selector it yields
/// the matching containers in document order, and the rows of the document are
/// the rows under those containers, concatenated in that order.
#[verifier::external_body]
pub(crate) fn select_doc<'a>(d: &'a scraper::Html, s: &Sel) -> (es: Vec<scraper::ElementRef<'a>>)
    ensures
        s.css() == table_css() ==> es@.map_values(|t| table_rows(t)).flatten() == doc_rows(*d),
{
    d.select(&s.sel).collect()
}

/// Relies on scraper::ElementRef::select: it yields the matching descendant
/// elements in document order, so each selector below recovers the row data
/// named above.
#[verifier::external_body]
pub(crate) fn select_elem<'a>(e: &scraper::ElementRef<'a>, s: &Sel) -> (es: Vec<
    scraper::ElementRef<'a>,
>)
    ensures
        s.css() == row_css() ==> es@.map_values(|r| row_model(r)) == table_rows(*e),
        s.css() == title_css() ==> es@.map_values(|a| anchor_model(a)) == row_titles(*e),
        s.css() == date_css() ==> es@.map_values(|c| inner_html_of(c)) == row_dates(*e),
        s.css() == distance_css() ==> es@.map_values(|c| first_text_of(c)) == row_distances(*e),
{
    e.select(&s.sel).collect()
}

/// Relies on scraper::ElementRef::inner_html: the serialized markup of the
/// element's children, a pure function of the element.
#[verifier::external_body]
pub(crate) fn inner_html(e: &scraper::ElementRef) -> (s: String)
    ensures
        s@ == inner_html_of(*e),
{
    e.inner_html()
}

/// Relies on scraper::ElementRef::attr: the value of the element's `href`
/// attribute, when the element has one.
#[verifier::external_body]
pub(crate) fn href_attr(e: &scraper::ElementRef) -> (h: Option<String>)
    ensures
        h.deep_view() == href_of(*e),
{
    e.attr("href").map(str::to_owned)
}

/// Relies on scraper::ElementRef::text, an iterator over the element's
/// descendant text nodes in document order: its first item, when one exists.
#[verifier::external_body]
pub(crate) fn first_text(e: &scraper::ElementRef) -> (t: Option<String>)
    ensures
        t.deep_view() == first_text_of(*e),
{
    e.text().next().map(str::to_owned)
}

} // verus!
