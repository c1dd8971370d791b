//! Looking up the structural elements of a page with scraper.
//!
//! Scraper reports, for each element that a query matches, its first class
//! and its inner markup. Lookups below an element read that inner markup
//! again as a fragment, wrapped in the table elements that the markup needs
//! around it; `page_outline` states the whole walk.

use vstd::prelude::*;

use scraper::{Html, Selector};

use crate::extract::{calendar_from_outline, page_calendar};
use crate::legacy::{Block, BlockPage, BlockView};
use crate::model::{opt_view, Calendar, CalendarView, ExtractionFailure};
use crate::outline::{cells_view, rows_view, texts_view, weeks_view, Cell, CellView, PageOutline, PageView, Week, WeekView};
use crate::text::{chars_of, extend_chars, string_of};

verus! {

#[verifier::external_type_specification]
#[verifier::external_body]
pub struct ExSelector(Selector);

/// What scraper finds for a query: for each matching element, in document
/// order, the first of its classes as scraper lists them (sorted, without
/// repeats) and its inner markup.
pub type Found = Seq<(Option<Seq<char>>, Seq<char>)>;

/// What scraper finds for `query` in `document` read as a whole document.
pub uninterp spec fn document_matches(document: Seq<char>, query: Seq<char>) -> Found;

/// What scraper finds for `query` in `fragment` read as a fragment of a body.
pub uninterp spec fn fragment_matches(fragment: Seq<char>, query: Seq<char>) -> Found;

/// The CSS queries that locate the parts of a timetable page.
pub open spec fn known_query(q: Seq<char>) -> bool {
    q == "title"@ || q == "select[name=year] > option[selected]"@ || q
        == "div.calendar > table.week_table > tbody"@ || q == "th.week_number"@ || q
        == "tr > td.week_header > nobr"@ || q == "tr"@ || q == "td"@ || q == "a"@ || q
        == "span.resource"@ || q == "span.person"@ || q == "#calendar"@ || q == "td.week_block"@
        || q == "table.infotable"@ || q == "div"@ || q == "strong"@
}

/// A compiled CSS query together with its text.
pub struct Query {
    text: String,
    compiled: Selector,
}

impl View for Query {
    type V = Seq<char>;

    closed spec fn view(&self) -> Seq<char> {
        self.text@
    }
}

/// Relies on scraper's `Selector::parse`: the compiled query, or none if
/// `text` is not one; each of the page's fixed queries compiles.
#[verifier::external_body]
fn compile(text: &str) -> (r: Option<Query>)
    ensures
        r is Some ==> r.unwrap()@ == text@,
        known_query(text@) ==> r is Some,
{
    Selector::parse(text).ok().map(|compiled| Query { text: text.to_string(), compiled })
}

pub open spec fn found_view(v: Seq<(Option<String>, String)>) -> Found {
    v.map_values(|p: (Option<String>, String)| (opt_view(p.0), p.1@))
}

/// Relies on scraper's `Html::parse_document`, `Html::select`,
/// `Element::classes` and `ElementRef::inner_html`; with scraper's
/// `deterministic` feature, attributes are kept and written in source order,
/// so the result depends on the document and the query alone.
#[verifier::external_body]
fn select_document(document: &str, q: &Query) -> (r: Vec<(Option<String>, String)>)
    ensures
        found_view(r@) == document_matches(document@, q@),
{
    Html::parse_document(document).select(&q.compiled).map(
        |e| (e.value().classes().next().map(String::from), e.inner_html()),
    ).collect()
}

/// Relies on scraper's `Html::parse_fragment`, `Html::select`,
/// `Element::classes` and `ElementRef::inner_html`; with scraper's
/// `deterministic` feature, attributes are kept and written in source order,
/// so the result depends on the fragment and the query alone.
#[verifier::external_body]
fn select_fragment(fragment: &str, q: &Query) -> (r: Vec<(Option<String>, String)>)
    ensures
        found_view(r@) == fragment_matches(fragment@, q@),
{
    Html::parse_fragment(fragment).select(&q.compiled).map(
        |e| (e.value().classes().next().map(String::from), e.inner_html()),
    ).collect()
}

/// The CSS queries that locate the parts of a timetable page, compiled once.
pub struct Selectors {
    pub title: Query,
    pub year: Query,
    pub weeks: Query,
    pub week_number: Query,
    pub week_start: Query,
    pub rows: Query,
    pub cells: Query,
    pub link: Query,
    pub resource: Query,
    pub person: Query,
    pub calendar: Query,
    pub week_block: Query,
    pub infotable: Query,
    pub div: Query,
    pub strong: Query,
}

impl Selectors {
    /// Each field holds the query of its part of the page.
    pub open spec fn wf(&self) -> bool {
        &&& self.title@ == "title"@
        &&& self.year@ == "select[name=year] > option[selected]"@
        &&& self.weeks@ == "div.calendar > table.week_table > tbody"@
        &&& self.week_number@ == "th.week_number"@
        &&& self.week_start@ == "tr > td.week_header > nobr"@
        &&& self.rows@ == "tr"@
        &&& self.cells@ == "td"@
        &&& self.link@ == "a"@
        &&& self.resource@ == "span.resource"@
        &&& self.person@ == "span.person"@
        &&& self.calendar@ == "#calendar"@
        &&& self.week_block@ == "td.week_block"@
        &&& self.infotable@ == "table.infotable"@
        &&& self.div@ == "div"@
        &&& self.strong@ == "strong"@
    }

    /// Compiles every query of the page.
    pub fn parse() -> (r: Selectors)
        ensures
            r.wf(),
    {
        Selectors {
            title: compile("title").unwrap(),
            year: compile("select[name=year] > option[selected]").unwrap(),
            weeks: compile("div.calendar > table.week_table > tbody").unwrap(),
            week_number: compile("th.week_number").unwrap(),
            week_start: compile("tr > td.week_header > nobr").unwrap(),
            rows: compile("tr").unwrap(),
            cells: compile("td").unwrap(),
            link: compile("a").unwrap(),
            resource: compile("span.resource").unwrap(),
            person: compile("span.person").unwrap(),
            calendar: compile("#calendar").unwrap(),
            week_block: compile("td.week_block").unwrap(),
            infotable: compile("table.infotable").unwrap(),
            div: compile("div").unwrap(),
            strong: compile("strong").unwrap(),
        }
    }
}

/// The inner markup of the first match, if there is one.
pub open spec fn first_of(m: Found) -> Option<Seq<char>> {
    if m.len() > 0 {
        Some(m[0].1)
    } else {
        None
    }
}

/// The inner markup of each match.
pub open spec fn inners(m: Found) -> Seq<Seq<char>> {
    m.map_values(|p: (Option<Seq<char>>, Seq<char>)| p.1)
}

/// The rows of a table body, as a fragment.
pub open spec fn in_table(inner: Seq<char>) -> Seq<char> {
    "<table>"@ + inner + "</table>"@
}

/// The cells of a row, as a fragment.
pub open spec fn in_row(inner: Seq<char>) -> Seq<char> {
    "<table><tr>"@ + inner + "</tr></table>"@
}

/// The content of a cell, as a fragment.
pub open spec fn in_cell(inner: Seq<char>) -> Seq<char> {
    "<table><tr><td>"@ + inner + "</td></tr></table>"@
}

pub open spec fn cell_of(class: Option<Seq<char>>, inner: Seq<char>) -> CellView {
    CellView {
        class,
        link: first_of(fragment_matches(in_cell(inner), "a"@)),
        resources: inners(fragment_matches(in_cell(inner), "span.resource"@)),
        persons: inners(fragment_matches(in_cell(inner), "span.person"@)),
    }
}

pub open spec fn row_of(inner: Seq<char>) -> Seq<CellView> {
    fragment_matches(in_row(inner), "td"@).map_values(
        |p: (Option<Seq<char>>, Seq<char>)| cell_of(p.0, p.1),
    )
}

pub open spec fn week_of(inner: Seq<char>) -> WeekView {
    WeekView {
        number: first_of(fragment_matches(in_table(inner), "th.week_number"@)),
        header: first_of(fragment_matches(in_table(inner), "tr > td.week_header > nobr"@)),
        rows: inners(fragment_matches(in_table(inner), "tr"@)).map_values(|r: Seq<char>| row_of(r)),
    }
}

/// The title, selected year and week tables that scraper finds in a page.
pub open spec fn page_outline(document: Seq<char>) -> PageView {
    PageView {
        title: first_of(document_matches(document, "title"@)),
        year: first_of(document_matches(document, "select[name=year] > option[selected]"@)),
        weeks: inners(document_matches(document, "div.calendar > table.week_table > tbody"@)).map_values(
            |w: Seq<char>| week_of(w),
        ),
    }
}

fn first_inner(found: &Vec<(Option<String>, String)>) -> (r: Option<String>)
    ensures
        opt_view(r) == first_of(found_view(found@)),
{
    if found.len() > 0 {
        Some(found[0].1.clone())
    } else {
        None
    }
}

fn inner_texts(found: &Vec<(Option<String>, String)>) -> (r: Vec<String>)
    ensures
        texts_view(r@) == inners(found_view(found@)),
{
    let mut out: Vec<String> = Vec::new();
    let mut i: usize = 0;
    while i < found.len()
        invariant
            i <= found@.len(),
            out@.len() == i,
            forall|k: int| 0 <= k < i ==> #[trigger] out@[k]@ == found@[k].1@,
        decreases found@.len() - i,
    {
        out.push(found[i].1.clone());
        i += 1;
    }
    assert(texts_view(out@) =~= inners(found_view(found@)));
    out
}

/// `pre`, then `inner`, then `post`.
fn wrapped(pre: &str, inner: &String, post: &str) -> (r: String)
    ensures
        r@ == pre@ + inner@ + post@,
{
    let mut out = chars_of(pre);
    extend_chars(&mut out, &chars_of(inner.as_str()));
    extend_chars(&mut out, &chars_of(post));
    string_of(&out)
}

fn read_cell(class: &Option<String>, inner: &String, s: &Selectors) -> (r: Cell)
    requires
        s.wf(),
    ensures
        r@ == cell_of(opt_view(*class), inner@),
{
    let f = wrapped("<table><tr><td>", inner, "</td></tr></table>");
    Cell {
        class: class.clone(),
        link: first_inner(&select_fragment(f.as_str(), &s.link)),
        resources: inner_texts(&select_fragment(f.as_str(), &s.resource)),
        persons: inner_texts(&select_fragment(f.as_str(), &s.person)),
    }
}

fn read_row(inner: &String, s: &Selectors) -> (r: Vec<Cell>)
    requires
        s.wf(),
    ensures
        cells_view(r@) == row_of(inner@),
{
    let f = wrapped("<table><tr>", inner, "</tr></table>");
    let tds = select_fragment(f.as_str(), &s.cells);
    let ghost m = found_view(tds@);
    let mut cells: Vec<Cell> = Vec::new();
    let mut j: usize = 0;
    while j < tds.len()
        invariant
            j <= tds@.len(),
            m == found_view(tds@),
            m == fragment_matches(in_row(inner@), "td"@),
            s.wf(),
            cells@.len() == j,
            forall|k: int| 0 <= k < j ==> #[trigger] cells@[k]@ == cell_of(m[k].0, m[k].1),
        decreases tds@.len() - j,
    {
        cells.push(read_cell(&tds[j].0, &tds[j].1, s));
        j += 1;
    }
    assert(cells_view(cells@) =~= row_of(inner@));
    cells
}

fn read_week(inner: &String, s: &Selectors) -> (r: Week)
    requires
        s.wf(),
    ensures
        r@ == week_of(inner@),
{
    let f = wrapped("<table>", inner, "</table>");
    let trs = inner_texts(&select_fragment(f.as_str(), &s.rows));
    let ghost rs = inners(fragment_matches(in_table(inner@), "tr"@));
    let mut rows: Vec<Vec<Cell>> = Vec::new();
    let mut i: usize = 0;
    while i < trs.len()
        invariant
            i <= trs@.len(),
            texts_view(trs@) == rs,
            s.wf(),
            rows@.len() == i,
            forall|k: int| 0 <= k < i ==> cells_view(#[trigger] rows@[k]@) == row_of(rs[k]),
        decreases trs@.len() - i,
    {
        rows.push(read_row(&trs[i], s));
        i += 1;
    }
    assert(rows_view(rows@) =~= rs.map_values(|r: Seq<char>| row_of(r)));
    Week {
        number: first_inner(&select_fragment(f.as_str(), &s.week_number)),
        header: first_inner(&select_fragment(f.as_str(), &s.week_start)),
        rows,
    }
}

/// Looks up the title, the selected year and the week tables of a page.
pub fn read_outline(document: &str, s: &Selectors) -> (r: PageOutline)
    requires
        s.wf(),
    ensures
        r@ == page_outline(document@),
{
    let bodies = inner_texts(&select_document(document, &s.weeks));
    let ghost ws = inners(document_matches(document@, "div.calendar > table.week_table > tbody"@));
    let mut weeks: Vec<Week> = Vec::new();
    let mut i: usize = 0;
    while i < bodies.len()
        invariant
            i <= bodies@.len(),
            texts_view(bodies@) == ws,
            s.wf(),
            weeks@.len() == i,
            forall|k: int| 0 <= k < i ==> #[trigger] weeks@[k]@ == week_of(ws[k]),
        decreases bodies@.len() - i,
    {
        weeks.push(read_week(&bodies[i], s));
        i += 1;
    }
    assert(weeks_view(weeks@) =~= ws.map_values(|w: Seq<char>| week_of(w)));
    PageOutline {
        title: first_inner(&select_document(document, &s.title)),
        year: first_inner(&select_document(document, &s.year)),
        weeks,
    }
}

/// The result of reading a page, as a value of views.
pub open spec fn calendar_result_view(r: Result<Calendar, ExtractionFailure>) -> Result<
    CalendarView,
    ExtractionFailure,
> {
    match r {
        Ok(c) => Ok(c@),
        Err(e) => Err(e),
    }
}

/// Reads a timetable page into a calendar: what `page_calendar` gives for
/// the elements that scraper finds in it.
pub fn parse_calendar(document: &str) -> (r: Result<Calendar, ExtractionFailure>)
    ensures
        calendar_result_view(r) == page_calendar(page_outline(document@)),
{
    let s = Selectors::parse();
    let outline = read_outline(document, &s);
    calendar_from_outline(&outline)
}

impl Calendar {
    /// Reads a timetable page into a calendar, as `parse_calendar` does.
    pub fn from_html(document: &str) -> (r: Result<Calendar, ExtractionFailure>)
        ensures
            calendar_result_view(r) == page_calendar(page_outline(document@)),
    {
        parse_calendar(document)
    }
}

pub open spec fn block_of(inner: Seq<char>) -> BlockView {
    let f = in_cell(inner);
    let tables = fragment_matches(f, "table.infotable"@);
    BlockView {
        kind: first_of(fragment_matches(f, "strong"@)),
        info: if tables.len() > 0 {
            Some(inners(fragment_matches(in_table(tables[0].1), "td"@)))
        } else {
            None
        },
        persons: inners(fragment_matches(f, "span.person"@)),
        divs: inners(fragment_matches(f, "div"@)),
        resources: inners(fragment_matches(f, "span.resource"@)),
    }
}

/// The event cells that scraper finds in a free-text page, and whether the
/// page holds the calendar.
pub open spec fn block_page(document: Seq<char>) -> (Seq<BlockView>, bool) {
    (
        inners(document_matches(document, "td.week_block"@)).map_values(|b: Seq<char>| block_of(b)),
        document_matches(document, "#calendar"@).len() > 0,
    )
}

fn read_block(inner: &String, s: &Selectors) -> (r: Block)
    requires
        s.wf(),
    ensures
        r@ == block_of(inner@),
{
    let f = wrapped("<table><tr><td>", inner, "</td></tr></table>");
    let tables = select_fragment(f.as_str(), &s.infotable);
    let info = if tables.len() > 0 {
        let t = wrapped("<table>", &tables[0].1, "</table>");
        Some(inner_texts(&select_fragment(t.as_str(), &s.cells)))
    } else {
        None
    };
    Block {
        kind: first_inner(&select_fragment(f.as_str(), &s.strong)),
        info,
        persons: inner_texts(&select_fragment(f.as_str(), &s.person)),
        divs: inner_texts(&select_fragment(f.as_str(), &s.div)),
        resources: inner_texts(&select_fragment(f.as_str(), &s.resource)),
    }
}

/// Looks up the calendar and the event cells of a free-text page.
pub fn read_block_page(document: &str, s: &Selectors) -> (r: BlockPage)
    requires
        s.wf(),
    ensures
        crate::legacy::blocks_view(r.blocks@) == block_page(document@).0,
        r.has_calendar == block_page(document@).1,
{
    let has_calendar = select_document(document, &s.calendar).len() > 0;
    let found = inner_texts(&select_document(document, &s.week_block));
    let ghost bs = inners(document_matches(document@, "td.week_block"@));
    let mut blocks: Vec<Block> = Vec::new();
    let mut i: usize = 0;
    while i < found.len()
        invariant
            i <= found@.len(),
            texts_view(found@) == bs,
            s.wf(),
            blocks@.len() == i,
            forall|k: int| 0 <= k < i ==> #[trigger] blocks@[k]@ == block_of(bs[k]),
        decreases found@.len() - i,
    {
        blocks.push(read_block(&found[i], s));
        i += 1;
    }
    assert(crate::legacy::blocks_view(blocks@) =~= bs.map_values(|b: Seq<char>| block_of(b)));
    BlockPage { has_calendar, blocks }
}

} // verus!
