//! What the extraction reads from a page, as plain values: the text of each
//! structural element that it looks up.

use vstd::prelude::*;

verus! {

/// A table cell of a week: the first of its classes as scraper lists them,
/// the inner markup of its first link, and that of its resource and person
/// spans.
#[derive(Clone, Debug)]
pub struct Cell {
    pub class: Option<String>,
    pub link: Option<String>,
    pub resources: Vec<String>,
    pub persons: Vec<String>,
}

/// A week table: its week-number header, its start-date header and its rows
/// of cells, the header row first.
#[derive(Clone, Debug)]
pub struct Week {
    pub number: Option<String>,
    pub header: Option<String>,
    pub rows: Vec<Vec<Cell>>,
}

/// A whole page: its title, its selected year and its week tables.
#[derive(Clone, Debug)]
pub struct PageOutline {
    pub title: Option<String>,
    pub year: Option<String>,
    pub weeks: Vec<Week>,
}

pub struct CellView {
    pub class: Option<Seq<char>>,
    pub link: Option<Seq<char>>,
    pub resources: Seq<Seq<char>>,
    pub persons: Seq<Seq<char>>,
}

pub struct WeekView {
    pub number: Option<Seq<char>>,
    pub header: Option<Seq<char>>,
    pub rows: Seq<Seq<CellView>>,
}

pub struct PageView {
    pub title: Option<Seq<char>>,
    pub year: Option<Seq<char>>,
    pub weeks: Seq<WeekView>,
}

pub open spec fn texts_view(v: Seq<String>) -> Seq<Seq<char>> {
    v.map_values(|s: String| s@)
}

pub open spec fn cells_view(v: Seq<Cell>) -> Seq<CellView> {
    v.map_values(|c: Cell| c@)
}

pub open spec fn rows_view(v: Seq<Vec<Cell>>) -> Seq<Seq<CellView>> {
    v.map_values(|r: Vec<Cell>| cells_view(r@))
}

pub open spec fn weeks_view(v: Seq<Week>) -> Seq<WeekView> {
    v.map_values(|w: Week| w@)
}

impl View for Cell {
    type V = CellView;

    open spec fn view(&self) -> CellView {
        CellView {
            class: crate::model::opt_view(self.class),
            link: crate::model::opt_view(self.link),
            resources: texts_view(self.resources@),
            persons: texts_view(self.persons@),
        }
    }
}

impl View for Week {
    type V = WeekView;

    open spec fn view(&self) -> WeekView {
        WeekView {
            number: crate::model::opt_view(self.number),
            header: crate::model::opt_view(self.header),
            rows: rows_view(self.rows@),
        }
    }
}

impl View for PageOutline {
    type V = PageView;

    open spec fn view(&self) -> PageView {
        PageView {
            title: crate::model::opt_view(self.title),
            year: crate::model::opt_view(self.year),
            weeks: weeks_view(self.weeks@),
        }
    }
}

} // verus!
