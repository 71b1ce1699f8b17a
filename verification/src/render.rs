//! The grid renderer: the timetable as a table of text, one column per day of
//! the bounding box and one row per period, with a label before each.

use vstd::prelude::*;
use vstd::string::*;
use cli_table::{Cell, CellStruct, ColorChoice, Style, Table};
use crate::grid::{bounds_of, Span};
use crate::text::{decimal, decimal_string, strings_view};
use crate::timetable::{occupant, Timetable, TimetableView};

verus! {

/// The label above the column of `day`.
pub open spec fn day_label(day: usize) -> Seq<char> {
    seq!['D', 'a', 'y', ' '] + decimal(day as nat)
}

/// The label before the row of `period`.
pub open spec fn period_label(period: usize) -> Seq<char> {
    seq!['P', 'e', 'r', 'i', 'o', 'd', ' '] + decimal(period as nat)
}

/// The text in the cell of (`day`, `period`): the name of the class that
/// occupies the slot, or nothing.
pub open spec fn cell_of(t: TimetableView, day: usize, period: usize) -> Seq<char> {
    match occupant(t, day, period) {
        Some(class) => class.name,
        None => Seq::empty(),
    }
}

/// How many indices `span` covers.
pub open spec fn extent_of(span: Span) -> nat {
    (span.max - span.min + 1) as nat
}

/// The header row: an empty corner, then the label of each day of `days` in
/// ascending order.
pub open spec fn header_of(days: Span) -> Seq<Seq<char>> {
    Seq::new(
        extent_of(days) + 1,
        |i: int|
            if i == 0 {
                Seq::empty()
            } else {
                day_label((days.min + i - 1) as usize)
            },
    )
}

/// The row of `period`: its label, then its cell for each day of `days` in
/// ascending order.
pub open spec fn row_of(t: TimetableView, days: Span, period: usize) -> Seq<Seq<char>> {
    Seq::new(
        extent_of(days) + 1,
        |i: int|
            if i == 0 {
                period_label(period)
            } else {
                cell_of(t, (days.min + i - 1) as usize, period)
            },
    )
}

/// The rows of the periods of `periods`, in ascending order.
pub open spec fn rows_of(t: TimetableView, days: Span, periods: Span) -> Seq<Seq<Seq<char>>> {
    Seq::new(extent_of(periods), |j: int| row_of(t, days, (periods.min + j) as usize))
}

/// The texts of a sequence of rows of strings.
pub open spec fn rows_view(rows: Seq<Vec<String>>) -> Seq<Seq<Seq<char>>> {
    Seq::new(rows.len(), |j: int| strings_view(rows[j]@))
}

/// What there is to show of a timetable.
#[derive(Debug)]
pub enum Rendering {
    /// The grid knows no day at all.
    NoTimetable,
    /// The grid knows days, and none of them has a period.
    AllDaysEmpty,
    /// The table: its header row and its rows, all of the same length.
    Grid { header: Vec<String>, rows: Vec<Vec<String>> },
}

/// A rendering as plain text.
pub enum RenderingView {
    NoTimetable,
    AllDaysEmpty,
    Grid { header: Seq<Seq<char>>, rows: Seq<Seq<Seq<char>>> },
}

impl View for Rendering {
    type V = RenderingView;

    open spec fn view(&self) -> RenderingView {
        match self {
            Rendering::NoTimetable => RenderingView::NoTimetable,
            Rendering::AllDaysEmpty => RenderingView::AllDaysEmpty,
            Rendering::Grid { header, rows } => RenderingView::Grid {
                header: strings_view(header@),
                rows: rows_view(rows@),
            },
        }
    }
}

impl Rendering {
    /// The text to print for this rendering, given what the table renderer
    /// drew for its grid: a sentence on a line of its own where there is no
    /// table to show, else `drawn` as it is.
    pub fn text_from(&self, drawn: Option<String>) -> (text: Option<String>)
        ensures
            match self@ {
                RenderingView::NoTimetable => text matches Some(t) && t@
                    == "No timetable made!\n"@,
                RenderingView::AllDaysEmpty => text matches Some(t) && t@
                    == "All days are empty!\n"@,
                RenderingView::Grid { .. } => text == drawn,
            },
    {
        match self {
            Rendering::NoTimetable => Some(String::from_str("No timetable made!\n")),
            Rendering::AllDaysEmpty => Some(String::from_str("All days are empty!\n")),
            Rendering::Grid { .. } => drawn,
        }
    }

    /// The rendering as the text to print, line ends included: a sentence
    /// where there is no table to show, else the table as the table renderer
    /// draws it, with the labels of the days and of the periods in bold.
    pub fn text(&self) -> (text: String)
        ensures
            text@ == text_of(self@),
    {
        let drawn = match self {
            Rendering::Grid { header, rows } => {
                let title = style_row(header, false, true);
                let cells = style_rows(rows);
                draw_table(&title, &cells)
            },
            _ => None,
        };
        self.text_from(drawn).unwrap()
    }
}

/// The rendering of a timetable: over its bounding box, with days as columns
/// and periods as rows.
pub open spec fn rendering_of(t: TimetableView) -> RenderingView {
    match bounds_of(t.grid) {
        None => RenderingView::NoTimetable,
        Some(bounds) => match bounds.periods {
            None => RenderingView::AllDaysEmpty,
            Some(periods) => RenderingView::Grid {
                header: header_of(bounds.days),
                rows: rows_of(t, bounds.days, periods),
            },
        },
    }
}

/// A cell of a table to draw: its text, and whether it is set in bold.
#[derive(Debug)]
pub struct StyledCell {
    pub text: String,
    pub bold: bool,
}

/// A styled cell as plain values.
pub struct StyledCellView {
    pub text: Seq<char>,
    pub bold: bool,
}

impl View for StyledCell {
    type V = StyledCellView;

    open spec fn view(&self) -> StyledCellView {
        StyledCellView { text: self.text@, bold: self.bold }
    }
}

/// The views of a row of styled cells.
pub open spec fn cells_view(cells: Seq<StyledCell>) -> Seq<StyledCellView> {
    Seq::new(cells.len(), |i: int| cells[i]@)
}

/// The views of rows of styled cells.
pub open spec fn cell_rows_view(rows: Seq<Vec<StyledCell>>) -> Seq<Seq<StyledCellView>> {
    Seq::new(rows.len(), |j: int| cells_view(rows[j]@))
}

/// The cells of a row of texts: the first is bold if `first` says so, each of
/// the others if `rest` says so.
pub open spec fn styled(texts: Seq<Seq<char>>, first: bool, rest: bool) -> Seq<StyledCellView> {
    Seq::new(
        texts.len(),
        |i: int|
            StyledCellView {
                text: texts[i],
                bold: if i == 0 {
                    first
                } else {
                    rest
                },
            },
    )
}

/// The cells of the rows below the header: in each row the label of the
/// period is bold, the names of the classes are plain.
pub open spec fn styled_rows(rows: Seq<Seq<Seq<char>>>) -> Seq<Seq<StyledCellView>> {
    Seq::new(rows.len(), |j: int| styled(rows[j], true, false))
}

/// The text that `cli_table` draws for a table with the title row `header`
/// above the rows `rows`, bold marked by ANSI escape sequences.
pub uninterp spec fn table_text(
    header: Seq<StyledCellView>,
    rows: Seq<Seq<StyledCellView>>,
) -> Seq<char>;

/// The text to print for a rendering, line ends included: the sentence that
/// stands for a missing table, or the table with the day labels of the
/// header and the period label of each row in bold.
pub open spec fn text_of(rendering: RenderingView) -> Seq<char> {
    match rendering {
        RenderingView::NoTimetable => "No timetable made!\n"@,
        RenderingView::AllDaysEmpty => "All days are empty!\n"@,
        RenderingView::Grid { header, rows } => table_text(
            styled(header, false, true),
            styled_rows(rows),
        ),
    }
}

/// Draws a table with `cli_table`: every cell is made of its text by
/// `Cell::cell` and `Style::bold`, the rows become a table by `Table::table`
/// with `header` as its `title`, and `TableStruct::display` gives the text.
/// `ColorChoice::AlwaysAnsi` makes the drawing write ANSI escape sequences
/// into buffers in memory, on every platform and whatever the terminal is.
/// So the text depends on the cells alone, which is why it has a name, and
/// `display` cannot fail, which is why a text is promised.
#[verifier::external_body]
fn draw_table(header: &Vec<StyledCell>, rows: &Vec<Vec<StyledCell>>) -> (text: Option<String>)
    ensures
        text is Some,
        text matches Some(t) ==> t@ == table_text(cells_view(header@), cell_rows_view(rows@)),
{
    let title: Vec<CellStruct> =
        header.iter().map(|c| c.text.as_str().cell().bold(c.bold)).collect();
    let cells: Vec<Vec<CellStruct>> = rows.iter().map(
        |row| row.iter().map(|c| c.text.as_str().cell().bold(c.bold)).collect(),
    ).collect();
    match cells.table().title(title).color_choice(ColorChoice::AlwaysAnsi).display() {
        Ok(display) => Some(display.to_string()),
        Err(_) => None,
    }
}

/// The styled cells of a row of texts.
fn style_row(texts: &Vec<String>, first: bool, rest: bool) -> (cells: Vec<StyledCell>)
    ensures
        cells_view(cells@) == styled(strings_view(texts@), first, rest),
{
    let mut cells: Vec<StyledCell> = Vec::new();
    let mut i: usize = 0;
    while i < texts.len()
        invariant
            i <= texts.len(),
            cells@.len() == i,
            forall|k: int|
                0 <= k < i ==> (#[trigger] cells@[k])@ == styled(
                    strings_view(texts@),
                    first,
                    rest,
                )[k],
        decreases texts.len() - i,
    {
        let bold = if i == 0 {
            first
        } else {
            rest
        };
        cells.push(StyledCell { text: texts[i].clone(), bold });
        i = i + 1;
    }
    assert(cells_view(cells@) =~= styled(strings_view(texts@), first, rest));
    cells
}

/// The styled cells of the rows below the header.
fn style_rows(rows: &Vec<Vec<String>>) -> (grid: Vec<Vec<StyledCell>>)
    ensures
        cell_rows_view(grid@) == styled_rows(rows_view(rows@)),
{
    let mut grid: Vec<Vec<StyledCell>> = Vec::new();
    let mut j: usize = 0;
    while j < rows.len()
        invariant
            j <= rows.len(),
            grid@.len() == j,
            forall|k: int|
                0 <= k < j ==> cells_view((#[trigger] grid@[k])@) == styled(
                    strings_view(rows@[k]@),
                    true,
                    false,
                ),
        decreases rows.len() - j,
    {
        grid.push(style_row(&rows[j], true, false));
        j = j + 1;
    }
    assert(cell_rows_view(grid@) =~= styled_rows(rows_view(rows@)));
    grid
}

/// `prefix` followed by `n` in decimal.
fn label(prefix: &str, n: usize) -> (text: String)
    ensures
        text@ == prefix@ + decimal(n as nat),
{
    let mut text = String::from_str(prefix);
    let digits = decimal_string(n);
    text.append(digits.as_str());
    text
}

impl Timetable {
    /// The header row for the days of `days`.
    fn header(days: Span) -> (header: Vec<String>)
        requires
            days.min <= days.max,
        ensures
            strings_view(header@) == header_of(days),
    {
        proof {
            reveal_strlit("Day ");
            reveal_strlit("");
        }
        assert("Day "@ =~= seq!['D', 'a', 'y', ' ']);
        assert(""@ =~= Seq::<char>::empty());
        let mut header: Vec<String> = Vec::new();
        header.push(String::from_str(""));
        header.push(label("Day ", days.min));
        let mut day = days.min;
        assert(strings_view(header@) =~= header_of(days).take(2));
        while day < days.max
            invariant
                days.min <= day <= days.max,
                header@.len() == day - days.min + 2,
                strings_view(header@) == header_of(days).take(day - days.min + 2),
                "Day "@ == seq!['D', 'a', 'y', ' '],
            decreases days.max - day,
        {
            let ghost before = header@;
            day = day + 1;
            header.push(label("Day ", day));
            assert forall|k: int| 0 <= k < header@.len() implies strings_view(header@)[k]
                == header_of(days)[k] by {
                if k < before.len() {
                    assert(strings_view(before)[k] == header_of(days).take(
                        before.len() as int,
                    )[k]);
                }
            }
            assert(strings_view(header@) =~= header_of(days).take(day - days.min + 2));
        }
        assert(header_of(days).take(days.max - days.min + 2) =~= header_of(days));
        header
    }

    /// The row of `period` over the days of `days`.
    fn row(&self, days: Span, period: usize) -> (row: Vec<String>)
        requires
            days.min <= days.max,
        ensures
            strings_view(row@) == row_of(self@, days, period),
    {
        proof {
            reveal_strlit("Period ");
        }
        assert("Period "@ =~= seq!['P', 'e', 'r', 'i', 'o', 'd', ' ']);
        let mut row: Vec<String> = Vec::new();
        row.push(label("Period ", period));
        row.push(self.cell(days.min, period));
        let mut day = days.min;
        assert(strings_view(row@) =~= row_of(self@, days, period).take(2));
        while day < days.max
            invariant
                days.min <= day <= days.max,
                row@.len() == day - days.min + 2,
                strings_view(row@) == row_of(self@, days, period).take(day - days.min + 2),
            decreases days.max - day,
        {
            let ghost before = row@;
            day = day + 1;
            row.push(self.cell(day, period));
            assert forall|k: int| 0 <= k < row@.len() implies strings_view(row@)[k] == row_of(
                self@,
                days,
                period,
            )[k] by {
                if k < before.len() {
                    assert(strings_view(before)[k] == row_of(self@, days, period).take(
                        before.len() as int,
                    )[k]);
                }
            }
            assert(strings_view(row@) =~= row_of(self@, days, period).take(
                day - days.min + 2,
            ));
        }
        assert(row_of(self@, days, period).take(days.max - days.min + 2) =~= row_of(
            self@,
            days,
            period,
        ));
        row
    }

    /// The text in the cell of (`day`, `period`).
    fn cell(&self, day: usize, period: usize) -> (text: String)
        ensures
            text@ == cell_of(self@, day, period),
    {
        match self.get_class(day, period) {
            Some(class) => class.name.clone(),
            None => {
                proof {
                    reveal_strlit("");
                }
                assert(""@ =~= Seq::<char>::empty());
                String::from_str("")
            },
        }
    }

    /// Renders the timetable: a header row with the label of each day from
    /// the least to the greatest known day, and one row for each period from
    /// the least to the greatest occupied period.
    pub fn render(&self) -> (rendering: Rendering)
        ensures
            rendering@ == rendering_of(self@),
    {
        let bounds = match self.grid.bounding_box() {
            Some(bounds) => bounds,
            None => {
                return Rendering::NoTimetable;
            },
        };
        let periods = match bounds.periods {
            Some(periods) => periods,
            None => {
                return Rendering::AllDaysEmpty;
            },
        };
        let days = bounds.days;
        let header = Self::header(days);
        let mut rows: Vec<Vec<String>> = Vec::new();
        rows.push(self.row(days, periods.min));
        let mut period = periods.min;
        assert(rows_view(rows@) =~= rows_of(self@, days, periods).take(1));
        while period < periods.max
            invariant
                days.min <= days.max,
                periods.min <= period <= periods.max,
                rows@.len() == period - periods.min + 1,
                rows_view(rows@) == rows_of(self@, days, periods).take(period - periods.min + 1),
            decreases periods.max - period,
        {
            let ghost before = rows@;
            period = period + 1;
            rows.push(self.row(days, period));
            assert forall|k: int| 0 <= k < rows@.len() implies rows_view(rows@)[k] == rows_of(
                self@,
                days,
                periods,
            )[k] by {
                if k < before.len() {
                    assert(rows_view(before)[k] == rows_of(self@, days, periods).take(
                        before.len() as int,
                    )[k]);
                }
            }
            assert(rows_view(rows@) =~= rows_of(self@, days, periods).take(
                period - periods.min + 1,
            ));
        }
        assert(rows_of(self@, days, periods).take(periods.max - periods.min + 1) =~= rows_of(
            self@,
            days,
            periods,
        ));
        Rendering::Grid { header, rows }
    }
}

} // verus!
