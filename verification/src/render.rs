//! The HTML page that an exported card is laid out from.
use vstd::prelude::*;

use crate::card::App;
use crate::spectrum::{Quadrant, Spectrum};

verus! {

/// The start of a table row, up to the spectrum's name.
pub const ROW_OPEN: &'static str = "\n                <tr>\n                    <td>";

/// Between the spectrum's name and its value.
pub const ROW_MIDDLE: &'static str = "</td>\n                    <td>";

/// The end of a table row.
pub const ROW_CLOSE: &'static str = "</td>\n                </tr>\n                ";

/// The page up to the person's name.
pub const PAGE_OPEN: &'static str = "\n            <html>\n                <head>\n                    <style>\n                        body {\n                            font-family: \"DejaVu Sans\";\n                            font-size: 8pt;\n                            padding: 5mm;\n                        }\n\n                        table {\n                            width: 100%;\n                            border-collapse: collapse;\n                        }\n\n                        th {\n                            font-family: \"DejaVu Sans Bold\";\n                            font-size: 12pt;\n                            text-align: left;\n                            padding-bottom: 2mm;\n                        }\n\n                        td {\n                            padding-top: 1.0mm;\n                            padding-bottom: 1.0mm;\n                            text-align: left;\n                        }\n\n                        th:first-child,\n                        td:first-child {\n                            width: 65%;\n                        }\n\n                        th:last-child,\n                        td:last-child {\n                            width: 35%;\n                        }\n                    </style>\n                </head>\n\n                <body>\n                    <table>\n                        <thead>\n                            <tr>\n                                <th>";

/// Between the name and the pronouns.
pub const PAGE_PRONOUNS: &'static str = " (";

/// Between the pronouns and the rows.
pub const PAGE_ROWS: &'static str = ")</th>\n                            </tr>\n                        </thead>\n\n                        <tbody>\n                            ";

/// The rest of the page after the rows.
pub const PAGE_CLOSE: &'static str = "\n                        </tbody>\n                    </table>\n                </body>\n            </html>\n            ";

/// The text of a card cell for a spectrum: the quadrant's name, "U" for an
/// unknown spectrum, and `number_text` (the number as it is written out) for a number.
pub open spec fn cell_spec(value: Spectrum, number_text: Seq<char>) -> Seq<char> {
    match value {
        Spectrum::Quadrants(quadrant) => quadrant.label_spec(),
        Spectrum::Unknown => "U"@,
        Spectrum::Number(_) => number_text,
    }
}

/// One table row: the spectrum's name, then its cell.
pub open spec fn row_spec(name: Seq<char>, cell: Seq<char>) -> Seq<char> {
    ROW_OPEN@ + name + ROW_MIDDLE@ + cell + ROW_CLOSE@
}

/// The rows of all cells, one after another in order.
pub open spec fn rows_spec(cells: Seq<(Seq<char>, Seq<char>)>) -> Seq<char>
    decreases cells.len(),
{
    if cells.len() == 0 {
        Seq::empty()
    } else {
        rows_spec(cells.drop_last()) + row_spec(cells.last().0, cells.last().1)
    }
}

/// The whole page: a table headed by the name and pronouns, with the rows as its body.
pub open spec fn page_spec(name: Seq<char>, pronouns: Seq<char>, rows: Seq<char>) -> Seq<char> {
    PAGE_OPEN@ + name + PAGE_PRONOUNS@ + pronouns + PAGE_ROWS@ + rows + PAGE_CLOSE@
}

/// Pairs of strings as pairs of character sequences.
pub open spec fn text_pairs(cells: Seq<(String, String)>) -> Seq<(Seq<char>, Seq<char>)> {
    cells.map_values(|cell: (String, String)| (cell.0@, cell.1@))
}

/// The cells of a card: each spectrum's name with its cell text, where
/// `number_texts[i]` is how the number of spectrum `i` is written out.
pub open spec fn cells_spec(spectrums: Seq<(String, Spectrum)>, number_texts: Seq<String>) -> Seq<
    (Seq<char>, Seq<char>),
> {
    Seq::new(
        spectrums.len(),
        |i: int| (spectrums[i].0@, cell_spec(spectrums[i].1, number_texts[i]@)),
    )
}

/// The text of the card cell for `value`; `number_text` is how its number
/// is written out, used only when `value` is a number.
pub fn cell_text(value: &Spectrum, number_text: &str) -> (text: String)
    ensures
        text@ == cell_spec(*value, number_text@),
        value matches Spectrum::Quadrants(q) ==> text@ == q.label_spec(),
        *value is Unknown ==> text@ == "U"@,
        *value is Number ==> text@ == number_text@,
{
    match value {
        Spectrum::Quadrants(quadrant) => quadrant.label(),
        Spectrum::Unknown => String::from_str("U"),
        Spectrum::Number(_) => String::from_str(number_text),
    }
}

/// The table rows for `cells`, each a name and the text beside it, in order.
pub fn render_rows(cells: &Vec<(String, String)>) -> (rows: String)
    ensures
        rows@ == rows_spec(text_pairs(cells@)),
{
    let ghost all = text_pairs(cells@);
    let mut rows = String::new();
    let mut i: usize = 0;
    while i < cells.len()
        invariant
            i <= cells.len(),
            all == text_pairs(cells@),
            rows@ == rows_spec(all.take(i as int)),
        decreases cells.len() - i,
    {
        rows.append(ROW_OPEN);
        rows.append(cells[i].0.as_str());
        rows.append(ROW_MIDDLE);
        rows.append(cells[i].1.as_str());
        rows.append(ROW_CLOSE);
        assert(all.take(i + 1).drop_last() =~= all.take(i as int));
        assert(all.take(i + 1).last() == all[i as int]);
        i += 1;
    }
    assert(all.take(cells.len() as int) =~= all);
    rows
}

/// The page for a card with this name, these pronouns and these rows.
pub fn render_page(name: &str, pronouns: &str, rows: &str) -> (page: String)
    ensures
        page@ == page_spec(name@, pronouns@, rows@),
        page@ == PAGE_OPEN@ + name@ + PAGE_PRONOUNS@ + pronouns@ + PAGE_ROWS@ + rows@ + PAGE_CLOSE@,
{
    let mut page = String::from_str(PAGE_OPEN);
    page.append(name);
    page.append(PAGE_PRONOUNS);
    page.append(pronouns);
    page.append(PAGE_ROWS);
    page.append(rows);
    page.append(PAGE_CLOSE);
    page
}

/// The rows of two lists of cells, one after the other, are the rows of the
/// first list followed by the rows of the second: each cell gets its own row,
/// in order.
pub proof fn law_rows_concatenate(
    first: Seq<(Seq<char>, Seq<char>)>,
    second: Seq<(Seq<char>, Seq<char>)>,
)
    ensures
        rows_spec(first + second) == rows_spec(first) + rows_spec(second),
    decreases second.len(),
{
    if second.len() == 0 {
        assert(first + second =~= first);
        assert(rows_spec(second) =~= Seq::<char>::empty());
    } else {
        law_rows_concatenate(first, second.drop_last());
        assert((first + second).drop_last() =~= first + second.drop_last());
        assert((first + second).last() == second.last());
    }
}

/// The cell of a quadrant spectrum is that quadrant's own name, the cell of
/// an unknown spectrum is "U", and the cell of a number, whatever the number
/// (zero included), is the text it is written out as.
pub proof fn law_cell_text()
    ensures
        forall|q: Quadrant, t: Seq<char>|
            #[trigger] cell_spec(Spectrum::Quadrants(q), t) == q.label_spec(),
        forall|t: Seq<char>| #[trigger] cell_spec(Spectrum::Unknown, t) == "U"@,
        forall|bits: u32, t: Seq<char>| #[trigger] cell_spec(Spectrum::Number(bits), t) == t,
{
}

/// A card has one cell per spectrum, in order: cell `i` carries spectrum
/// `i`'s name, and the text of its own value (the quadrant's name, "U", or
/// `number_texts[i]` for any number).
pub proof fn law_cells_follow_spectrums(
    spectrums: Seq<(String, Spectrum)>,
    number_texts: Seq<String>,
)
    requires
        number_texts.len() == spectrums.len(),
    ensures
        cells_spec(spectrums, number_texts).len() == spectrums.len(),
        forall|i: int|
            0 <= i < spectrums.len() ==> {
                &&& (#[trigger] cells_spec(spectrums, number_texts)[i]).0 == spectrums[i].0@
                &&& (spectrums[i].1 matches Spectrum::Quadrants(q) ==> cells_spec(
                    spectrums,
                    number_texts,
                )[i].1 == q.label_spec())
                &&& (spectrums[i].1 is Unknown ==> cells_spec(spectrums, number_texts)[i].1
                    == "U"@)
                &&& (spectrums[i].1 is Number ==> cells_spec(spectrums, number_texts)[i].1
                    == number_texts[i]@)
            },
{
}

/// No cells give no rows, and one more cell adds exactly its row at the end:
/// the row open tag, the name, the middle, the cell text and the row close.
pub proof fn law_rows_build()
    ensures
        rows_spec(Seq::empty()) == Seq::<char>::empty(),
        forall|cells: Seq<(Seq<char>, Seq<char>)>, cell: (Seq<char>, Seq<char>)|
            #[trigger] rows_spec(cells.push(cell)) == rows_spec(cells) + ROW_OPEN@ + cell.0
                + ROW_MIDDLE@ + cell.1 + ROW_CLOSE@,
{
    assert forall|cells: Seq<(Seq<char>, Seq<char>)>, cell: (Seq<char>, Seq<char>)|
        #[trigger] rows_spec(cells.push(cell)) == rows_spec(cells) + ROW_OPEN@ + cell.0
            + ROW_MIDDLE@ + cell.1 + ROW_CLOSE@ by {
        assert(cells.push(cell).drop_last() =~= cells);
        assert(row_spec(cell.0, cell.1) =~= ROW_OPEN@ + cell.0 + ROW_MIDDLE@ + cell.1
            + ROW_CLOSE@);
    }
}

/// The page holds the whole name right after the page opening, then " (",
/// the whole pronouns, and the rows, each unchanged.
pub proof fn law_page_layout(name: Seq<char>, pronouns: Seq<char>, rows: Seq<char>)
    ensures
        page_spec(name, pronouns, rows) == PAGE_OPEN@ + name + PAGE_PRONOUNS@ + pronouns
            + PAGE_ROWS@ + rows + PAGE_CLOSE@,
        page_spec(name, pronouns, rows).subrange(
            PAGE_OPEN@.len() as int,
            (PAGE_OPEN@.len() + name.len()) as int,
        ) == name,
        page_spec(name, pronouns, rows).subrange(
            (PAGE_OPEN@.len() + name.len() + PAGE_PRONOUNS@.len()) as int,
            (PAGE_OPEN@.len() + name.len() + PAGE_PRONOUNS@.len() + pronouns.len()) as int,
        ) == pronouns,
{
    let page = page_spec(name, pronouns, rows);
    let a = PAGE_OPEN@.len() as int;
    assert(page.subrange(a, a + name.len()) =~= name);
    let b = (a + name.len() + PAGE_PRONOUNS@.len()) as int;
    assert(page.subrange(b, b + pronouns.len()) =~= pronouns);
}

impl App {
    /// The name and cell text of each spectrum of the card, in order;
    /// `number_texts[i]` is how the number of spectrum `i` is written out.
    pub fn card_cells(&self, number_texts: &Vec<String>) -> (cells: Vec<(String, String)>)
        requires
            number_texts.len() == self.spectrums.len(),
        ensures
            text_pairs(cells@) == cells_spec(self.spectrums@, number_texts@),
            cells.len() == self.spectrums.len(),
            forall|i: int|
                0 <= i < cells.len() ==> {
                    &&& (#[trigger] cells@[i]).0@ == self.spectrums@[i].0@
                    &&& (self.spectrums@[i].1 matches Spectrum::Quadrants(q) ==> cells@[i].1@
                        == q.label_spec())
                    &&& (self.spectrums@[i].1 is Unknown ==> cells@[i].1@ == "U"@)
                    &&& (self.spectrums@[i].1 is Number ==> cells@[i].1@ == number_texts@[i]@)
                },
    {
        let ghost want = cells_spec(self.spectrums@, number_texts@);
        let mut cells: Vec<(String, String)> = Vec::new();
        let mut i: usize = 0;
        while i < self.spectrums.len()
            invariant
                i <= self.spectrums.len(),
                number_texts.len() == self.spectrums.len(),
                want == cells_spec(self.spectrums@, number_texts@),
                cells.len() == i,
                forall|k: int|
                    0 <= k < i ==> {
                        &&& (#[trigger] cells@[k]).0@ == want[k].0
                        &&& cells@[k].1@ == want[k].1
                        &&& cells@[k].0@ == self.spectrums@[k].0@
                        &&& (self.spectrums@[k].1 matches Spectrum::Quadrants(q) ==> cells@[k].1@
                            == q.label_spec())
                        &&& (self.spectrums@[k].1 is Unknown ==> cells@[k].1@ == "U"@)
                        &&& (self.spectrums@[k].1 is Number ==> cells@[k].1@ == number_texts@[k]@)
                    },
            decreases self.spectrums.len() - i,
        {
            let name = self.spectrums[i].0.clone();
            let text = cell_text(&self.spectrums[i].1, number_texts[i].as_str());
            cells.push((name, text));
            i += 1;
        }
        assert(text_pairs(cells@) =~= want);
        cells
    }

    /// The HTML page of the card: its name and pronouns as the table's
    /// heading, and a row per spectrum, in order.
    pub fn card_html(&self, number_texts: &Vec<String>) -> (page: String)
        requires
            number_texts.len() == self.spectrums.len(),
        ensures
            page@ == page_spec(
                self.name@,
                self.pronouns@,
                rows_spec(cells_spec(self.spectrums@, number_texts@)),
            ),
            page@ == PAGE_OPEN@ + self.name@ + PAGE_PRONOUNS@ + self.pronouns@ + PAGE_ROWS@
                + rows_spec(cells_spec(self.spectrums@, number_texts@)) + PAGE_CLOSE@,
    {
        let cells = self.card_cells(number_texts);
        let rows = render_rows(&cells);
        render_page(self.name.as_str(), self.pronouns.as_str(), rows.as_str())
    }
}

} // verus!
