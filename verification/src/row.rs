//! The lines of the output: a header, then one row for each result that
//! held quotes.

use vstd::prelude::*;
use vstd::string::*;

verus! {

/// The header, which goes out once before the first row.
pub const HEADER: &'static str = "period start,symbol,price,change %,min,max,30d avg";

/// The fields of one row, each as the text to show. Amounts come without
/// their currency sign and the change without its percent sign.
#[derive(Debug, PartialEq)]
pub struct Row {
    /// The date of the latest quote.
    pub date: String,
    pub symbol: String,
    /// The latest closing price.
    pub price: String,
    /// The change over the period, in percent.
    pub change: String,
    /// The lowest closing price of the period.
    pub min: String,
    /// The highest closing price of the period.
    pub max: String,
    /// The latest moving average.
    pub average: String,
}

/// What a [`Row`] holds.
pub struct RowView {
    pub date: Seq<char>,
    pub symbol: Seq<char>,
    pub price: Seq<char>,
    pub change: Seq<char>,
    pub min: Seq<char>,
    pub max: Seq<char>,
    pub average: Seq<char>,
}

impl View for Row {
    type V = RowView;

    open spec fn view(&self) -> RowView {
        RowView {
            date: self.date@,
            symbol: self.symbol@,
            price: self.price@,
            change: self.change@,
            min: self.min@,
            max: self.max@,
            average: self.average@,
        }
    }
}

/// The line for `row`: its fields in the order of the header, separated by
/// commas, each amount behind a dollar sign and the change before a percent
/// sign.
pub open spec fn rendered(row: RowView) -> Seq<char> {
    row.date + ","@ + row.symbol + ",$"@ + row.price + ","@ + row.change + "%,$"@ + row.min
        + ",$"@ + row.max + ",$"@ + row.average
}

/// Lays out the line for `row`.
pub fn render(row: &Row) -> (text: String)
    ensures
        text@ == rendered(row@),
{
    let mut text = row.date.clone();
    text.append(",");
    text.append(row.symbol.as_str());
    text.append(",$");
    text.append(row.price.as_str());
    text.append(",");
    text.append(row.change.as_str());
    text.append("%,$");
    text.append(row.min.as_str());
    text.append(",$");
    text.append(row.max.as_str());
    text.append(",$");
    text.append(row.average.as_str());
    text
}

} // verus!
