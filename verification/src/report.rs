//! What a search has to show for itself: the lines to print, the complaint
//! to make, and the status to end with.

use vstd::prelude::*;
use vstd::string::*;
use crate::error::{CliError, CliErrorView};
use crate::number::{decimal, push_decimal};
use crate::record::{PopulationData, PopulationDataView};
use crate::search::outcome_view;

verus! {

impl PopulationDataView {
    /// The line that shows this record: `country=`, the country, `, city=`,
    /// the city, `, population=Some(`, the population in decimal, and `)`.
    pub open spec fn line(self) -> Seq<char> {
        "country="@ + self.country + ", city="@ + self.city + ", population=Some("@ + decimal(
            self.population as nat,
        ) + ")"@
    }
}

impl PopulationData {
    /// The line that shows this record.
    pub fn line(&self) -> (text: String)
        ensures
            text@ == self@.line(),
    {
        let mut text = String::from_str("country=");
        text.append(self.country.as_str());
        text.append(", city=");
        text.append(self.city.as_str());
        text.append(", population=Some(");
        push_decimal(&mut text, self.population);
        text.append(")");
        text
    }
}

/// What is to be done about the outcome of a search.
#[derive(Clone, Debug, PartialEq, Eq)]
pub struct Report {
    /// The lines for the standard output, in order.
    pub lines: Vec<String>,
    /// The line for the standard error, if there is one.
    pub complaint: Option<String>,
    /// The status that the process ends with.
    pub status: i32,
}

/// A `Report` with its text as characters.
pub struct ReportView {
    pub lines: Seq<Seq<char>>,
    pub complaint: Option<Seq<char>>,
    pub status: i32,
}

impl View for Report {
    type V = ReportView;

    open spec fn view(&self) -> ReportView {
        ReportView {
            lines: self.lines@.map_values(|line: String| line@),
            complaint: match self.complaint {
                Some(text) => Some(text@),
                None => None,
            },
            status: self.status,
        }
    }
}

/// The complaint about a failure.
pub open spec fn complaint_of(error: CliErrorView) -> Seq<char> {
    "Failed to execute program -- "@ + error.message()
}

/// What is to be done about an outcome.
///
/// Records are shown one to a line, in their order, and the status is 0.
/// A failure shows no line and ends with status 1; it is complained about,
/// unless it is that nothing was found and `quiet` is set.
pub open spec fn report_of(
    outcome: Result<Seq<PopulationDataView>, CliErrorView>,
    quiet: bool,
) -> ReportView {
    match outcome {
        Ok(records) => ReportView {
            lines: records.map_values(|data: PopulationDataView| data.line()),
            complaint: None,
            status: 0,
        },
        Err(error) => ReportView {
            lines: Seq::empty(),
            complaint: if quiet && error is NotFound {
                None
            } else {
                Some(complaint_of(error))
            },
            status: 1,
        },
    }
}

/// Says what is to be done about the outcome of a search: which lines go to
/// the standard output, which complaint to the standard error, and with
/// which status the process ends.
pub fn report(outcome: &Result<Vec<PopulationData>, CliError>, quiet: bool) -> (said: Report)
    ensures
        said@ == report_of(outcome_view(*outcome), quiet),
{
    match outcome {
        Ok(records) => {
            let mut lines: Vec<String> = Vec::new();
            let mut i: usize = 0;
            while i < records.len()
                invariant
                    i <= records.len(),
                    lines.len() == i,
                    forall|k: int| 0 <= k < i ==> (#[trigger] lines@[k])@ == records@[k]@.line(),
                decreases records.len() - i,
            {
                lines.push(records[i].line());
                i += 1;
            }
            let said = Report { lines, complaint: None, status: 0 };
            assert(said@.lines =~= report_of(outcome_view(*outcome), quiet).lines);
            said
        },
        Err(error) => {
            let complaint = match error {
                CliError::NotFound if quiet => None,
                _ => {
                    let mut text = String::from_str("Failed to execute program -- ");
                    let message = error.message();
                    text.append(message.as_str());
                    Some(text)
                },
            };
            let said = Report { lines: Vec::new(), complaint, status: 1 };
            assert(said@.lines =~= Seq::<Seq<char>>::empty());
            said
        },
    }
}

} // verus!
