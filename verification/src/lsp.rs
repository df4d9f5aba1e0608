//! The protocol values that the workspace worker decides on: positions,
//! ranges, and what a lint run reports for a document.

use vstd::prelude::*;

verus! {

/// Position in a text document expressed as zero-based line and character offset.
#[derive(Clone, Copy, Debug, PartialEq, Eq, Structural)]
pub struct Position {
    /// Line position in a document (zero-based).
    pub line: u32,
    /// Character offset on a line in a document (zero-based).
    pub character: u32,
}

impl Position {
    /// Positions are ordered by line, and on one line by character.
    pub open spec fn spec_le(self, other: Position) -> bool {
        self.line < other.line || (self.line == other.line && self.character <= other.character)
    }

    /// Whether this position is `other` or comes before it.
    pub fn le(&self, other: &Position) -> (b: bool)
        ensures
            b == self.spec_le(*other),
    {
        self.line < other.line || (self.line == other.line && self.character <= other.character)
    }
}

/// A range in a text document expressed as (zero-based) start and end positions.
#[derive(Clone, Copy, Debug, PartialEq, Eq, Structural)]
pub struct Range {
    /// The range's start position.
    pub start: Position,
    /// The range's end position.
    pub end: Position,
}

/// Two ranges overlap where each starts no later than the other ends.
pub open spec fn spec_range_overlaps(a: Range, b: Range) -> bool {
    a.start.spec_le(b.end) && b.start.spec_le(a.end)
}

/// Whether `a` and `b` overlap.
pub fn range_overlaps(a: Range, b: Range) -> (r: bool)
    ensures
        r == spec_range_overlaps(a, b),
{
    a.start.le(&b.end) && b.start.le(&a.end)
}

/// A textual edit of a document: the text in `range` becomes `new_text`.
#[derive(Debug, PartialEq, Eq)]
pub struct TextEdit {
    /// The range of the text document to be manipulated.
    pub range: Range,
    /// The string to be inserted.
    pub new_text: String,
}

/// A diagnostic of a document. The worker goes by where it applies, and
/// hands the rest on unread.
#[derive(Debug, PartialEq, Eq)]
pub struct Diagnostic {
    /// The range at which the message applies.
    pub range: Range,
    /// The whole diagnostic as the protocol writes it, for the client.
    pub payload: String,
}

impl Diagnostic {
    /// A copy of this diagnostic.
    pub fn duplicate(&self) -> (copy: Diagnostic)
        ensures
            copy == *self,
    {
        Diagnostic { range: self.range, payload: self.payload.clone() }
    }
}

/// The fix that comes with a diagnostic.
#[derive(Debug, PartialEq, Eq)]
pub struct FixedContent {
    /// What the fix does, in words, where that is said.
    pub message: Option<String>,
    /// The text that the fix puts in place.
    pub code: String,
    /// The range that the fix replaces.
    pub range: Range,
}

impl FixedContent {
    /// A copy of this fix.
    pub fn duplicate(&self) -> (copy: FixedContent)
        ensures
            copy == *self,
    {
        let message = match &self.message {
            Some(message) => Some(message.clone()),
            None => None,
        };
        FixedContent { message, code: self.code.clone(), range: self.range }
    }
}

/// One finding of a lint run.
#[derive(Debug, PartialEq, Eq)]
pub struct DiagnosticReport {
    /// The diagnostic shown to the user.
    pub diagnostic: Diagnostic,
    /// The fix, where the finding has one.
    pub fixed_content: Option<FixedContent>,
}

impl DiagnosticReport {
    /// A copy of this report.
    pub fn duplicate(&self) -> (copy: DiagnosticReport)
        ensures
            copy == *self,
    {
        let fixed_content = match &self.fixed_content {
            Some(fixed) => Some(fixed.duplicate()),
            None => None,
        };
        DiagnosticReport { diagnostic: self.diagnostic.duplicate(), fixed_content }
    }
}

/// A copy of `reports`.
pub fn duplicate_reports(reports: &Vec<DiagnosticReport>) -> (copy: Vec<DiagnosticReport>)
    ensures
        copy@ == reports@,
{
    let mut copy: Vec<DiagnosticReport> = Vec::new();
    let mut i: usize = 0;
    while i < reports.len()
        invariant
            i <= reports.len(),
            copy@ == reports@.subrange(0, i as int),
        decreases reports.len() - i,
    {
        copy.push(reports[i].duplicate());
        i += 1;
        assert(copy@ =~= reports@.subrange(0, i as int));
    }
    assert(reports@.subrange(0, i as int) =~= reports@);
    copy
}

/// The edits that apply the fixes of `reports`: one for each report that has
/// a fix, in the order of the reports.
pub open spec fn text_edits(reports: Seq<DiagnosticReport>) -> Seq<TextEdit>
    decreases reports.len(),
{
    if reports.len() == 0 {
        Seq::empty()
    } else {
        let rest = text_edits(reports.drop_last());
        match reports.last().fixed_content {
            Some(fixed) => rest.push(TextEdit { range: fixed.range, new_text: fixed.code }),
            None => rest,
        }
    }
}

/// Computes `text_edits`.
pub fn text_edits_of(reports: &Vec<DiagnosticReport>) -> (edits: Vec<TextEdit>)
    ensures
        edits@ == text_edits(reports@),
{
    let mut edits: Vec<TextEdit> = Vec::new();
    let mut i: usize = 0;
    while i < reports.len()
        invariant
            i <= reports.len(),
            edits@ == text_edits(reports@.subrange(0, i as int)),
        decreases reports.len() - i,
    {
        proof {
            assert(reports@.subrange(0, i + 1).drop_last() =~= reports@.subrange(0, i as int));
        }
        if let Some(fixed) = &reports[i].fixed_content {
            edits.push(TextEdit { range: fixed.range, new_text: fixed.code.clone() });
        }
        i += 1;
    }
    assert(reports@.subrange(0, i as int) =~= reports@);
    edits
}

/// Whether a report concerns `range`: its diagnostic applies to that very
/// range, or to one that overlaps it.
pub open spec fn concerns(report: DiagnosticReport, range: Range) -> bool {
    report.diagnostic.range == range || spec_range_overlaps(range, report.diagnostic.range)
}

/// The places in `reports`, in rising order, of the reports that concern
/// `range`.
pub open spec fn selected(reports: Seq<DiagnosticReport>, range: Range) -> Seq<usize>
    decreases reports.len(),
{
    if reports.len() == 0 {
        Seq::empty()
    } else {
        let rest = selected(reports.drop_last(), range);
        if concerns(reports.last(), range) {
            rest.push((reports.len() - 1) as usize)
        } else {
            rest
        }
    }
}

/// Computes `selected`.
pub fn select_reports(reports: &Vec<DiagnosticReport>, range: &Range) -> (places: Vec<usize>)
    ensures
        places@ == selected(reports@, *range),
{
    let mut places: Vec<usize> = Vec::new();
    let mut i: usize = 0;
    while i < reports.len()
        invariant
            i <= reports.len(),
            places@ == selected(reports@.subrange(0, i as int), *range),
        decreases reports.len() - i,
    {
        proof {
            assert(reports@.subrange(0, i + 1).drop_last() =~= reports@.subrange(0, i as int));
        }
        let found = reports[i].diagnostic.range;
        if found == *range || range_overlaps(*range, found) {
            places.push(i);
        }
        i += 1;
    }
    assert(reports@.subrange(0, i as int) =~= reports@);
    places
}

/// Every place that is selected is a place of a report that concerns the
/// range, and every such place is selected; the places rise.
pub proof fn lemma_selected(reports: Seq<DiagnosticReport>, range: Range)
    requires
        reports.len() <= usize::MAX,
    ensures
        selected(reports, range).len() <= reports.len(),
        forall|k: int|
            0 <= k < selected(reports, range).len() ==> {
                let place = #[trigger] selected(reports, range)[k];
                place < reports.len() && concerns(reports[place as int], range)
            },
        forall|i: int|
            0 <= i < reports.len() && concerns(#[trigger] reports[i], range) ==> selected(
                reports,
                range,
            ).contains(i as usize),
        forall|j: int, k: int|
            0 <= j < k < selected(reports, range).len() ==> selected(reports, range)[j] < selected(
                reports,
                range,
            )[k],
    decreases reports.len(),
{
    if reports.len() > 0 {
        let front = reports.drop_last();
        let last = (reports.len() - 1) as usize;
        lemma_selected(front, range);
        let rest = selected(front, range);
        let all = selected(reports, range);
        assert(all == if concerns(reports.last(), range) {
            rest.push(last)
        } else {
            rest
        });
        assert forall|k: int| 0 <= k < all.len() implies {
            let place = #[trigger] all[k];
            place < reports.len() && concerns(reports[place as int], range)
        } by {
            if k < rest.len() {
                let place = rest[k];
                assert(all[k] == place);
                assert(place < front.len() && concerns(front[place as int], range));
                assert(front[place as int] == reports[place as int]);
            } else {
                assert(all[k] == last);
            }
        }
        assert forall|i: int| 0 <= i < reports.len() && concerns(#[trigger] reports[i], range)
            implies all.contains(i as usize) by {
            if i < reports.len() - 1 {
                assert(front[i] == reports[i]);
                assert(rest.contains(i as usize));
                let k = choose|k: int| 0 <= k < rest.len() && rest[k] == i as usize;
                assert(all[k] == i as usize);
            } else {
                assert(all[all.len() - 1] == i as usize);
            }
        }
        assert forall|j: int, k: int| 0 <= j < k < all.len() implies all[j] < all[k] by {
            if k < rest.len() {
                assert(all[j] == rest[j] && all[k] == rest[k]);
            } else {
                assert(all[k] == last);
                let place = rest[j];
                assert(all[j] == place);
                assert(place < front.len());
            }
        }
    }
}

} // verus!
