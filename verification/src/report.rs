//! The result reporter: one line of text for each transcript segment,
//! with its times in seconds to two decimal places.

use vstd::prelude::*;
use vstd::string::*;
use crate::decimal::{decimal, digit, digit_text, format_decimal};

verus! {

/// A stretch of recognized speech. Times count hundredths of a second
/// from the start of the audio.
#[derive(Debug, PartialEq, Eq)]
pub struct TranscriptSegment {
    /// When the segment starts.
    pub start: i64,
    /// When the segment ends.
    pub end: i64,
    /// What was said.
    pub text: String,
}

/// A time in seconds to two decimal places: a minus sign if it is
/// negative, the whole seconds, a point, and the hundredths.
pub open spec fn timestamp_text(hundredths: int) -> Seq<char> {
    let magnitude = if hundredths < 0 {
        (-hundredths) as nat
    } else {
        hundredths as nat
    };
    let sign = if hundredths < 0 {
        seq!['-']
    } else {
        Seq::<char>::empty()
    };
    sign + decimal(magnitude / 100) + seq!['.', digit(magnitude / 10 % 10), digit(magnitude % 10)]
}

/// The line for a segment: start, an en dash, end, a colon, a space, and
/// the text.
pub open spec fn segment_line(start: int, end: int, text: Seq<char>) -> Seq<char> {
    timestamp_text(start) + seq!['\u{2013}'] + timestamp_text(end) + seq![':', ' '] + text
}

/// A time in seconds to two decimal places.
pub fn format_timestamp(hundredths: i64) -> (s: String)
    ensures
        s@ == timestamp_text(hundredths as int),
{
    let magnitude: u64 = if hundredths < 0 {
        (-(hundredths as i128)) as u64
    } else {
        hundredths as u64
    };
    let mut s = String::new();
    if hundredths < 0 {
        proof {
            reveal_strlit("-");
        }
        s.append("-");
    }
    let whole = format_decimal(magnitude / 100);
    s.append(whole.as_str());
    proof {
        reveal_strlit(".");
    }
    s.append(".");
    s.append(digit_text(magnitude / 10 % 10));
    s.append(digit_text(magnitude % 10));
    assert(s@ =~= timestamp_text(hundredths as int));
    s
}

impl TranscriptSegment {
    /// The line that reports this segment.
    pub open spec fn line(&self) -> Seq<char> {
        segment_line(self.start as int, self.end as int, self.text@)
    }

    /// Formats the segment as one line.
    pub fn format(&self) -> (s: String)
        ensures
            s@ == self.line(),
    {
        let mut s = format_timestamp(self.start);
        proof {
            reveal_strlit("\u{2013}");
            reveal_strlit(": ");
        }
        s.append("\u{2013}");
        let end = format_timestamp(self.end);
        s.append(end.as_str());
        s.append(": ");
        s.append(self.text.as_str());
        assert(s@ =~= self.line());
        s
    }
}

/// The segments are in the order of their start times.
pub open spec fn ordered(segments: Seq<TranscriptSegment>) -> bool {
    forall|i: int, j: int| 0 <= i <= j < segments.len() ==> segments[i].start <= segments[j].start
}

/// Whether the segments are in the order of their start times.
pub fn is_ordered(segments: &Vec<TranscriptSegment>) -> (ok: bool)
    ensures
        ok == ordered(segments@),
{
    let mut i: usize = 1;
    while i < segments.len()
        invariant
            1 <= i,
            forall|a: int, b: int|
                0 <= a <= b < i && b < segments@.len() ==> segments@[a].start <= segments@[b].start,
        decreases segments.len() - i,
    {
        if segments[i - 1].start > segments[i].start {
            return false;
        }
        i = i + 1;
    }
    true
}

/// Formats every segment, one line each, in the order given.
pub fn render(segments: &Vec<TranscriptSegment>) -> (lines: Vec<String>)
    ensures
        lines@.len() == segments@.len(),
        forall|i: int| 0 <= i < segments@.len() ==> lines@[i]@ == segments@[i].line(),
{
    let mut lines: Vec<String> = Vec::new();
    let mut i: usize = 0;
    while i < segments.len()
        invariant
            i <= segments.len(),
            lines@.len() == i,
            forall|j: int| 0 <= j < i ==> lines@[j]@ == segments@[j].line(),
        decreases segments.len() - i,
    {
        lines.push(segments[i].format());
        i = i + 1;
    }
    lines
}

} // verus!
