//! Lines of the vault that start with a date: `YYYY/MM/DD` followed by a
//! space and what another reader makes of the rest of the line.
use vstd::prelude::*;
use vstd::string::StringExecFns;
use crate::date::{Date, chrono_parsed_date, parse_date};
use crate::text::{chars_of, string_of, sub_chars, find_char, first_index_of, text};

verus! {

/// A reader of the text that follows the date of a line.
pub trait RestVisitor {
    type Value;

    /// `r` is what the reader gives for `rest`.
    spec fn visited(&self, rest: Seq<char>, r: Result<Self::Value, String>) -> bool;

    /// The text that says what the reader expects.
    spec fn expected(&self) -> Seq<char>;

    /// What the reader expects, for messages.
    fn expecting(&self) -> (r: String)
        ensures
            r@ == self.expected(),
    ;

    /// Reads the text.
    fn visit_str(&self, rest: &str) -> (r: Result<Self::Value, String>)
        ensures
            self.visited(rest@, r),
    ;
}

/// The format of the date that starts a line.
pub open spec fn line_date_format() -> Seq<char> {
    "%Y/%m/%d"@
}

/// Reads a line made of a date, a space, and what `other_visitor` reads.
pub struct LineWithDateVisitor<O> {
    pub other_visitor: O,
}

impl<O> LineWithDateVisitor<O> {
    /// A reader of dated lines whose rest `other_visitor` reads.
    pub fn new(other_visitor: O) -> (r: Self)
        ensures
            r.other_visitor == other_visitor,
    {
        Self { other_visitor }
    }
}

impl<O: RestVisitor> LineWithDateVisitor<O> {
    /// What a line with a date gives, once its date text has been read as
    /// `date`: the error of the date, else the date with what the other
    /// reader makes of `raw_rest`, else that reader's error.
    pub open spec fn completed(&self, raw_date: Seq<char>, date: Result<Date, Seq<char>>, raw_rest: Seq<char>, r: Result<(Date, O::Value), String>) -> bool {
        match date {
            Err(m) => r matches Err(e) && e@ == "Failed to parse date: "@ + raw_date + ". Error: "@ + m,
            Ok(d) => match r {
                Ok((d2, x)) => d2 == d && self.other_visitor.visited(raw_rest, Ok(x)),
                Err(e) => self.other_visitor.visited(raw_rest, Err(e)),
            },
        }
    }

    /// What the line `v` gives: an error where it has no space; otherwise
    /// the text before the first space read as a date in the format
    /// `%Y/%m/%d`, and the text from that space on read by the other reader.
    pub open spec fn visited(&self, v: Seq<char>, r: Result<(Date, O::Value), String>) -> bool {
        match first_index_of(v, ' ') {
            None => r matches Err(e) && e@ == "Could not find first space"@,
            Some(i) => self.completed(v.take(i), chrono_parsed_date(v.take(i), line_date_format()), v.skip(i), r),
        }
    }

    /// What the reader expects, for messages: a line with a date, then
    /// what the other reader expects.
    pub fn expecting(&self) -> (r: String)
        ensures
            r@ == "a line with a date and "@ + self.other_visitor.expected(),
    {
        let mut r = text("a line with a date and ");
        let other = self.other_visitor.expecting();
        r.append(other.as_str());
        r
    }

    /// Completes the reading of a line whose date text `raw_date` was read
    /// as `date`.
    pub fn with_date(&self, raw_date: &str, date: Result<Date, String>, raw_rest: &str) -> (r: Result<(Date, O::Value), String>)
        ensures
            self.completed(raw_date@, match date { Ok(d) => Ok(d), Err(e) => Err(e@) }, raw_rest@, r),
    {
        match date {
            Err(err) => {
                let mut message = text("Failed to parse date: ");
                message.append(raw_date);
                message.append(". Error: ");
                message.append(err.as_str());
                Err(message)
            },
            Ok(d) => match self.other_visitor.visit_str(raw_rest) {
                Ok(x) => Ok((d, x)),
                Err(e) => Err(e),
            },
        }
    }

    /// Reads a line with a date.
    pub fn visit_str(&self, v: &str) -> (r: Result<(Date, O::Value), String>)
        ensures
            self.visited(v@, r),
            r matches Ok(p) ==> p.0.wf(),
    {
        let chars = chars_of(v);
        match find_char(&chars, ' ') {
            None => Err(text("Could not find first space")),
            Some(i) => {
                let raw_date = string_of(&sub_chars(&chars, 0, i));
                let raw_rest = string_of(&sub_chars(&chars, i, chars.len()));
                assert(raw_date@ =~= v@.take(i as int));
                assert(raw_rest@ =~= v@.skip(i as int));
                let date = parse_date(raw_date.as_str(), "%Y/%m/%d");
                proof {
                    reveal_strlit("%Y/%m/%d");
                    assert("%Y/%m/%d"@ =~= line_date_format());
                }
                self.with_date(raw_date.as_str(), date, raw_rest.as_str())
            },
        }
    }
}

} // verus!
