use vstd::prelude::*;

use crate::error::{Error, ErrorView};
use crate::text::{push_str, string_from_str, trim, trim_spec};

verus! {

/// What a text is as JSON.
#[derive(Debug, Clone, PartialEq)]
pub enum JsonKind {
    /// A JSON object.
    Object,
    /// Valid JSON, but not an object.
    NotObject,
    /// Not valid JSON; the parser's message.
    Invalid(String),
}

/// The mathematical value of a [`JsonKind`].
pub enum JsonKindView {
    Object,
    NotObject,
    Invalid(Seq<char>),
}

impl View for JsonKind {
    type V = JsonKindView;

    open spec fn view(&self) -> JsonKindView {
        match self {
            JsonKind::Object => JsonKindView::Object,
            JsonKind::NotObject => JsonKindView::NotObject,
            JsonKind::Invalid(m) => JsonKindView::Invalid(m@),
        }
    }
}

/// What serde_json's reading of a text as a JSON value gives.
pub uninterp spec fn serde_json_kind(text: Seq<char>) -> JsonKindView;

/// Reads `text` with `serde_json::from_str::<serde_json::Value>` and tells
/// an object, another value and an error (with its displayed message)
/// apart. The contract claims only that the outcome is a function of the
/// text.
#[verifier::external_body]
fn json_kind(text: &str) -> (k: JsonKind)
    ensures
        k@ == serde_json_kind(text@),
{
    match serde_json::from_str::<serde_json::Value>(text) {
        Ok(serde_json::Value::Object(_)) => JsonKind::Object,
        Ok(_) => JsonKind::NotObject,
        Err(e) => JsonKind::Invalid(e.to_string()),
    }
}

/// What reading JSON arguments gives: nothing, the text of a JSON object,
/// or an error.
pub open spec fn json_outcome_view(r: Result<Option<String>, Error>) -> Result<
    Option<Seq<char>>,
    ErrorView,
> {
    match r {
        Ok(Some(s)) => Ok(Some(s@)),
        Ok(None) => Ok(None),
        Err(e) => Err(e@),
    }
}

/// The outcome once the text is known to be complete: nothing where only
/// white space was read, else what the text is as JSON.
pub open spec fn json_final_spec(buffer: Seq<char>, kind: JsonKindView) -> Result<
    Option<Seq<char>>,
    ErrorView,
> {
    if trim_spec(buffer).len() == 0 {
        Ok(None)
    } else {
        match kind {
            JsonKindView::Object => Ok(Some(buffer)),
            JsonKindView::NotObject => Err(ErrorView::Other("JSON input must be an object"@)),
            JsonKindView::Invalid(m) => Err(ErrorView::Other("Invalid JSON: "@ + m)),
        }
    }
}

/// What one more line does: the text read so far, `buffer` (this line
/// included), is taken as soon as it is valid JSON; a second blank line in
/// a row ends the reading.
pub enum JsonStep {
    /// Read another line.
    More,
    /// Reading is over, with this outcome.
    Done(Result<Option<String>, Error>),
}

/// Reading the JSON object that gives a tool's arguments, line by line.
/// Lines are joined without their line breaks.
pub struct JsonArgsReader {
    buffer: String,
    after_blank: bool,
}

impl JsonArgsReader {
    /// The text read so far.
    pub closed spec fn text(&self) -> Seq<char> {
        self.buffer@
    }

    /// Whether the last line read was blank.
    pub closed spec fn after_blank(&self) -> bool {
        self.after_blank
    }

    /// A reader that has read nothing.
    pub fn new() -> (r: Self)
        ensures
            r.text() == Seq::<char>::empty(),
            !r.after_blank(),
    {
        JsonArgsReader { buffer: String::new(), after_blank: false }
    }

    /// Decides what happens after `line` was added to the text, given what
    /// the text now is as JSON.
    pub fn decide(&mut self, line: &str, kind: JsonKind) -> (step: JsonStep)
        ensures
            final(self).text() == old(self).text(),
            match kind@ {
                JsonKindView::Object => step matches JsonStep::Done(r) && json_outcome_view(r)
                    == Ok::<Option<Seq<char>>, ErrorView>(Some(old(self).text())),
                JsonKindView::NotObject => step matches JsonStep::Done(r) && json_outcome_view(r)
                    == Err::<Option<Seq<char>>, ErrorView>(
                    ErrorView::Other("JSON input must be an object"@),
                ),
                JsonKindView::Invalid(_) => if trim_spec(line@).len() == 0 {
                    if old(self).after_blank() {
                        step matches JsonStep::Done(r) && json_outcome_view(r) == json_final_spec(
                            old(self).text(),
                            kind@,
                        )
                    } else {
                        step is More && final(self).after_blank()
                    }
                } else {
                    step is More && !final(self).after_blank()
                },
            },
    {
        match kind {
            JsonKind::Object => JsonStep::Done(Ok(Some(self.buffer.clone()))),
            JsonKind::NotObject => JsonStep::Done(
                Err(Error::Other(string_from_str("JSON input must be an object"))),
            ),
            JsonKind::Invalid(m) => {
                let t = trim(line);
                if t.as_str().unicode_len() == 0 {
                    if self.after_blank {
                        JsonStep::Done(self.outcome(JsonKind::Invalid(m)))
                    } else {
                        self.after_blank = true;
                        JsonStep::More
                    }
                } else {
                    self.after_blank = false;
                    JsonStep::More
                }
            },
        }
    }

    /// Adds `line` to the text and decides what happens next.
    pub fn feed(&mut self, line: &str) -> (step: JsonStep)
        ensures
            final(self).text() == old(self).text() + line@,
            match serde_json_kind(old(self).text() + line@) {
                JsonKindView::Object => step matches JsonStep::Done(r) && json_outcome_view(r)
                    == Ok::<Option<Seq<char>>, ErrorView>(Some(old(self).text() + line@)),
                JsonKindView::NotObject => step matches JsonStep::Done(r) && json_outcome_view(r)
                    == Err::<Option<Seq<char>>, ErrorView>(
                    ErrorView::Other("JSON input must be an object"@),
                ),
                JsonKindView::Invalid(m) => if trim_spec(line@).len() == 0 {
                    if old(self).after_blank() {
                        step matches JsonStep::Done(r) && json_outcome_view(r) == json_final_spec(
                            old(self).text() + line@,
                            JsonKindView::Invalid(m),
                        )
                    } else {
                        step is More && final(self).after_blank()
                    }
                } else {
                    step is More && !final(self).after_blank()
                },
            },
    {
        push_str(&mut self.buffer, line);
        let kind = json_kind(self.buffer.as_str());
        self.decide(line, kind)
    }

    /// The outcome for the text read so far, given what it is as JSON.
    pub fn outcome(&self, kind: JsonKind) -> (r: Result<Option<String>, Error>)
        ensures
            json_outcome_view(r) == json_final_spec(self.text(), kind@),
    {
        let t = trim(self.buffer.as_str());
        if t.as_str().unicode_len() == 0 {
            return Ok(None);
        }
        match kind {
            JsonKind::Object => Ok(Some(self.buffer.clone())),
            JsonKind::NotObject => Err(Error::Other(string_from_str("JSON input must be an object"))),
            JsonKind::Invalid(m) => {
                let mut s = string_from_str("Invalid JSON: ");
                push_str(&mut s, m.as_str());
                Err(Error::Other(s))
            },
        }
    }

    /// The outcome once the input has ended.
    pub fn finish(&self) -> (r: Result<Option<String>, Error>)
        ensures
            json_outcome_view(r) == json_final_spec(self.text(), serde_json_kind(self.text())),
    {
        let kind = json_kind(self.buffer.as_str());
        self.outcome(kind)
    }
}

} // verus!
