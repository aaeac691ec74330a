//! Answers of the tools.

use vstd::prelude::*;

use crate::json;
use crate::json::{object_line, quote, Field, FieldView};
use crate::text::number;
use crate::text::number::decimal_text;
use crate::text::search;

verus! {

/// What a process left behind.
#[derive(Debug, PartialEq, Eq)]
pub struct ProcessOutput {
    pub status: i32,
    pub stdout: String,
    pub stderr: String,
}

/// What a process left behind, as texts.
#[verifier::ext_equal]
pub struct OutputView {
    pub status: i32,
    pub stdout: Seq<char>,
    pub stderr: Seq<char>,
}

impl View for ProcessOutput {
    type V = OutputView;

    open spec fn view(&self) -> OutputView {
        OutputView { status: self.status, stdout: self.stdout@, stderr: self.stderr@ }
    }
}

/// The answer of a tool.
#[derive(Debug, PartialEq, Eq)]
pub enum ToolReply {
    /// It did what was asked.
    Success(String),
    /// It refused, for the reason given.
    Error(String),
}

/// An answer as text.
#[verifier::ext_equal]
pub enum ReplyView {
    Success(Seq<char>),
    Error(Seq<char>),
}

impl View for ToolReply {
    type V = ReplyView;

    open spec fn view(&self) -> ReplyView {
        match *self {
            ToolReply::Success(text) => ReplyView::Success(text@),
            ToolReply::Error(text) => ReplyView::Error(text@),
        }
    }
}

/// What is known of a failure besides its message.
#[derive(Debug, PartialEq, Eq)]
pub enum FailureData {
    /// Why it came about.
    Reason(String),
    /// What failed, and why.
    Explained { error: String, reason: String },
    /// What the process that failed left behind.
    Process(ProcessOutput),
}

/// What is known of a failure, as texts.
#[verifier::ext_equal]
pub enum DataView {
    Reason(Seq<char>),
    Explained { error: Seq<char>, reason: Seq<char> },
    Process(OutputView),
}

impl View for FailureData {
    type V = DataView;

    open spec fn view(&self) -> DataView {
        match *self {
            FailureData::Reason(reason) => DataView::Reason(reason@),
            FailureData::Explained { error, reason } => DataView::Explained {
                error: error@,
                reason: reason@,
            },
            FailureData::Process(output) => DataView::Process(output@),
        }
    }
}

/// A tool could not do its work.
#[derive(Debug, PartialEq, Eq)]
pub struct ToolFailure {
    pub message: String,
    pub data: FailureData,
}

/// A failure as texts.
#[verifier::ext_equal]
pub struct FailureView {
    pub message: Seq<char>,
    pub data: DataView,
}

impl View for ToolFailure {
    type V = FailureView;

    open spec fn view(&self) -> FailureView {
        FailureView { message: self.message@, data: self.data@ }
    }
}

/// The result of a tool as texts.
pub open spec fn result_view(result: Result<ToolReply, ToolFailure>) -> Result<
    ReplyView,
    FailureView,
> {
    match result {
        Ok(reply) => Ok(reply@),
        Err(failure) => Err(failure@),
    }
}

/// A failure with a reason.
pub open spec fn failed(message: Seq<char>, reason: Seq<char>) -> FailureView {
    FailureView { message, data: DataView::Reason(reason) }
}

/// An integer in decimal digits, behind a sign where it is negative.
pub open spec fn signed(n: int) -> Seq<char> {
    if n < 0 {
        "-"@ + number::decimal((-n) as nat)
    } else {
        number::decimal(n as nat)
    }
}

fn signed_text(n: i32) -> (text: String)
    ensures
        text@ == signed(n as int),
{
    if n < 0 {
        let mut text = "-".to_owned();
        text.append(decimal_text((-(n as i64)) as u64).as_str());
        text
    } else {
        decimal_text(n as u64)
    }
}

/// What is known of a failure, as JSON.
pub open spec fn data_text(data: DataView) -> Seq<char> {
    match data {
        DataView::Reason(reason) => json::object_text(seq![("reason"@, FieldView::Text(reason))]),
        DataView::Explained { error, reason } => json::object_text(
            seq![("error"@, FieldView::Text(error)), ("reason"@, FieldView::Text(reason))],
        ),
        DataView::Process(output) => "{\"status\":"@ + signed(output.status as int)
            + ",\"stdout\":"@ + json::quoted(output.stdout) + ",\"stderr\":"@ + json::quoted(
            output.stderr,
        ) + "}"@,
    }
}

impl FailureData {
    /// The data as JSON.
    pub fn to_json(&self) -> (json: String)
        ensures
            json@ == data_text(self@),
    {
        match self {
            FailureData::Reason(reason) => {
                let mut fields: Vec<(&str, Field)> = Vec::new();
                fields.push(("reason", Field::Text(reason.clone())));
                assert(json::member_views(fields@) =~= seq![
                    ("reason"@, FieldView::Text(reason@)),
                ]);
                object_line(&fields)
            },
            FailureData::Explained { error, reason } => {
                let mut fields: Vec<(&str, Field)> = Vec::new();
                fields.push(("error", Field::Text(error.clone())));
                fields.push(("reason", Field::Text(reason.clone())));
                assert(json::member_views(fields@) =~= seq![
                    ("error"@, FieldView::Text(error@)),
                    ("reason"@, FieldView::Text(reason@)),
                ]);
                object_line(&fields)
            },
            FailureData::Process(output) => {
                let mut json = "{\"status\":".to_owned();
                json.append(signed_text(output.status).as_str());
                json.append(",\"stdout\":");
                json.append(quote(output.stdout.as_str()).as_str());
                json.append(",\"stderr\":");
                json.append(quote(output.stderr.as_str()).as_str());
                json.append("}");
                json
            },
        }
    }
}

/// A failure in words: the protocol's code for an internal error, the message,
/// and the data in brackets.
pub open spec fn failure_text(failure: FailureView) -> Seq<char> {
    "-32603: "@ + failure.message + "("@ + data_text(failure.data) + ")"@
}

impl ToolFailure {
    /// A failure with a reason.
    pub fn new(message: &str, reason: &str) -> (failure: Self)
        ensures
            failure@ == failed(message@, reason@),
    {
        ToolFailure { message: message.to_owned(), data: FailureData::Reason(reason.to_owned()) }
    }

    /// The failure in words.
    pub fn text(&self) -> (text: String)
        ensures
            text@ == failure_text(self@),
    {
        let mut text = "-32603: ".to_owned();
        text.append(self.message.as_str());
        text.append("(");
        text.append(self.data.to_json().as_str());
        text.append(")");
        text
    }
}

/// An integer is written by its digits, behind a minus sign where it is negative,
/// so that two integers are never written alike.
pub proof fn integers_are_written_by_value(n: int)
    ensures
        n >= 0 ==> number::value_of(signed(n)) == n && signed(n)[0] != '-',
        n < 0 ==> signed(n)[0] == '-' && number::value_of(signed(n).skip(1)) == -n,
{
    reveal_strlit("-");
    if n >= 0 {
        number::lemma_decimal_value(n as nat);
        number::lemma_decimal_digits(n as nat);
    } else {
        number::lemma_decimal_value((-n) as nat);
        assert(signed(n).skip(1) =~= number::decimal((-n) as nat));
    }
}

/// A failure is told by its message, and by what is known of it as JSON.
pub proof fn failures_tell_message_and_data(failure: FailureView)
    ensures
        search::contains(failure_text(failure), failure.message + seq!['(']),
        search::ends_with(failure_text(failure), data_text(failure.data) + seq![')']),
        failure.data matches DataView::Reason(reason) ==> search::contains(
            data_text(failure.data),
            json::quoted(reason),
        ),
        failure.data matches DataView::Process(output) ==> search::contains(
            data_text(failure.data),
            json::quoted(output.stderr),
        ) && search::contains(data_text(failure.data), json::quoted(output.stdout)),
{
    reveal_strlit("-32603: ");
    reveal_strlit("(");
    reveal_strlit(")");
    let text = failure_text(failure);
    let named = failure.message + seq!['('];
    assert(text.subrange(8, 8int + named.len()) =~= named);
    search::containing_is_standing_somewhere(text, named);
    let data = data_text(failure.data);
    let end = data + seq![')'];
    assert(text.skip(text.len() - end.len()) =~= end);
    match failure.data {
        DataView::Reason(reason) => {
            reveal_strlit("{");
            let member = ("reason"@, FieldView::Text(reason));
            let texts = json::member_texts(seq![member]);
            assert(texts =~= seq![json::member_text(member)]);
            let at: int = 1int + json::quoted("reason"@).len() + ":"@.len();
            let quoted = json::quoted(reason);
            assert(data.subrange(at, at + quoted.len()) =~= quoted);
            search::containing_is_standing_somewhere(data, quoted);
        },
        DataView::Explained { error, reason } => {},
        DataView::Process(output) => {
            let head = "{\"status\":"@ + signed(output.status as int) + ",\"stdout\":"@;
            let out = json::quoted(output.stdout);
            let err = json::quoted(output.stderr);
            let at = head.len() as int;
            assert(data.subrange(at, at + out.len()) =~= out);
            search::containing_is_standing_somewhere(data, out);
            let then: int = at + out.len() + ",\"stderr\":"@.len();
            assert(data.subrange(then, then + err.len()) =~= err);
            search::containing_is_standing_somewhere(data, err);
        },
    }
}

/// A failure keeps its message and its reason.
pub proof fn failures_keep_their_reason(message: Seq<char>, reason: Seq<char>)
    ensures
        failed(message, reason).message == message,
        failed(message, reason).data == DataView::Reason(reason),
{
}

} // verus!
