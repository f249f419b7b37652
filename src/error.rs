use vstd::prelude::*;

verus! {

/// Which of the three failures a call ran into.
#[derive(Debug, Clone, Copy, PartialEq, Eq, Structural)]
pub enum ErrorKind {
    /// The exchange itself failed, or the reply was not a response envelope.
    Transport,
    /// The remote application reported an error; its message is kept verbatim.
    Remote,
    /// The reply succeeded but its result does not have the expected shape.
    Decode,
}

/// What a failed call reports: its kind and a human-readable message.
#[derive(Debug, Clone)]
pub struct AnkiConnectError {
    pub kind: ErrorKind,
    pub error_msg: String,
}

/// The mathematical content of an error.
pub struct Fault {
    pub kind: ErrorKind,
    pub msg: Seq<char>,
}

impl View for AnkiConnectError {
    type V = Fault;

    open spec fn view(&self) -> Fault {
        Fault { kind: self.kind, msg: self.error_msg@ }
    }
}

/// The view of a call's outcome: the deep view of a value, or the error's view.
pub open spec fn outcome_view<T: DeepView>(r: &Result<T, AnkiConnectError>) -> Result<T::V, Fault> {
    match r {
        Ok(v) => Ok(v.deep_view()),
        Err(e) => Err(e@),
    }
}

/// The text that `message` returns for an error message `msg`.
pub open spec fn message_text(msg: Seq<char>) -> Seq<char> {
    "AnkiConnect error message: "@ + msg
}

impl AnkiConnectError {
    pub fn new(kind: ErrorKind, error_msg: String) -> (r: AnkiConnectError)
        ensures
            r@ == (Fault { kind, msg: error_msg@ }),
    {
        AnkiConnectError { kind, error_msg }
    }

    /// A short description of the whole class of errors.
    pub fn description(&self) -> (r: &'static str)
        ensures
            r@ == "error returned by AnkiConnect"@,
    {
        "error returned by AnkiConnect"
    }

    /// The error as a line of text.
    pub fn message(&self) -> (r: String)
        ensures
            r@ == message_text(self.error_msg@),
    {
        let mut r = String::from_str("AnkiConnect error message: ");
        r.append(self.error_msg.as_str());
        r
    }
}

} // verus!
