use vstd::prelude::*;

verus! {

/// The single error type of the library: every failure is reported as a
/// human-readable message.
pub enum VideoError {
    MsgError(String),
}

impl View for VideoError {
    type V = Seq<char>;

    open spec fn view(&self) -> Seq<char> {
        match self {
            VideoError::MsgError(m) => m@,
        }
    }
}

impl VideoError {
    /// An error that carries the given message.
    pub fn msg(text: &str) -> (r: VideoError)
        ensures
            r@ == text@,
    {
        VideoError::MsgError(String::from_str(text))
    }

    /// The message carried by this error.
    pub fn message(&self) -> (r: String)
        ensures
            r@ == self@,
    {
        match self {
            VideoError::MsgError(m) => m.clone(),
        }
    }
}

} // verus!
