use vstd::prelude::*;

verus! {

/// Error of a markup extraction step: its only content is a message.
#[derive(Debug)]
pub struct CssError {
    error_msg: String,
}

impl View for CssError {
    type V = Seq<char>;

    closed spec fn view(&self) -> Seq<char> {
        self.error_msg@
    }
}

impl CssError {
    /// An extraction error carrying `error_msg`.
    pub fn new(error_msg: &str) -> (r: CssError)
        ensures
            r@ == error_msg@,
    {
        CssError { error_msg: String::from_str(error_msg) }
    }

    /// The message this error carries.
    pub fn message(&self) -> (r: String)
        ensures
            r@ == self@,
    {
        self.error_msg.clone()
    }
}

} // verus!
