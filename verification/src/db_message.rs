use vstd::prelude::*;

verus! {

/// One message row as the lightweight reader sees it: the text column only.
#[derive(Debug)]
pub struct MessageData {
    /// The plain text column.
    pub message: String,
}

impl MessageData {
    /// A row holding the given text.
    pub fn new(message: String) -> (r: MessageData)
        ensures
            r.message@ == message@,
    {
        MessageData { message }
    }
}

} // verus!
