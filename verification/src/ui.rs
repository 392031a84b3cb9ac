//! The state of a window that shows the last message a background task sent.
use vstd::prelude::*;
use crate::text::{decimal, push_decimal};

verus! {

/// The view's state: the last message received.
pub struct Root {
    pub message: String,
}

impl Root {
    /// A view that has received nothing yet.
    pub fn new() -> (r: Self)
        ensures
            r.message@ == Seq::<char>::empty(),
    {
        Root { message: String::new() }
    }

    /// Takes in a message: it replaces the one shown.
    pub fn receive(&mut self, message: String)
        ensures
            final(self).message@ == message@,
    {
        self.message = message;
    }

    /// The text that the view renders.
    pub fn render_text(&self) -> (s: String)
        ensures
            s@ == "message: "@ + self.message@,
    {
        let mut s = String::from_str("message: ");
        s.append(self.message.as_str());
        s
    }
}

/// The message that the background task sends on its `i`-th tick.
pub fn tick_message(i: i32) -> (s: String)
    requires
        0 <= i,
    ensures
        s@ == "from tokio task: "@ + decimal(i as nat),
{
    let mut s = String::from_str("from tokio task: ");
    push_decimal(&mut s, i as u64);
    s
}

} // verus!
