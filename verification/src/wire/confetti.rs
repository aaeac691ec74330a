//! The confetti notification.

use vstd::prelude::*;
use vstd::utf8;

use super::socket::line_bytes;

verus! {

/// The confetti notification. Not JSON: the message is the bare word on its
/// own line.
#[derive(Debug, Clone, Copy, PartialEq, Eq, Structural)]
pub struct Confetti;

impl Confetti {
    /// The message, without the newline that ends it.
    pub fn to_line(&self) -> (line: &'static str)
        ensures
            line@ == "confetti"@,
    {
        "confetti"
    }

    /// Accepts only the exact message a sender writes, newline included.
    pub fn parse(message: &[u8]) -> (confetti: Option<Self>)
        ensures
            confetti is Some <==> message@ == utf8::encode_utf8("confetti"@ + "\n"@),
    {
        let expected = line_bytes("confetti");
        if message.len() != expected.len() {
            return None;
        }
        let mut i: usize = 0;
        while i < expected.len()
            invariant
                expected@ == utf8::encode_utf8("confetti"@ + "\n"@),
                message@.len() == expected@.len(),
                i <= expected.len(),
                forall|k: int| 0 <= k < i ==> #[trigger] message@[k] == expected@[k],
            decreases expected.len() - i,
        {
            if message[i] != expected[i] {
                assert(message@ != expected@);
                return None;
            }
            i = i + 1;
        }
        assert(message@ =~= expected@);
        Some(Confetti)
    }
}

} // verus!
