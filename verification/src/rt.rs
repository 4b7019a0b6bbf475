//! The start of a task: the names under which it finds the capabilities that
//! it was given.
//!
//! Before its `main` runs, a task reads messages from the channel to its
//! parent. Each carries a name and a capability; the message `done` ends
//! them, and so does a message that is no text. The channel itself is known
//! as `parent`.

use crate::capabilities::CapabilityPtr;
use vstd::prelude::*;
use vstd::string::StringSliceAdditionalSpecFns;
use vstd::utf8::{encode_utf8, valid_utf8};

verus! {

/// `core::str::from_utf8`: the bytes as a string where they are valid
/// UTF-8, and nothing where they are not.
#[verifier::external_body]
fn utf8(bytes: &[u8]) -> (text: Option<&str>)
    ensures
        text is Some == valid_utf8(bytes@),
        text matches Some(s) ==> s.spec_bytes() == bytes@,
{
    core::str::from_utf8(bytes).ok()
}

/// What a message at the start of a task asks for.
#[derive(Debug, PartialEq, Eq)]
pub enum Startup {
    /// Note the capability that came with the message under this name, and
    /// read on.
    Register(String),
    /// Read no more.
    Done,
}

/// Whether two runs of bytes are the same.
fn same_bytes(a: &[u8], b: &[u8]) -> (same: bool)
    ensures
        same == (a@ == b@),
{
    if a.len() != b.len() {
        return false;
    }
    let mut i: usize = 0;
    while i < a.len()
        invariant
            0 <= i <= a@.len(),
            a@.len() == b@.len(),
            forall|j: int| 0 <= j < i ==> a@[j] == b@[j],
        decreases a.len() - i,
    {
        if a[i] != b[i] {
            return false;
        }
        i += 1;
    }
    assert(a@ =~= b@);
    true
}

/// Reads one message: text other than `done` is the name of a capability;
/// `done`, and bytes that are no text, end the messages.
pub fn startup_step(message: &[u8]) -> (step: Startup)
    ensures
        match step {
            Startup::Register(name) => valid_utf8(message@) && message@ != "done".spec_bytes()
                && encode_utf8(name@) == message@,
            Startup::Done => !valid_utf8(message@) || message@ == "done".spec_bytes(),
        },
{
    match utf8(message) {
        None => Startup::Done,
        Some(name) => {
            if same_bytes(message, "done".as_bytes()) {
                Startup::Done
            } else {
                Startup::Register(name.to_owned())
            }
        },
    }
}

/// The name and the capability under which every task finds the channel to
/// its parent.
pub fn parent_entry() -> (entry: (String, CapabilityPtr))
    ensures
        entry.0@ == "parent"@,
        entry.1@ == 0,
{
    ("parent".to_owned(), CapabilityPtr::new(0))
}

} // verus!
