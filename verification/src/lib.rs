//! The protocol of a language server's client, and the pages of a web server that shows what the
//! language server knows of a project.
//!
//! Nothing here does input or output. The reading and the writing side of the connection are
//! state machines ([`reader`], [`writer`]) that say what to read, what to write and who gets what;
//! the client ([`client`]) says what to post to them.

pub mod client;
pub mod frame;
pub mod hosts;
pub mod initialize;
pub mod json;
pub mod message;
pub mod pages;
pub mod reader;
pub mod text;
pub mod writer;

use vstd::prelude::*;

verus! {

/// Hands out copies of `cl`, one for each call.
pub fn cloner<T: Clone>(cl: T) -> (make: impl Fn() -> T)
    ensures
        call_requires(make, ()),
        forall|made: T| call_ensures(make, (), made) ==> cloned(cl, made),
{
    move || -> (made: T)
        ensures
            cloned(cl, made),
        { cl.clone() }
}

} // verus!
