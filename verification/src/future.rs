//! A computation that never finishes.

use core::future::Future;
use core::pin::Pin;
use core::task::{Context, Poll};
use vstd::prelude::*;

verus! {

/// `core::task::Poll`, with its two variants `Ready` and `Pending`.
#[verifier::reject_recursive_types(T)]
#[verifier::external_type_specification]
pub struct ExPoll<T>(Poll<T>);

/// `core::pin::Pin`, carried through and never looked into.
#[verifier::reject_recursive_types(Ptr)]
#[verifier::external_type_specification]
#[verifier::external_body]
pub struct ExPin<Ptr>(Pin<Ptr>);

/// `core::task::Context`, carried through and never looked into.
#[verifier::external_type_specification]
#[verifier::external_body]
pub struct ExContext<'a>(Context<'a>);

/// A future that is never ready.
pub struct Pending {}

impl Default for Pending {
    fn default() -> (r: Self)
        ensures
            r == (Pending {  }),
    {
        Pending {  }
    }
}

impl Future for Pending {
    type Output = bool;

    fn poll(self: Pin<&mut Self>, _cx: &mut Context<'_>) -> (r: Poll<bool>)
        ensures
            r is Pending,
    {
        Poll::Pending
    }
}

} // verus!
