use crate::executor::DispatchError;
use crate::state::{State, StateView};
use vstd::prelude::*;

verus! {

/// Who a call is made by.
#[derive(Clone, Copy, Debug, PartialEq, Eq, Structural)]
pub enum Origin {
    Root,
    Signed(u64),
    Unsigned,
}

/// The template module: one stored value that any signed account may set.
pub struct Pezpallet;

impl Pezpallet {
    /// Stores `something`; the origin must be a signed account.
    pub fn do_something(state: &mut State, origin: Origin, something: u32) -> (r: Result<
        (),
        DispatchError,
    >)
        ensures
            origin is Signed ==> r == Ok::<(), DispatchError>(()) && final(state)@ == (StateView {
                something: Some(something),
                ..old(state)@
            }),
            !(origin is Signed) ==> r == Err::<(), DispatchError>(DispatchError::BadOrigin)
                && final(state)@ == old(state)@,
    {
        match origin {
            Origin::Signed(_) => {
                state.something = Some(something);
                Ok(())
            },
            _ => Err(DispatchError::BadOrigin),
        }
    }

    /// The stored value, if any was set.
    pub fn something(state: &State) -> (r: Option<u32>)
        ensures
            r == state@.something,
    {
        state.something
    }
}

} // verus!
