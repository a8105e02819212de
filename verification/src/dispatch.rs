//! Dispatching actions to the store, with special support for state updates.

use std::rc::Rc;
use vstd::prelude::*;

use crate::node::share;
use crate::states_tree::{texts, RespoStateBranch};

verus! {

/// it has special support for states: an action that updates the states tree at a cursor
pub trait RespoAction<S: ?Sized>: Sized {
    /// The action that sets the state at `cursor` to `data`, or resets it.
    spec fn states_action(cursor: Seq<Seq<char>>, data: Option<Rc<S>>) -> Self;

    /// to provide syntax sugar to dispatch.run_state
    fn wrap_states_action(cursor: &[String], a: Option<RespoStateBranch<S>>) -> (r: Self)
        ensures
            r == Self::states_action(
                texts(cursor@),
                match a {
                    Some(b) => Some(b.0),
                    None => None,
                },
            ),
    ;
}

/// dispatch function passed from root of renderer,
/// call it like `dispatch.run(op)`
pub struct DispatchFn<F: ?Sized>(pub Rc<F>);

impl<F: ?Sized> DispatchFn<F> {
    /// A dispatch function calling `f`.
    pub fn new(f: F) -> (r: Self)
        where F: Sized,
        ensures
            *r.0 == f,
    {
        DispatchFn(Rc::new(f))
    }

    /// Another handle to the same dispatch function.
    pub fn share(&self) -> (r: Self)
        ensures
            r.0 == self.0,
    {
        DispatchFn(share(&self.0))
    }

    /// dispatch an action
    pub fn run<T>(&self, op: T) -> (r: Result<(), String>)
        where F: Fn(T) -> Result<(), String>,
        requires
            call_requires(&*self.0, (op,)),
        ensures
            call_ensures(&*self.0, (op,), r),
    {
        (self.0)(op)
    }

    /// dispatch to update local state
    pub fn run_state<T, S: ?Sized>(&self, cursor: &[String], data: Rc<S>) -> (r: Result<(), String>)
        where F: Fn(T) -> Result<(), String>, T: RespoAction<S>,
        requires
            call_requires(&*self.0, (T::states_action(texts(cursor@), Some(data)),)),
        ensures
            call_ensures(&*self.0, (T::states_action(texts(cursor@), Some(data)),), r),
    {
        let a = T::wrap_states_action(cursor, Some(RespoStateBranch::new(data)));
        (self.0)(a)
    }

    /// reset state to empty
    pub fn run_empty_state<T, S: ?Sized>(&self, cursor: &[String]) -> (r: Result<(), String>)
        where F: Fn(T) -> Result<(), String>, T: RespoAction<S>,
        requires
            call_requires(&*self.0, (T::states_action(texts(cursor@), None),)),
        ensures
            call_ensures(&*self.0, (T::states_action(texts(cursor@), None),), r),
    {
        let a = T::wrap_states_action(cursor, None);
        (self.0)(a)
    }
}

} // verus!
