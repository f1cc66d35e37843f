//! The closure whose function borrows its environment.
use core::marker::PhantomData;
use vstd::prelude::*;

verus! {

/// A closure whose function takes a shared reference to its environment.
///
/// The closure owns the environment and only ever lends it out for reading, so no call changes
/// anything: the closure can be called any number of times, through any kind of access, and
/// every call finds the environment that was put in.
///
/// `F` is the type of the function. Where it is left out it is a plain function pointer.
pub struct RefClosure<Env, Args, Out, F = fn(&Env, Args) -> Out> {
    env: Env,
    f: F,
    shape: PhantomData<(Args, Out)>,
}

impl<Env, Args, Out, F> View for RefClosure<Env, Args, Out, F> {
    type V = (Env, F);

    /// The state of the closure: its environment and its function, and nothing besides.
    closed spec fn view(&self) -> (Env, F) {
        (self.env, self.f)
    }
}

impl<Env, Args, Out, F: Fn(&Env, Args) -> Out> RefClosure<Env, Args, Out, F> {
    /// The environment.
    pub open spec fn env(&self) -> Env {
        self@.0
    }

    /// The function that every call goes to.
    pub open spec fn dispatch(&self) -> F {
        self@.1
    }

    /// The closure may be called with `args`: its function accepts them together with a
    /// reference to the environment.
    pub open spec fn accepts(&self, args: Args) -> bool {
        call_requires(self.dispatch(), (&self.env(), args))
    }

    /// A call with `args` may return `out`: the function may, given a reference to the
    /// environment and `args`.
    pub open spec fn may_return(&self, args: Args, out: Out) -> bool {
        call_ensures(self.dispatch(), (&self.env(), args), out)
    }

    /// The closure has one result only for `args`: whatever two calls with `args` may return is
    /// the same.
    pub open spec fn single_valued(&self, args: Args) -> bool {
        forall|a: Out, b: Out|
            #![trigger self.may_return(args, a), self.may_return(args, b)]
            self.may_return(args, a) && self.may_return(args, b) ==> a == b
    }

    /// Bundles `env` with `f`.
    pub fn new(env: Env, f: F) -> (c: Self)
        ensures
            c.env() == env,
            c.dispatch() == f,
    {
        Self { env, f, shape: PhantomData }
    }

    /// Calls the function on a reference to the environment and on `args`, and returns what it
    /// returns.
    pub fn call(&self, args: Args) -> (out: Out)
        requires
            self.accepts(args),
        ensures
            self.may_return(args, out),
    {
        (self.f)(&self.env, args)
    }

    /// Calls the closure as [`call`](Self::call) does, through a mutable reference that it makes
    /// no use of: the closure is after the call what it was before.
    pub fn call_mut(&mut self, args: Args) -> (out: Out)
        requires
            old(self).accepts(args),
        ensures
            old(self).may_return(args, out),
            *final(self) == *old(self),
    {
        (self.f)(&self.env, args)
    }

    /// Calls the closure as [`call`](Self::call) does, and gives it up together with its
    /// environment.
    pub fn call_once(self, args: Args) -> (out: Out)
        requires
            self.accepts(args),
        ensures
            self.may_return(args, out),
            has_resolved(self.env()),
    {
        (self.f)(&self.env, args)
    }

    /// The environment goes when the closure goes: once the closure has been given up, nothing
    /// is written any more through a mutable reference that its environment holds.
    pub proof fn lemma_dropped_with_env(c: Self)
        requires
            has_resolved(c),
        ensures
            has_resolved(c.env()),
    {
    }

    /// A closure fresh from [`new`](Self::new) is its function and nothing more.
    ///
    /// Let `c` hold `env` and `f`. Then `c` may be called with `args` exactly when `f` accepts
    /// a reference to `env` and `args`, and a call may return `out` exactly when `f` may, given
    /// a reference to `env` and `args`. Neither the arguments nor the result are touched on the
    /// way.
    pub proof fn lemma_call_is_dispatch(c: Self, env: Env, f: F, args: Args, out: Out)
        requires
            c.env() == env,
            c.dispatch() == f,
        ensures
            c.accepts(args) <==> call_requires(f, (&env, args)),
            c.may_return(args, out) <==> call_ensures(f, (&env, args), out),
    {
    }

    /// What a call returns depends on its arguments alone: not on how many calls were made
    /// before it, nor on which, nor on where they were made from.
    ///
    /// Let `c` have been called `argss.len()` times, in any order, call `k` being made with
    /// `argss[k]` and returning `outs[k]`, and let the closure have one result only for each of
    /// these arguments. Then any two of the calls that were made with the same arguments
    /// returned the same.
    pub proof fn lemma_calls_agree(c: Self, argss: Seq<Args>, outs: Seq<Out>)
        requires
            outs.len() == argss.len(),
            forall|k: int|
                0 <= k < argss.len() ==> c.single_valued(#[trigger] argss[k]) && c.may_return(
                    argss[k],
                    outs[k],
                ),
        ensures
            forall|i: int, j: int|
                #![trigger outs[i], outs[j]]
                0 <= i < argss.len() && 0 <= j < argss.len() && argss[i] == argss[j] ==> outs[i]
                    == outs[j],
    {
        assert forall|i: int, j: int|
            #![trigger outs[i], outs[j]]
            0 <= i < argss.len() && 0 <= j < argss.len() && argss[i] == argss[j] implies outs[i]
            == outs[j] by {
            assert(c.single_valued(argss[i]));
            assert(c.may_return(argss[i], outs[i]));
            assert(c.may_return(argss[j], outs[j]));
        }
    }
}

} // verus!
