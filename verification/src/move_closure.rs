//! The closure whose function takes its environment by value.
use core::marker::PhantomData;
use vstd::prelude::*;

verus! {

/// A closure whose function takes ownership of its environment.
///
/// The one call that can be made gives the environment to the function and uses the closure up:
/// [`call_once`](Self::call_once) takes the closure by value, so a second call does not compile.
///
/// `F` is the type of the function. Where it is left out it is a plain function pointer.
pub struct MoveClosure<Env, Args, Out, F = fn(Env, Args) -> Out> {
    env: Env,
    f: F,
    shape: PhantomData<(Args, Out)>,
}

impl<Env, Args, Out, F> View for MoveClosure<Env, Args, Out, F> {
    type V = (Env, F);

    /// The state of the closure: its environment and its function, and nothing besides.
    closed spec fn view(&self) -> (Env, F) {
        (self.env, self.f)
    }
}

impl<Env, Args, Out, F: FnOnce(Env, Args) -> Out> MoveClosure<Env, Args, Out, F> {
    /// The environment that the call will give away.
    pub open spec fn env(&self) -> Env {
        self@.0
    }

    /// The function that the call goes to.
    pub open spec fn dispatch(&self) -> F {
        self@.1
    }

    /// The closure may be called with `args`: its function accepts the environment and `args`.
    pub open spec fn accepts(&self, args: Args) -> bool {
        call_requires(self.dispatch(), (self.env(), args))
    }

    /// A call with `args` may return `out`: the function may, given the environment and `args`.
    pub open spec fn may_return(&self, args: Args, out: Out) -> bool {
        call_ensures(self.dispatch(), (self.env(), args), out)
    }

    /// Bundles `env` with `f`.
    pub fn new(env: Env, f: F) -> (c: Self)
        ensures
            c.env() == env,
            c.dispatch() == f,
    {
        Self { env, f, shape: PhantomData }
    }

    /// Gives the environment and `args` to the function and returns what it returns.
    pub fn call_once(self, args: Args) -> (out: Out)
        requires
            self.accepts(args),
        ensures
            self.may_return(args, out),
    {
        (self.f)(self.env, args)
    }

    /// The environment goes when the closure goes: once the closure has been given up, nothing
    /// is written any more through a mutable reference that its environment holds.
    pub proof fn lemma_dropped_with_env(c: Self)
        requires
            has_resolved(c),
        ensures
            has_resolved(c.env()),
    {
    }

    /// A closure fresh from [`new`](Self::new) is its function and nothing more.
    ///
    /// Let `c` hold `env` and `f`. Then `c` may be called with `args` exactly when `f` accepts
    /// `env` and `args`, and the call may return `out` exactly when `f` may, given `env` and
    /// `args`. Neither the environment nor the arguments nor the result are touched on the way.
    pub proof fn lemma_call_once_is_dispatch(c: Self, env: Env, f: F, args: Args, out: Out)
        requires
            c.env() == env,
            c.dispatch() == f,
        ensures
            c.accepts(args) <==> call_requires(f, (env, args)),
            c.may_return(args, out) <==> call_ensures(f, (env, args), out),
    {
    }
}

} // verus!
