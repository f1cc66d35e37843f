//! The closure whose function borrows its environment mutably.
use core::marker::PhantomData;
use vstd::prelude::*;

verus! {

/// A closure whose function takes a mutable reference to its environment.
///
/// The closure owns the environment and lends it to its function for the length of one call at
/// a time. The function is only ever reached through a shared reference and so stays what it
/// is; what changes from call to call is the environment alone.
///
/// `F` is the type of the function. Where it is left out it is a plain function pointer.
pub struct RefMutClosure<Env, Args, Out, F = fn(&mut Env, Args) -> Out> {
    env: Env,
    f: F,
    shape: PhantomData<(Args, Out)>,
}

impl<Env, Args, Out, F> View for RefMutClosure<Env, Args, Out, F> {
    type V = (Env, F);

    /// The state of the closure: its environment and its function, and nothing besides.
    closed spec fn view(&self) -> (Env, F) {
        (self.env, self.f)
    }
}

/// The environment that is left when `step` has been applied to `env` with each of `argss` in
/// turn, every application starting from what the one before it left.
pub open spec fn env_after<Env, Args, Out>(
    step: spec_fn(Env, Args) -> (Out, Env),
    env: Env,
    argss: Seq<Args>,
) -> Env
    decreases argss.len(),
{
    if argss.len() == 0 {
        env
    } else {
        step(env_after(step, env, argss.drop_last()), argss.last()).1
    }
}

impl<Env, Args, Out, F: Fn(&mut Env, Args) -> Out> RefMutClosure<Env, Args, Out, F> {
    /// The environment as it stands.
    pub open spec fn env(&self) -> Env {
        self@.0
    }

    /// The function that every call goes to.
    pub open spec fn dispatch(&self) -> F {
        self@.1
    }

    /// The closure may be called with `args`: its function accepts them together with a
    /// reference to the environment as it stands.
    pub open spec fn accepts(&self, args: Args) -> bool {
        forall|r: &mut Env|
            *r == self.env() ==> #[trigger] call_requires(self.dispatch(), (r, args))
    }

    /// Bundles `env` with `f`.
    pub fn new(env: Env, f: F) -> (c: Self)
        ensures
            c.env() == env,
            c.dispatch() == f,
    {
        Self { env, f, shape: PhantomData }
    }

    /// Calls the function on the environment and `args`, and keeps what it did to the
    /// environment.
    ///
    /// The function is handed a reference through which it finds the environment as it was
    /// before the call and leaves it as it is after the call, and `args` as they came; `out` is
    /// what it returned.
    pub fn call_mut(&mut self, args: Args) -> (out: Out)
        requires
            old(self).accepts(args),
        ensures
            final(self).dispatch() == old(self).dispatch(),
            exists|r: &mut Env|
                *r == old(self).env() && *final(r) == final(self).env() && #[trigger] call_ensures(
                    old(self).dispatch(),
                    (r, args),
                    out,
                ),
    {
        (self.f)(&mut self.env, args)
    }

    /// Calls the closure once, as [`call_mut`](Self::call_mut) would, and gives it up together
    /// with whatever the function left in the environment.
    pub fn call_once(self, args: Args) -> (out: Out)
        requires
            self.accepts(args),
        ensures
            exists|r: &mut Env|
                *r == self.env() && has_resolved(*final(r)) && #[trigger] call_ensures(
                    self.dispatch(),
                    (r, args),
                    out,
                ),
    {
        let mut this = self;
        this.call_mut(args)
    }

    /// The environment goes when the closure goes: once the closure has been given up, nothing
    /// is written any more through a mutable reference that its environment holds.
    pub proof fn lemma_dropped_with_env(c: Self)
        requires
            has_resolved(c),
        ensures
            has_resolved(c.env()),
    {
    }

    /// A closure fresh from [`new`](Self::new) is its function and nothing more.
    ///
    /// Let `c` hold `env` and `f`. Then `c` may be called with `args` exactly when `f` accepts
    /// `args` together with a reference to `env`; and a call may return `out` and leave `after`
    /// in the closure exactly when `f`, handed such a reference and `args`, may return `out` and
    /// leave `after` behind it. Neither the arguments nor the result nor the environment are
    /// touched on the way.
    pub proof fn lemma_call_mut_is_dispatch(
        c: Self,
        env: Env,
        f: F,
        args: Args,
        out: Out,
        after: Env,
    )
        requires
            c.env() == env,
            c.dispatch() == f,
        ensures
            c.accepts(args) <==> (forall|r: &mut Env|
                *r == env ==> #[trigger] call_requires(f, (r, args))),
            (exists|r: &mut Env|
                *r == c.env() && *final(r) == after && #[trigger] call_ensures(
                    c.dispatch(),
                    (r, args),
                    out,
                )) <==> (exists|r: &mut Env|
                *r == env && *final(r) == after && #[trigger] call_ensures(f, (r, args), out)),
    {
    }

    /// Calls accumulate: each call starts from the environment that the call before it left.
    ///
    /// Let `states` be the closure before the first of `argss.len()` calls in a row and after
    /// each of them, call `k` being made with `argss[k]` and returning `outs[k]`, and let the
    /// function of the closure, on the environments and the arguments that these calls hand to
    /// it, do what `step` says and nothing else. Then the function is the same in all the
    /// states, the environment before call `k` is the one that `step` leaves when it is applied
    /// to the first environment with the first `k` arguments in turn, and `outs[k]` is what
    /// `step` gives for that environment and `argss[k]`.
    pub proof fn lemma_calls_accumulate(
        states: Seq<Self>,
        argss: Seq<Args>,
        outs: Seq<Out>,
        step: spec_fn(Env, Args) -> (Out, Env),
    )
        requires
            states.len() == argss.len() + 1,
            outs.len() == argss.len(),
            forall|k: int|
                #![trigger states[k]]
                0 <= k < argss.len() ==> {
                    &&& states[k + 1].dispatch() == states[k].dispatch()
                    &&& exists|r: &mut Env|
                        *r == states[k].env() && *final(r) == states[k + 1].env()
                            && #[trigger] call_ensures(
                            states[k].dispatch(),
                            (r, argss[k]),
                            outs[k],
                        )
                },
            forall|k: int, r: &mut Env, out: Out|
                0 <= k < argss.len() && *r == states[k].env() && #[trigger] call_ensures(
                    states[k].dispatch(),
                    (r, argss[k]),
                    out,
                ) ==> (out, *final(r)) == step(*r, argss[k]),
        ensures
            forall|k: int|
                0 <= k <= argss.len() ==> {
                    &&& (#[trigger] states[k]).dispatch() == states[0].dispatch()
                    &&& states[k].env() == env_after(step, states[0].env(), argss.take(k))
                },
            forall|k: int|
                #![trigger outs[k]]
                0 <= k < argss.len() ==> outs[k] == step(states[k].env(), argss[k]).0,
    {
        assert forall|k: int| 0 <= k <= argss.len() implies {
            &&& (#[trigger] states[k]).dispatch() == states[0].dispatch()
            &&& states[k].env() == env_after(step, states[0].env(), argss.take(k))
        } by {
            Self::lemma_steps_accumulate(states, argss, step, k as nat);
        }
    }

    /// The induction behind [`lemma_calls_accumulate`](Self::lemma_calls_accumulate): where
    /// every state has the function of the state before it and the environment that `step`
    /// leaves from that state's, state `k` has the function of the first state and the
    /// environment that `step` leaves from the first state's after the first `k` arguments.
    proof fn lemma_steps_accumulate(
        states: Seq<Self>,
        argss: Seq<Args>,
        step: spec_fn(Env, Args) -> (Out, Env),
        k: nat,
    )
        requires
            states.len() == argss.len() + 1,
            k <= argss.len(),
            forall|j: int|
                #![trigger states[j]]
                0 <= j < argss.len() ==> {
                    &&& states[j + 1].dispatch() == states[j].dispatch()
                    &&& states[j + 1].env() == step(states[j].env(), argss[j]).1
                },
        ensures
            states[k as int].dispatch() == states[0].dispatch(),
            states[k as int].env() == env_after(step, states[0].env(), argss.take(k as int)),
        decreases k,
    {
        if k > 0 {
            let j = k - 1;
            Self::lemma_steps_accumulate(states, argss, step, j as nat);
            assert(states[j + 1].dispatch() == states[j].dispatch());
            assert(argss.take(k as int).drop_last() == argss.take(j));
            assert(argss.take(k as int).last() == argss[j]);
        } else {
            assert(argss.take(0).len() == 0);
        }
    }
}

} // verus!
