//! Tasks: steps that build a value from the model, composed in sequence,
//! and that share context values through the scope they run in.
use crate::hooks::share;
use std::collections::HashMap;
use std::marker::PhantomData;
use std::rc::Rc;
use vstd::prelude::*;

verus! {

broadcast use vstd::std_specs::hash::group_hash_axioms;

/// What tasks share while they run: the context values provided so far, by
/// the number of their type.
pub struct Scope<C> {
    contexts: HashMap<u64, Rc<C>>,
}

impl<C> View for Scope<C> {
    type V = Map<u64, C>;

    closed spec fn view(&self) -> Map<u64, C> {
        self.contexts@.map_values(|r: Rc<C>| *r)
    }
}

impl<C> Scope<C> {
    /// A scope without context values.
    pub fn new() -> (r: Self)
        ensures
            r@ == Map::<u64, C>::empty(),
    {
        let r = Scope { contexts: HashMap::new() };
        assert(r@ =~= Map::<u64, C>::empty());
        r
    }
}

/// A step that builds a value from the model the first time and rebuilds
/// it on later runs, keeping state in between.
pub trait Task<M, C> {
    type Output;

    type State;

    /// The task can run in a scope holding these context values.
    spec fn runs_on(&self, contexts: Map<u64, C>) -> bool;

    /// What a build may do: from the scope's context values and the model,
    /// to the context values and model it leaves, the output and the state.
    spec fn build_post(
        &self,
        contexts: Map<u64, C>,
        model: M,
        next_contexts: Map<u64, C>,
        next_model: M,
        output: Self::Output,
        state: Self::State,
    ) -> bool;

    /// What a rebuild on `state` may do: as a build, and the state it
    /// leaves.
    spec fn rebuild_post(
        &self,
        contexts: Map<u64, C>,
        model: M,
        state: Self::State,
        next_contexts: Map<u64, C>,
        next_model: M,
        next_state: Self::State,
        output: Self::Output,
    ) -> bool;

    fn build(&mut self, cx: &mut Scope<C>, model: &mut M) -> (r: (Self::Output, Self::State))
        requires
            old(self).runs_on(old(cx)@),
        ensures
            old(self).build_post(old(cx)@, *old(model), final(cx)@, *final(model), r.0, r.1),
    ;

    fn rebuild(&mut self, cx: &mut Scope<C>, model: &mut M, state: &mut Self::State) -> (r:
        Self::Output)
        requires
            old(self).runs_on(old(cx)@),
        ensures
            old(self).rebuild_post(
                old(cx)@,
                *old(model),
                *old(state),
                final(cx)@,
                *final(model),
                *final(state),
                r,
            ),
    ;
}

/// A task that reads the context value with the type number `type_number`,
/// which an earlier [`Provider`] put in the scope.
pub struct Context<T> {
    type_number: u64,
    _marker: PhantomData<T>,
}

impl<T> Context<T> {
    /// The number of the type it reads.
    pub closed spec fn type_number(self) -> u64 {
        self.type_number
    }
}

pub fn context<T>(type_number: u64) -> (r: Context<T>)
    ensures
        r.type_number() == type_number,
{
    Context { type_number, _marker: PhantomData }
}

impl<M, T> Task<M, T> for Context<T> {
    type Output = Rc<T>;

    type State = ();

    /// A context value must have been provided for its type.
    open spec fn runs_on(&self, contexts: Map<u64, T>) -> bool {
        contexts.contains_key(self.type_number())
    }

    /// It gives back the value provided for its type and changes nothing.
    open spec fn build_post(
        &self,
        contexts: Map<u64, T>,
        model: M,
        next_contexts: Map<u64, T>,
        next_model: M,
        output: Rc<T>,
        state: (),
    ) -> bool {
        *output == contexts[self.type_number()] && next_contexts == contexts && next_model == model
    }

    open spec fn rebuild_post(
        &self,
        contexts: Map<u64, T>,
        model: M,
        state: (),
        next_contexts: Map<u64, T>,
        next_model: M,
        next_state: (),
        output: Rc<T>,
    ) -> bool {
        *output == contexts[self.type_number()] && next_contexts == contexts && next_model == model
    }

    /// Gives back the context value provided for its type.
    fn build(&mut self, cx: &mut Scope<T>, model: &mut M) -> (r: (Rc<T>, ()))
        ensures
            *r.0 == old(cx)@[old(self).type_number()],
            final(cx)@ == old(cx)@,
            *final(model) == *old(model),
            *final(self) == *old(self),
    {
        let value = share(cx.contexts.get(&self.type_number).unwrap());
        (value, ())
    }

    /// Gives back the context value provided for its type.
    fn rebuild(&mut self, cx: &mut Scope<T>, model: &mut M, _state: &mut ()) -> (r: Rc<T>)
        ensures
            *r == old(cx)@[old(self).type_number()],
            final(cx)@ == old(cx)@,
            *final(model) == *old(model),
            *final(self) == *old(self),
    {
        share(cx.contexts.get(&self.type_number).unwrap())
    }
}

/// A task that runs a function on the model; `O` is what the function
/// returns.
#[verifier::reject_recursive_types(M)]
#[verifier::reject_recursive_types(O)]
pub struct FromFn<F: Fn(&mut M) -> O, M, O> {
    f: F,
    _marker: PhantomData<(M, O)>,
}

impl<F: Fn(&mut M) -> O, M, O> FromFn<F, M, O> {
    /// The function the task runs.
    pub closed spec fn function(self) -> F {
        self.f
    }

    /// The function can be called on any model.
    #[verifier::type_invariant]
    spec fn callable(self) -> bool {
        forall|x: &mut M| call_requires(self.f, (x,))
    }
}

pub fn from_fn<F, M, O>(f: F) -> (r: FromFn<F, M, O>) where F: Fn(&mut M) -> O
    requires
        forall|x: &mut M| call_requires(f, (x,)),
    ensures
        r.function() == f,
{
    FromFn { f, _marker: PhantomData }
}

/// Calls `f` on the model: the call may return `r` from the model as it
/// was, leaving it as it is now.
fn call_on<M, O, F: Fn(&mut M) -> O>(f: &F, model: &mut M) -> (r: O)
    requires
        forall|x: &mut M| call_requires(*f, (x,)),
    ensures
        exists|x: &mut M|
            *x == *old(model) && *final(x) == *final(model) && #[trigger] call_ensures(*f, (x,), r),
{
    f(model)
}

impl<F: Fn(&mut M) -> O, M, O, C> Task<M, C> for FromFn<F, M, O> {
    type Output = O;

    type State = ();

    open spec fn runs_on(&self, contexts: Map<u64, C>) -> bool {
        true
    }

    /// The output is a result of the function on the model, and the scope
    /// is unchanged. (The model it leaves is stated by `build` itself.)
    open spec fn build_post(
        &self,
        contexts: Map<u64, C>,
        model: M,
        next_contexts: Map<u64, C>,
        next_model: M,
        output: O,
        state: (),
    ) -> bool {
        next_contexts == contexts && exists|x: &mut M|
            *x == model && #[trigger] call_ensures(self.function(), (x,), output)
    }

    open spec fn rebuild_post(
        &self,
        contexts: Map<u64, C>,
        model: M,
        state: (),
        next_contexts: Map<u64, C>,
        next_model: M,
        next_state: (),
        output: O,
    ) -> bool {
        next_contexts == contexts && exists|x: &mut M|
            *x == model && #[trigger] call_ensures(self.function(), (x,), output)
    }

    /// Runs the function on the model; its result is the output.
    fn build(&mut self, cx: &mut Scope<C>, model: &mut M) -> (r: (Self::Output, Self::State))
        ensures
            final(self).function() == old(self).function(),
            final(cx)@ == old(cx)@,
            exists|x: &mut M|
                *x == *old(model) && *final(x) == *final(model) && #[trigger] call_ensures(
                    old(self).function(),
                    (x,),
                    r.0,
                ),
    {
        proof {
            use_type_invariant(&*self);
        }
        let out = call_on(&self.f, model);
        assert(old(self).function() == self.f);
        let r: (Self::Output, Self::State) = (out, ());
        assert(r.0 == out);
        r
    }

    /// Runs the function on the model again; its result is the output.
    fn rebuild(&mut self, cx: &mut Scope<C>, model: &mut M, _state: &mut Self::State) -> (r:
        Self::Output)
        ensures
            final(self).function() == old(self).function(),
            final(cx)@ == old(cx)@,
            exists|x: &mut M|
                *x == *old(model) && *final(x) == *final(model) && #[trigger] call_ensures(
                    old(self).function(),
                    (x,),
                    r,
                ),
    {
        proof {
            use_type_invariant(&*self);
        }
        let out = call_on(&self.f, model);
        assert(old(self).function() == self.f);
        out
    }
}

/// A task that provides `value` as the context value of its type number to
/// the tasks after it.
pub struct Provider<T> {
    type_number: u64,
    value: Rc<T>,
}

impl<T> Provider<T> {
    /// The value provided.
    pub closed spec fn value(self) -> T {
        *self.value
    }

    /// The number of the type it provides.
    pub closed spec fn type_number(self) -> u64 {
        self.type_number
    }
}

pub fn provider<T>(type_number: u64, value: T) -> (r: Provider<T>)
    ensures
        r.value() == value,
        r.type_number() == type_number,
{
    Provider { type_number, value: Rc::new(value) }
}

impl<M, T> Task<M, T> for Provider<T> {
    type Output = Rc<T>;

    type State = ();

    open spec fn runs_on(&self, contexts: Map<u64, T>) -> bool {
        true
    }

    /// It puts its value in the scope under its type number and returns it;
    /// the model is unchanged.
    open spec fn build_post(
        &self,
        contexts: Map<u64, T>,
        model: M,
        next_contexts: Map<u64, T>,
        next_model: M,
        output: Rc<T>,
        state: (),
    ) -> bool {
        *output == self.value() && next_contexts == contexts.insert(self.type_number(), self.value())
            && next_model == model
    }

    open spec fn rebuild_post(
        &self,
        contexts: Map<u64, T>,
        model: M,
        state: (),
        next_contexts: Map<u64, T>,
        next_model: M,
        next_state: (),
        output: Rc<T>,
    ) -> bool {
        *output == self.value() && next_contexts == contexts.insert(self.type_number(), self.value())
            && next_model == model
    }

    /// Puts the value in the scope under its type number, replacing what
    /// was there, and returns it.
    fn build(&mut self, cx: &mut Scope<T>, model: &mut M) -> (r: (Rc<T>, ()))
        ensures
            *r.0 == old(self).value(),
            final(cx)@ == old(cx)@.insert(old(self).type_number(), old(self).value()),
            *final(model) == *old(model),
            *final(self) == *old(self),
    {
        cx.contexts.insert(self.type_number, share(&self.value));
        proof {
            assert(cx@ =~= old(cx)@.insert(self.type_number, *self.value));
        }
        (share(&self.value), ())
    }

    /// Puts the value in the scope again and returns it.
    fn rebuild(&mut self, cx: &mut Scope<T>, model: &mut M, _state: &mut ()) -> (r: Rc<T>)
        ensures
            *r == old(self).value(),
            final(cx)@ == old(cx)@.insert(old(self).type_number(), old(self).value()),
            *final(model) == *old(model),
            *final(self) == *old(self),
    {
        cx.contexts.insert(self.type_number, share(&self.value));
        proof {
            assert(cx@ =~= old(cx)@.insert(self.type_number, *self.value));
        }
        share(&self.value)
    }
}

/// A task that runs `task`, then runs the task that `f` makes from its
/// output.
pub struct Then<T1, F, T2, M> {
    task: T1,
    f: F,
    _marker: PhantomData<(T2, M)>,
}

impl<T1, F, T2, M> Then<T1, F, T2, M> {
    pub closed spec fn first(self) -> T1 {
        self.task
    }

    pub closed spec fn next(self) -> F {
        self.f
    }

    pub fn new(task: T1, f: F) -> (r: Self)
        ensures
            r.first() == task,
            r.next() == f,
    {
        Self { task, f, _marker: PhantomData }
    }
}

/// The task that does nothing.
impl<M, C> Task<M, C> for () {
    type Output = ();

    type State = ();

    open spec fn runs_on(&self, contexts: Map<u64, C>) -> bool {
        true
    }

    /// It changes nothing.
    open spec fn build_post(
        &self,
        contexts: Map<u64, C>,
        model: M,
        next_contexts: Map<u64, C>,
        next_model: M,
        output: (),
        state: (),
    ) -> bool {
        next_contexts == contexts && next_model == model
    }

    open spec fn rebuild_post(
        &self,
        contexts: Map<u64, C>,
        model: M,
        state: (),
        next_contexts: Map<u64, C>,
        next_model: M,
        next_state: (),
        output: (),
    ) -> bool {
        next_contexts == contexts && next_model == model
    }

    fn build(&mut self, cx: &mut Scope<C>, _model: &mut M) -> (r: ((), ()))
        ensures
            *final(_model) == *old(_model),
            final(cx)@ == old(cx)@,
    {
        ((), ())
    }

    fn rebuild(&mut self, cx: &mut Scope<C>, _model: &mut M, _state: &mut ())
        ensures
            *final(_model) == *old(_model),
            final(cx)@ == old(cx)@,
    {
    }
}

/// After a provider has run, a context task of the same type number can
/// run and reads the value provided.
pub proof fn law_context_reads_what_was_provided<T>(
    p: Provider<T>,
    c: Context<T>,
    before: Map<u64, T>,
    after: Map<u64, T>,
)
    requires
        after == before.insert(p.type_number(), p.value()),
        c.type_number() == p.type_number(),
    ensures
        <Context<T> as Task<(), T>>::runs_on(&c, after),
        after[c.type_number()] == p.value(),
{
}

/// A model with the task that `make_task` makes from it, built once and
/// rebuilt after, in a scope of its own.
pub struct System<M, F, S, C> {
    pub model: M,
    make_task: F,
    state: Option<S>,
    cx: Scope<C>,
}

impl<M, F, S, C> System<M, F, S, C> {
    /// The model.
    pub closed spec fn model_value(self) -> M {
        self.model
    }

    /// The function that makes the task.
    pub closed spec fn make_task(self) -> F {
        self.make_task
    }

    /// The task's state, once it has been built.
    pub closed spec fn state(self) -> Option<S> {
        self.state
    }

    /// The context values provided so far.
    pub closed spec fn contexts(self) -> Map<u64, C> {
        self.cx@
    }

    /// A system that has not built its task yet.
    pub fn new(model: M, make_task: F) -> (r: Self)
        ensures
            r.model_value() == model,
            r.make_task() == make_task,
            r.state().is_none(),
            r.contexts() == Map::<u64, C>::empty(),
    {
        System { model, make_task, state: None, cx: Scope::new() }
    }

    /// Makes the task from the model and builds it, keeping its state.
    pub fn build<T>(&mut self) -> (r: T::Output) where
        F: Fn(&mut M) -> T,
        T: Task<M, C, State = S>,

        requires
            forall|x: &mut M| call_requires(old(self).make_task(), (x,)),
            forall|x: &mut M, t: T|
                #[trigger] call_ensures(old(self).make_task(), (x,), t) ==> t.runs_on(
                    old(self).contexts(),
                ),
        ensures
            final(self).state() is Some,
            final(self).make_task() == old(self).make_task(),
            exists|x: &mut M, t: T|
                *x == old(self).model_value() && #[trigger] call_ensures(
                    old(self).make_task(),
                    (x,),
                    t,
                ) && t.build_post(
                    old(self).contexts(),
                    *final(x),
                    final(self).contexts(),
                    final(self).model_value(),
                    r,
                    final(self).state()->0,
                ),
    {
        let mut task = call_on(&self.make_task, &mut self.model);
        assert(old(self).make_task() == self.make_task);
        let (output, state) = task.build(&mut self.cx, &mut self.model);
        self.state = Some(state);
        output
    }

    /// Makes the task from the model again and rebuilds it on the state
    /// kept; the task must have been built.
    pub fn rebuild<T>(&mut self) -> (r: T::Output) where
        F: Fn(&mut M) -> T,
        T: Task<M, C, State = S>,

        requires
            old(self).state() is Some,
            forall|x: &mut M| call_requires(old(self).make_task(), (x,)),
            forall|x: &mut M, t: T|
                #[trigger] call_ensures(old(self).make_task(), (x,), t) ==> t.runs_on(
                    old(self).contexts(),
                ),
        ensures
            final(self).state() is Some,
            final(self).make_task() == old(self).make_task(),
            exists|x: &mut M, t: T|
                *x == old(self).model_value() && #[trigger] call_ensures(
                    old(self).make_task(),
                    (x,),
                    t,
                ) && t.rebuild_post(
                    old(self).contexts(),
                    *final(x),
                    old(self).state()->0,
                    final(self).contexts(),
                    final(self).model_value(),
                    final(self).state()->0,
                    r,
                ),
    {
        let mut task = call_on(&self.make_task, &mut self.model);
        assert(old(self).make_task() == self.make_task);
        match self.state.as_mut() {
            Some(state) => task.rebuild(&mut self.cx, &mut self.model, state),
            None => task.build(&mut self.cx, &mut self.model).0,
        }
    }
}

} // verus!
