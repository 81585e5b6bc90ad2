//! Hooks: values a composable keeps from one composition to the next,
//! found again by the order in which the composable asks for them.
use std::rc::Rc;
use vstd::prelude::*;

verus! {

/// `Rc::clone`: another pointer to the same value.
#[verifier::external_body]
pub(crate) fn share<V>(rc: &Rc<V>) -> (r: Rc<V>)
    ensures
        r == *rc,
{
    Rc::clone(rc)
}

/// The hooks of one composable: its hook values and drop callbacks, each
/// with the position of the next one to be asked for.
pub struct Scope<V, D> {
    pub hooks: Vec<Rc<V>>,
    pub idx: usize,
    pub on_drops: Vec<D>,
    pub drops_idx: usize,
}

impl<V, D> Scope<V, D> {
    /// A scope without hooks.
    pub fn new() -> (r: Self)
        ensures
            r.hooks@ == Seq::<Rc<V>>::empty(),
            r.idx == 0,
            r.on_drops@ == Seq::<D>::empty(),
            r.drops_idx == 0,
    {
        Scope { hooks: Vec::new(), idx: 0, on_drops: Vec::new(), drops_idx: 0 }
    }

    /// Starts a new composition: hooks and drop callbacks are asked for
    /// from the first again.
    pub fn reset(&mut self)
        ensures
            final(self).hooks@ == old(self).hooks@,
            final(self).on_drops@ == old(self).on_drops@,
            final(self).idx == 0,
            final(self).drops_idx == 0,
    {
        self.idx = 0;
        self.drops_idx = 0;
    }
}

/// Relates a scope to the one `use_hook_value` leaves and the hook it
/// returns.
pub open spec fn use_hook_post<V, D>(scope: Scope<V, D>, next: Scope<V, D>, r: Rc<V>) -> bool {
    &&& next.idx == scope.idx + 1
    &&& next.on_drops@ == scope.on_drops@
    &&& next.drops_idx == scope.drops_idx
    &&& if scope.idx < scope.hooks@.len() {
        &&& r == scope.hooks@[scope.idx as int]
        &&& next.hooks@ == scope.hooks@
    } else {
        next.hooks@ == scope.hooks@.push(r)
    }
}

/// Returns the hook at the scope's position, creating it with `make_value`
/// when the scope has no hook there yet, and advances the position.
pub fn use_hook_value<V, D>(scope: &mut Scope<V, D>, make_value: impl FnOnce() -> V) -> (r: Rc<V>)
    requires
        old(scope).idx < usize::MAX,
        old(scope).idx >= old(scope).hooks@.len() ==> call_requires(make_value, ()),
    ensures
        use_hook_post(*old(scope), *final(scope), r),
        old(scope).idx >= old(scope).hooks@.len() ==> call_ensures(make_value, (), *r),
{
    let value = if scope.idx < scope.hooks.len() {
        share(&scope.hooks[scope.idx])
    } else {
        let v = Rc::new(make_value());
        scope.hooks.push(share(&v));
        v
    };
    scope.idx = scope.idx + 1;
    value
}

/// Registers `on_drop` to run when the composable is dropped, unless a
/// callback is registered at the scope's drop position already.
pub fn use_on_drop<V, D>(scope: &mut Scope<V, D>, on_drop: D)
    requires
        old(scope).drops_idx < usize::MAX,
    ensures
        final(scope).hooks@ == old(scope).hooks@,
        final(scope).idx == old(scope).idx,
        if old(scope).drops_idx >= old(scope).on_drops@.len() {
            &&& final(scope).on_drops@ == old(scope).on_drops@.push(on_drop)
            &&& final(scope).drops_idx == old(scope).drops_idx + 1
        } else {
            &&& final(scope).on_drops@ == old(scope).on_drops@
            &&& final(scope).drops_idx == old(scope).drops_idx
        },
{
    if scope.drops_idx >= scope.on_drops.len() {
        scope.on_drops.push(on_drop);
        scope.drops_idx = scope.drops_idx + 1;
    }
}

/// Asking for a hook never drops or changes the hooks already there.
pub proof fn law_hooks_only_grow<V, D>(scope: Scope<V, D>, next: Scope<V, D>, r: Rc<V>)
    requires
        use_hook_post(scope, next, r),
    ensures
        next.hooks@.len() >= scope.hooks@.len(),
        next.hooks@.subrange(0, scope.hooks@.len() as int) == scope.hooks@,
{
    assert(next.hooks@.subrange(0, scope.hooks@.len() as int) =~= scope.hooks@);
}

/// A hook keeps its value across compositions: a hook created at some
/// position is the one returned when a later composition, whose hooks
/// extend those the creation left, asks again at that position.
pub proof fn law_hook_survives_recomposition<V, D>(
    first: Scope<V, D>,
    created: Rc<V>,
    after: Scope<V, D>,
    again: Scope<V, D>,
    found: Rc<V>,
    later: Scope<V, D>,
)
    requires
        first.idx == first.hooks@.len(),
        use_hook_post(first, after, created),
        again.hooks@.len() >= after.hooks@.len(),
        again.hooks@.subrange(0, after.hooks@.len() as int) == after.hooks@,
        again.idx == first.idx,
        use_hook_post(again, later, found),
    ensures
        found == created,
{
    assert(again.hooks@[again.idx as int] == again.hooks@.subrange(0, after.hooks@.len() as int)[again.idx as int]);
}

} // verus!
