use concoct::hooks::{use_hook_value, use_on_drop, Scope};
use concoct::snapshot::mutation_policy::{MutationPolicy, ReferentialEqualityPolicy};
use concoct::native::WebView;
use concoct::task::{context, from_fn, provider, Task, Then};

#[test]
fn hooks_persist_across_compositions() {
    let mut scope: Scope<u32, u8> = Scope::new();
    let a = use_hook_value(&mut scope, || 1);
    let b = use_hook_value(&mut scope, || 2);
    assert_eq!((*a, *b), (1, 2));
    scope.reset();
    let a2 = use_hook_value(&mut scope, || 10);
    let b2 = use_hook_value(&mut scope, || 20);
    assert_eq!((*a2, *b2), (1, 2));
    assert!(std::rc::Rc::ptr_eq(&a, &a2));
    let c = use_hook_value(&mut scope, || 30);
    assert_eq!(*c, 30);
    assert_eq!(scope.hooks.len(), 3);
}

#[test]
fn on_drop_registers_only_past_the_end() {
    let mut scope: Scope<u32, u8> = Scope::new();
    use_on_drop(&mut scope, 1);
    use_on_drop(&mut scope, 2);
    assert_eq!(scope.on_drops, vec![1, 2]);
    assert_eq!(scope.drops_idx, 2);
    scope.reset();
    assert_eq!(scope.drops_idx, 0);
    use_on_drop(&mut scope, 3);
    assert_eq!(scope.on_drops, vec![1, 2]);
    assert_eq!(scope.drops_idx, 0);
}

#[test]
fn referential_equality() {
    let mut policy = ReferentialEqualityPolicy;
    assert!(policy.is_eq(3, 3));
    assert!(!policy.is_eq(3, 4));
    assert_eq!(MutationPolicy::<i32>::merge(&mut policy, 1, 2, 3), None);
}

#[test]
fn task_constructors() {
    let _ = context::<u8>(1);
    let _ = from_fn(|m: &mut u8| *m + 1);
    let _ = provider(1, 5u8);
    let _ = Then::<u8, fn(&mut u8, u8) -> u8, u8, u8>::new(1u8, |_, o| o);
    assert!(WebView::new(3) == WebView {});
}

#[test]
fn from_fn_runs_its_function_on_each_build() {
    let mut task = from_fn(|m: &mut u8| {
        *m += 1;
        *m * 10
    });
    let mut cx: concoct::task::Scope<u32> = concoct::task::Scope::new();
    let mut model = 1u8;
    let (out, mut state) = task.build(&mut cx, &mut model);
    assert_eq!((out, model), (20, 2));
    assert_eq!(task.rebuild(&mut cx, &mut model, &mut state), 30);
    assert_eq!(model, 3);
    let mut unit = ();
    let mut model = 7u8;
    assert_eq!(Task::<u8, u32>::build(&mut unit, &mut cx, &mut model), ((), ()));
    assert_eq!(model, 7);
}

#[test]
fn context_reads_what_the_provider_put_in_the_scope() {
    let mut cx: concoct::task::Scope<String> = concoct::task::Scope::new();
    let mut model = ();
    let mut p = provider(3, "dark".to_string());
    let (given, mut state) = p.build(&mut cx, &mut model);
    assert_eq!(*given, "dark");
    let mut c = context::<String>(3);
    let (read, mut cstate) = c.build(&mut cx, &mut model);
    assert!(std::rc::Rc::ptr_eq(&given, &read));
    let mut q = provider(3, "light".to_string());
    assert_eq!(*q.rebuild(&mut cx, &mut model, &mut state), "light");
    assert_eq!(*c.rebuild(&mut cx, &mut model, &mut cstate), "light");
}

#[test]
fn system_builds_then_rebuilds_its_task() {
    let mut s: concoct::task::System<u8, _, (), u32> = concoct::task::System::new(
        1u8,
        |m: &mut u8| {
            *m += 1;
            from_fn(|x: &mut u8| *x * 2)
        },
    );
    assert_eq!(s.build(), 4);
    assert_eq!(s.model, 2);
    assert_eq!(s.rebuild(), 6);
    assert_eq!(s.model, 3);
}
