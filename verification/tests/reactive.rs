use std::cell::RefCell;
use std::rc::Rc;

use domius::computed::{computed, computed_in_scope};
use domius::runtime::{
    batch, create_effect, create_scope, dispose_scope, signal, Computation, Reaction, Runtime,
};
use domius::signal::SignalStore;

struct Effect<F>(F);

impl<F: Fn(&mut SignalStore<i32>)> Reaction<i32> for Effect<F> {
    fn run(&self, cx: &mut SignalStore<i32>) {
        (self.0)(cx)
    }
}

struct Calc<F>(F);

impl<F: Fn(&mut SignalStore<i32>) -> i32> Computation<i32> for Calc<F> {
    fn compute(&self, cx: &mut SignalStore<i32>) -> i32 {
        (self.0)(cx)
    }
}

#[test]
fn computed_basic_lazy_evaluation() {
    let mut rt = Runtime::new();
    let source = signal(&mut rt, 1);
    let eval_count = Rc::new(RefCell::new(0));

    let count_clone = Rc::clone(&eval_count);
    let comp = computed(
        &mut rt,
        Box::new(Calc(move |cx: &mut SignalStore<i32>| {
            *count_clone.borrow_mut() += 1;
            cx.get(source) * 2
        })),
    );

    // Initial: computed runs once in new(), then once more in effect setup = 2 evals
    assert_eq!(comp.get(&mut rt), 2);
    assert_eq!(*eval_count.borrow(), 2);

    // Change source: computed should re-evaluate (1 more = 3 total)
    source.set(&mut rt, 2);
    assert_eq!(comp.get(&mut rt), 4);
    assert_eq!(*eval_count.borrow(), 3);

    // Read again without changing source: should not re-evaluate
    assert_eq!(comp.get(&mut rt), 4);
    assert_eq!(*eval_count.borrow(), 3);

    // Change source again
    source.set(&mut rt, 3);
    assert_eq!(comp.get(&mut rt), 6);
    assert_eq!(*eval_count.borrow(), 4);
}

#[test]
fn computed_chain_a_b_c() {
    // A -> B (A*2) -> C (B+1)
    let mut rt = Runtime::new();
    let a = signal(&mut rt, 1);
    let b = computed(&mut rt, Box::new(Calc(move |cx: &mut SignalStore<i32>| cx.get(a) * 2)));
    let c = computed(
        &mut rt,
        Box::new(Calc(move |cx: &mut SignalStore<i32>| b.track(cx) + 1)),
    );

    // Initial: a=1, b=2, c=3
    assert_eq!(c.get(&mut rt), 3);

    // Change a: propagates through chain
    a.set(&mut rt, 2);
    assert_eq!(b.get(&mut rt), 4);
    assert_eq!(c.get(&mut rt), 5);

    a.set(&mut rt, 5);
    assert_eq!(b.get(&mut rt), 10);
    assert_eq!(c.get(&mut rt), 11);
}

#[test]
fn computed_shared_no_double_eval() {
    // Two effects read the same computed: it should only re-evaluate once per change
    let mut rt = Runtime::new();
    let source = signal(&mut rt, 1);
    let eval_count = Rc::new(RefCell::new(0));

    let count_clone = Rc::clone(&eval_count);
    let comp = computed(
        &mut rt,
        Box::new(Calc(move |cx: &mut SignalStore<i32>| {
            *count_clone.borrow_mut() += 1;
            cx.get(source) * 2
        })),
    );

    let reads = Rc::new(RefCell::new(Vec::new()));

    // Effect 1 reads computed
    let reads1 = Rc::clone(&reads);
    create_effect(
        &mut rt,
        Box::new(Effect(move |cx: &mut SignalStore<i32>| {
            let v = comp.track(cx);
            reads1.borrow_mut().push(v);
        })),
    );

    // Effect 2 reads computed
    let reads2 = Rc::clone(&reads);
    create_effect(
        &mut rt,
        Box::new(Effect(move |cx: &mut SignalStore<i32>| {
            let v = comp.track(cx);
            reads2.borrow_mut().push(v);
        })),
    );

    // Initial: computed runs 2 times (new + effect), both external effects see 2
    assert_eq!(*eval_count.borrow(), 2);
    assert_eq!(*reads.borrow(), vec![2, 2]);

    // Change source: computed should evaluate once (1 more = 3 total)
    // Both external effects should have run again with new value
    source.set(&mut rt, 2);
    assert_eq!(*eval_count.borrow(), 3);
    assert_eq!(*reads.borrow(), vec![2, 2, 4, 4]);
}

#[test]
fn scoped_computed_stops_evaluating_after_disposal() {
    let mut rt = Runtime::new();
    let source = signal(&mut rt, 1);
    let evaluations = Rc::new(RefCell::new(0));
    let scope = create_scope(&mut rt, None);
    let counted = Rc::clone(&evaluations);
    let computed = computed_in_scope(
        &mut rt,
        scope,
        Box::new(Calc(move |cx: &mut SignalStore<i32>| {
            *counted.borrow_mut() += 1;
            cx.get(source) * 2
        })),
    )
    .expect("scope should be alive");

    assert_eq!(computed.get(&mut rt), 2);
    source.set(&mut rt, 2);
    assert_eq!(computed.get(&mut rt), 4);
    let before_disposal = *evaluations.borrow();

    dispose_scope(&mut rt, scope);
    source.set(&mut rt, 3);

    assert_eq!(*evaluations.borrow(), before_disposal);
    assert_eq!(computed.get(&mut rt), 4);
}

#[test]
fn signal_get_set_works_and_tracks() {
    let mut rt = Runtime::new();
    let counter = signal(&mut rt, 0);
    let runs = Rc::new(RefCell::new(0));

    let runs_clone = Rc::clone(&runs);
    create_effect(
        &mut rt,
        Box::new(Effect(move |cx: &mut SignalStore<i32>| {
            let _ = cx.get(counter);
            *runs_clone.borrow_mut() += 1;
        })),
    );

    assert_eq!(*runs.borrow(), 1);
    counter.set(&mut rt, 1);
    // Effects are scheduled; in this simple runtime they run immediately
    assert_eq!(*runs.borrow(), 2);
}

// --- Further behaviour ---

#[test]
fn write_without_subscribers_reads_back() {
    let mut rt = Runtime::new();
    let s = signal(&mut rt, 7);
    s.set(&mut rt, 9);
    assert_eq!(s.get(&mut rt), 9);
    assert!(s.signal_core(&rt).subscribers.is_empty());
}

#[test]
fn effect_subscribes_once_even_after_repeated_reads() {
    let mut rt = Runtime::new();
    let s = signal(&mut rt, 0);
    create_effect(
        &mut rt,
        Box::new(Effect(move |cx: &mut SignalStore<i32>| {
            let _ = cx.get(s);
            let _ = cx.get(s);
        })),
    );
    assert_eq!(s.signal_core(&rt).subscribers.len(), 1);
    s.set(&mut rt, 1);
    assert_eq!(s.signal_core(&rt).subscribers.len(), 1);
}

#[test]
fn update_applies_function_and_notifies() {
    let mut rt = Runtime::new();
    let s = signal(&mut rt, 20);
    let seen = Rc::new(RefCell::new(Vec::new()));
    let seen_clone = Rc::clone(&seen);
    create_effect(
        &mut rt,
        Box::new(Effect(move |cx: &mut SignalStore<i32>| {
            let v = cx.get(s);
            seen_clone.borrow_mut().push(v);
        })),
    );
    s.update(&mut rt, |v| v + 1);
    assert_eq!(s.get(&mut rt), 21);
    assert_eq!(*seen.borrow(), vec![20, 21]);
}

#[test]
fn batch_runs_each_dependent_once() {
    let mut rt = Runtime::new();
    let a = signal(&mut rt, 1);
    let b = signal(&mut rt, 2);
    let runs = Rc::new(RefCell::new(0));
    let runs_clone = Rc::clone(&runs);
    create_effect(
        &mut rt,
        Box::new(Effect(move |cx: &mut SignalStore<i32>| {
            let _ = cx.get(a) + cx.get(b);
            *runs_clone.borrow_mut() += 1;
        })),
    );
    assert_eq!(*runs.borrow(), 1);
    batch(
        &mut rt,
        &Effect(move |cx: &mut SignalStore<i32>| {
            cx.set(a, 10);
            cx.set(b, 20);
        }),
    );
    assert_eq!(*runs.borrow(), 2);
}

#[test]
fn disposing_parent_scope_stops_child_effects() {
    let mut rt = Runtime::new();
    let s = signal(&mut rt, 0);
    let parent = create_scope(&mut rt, None);
    let child = rt.create_scope(Some(parent));
    let runs = Rc::new(RefCell::new(0));
    let runs_clone = Rc::clone(&runs);
    let e = rt.create_effect_in_scope(
        child,
        Box::new(Effect(move |cx: &mut SignalStore<i32>| {
            let _ = cx.get(s);
            *runs_clone.borrow_mut() += 1;
        })),
    );
    assert!(e.is_some());
    assert_eq!(*runs.borrow(), 1);
    dispose_scope(&mut rt, parent);
    assert!(!rt.is_scope_alive(child));
    s.set(&mut rt, 5);
    assert_eq!(*runs.borrow(), 1);
    assert!(rt.create_effect_in_scope(child, Box::new(Effect(|_: &mut SignalStore<i32>| {}))).is_none());
}
