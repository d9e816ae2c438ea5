use scoped_context::Context;
use std::cell::Cell;
use std::rc::Rc;

struct Counted {
    id: usize,
    drops: Rc<Vec<Cell<usize>>>,
}

impl Drop for Counted {
    fn drop(&mut self) {
        let seen = &self.drops[self.id];
        seen.set(seen.get() + 1);
    }
}

fn counters(n: usize) -> Rc<Vec<Cell<usize>>> {
    Rc::new((0..n).map(|_| Cell::new(0)).collect())
}

fn filled(capacity: usize, n: usize, drops: &Rc<Vec<Cell<usize>>>) -> Context<Counted> {
    let mut context = Context::new(capacity);
    for id in 0..n {
        context.push(Counted { id, drops: drops.clone() });
    }
    context
}

fn each_dropped_once(drops: &Rc<Vec<Cell<usize>>>) -> bool {
    drops.iter().all(|seen| seen.get() == 1)
}

#[test]
fn teardown_hands_over_every_element_in_order() {
    let mut context = Context::new(4);
    for value in 0..10 {
        context.push(value);
    }
    assert_eq!(context.teardown(), vec![0, 1, 2, 3, 4, 5, 6, 7, 8, 9]);
}

#[test]
fn teardown_of_empty_context_hands_over_nothing() {
    let context: Context<String> = Context::new(4);
    assert!(context.teardown().is_empty());
}

#[test]
fn teardown_leaves_out_popped_elements() {
    let mut context = Context::new(2);
    for value in 0..7 {
        context.push(value);
    }
    for _ in 0..4 {
        context.pop();
    }
    context.push(30);
    assert_eq!(context.block_count(), 4);
    assert_eq!(context.teardown(), vec![0, 1, 2, 30]);
}

#[test]
fn dropping_a_context_destructs_each_element_once() {
    let capacity = 16;
    for n in [0, capacity - 1, capacity, capacity + 1] {
        let drops = counters(n);
        let context = filled(capacity, n, &drops);
        assert_eq!(context.len(), n);
        assert!(drops.iter().all(|seen| seen.get() == 0));
        drop(context);
        assert!(each_dropped_once(&drops));
    }
}

#[test]
fn teardown_destructs_each_element_once() {
    let capacity = 16;
    for n in [0, capacity - 1, capacity, capacity + 1] {
        let drops = counters(n);
        let values = filled(capacity, n, &drops).teardown();
        assert_eq!(values.len(), n);
        assert!(drops.iter().all(|seen| seen.get() == 0));
        drop(values);
        assert!(each_dropped_once(&drops));
    }
}

#[test]
fn hundred_elements_are_destructed_once_each() {
    let drops = counters(100);
    let context = filled(16, 100, &drops);
    assert_eq!(context.block_count(), 7);
    drop(context);
    assert!(each_dropped_once(&drops));
}

#[test]
fn pop_destructs_the_popped_element_once() {
    let drops = counters(3);
    let mut context = filled(2, 3, &drops);
    context.pop();
    assert_eq!(drops[2].get(), 1);
    assert_eq!(drops[1].get(), 0);
    drop(context);
    assert!(each_dropped_once(&drops));
}
