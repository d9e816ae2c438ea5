use scoped_context::{Context, Item, Slot, StackGuard, StackPin};

#[test]
fn push_pop() {
    let mut context = Context::new(16);
    let stack_pin = StackPin::new();
    let item = Item::from_ref(&mut context, &stack_pin, 10);
    let guard = StackGuard::from_ref(&context, &stack_pin).expect("tried to get from an empty context");
    assert_eq!(*item.get(&context), 10);
    assert_eq!(*guard.get(&context), 10);
}

#[test]
fn push_lots() {
    let mut ctx = Context::new(16);

    for _ in 0..100 {
        ctx.push(Box::new(10));
    }
}

#[test]
fn push_then_pop_scenario() {
    let mut context = Context::new(16);
    let pin = StackPin::new();
    let item = Item::from_ref(&mut context, &pin, 10);
    assert_eq!(context.len(), 1);
    let guard = StackGuard::from_ref(&context, &pin).unwrap();
    assert_eq!(*guard.get(&context), 10);
    item.release(&mut context);
    assert_eq!(context.len(), 0);
    assert!(context.is_empty());
}

#[test]
fn guard_of_empty_context_is_none() {
    let context: Context<i32> = Context::new(16);
    let pin = StackPin::new();
    assert!(StackGuard::from_ref(&context, &pin).is_none());
    assert_eq!(context.top(), None);
}

#[test]
fn strict_guard_looks_at_the_newest_element() {
    let mut context = Context::new(4);
    let pin = StackPin::new();
    context.push(1);
    context.push(2);
    let guard = StackGuard::from_ref_strict(&context, &pin);
    assert_eq!(guard.slot(), Slot { block: 0, offset: 1 });
    assert_eq!(*guard.get(&context), 2);
}

#[test]
fn item_remembers_its_slot() {
    let mut context = Context::new(2);
    let pin = StackPin::new();
    let a = Item::from_ref(&mut context, &pin, 'a');
    let b = Item::from_ref(&mut context, &pin, 'b');
    let c = Item::from_ref(&mut context, &pin, 'c');
    assert_eq!(a.slot(), Slot { block: 0, offset: 0 });
    assert_eq!(b.slot(), Slot { block: 0, offset: 1 });
    assert_eq!(c.slot(), Slot { block: 1, offset: 0 });
    assert_eq!(*a.get(&context), 'a');
    assert_eq!(*b.get(&context), 'b');
    assert_eq!(*c.get(&context), 'c');
}

#[test]
fn guard_of_item_reads_the_pushed_value() {
    let mut context = Context::new(3);
    let pin = StackPin::new();
    let outer = Item::from_ref(&mut context, &pin, String::from("outer"));
    let inner = Item::from_ref(&mut context, &pin, String::from("inner"));
    let guard = outer.guard();
    assert_eq!(guard.slot(), outer.slot());
    assert_eq!(guard.get(&context), "outer");
    assert_eq!(inner.guard().get(&context), "inner");
}

#[test]
fn nested_scopes_release_in_reverse_order() {
    let mut context = Context::new(2);
    let pin = StackPin::new();
    let first = Item::from_ref(&mut context, &pin, 1);
    {
        let inner_pin = StackPin::new();
        let second = Item::from_ref(&mut context, &inner_pin, 2);
        {
            let innermost_pin = StackPin::new();
            let third = Item::from_ref(&mut context, &innermost_pin, 3);
            assert_eq!(context.top(), Some(third.slot()));
            assert_eq!(*StackGuard::from_ref_strict(&context, &innermost_pin).get(&context), 3);
            third.release(&mut context);
        }
        assert_eq!(context.top(), Some(second.slot()));
        assert_eq!(*StackGuard::from_ref_strict(&context, &inner_pin).get(&context), 2);
        second.release(&mut context);
    }
    assert_eq!(context.top(), Some(first.slot()));
    assert_eq!(*StackGuard::from_ref_strict(&context, &pin).get(&context), 1);
    first.release(&mut context);
    assert_eq!(context.len(), 0);
    assert_eq!(context.block_count(), 2);
}

#[test]
fn guard_stays_valid_while_inner_scopes_come_and_go() {
    let mut context = Context::new(2);
    let pin = StackPin::new();
    let outer = Item::from_ref(&mut context, &pin, 7);
    let guard = StackGuard::from_ref_strict(&context, &pin);
    for round in 0..5 {
        let a = Item::from_ref(&mut context, &pin, 100 + round);
        let b = Item::from_ref(&mut context, &pin, 200 + round);
        assert!(context.is_live(guard.slot()));
        assert_eq!(*guard.get(&context), 7);
        assert_eq!(*b.get(&context), 200 + round);
        b.release(&mut context);
        a.release(&mut context);
        assert_eq!(*guard.get(&context), 7);
    }
    outer.release(&mut context);
    assert!(!context.is_live(guard.slot()));
}
