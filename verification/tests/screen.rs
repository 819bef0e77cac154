use foxiefox::screen::ScreenStack;

#[test]
fn screen_stack_pops_what_was_pushed_last() {
    let mut stack: ScreenStack<&str> = ScreenStack::new();
    assert_eq!(stack.pop_screen(), None);
    stack.push_screen("menu");
    stack.push_screen("dialog");
    assert_eq!(stack.len(), 2);
    assert_eq!(stack.pop_screen(), Some("dialog"));
    assert_eq!(stack.len(), 1);
    assert_eq!(stack.pop_screen(), Some("menu"));
    assert_eq!(stack.pop_screen(), None);
    assert_eq!(stack.len(), 0);
}

#[test]
fn screen_stack_push_then_pop_leaves_it_unchanged() {
    let mut stack: ScreenStack<u32> = ScreenStack::new();
    stack.push_screen(1);
    stack.push_screen(2);
    stack.push_screen(3);
    assert_eq!(stack.pop_screen(), Some(3));
    assert_eq!(stack.draw_order(), vec![0, 1]);
    assert_eq!(*stack.screen_mut(0), 1);
    assert_eq!(*stack.screen_mut(1), 2);
}

#[test]
fn screen_stack_events_top_first_drawing_bottom_first() {
    let mut stack: ScreenStack<char> = ScreenStack::new();
    assert_eq!(stack.event_order(), Vec::<usize>::new());
    assert_eq!(stack.draw_order(), Vec::<usize>::new());
    stack.push_screen('a');
    stack.push_screen('b');
    stack.push_screen('c');
    assert_eq!(stack.event_order(), vec![2, 1, 0]);
    assert_eq!(stack.draw_order(), vec![0, 1, 2]);
    let heard: Vec<char> = stack.event_order().into_iter().map(|i| *stack.screen_mut(i)).collect();
    assert_eq!(heard, vec!['c', 'b', 'a']);
}

#[test]
fn screen_stack_screens_can_be_changed_in_place() {
    let mut stack: ScreenStack<u32> = ScreenStack::new();
    stack.push_screen(10);
    stack.push_screen(20);
    *stack.screen_mut(0) += 5;
    assert_eq!(stack.pop_screen(), Some(20));
    assert_eq!(stack.pop_screen(), Some(15));
}
