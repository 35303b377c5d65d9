use navni::scene::{SceneStack, StackOp};

#[test]
fn stack_operations() {
    let mut stack = SceneStack::new("menu");
    assert!(!stack.is_empty());
    stack.apply(None);
    stack.apply(Some(StackOp::Push("game")));
    stack.apply(Some(StackOp::Replace("pause")));
    let mut seen = Vec::new();
    stack.update(|top| {
        seen.push(top);
        (top, Some(StackOp::Pop))
    });
    stack.update(|top| {
        seen.push(top);
        (top, None)
    });
    stack.update(|top| {
        seen.push(top);
        ("title", Some(StackOp::Pop))
    });
    assert_eq!(seen, vec!["pause", "menu", "menu"]);
    assert!(stack.is_empty());
}

#[test]
fn empty_stack_stays_empty() {
    let mut stack = SceneStack::new(1);
    stack.apply(Some(StackOp::Pop));
    assert!(stack.is_empty());
    let mut ran = false;
    stack.update(|top| {
        ran = true;
        (top, Some(StackOp::Push(2)))
    });
    assert!(!ran);
    assert!(stack.is_empty());
    stack.apply(Some(StackOp::Pop));
    assert!(stack.is_empty());
    stack.apply(Some(StackOp::Replace(3)));
    assert!(!stack.is_empty());
}
