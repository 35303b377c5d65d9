//! A stack of scenes, of which the topmost runs.
use vstd::prelude::*;

verus! {

/// What a scene wants done with the stack after it has run.
pub enum StackOp<S> {
    /// Exit current scene.
    Pop,
    /// Push a new scene on top of the current one.
    Push(S),
    /// Replace current scene with a different one.
    Replace(S),
}

/// The scenes below the one on top.
pub open spec fn below_top<S>(scenes: Seq<S>) -> Seq<S> {
    if scenes.len() > 0 {
        scenes.drop_last()
    } else {
        scenes
    }
}

/// The scenes of a stack after the one on top asked for `op`.
pub open spec fn applied<S>(scenes: Seq<S>, op: Option<StackOp<S>>) -> Seq<S> {
    match op {
        None => scenes,
        Some(StackOp::Pop) => below_top(scenes),
        Some(StackOp::Push(scene)) => scenes.push(scene),
        Some(StackOp::Replace(scene)) => below_top(scenes).push(scene),
    }
}

/// Scenes of an application. The scene on top runs and says what is to
/// become of the stack.
pub struct SceneStack<S> {
    scenes: Vec<S>,
}

impl<S> View for SceneStack<S> {
    type V = Seq<S>;

    closed spec fn view(&self) -> Seq<S> {
        self.scenes@
    }
}

impl<S> SceneStack<S> {
    pub fn new(initial_scene: S) -> (stack: Self)
        ensures
            stack@ == seq![initial_scene],
    {
        let mut scenes = Vec::new();
        scenes.push(initial_scene);
        SceneStack { scenes }
    }

    pub fn is_empty(&self) -> (empty: bool)
        ensures
            empty == (self@.len() == 0),
    {
        self.scenes.len() == 0
    }

    /// Do what the scene on top asked for.
    pub fn apply(&mut self, op: Option<StackOp<S>>)
        ensures
            final(self)@ == applied(old(self)@, op),
    {
        match op {
            None => {},
            Some(StackOp::Pop) => {
                self.scenes.pop();
            },
            Some(StackOp::Push(s)) => {
                self.scenes.push(s);
            },
            Some(StackOp::Replace(s)) => {
                self.scenes.pop();
                self.scenes.push(s);
            },
        }
    }
}

impl<S> SceneStack<S> {
    /// Let the scene on top run, and do what it asks for. Nothing happens
    /// on an empty stack.
    pub fn update<F: FnOnce(S) -> (S, Option<StackOp<S>>)>(&mut self, run: F)
        requires
            forall|scene: S| call_requires(run, (scene,)),
        ensures
            old(self)@.len() == 0 ==> final(self)@ == old(self)@,
            old(self)@.len() > 0 ==> exists|after: S, op: Option<StackOp<S>>|
                {
                    &&& #[trigger] call_ensures(run, (old(self)@.last(),), (after, op))
                    &&& final(self)@ == applied(old(self)@.drop_last().push(after), op)
                },
    {
        match self.scenes.pop() {
            None => {},
            Some(top) => {
                assert(top == old(self)@.last());
                assert(self@ =~= old(self)@.drop_last());
                let (after, op) = run(top);
                self.scenes.push(after);
                self.apply(op);
                assert(call_ensures(run, (old(self)@.last(),), (after, op)));
                assert(self@ == applied(old(self)@.drop_last().push(after), op));
            },
        }
    }
}

} // verus!
