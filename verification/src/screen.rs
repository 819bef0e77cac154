//! A stack of possibly transparent screens: events go to the top-most screen
//! first, drawing starts at the bottom.

use vstd::prelude::*;

verus! {

/// A stack of screens, the bottom one first.
pub struct ScreenStack<S> {
    stack: Vec<S>,
}

impl<S> View for ScreenStack<S> {
    type V = Seq<S>;

    /// The screens, the bottom one first.
    closed spec fn view(&self) -> Seq<S> {
        self.stack@
    }
}

/// The stack with `screen` put on top.
pub open spec fn pushed<S>(stack: Seq<S>, screen: S) -> Seq<S> {
    stack.push(screen)
}

/// The top screen, if any, and the stack without it.
pub open spec fn popped<S>(stack: Seq<S>) -> (Option<S>, Seq<S>) {
    if stack.len() == 0 {
        (None, stack)
    } else {
        (Some(stack.last()), stack.drop_last())
    }
}

/// The positions of a stack of `len` screens from the top one down.
pub open spec fn top_down(len: nat) -> Seq<usize> {
    Seq::new(len, |i: int| (len - 1 - i) as usize)
}

/// The positions of a stack of `len` screens from the bottom one up.
pub open spec fn bottom_up(len: nat) -> Seq<usize> {
    Seq::new(len, |i: int| i as usize)
}

impl<S> ScreenStack<S> {
    /// An empty stack.
    pub fn new() -> (res: Self)
        ensures
            res@ == Seq::<S>::empty(),
    {
        ScreenStack { stack: Vec::new() }
    }

    /// Number of screens.
    pub fn len(&self) -> (res: usize)
        ensures
            res == self@.len(),
    {
        self.stack.len()
    }

    /// Puts `screen` on top.
    pub fn push_screen(&mut self, screen: S)
        ensures
            final(self)@ == pushed(old(self)@, screen),
    {
        self.stack.push(screen);
    }

    /// Takes the top screen off, if there is one.
    pub fn pop_screen(&mut self) -> (res: Option<S>)
        ensures
            (res, final(self)@) == popped(old(self)@),
    {
        self.stack.pop()
    }

    /// The screen at `index`, counted from the bottom, to work on.
    pub fn screen_mut(&mut self, index: usize) -> (res: &mut S)
        requires
            index < old(self)@.len(),
        ensures
            *res == old(self)@[index as int],
            final(self)@ == old(self)@.update(index as int, *final(res)),
    {
        &mut self.stack[index]
    }

    /// The order screens get events in: the top one first, down to the
    /// bottom one.
    pub fn event_order(&self) -> (res: Vec<usize>)
        ensures
            res@ == top_down(self@.len()),
    {
        let n = self.stack.len();
        let mut res: Vec<usize> = Vec::new();
        let mut i: usize = n;
        while i > 0
            invariant
                i <= n,
                n == self@.len(),
                res@.len() == n - i,
                forall|k: int| 0 <= k < n - i ==> #[trigger] res@[k] == n - 1 - k,
            decreases i,
        {
            i = i - 1;
            res.push(i);
        }
        assert(res@ =~= top_down(self@.len()));
        res
    }

    /// The order screens are drawn in: the bottom one first, up to the top
    /// one, which is drawn over the others.
    pub fn draw_order(&self) -> (res: Vec<usize>)
        ensures
            res@ == bottom_up(self@.len()),
    {
        let n = self.stack.len();
        let mut res: Vec<usize> = Vec::new();
        let mut i: usize = 0;
        while i < n
            invariant
                i <= n,
                n == self@.len(),
                res@.len() == i,
                forall|k: int| 0 <= k < i ==> #[trigger] res@[k] == k,
            decreases n - i,
        {
            res.push(i);
            i = i + 1;
        }
        assert(res@ =~= bottom_up(self@.len()));
        res
    }
}

/// Taking the top screen off a stack that `screen` was just put on gives
/// `screen` back and leaves the stack as it was.
pub proof fn law_pop_undoes_push<S>(stack: Seq<S>, screen: S)
    ensures
        popped(pushed(stack, screen)) == (Some(screen), stack),
{
    assert(pushed(stack, screen).drop_last() =~= stack);
}

/// Screens get events in the reverse of the order they are drawn in: the
/// one drawn last, on top of the others, hears first.
pub proof fn law_events_reverse_drawing(len: nat)
    requires
        len <= usize::MAX + 1,
    ensures
        top_down(len) == bottom_up(len).reverse(),
{
    assert(top_down(len) =~= bottom_up(len).reverse());
}

/// Every screen gets each event once, and is drawn once.
pub proof fn law_every_screen_once(len: nat)
    requires
        len <= usize::MAX + 1,
    ensures
        forall|p: int| 0 <= p < len ==> #[trigger] top_down(len).contains(p as usize)
            && bottom_up(len).contains(p as usize),
        top_down(len).no_duplicates(),
        bottom_up(len).no_duplicates(),
{
    assert forall|p: int| 0 <= p < len implies #[trigger] top_down(len).contains(p as usize)
        && bottom_up(len).contains(p as usize) by {
        assert(top_down(len)[len - 1 - p] == p as usize);
        assert(bottom_up(len)[p] == p as usize);
    }
}

} // verus!
