use vstd::prelude::*;

verus! {

/// A last-in-first-out stack of singly linked, heap-allocated nodes.
///
/// Each node owns one payload together with the link to the node that was on
/// top just before it was pushed; `head` is the most recently pushed node, or
/// `None` when the stack is empty.  Walking the `next` links from `head`
/// therefore yields the values in reverse push order, and that walk is the
/// abstract view: `self@[0]` is the value the next `try_pop` returns.
pub struct Stack<T> {
    head: Option<Box<Node<T>>>,
}

struct Node<T> {
    payload: T,
    next: Option<Box<Node<T>>>,
}

impl<T> Node<T> {
    /// The values held by the chain of nodes starting at `node_opt`,
    /// most recently pushed first.
    spec fn chain_values(node_opt: Option<Box<Node<T>>>) -> Seq<T>
        decreases node_opt,
    {
        match node_opt {
            None => Seq::empty(),
            Some(node) => seq![node.payload] + Node::<T>::chain_values(node.next),
        }
    }
}

impl<T> Stack<T> {
    pub closed spec fn as_seq(self) -> Seq<T> {
        Node::<T>::chain_values(self.head)
    }
}

impl<T> View for Stack<T> {
    type V = Seq<T>;

    open spec fn view(&self) -> Seq<T> {
        self.as_seq()
    }
}

/// The outcome of one `try_pop` on a stack whose view is `s`: the view that
/// remains, paired with the value handed out (`None` exactly when `s` is
/// empty).
pub open spec fn popped<T>(s: Seq<T>) -> (Seq<T>, Option<T>) {
    if s.len() == 0 {
        (s, None::<T>)
    } else {
        (s.drop_first(), Some(s[0]))
    }
}

impl<T> Stack<T> {
    /// An empty stack: no head node, empty view.
    pub fn new() -> (stack: Self)
        ensures
            stack@ == Seq::<T>::empty(),
    {
        Stack { head: None }
    }

    /// Pushes `value` on top of the stack: the new node becomes the head and
    /// links to the previous head.
    pub fn push(&mut self, value: T)
        ensures
            final(self)@ == seq![value] + old(self)@,
    {
        let next = self.head.take();
        self.head = Some(Box::new(Node { payload: value, next }));
    }

    /// Removes and returns the most recently pushed value, or returns `None`
    /// and leaves the stack unchanged when it is empty.
    pub fn try_pop(&mut self) -> (r: Option<T>)
        ensures
            (final(self)@, r) == popped(old(self)@),
            r is None <==> old(self)@.len() == 0,
    {
        match self.head.take() {
            None => None,
            Some(boxed_node) => {
                let Node { payload, next } = *boxed_node;
                self.head = next;
                proof {
                    assert(self@ =~= old(self)@.drop_first());
                }
                Some(payload)
            }
        }
    }

    /// Whether the stack holds no value: a plain read of the head link,
    /// true exactly when it is `None`.
    pub fn is_empty(&self) -> (r: bool)
        ensures
            r <==> self@.len() == 0,
    {
        self.head.is_none()
    }
}

impl<T> Default for Stack<T> {
    fn default() -> (stack: Self)
        ensures
            stack@ == Seq::<T>::empty(),
    {
        Stack::new()
    }
}

/// The view after pushing the values of `vs`, first to last, onto a stack
/// whose view is `s0`.
pub open spec fn pushed_all<T>(s0: Seq<T>, vs: Seq<T>) -> Seq<T>
    decreases vs.len(),
{
    if vs.len() == 0 {
        s0
    } else {
        pushed_all(seq![vs[0]] + s0, vs.drop_first())
    }
}

/// Last in, first out: after pushing the values of `vs` in order, the stack
/// holds them in reverse push order on top of whatever it held before, so
/// successive pops hand the most recently pushed values out first.
pub proof fn lemma_pushes_stack_in_reverse_order<T>(s0: Seq<T>, vs: Seq<T>)
    ensures
        pushed_all(s0, vs) == vs.reverse() + s0,
    decreases vs.len(),
{
    if vs.len() == 0 {
        assert(vs.reverse() + s0 =~= s0);
    } else {
        lemma_pushes_stack_in_reverse_order(seq![vs[0]] + s0, vs.drop_first());
        assert(vs.drop_first().reverse() + (seq![vs[0]] + s0) =~= vs.reverse() + s0);
    }
}

/// Pushing a value and popping right after hands that same value back and
/// restores the view the stack had before the push.
pub proof fn lemma_push_then_pop<T>(s: Seq<T>, v: T)
    ensures
        popped(seq![v] + s) == (s, Some(v)),
{
    assert((seq![v] + s).drop_first() =~= s);
}

/// Idempotent emptiness: popping an empty stack hands nothing out and leaves
/// the stack empty, however often it is repeated, and a value pushed
/// afterwards is handed out by the very next pop.
pub proof fn lemma_pop_empty_idempotent<T>(v: T)
    ensures
        popped(Seq::<T>::empty()) == (Seq::<T>::empty(), None::<T>),
        popped(seq![v] + Seq::<T>::empty()) == (Seq::<T>::empty(), Some(v)),
{
    assert((seq![v] + Seq::<T>::empty()).drop_first() =~= Seq::<T>::empty());
}

} // verus!
