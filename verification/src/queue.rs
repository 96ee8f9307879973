use vstd::prelude::*;

verus! {

/// A first-in-first-out queue of singly linked, heap-allocated nodes.
///
/// The queue always holds at least one node, the sentinel: a node whose
/// payload has already been consumed.  `head` is that sentinel, and the first
/// node reachable through `head.next` holds the oldest live value.  Pushing
/// links a fresh node at the far end of the chain; popping detaches the node
/// after the sentinel, moves its payload out, and lets that node take over as
/// the sentinel.  A node's payload container therefore records whether the
/// value is still present or has already been moved to a caller, and the
/// emptiness test is simply `head.next` being `None`.
///
/// The abstract view lists the live values oldest first: `self@[0]` is the
/// value the next `try_pop` returns, and `push` appends at the other end.
pub struct Queue<T> {
    head: Node<T>,
}

struct Node<T> {
    payload: Option<T>,
    next: Option<Box<Node<T>>>,
}

impl<T> Node<T> {
    /// The values held by the chain of live nodes starting at `node_opt`,
    /// oldest first.
    spec fn chain_values(node_opt: Option<Box<Node<T>>>) -> Seq<T>
        decreases node_opt,
    {
        match node_opt {
            None => Seq::empty(),
            Some(node) => seq![node.payload.unwrap()] + Node::<T>::chain_values(node.next),
        }
    }

    /// Every live node still holds its payload: only the sentinel, which is
    /// not part of the chain, has had its payload consumed.
    spec fn chain_wf(node_opt: Option<Box<Node<T>>>) -> bool
        decreases node_opt,
    {
        match node_opt {
            None => true,
            Some(node) => node.payload is Some && Node::<T>::chain_wf(node.next),
        }
    }

    /// Links `value` at the far end of the chain `node_opt` and returns the
    /// head of the extended chain.
    fn append(node_opt: Option<Box<Node<T>>>, value: T) -> (r: Box<Node<T>>)
        requires
            Node::<T>::chain_wf(node_opt),
        ensures
            Node::<T>::chain_wf(Some(r)),
            Node::<T>::chain_values(Some(r)) =~= Node::<T>::chain_values(node_opt).push(value),
        decreases node_opt,
    {
        match node_opt {
            None => Box::new(Node { payload: Some(value), next: None }),
            Some(mut boxed_node) => {
                let rest = boxed_node.next.take();
                boxed_node.next = Some(Node::<T>::append(rest, value));
                boxed_node
            }
        }
    }
}

impl<T> Queue<T> {
    #[verifier::type_invariant]
    spec fn well_formed(self) -> bool {
        self.head.payload is None && Node::<T>::chain_wf(self.head.next)
    }

    pub closed spec fn as_seq(self) -> Seq<T> {
        Node::<T>::chain_values(self.head.next)
    }
}

impl<T> View for Queue<T> {
    type V = Seq<T>;

    open spec fn view(&self) -> Seq<T> {
        self.as_seq()
    }
}

/// The outcome of one `try_pop` on a queue whose view is `s`: the view that
/// remains, paired with the value handed out (`None` exactly when `s` is
/// empty).
pub open spec fn dequeued<T>(s: Seq<T>) -> (Seq<T>, Option<T>) {
    if s.len() == 0 {
        (s, None::<T>)
    } else {
        (s.drop_first(), Some(s[0]))
    }
}

impl<T> Queue<T> {
    /// An empty queue: a fresh sentinel with no payload and no successor.
    pub fn new() -> (queue: Self)
        ensures
            queue@ == Seq::<T>::empty(),
    {
        Queue { head: Node { payload: None, next: None } }
    }

    /// Appends `value` at the far end of the chain, after every value pushed
    /// before it.
    pub fn push(&mut self, value: T)
        ensures
            final(self)@ == old(self)@.push(value),
    {
        proof {
            use_type_invariant(&*self);
        }
        let mut chain: Option<Box<Node<T>>> = None;
        std::mem::swap(&mut chain, &mut self.head.next);
        self.head.next = Some(Node::<T>::append(chain, value));
    }

    /// Removes and returns the oldest value, or returns `None` and leaves the
    /// queue unchanged when it is empty.  On success the detached node's
    /// payload is moved out exactly once and the node becomes the new
    /// sentinel; the old sentinel is freed.
    pub fn try_pop(&mut self) -> (r: Option<T>)
        ensures
            (final(self)@, r) == dequeued(old(self)@),
            r is None <==> old(self)@.len() == 0,
    {
        proof {
            use_type_invariant(&*self);
        }
        let mut chain: Option<Box<Node<T>>> = None;
        std::mem::swap(&mut chain, &mut self.head.next);
        match chain {
            None => None,
            Some(boxed_node) => {
                let Node { payload, next } = *boxed_node;
                self.head = Node { payload: None, next };
                proof {
                    assert(self@ =~= old(self)@.drop_first());
                }
                Some(payload.unwrap())
            }
        }
    }

    /// Whether the queue holds no live value: a plain read of the sentinel's
    /// successor link, true exactly when it is `None`.
    pub fn is_empty(&self) -> (r: bool)
        ensures
            r <==> self@.len() == 0,
    {
        self.head.next.is_none()
    }
}

impl<T> Default for Queue<T> {
    fn default() -> (queue: Self)
        ensures
            queue@ == Seq::<T>::empty(),
    {
        Queue::new()
    }
}

/// The values that successive `try_pop` calls hand out while they drain a
/// queue whose view is `s`, in the order they are handed out.
pub open spec fn drained<T>(s: Seq<T>) -> Seq<T>
    decreases s.len(),
{
    if s.len() == 0 {
        Seq::empty()
    } else {
        seq![s[0]] + drained(s.drop_first())
    }
}

/// First in, first out: draining a queue hands its values out in exactly the
/// order they were pushed — none skipped, none duplicated, none fabricated —
/// and nothing remains afterwards.
pub proof fn lemma_drained_is_push_order<T>(s: Seq<T>)
    ensures
        drained(s) == s,
    decreases s.len(),
{
    if s.len() == 0 {
        assert(drained(s) =~= s);
    } else {
        lemma_drained_is_push_order(s.drop_first());
        assert(drained(s) =~= s);
    }
}

/// Per-producer order: however several producers' pushes were interleaved
/// into the queue, the drained values that carry any one producer's tag
/// appear in exactly that producer's own push order.
pub proof fn lemma_drained_keeps_producer_order<T>(s: Seq<T>, tag: spec_fn(T) -> bool)
    ensures
        drained(s).filter(tag) == s.filter(tag),
{
    lemma_drained_is_push_order(s);
}

/// Ascending drains: when the queued values are strictly increasing, the
/// drained values are strictly increasing as well, so the subsequence any one
/// consumer of the drain observes is strictly increasing too.
pub proof fn lemma_drained_strictly_increasing(s: Seq<int>)
    requires
        forall|i: int, j: int| 0 <= i < j < s.len() ==> s[i] < s[j],
    ensures
        forall|i: int, j: int| 0 <= i < j < drained(s).len() ==> drained(s)[i] < drained(s)[j],
{
    lemma_drained_is_push_order(s);
}

/// No value lost and none handed out twice: a full drain hands out exactly
/// the multiset of values the queue held.
pub proof fn lemma_drained_each_value_once<T>(s: Seq<T>)
    ensures
        drained(s).to_multiset() == s.to_multiset(),
{
    lemma_drained_is_push_order(s);
}

/// Idempotent emptiness: popping an empty queue hands nothing out and leaves
/// the queue empty, however often it is repeated, and a value pushed
/// afterwards is handed out by the very next pop.
pub proof fn lemma_dequeue_empty_idempotent<T>(v: T)
    ensures
        dequeued(Seq::<T>::empty()) == (Seq::<T>::empty(), None::<T>),
        dequeued(Seq::<T>::empty().push(v)) == (Seq::<T>::empty(), Some(v)),
{
    assert(Seq::<T>::empty().push(v).drop_first() =~= Seq::<T>::empty());
}

} // verus!

