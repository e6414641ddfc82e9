use vstd::prelude::*;

verus! {

/// Ownership handle to the next node, or the end of the chain.
type Link<T> = Option<Box<Node<T>>>;

/// One heap cell of the chain; only this module builds or reads one.
pub struct Node<T> {
    elem: T,
    next: Link<T>,
}

/// The values held by the chain that starts at `node`, front first.
pub closed spec fn node_values<T>(node: Node<T>) -> Seq<T>
    decreases node,
{
    match node.next {
        None => seq![node.elem],
        Some(next) => seq![node.elem] + node_values(*next),
    }
}

/// The values held by the chain behind `link`, front first.
closed spec fn link_values<T>(link: Link<T>) -> Seq<T> {
    match link {
        None => Seq::empty(),
        Some(node) => node_values(*node),
    }
}

impl<T> Node<T> {
    /// The node after this one, if any.
    fn get_next_node(&self) -> (r: Option<&Node<T>>)
        ensures
            r is None <==> self.next is None,
            r is Some ==> *r->Some_0 == *self.next->Some_0,
    {
        match &self.next {
            None => None,
            Some(b) => Some(&**b),
        }
    }
}

proof fn lemma_node_values<T>(node: Node<T>)
    ensures
        node_values(node) == seq![node.elem] + link_values(node.next),
        node_values(node).len() >= 1,
{
    reveal_with_fuel(node_values, 1);
    assert(seq![node.elem] + Seq::<T>::empty() =~= seq![node.elem]);
}

/// What a pop on a stack holding `s` returns: its first value, if any.
pub open spec fn top<T>(s: Seq<T>) -> Option<T> {
    if s.len() == 0 {
        None
    } else {
        Some(s[0])
    }
}

/// What a stack holding `s` holds after a pop: all but its first value.
pub open spec fn rest<T>(s: Seq<T>) -> Seq<T> {
    if s.len() == 0 {
        s
    } else {
        s.drop_first()
    }
}

/// A last-in, first-out stack of values, held as a chain of heap nodes.
pub struct List<T> {
    head: Link<T>,
}

impl<T> View for List<T> {
    type V = Seq<T>;

    /// The values on the stack, the most recently pushed first.
    closed spec fn view(&self) -> Seq<T> {
        link_values(self.head)
    }
}

impl<T> List<T> {
    /// An empty stack.
    pub fn new() -> (r: Self)
        ensures
            r@ == Seq::<T>::empty(),
    {
        List { head: None }
    }

    /// Puts `x` on top of the stack.
    pub fn push(&mut self, x: T)
        ensures
            final(self)@ == seq![x] + old(self)@,
    {
        let next = self.head.take();
        let node = Node { elem: x, next };
        proof {
            lemma_node_values(node);
        }
        self.head = Some(Box::new(node));
    }

    /// Removes the value on top of the stack and returns it; `None` when the
    /// stack is empty, which it then stays.
    pub fn pop(&mut self) -> (r: Option<T>)
        ensures
            r == top(old(self)@),
            final(self)@ == rest(old(self)@),
    {
        match self.head.take() {
            None => None,
            Some(node) => {
                let node = *node;
                proof {
                    lemma_node_values(node);
                    assert(link_values(node.next) =~= node_values(node).drop_first());
                }
                self.head = node.next;
                Some(node.elem)
            }
        }
    }

    /// The value on top of the stack, if any; nothing changes.
    pub fn peek(&self) -> (r: Option<&T>)
        ensures
            self@.len() == 0 ==> r is None,
            self@.len() > 0 ==> r is Some && *r->Some_0 == self@[0],
    {
        match &self.head {
            None => None,
            Some(node) => {
                proof {
                    lemma_node_values(**node);
                }
                Some(&node.elem)
            },
        }
    }

    /// Exclusive access to the value on top of the stack, if any: what is
    /// written through it replaces that value, and the rest stays.
    pub fn peek_mut(&mut self) -> (r: Option<&mut T>)
        ensures
            old(self)@.len() == 0 ==> r is None && final(self)@ == old(self)@,
            old(self)@.len() > 0 ==> r is Some && *r->Some_0 == old(self)@[0] && final(self)@
                == old(self)@.update(0, *final(r->Some_0)),
    {
        proof {
            if self.head is Some {
                lemma_node_values(*self.head->Some_0);
            }
        }
        match &mut self.head {
            None => None,
            Some(node) => {
                let ghost rest = node.next;
                let r = &mut node.elem;
                proof {
                    let n = Node { elem: *final(r), next: rest };
                    lemma_node_values(n);
                }
                Some(r)
            },
        }
    }

    /// A read-only cursor over the values, the top one first.
    pub fn iter(&self) -> (r: Iter<'_, T>)
        ensures
            r@ == self@,
    {
        Iter {
            next: match &self.head {
                None => None,
                Some(b) => Some(&**b),
            },
        }
    }

    /// A read-only cursor over the values, the top one first.
    pub fn get_iterator(&self) -> (r: Iter<'_, T>)
        ensures
            r@ == self@,
    {
        self.iter()
    }

    /// A cursor that grants exclusive access to each value in turn, the top
    /// one first; the stack ends up holding what was written through it.
    pub fn get_mut_iterator(&mut self) -> (r: LinkedListIterMut<'_, T>)
        ensures
            r@ == old(self)@,
            r.cursor() is Some <==> r@.len() > 0,
            r.cursor() is None ==> final(self)@ == Seq::<T>::empty(),
            r.cursor() is Some ==> final(self)@ == node_values(*final(r.cursor()->Some_0)),
    {
        LinkedListIterMut {
            next: match &mut self.head {
                None => None,
                Some(b) => Some(&mut **b),
            },
        }
    }

    /// Turns the stack into an iterator that pops its values one by one.
    pub fn into_iter(self) -> (r: IntoIter<T>)
        ensures
            r@ == self@,
    {
        IntoIter(self)
    }
}

/// A stack turned into an iterator: each step pops the top value.
pub struct IntoIter<T>(List<T>);

impl<T> View for IntoIter<T> {
    type V = Seq<T>;

    /// The values still to come, in order.
    closed spec fn view(&self) -> Seq<T> {
        self.0@
    }
}

impl<T> IntoIter<T> {
    /// The next value, taken out of the stack; `None` once it is empty.
    pub fn next(&mut self) -> (r: Option<T>)
        ensures
            r == top(old(self)@),
            final(self)@ == rest(old(self)@),
    {
        self.0.pop()
    }
}

/// Frees the chain behind `link` one node at a time: each node has its
/// successor detached before it goes, so that the depth of the call stack does
/// not grow with the length of the chain.
fn free_chain<T>(link: Link<T>)
    opens_invariants none
    no_unwind
{
    let mut cur = link;
    loop
        decreases link_values(cur).len(),
    {
        match cur {
            None => break,
            Some(mut node) => {
                proof {
                    lemma_node_values(*node);
                }
                let mut next: Link<T> = None;
                std::mem::swap(&mut next, &mut node.next);
                cur = next;
            },
        }
    }
}

impl<T> Drop for List<T> {
    /// Tears the chain down node by node rather than recursively.
    fn drop(&mut self)
        ensures
            final(self)@ == Seq::<T>::empty(),
        opens_invariants none
        no_unwind
    {
        let mut cur: Link<T> = None;
        std::mem::swap(&mut cur, &mut self.head);
        free_chain(cur);
    }
}

/// A read-only cursor over the values of a stack, front first.
pub struct Iter<'a, T> {
    next: Option<&'a Node<T>>,
}

impl<'a, T> View for Iter<'a, T> {
    type V = Seq<T>;

    /// The values still to come, in order.
    closed spec fn view(&self) -> Seq<T> {
        match self.next {
            None => Seq::empty(),
            Some(node) => node_values(*node),
        }
    }
}

impl<'a, T> Iter<'a, T> {
    /// A reference to the next value; `None` once all have been visited.
    pub fn next(&mut self) -> (r: Option<&'a T>)
        ensures
            old(self)@.len() == 0 ==> r is None && final(self)@ == old(self)@,
            old(self)@.len() > 0 ==> r is Some && *r->Some_0 == old(self)@[0] && final(self)@
                == old(self)@.drop_first(),
    {
        match self.next {
            None => None,
            Some(node) => {
                proof {
                    lemma_node_values(*node);
                    assert(link_values(node.next) =~= node_values(*node).drop_first());
                }
                self.next = node.get_next_node();
                Some(&node.elem)
            },
        }
    }
}

/// A cursor that hands out exclusive access to each value of a stack in
/// turn, front first.
pub struct LinkedListIterMut<'a, T> {
    next: Option<&'a mut Node<T>>,
}

impl<'a, T> View for LinkedListIterMut<'a, T> {
    type V = Seq<T>;

    /// The values still to come, as they are now.
    closed spec fn view(&self) -> Seq<T> {
        match self.next {
            None => Seq::empty(),
            Some(node) => node_values(*node),
        }
    }
}

impl<'a, T> LinkedListIterMut<'a, T> {
    /// The node that the next step visits, if any.
    pub closed spec fn cursor(&self) -> Option<&'a mut Node<T>> {
        self.next
    }

    /// The cursor points at a node exactly when values are still to come.
    pub proof fn lemma_cursor(&self)
        ensures
            self.cursor() is Some <==> self@.len() > 0,
    {
        if self.next is Some {
            lemma_node_values(*self.next->Some_0);
        }
    }

    /// Once a cursor is done with, the node it points at keeps the values it
    /// holds now, and those are the values still to come.
    pub proof fn lemma_resolved(self)
        requires
            has_resolved(self),
        ensures
            self.cursor() is Some ==> *final(self.cursor()->Some_0) == *self.cursor()->Some_0,
            self.cursor() is Some ==> self@ == node_values(*self.cursor()->Some_0),
    {
    }

    /// Exclusive access to the next value; `None` once all have been visited.
    /// The chain the cursor pointed into will hold what is finally written
    /// through the returned reference, followed by what the rest of the chain
    /// will hold.
    pub fn next(&mut self) -> (r: Option<&'a mut T>)
        ensures
            old(self)@.len() == 0 ==> r is None && final(self)@ == old(self)@,
            old(self)@.len() > 0 ==> r is Some && *r->Some_0 == old(self)@[0] && final(self)@
                == old(self)@.drop_first(),
            final(self).cursor() is Some <==> final(self)@.len() > 0,
            old(self)@.len() > 0 ==> node_values(*final(old(self).cursor()->Some_0)) == seq![
                *final(r->Some_0),
            ] + (if final(self).cursor() is Some {
                node_values(*final(final(self).cursor()->Some_0))
            } else {
                Seq::empty()
            }),
    {
        match self.next.take() {
            None => {
                proof {
                    self.lemma_cursor();
                }
                None
            },
            Some(node) => {
                proof {
                    lemma_node_values(*node);
                    assert(link_values(node.next) =~= node_values(*node).drop_first());
                }
                self.next = match &mut node.next {
                    None => None,
                    Some(b) => Some(&mut **b),
                };
                proof {
                    self.lemma_cursor();
                }
                Some(&mut node.elem)
            },
        }
    }
}

} // verus!
