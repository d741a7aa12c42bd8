//! A growable sequence container that starts in fixed-capacity inline storage
//! and migrates, once and irreversibly, to unbounded heap storage when a push
//! exceeds the inline capacity `N`.

use vstd::prelude::*;

verus! {

use vstd::std_specs::convert::FromSpecImpl;

/// Either inline storage holding at most `N` elements, or unbounded heap
/// storage. A container starts in `Stack` and moves to `Heap` the first time
/// a push would exceed `N`; only `clear` brings it back to `Stack`.
pub enum LocalStorageVec<T, const N: usize> {
    Stack { buf: Vec<T>, len: usize },
    Heap(Vec<T>),
}

impl<T, const N: usize> View for LocalStorageVec<T, N> {
    type V = Seq<T>;

    /// The abstract contents: the elements in insertion order.
    open spec fn view(&self) -> Seq<T> {
        match self {
            LocalStorageVec::Stack { buf, .. } => buf@,
            LocalStorageVec::Heap(v) => v@,
        }
    }
}

/// What one push does to the abstract state `(inline, elems)` of a container
/// with inline capacity `cap`: the element is appended, and the container
/// stays inline exactly when it was inline and had room.
pub open spec fn push_model<T>(inline: bool, elems: Seq<T>, cap: nat, x: T) -> (bool, Seq<T>) {
    (inline && elems.len() < cap, elems.push(x))
}

/// What one pop does to the abstract contents, paired with the value it
/// returns: the last element leaves, or nothing happens on an empty container.
pub open spec fn pop_model<T>(elems: Seq<T>) -> (Option<T>, Seq<T>) {
    if elems.len() == 0 {
        (None, elems)
    } else {
        (Some(elems.last()), elems.drop_last())
    }
}

/// The abstract state after pushing each element of `xs`, in order, onto a
/// container whose abstract state was `(inline, elems)`: `push_model` folded
/// over `xs`.
pub open spec fn pushed_state<T>(inline: bool, elems: Seq<T>, cap: nat, xs: Seq<T>) -> (
    bool,
    Seq<T>,
)
    decreases xs.len(),
{
    if xs.len() == 0 {
        (inline, elems)
    } else {
        let prev = pushed_state(inline, elems, cap, xs.drop_last());
        push_model(prev.0, prev.1, cap, xs.last())
    }
}

/// The values returned by the first `k` pops of a container whose abstract
/// contents are `elems`, in the order the pops return them.
pub open spec fn popped_values<T>(elems: Seq<T>, k: nat) -> Seq<T>
    decreases k,
{
    if k == 0 || elems.len() == 0 {
        Seq::empty()
    } else {
        seq![pop_model(elems).0->Some_0] + popped_values(pop_model(elems).1, (k - 1) as nat)
    }
}

/// The abstract contents left after `k` pops.
pub open spec fn remaining_after<T>(elems: Seq<T>, k: nat) -> Seq<T>
    decreases k,
{
    if k == 0 {
        elems
    } else {
        pop_model(remaining_after(elems, (k - 1) as nat)).1
    }
}

/// Folding pushes over any starting state appends the pushed elements in
/// order, and the container is still inline afterwards exactly when it was
/// inline and every intermediate length stayed within the capacity.
pub proof fn lemma_pushed_state<T>(inline: bool, elems: Seq<T>, cap: nat, xs: Seq<T>)
    ensures
        pushed_state(inline, elems, cap, xs).1 == elems + xs,
        pushed_state(inline, elems, cap, xs).0 <==> (inline && (xs.len() == 0 || elems.len()
            + xs.len() <= cap)),
    decreases xs.len(),
{
    if xs.len() == 0 {
        assert(elems + xs =~= elems);
    } else {
        lemma_pushed_state(inline, elems, cap, xs.drop_last());
        assert(elems + xs =~= (elems + xs.drop_last()).push(xs.last()));
    }
}

/// Law: for every capacity and every sequence of at most that many pushes
/// onto a fresh container, the container stays inline and holds exactly the
/// pushed elements.
pub proof fn lemma_inline_within_capacity<T>(cap: nat, xs: Seq<T>)
    requires
        xs.len() <= cap,
    ensures
        pushed_state(true, Seq::<T>::empty(), cap, xs).0,
        pushed_state(true, Seq::<T>::empty(), cap, xs).1 == xs,
{
    lemma_pushed_state(true, Seq::<T>::empty(), cap, xs);
    assert(Seq::<T>::empty() + xs =~= xs);
}

/// Law: pushing more elements than the capacity onto a fresh container leaves
/// it in the overflow state with all pushed elements; the state is already
/// overflow right after the first push beyond the capacity.
pub proof fn lemma_overflow_beyond_capacity<T>(cap: nat, xs: Seq<T>)
    requires
        xs.len() > cap,
    ensures
        !pushed_state(true, Seq::<T>::empty(), cap, xs).0,
        pushed_state(true, Seq::<T>::empty(), cap, xs).1 == xs,
        !pushed_state(true, Seq::<T>::empty(), cap, xs.take(cap as int + 1)).0,
{
    lemma_pushed_state(true, Seq::<T>::empty(), cap, xs);
    assert(Seq::<T>::empty() + xs =~= xs);
    lemma_pushed_state(true, Seq::<T>::empty(), cap, xs.take(cap as int + 1));
}

/// Law: whether or not the pushes crossed the capacity, popping repeatedly
/// returns the pushed elements in exact reverse order of insertion.
pub proof fn lemma_lifo<T>(cap: nat, xs: Seq<T>)
    ensures
        popped_values(pushed_state(true, Seq::<T>::empty(), cap, xs).1, xs.len()) == xs.reverse(),
{
    lemma_pushed_state(true, Seq::<T>::empty(), cap, xs);
    assert(Seq::<T>::empty() + xs =~= xs);
    lemma_pop_reverses(xs);
}

/// Popping a container dry returns its contents in reverse order.
pub proof fn lemma_pop_reverses<T>(elems: Seq<T>)
    ensures
        popped_values(elems, elems.len()) == elems.reverse(),
    decreases elems.len(),
{
    if elems.len() == 0 {
        assert(popped_values(elems, 0) =~= elems.reverse());
    } else {
        lemma_pop_reverses(elems.drop_last());
        assert(popped_values(elems, elems.len()) =~= seq![elems.last()] + popped_values(
            elems.drop_last(),
            (elems.len() - 1) as nat,
        ));
        assert(elems.reverse() =~= seq![elems.last()] + elems.drop_last().reverse());
    }
}

/// Law: building a container from a sequence of `k` elements and popping `k`
/// times yields the elements in reverse input order and leaves the container
/// empty, so that one further pop returns nothing.
pub proof fn lemma_round_trip<T>(xs: Seq<T>)
    ensures
        popped_values(xs, xs.len()) == xs.reverse(),
        remaining_after(xs, xs.len()) == Seq::<T>::empty(),
        pop_model(remaining_after(xs, xs.len())).0 is None,
{
    lemma_pop_reverses(xs);
    lemma_remaining_after(xs, xs.len());
    assert(xs.take(0) =~= Seq::<T>::empty());
}

/// After `k <= |elems|` pops the remaining contents are the first
/// `|elems| - k` elements.
pub proof fn lemma_remaining_after<T>(elems: Seq<T>, k: nat)
    requires
        k <= elems.len(),
    ensures
        remaining_after(elems, k) == elems.take(elems.len() - k),
    decreases k,
{
    if k == 0 {
        assert(elems.take(elems.len() as int) =~= elems);
    } else {
        lemma_remaining_after(elems, (k - 1) as nat);
        assert(elems.take(elems.len() - k + 1).drop_last() =~= elems.take(elems.len() - k));
        assert(remaining_after(elems, k) =~= elems.take(elems.len() - k));
    }
}

impl<T, const N: usize> LocalStorageVec<T, N> {
    /// The container is in its inline state.
    pub open spec fn is_inline(&self) -> bool {
        self is Stack
    }

    /// Well-formedness: inline storage never holds more than `N` elements,
    /// and its length counter matches its contents.
    pub open spec fn wf(&self) -> bool {
        match self {
            LocalStorageVec::Stack { buf, len } => buf@.len() == *len && *len <= N,
            LocalStorageVec::Heap(_) => true,
        }
    }

    /// Returns an empty container in the inline state.
    pub fn new() -> (r: Self)
        ensures
            r.wf(),
            r@ =~= Seq::<T>::empty(),
            r.is_inline(),
    {
        LocalStorageVec::Stack { buf: Vec::new(), len: 0 }
    }

    /// Returns the number of elements currently held.
    pub fn len(&self) -> (n: usize)
        requires
            self.wf(),
        ensures
            n == self@.len(),
    {
        match self {
            LocalStorageVec::Stack { len, .. } => *len,
            LocalStorageVec::Heap(v) => v.len(),
        }
    }

    /// Appends `value` as the new last element. A push onto a full inline
    /// container migrates the elements, in order, to the heap; the migration
    /// happens at most once and is never undone except by `clear`.
    pub fn push(&mut self, value: T)
        requires
            old(self).wf(),
        ensures
            final(self).wf(),
            final(self)@ == push_model(old(self).is_inline(), old(self)@, N as nat, value).1,
            final(self).is_inline() == push_model(
                old(self).is_inline(),
                old(self)@,
                N as nat,
                value,
            ).0,
    {
        let mut taken = LocalStorageVec::Heap(Vec::new());
        core::mem::swap(self, &mut taken);
        match taken {
            LocalStorageVec::Stack { mut buf, len } => {
                buf.push(value);
                if len < N {
                    *self = LocalStorageVec::Stack { buf, len: len + 1 };
                } else {
                    *self = LocalStorageVec::Heap(buf);
                }
            },
            LocalStorageVec::Heap(mut v) => {
                v.push(value);
                *self = LocalStorageVec::Heap(v);
            },
        }
    }

    /// Removes and returns the last element, or `None` on an empty container.
    /// Popping never changes the active variant: in particular, a heap
    /// container does not shrink back to inline storage.
    pub fn pop(&mut self) -> (r: Option<T>)
        requires
            old(self).wf(),
        ensures
            final(self).wf(),
            r == pop_model(old(self)@).0,
            final(self)@ == pop_model(old(self)@).1,
            final(self).is_inline() == old(self).is_inline(),
    {
        match self {
            LocalStorageVec::Stack { buf, len } => {
                if *len > 0 {
                    *len = *len - 1;
                    buf.pop()
                } else {
                    None
                }
            },
            LocalStorageVec::Heap(v) => v.pop(),
        }
    }

    /// Resets the container to the empty inline state, whatever it held.
    pub fn clear(&mut self)
        ensures
            final(self).wf(),
            final(self)@ =~= Seq::<T>::empty(),
            final(self).is_inline(),
    {
        *self = LocalStorageVec::Stack { buf: Vec::new(), len: 0 };
    }
}

impl<T, const N: usize> FromSpecImpl<Vec<T>> for LocalStorageVec<T, N> {
    open spec fn obeys_from_spec() -> bool {
        true
    }

    open spec fn from_spec(vec: Vec<T>) -> Self {
        if vec@.len() <= N {
            LocalStorageVec::Stack { buf: vec, len: vec@.len() as usize }
        } else {
            LocalStorageVec::Heap(vec)
        }
    }
}

impl<T, const N: usize> From<Vec<T>> for LocalStorageVec<T, N> {
    /// Builds a container holding the elements of `vec` in order: inline when
    /// they fit the inline capacity, directly on the heap otherwise.
    fn from(vec: Vec<T>) -> (r: Self)
        ensures
            r.wf(),
            r@ == vec@,
            r.is_inline() == (vec@.len() <= N),
    {
        if vec.len() <= N {
            let len = vec.len();
            LocalStorageVec::Stack { buf: vec, len }
        } else {
            LocalStorageVec::Heap(vec)
        }
    }
}

// A spec-level `Self` built from an array would need a `Vec` value with a
// prescribed view, which spec code cannot write down; the exact result is
// therefore promised by `from` directly, not through the generic `From`
// contract.
impl<T: Copy, const K: usize, const N: usize> FromSpecImpl<[T; K]> for LocalStorageVec<T, N> {
    open spec fn obeys_from_spec() -> bool {
        false
    }

    open spec fn from_spec(array: [T; K]) -> Self {
        arbitrary()
    }
}

impl<T: Copy, const K: usize, const N: usize> From<[T; K]> for LocalStorageVec<T, N> {
    /// Builds a container holding the elements of `array` in order: inline
    /// when they fit the inline capacity, directly on the heap otherwise.
    fn from(array: [T; K]) -> (r: Self)
        ensures
            r.wf(),
            r@ == array@,
            r.is_inline() == (K <= N),
    {
        let mut buf: Vec<T> = Vec::new();
        let mut i: usize = 0;
        while i < K
            invariant
                i <= K,
                buf@ =~= array@.take(i as int),
            decreases K - i,
        {
            buf.push(*vstd::array::array_index_get(&array, i));
            i = i + 1;
        }
        assert(buf@ =~= array@);
        if K <= N {
            LocalStorageVec::Stack { buf, len: i }
        } else {
            LocalStorageVec::Heap(buf)
        }
    }
}

} // verus!

