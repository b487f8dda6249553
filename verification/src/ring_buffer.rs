use vstd::prelude::*;

verus! {

/// Number of slots of a ring buffer; a power of two, so that a slot index is
/// a bit mask of the running position.
pub const BUFFER_SIZE: usize = 1024;

/// The number of distinct `usize` values.
pub open spec fn usize_range() -> int {
    usize::MAX as int + 1
}

/// The slot that holds the item at running position `pos`.
pub open spec fn slot_of(pos: int) -> int {
    pos % (BUFFER_SIZE as int)
}

/// `x & (BUFFER_SIZE - 1)` selects the slot of a running position.
proof fn lemma_mask_is_slot(x: usize)
    ensures
        x & ((BUFFER_SIZE - 1) as usize) == slot_of(x as int),
{
    assert(x & 1023usize == x % 1024) by (bit_vector);
}

/// The number of `usize` values is a multiple of the buffer size.
proof fn lemma_range_multiple_of_size()
    ensures
        usize_range() % (BUFFER_SIZE as int) == 0,
        usize_range() > BUFFER_SIZE,
{
    assert(usize::MAX as int == 0xffff_ffff || usize::MAX as int == 0xffff_ffff_ffff_ffff);
}

/// Shifting a position by a whole number of `usize` ranges keeps its slot.
proof fn lemma_slot_shift(x: int, k: int)
    requires
        k == 1 || k == -1,
    ensures
        slot_of(x + k * usize_range()) == slot_of(x),
{
    lemma_range_multiple_of_size();
    let q: int = usize_range() / (BUFFER_SIZE as int);
    assert(usize_range() == (BUFFER_SIZE as int) * q) by {
        vstd::arithmetic::div_mod::lemma_fundamental_div_mod(usize_range(), BUFFER_SIZE as int);
    }
    vstd::arithmetic::div_mod::lemma_mod_multiples_vanish(k * q, x, BUFFER_SIZE as int);
    assert((BUFFER_SIZE as int) * (k * q) == k * usize_range()) by (nonlinear_arith)
        requires
            usize_range() == (BUFFER_SIZE as int) * q,
    ;
}

/// Two positions less than `BUFFER_SIZE` apart sit in different slots.
proof fn lemma_slots_distinct(x: int, i: int, j: int)
    requires
        0 <= i < j,
        j - i < BUFFER_SIZE,
    ensures
        slot_of(x + i) != slot_of(x + j),
{
    vstd::arithmetic::div_mod::lemma_mod_equivalence(x + j, x + i, BUFFER_SIZE as int);
    vstd::arithmetic::div_mod::lemma_small_mod((j - i) as nat, BUFFER_SIZE as nat);
}

/// The contents after a push of `v`: appended when there is room, else unchanged.
pub open spec fn after_push<T>(s: Seq<T>, v: T) -> Seq<T> {
    if s.len() < BUFFER_SIZE {
        s.push(v)
    } else {
        s
    }
}

/// The item that a pop returns: the oldest one, if any.
pub open spec fn front<T>(s: Seq<T>) -> Option<T> {
    if s.len() == 0 {
        None
    } else {
        Some(s[0])
    }
}

/// The contents after a pop: the oldest item removed, if any.
pub open spec fn after_pop<T>(s: Seq<T>) -> Seq<T> {
    if s.len() == 0 {
        s
    } else {
        s.drop_first()
    }
}

/// The contents after pushing each of `vs` in turn.
pub open spec fn push_all<T>(s: Seq<T>, vs: Seq<T>) -> Seq<T>
    decreases vs.len(),
{
    if vs.len() == 0 {
        s
    } else {
        push_all(after_push(s, vs[0]), vs.drop_first())
    }
}

/// The items that `n` pops in turn return, in the order they come out,
/// with the contents left behind.
pub open spec fn pop_n<T>(s: Seq<T>, n: nat) -> (Seq<T>, Seq<T>)
    decreases n,
{
    if n == 0 {
        (Seq::empty(), s)
    } else {
        let rest = pop_n(after_pop(s), (n - 1) as nat);
        (match front(s) {
            Some(v) => seq![v] + rest.0,
            None => rest.0,
        }, rest.1)
    }
}

/// Pushing never takes the contents beyond `BUFFER_SIZE` items, and a full
/// buffer refuses a push.
pub proof fn law_bounded<T>(s: Seq<T>, v: T)
    requires
        s.len() <= BUFFER_SIZE,
    ensures
        after_push(s, v).len() <= BUFFER_SIZE,
        s.len() == BUFFER_SIZE ==> after_push(s, v) == s,
{
}

/// First in, first out: items pushed while there is room come out of as many
/// pops exactly once each, in the order they went in, after the items that
/// were there before, and leave the buffer empty.
pub proof fn law_fifo<T>(s: Seq<T>, vs: Seq<T>)
    requires
        s.len() + vs.len() <= BUFFER_SIZE,
    ensures
        push_all(s, vs) == s + vs,
        pop_n(s + vs, (s.len() + vs.len()) as nat) == (s + vs, Seq::<T>::empty()),
{
    lemma_push_all_with_room(s, vs);
    lemma_pop_n_takes(s + vs, (s.len() + vs.len()) as nat);
    assert((s + vs).take((s.len() + vs.len()) as int) =~= s + vs);
    assert((s + vs).skip((s.len() + vs.len()) as int) =~= Seq::<T>::empty());
}

/// With room for all of them, pushing `vs` appends them.
proof fn lemma_push_all_with_room<T>(s: Seq<T>, vs: Seq<T>)
    requires
        s.len() + vs.len() <= BUFFER_SIZE,
    ensures
        push_all(s, vs) == s + vs,
    decreases vs.len(),
{
    if vs.len() > 0 {
        lemma_push_all_with_room(s.push(vs[0]), vs.drop_first());
        assert(s.push(vs[0]) + vs.drop_first() =~= s + vs);
    } else {
        assert(s + vs =~= s);
    }
}

/// `n` pops return the `n` oldest items and leave the rest.
proof fn lemma_pop_n_takes<T>(s: Seq<T>, n: nat)
    requires
        n <= s.len(),
    ensures
        pop_n(s, n) == (s.take(n as int), s.skip(n as int)),
    decreases n,
{
    if n == 0 {
        assert(s.take(0) =~= Seq::<T>::empty());
        assert(s.skip(0) =~= s);
    } else {
        lemma_pop_n_takes(s.drop_first(), (n - 1) as nat);
        assert(seq![s[0]] + s.drop_first().take(n - 1) =~= s.take(n as int));
        assert(s.drop_first().skip(n - 1) =~= s.skip(n as int));
    }
}

/// A single-producer single-consumer FIFO of at most `BUFFER_SIZE` items.
///
/// `head` counts the items ever written and `tail` the items ever read, both
/// modulo the `usize` range; the items in the buffer are those at running
/// positions `tail .. head`.
pub struct RingBuffer<T> {
    buffer: Vec<T>,
    head: usize,
    tail: usize,
}

impl<T> RingBuffer<T> {
    /// The number of items in the buffer, as the fields encode it.
    pub closed spec fn count(&self) -> int {
        vstd::wrapping::usize_specs::wrapping_sub(self.head, self.tail) as int
    }

    /// Well-formedness: the storage has `BUFFER_SIZE` slots and at most that
    /// many items are held.
    pub closed spec fn wf(&self) -> bool {
        &&& self.buffer@.len() == BUFFER_SIZE
        &&& self.count() <= BUFFER_SIZE
    }
}

impl<T> View for RingBuffer<T> {
    type V = Seq<T>;

    /// The items in the buffer, oldest first.
    closed spec fn view(&self) -> Seq<T> {
        Seq::new(
            self.count() as nat,
            |i: int| self.buffer@[slot_of(self.tail as int + i)],
        )
    }
}

impl<T: Copy + Default> RingBuffer<T> {
    /// An empty buffer.
    pub fn new() -> (rb: Self)
        ensures
            rb.wf(),
            rb@ == Seq::<T>::empty(),
    {
        let mut buffer: Vec<T> = Vec::with_capacity(BUFFER_SIZE);
        let mut i: usize = 0;
        while i < BUFFER_SIZE
            invariant
                i <= BUFFER_SIZE,
                buffer@.len() == i,
            decreases BUFFER_SIZE - i,
        {
            buffer.push(T::default());
            i = i + 1;
        }
        let rb = RingBuffer { buffer, head: 0, tail: 0 };
        assert(rb@ =~= Seq::<T>::empty());
        rb
    }

    /// Appends `value` unless the buffer is full; returns whether it did.
    pub fn push(&mut self, value: T) -> (pushed: bool)
        requires
            old(self).wf(),
        ensures
            final(self).wf(),
            pushed == (old(self)@.len() < BUFFER_SIZE),
            final(self)@ == after_push(old(self)@, value),
    {
        let head: usize = self.head;
        let tail: usize = self.tail;
        if head.wrapping_sub(tail) >= BUFFER_SIZE {
            return false;
        }
        let ghost old_view = self@;
        let ghost n = self.count();
        let idx: usize = head & (BUFFER_SIZE - 1);
        proof {
            lemma_mask_is_slot(head);
            lemma_range_multiple_of_size();
            if (head as int) < (tail as int) {
                assert(head as int == tail as int + n - usize_range());
                lemma_slot_shift(tail as int + n, -1);
            } else {
                assert(head as int == tail as int + n);
            }
            assert(idx as int == slot_of(tail as int + n));
        }
        self.buffer.set(idx, value);
        self.head = head.wrapping_add(1);
        proof {
            assert(self.count() == n + 1);
            assert forall|i: int| 0 <= i < n + 1 implies #[trigger] self@[i] == old_view.push(value)[i] by {
                if i < n {
                    lemma_slots_distinct(tail as int, i, n);
                }
            }
            assert(self@ =~= old_view.push(value));
        }
        true
    }

    /// Removes and returns the oldest item, or `None` when the buffer is empty.
    pub fn pop(&mut self) -> (item: Option<T>)
        requires
            old(self).wf(),
        ensures
            final(self).wf(),
            item == front(old(self)@),
            final(self)@ == after_pop(old(self)@),
    {
        let tail: usize = self.tail;
        let head: usize = self.head;
        if tail == head {
            return None;
        }
        let ghost old_view = self@;
        let ghost n = self.count();
        proof {
            lemma_mask_is_slot(tail);
            lemma_range_multiple_of_size();
        }
        let value = self.buffer[tail & (BUFFER_SIZE - 1)];
        self.tail = tail.wrapping_add(1);
        proof {
            assert(n > 0);
            assert(self.count() == n - 1);
            assert forall|i: int| 0 <= i < n - 1 implies #[trigger] self@[i] == old_view.drop_first()[i] by {
                if tail == usize::MAX {
                    assert(self.tail == 0);
                    lemma_slot_shift(i, 1);
                    assert(tail as int + 1 + i == i + 1 * usize_range());
                }
            }
            assert(self@ =~= old_view.drop_first());
        }
        Some(value)
    }

    /// The number of items in the buffer.
    pub fn len(&self) -> (n: usize)
        requires
            self.wf(),
        ensures
            n == self@.len(),
    {
        self.head.wrapping_sub(self.tail)
    }
}

} // verus!
