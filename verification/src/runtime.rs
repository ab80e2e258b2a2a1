//! Verified reference model of the host-side runtime that the generator
//! emits: the refcounted object slab with its freelist, the borrowed-object
//! stack, wasm linear memory with string transfer, and the well-known
//! runtime intrinsics. The generated snippets implement exactly these
//! operations; their invariants and round-trip laws are stated and proved
//! here.
//!
//! Handle encoding: a handle is a single integer. An odd handle `2*i + 1`
//! refers to slot `i` of the borrowed stack; an even handle `2*i` refers to
//! cell `i` of the slab. Heap handles are refcounted, stack handles are not.

use vstd::prelude::*;
use vstd::seq_lib::*;
use vstd::set_lib::*;
use vstd::pervasive::unreached;

use crate::memory::Memory;
use crate::memory::splice;
use crate::memory::u32_le_bytes;

verus! {

/// A host value as the runtime model sees it. Host strings and symbol
/// descriptions are modelled by their UTF-8 bytes; a host object of any
/// other shape is modelled by an opaque tag.
pub enum HostValue {
    Undefined,
    Null,
    Bool(bool),
    Num(i64),
    Str(Vec<u8>),
    Symbol(Option<Vec<u8>>),
    Opaque(u64),
}

/// The pure shape of a [`HostValue`], used to state deep equality of
/// host values in contracts.
pub enum HostVal {
    Undefined,
    Null,
    Bool(bool),
    Num(int),
    Str(Seq<u8>),
    Symbol(Option<Seq<u8>>),
    Opaque(int),
}

impl HostValue {
    /// Deep (structural) view of this value.
    pub open spec fn deep(self) -> HostVal {
        match self {
            HostValue::Undefined => HostVal::Undefined,
            HostValue::Null => HostVal::Null,
            HostValue::Bool(b) => HostVal::Bool(b),
            HostValue::Num(n) => HostVal::Num(n as int),
            HostValue::Str(v) => HostVal::Str(v@),
            HostValue::Symbol(d) => HostVal::Symbol(
                match d {
                    Some(v) => Some(v@),
                    None => None,
                },
            ),
            HostValue::Opaque(t) => HostVal::Opaque(t as int),
        }
    }
}

/// Byte-for-byte copy of a byte vector.
fn copy_bytes(v: &Vec<u8>) -> (r: Vec<u8>)
    ensures
        r@ == v@,
{
    let mut r: Vec<u8> = Vec::new();
    let mut i: usize = 0;
    while i < v.len()
        invariant
            i <= v@.len(),
            r@ == v@.subrange(0, i as int),
        decreases v@.len() - i,
    {
        r.push(v[i]);
        proof {
            assert(r@ =~= v@.subrange(0, i + 1));
        }
        i += 1;
    }
    proof {
        assert(r@ =~= v@);
    }
    r
}

impl Clone for HostValue {
    /// A clone is deep-equal to the original.
    fn clone(&self) -> (r: HostValue)
        ensures
            r.deep() == self.deep(),
    {
        match self {
            HostValue::Undefined => HostValue::Undefined,
            HostValue::Null => HostValue::Null,
            HostValue::Bool(b) => HostValue::Bool(*b),
            HostValue::Num(n) => HostValue::Num(*n),
            HostValue::Str(v) => HostValue::Str(copy_bytes(v)),
            HostValue::Symbol(None) => HostValue::Symbol(None),
            HostValue::Symbol(Some(v)) => HostValue::Symbol(Some(copy_bytes(v))),
            HostValue::Opaque(t) => HostValue::Opaque(*t),
        }
    }
}

/// One cell of the object slab: either a refcounted live object, or a
/// free cell holding the next entry of the freelist chain (the slab
/// length acts as the end-of-chain sentinel).
pub enum SlabCell {
    Full { obj: HostValue, cnt: u32 },
    Free(usize),
}

/// The mutable host-side state of one generated module: object slab,
/// freelist head and borrowed-object stack.
///
/// `free_list` is ghost bookkeeping: the cells of the freelist in the
/// order the chain visits them, starting at `slab_next`.
pub struct Runtime {
    pub slab: Vec<SlabCell>,
    pub slab_next: usize,
    pub stack: Vec<HostValue>,
    pub free_list: Ghost<Seq<int>>,
}

/// Is `h` a stack (borrow) handle? Low bit set means stack.
pub open spec fn is_stack_handle(h: usize) -> bool {
    h % 2 == 1
}

/// The slab or stack index a handle refers to.
pub open spec fn handle_index(h: usize) -> int {
    h as int / 2
}

impl Runtime {
    /// The freelist chain, in visiting order.
    pub open spec fn free(self) -> Seq<int> {
        self.free_list@
    }

    /// Well-formedness: every live heap cell has a positive refcount, and
    /// the free cells are exactly the cells of the freelist chain, which
    /// starts at `slab_next`, links each cell to the next and ends at the
    /// slab length.
    pub open spec fn wf(self) -> bool {
        &&& self.slab_next as int == if self.free().len() == 0 {
            self.slab@.len() as int
        } else {
            self.free()[0]
        }
        &&& forall|k: int|
            0 <= k < self.free().len() ==> 0 <= #[trigger] self.free()[k] < self.slab@.len()
        &&& forall|k: int|
            0 <= k < self.free().len() ==> (#[trigger] self.slab@[self.free()[k]]) is Free
        &&& forall|k: int|
            0 <= k < self.free().len() ==> (#[trigger] self.slab@[self.free()[k]])->Free_0 as int
                == if k == self.free().len() - 1 {
                self.slab@.len() as int
            } else {
                self.free()[k + 1]
            }
        &&& self.free().no_duplicates()
        &&& forall|i: int|
            0 <= i < self.slab@.len() && (#[trigger] self.slab@[i]) is Free
                ==> self.free().contains(i)
        &&& forall|i: int|
            0 <= i < self.slab@.len() && (#[trigger] self.slab@[i]) is Full
                ==> self.slab@[i]->Full_cnt >= 1
    }

    /// Does `h` denote a live object in this state?
    pub open spec fn valid_handle(self, h: usize) -> bool {
        if is_stack_handle(h) {
            handle_index(h) < self.stack@.len()
        } else {
            handle_index(h) < self.slab@.len() && self.slab@[handle_index(h)] is Full
        }
    }

    /// The object a valid handle refers to.
    pub open spec fn lookup(self, h: usize) -> HostValue {
        if is_stack_handle(h) {
            self.stack@[handle_index(h)]
        } else {
            self.slab@[handle_index(h)]->Full_obj
        }
    }

    /// A fresh runtime: empty slab, empty stack, freelist head at 0.
    pub fn new() -> (r: Runtime)
        ensures
            r.wf(),
            r.slab@ == Seq::<SlabCell>::empty(),
            r.stack@ == Seq::<HostValue>::empty(),
            r.free() == Seq::<int>::empty(),
    {
        Runtime {
            slab: Vec::new(),
            slab_next: 0,
            stack: Vec::new(),
            free_list: Ghost(Seq::empty()),
        }
    }
}

/// Exact effect of `add_heap_object`: the object is placed, with refcount
/// 1, in the cell at the freelist head (growing the slab by one cell when
/// the freelist is empty), every other cell is untouched, and the handle
/// is the even encoding of that cell.
pub open spec fn add_heap_post(pre: Runtime, v: HostValue, post: Runtime, h: usize) -> bool {
    let idx = pre.slab_next as int;
    &&& h as int == 2 * idx
    &&& post.stack@ == pre.stack@
    &&& if pre.free().len() == 0 {
        post.slab@.len() == pre.slab@.len() + 1 && post.free() == Seq::<int>::empty()
    } else {
        post.slab@.len() == pre.slab@.len() && post.free() == pre.free().skip(1)
    }
    &&& forall|i: int|
        0 <= i < pre.slab@.len() && i != idx ==> post.slab@[i] == #[trigger] pre.slab@[i]
    &&& post.slab@[idx] is Full
    &&& post.slab@[idx]->Full_obj == v
    &&& post.slab@[idx]->Full_cnt == 1
}

/// Exact effect of `add_borrowed_object`: the object is pushed on the
/// borrowed stack and the handle is the odd encoding of its slot.
pub open spec fn add_borrowed_post(pre: Runtime, v: HostValue, post: Runtime, h: usize) -> bool {
    &&& h as int == 2 * pre.stack@.len() + 1
    &&& post.stack@ == pre.stack@.push(v)
    &&& post.slab@ == pre.slab@
    &&& post.free() == pre.free()
    &&& post.slab_next == pre.slab_next
}

/// Exact effect of popping the borrowed stack.
pub open spec fn pop_borrowed_post(pre: Runtime, post: Runtime, r: HostValue) -> bool {
    &&& r == pre.stack@.last()
    &&& post.stack@ == pre.stack@.drop_last()
    &&& post.slab@ == pre.slab@
    &&& post.free() == pre.free()
    &&& post.slab_next == pre.slab_next
}

/// Exact effect of `dropRef` on a heap handle: the refcount is
/// decremented; when it reaches zero the cell is linked into the
/// freelist and becomes the new freelist head.
pub open spec fn drop_ref_post(pre: Runtime, h: usize, post: Runtime) -> bool {
    let idx = handle_index(h);
    let cnt = pre.slab@[idx]->Full_cnt;
    &&& post.stack@ == pre.stack@
    &&& post.slab@.len() == pre.slab@.len()
    &&& forall|i: int|
        0 <= i < pre.slab@.len() && i != idx ==> post.slab@[i] == #[trigger] pre.slab@[i]
    &&& if cnt > 1 {
        &&& post.slab@[idx] is Full
        &&& post.slab@[idx]->Full_obj == pre.slab@[idx]->Full_obj
        &&& post.slab@[idx]->Full_cnt == cnt - 1
        &&& post.free() == pre.free()
        &&& post.slab_next == pre.slab_next
    } else {
        &&& post.slab@[idx] == SlabCell::Free(pre.slab_next)
        &&& post.free() == seq![idx] + pre.free()
        &&& post.slab_next as int == idx
    }
}

impl Runtime {
    /// Place a host object in the slab with refcount 1 and hand back its
    /// even-encoded heap handle.
    pub fn add_heap_object(&mut self, obj: HostValue) -> (h: usize)
        requires
            old(self).wf(),
            old(self).slab@.len() < usize::MAX / 2 - 2,
        ensures
            final(self).wf(),
            add_heap_post(*old(self), obj, *final(self), h),
    {
        if self.slab_next == self.slab.len() {
            let next = self.slab.len() + 1;
            self.slab.push(SlabCell::Free(next));
            proof {
                self.free_list@ = seq![self.slab@.len() - 1];
            }
        }
        let idx = self.slab_next;
        let ghost pre = *self;
        let next: usize = match &self.slab[idx] {
            SlabCell::Free(n) => *n,
            SlabCell::Full { .. } => {
                proof {
                    assert(self.free()[0] == idx as int);
                    assert(false);
                }
                unreached()
            },
        };
        self.slab_next = next;
        let ghost newcell = SlabCell::Full { obj, cnt: 1u32 };
        let _freed = self.slab.remove(idx);
        self.slab.insert(idx, SlabCell::Full { obj, cnt: 1 });
        proof {
            assert(self.slab@ =~= pre.slab@.update(idx as int, newcell));
            self.free_list@ = self.free_list@.skip(1);
            let f = pre.free();
            assert forall|k: int| 0 <= k < self.free().len() implies self.free()[k] == f[k + 1]
                && #[trigger] self.slab@[self.free()[k]] == pre.slab@[f[k + 1]] by {
                assert(f[k + 1] != f[0]);
            }
            assert forall|i: int|
                0 <= i < self.slab@.len() && (#[trigger] self.slab@[i]) is Free implies self.free()
                .contains(i) by {
                let k = choose|k: int| 0 <= k < f.len() && f[k] == i;
                assert(k != 0);
                assert(self.free()[k - 1] == i);
            }
            assert forall|k1: int, k2: int|
                0 <= k1 < self.free().len() && 0 <= k2 < self.free().len() && k1 != k2 implies
                self.free()[k1] != self.free()[k2] by {
                assert(f[k1 + 1] != f[k2 + 1]);
            }
            if self.free().len() == 0 {
                assert(self.free() =~= Seq::<int>::empty());
            }
        }
        idx * 2
    }

    /// Push a lent host object on the borrowed stack and hand back its
    /// odd-encoded stack handle.
    pub fn add_borrowed_object(&mut self, obj: HostValue) -> (h: usize)
        requires
            old(self).wf(),
            old(self).stack@.len() < usize::MAX / 2 - 2,
        ensures
            final(self).wf(),
            add_borrowed_post(*old(self), obj, *final(self), h),
    {
        let slot = self.stack.len();
        self.stack.push(obj);
        slot * 2 + 1
    }

    /// Pop the most recently lent object off the borrowed stack. The
    /// generated finalizer blocks call this once per borrow, on every
    /// exit path.
    pub fn pop_borrowed(&mut self) -> (r: HostValue)
        requires
            old(self).wf(),
            old(self).stack@.len() > 0,
        ensures
            final(self).wf(),
            pop_borrowed_post(*old(self), *final(self), r),
    {
        match self.stack.pop() {
            Some(v) => v,
            None => unreached(),
        }
    }

    /// Read the object a handle refers to, dispatching on the low bit.
    pub fn get_object(&self, h: usize) -> (r: &HostValue)
        requires
            self.wf(),
            self.valid_handle(h),
        ensures
            *r == self.lookup(h),
    {
        if h % 2 == 1 {
            &self.stack[h / 2]
        } else {
            match &self.slab[h / 2] {
                SlabCell::Full { obj, .. } => obj,
                SlabCell::Free(_) => unreached(),
            }
        }
    }

    /// Decrement the refcount of a heap handle; when it reaches zero,
    /// link the cell into the freelist. Stack handles are never dropped
    /// (the debug runtime raises on them), so they are excluded here.
    pub fn drop_ref(&mut self, h: usize)
        requires
            old(self).wf(),
            !is_stack_handle(h),
            old(self).valid_handle(h),
        ensures
            final(self).wf(),
            drop_ref_post(*old(self), h, *final(self)),
    {
        let idx = h / 2;
        let cell = self.slab.remove(idx);
        match cell {
            SlabCell::Full { obj, cnt } => {
                if cnt > 1 {
                    self.slab.insert(idx, SlabCell::Full { obj, cnt: cnt - 1 });
                    proof {
                        assert(self.slab@ =~= old(self).slab@.update(
                            idx as int,
                            self.slab@[idx as int],
                        ));
                        assert forall|k: int|
                            0 <= k < self.free().len() implies (#[trigger] self.slab@[self.free()[k]])
                            == old(self).slab@[self.free()[k]] by {
                            assert(old(self).slab@[self.free()[k]] is Free);
                        }
                    }
                } else {
                    self.slab.insert(idx, SlabCell::Free(self.slab_next));
                    proof {
                        assert(self.slab@ =~= old(self).slab@.update(
                            idx as int,
                            SlabCell::Free(old(self).slab_next),
                        ));
                    }
                    self.slab_next = idx;
                    proof {
                        self.free_list@ = seq![idx as int] + self.free_list@;
                        assert forall|i: int|
                            0 <= i < self.slab@.len() && (#[trigger] self.slab@[i]) is Free implies
                            self.free().contains(i) by {
                            if i == idx as int {
                                assert(self.free()[0] == i);
                            } else {
                                let f = old(self).free();
                                let k = choose|k: int| 0 <= k < f.len() && f[k] == i;
                                assert(self.free()[k + 1] == i);
                            }
                        }
                        assert forall|k1: int, k2: int|
                            0 <= k1 < self.free().len() && 0 <= k2 < self.free().len() && k1 != k2
                            implies self.free()[k1] != self.free()[k2] by {
                            if k1 != 0 && k2 != 0 {
                                assert(old(self).free()[k1 - 1] != old(self).free()[k2 - 1]);
                            } else {
                                let knz = if k1 == 0 { k2 } else { k1 };
                                assert(old(self).slab@[old(self).free()[knz - 1]] is Free);
                            }
                        }
                    }
                }
            },
            SlabCell::Free(_) => {
                proof {
                    assert(false);
                }
            },
        }
    }

    /// Read the object behind a heap handle and release the reference:
    /// the model of `takeObject` (a read followed by `dropRef`).
    ///
    /// When the refcount is 1 the stored value itself moves out.
    pub fn take_object(&mut self, h: usize) -> (r: HostValue)
        requires
            old(self).wf(),
            !is_stack_handle(h),
            old(self).valid_handle(h),
        ensures
            final(self).wf(),
            drop_ref_post(*old(self), h, *final(self)),
            r.deep() == old(self).lookup(h).deep(),
            old(self).slab@[handle_index(h)]->Full_cnt == 1 ==> r == old(self).lookup(h),
    {
        let idx = h / 2;
        let cell = self.slab.remove(idx);
        match cell {
            SlabCell::Full { obj, cnt } => {
                if cnt > 1 {
                    let copy = obj.clone();
                    self.slab.insert(idx, SlabCell::Full { obj, cnt: cnt - 1 });
                    proof {
                        assert(self.slab@ =~= old(self).slab@.update(
                            idx as int,
                            self.slab@[idx as int],
                        ));
                        assert forall|k: int|
                            0 <= k < self.free().len() implies (#[trigger] self.slab@[self.free()[k]])
                            == old(self).slab@[self.free()[k]] by {
                            assert(old(self).slab@[self.free()[k]] is Free);
                        }
                    }
                    copy
                } else {
                    self.slab.insert(idx, SlabCell::Free(self.slab_next));
                    proof {
                        assert(self.slab@ =~= old(self).slab@.update(
                            idx as int,
                            SlabCell::Free(old(self).slab_next),
                        ));
                    }
                    self.slab_next = idx;
                    proof {
                        self.free_list@ = seq![idx as int] + self.free_list@;
                        assert forall|i: int|
                            0 <= i < self.slab@.len() && (#[trigger] self.slab@[i]) is Free implies
                            self.free().contains(i) by {
                            if i == idx as int {
                                assert(self.free()[0] == i);
                            } else {
                                let f = old(self).free();
                                let k = choose|k: int| 0 <= k < f.len() && f[k] == i;
                                assert(self.free()[k + 1] == i);
                            }
                        }
                        assert forall|k1: int, k2: int|
                            0 <= k1 < self.free().len() && 0 <= k2 < self.free().len() && k1 != k2
                            implies self.free()[k1] != self.free()[k2] by {
                            if k1 != 0 && k2 != 0 {
                                assert(old(self).free()[k1 - 1] != old(self).free()[k2 - 1]);
                            } else {
                                let knz = if k1 == 0 { k2 } else { k1 };
                                assert(old(self).slab@[old(self).free()[knz - 1]] is Free);
                            }
                        }
                    }
                    obj
                }
            },
            SlabCell::Free(_) => unreached(),
        }
    }

    /// The debug-mode check that no heap object and no borrow is left
    /// outstanding: true exactly when the stack is empty and every slab
    /// cell is a freelist link.
    pub fn assert_heap_and_stack_empty(&self) -> (r: bool)
        requires
            self.wf(),
        ensures
            r <==> (self.stack@.len() == 0 && forall|i: int|
                0 <= i < self.slab@.len() ==> !((#[trigger] self.slab@[i]) is Full)),
    {
        if self.stack.len() > 0 {
            return false;
        }
        let mut i: usize = 0;
        while i < self.slab.len()
            invariant
                self.wf(),
                i <= self.slab@.len(),
                forall|j: int| 0 <= j < i ==> !((#[trigger] self.slab@[j]) is Full),
            decreases self.slab@.len() - i,
        {
            match &self.slab[i] {
                SlabCell::Full { .. } => {
                    return false;
                },
                SlabCell::Free(_) => {},
            }
            i += 1;
        }
        true
    }

    /// Walk the freelist chain from `slab_next` to the end sentinel and
    /// count its cells. Well-formedness guarantees the walk terminates.
    pub fn free_cell_count(&self) -> (n: usize)
        requires
            self.wf(),
        ensures
            n == self.free().len(),
    {
        proof {
            lemma_free_len_bounded(*self);
        }
        let mut cur = self.slab_next;
        let mut n: usize = 0;
        let ghost k: int = 0;
        let mut kk = Ghost(k);
        while cur < self.slab.len()
            invariant
                self.wf(),
                self.free().len() <= self.slab@.len(),
                0 <= kk@ <= self.free().len(),
                n == kk@,
                cur as int == if kk@ == self.free().len() {
                    self.slab@.len() as int
                } else {
                    self.free()[kk@]
                },
            decreases self.free().len() - kk@,
        {
            proof {
                if kk@ == self.free().len() {
                    assert(false);
                }
                assert(self.slab@[self.free()[kk@]] is Free);
            }
            let next: usize = match &self.slab[cur] {
                SlabCell::Free(nx) => *nx,
                SlabCell::Full { .. } => unreached(),
            };
            cur = next;
            n = n + 1;
            proof {
                kk@ = kk@ + 1;
            }
        }
        n
    }
}

/// Exact effect of wrapping one freshly created host value in a heap
/// cell: `add_heap_post` with the value given only by its shape (the
/// intrinsics build the value themselves).
pub open spec fn heap_wrap_post(pre: Runtime, hv: HostVal, post: Runtime, h: usize) -> bool {
    let idx = pre.slab_next as int;
    &&& h as int == 2 * idx
    &&& post.stack@ == pre.stack@
    &&& if pre.free().len() == 0 {
        post.slab@.len() == pre.slab@.len() + 1 && post.free() == Seq::<int>::empty()
    } else {
        post.slab@.len() == pre.slab@.len() && post.free() == pre.free().skip(1)
    }
    &&& forall|i: int|
        0 <= i < pre.slab@.len() && i != idx ==> post.slab@[i] == #[trigger] pre.slab@[i]
    &&& post.slab@[idx] is Full
    &&& post.slab@[idx]->Full_obj.deep() == hv
    &&& post.slab@[idx]->Full_cnt == 1
}

/// Value of the `__wbindgen_boolean_get` intrinsic: 0 for false, 1 for
/// true, 2 for anything that is not a boolean.
pub open spec fn boolean_get_val(v: HostVal) -> u32 {
    match v {
        HostVal::Bool(false) => 0u32,
        HostVal::Bool(true) => 1u32,
        _ => 2u32,
    }
}

impl Runtime {
    /// The `__wbindgen_object_clone_ref` intrinsic: a stack handle is
    /// promoted to a fresh heap handle wrapping the same value; a heap
    /// handle has its refcount bumped and comes back unchanged.
    pub fn clone_ref(&mut self, h: usize) -> (h2: usize)
        requires
            old(self).wf(),
            old(self).valid_handle(h),
            old(self).slab@.len() < usize::MAX / 2 - 2,
            !is_stack_handle(h) ==> old(self).slab@[handle_index(h)]->Full_cnt < u32::MAX,
        ensures
            final(self).wf(),
            is_stack_handle(h) ==> !is_stack_handle(h2) && heap_wrap_post(
                *old(self),
                old(self).lookup(h).deep(),
                *final(self),
                h2,
            ),
            !is_stack_handle(h) ==> {
                &&& h2 == h
                &&& final(self).stack@ == old(self).stack@
                &&& final(self).free() == old(self).free()
                &&& final(self).slab_next == old(self).slab_next
                &&& final(self).slab@.len() == old(self).slab@.len()
                &&& forall|i: int|
                    0 <= i < old(self).slab@.len() && i != handle_index(h)
                        ==> final(self).slab@[i] == #[trigger] old(self).slab@[i]
                &&& final(self).slab@[handle_index(h)] is Full
                &&& final(self).slab@[handle_index(h)]->Full_obj
                    == old(self).slab@[handle_index(h)]->Full_obj
                &&& final(self).slab@[handle_index(h)]->Full_cnt
                    == old(self).slab@[handle_index(h)]->Full_cnt + 1
            },
    {
        if h % 2 == 1 {
            let v = self.get_object(h).clone();
            self.add_heap_object(v)
        } else {
            let idx = h / 2;
            let cell = self.slab.remove(idx);
            match cell {
                SlabCell::Full { obj, cnt } => {
                    self.slab.insert(idx, SlabCell::Full { obj, cnt: cnt + 1 });
                    proof {
                        assert(self.slab@ =~= old(self).slab@.update(
                            idx as int,
                            self.slab@[idx as int],
                        ));
                        assert forall|k: int|
                            0 <= k < self.free().len() implies (#[trigger] self.slab@[self.free()[k]])
                            == old(self).slab@[self.free()[k]] by {
                            assert(old(self).slab@[self.free()[k]] is Free);
                        }
                    }
                },
                SlabCell::Free(_) => {
                    proof {
                        assert(false);
                    }
                },
            }
            h
        }
    }

    /// The `__wbindgen_string_new` intrinsic: wrap the string read from
    /// linear memory in a fresh heap handle.
    pub fn string_new(&mut self, mem: &Memory, ptr: usize, len: usize) -> (h: usize)
        requires
            old(self).wf(),
            ptr + len <= mem.bytes@.len(),
            old(self).slab@.len() < usize::MAX / 2 - 2,
        ensures
            final(self).wf(),
            heap_wrap_post(
                *old(self),
                HostVal::Str(mem.bytes@.subrange(ptr as int, ptr as int + len as int)),
                *final(self),
                h,
            ),
    {
        let bytes = mem.get_string(ptr, len);
        self.add_heap_object(HostValue::Str(bytes))
    }

    /// The `__wbindgen_number_new` intrinsic: heap-wrap a number.
    pub fn number_new(&mut self, n: i64) -> (h: usize)
        requires
            old(self).wf(),
            old(self).slab@.len() < usize::MAX / 2 - 2,
        ensures
            final(self).wf(),
            heap_wrap_post(*old(self), HostVal::Num(n as int), *final(self), h),
    {
        self.add_heap_object(HostValue::Num(n))
    }

    /// The `__wbindgen_undefined_new` intrinsic: heap-wrap `undefined`.
    pub fn undefined_new(&mut self) -> (h: usize)
        requires
            old(self).wf(),
            old(self).slab@.len() < usize::MAX / 2 - 2,
        ensures
            final(self).wf(),
            heap_wrap_post(*old(self), HostVal::Undefined, *final(self), h),
    {
        self.add_heap_object(HostValue::Undefined)
    }

    /// The `__wbindgen_null_new` intrinsic: heap-wrap `null`.
    pub fn null_new(&mut self) -> (h: usize)
        requires
            old(self).wf(),
            old(self).slab@.len() < usize::MAX / 2 - 2,
        ensures
            final(self).wf(),
            heap_wrap_post(*old(self), HostVal::Null, *final(self), h),
    {
        self.add_heap_object(HostValue::Null)
    }

    /// The `__wbindgen_boolean_new` intrinsic: heap-wrap the boolean the
    /// wasm integer 1 stands for.
    pub fn boolean_new(&mut self, v: u32) -> (h: usize)
        requires
            old(self).wf(),
            old(self).slab@.len() < usize::MAX / 2 - 2,
        ensures
            final(self).wf(),
            heap_wrap_post(*old(self), HostVal::Bool(v == 1), *final(self), h),
    {
        self.add_heap_object(HostValue::Bool(v == 1))
    }

    /// The `__wbindgen_symbol_new` intrinsic: length 0 makes an anonymous
    /// symbol, anything else a symbol with the description read from
    /// linear memory.
    pub fn symbol_new(&mut self, mem: &Memory, ptr: usize, len: usize) -> (h: usize)
        requires
            old(self).wf(),
            ptr + len <= mem.bytes@.len(),
            old(self).slab@.len() < usize::MAX / 2 - 2,
        ensures
            final(self).wf(),
            heap_wrap_post(
                *old(self),
                if len == 0 {
                    HostVal::Symbol(None)
                } else {
                    HostVal::Symbol(Some(mem.bytes@.subrange(ptr as int, ptr as int + len as int)))
                },
                *final(self),
                h,
            ),
    {
        if len == 0 {
            self.add_heap_object(HostValue::Symbol(None))
        } else {
            let bytes = mem.get_string(ptr, len);
            self.add_heap_object(HostValue::Symbol(Some(bytes)))
        }
    }

    /// The `__wbindgen_is_null` intrinsic.
    pub fn is_null(&self, h: usize) -> (r: u32)
        requires
            self.wf(),
            self.valid_handle(h),
        ensures
            r == if self.lookup(h).deep() is Null { 1u32 } else { 0u32 },
    {
        match self.get_object(h) {
            HostValue::Null => 1,
            _ => 0,
        }
    }

    /// The `__wbindgen_is_undefined` intrinsic.
    pub fn is_undefined(&self, h: usize) -> (r: u32)
        requires
            self.wf(),
            self.valid_handle(h),
        ensures
            r == if self.lookup(h).deep() is Undefined { 1u32 } else { 0u32 },
    {
        match self.get_object(h) {
            HostValue::Undefined => 1,
            _ => 0,
        }
    }

    /// The `__wbindgen_is_symbol` intrinsic.
    pub fn is_symbol(&self, h: usize) -> (r: u32)
        requires
            self.wf(),
            self.valid_handle(h),
        ensures
            r == if self.lookup(h).deep() is Symbol { 1u32 } else { 0u32 },
    {
        match self.get_object(h) {
            HostValue::Symbol(_) => 1,
            _ => 0,
        }
    }

    /// The `__wbindgen_boolean_get` intrinsic: 0 for false, 1 for true,
    /// 2 for a non-boolean.
    pub fn boolean_get(&self, h: usize) -> (r: u32)
        requires
            self.wf(),
            self.valid_handle(h),
        ensures
            r == boolean_get_val(self.lookup(h).deep()),
    {
        match self.get_object(h) {
            HostValue::Bool(b) => if *b {
                1
            } else {
                0
            },
            _ => 2,
        }
    }

    /// The `__wbindgen_number_get` intrinsic: the numeric value if the
    /// object is a number; otherwise 0, with 1 written to the invalid
    /// flag byte in linear memory.
    pub fn number_get(&self, mem: &mut Memory, h: usize, invalid: usize) -> (r: i64)
        requires
            self.wf(),
            self.valid_handle(h),
            invalid < old(mem).bytes@.len(),
        ensures
            self.lookup(h).deep() is Num ==> r as int == self.lookup(h).deep()->Num_0
                && final(mem).bytes@ == old(mem).bytes@,
            !(self.lookup(h).deep() is Num) ==> r == 0
                && final(mem).bytes@ == old(mem).bytes@.update(invalid as int, 1u8),
    {
        match self.get_object(h) {
            HostValue::Num(n) => *n,
            _ => {
                mem.set_byte(invalid, 1);
                0
            },
        }
    }

    /// The `__wbindgen_string_get` intrinsic: a non-string yields 0 and
    /// leaves memory alone; a string is copied into fresh linear memory,
    /// its length stored through the 32-bit view at `len_ptr`, and its
    /// pointer returned.
    pub fn string_get(&self, mem: &mut Memory, h: usize, len_ptr: usize) -> (r: usize)
        requires
            self.wf(),
            self.valid_handle(h),
            len_ptr + 4 <= old(mem).bytes@.len(),
            self.lookup(h).deep() is Str ==> old(mem).bytes@.len() + self.lookup(
                h,
            ).deep()->Str_0.len() <= usize::MAX,
            self.lookup(h).deep() is Str ==> self.lookup(h).deep()->Str_0.len() < 0x1_0000_0000,
        ensures
            !(self.lookup(h).deep() is Str) ==> r == 0 && final(mem).bytes@ == old(mem).bytes@,
            self.lookup(h).deep() is Str ==> ({
                let s = self.lookup(h).deep()->Str_0;
                &&& r == old(mem).bytes@.len()
                &&& final(mem).bytes@ == splice(
                    old(mem).bytes@ + s,
                    len_ptr as int,
                    u32_le_bytes(s.len() as u32),
                )
                &&& final(mem).bytes@.subrange(r as int, r as int + s.len()) == s
            }),
    {
        match self.get_object(h) {
            HostValue::Str(v) => {
                let (ptr, len) = mem.pass_string(v.as_slice());
                mem.write_u32_le(len_ptr, len as u32);
                proof {
                    let s = self.lookup(h).deep()->Str_0;
                    assert(mem.bytes@.subrange(ptr as int, ptr as int + s.len()) =~= s);
                }
                ptr
            },
            _ => 0,
        }
    }
}

/// Host-side wrapper of one opaque class instance: it owns the wasm
/// linear-memory pointer of the underlying allocation. Pointer 0 means
/// "already freed or transferred", so the destructor is idempotent.
pub struct Instance {
    pub ptr: usize,
}

impl Instance {
    /// Wrap a pointer handed back by a wasm constructor export.
    pub fn new(ptr: usize) -> (r: Instance)
        ensures
            r.ptr == ptr,
    {
        Instance { ptr }
    }

    /// A ByValue transfer: move the pointer out and null the wrapper, so
    /// no later call can see the old pointer again.
    pub fn take_ptr(&mut self) -> (p: usize)
        ensures
            p == old(self).ptr,
            final(self).ptr == 0,
    {
        let p = self.ptr;
        self.ptr = 0;
        p
    }

    /// The explicit destructor: null the pointer and hand the destructor
    /// argument to the caller — `Some` exactly when the instance still
    /// owned its allocation. The wasm destructor export runs only on
    /// `Some`, so it runs at most once per allocation.
    pub fn free(&mut self) -> (r: Option<usize>)
        ensures
            final(self).ptr == 0,
            r == if old(self).ptr == 0 {
                Option::<usize>::None
            } else {
                Option::Some(old(self).ptr)
            },
    {
        let p = self.ptr;
        self.ptr = 0;
        if p == 0 {
            None
        } else {
            Some(p)
        }
    }
}

/// Handle round trip: `takeObject(addHeapObject(v))` hands the very value
/// `v` back. The slab returns to its pre-call state exactly when a free
/// cell was reused; when the slab had to grow, everything is restored but
/// the one new cell, which stays behind free.
pub proof fn lemma_handle_round_trip(
    m0: Runtime,
    v: HostValue,
    m1: Runtime,
    h: usize,
    m2: Runtime,
    r: HostValue,
)
    requires
        m0.wf(),
        add_heap_post(m0, v, m1, h),
        m1.wf(),
        drop_ref_post(m1, h, m2),
        m1.slab@[handle_index(h)]->Full_cnt == 1 ==> r == m1.lookup(h),
    ensures
        r == v,
        m2.stack@ == m0.stack@,
        m0.free().len() > 0 ==> m2.slab@ =~= m0.slab@ && m2.free() =~= m0.free() && m2.slab_next
            == m0.slab_next,
        m0.free().len() == 0 ==> m2.slab@ =~= m0.slab@.push(
            SlabCell::Free((m0.slab@.len() + 1) as usize),
        ) && m2.slab_next == m0.slab_next,
{
    let idx = handle_index(h);
    assert(idx == m0.slab_next as int);
    assert(!is_stack_handle(h));
    assert(r == v);
    if m0.free().len() > 0 {
        assert(m0.free()[0] == idx);
        assert(m2.slab@[idx] == m0.slab@[idx]);
        assert(m2.free() =~= m0.free());
    }
}

/// Fresh-or-reuse: a heap allocation either grows the slab and returns
/// the first even handle past the old capacity, or reuses exactly the
/// freed cell at the head of the freelist.
pub proof fn lemma_handle_fresh_or_reused(m0: Runtime, v: HostValue, m1: Runtime, h: usize)
    requires
        m0.wf(),
        add_heap_post(m0, v, m1, h),
    ensures
        m0.free().len() == 0 ==> h as int == 2 * m0.slab@.len(),
        m0.free().len() > 0 ==> handle_index(h) < m0.slab@.len() && m0.slab@[handle_index(
            h,
        )] is Free,
{
}

/// Borrow-stack discipline: pushing a borrowed object and popping it
/// again restores the runtime exactly; the slab is never touched. The
/// generated finalizer blocks run the pop on every exit path, so this
/// holds for each borrow frame whether the call returned or threw.
pub proof fn lemma_borrow_balanced(
    m0: Runtime,
    v: HostValue,
    m1: Runtime,
    h: usize,
    m2: Runtime,
    r: HostValue,
)
    requires
        add_borrowed_post(m0, v, m1, h),
        pop_borrowed_post(m1, m2, r),
    ensures
        r == v,
        m2.stack@ =~= m0.stack@,
        m2.slab@ == m0.slab@,
        m2.free() == m0.free(),
        m2.slab_next == m0.slab_next,
{
    assert(m1.stack@.drop_last() =~= m0.stack@);
}

/// Stack discipline over any number of nested borrow frames: whatever
/// was piled on top of a base stack `s0`, running one pop per borrowed
/// value brings the stack back to `s0` and leaves the slab untouched.
/// The generated finalizer blocks run exactly one pop per borrow on
/// every exit path, so this holds whether the calls returned or threw.
pub proof fn lemma_borrow_frames(trace: Seq<Runtime>, rs: Seq<HostValue>, s0: Seq<HostValue>)
    requires
        trace.len() == rs.len() + 1,
        trace[0].stack@.len() == s0.len() + rs.len(),
        trace[0].stack@.subrange(0, s0.len() as int) == s0,
        forall|k: int|
            0 <= k < rs.len() ==> pop_borrowed_post(trace[k], #[trigger] trace[k + 1], rs[k]),
    ensures
        trace.last().stack@ == s0,
        trace.last().slab@ == trace[0].slab@,
        trace.last().free() == trace[0].free(),
        trace.last().slab_next == trace[0].slab_next,
    decreases rs.len(),
{
    if rs.len() == 0 {
        assert(trace[0].stack@ =~= s0);
    } else {
        let z: int = 0;
        assert(pop_borrowed_post(trace[z], trace[z + 1], rs[z]));
        assert(trace.skip(1)[0].stack@.subrange(0, s0.len() as int) =~= s0);
        assert forall|k: int|
            0 <= k < rs.skip(1).len() implies pop_borrowed_post(
            trace.skip(1)[k],
            #[trigger] trace.skip(1)[k + 1],
            rs.skip(1)[k],
        ) by {
            let k1 = k + 1;
            assert(pop_borrowed_post(trace[k1], trace[k1 + 1], rs[k1]));
            assert(trace.skip(1)[k] == trace[k1] && trace.skip(1)[k + 1] == trace[k1 + 1]
                && rs.skip(1)[k] == rs[k1]);
        }
        lemma_borrow_frames(trace.skip(1), rs.skip(1), s0);
        assert(trace.skip(1).last() == trace.last());
    }
}

/// Ownership transfer: after a ByValue transfer nulled the wrapper, a
/// later `free` is a no-op, so the wasm destructor never sees the
/// transferred pointer again.
pub proof fn lemma_transfer_then_free(
    w0: Instance,
    w1: Instance,
    p: usize,
    w2: Instance,
    r: Option<usize>,
)
    requires
        p == w0.ptr,
        w1.ptr == 0,
        w2.ptr == 0,
        r == if w1.ptr == 0 {
            Option::<usize>::None
        } else {
            Option::Some(w1.ptr)
        },
    ensures
        r is None,
{
}

/// In a well-formed runtime the freelist cannot be longer than the slab:
/// its entries are distinct cell indices.
pub proof fn lemma_free_len_bounded(rt: Runtime)
    requires
        rt.wf(),
    ensures
        rt.free().len() <= rt.slab@.len(),
{
    let f = rt.free();
    let range = set_int_range(0, rt.slab@.len() as int);
    f.unique_seq_to_set();
    assert(f.to_set().subset_of(range));
    lemma_int_range(0, rt.slab@.len() as int);
    lemma_len_subset(f.to_set(), range);
}

/// Freelist consistency: once no live object is left in the slab, the
/// freelist chain covers every cell, so a walk from `slab_next` visits
/// the whole capacity.
pub proof fn lemma_freelist_covers_capacity(rt: Runtime)
    requires
        rt.wf(),
        forall|i: int| 0 <= i < rt.slab@.len() ==> !((#[trigger] rt.slab@[i]) is Full),
    ensures
        rt.free().len() == rt.slab@.len(),
{
    let f = rt.free();
    let range = set_int_range(0, rt.slab@.len() as int);
    f.unique_seq_to_set();
    assert(f.to_set().subset_of(range));
    lemma_int_range(0, rt.slab@.len() as int);
    lemma_len_subset(f.to_set(), range);
    assert forall|i: int| range.contains(i) implies f.to_set().contains(i) by {
        assert(rt.slab@[i] is Free);
    }
    assert(range.subset_of(f.to_set()));
    lemma_len_subset(range, f.to_set());
}

} // verus!
