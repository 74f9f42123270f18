use vstd::prelude::*;
use vstd::arithmetic::power2::is_pow2;
use vstd::string::StringSliceAdditionalSpecFns;
use vstd::utf8::{valid_utf8, decode_utf8};
use crate::layout::{Layout, layout_ok, align_up, max_align, lemma_align_up, is_power_of_two};

verus! {

/// A range of bytes inside an arena: `len` bytes starting at offset `start`.
#[derive(Debug, Clone, Copy, PartialEq, Eq)]
pub struct Region {
    pub start: usize,
    pub len: usize,
}

impl Region {
    /// One past the last byte of the region.
    pub open spec fn end(self) -> int {
        self.start + self.len
    }

    /// The two regions share no byte.
    pub open spec fn disjoint(self, other: Region) -> bool {
        self.end() <= other.start || other.end() <= self.start
    }
}

/// Why an allocation was refused.
#[derive(Debug)]
pub enum ArenaError {
    /// There is no room for the request (in the arena, or from the allocator).
    AllocationError,
    /// The requested alignment is not a power of two, or size and alignment do
    /// not make a layout.
    AlignmentError,
}

/// Where an allocation was placed.
#[derive(Debug, Clone, Copy, PartialEq, Eq)]
pub enum AllocLocation {
    ArenaAlloc,
    HeapAlloc,
}

/// A value placed in the arena, together with the region it occupies there.
pub struct Allocated<T> {
    pub value: T,
    pub region: Region,
}

/// A value placed in the arena or, when the arena had no room, on the heap.
pub struct AllocSuccess<T> {
    pub alloc_res: T,
    pub alloc_loc: AllocLocation,
}

/// Where a heap allocation's data lies: block `block` of the arena's heap list,
/// `offset` bytes after the block's start (after its header).
#[derive(Debug, Clone, Copy, PartialEq, Eq)]
pub struct HeapPtr {
    pub block: usize,
    pub offset: usize,
}

/// The header of a heap block: the link to the block that was the head of the
/// heap list before it (its position in the list plus one; 0 ends the list),
/// and the block's layout (this header followed by the data).
pub struct HeapNode {
    next: usize,
    layout: Layout,
}

/// A block obtained from the global allocator: its header and its bytes.
struct HeapBlock {
    node: HeapNode,
    memory: Vec<u8>,
}

/// A heap block as seen by contracts: its layout and its bytes.
pub struct HeapBlockView {
    pub layout: Layout,
    pub bytes: Seq<u8>,
}

/// What an arena holds, as seen by contracts.
pub struct ArenaView {
    /// Bytes of the arena handed out so far; the next allocation starts here.
    pub allocated: nat,
    /// The arena's bytes.
    pub contents: Seq<u8>,
    /// The heap blocks, oldest first; the last is the head of the heap list.
    pub heap: Seq<HeapBlockView>,
}

/// A bump allocator over `N` bytes, with a list of heap blocks for the requests
/// that do not fit.
pub struct Arena<const N: usize> {
    container: [u8; N],
    heap: Vec<HeapBlock>,
    offset: usize,
}

impl<const N: usize> View for Arena<N> {
    type V = ArenaView;

    closed spec fn view(&self) -> ArenaView {
        ArenaView {
            allocated: self.offset as nat,
            contents: self.container@,
            heap: self.heap@.map_values(
                |b: HeapBlock| HeapBlockView { layout: b.node.layout, bytes: b.memory@ },
            ),
        }
    }
}

/// `data` written over `s` from position `at` on.
pub open spec fn overwrite(s: Seq<u8>, at: int, data: Seq<u8>) -> Seq<u8> {
    Seq::new(s.len(), |j: int| if at <= j < at + data.len() { data[j - at] } else { s[j] })
}

/// The header of each heap block has the layout of a `HeapNode`.
pub open spec fn header_size() -> int {
    vstd::layout::size_of::<HeapNode>() as int
}

/// The header's alignment, that of a `HeapNode`.
pub open spec fn header_align() -> int {
    vstd::layout::align_of::<HeapNode>() as int
}

/// Offset of the data in a heap block whose data is aligned to `align`.
pub open spec fn heap_data_offset(align: int) -> int {
    align_up(header_size(), align)
}

/// Size of a heap block holding `size` bytes aligned to `align`.
pub open spec fn heap_block_size(size: int, align: int) -> int {
    heap_data_offset(align) + size
}

/// Alignment of a heap block holding data aligned to `align`.
pub open spec fn heap_block_align(align: int) -> int {
    max_align(header_align(), align)
}

/// Bytes taken by `len` values of `T` laid side by side.
pub open spec fn slice_size<T>(len: nat) -> int {
    (len * vstd::layout::size_of::<T>()) as int
}

/// Whether a heap block for `size` bytes aligned to `align` has a layout.
pub open spec fn heap_block_ok(size: int, align: int) -> bool {
    layout_ok(heap_block_size(size, align), heap_block_align(align))
}

/// `new` is `old` with one more heap block at the head of the list, laid out as
/// `size` bytes aligned to `align` and holding zeros; the arena itself is as it
/// was.
pub open spec fn heap_grew(old: ArenaView, new: ArenaView, size: int, align: int) -> bool {
    &&& new.allocated == old.allocated
    &&& new.contents == old.contents
    &&& new.heap.len() == old.heap.len() + 1
    &&& new.heap.drop_last() == old.heap
    &&& new.heap.last().layout.size() == size
    &&& new.heap.last().layout.align() == align
    &&& new.heap.last().bytes == Seq::new(size as nat, |i: int| 0u8)
}

/// What asking for a heap block of `size` bytes aligned to `align` gives:
/// `AlignmentError` exactly when `size` and `align` make no layout,
/// `AllocationError` exactly when they do but the header followed by the data
/// makes none, and otherwise a new block, whose data starts after the header.
/// An error changes nothing.
pub open spec fn heap_bytes_outcome(
    old: ArenaView,
    new: ArenaView,
    size: int,
    align: int,
    r: Result<HeapPtr, ArenaError>,
) -> bool {
    &&& !layout_ok(size, align) ==> (r matches Err(e) && e is AlignmentError)
    &&& layout_ok(size, align) && !heap_block_ok(size, align) ==> (r matches Err(e)
        && e is AllocationError)
    &&& layout_ok(size, align) && heap_block_ok(size, align) ==> r is Ok
    &&& r matches Ok(p) ==> {
        &&& layout_ok(size, align)
        &&& heap_block_ok(size, align)
        &&& p.block == old.heap.len()
        &&& p.offset == heap_data_offset(align)
        &&& heap_grew(old, new, heap_block_size(size, align), heap_block_align(align))
    }
    &&& r matches Err(e) ==> {
        &&& (e is AlignmentError <==> !layout_ok(size, align))
        &&& new == old
    }
}

/// What placing `value` on the heap gives: when the block for `T` has a
/// layout, a new block laid out for `T` with `value` handed back as placed
/// there; otherwise `AllocationError` with `value` handed back and nothing
/// changed.
pub open spec fn heap_value_outcome<T>(
    old: ArenaView,
    new: ArenaView,
    value: T,
    r: Result<AllocSuccess<T>, (ArenaError, T)>,
) -> bool {
    let size = vstd::layout::size_of::<T>() as int;
    let align = vstd::layout::align_of::<T>() as int;
    &&& (r is Ok <==> heap_block_ok(size, align))
    &&& r matches Ok(s) ==> {
        &&& layout_ok(size, align)
        &&& s.alloc_res == value
        &&& s.alloc_loc == AllocLocation::HeapAlloc
        &&& heap_grew(old, new, heap_block_size(size, align), heap_block_align(align))
    }
    &&& r matches Err((e, v)) ==> {
        &&& e is AllocationError
        &&& v == value
        &&& new == old
    }
}

/// What placing a copy of `src` on the heap gives: `AlignmentError` exactly
/// when that many bytes with `T`'s alignment make no layout, `AllocationError`
/// exactly when they do but the block makes none, and otherwise a new block
/// laid out for `src.len()` values of `T`, with the copy; an error changes
/// nothing.
pub open spec fn heap_slice_outcome<T>(
    old: ArenaView,
    new: ArenaView,
    src: Seq<T>,
    r: Result<AllocSuccess<Vec<T>>, ArenaError>,
) -> bool {
    let size = slice_size::<T>(src.len());
    let align = vstd::layout::align_of::<T>() as int;
    &&& !layout_ok(size, align) ==> (r matches Err(e) && e is AlignmentError)
    &&& layout_ok(size, align) && !heap_block_ok(size, align) ==> (r matches Err(e)
        && e is AllocationError)
    &&& layout_ok(size, align) && heap_block_ok(size, align) ==> r is Ok
    &&& r matches Ok(s) ==> {
        &&& s.alloc_res@ == src
        &&& s.alloc_loc == AllocLocation::HeapAlloc
        &&& heap_grew(old, new, heap_block_size(size, align), heap_block_align(align))
    }
    &&& r matches Err(e) ==> {
        &&& (e is AlignmentError <==> !layout_ok(size, align))
        &&& new == old
    }
}

/// What placing `value` in an arena of `cap` bytes, or else on the heap, gives:
/// when the value fits after the bytes handed out, it goes in the arena at the
/// first offset aligned for `T`; otherwise what `heap_value_outcome` says.
pub open spec fn try_value_outcome<T>(
    cap: int,
    old: ArenaView,
    new: ArenaView,
    value: T,
    r: Result<AllocSuccess<T>, (ArenaError, T)>,
) -> bool {
    let start = align_up(old.allocated as int, vstd::layout::align_of::<T>() as int);
    let end = start + vstd::layout::size_of::<T>();
    &&& end <= cap ==> {
        &&& (r matches Ok(s) && s.alloc_res == value && s.alloc_loc == AllocLocation::ArenaAlloc)
        &&& new.allocated == end
        &&& new.contents == old.contents
        &&& new.heap == old.heap
    }
    &&& end > cap ==> heap_value_outcome(old, new, value, r)
}

/// What placing a copy of `src` in an arena of `cap` bytes, or else on the
/// heap, gives: when the copy fits after the bytes handed out, it goes in the
/// arena at the first offset aligned for `T`; otherwise what
/// `heap_slice_outcome` says.
pub open spec fn try_slice_outcome<T>(
    cap: int,
    old: ArenaView,
    new: ArenaView,
    src: Seq<T>,
    r: Result<AllocSuccess<Vec<T>>, ArenaError>,
) -> bool {
    let start = align_up(old.allocated as int, vstd::layout::align_of::<T>() as int);
    let end = start + slice_size::<T>(src.len());
    &&& end <= cap ==> {
        &&& (r matches Ok(s) && s.alloc_res@ == src && s.alloc_loc == AllocLocation::ArenaAlloc)
        &&& new.allocated == end
        &&& new.contents == old.contents
        &&& new.heap == old.heap
    }
    &&& end > cap ==> heap_slice_outcome(old, new, src, r)
}

/// Calls `core::str::from_utf8`, which std documents to return the string slice
/// over `bytes` when they are valid UTF-8 and an error otherwise. The contract
/// claims exactly that, with vstd's `valid_utf8` standing for UTF-8 validity.
#[verifier::external_body]
fn str_from_utf8(bytes: &[u8]) -> (r: Option<&str>)
    ensures
        r is Some <==> valid_utf8(bytes@),
        r matches Some(s) ==> s.spec_bytes() == bytes@,
{
    match core::str::from_utf8(bytes) {
        Ok(s) => Some(s),
        Err(_) => None,
    }
}

impl<const N: usize> Arena<N> {
    /// The arena's invariant: `N` bytes, no more than `N` handed out, and every
    /// heap block with a valid layout, as many bytes as its layout's size, and a
    /// link to the block before it.
    pub closed spec fn wf(&self) -> bool {
        &&& self.container@.len() == N
        &&& self.offset <= N
        &&& forall|i: int|
            0 <= i < self.heap@.len() ==> {
                &&& (#[trigger] self.heap@[i]).node.layout.wf()
                &&& self.heap@[i].memory@.len() == self.heap@[i].node.layout.size()
                &&& self.heap@[i].node.next == i
            }
    }

    /// What the invariant says of the arena's view.
    pub proof fn lemma_wf(&self)
        requires
            self.wf(),
        ensures
            self@.contents.len() == N,
            self@.allocated <= N,
            forall|i: int|
                0 <= i < self@.heap.len() ==> {
                    &&& (#[trigger] self@.heap[i]).layout.wf()
                    &&& self@.heap[i].bytes.len() == self@.heap[i].layout.size()
                },
    {
    }

    /// An empty arena of `N` zeroed bytes, held inline, with no heap blocks.
    pub fn new() -> (a: Self)
        ensures
            a.wf(),
            a@.allocated == 0,
            a@.contents == Seq::new(N as nat, |i: int| 0u8),
            a@.heap.len() == 0,
    {
        let a = Arena { container: [0u8; N], heap: Vec::new(), offset: 0 };
        assert(a@.contents =~= Seq::new(N as nat, |i: int| 0u8));
        assert(a@.heap =~= Seq::<HeapBlockView>::empty());
        a
    }

    /// Number of bytes the arena holds.
    pub fn capacity(&self) -> (r: usize)
        ensures
            r == N,
    {
        N
    }

    /// Number of bytes of the arena handed out so far.
    pub fn allocated_bytes(&self) -> (r: usize)
        ensures
            r == self@.allocated,
    {
        self.offset
    }

    /// Makes a new heap block the head of the heap list: it is appended to the
    /// list, and its header links to the block that was the head before it.
    fn update_heapnode_with_layout(&mut self, memory: Vec<u8>, new_layout: Layout)
        requires
            old(self).wf(),
            new_layout.wf(),
            memory@.len() == new_layout.size(),
        ensures
            final(self).wf(),
            final(self)@.allocated == old(self)@.allocated,
            final(self)@.contents == old(self)@.contents,
            final(self)@.heap == old(self)@.heap.push(
                HeapBlockView { layout: new_layout, bytes: memory@ },
            ),
    {
        let next = self.heap.len();
        self.heap.push(HeapBlock { node: HeapNode { next, layout: new_layout }, memory });
        assert(self@.heap =~= old(self)@.heap.push(
            HeapBlockView { layout: new_layout, bytes: memory@ },
        ));
    }

    /// Hands out the next `size` bytes of the arena, or fails with
    /// `AllocationError` when fewer than `size` bytes are left.
    pub fn alloc_bytes(&mut self, size: usize) -> (r: Result<Region, ArenaError>)
        requires
            old(self).wf(),
            old(self)@.allocated + size <= usize::MAX,
        ensures
            final(self).wf(),
            final(self)@.contents == old(self)@.contents,
            final(self)@.heap == old(self)@.heap,
            r is Ok <==> old(self)@.allocated + size <= N,
            r matches Ok(reg) ==> {
                &&& reg.start == old(self)@.allocated
                &&& reg.len == size
                &&& final(self)@.allocated == reg.end()
            },
            r matches Err(e) ==> {
                &&& e is AllocationError
                &&& final(self)@.allocated == old(self)@.allocated
            },
    {
        let cur_offset = self.offset;
        let new_offset = cur_offset + size;
        if new_offset <= N {
            self.offset = new_offset;
            Ok(Region { start: cur_offset, len: size })
        } else {
            Err(ArenaError::AllocationError)
        }
    }

    /// Hands out `size` bytes of the arena starting at the first offset, not
    /// below the bytes handed out so far, that is a multiple of `align`. Fails
    /// with `AlignmentError` when `align` is not a power of two, and with
    /// `AllocationError` when the aligned request does not fit.
    pub fn alloc_align(&mut self, size: usize, align: usize) -> (r: Result<Region, ArenaError>)
        requires
            old(self).wf(),
            is_pow2(align as int) ==> align_up(old(self)@.allocated as int, align as int) + size
                <= usize::MAX,
        ensures
            final(self).wf(),
            final(self)@.contents == old(self)@.contents,
            final(self)@.heap == old(self)@.heap,
            !is_pow2(align as int) ==> (r matches Err(e) && e is AlignmentError),
            is_pow2(align as int) ==> (r is Ok <==> align_up(old(self)@.allocated as int, align as int)
                + size <= N),
            r matches Ok(reg) ==> {
                &&& reg.start == align_up(old(self)@.allocated as int, align as int)
                &&& reg.start % align == 0
                &&& reg.len == size
                &&& final(self)@.allocated == reg.end()
            },
            r matches Err(e) ==> {
                &&& (is_pow2(align as int) ==> e is AllocationError)
                &&& final(self)@.allocated == old(self)@.allocated
            },
    {
        if !is_power_of_two(align) {
            return Err(ArenaError::AlignmentError);
        }
        proof {
            reveal(is_pow2);
            lemma_align_up(self.offset as int, align as int);
        }
        let rem = self.offset % align;
        let padding = if rem == 0 {
            0
        } else {
            align - rem
        };
        let new_offset = self.offset + padding;
        if new_offset + size > N {
            return Err(ArenaError::AllocationError);
        }
        self.offset = new_offset;
        self.alloc_bytes(size)
    }

    /// Copies `src` into the next `src.len()` bytes of the arena; fails with
    /// `AllocationError`, changing nothing, when they do not fit.
    pub fn alloc_slice_bytes(&mut self, src: &[u8]) -> (r: Result<Region, ArenaError>)
        requires
            old(self).wf(),
            old(self)@.allocated + src@.len() <= usize::MAX,
        ensures
            final(self).wf(),
            final(self)@.heap == old(self)@.heap,
            r is Ok <==> old(self)@.allocated + src@.len() <= N,
            r matches Ok(reg) ==> {
                &&& reg.start == old(self)@.allocated
                &&& reg.len == src@.len()
                &&& final(self)@.allocated == reg.end()
                &&& final(self)@.contents == overwrite(old(self)@.contents, reg.start as int, src@)
            },
            r matches Err(e) ==> {
                &&& e is AllocationError
                &&& final(self)@ == old(self)@
            },
    {
        let reg = match self.alloc_bytes(src.len()) {
            Ok(reg) => reg,
            Err(e) => {
                assert(self@ == old(self)@);
                return Err(e);
            },
        };
        let ghost before = self@.contents;
        let mut i: usize = 0;
        while i < src.len()
            invariant
                self.wf(),
                i <= src@.len(),
                reg.start + src@.len() <= N,
                self@.allocated == old(self)@.allocated + src@.len(),
                self@.heap == old(self)@.heap,
                before == old(self)@.contents,
                self@.contents =~= overwrite(before, reg.start as int, src@.subrange(0, i as int)),
            decreases src@.len() - i,
        {
            self.container[reg.start + i] = src[i];
            assert(self@.contents =~= overwrite(
                before,
                reg.start as int,
                src@.subrange(0, i + 1 as int),
            ));
            i = i + 1;
        }
        assert(src@.subrange(0, src@.len() as int) =~= src@);
        Ok(reg)
    }

    /// Copies the UTF-8 bytes of `slice` into the arena, as `alloc_slice_bytes`
    /// does; the region then holds valid UTF-8 that reads back as `slice`.
    pub fn alloc_str(&mut self, slice: &str) -> (r: Result<Region, ArenaError>)
        requires
            old(self).wf(),
            old(self)@.allocated + slice.spec_bytes().len() <= usize::MAX,
        ensures
            final(self).wf(),
            final(self)@.heap == old(self)@.heap,
            r is Ok <==> old(self)@.allocated + slice.spec_bytes().len() <= N,
            r matches Ok(reg) ==> {
                &&& reg.start == old(self)@.allocated
                &&& reg.len == slice.spec_bytes().len()
                &&& final(self)@.allocated == reg.end()
                &&& final(self)@.contents == overwrite(
                    old(self)@.contents,
                    reg.start as int,
                    slice.spec_bytes(),
                )
                &&& valid_utf8(final(self)@.contents.subrange(reg.start as int, reg.end()))
            },
            r matches Err(e) ==> {
                &&& e is AllocationError
                &&& final(self)@ == old(self)@
            },
    {
        let bytes = slice.as_bytes();
        let r = self.alloc_slice_bytes(bytes);
        proof {
            if let Ok(reg) = r {
                lemma_overwrite_read_back(old(self)@.contents, reg.start as int, bytes@);
                lemma_str_bytes_valid(slice);
            }
        }
        r
    }

    /// The bytes of region `reg`.
    pub fn bytes(&self, reg: Region) -> (r: &[u8])
        requires
            self.wf(),
            reg.end() <= N,
        ensures
            r@ == self@.contents.subrange(reg.start as int, reg.end()),
    {
        vstd::slice::slice_subrange(self.container.as_slice(), reg.start, reg.start + reg.len)
    }

    /// Writes `value` at position `i` of region `reg`.
    pub fn write_byte(&mut self, reg: Region, i: usize, value: u8)
        requires
            old(self).wf(),
            reg.end() <= N,
            i < reg.len,
        ensures
            final(self).wf(),
            final(self)@.allocated == old(self)@.allocated,
            final(self)@.heap == old(self)@.heap,
            final(self)@.contents == old(self)@.contents.update(reg.start + i, value),
    {
        self.container[reg.start + i] = value;
    }

    /// The string held in region `reg`, when its bytes are valid UTF-8.
    pub fn get_str(&self, reg: Region) -> (r: Option<&str>)
        requires
            self.wf(),
            reg.end() <= N,
        ensures
            r is Some <==> valid_utf8(self@.contents.subrange(reg.start as int, reg.end())),
            r matches Some(s) ==> {
                &&& s.spec_bytes() == self@.contents.subrange(reg.start as int, reg.end())
                &&& s@ == decode_utf8(self@.contents.subrange(reg.start as int, reg.end()))
            },
    {
        let b = self.bytes(reg);
        let r = str_from_utf8(b);
        proof {
            if let Some(s) = r {
                lemma_str_bytes_valid(s);
            }
        }
        r
    }

    /// Places `value` in the arena, at the first offset aligned for `T`; on
    /// failure hands `value` back with the error.
    pub fn alloc_value<T>(&mut self, value: T) -> (r: Result<Allocated<T>, (ArenaError, T)>)
        requires
            old(self).wf(),
            align_up(old(self)@.allocated as int, vstd::layout::align_of::<T>() as int)
                + vstd::layout::size_of::<T>() <= usize::MAX,
        ensures
            final(self).wf(),
            final(self)@.contents == old(self)@.contents,
            final(self)@.heap == old(self)@.heap,
            r is Ok <==> align_up(old(self)@.allocated as int, vstd::layout::align_of::<T>() as int)
                + vstd::layout::size_of::<T>() <= N,
            r matches Ok(a) ==> {
                &&& a.value == value
                &&& a.region.start == align_up(
                    old(self)@.allocated as int,
                    vstd::layout::align_of::<T>() as int,
                )
                &&& (a.region.start as int) % (vstd::layout::align_of::<T>() as int) == 0
                &&& a.region.len == vstd::layout::size_of::<T>()
                &&& final(self)@.allocated == a.region.end()
            },
            r matches Err((e, v)) ==> {
                &&& e is AllocationError
                &&& v == value
                &&& final(self)@.allocated == old(self)@.allocated
            },
    {
        vstd::layout::layout_for_type_is_valid::<T>();
        let size = core::mem::size_of::<T>();
        let align = core::mem::align_of::<T>();
        match self.alloc_align(size, align) {
            Ok(region) => Ok(Allocated { value, region }),
            Err(e) => Err((e, value)),
        }
    }

    /// Places a copy of `src` in the arena, at the first offset aligned for `T`.
    pub fn alloc_slice<T: Copy>(&mut self, src: &[T]) -> (r: Result<Allocated<Vec<T>>, ArenaError>)
        requires
            old(self).wf(),
            slice_size::<T>(src@.len()) <= usize::MAX,
            align_up(old(self)@.allocated as int, vstd::layout::align_of::<T>() as int) + slice_size::<T>(src@.len()) <= usize::MAX,
        ensures
            final(self).wf(),
            final(self)@.contents == old(self)@.contents,
            final(self)@.heap == old(self)@.heap,
            r is Ok <==> align_up(old(self)@.allocated as int, vstd::layout::align_of::<T>() as int)
                + slice_size::<T>(src@.len()) <= N,
            r matches Ok(a) ==> {
                &&& a.value@ == src@
                &&& a.region.start == align_up(
                    old(self)@.allocated as int,
                    vstd::layout::align_of::<T>() as int,
                )
                &&& (a.region.start as int) % (vstd::layout::align_of::<T>() as int) == 0
                &&& a.region.len == slice_size::<T>(src@.len())
                &&& final(self)@.allocated == a.region.end()
            },
            r matches Err(e) ==> {
                &&& e is AllocationError
                &&& final(self)@.allocated == old(self)@.allocated
            },
    {
        vstd::layout::layout_for_type_is_valid::<T>();
        let byte_size = src.len() * core::mem::size_of::<T>();
        let align = core::mem::align_of::<T>();
        let region = match self.alloc_align(byte_size, align) {
            Ok(region) => region,
            Err(e) => return Err(e),
        };
        let value = vstd::slice::slice_to_vec(src);
        Ok(Allocated { value, region })
    }

    /// Lays out a heap block as a `HeapNode` header followed by `size` bytes
    /// aligned to `align`, obtains from the global allocator a byte buffer of
    /// that layout's size, and makes the header and the buffer the head of the
    /// heap list; the data's place is its offset in that layout. The header is
    /// kept in the list beside the buffer, and the buffer itself carries no
    /// alignment. Fails with `AlignmentError` when `size` and `align` make no
    /// layout, and with `AllocationError` when they do but the block has none;
    /// when both have one it succeeds. Like every `Vec`, the buffer comes from
    /// the allocator's infallible path: should the allocator run out of memory,
    /// the process stops instead of returning.
    pub fn alloc_heap_bytes(&mut self, size: usize, align: usize) -> (r: Result<HeapPtr, ArenaError>)
        requires
            old(self).wf(),
        ensures
            final(self).wf(),
            heap_bytes_outcome(old(self)@, final(self)@, size as int, align as int, r),
    {
        let head_layout = Layout::new::<HeapNode>();
        let data_layout = match Layout::from_size_align(size, align) {
            Ok(l) => l,
            Err(_) => return Err(ArenaError::AlignmentError),
        };
        let (new_layout, new_offset) = match head_layout.extend(data_layout) {
            Ok(pair) => pair,
            Err(_) => return Err(ArenaError::AllocationError),
        };
        let mut memory: Vec<u8> = Vec::with_capacity(new_layout.size());
        let mut i: usize = 0;
        while i < new_layout.size()
            invariant
                i <= new_layout.size(),
                memory@ == Seq::new(i as nat, |j: int| 0u8),
            decreases new_layout.size() - i,
        {
            memory.push(0u8);
            i = i + 1;
        }
        let r = self.record_heap_block(true, memory, new_layout, new_offset);
        assert(r is Ok ==> self@.heap.drop_last() =~= old(self)@.heap);
        r
    }

    /// Completes a heap allocation once the global allocator has answered: when
    /// it `granted` the block, makes `memory` a new block laid out as
    /// `new_layout` at the head of the heap list and gives the place of its
    /// data, `data_offset` bytes in; otherwise fails with `AllocationError` and
    /// changes nothing.
    pub fn record_heap_block(
        &mut self,
        granted: bool,
        memory: Vec<u8>,
        new_layout: Layout,
        data_offset: usize,
    ) -> (r: Result<HeapPtr, ArenaError>)
        requires
            old(self).wf(),
            new_layout.wf(),
            granted ==> memory@.len() == new_layout.size(),
        ensures
            final(self).wf(),
            final(self)@.allocated == old(self)@.allocated,
            final(self)@.contents == old(self)@.contents,
            granted ==> {
                &&& (r matches Ok(p) && p.block == old(self)@.heap.len() && p.offset == data_offset)
                &&& final(self)@.heap == old(self)@.heap.push(
                    HeapBlockView { layout: new_layout, bytes: memory@ },
                )
            },
            !granted ==> {
                &&& (r matches Err(e) && e is AllocationError)
                &&& final(self)@ == old(self)@
            },
    {
        if !granted {
            return Err(ArenaError::AllocationError);
        }
        let block = self.heap.len();
        self.update_heapnode_with_layout(memory, new_layout);
        Ok(HeapPtr { block, offset: data_offset })
    }

    /// The `len` bytes of heap block `p.block` that start `p.offset` bytes in.
    pub fn heap_bytes(&self, p: HeapPtr, len: usize) -> (r: &[u8])
        requires
            self.wf(),
            p.block < self@.heap.len(),
            p.offset + len <= self@.heap[p.block as int].layout.size(),
        ensures
            r@ == self@.heap[p.block as int].bytes.subrange(p.offset as int, p.offset + len),
    {
        let block = &self.heap[p.block];
        vstd::slice::slice_subrange(block.memory.as_slice(), p.offset, p.offset + len)
    }

    /// Writes `value` `i` bytes after `p` in heap block `p.block`.
    pub fn write_heap_byte(&mut self, p: HeapPtr, i: usize, value: u8)
        requires
            old(self).wf(),
            p.block < old(self)@.heap.len(),
            p.offset + i < old(self)@.heap[p.block as int].layout.size(),
        ensures
            final(self).wf(),
            final(self)@.allocated == old(self)@.allocated,
            final(self)@.contents == old(self)@.contents,
            final(self)@.heap == old(self)@.heap.update(
                p.block as int,
                HeapBlockView {
                    layout: old(self)@.heap[p.block as int].layout,
                    bytes: old(self)@.heap[p.block as int].bytes.update(p.offset + i, value),
                },
            ),
    {
        let mut block = self.heap.remove(p.block);
        block.memory.set(p.offset + i, value);
        self.heap.insert(p.block, block);
        assert(self@.heap =~= old(self)@.heap.update(
            p.block as int,
            HeapBlockView {
                layout: old(self)@.heap[p.block as int].layout,
                bytes: old(self)@.heap[p.block as int].bytes.update(p.offset + i, value),
            },
        ));
    }

    /// Places `value` in a new heap block laid out for `T`; on failure hands
    /// `value` back with the error.
    pub fn alloc_heap<T>(&mut self, value: T) -> (r: Result<AllocSuccess<T>, (ArenaError, T)>)
        requires
            old(self).wf(),
        ensures
            final(self).wf(),
            heap_value_outcome(old(self)@, final(self)@, value, r),
    {
        vstd::layout::layout_for_type_is_valid::<T>();
        let size = core::mem::size_of::<T>();
        let align = core::mem::align_of::<T>();
        match self.alloc_heap_bytes(size, align) {
            Ok(_) => Ok(AllocSuccess { alloc_res: value, alloc_loc: AllocLocation::HeapAlloc }),
            Err(e) => Err((e, value)),
        }
    }

    /// Places a copy of `src` in a new heap block laid out for `src.len()`
    /// values of `T`.
    pub fn alloc_heap_slice<T: Copy>(&mut self, src: &[T]) -> (r: Result<
        AllocSuccess<Vec<T>>,
        ArenaError,
    >)
        requires
            old(self).wf(),
            slice_size::<T>(src@.len()) <= usize::MAX,
        ensures
            final(self).wf(),
            heap_slice_outcome(old(self)@, final(self)@, src@, r),
    {
        vstd::layout::layout_for_type_is_valid::<T>();
        let byte_size = src.len() * core::mem::size_of::<T>();
        let align = core::mem::align_of::<T>();
        match self.alloc_heap_bytes(byte_size, align) {
            Ok(_) => {
                let copy = vstd::slice::slice_to_vec(src);
                Ok(AllocSuccess { alloc_res: copy, alloc_loc: AllocLocation::HeapAlloc })
            },
            Err(e) => Err(e),
        }
    }

    /// Places `value` in the arena when it fits there, and otherwise does what
    /// `alloc_heap` does with it.
    pub fn try_alloc<T>(&mut self, value: T) -> (r: Result<AllocSuccess<T>, (ArenaError, T)>)
        requires
            old(self).wf(),
            align_up(old(self)@.allocated as int, vstd::layout::align_of::<T>() as int)
                + vstd::layout::size_of::<T>() <= usize::MAX,
        ensures
            final(self).wf(),
            try_value_outcome(N as int, old(self)@, final(self)@, value, r),
    {
        match self.alloc_value(value) {
            Ok(a) => Ok(AllocSuccess { alloc_res: a.value, alloc_loc: AllocLocation::ArenaAlloc }),
            Err(res) => self.alloc_heap(res.1),
        }
    }

    /// Places a copy of `src` in the arena when it fits there, and otherwise
    /// does what `alloc_heap_slice` does with it.
    pub fn try_alloc_slice<T: Copy>(&mut self, src: &[T]) -> (r: Result<
        AllocSuccess<Vec<T>>,
        ArenaError,
    >)
        requires
            old(self).wf(),
            slice_size::<T>(src@.len()) <= usize::MAX,
            align_up(old(self)@.allocated as int, vstd::layout::align_of::<T>() as int)
                + slice_size::<T>(src@.len()) <= usize::MAX,
        ensures
            final(self).wf(),
            try_slice_outcome(N as int, old(self)@, final(self)@, src@, r),
    {
        match self.alloc_slice(src) {
            Ok(a) => Ok(AllocSuccess { alloc_res: a.value, alloc_loc: AllocLocation::ArenaAlloc }),
            Err(_) => self.alloc_heap_slice(src),
        }
    }

    /// Frees every heap block and hands the whole arena out again. The arena's
    /// bytes are left as they are.
    pub fn reset(&mut self)
        requires
            old(self).wf(),
        ensures
            final(self).wf(),
            final(self)@.allocated == 0,
            final(self)@.heap.len() == 0,
            final(self)@.contents == old(self)@.contents,
    {
        self.offset = 0;
        while self.heap.len() > 0
            invariant
                self.wf(),
                self@.allocated == 0,
                self@.contents == old(self)@.contents,
            decreases self.heap@.len(),
        {
            let _block = self.heap.pop();
        }
    }
}

/// What a write puts in is what a read of the same range gives back, and a
/// write leaves every other byte as it was.
pub proof fn lemma_overwrite_read_back(s: Seq<u8>, at: int, data: Seq<u8>)
    requires
        0 <= at,
        at + data.len() <= s.len(),
    ensures
        overwrite(s, at, data).len() == s.len(),
        overwrite(s, at, data).subrange(at, at + data.len()) == data,
        forall|j: int|
            0 <= j < s.len() && !(at <= j < at + data.len()) ==> #[trigger] overwrite(s, at, data)[j]
                == s[j],
{
    assert(overwrite(s, at, data).subrange(at, at + data.len()) =~= data);
}

/// The bytes of a string are valid UTF-8 and decode back to the string.
pub proof fn lemma_str_bytes_valid(s: &str)
    ensures
        valid_utf8(s.spec_bytes()),
        decode_utf8(s.spec_bytes()) == s@,
{
    vstd::utf8::encode_utf8_valid_utf8(s@);
    vstd::utf8::encode_utf8_decode_utf8(s@);
}

/// A string copied into the arena's bytes reads back as the same string: the
/// bytes that `alloc_str` writes at `at` are valid UTF-8 and decode to `s`,
/// which is what `get_str` gives back for that region.
pub proof fn lemma_str_read_back(contents: Seq<u8>, at: int, s: &str)
    requires
        0 <= at,
        at + s.spec_bytes().len() <= contents.len(),
    ensures
        ({
            let stored = overwrite(contents, at, s.spec_bytes()).subrange(
                at,
                at + s.spec_bytes().len(),
            );
            &&& valid_utf8(stored)
            &&& decode_utf8(stored) == s@
        }),
{
    lemma_overwrite_read_back(contents, at, s.spec_bytes());
    lemma_str_bytes_valid(s);
}

/// Regions handed out by the arena never overlap: a region handed out while the
/// arena had handed out `mark` bytes starts at or after `mark`, and every
/// earlier region ends at or before it.
pub proof fn lemma_bump_regions_disjoint(earlier: Region, later: Region, mark: int)
    requires
        earlier.end() <= mark,
        mark <= later.start,
    ensures
        earlier.disjoint(later),
        later.disjoint(earlier),
{
}

/// Aligning to 1 adds no padding: `alloc_align(size, 1)` hands out exactly what
/// `alloc_bytes(size)` would, and fails exactly when it would.
pub proof fn lemma_align_one(allocated: int)
    requires
        allocated >= 0,
    ensures
        is_pow2(1),
        align_up(allocated, 1) == allocated,
{
    reveal(is_pow2);
}

/// A reset arena and a new one have handed out the same bytes (none), hold the
/// same heap list (empty), and have as many bytes.
pub proof fn lemma_reset_like_new<const N: usize>(reset: Arena<N>, fresh: Arena<N>)
    requires
        reset.wf(),
        fresh.wf(),
        reset@.allocated == 0,
        reset@.heap.len() == 0,
        fresh@.allocated == 0,
        fresh@.heap.len() == 0,
    ensures
        reset@.allocated == fresh@.allocated,
        reset@.heap == fresh@.heap,
        reset@.contents.len() == fresh@.contents.len(),
{
    reset.lemma_wf();
    fresh.lemma_wf();
    assert(reset@.heap =~= fresh@.heap);
}

/// One call on an arena, as it moves the count of bytes handed out: a
/// successful allocation in the arena that handed out `Region`, a call that
/// leaves the count alone (a refused request, a heap request, a read or a
/// write), or a reset.
pub enum ArenaStep {
    InArena(Region),
    Unchanged,
    Reset,
}

/// How a step moves the count from `before` to `after`, as the contracts of
/// the arena's functions state it.
pub open spec fn step_moves(before: nat, step: ArenaStep, after: nat) -> bool {
    match step {
        ArenaStep::InArena(r) => before <= r.start && after == r.end(),
        ArenaStep::Unchanged => after == before,
        ArenaStep::Reset => after == 0,
    }
}

/// The end of the latest allocation in the arena since the latest reset, or 0
/// when there is none.
pub open spec fn last_arena_end(steps: Seq<ArenaStep>) -> nat
    decreases steps.len(),
{
    if steps.len() == 0 {
        0
    } else {
        match steps.last() {
            ArenaStep::InArena(r) => r.end() as nat,
            ArenaStep::Reset => 0,
            ArenaStep::Unchanged => last_arena_end(steps.drop_last()),
        }
    }
}

/// Over any run of calls from a new arena, the bytes handed out are the end of
/// the latest allocation in the arena since the latest reset, or 0 when there
/// is none.
pub proof fn lemma_allocated_is_last_end(counts: Seq<nat>, steps: Seq<ArenaStep>)
    requires
        counts.len() == steps.len() + 1,
        counts[0] == 0,
        forall|i: int| 0 <= i < steps.len() ==> step_moves(counts[i], #[trigger] steps[i], counts[i + 1]),
    ensures
        counts.last() == last_arena_end(steps),
    decreases steps.len(),
{
    if steps.len() > 0 {
        let k = steps.len() - 1;
        lemma_allocated_is_last_end(counts.drop_last(), steps.drop_last());
        assert(step_moves(counts[k], steps[k], counts[k + 1]));
        assert(counts.drop_last().last() == counts[k]);
    }
}

/// The data of a heap block for `align`-aligned data starts at a multiple of
/// `align`, after the header, and less than `align` bytes past it.
pub proof fn lemma_heap_data_offset(align: int)
    requires
        is_pow2(align),
    ensures
        heap_data_offset(align) % align == 0,
        header_size() <= heap_data_offset(align) < header_size() + align,
{
    reveal(is_pow2);
    lemma_align_up(header_size(), align);
}

/// A heap request succeeds exactly when `size` and `align` make a layout and a
/// header followed by that data makes one too, however large the request and
/// whatever the arena holds. The new block is appended to the heap list, its
/// data starts at a multiple of `align` after the header, its bytes are zeros
/// up to the end of the data, and the arena is untouched. An error changes
/// nothing and is `AlignmentError` exactly when `size` and `align` make no
/// layout.
pub proof fn lemma_alloc_heap_bytes_law(
    old: ArenaView,
    new: ArenaView,
    size: usize,
    align: usize,
    r: Result<HeapPtr, ArenaError>,
)
    requires
        heap_bytes_outcome(old, new, size as int, align as int, r),
    ensures
        r is Ok <==> layout_ok(size as int, align as int) && heap_block_ok(size as int, align as int),
        r matches Ok(p) ==> {
            &&& p.block == old.heap.len()
            &&& p.offset % align == 0
            &&& header_size() <= p.offset < header_size() + align
            &&& new.allocated == old.allocated
            &&& new.contents == old.contents
            &&& new.heap.len() == old.heap.len() + 1
            &&& new.heap.drop_last() == old.heap
            &&& new.heap.last().bytes.len() == p.offset + size
            &&& forall|i: int| 0 <= i < new.heap.last().bytes.len() ==> #[trigger] new.heap.last().bytes[i] == 0
        },
        r matches Err(e) ==> {
            &&& new == old
            &&& (e is AlignmentError <==> !layout_ok(size as int, align as int))
        },
{
    if let Ok(p) = r {
        lemma_heap_data_offset(align as int);
    }
}

/// Placing a value on the heap succeeds exactly when the block for `T` has a
/// layout, whatever the arena's size or contents; the value comes back as
/// placed, one block holding at least a header and `T`'s bytes is appended,
/// and the arena is untouched. On failure the value comes back and nothing
/// changes.
pub proof fn lemma_alloc_heap_law<T>(
    old: ArenaView,
    new: ArenaView,
    value: T,
    r: Result<AllocSuccess<T>, (ArenaError, T)>,
)
    requires
        heap_value_outcome(old, new, value, r),
    ensures
        r is Ok <==> heap_block_ok(
            vstd::layout::size_of::<T>() as int,
            vstd::layout::align_of::<T>() as int,
        ),
        r matches Ok(s) ==> {
            &&& s.alloc_res == value
            &&& s.alloc_loc == AllocLocation::HeapAlloc
            &&& new.allocated == old.allocated
            &&& new.contents == old.contents
            &&& new.heap.len() == old.heap.len() + 1
            &&& new.heap.drop_last() == old.heap
            &&& new.heap.last().bytes.len() >= header_size() + vstd::layout::size_of::<T>()
        },
        r matches Err((e, v)) ==> {
            &&& v == value
            &&& new == old
        },
{
    if r is Ok {
        lemma_heap_data_offset(vstd::layout::align_of::<T>() as int);
    }
}

/// Placing a copy of a slice on the heap succeeds exactly when its bytes with
/// `T`'s alignment make a layout and so does the block holding them, whatever
/// the arena's size or contents; the copy equals the slice, one block holding
/// at least a header and the slice's bytes is appended, and the arena is
/// untouched. An error changes nothing.
pub proof fn lemma_alloc_heap_slice_law<T>(
    old: ArenaView,
    new: ArenaView,
    src: Seq<T>,
    r: Result<AllocSuccess<Vec<T>>, ArenaError>,
)
    requires
        heap_slice_outcome(old, new, src, r),
    ensures
        r is Ok <==> layout_ok(slice_size::<T>(src.len()), vstd::layout::align_of::<T>() as int)
            && heap_block_ok(slice_size::<T>(src.len()), vstd::layout::align_of::<T>() as int),
        r matches Ok(s) ==> {
            &&& s.alloc_res@ == src
            &&& s.alloc_loc == AllocLocation::HeapAlloc
            &&& new.allocated == old.allocated
            &&& new.contents == old.contents
            &&& new.heap.len() == old.heap.len() + 1
            &&& new.heap.drop_last() == old.heap
            &&& new.heap.last().bytes.len() >= header_size() + slice_size::<T>(src.len())
        },
        r is Err ==> new == old,
{
    if r is Ok {
        lemma_heap_data_offset(vstd::layout::align_of::<T>() as int);
    }
}

/// Placing a value in an arena of `cap` bytes, or else on the heap, fails only
/// when the value neither fits in the arena nor has a heap block with a
/// layout; it goes to the arena exactly when it fits there, and otherwise to
/// the heap whenever its block has a layout, however large the value is next
/// to `cap`. The value always comes back, and a heap placement leaves the
/// arena's count and bytes alone.
pub proof fn lemma_try_alloc_law<T>(
    cap: int,
    old: ArenaView,
    new: ArenaView,
    value: T,
    r: Result<AllocSuccess<T>, (ArenaError, T)>,
)
    requires
        try_value_outcome(cap, old, new, value, r),
    ensures
        ({
            let size = vstd::layout::size_of::<T>() as int;
            let align = vstd::layout::align_of::<T>() as int;
            let fits = align_up(old.allocated as int, align) + size <= cap;
            &&& r is Err ==> !fits && !heap_block_ok(size, align)
            &&& fits ==> (r matches Ok(s) && s.alloc_loc == AllocLocation::ArenaAlloc)
            &&& !fits && heap_block_ok(size, align) ==> (r matches Ok(s) && s.alloc_loc
                == AllocLocation::HeapAlloc)
            &&& r matches Ok(s) ==> s.alloc_res == value
            &&& r matches Err((e, v)) ==> (v == value && new == old)
            &&& r matches Ok(s) ==> (s.alloc_loc == AllocLocation::HeapAlloc ==> {
                &&& new.allocated == old.allocated
                &&& new.contents == old.contents
                &&& new.heap.len() == old.heap.len() + 1
            })
        }),
{
}

/// Placing a copy of a slice in an arena of `cap` bytes, or else on the heap,
/// fails only when the copy does not fit in the arena and its bytes or its
/// heap block make no layout; it goes to the arena exactly when it fits there,
/// and otherwise to the heap whenever both have a layout, whatever the arena
/// handed out before. The copy always equals the slice.
pub proof fn lemma_try_alloc_slice_law<T>(
    cap: int,
    old: ArenaView,
    new: ArenaView,
    src: Seq<T>,
    r: Result<AllocSuccess<Vec<T>>, ArenaError>,
)
    requires
        try_slice_outcome(cap, old, new, src, r),
    ensures
        ({
            let size = slice_size::<T>(src.len());
            let align = vstd::layout::align_of::<T>() as int;
            let fits = align_up(old.allocated as int, align) + size <= cap;
            &&& r is Err ==> !fits && !(layout_ok(size, align) && heap_block_ok(size, align))
            &&& fits ==> (r matches Ok(s) && s.alloc_loc == AllocLocation::ArenaAlloc)
            &&& !fits && layout_ok(size, align) && heap_block_ok(size, align) ==> (r matches Ok(s)
                && s.alloc_loc == AllocLocation::HeapAlloc)
            &&& r matches Ok(s) ==> s.alloc_res@ == src
            &&& r is Err ==> new == old
            &&& r matches Ok(s) ==> (s.alloc_loc == AllocLocation::HeapAlloc ==> {
                &&& new.allocated == old.allocated
                &&& new.contents == old.contents
                &&& new.heap.len() == old.heap.len() + 1
            })
        }),
{
}

} // verus!
