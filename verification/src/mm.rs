//! Kernel memory allocation bookkeeping: the physical window, the virtual
//! address reservations, the free lists of fixed-size blocks, the allocator
//! built of one free list per size class, and the NUMA mappings of memory to
//! APICs
//!
//! A free list keeps its metadata inside the freed blocks themselves: small
//! blocks form a linked list, larger ones are used as stacks of the
//! addresses of other freed blocks. Here the blocks and what they hold are
//! values; the caller moves the memory.

use vstd::prelude::*;
use vstd::arithmetic::power2::pow2;
use crate::core_locals::{free_list_index, size_class, class_align, FREE_LIST_COUNT};
use crate::acpi::MemoryAffinity;
use std::collections::BTreeMap;

verus! {

broadcast use vstd::laws_cmp::group_laws_cmp;

/// Size of the header of a free list node: the next node and the number of
/// free slots
pub const NODE_HEADER_SIZE: usize = 16;

/// Size of a page
pub const PAGE_SIZE: usize = 4096;

/// The physical window: all of physical memory mapped linearly from `base`
#[derive(Debug, Clone, Copy, PartialEq, Eq, Structural)]
pub struct PhysWindow {
    /// Virtual address where physical address 0 is mapped
    pub base: u64,
    /// Number of bytes of physical memory the window covers
    pub size: u64,
}

impl PhysWindow {
    /// The window fits in the address space
    pub open spec fn wf(&self) -> bool {
        self.base + self.size <= u64::MAX
    }

    /// Offset a physical address into our physical window
    pub fn phys_ptr(&self, paddr: u64) -> (v: u64)
        requires
            paddr + self.base <= u64::MAX,
        ensures
            v == paddr + self.base,
    {
        paddr + self.base
    }

    /// The address in the window of the `size` bytes of physical memory at
    /// `paddr`, if they are not empty and lie in the window
    pub fn translate(&self, paddr: u64, size: u64) -> (r: Option<u64>)
        requires
            self.wf(),
        ensures
            r == (if size >= 1 && paddr + (size - 1) < self.size {
                Some((paddr + self.base) as u64)
            } else {
                None::<u64>
            }),
    {
        // Compute the ending physical address and make sure we don't overflow
        if size == 0 {
            return None;
        }
        let end = match (size - 1).checked_add(paddr) {
            Some(end) => end,
            None => return None,
        };

        // Make sure this physical address fits inside our physical window
        if end >= self.size {
            return None;
        }

        // Convert the physical address into a linear address
        Some(paddr + self.base)
    }
}

/// Reservations of virtual address ranges, each followed by a guard gap
#[derive(Debug)]
pub struct VirtReservations {
    /// Base address of the next reservation
    next: u64,
    /// Gap left after every reservation
    guard: u64,
}

impl VirtReservations {
    /// Base address of the next reservation
    pub closed spec fn spec_next(&self) -> u64 {
        self.next
    }

    /// Gap left after every reservation
    pub closed spec fn spec_guard(&self) -> u64 {
        self.guard
    }

    /// Reservations starting at `base`, separated by `guard` bytes
    pub fn new(base: u64, guard: u64) -> (r: VirtReservations)
        ensures
            r.spec_next() == base,
            r.spec_guard() == guard,
    {
        VirtReservations { next: base, guard }
    }

    /// Find a free region of virtual memory that can hold `size` bytes and
    /// return its virtual address.
    ///
    /// This only reserves a virtual address range that is guaranteed not to
    /// overlap any other reservation; it maps nothing.
    pub fn receive_vaddr_4k(&mut self, size: u64) -> (vaddr: u64)
        requires
            size > 0,
            size % 4096 == 0,
            old(self).spec_guard() + size <= u64::MAX,
            old(self).spec_next() + old(self).spec_guard() + size <= u64::MAX,
        ensures
            vaddr == old(self).spec_next(),
            final(self).spec_next() == old(self).spec_next() + old(self).spec_guard() + size,
            final(self).spec_guard() == old(self).spec_guard(),
    {
        let reserve = self.guard + size;
        let ret = self.next;
        self.next = ret + reserve;
        ret
    }
}

/// The addresses free in a free list node, in the order they are handed
/// out last-first: the node's own block below the addresses stored in its
/// free slots, the first free slot on top
pub open spec fn node_stack(n: FreeListNode) -> Seq<u64> {
    seq![n.addr] + n.free_addrs@.subrange(n.free_slots as int, n.free_addrs@.len() as int).reverse()
}

/// The addresses free in the nodes `ns`, the last node on top
pub open spec fn stack_of(ns: Seq<FreeListNode>) -> Seq<u64>
    decreases ns.len(),
{
    if ns.len() == 0 {
        Seq::empty()
    } else {
        stack_of(ns.drop_last()) + node_stack(ns.last())
    }
}

/// Freed allocation metadata held by a free block
#[derive(Debug, Clone)]
pub struct FreeListNode {
    /// Virtual address of the block holding this node
    pub addr: u64,
    /// Index of the first free address in `free_addrs`: the slots below it
    /// are free to store addresses, those from it on hold freed blocks
    pub free_slots: usize,
    /// Virtual addresses of freed memory blocks
    pub free_addrs: Vec<u64>,
}

/// A freelist allocator that manages fixed-size memory blocks.
#[derive(Debug)]
pub struct FreeList {
    /// The nodes of the freelist, the head last
    nodes: Vec<FreeListNode>,
    /// Size of allocations (in bytes) for this freelist
    size: usize,
}

/// Number of addresses a node of a free list of `size`-byte blocks stores
pub open spec fn available_slots(size: nat) -> nat {
    if size <= NODE_HEADER_SIZE {
        0
    } else {
        ((size / 8) - (NODE_HEADER_SIZE / 8)) as nat
    }
}

impl FreeList {
    /// Every node stores as many slots as a block has room for
    pub closed spec fn wf(&self) -> bool {
        &&& self.size >= 8
        &&& forall|i: int|
            0 <= i < self.nodes@.len() ==> {
                &&& #[trigger] self.nodes@[i].free_addrs@.len() == available_slots(self.size as nat)
                &&& self.nodes@[i].free_slots <= self.nodes@[i].free_addrs@.len()
            }
    }

    /// The free blocks, the next one handed out last
    pub closed spec fn view_stack(&self) -> Seq<u64> {
        stack_of(self.nodes@)
    }

    /// Size of allocations (in bytes) for this freelist
    pub closed spec fn block_size(&self) -> nat {
        self.size as nat
    }

    /// Create a new, empty freelist containing addresses to `size`
    /// allocations
    pub fn new(size: usize) -> (f: FreeList)
        requires
            size >= 8,
            exists|e: nat| size == vstd::arithmetic::power2::pow2(e),
        ensures
            f.wf(),
            f.view_stack() == Seq::<u64>::empty(),
            f.block_size() == size,
    {
        FreeList { nodes: Vec::new(), size }
    }

    /// Size of allocations (in bytes) for this freelist
    pub fn size(&self) -> (s: usize)
        ensures
            s == self.block_size(),
    {
        self.size
    }

    /// Whether no block is free
    pub fn is_empty(&self) -> (r: bool)
        requires
            self.wf(),
        ensures
            r == (self.view_stack().len() == 0),
    {
        proof {
            lemma_stack_len(self.nodes@, self.size as nat);
        }
        self.nodes.len() == 0
    }

    /// Number of addresses a node stores
    fn slots(&self) -> (n: usize)
        requires
            self.size >= 8,
        ensures
            n == available_slots(self.size as nat),
    {
        if self.size <= NODE_HEADER_SIZE {
            0
        } else {
            self.size / 8 - NODE_HEADER_SIZE / 8
        }
    }

    /// Put an allocation back onto the free list
    pub fn push(&mut self, vaddr: u64)
        requires
            old(self).wf(),
        ensures
            final(self).wf(),
            final(self).view_stack() == old(self).view_stack().push(vaddr),
            final(self).block_size() == old(self).block_size(),
    {
        let slots = self.slots();
        let n = self.nodes.len();
        // Check if there is room for this allocation in the free stack of the
        // head, or if the freed block becomes the new head
        if n == 0 || self.nodes[n - 1].free_slots == 0 {
            // No free slots, create a new stack out of the freed vaddr: all
            // its entries are free
            let mut free_addrs: Vec<u64> = Vec::new();
            while free_addrs.len() < slots
                invariant
                    free_addrs@.len() <= slots,
                decreases slots - free_addrs@.len(),
            {
                free_addrs.push(0);
            }
            let node = FreeListNode { addr: vaddr, free_slots: slots, free_addrs };
            proof {
                assert(node_stack(node) =~= seq![vaddr]);
                assert(self.nodes@.push(node).drop_last() =~= self.nodes@);
            }
            self.nodes.push(node);
            return;
        }
        // There's room in the current stack, just throw us in there
        let mut head = self.nodes.pop().unwrap();
        let ghost old_head = head;
        let ghost rest = self.nodes@;
        head.free_slots = head.free_slots - 1;
        head.free_addrs.set(head.free_slots, vaddr);
        proof {
            let fs = head.free_slots as int;
            let len = head.free_addrs@.len() as int;
            assert(head.free_addrs@.subrange(fs, len) =~= seq![vaddr] + old_head.free_addrs@.subrange(
                fs + 1,
                len,
            ));
            assert(head.free_addrs@.subrange(fs, len).reverse() =~= old_head.free_addrs@.subrange(
                fs + 1,
                len,
            ).reverse().push(vaddr));
            assert(node_stack(head) =~= node_stack(old_head).push(vaddr));
            assert(old(self).nodes@.drop_last() =~= rest);
            assert(rest.push(head).drop_last() =~= rest);
        }
        self.nodes.push(head);
    }

    /// Get an address from this freelist: the one freed last, or `None` if
    /// the freelist is empty
    pub fn pop(&mut self) -> (r: Option<u64>)
        requires
            old(self).wf(),
        ensures
            final(self).wf(),
            final(self).block_size() == old(self).block_size(),
            old(self).view_stack().len() == 0 ==> r is None && final(self).view_stack()
                == old(self).view_stack(),
            old(self).view_stack().len() > 0 ==> r == Some(old(self).view_stack().last())
                && final(self).view_stack() == old(self).view_stack().drop_last(),
    {
        proof {
            lemma_stack_len(self.nodes@, self.size as nat);
        }
        if self.nodes.len() == 0 {
            return None;
        }
        let mut head = self.nodes.pop().unwrap();
        let ghost old_head = head;
        let ghost rest = self.nodes@;
        proof {
            assert(old(self).nodes@.drop_last() =~= rest);
        }
        // If there's a free entry in the stack, return it
        if head.free_slots < head.free_addrs.len() {
            let allocation = head.free_addrs[head.free_slots];
            head.free_slots = head.free_slots + 1;
            proof {
                let fs = old_head.free_slots as int;
                let len = old_head.free_addrs@.len() as int;
                assert(old_head.free_addrs@.subrange(fs, len) =~= seq![allocation]
                    + head.free_addrs@.subrange(fs + 1, len));
                assert(old_head.free_addrs@.subrange(fs, len).reverse() =~= head.free_addrs@.subrange(
                    fs + 1,
                    len,
                ).reverse().push(allocation));
                assert(node_stack(old_head) =~= node_stack(head).push(allocation));
                assert(rest.push(head).drop_last() =~= rest);
            }
            self.nodes.push(head);
            return Some(allocation);
        }
        // If no free slots are available, use the head of the list as the
        // allocation
        proof {
            assert(node_stack(old_head) =~= seq![old_head.addr]);
        }
        Some(head.addr)
    }

    /// Split up the page at `page` into blocks backed by this freelist and
    /// make them available, lowest first
    pub fn allocate_page_for_blocks(&mut self, page: u64)
        requires
            old(self).wf(),
            old(self).block_size() <= PAGE_SIZE,
            page + PAGE_SIZE <= u64::MAX,
        ensures
            final(self).wf(),
            final(self).block_size() == old(self).block_size(),
            final(self).view_stack() == old(self).view_stack() + Seq::new(
                ((PAGE_SIZE + old(self).block_size() - 1) / (old(self).block_size() as int)) as nat,
                |k: int| (page + k * old(self).block_size()) as u64,
            ),
    {
        let size = self.size;
        let ghost s0 = self.view_stack();
        let mut offset: usize = 0;
        let mut k: usize = 0;
        assert((4096 + size - 1) / size as int >= 1) by (nonlinear_arith)
            requires
                8 <= size <= 4096,
        ;
        assert(Seq::new(0, |j: int| (page + j * size) as u64) =~= Seq::<u64>::empty());
        assert(s0 + Seq::<u64>::empty() =~= s0);
        while offset < PAGE_SIZE
            invariant
                self.wf(),
                self.size == size,
                8 <= size <= PAGE_SIZE,
                page + PAGE_SIZE <= u64::MAX,
                offset == k * size,
                k <= (PAGE_SIZE + size - 1) / size as int,
                offset < PAGE_SIZE ==> k < (PAGE_SIZE + size - 1) / size as int,
                self.view_stack() == s0 + Seq::new(k as nat, |j: int| (page + j * size) as u64),
                offset <= 2 * PAGE_SIZE,
            decreases 2 * PAGE_SIZE - offset,
        {
            self.push(page + offset as u64);
            proof {
                assert(s0 + Seq::new((k + 1) as nat, |j: int| (page + j * size) as u64) =~= (s0
                    + Seq::new(k as nat, |j: int| (page + j * size) as u64)).push(
                    (page + offset) as u64,
                ));
                assert((k + 1) * size == k * size + size) by (nonlinear_arith);
            }
            offset = offset + size;
            k = k + 1;
            proof {
                lemma_blocks_in_page(k as int, size as int);
            }
        }
        assert(k >= (4096 + size - 1) / size as int) by (nonlinear_arith)
            requires
                k * size >= 4096,
                8 <= size <= 4096,
        ;
    }
}

/// The number of blocks of a page: `k` blocks end at the page end exactly
/// when they are all of them
proof fn lemma_blocks_in_page(k: int, size: int)
    requires
        8 <= size <= 4096,
        1 <= k,
        (k - 1) * size < 4096,
    ensures
        k <= (4096 + size - 1) / size,
        k * size < 4096 ==> k < (4096 + size - 1) / size,
{
    assert(k <= (4096 + size - 1) / size) by (nonlinear_arith)
        requires
            8 <= size <= 4096,
            1 <= k,
            (k - 1) * size < 4096,
    ;
    assert(k * size < 4096 ==> k < (4096 + size - 1) / size) by (nonlinear_arith)
        requires
            8 <= size <= 4096,
            1 <= k,
    ;
}

/// A node stack is never empty, so the free list is empty exactly when it
/// has no node
proof fn lemma_stack_len(ns: Seq<FreeListNode>, size: nat)
    ensures
        (stack_of(ns).len() == 0) == (ns.len() == 0),
    decreases ns.len(),
{
    if ns.len() > 0 {
        lemma_stack_len(ns.drop_last(), size);
    }
}

/// Freeing a block and allocating right after hands the same block back and
/// leaves the free list as it was
pub proof fn lemma_pop_after_push(stack: Seq<u64>, vaddr: u64)
    ensures
        stack.push(vaddr).len() > 0,
        stack.push(vaddr).last() == vaddr,
        stack.push(vaddr).drop_last() == stack,
{
    assert(stack.push(vaddr).drop_last() =~= stack);
}

/// Index of the free list serving allocations of `size` bytes
pub open spec fn class_of(size: usize) -> int {
    size_class(size as nat) - 3
}

/// The blocks of `block` bytes the page at `page` splits into, lowest first
pub open spec fn page_blocks(page: u64, block: nat) -> Seq<u64> {
    Seq::new(((PAGE_SIZE + block - 1) / (block as int)) as nat, |k: int| (page + k * block) as u64)
}

/// The kernel's allocator: one free list per size class, the list at index
/// `i` holding blocks of `2^(i + 3)` bytes
#[derive(Debug)]
pub struct GlobalAllocator {
    lists: Vec<FreeList>,
}

impl GlobalAllocator {
    /// One free list per size class, of the size of its class
    pub closed spec fn wf(&self) -> bool {
        &&& self.lists@.len() == FREE_LIST_COUNT
        &&& forall|i: int|
            0 <= i < FREE_LIST_COUNT ==> (#[trigger] self.lists@[i]).wf()
                && self.lists@[i].block_size() == pow2((i + 3) as nat)
    }

    /// The free blocks of the list at index `i`, the next one handed out last
    pub closed spec fn free_blocks(&self, i: int) -> Seq<u64> {
        self.lists@[i].view_stack()
    }

    /// Empty free lists for every size class, on a 64-bit machine
    pub fn new() -> (a: GlobalAllocator)
        requires
            usize::BITS == 64,
        ensures
            a.wf(),
            forall|i: int| 0 <= i < FREE_LIST_COUNT ==> #[trigger] a.free_blocks(i) == Seq::<
                u64,
            >::empty(),
    {
        let mut lists: Vec<FreeList> = Vec::new();
        let mut size: usize = 8;
        let mut i: usize = 0;
        proof {
            vstd::arithmetic::power2::lemma2_to64();
            vstd::arithmetic::power2::lemma2_to64_rest();
        }
        while i < FREE_LIST_COUNT
            invariant
                usize::BITS == 64,
                i <= FREE_LIST_COUNT,
                lists@.len() == i,
                i < FREE_LIST_COUNT ==> size == pow2((i + 3) as nat),
                forall|j: int|
                    0 <= j < i ==> (#[trigger] lists@[j]).wf() && lists@[j].block_size() == pow2(
                        (j + 3) as nat,
                    ) && lists@[j].view_stack() == Seq::<u64>::empty(),
            decreases FREE_LIST_COUNT - i,
        {
            proof {
                vstd::arithmetic::power2::lemma2_to64();
                assert(usize::MAX == 0xffff_ffff_ffff_ffffu64);
                vstd::arithmetic::power2::lemma_pow2_pos((i + 3) as nat);
                vstd::arithmetic::power2::lemma_pow2_unfold((i + 4) as nat);
                if i + 3 > 3 {
                    vstd::arithmetic::power2::lemma_pow2_strictly_increases(3, (i + 3) as nat);
                }
                if i + 1 < FREE_LIST_COUNT {
                    vstd::arithmetic::power2::lemma_pow2_strictly_increases((i + 4) as nat, 64);
                }
            }
            assert(size >= 8);
            assert(size == pow2((i + 3) as nat));
            lists.push(FreeList::new(size));
            if i + 1 < FREE_LIST_COUNT {
                size = size * 2;
            }
            i = i + 1;
        }
        GlobalAllocator { lists }
    }
    /// Put `list` back at index `idx`, where it was taken from
    fn put_back(&mut self, idx: usize, list: FreeList)
        requires
            idx < FREE_LIST_COUNT,
            old(self).lists@.len() == FREE_LIST_COUNT - 1,
            list.wf(),
            list.block_size() == pow2((idx + 3) as nat),
        ensures
            final(self).lists@ == old(self).lists@.insert(idx as int, list),
    {
        self.lists.insert(idx, list);
    }

    /// Take a block for an allocation of `size` bytes aligned to `align` from
    /// the free list of its size class: the block freed last there, or
    /// `None` when that list is empty and has to be refilled first
    pub fn allocate(&mut self, size: usize, align: usize) -> (r: Option<u64>)
        requires
            old(self).wf(),
            size <= 0x8000_0000_0000_0000u64,
            align <= class_align(size_class(size as nat)),
        ensures
            final(self).wf(),
            old(self).free_blocks(class_of(size)).len() == 0 ==> r is None,
            old(self).free_blocks(class_of(size)).len() == 0 ==> final(self).free_blocks(class_of(size)) == old(self).free_blocks(class_of(size)),
            old(self).free_blocks(class_of(size)).len() > 0 ==> r == Some(old(self).free_blocks(class_of(size)).last()),
            old(self).free_blocks(class_of(size)).len() > 0 ==> final(self).free_blocks(class_of(size)) == old(self).free_blocks(class_of(size)).drop_last(),
            forall|j: int| 0 <= j < FREE_LIST_COUNT && j != class_of(size) ==> #[trigger] final(self).free_blocks(j) == old(self).free_blocks(j),
    {
        let idx = free_list_index(size, align);
        let ghost before = self.lists@;
        let mut list = self.lists.remove(idx);
        assert(list == before[idx as int]);
        let r = list.pop();
        self.put_back(idx, list);
        proof {
            before.remove_ensures(idx as int);
            before.remove(idx as int).insert_ensures(idx as int, list);
            assert forall|j: int| 0 <= j < FREE_LIST_COUNT && j != idx implies #[trigger] self.lists@[j]
                == before[j] by {
                if j < idx {
                } else {
                    assert(self.lists@[j] == before.remove(idx as int)[j - 1]);
                }
            }
        }
        r
    }

    /// Put the block at `addr`, allocated for `size` bytes aligned to
    /// `align`, back onto the free list of its size class
    pub fn deallocate(&mut self, addr: u64, size: usize, align: usize)
        requires
            old(self).wf(),
            size <= 0x8000_0000_0000_0000u64,
            align <= class_align(size_class(size as nat)),
        ensures
            final(self).wf(),
            final(self).free_blocks(class_of(size)) == old(self).free_blocks(class_of(size)).push(addr),
            forall|j: int| 0 <= j < FREE_LIST_COUNT && j != class_of(size) ==> #[trigger] final(self).free_blocks(j) == old(self).free_blocks(j),
    {
        let idx = free_list_index(size, align);
        let ghost before = self.lists@;
        let mut list = self.lists.remove(idx);
        assert(list == before[idx as int]);
        list.push(addr);
        self.put_back(idx, list);
        proof {
            before.remove_ensures(idx as int);
            before.remove(idx as int).insert_ensures(idx as int, list);
            assert forall|j: int| 0 <= j < FREE_LIST_COUNT && j != idx implies #[trigger] self.lists@[j]
                == before[j] by {
                if j < idx {
                } else {
                    assert(self.lists@[j] == before.remove(idx as int)[j - 1]);
                }
            }
        }
    }

    /// Refill the free list of the size class of `size`-byte allocations
    /// aligned to `align`, whose blocks fit in a page, with the blocks of the
    /// page at `page`, lowest first
    pub fn refill(&mut self, size: usize, align: usize, page: u64)
        requires
            old(self).wf(),
            size <= PAGE_SIZE,
            align <= class_align(size_class(size as nat)),
            page + PAGE_SIZE <= u64::MAX,
        ensures
            final(self).wf(),
            final(self).free_blocks(class_of(size)) == old(self).free_blocks(class_of(size)) + page_blocks(page, pow2(size_class(size as nat))),
            forall|j: int| 0 <= j < FREE_LIST_COUNT && j != class_of(size) ==> #[trigger] final(self).free_blocks(j) == old(self).free_blocks(j),
    {
        let idx = free_list_index(size, align);
        let ghost before = self.lists@;
        let mut list = self.lists.remove(idx);
        assert(list == before[idx as int]);
        proof {
            vstd::arithmetic::power2::lemma2_to64();
            if idx + 2 > 12 {
                vstd::arithmetic::power2::lemma_pow2_strictly_increases(12, (idx + 2) as nat);
            }
            assert(idx + 3 <= 12);
            if idx + 3 < 12 {
                vstd::arithmetic::power2::lemma_pow2_strictly_increases((idx + 3) as nat, 12);
            }
        }
        assert(list.block_size() <= PAGE_SIZE);
        list.allocate_page_for_blocks(page);
        self.put_back(idx, list);
        proof {
            before.remove_ensures(idx as int);
            before.remove(idx as int).insert_ensures(idx as int, list);
            assert forall|j: int| 0 <= j < FREE_LIST_COUNT && j != idx implies #[trigger] self.lists@[j]
                == before[j] by {
                if j < idx {
                } else {
                    assert(self.lists@[j] == before.remove(idx as int)[j - 1]);
                }
            }
        }
    }
}

/// The memory of the proximity domain `domain`: its affinities among
/// `affinities`, in their order
pub open spec fn domain_ranges(affinities: Seq<MemoryAffinity>, domain: u32) -> Seq<MemoryAffinity>
    decreases affinities.len(),
{
    if affinities.len() == 0 {
        Seq::empty()
    } else {
        let r = domain_ranges(affinities.drop_last(), domain);
        if affinities.last().domain == domain {
            r.push(affinities.last())
        } else {
            r
        }
    }
}

/// Whether the APIC `apic` has a domain and no lower APIC ID shares it
pub open spec fn first_of_domain(apic_to_domain: Map<u32, u32>, apic: u32) -> bool {
    &&& apic_to_domain.contains_key(apic)
    &&& forall|other: u32|
        other < apic && #[trigger] apic_to_domain.contains_key(other) ==> apic_to_domain[other]
            != apic_to_domain[apic]
}

/// The memory of the domain `domain` among `affinities`
fn collect_domain(affinities: &[MemoryAffinity], domain: u32) -> (r: Vec<MemoryAffinity>)
    ensures
        r@ == domain_ranges(affinities@, domain),
{
    let mut r: Vec<MemoryAffinity> = Vec::new();
    let mut i: usize = 0;
    while i < affinities.len()
        invariant
            i <= affinities@.len(),
            r@ == domain_ranges(affinities@.take(i as int), domain),
        decreases affinities@.len() - i,
    {
        proof {
            assert(affinities@.take(i + 1).drop_last() =~= affinities@.take(i as int));
        }
        if affinities[i].domain == domain {
            r.push(affinities[i]);
        }
        i = i + 1;
    }
    proof {
        assert(affinities@.take(affinities@.len() as int) =~= affinities@);
    }
    r
}

/// Whether `domain` is among `taken`
fn is_taken(taken: &Vec<u32>, domain: u32) -> (r: bool)
    ensures
        r == taken@.contains(domain),
{
    let mut i: usize = 0;
    while i < taken.len()
        invariant
            i <= taken@.len(),
            forall|k: int| 0 <= k < i ==> taken@[k] != domain,
        decreases taken@.len() - i,
    {
        if taken[i] == domain {
            return true;
        }
        i = i + 1;
    }
    false
}

/// The NUMA mappings of the allocator: for each APIC ID up to `max_apic_id`,
/// the memory of its proximity domain. APICs are taken by increasing ID, and
/// a domain's memory goes to the first APIC of the domain only: the others,
/// those without a domain and those of a domain without memory get none.
pub fn register_numa(
    apic_to_domain: &BTreeMap<u32, u32>,
    affinities: &[MemoryAffinity],
    max_apic_id: u32,
) -> (r: Vec<Option<Vec<MemoryAffinity>>>)
    requires
        max_apic_id != 0,
        max_apic_id < u32::MAX,
        forall|apic: u32| #[trigger] apic_to_domain@.contains_key(apic) ==> apic <= max_apic_id,
    ensures
        r@.len() == max_apic_id + 1,
        forall|apic: int|
            0 <= apic <= max_apic_id ==> (#[trigger] r@[apic] is Some <==> (first_of_domain(
                apic_to_domain@,
                apic as u32,
            ) && domain_ranges(affinities@, apic_to_domain@[apic as u32]).len() > 0)),
        forall|apic: int|
            0 <= apic <= max_apic_id && #[trigger] r@[apic] is Some ==> r@[apic]->Some_0@
                == domain_ranges(affinities@, apic_to_domain@[apic as u32]),
{
    broadcast use vstd::std_specs::btree::group_btree_axioms;

    let mut r: Vec<Option<Vec<MemoryAffinity>>> = Vec::new();
    // The domains of the APICs taken so far
    let mut taken: Vec<u32> = Vec::new();
    let mut apic: u32 = 0;
    while apic <= max_apic_id
        invariant
            max_apic_id < u32::MAX,
            apic <= max_apic_id + 1,
            r@.len() == apic,
            forall|d: u32|
                taken@.contains(d) <==> exists|o: u32|
                    o < apic && #[trigger] apic_to_domain@.contains_key(o) && apic_to_domain@[o]
                        == d,
            forall|a: int|
                0 <= a < apic ==> (#[trigger] r@[a] is Some <==> (first_of_domain(
                    apic_to_domain@,
                    a as u32,
                ) && domain_ranges(affinities@, apic_to_domain@[a as u32]).len() > 0)),
            forall|a: int|
                0 <= a < apic && #[trigger] r@[a] is Some ==> r@[a]->Some_0@ == domain_ranges(
                    affinities@,
                    apic_to_domain@[a as u32],
                ),
        decreases max_apic_id + 1 - apic,
    {
        let ghost before = r@;
        let ghost taken_before = taken@;
        let ghost has = apic_to_domain@.contains_key(apic);
        match apic_to_domain.get(&apic) {
            Some(d) => {
                let d = *d;
                assert(has && apic_to_domain@[apic] == d);
                if is_taken(&taken, d) {
                    proof {
                        let o = choose|o: u32|
                            o < apic && #[trigger] apic_to_domain@.contains_key(o)
                                && apic_to_domain@[o] == d;
                        assert(!first_of_domain(apic_to_domain@, apic));
                    }
                    r.push(None);
                } else {
                    taken.push(d);
                    let ranges = collect_domain(affinities, d);
                    proof {
                        assert forall|other: u32|
                            other < apic && #[trigger] apic_to_domain@.contains_key(
                                other,
                            ) implies apic_to_domain@[other] != apic_to_domain@[apic] by {
                            if apic_to_domain@[other] == d {
                                assert(taken_before.contains(d));
                            }
                        }
                        assert(first_of_domain(apic_to_domain@, apic));
                    }
                    if ranges.len() > 0 {
                        r.push(Some(ranges));
                    } else {
                        r.push(None);
                    }
                }
            },
            None => {
                assert(!has);
                r.push(None);
            },
        }
        proof {
            assert forall|x: u32| taken@.contains(x) implies exists|o: u32|
                o < apic + 1 && #[trigger] apic_to_domain@.contains_key(o) && apic_to_domain@[o]
                    == x by {
                if taken_before.contains(x) {
                    let o = choose|o: u32|
                        o < apic && #[trigger] apic_to_domain@.contains_key(o)
                            && apic_to_domain@[o] == x;
                    assert(o < apic + 1);
                } else {
                    assert(taken@ == taken_before.push(x));
                    assert(apic_to_domain@.contains_key(apic) && apic_to_domain@[apic] == x);
                }
            }
            assert forall|x: u32|
                (exists|o: u32|
                    o < apic + 1 && #[trigger] apic_to_domain@.contains_key(o)
                        && apic_to_domain@[o] == x) implies taken@.contains(x) by {
                let o = choose|o: u32|
                    o < apic + 1 && #[trigger] apic_to_domain@.contains_key(o)
                        && apic_to_domain@[o] == x;
                if o < apic {
                    assert(taken_before.contains(x));
                    let k = choose|k: int| 0 <= k < taken_before.len() && taken_before[k] == x;
                    assert(taken@[k] == x);
                } else {
                    assert(o == apic);
                    if taken_before.contains(x) {
                        let k = choose|k: int| 0 <= k < taken_before.len() && taken_before[k] == x;
                        assert(taken@[k] == x);
                    } else {
                        assert(taken@.last() == x);
                    }
                }
            }
            assert forall|a: int| 0 <= a < apic implies #[trigger] r@[a] == before[a] by {}
        }
        apic = apic + 1;
    }
    r
}

} // verus!
