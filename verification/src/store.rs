//! Content-addressed store: the single place persisted blocks live.
//!
//! A block is reachable only through its content address, and the address is
//! determined by the block's bytes alone: putting byte-identical blocks, at
//! any time, yields the same address. The store models the host's
//! block-storage capability as a deduplicated list of blocks whose position
//! serves as the address, which gives exactly the contract the core relies
//! on — same bytes, same address; distinct bytes, distinct addresses; blocks
//! are never deleted.

use vstd::prelude::*;

verus! {

/// A content address: identifies one block in the store.
#[derive(Clone, Copy, Debug, PartialEq, Eq, Structural)]
pub struct Address {
    pub index: usize,
}

impl View for Address {
    type V = int;

    open spec fn view(&self) -> int {
        self.index as int
    }
}

/// Whether the store contents hold no duplicate block — the invariant that
/// makes an address a function of the block's bytes.
pub open spec fn distinct_blocks(c: Seq<Seq<u8>>) -> bool {
    forall|i: int, j: int| 0 <= i < j < c.len() ==> c[i] != c[j]
}

/// The block a given address resolves to, or `None` for an address the store
/// does not hold.
pub open spec fn spec_lookup(c: Seq<Seq<u8>>, a: int) -> Option<Seq<u8>> {
    if 0 <= a < c.len() {
        Some(c[a])
    } else {
        None
    }
}

/// The address that putting `b` into contents `c` yields: the position of
/// the existing copy if one is present, else the position one past the end,
/// where the new block is appended.
pub open spec fn spec_addr_of(c: Seq<Seq<u8>>, b: Seq<u8>) -> int {
    if c.contains(b) {
        choose|i: int| 0 <= i < c.len() && c[i] == b
    } else {
        c.len() as int
    }
}

/// The contents after putting `b`: unchanged if an identical block is already
/// present, else extended by the new block.
pub open spec fn spec_put(c: Seq<Seq<u8>>, b: Seq<u8>) -> Seq<Seq<u8>> {
    if c.contains(b) {
        c
    } else {
        c.push(b)
    }
}

/// The store itself: an append-only, deduplicated list of blocks.
#[derive(Debug)]
pub struct Store {
    pub blocks: Vec<Vec<u8>>,
}

impl View for Store {
    type V = Seq<Seq<u8>>;

    open spec fn view(&self) -> Seq<Seq<u8>> {
        Seq::new(self.blocks@.len(), |i: int| self.blocks@[i]@)
    }
}

/// Byte-for-byte equality of two blocks.
fn bytes_eq(a: &Vec<u8>, b: &Vec<u8>) -> (r: bool)
    ensures
        r <==> a@ == b@,
{
    if a.len() != b.len() {
        return false;
    }
    let mut i: usize = 0;
    while i < a.len()
        invariant
            i <= a@.len(),
            a@.len() == b@.len(),
            forall|j: int| 0 <= j < i ==> a@[j] == b@[j],
        decreases a@.len() - i,
    {
        if a[i] != b[i] {
            return false;
        }
        i += 1;
    }
    proof {
        assert(a@ =~= b@);
    }
    true
}

/// A fresh copy of a block's bytes.
fn copy_bytes(v: &Vec<u8>) -> (r: Vec<u8>)
    ensures
        r@ == v@,
{
    let mut r: Vec<u8> = Vec::new();
    let mut i: usize = 0;
    while i < v.len()
        invariant
            i <= v@.len(),
            r@ == v@.take(i as int),
        decreases v@.len() - i,
    {
        r.push(v[i]);
        proof {
            assert(r@ =~= v@.take(i + 1));
        }
        i += 1;
    }
    proof {
        assert(r@ =~= v@);
    }
    r
}

impl Store {
    /// Every address is a function of the stored bytes alone.
    pub open spec fn wf(&self) -> bool {
        distinct_blocks(self@)
    }

    /// An empty store.
    pub fn new() -> (r: Store)
        ensures
            r@ == Seq::<Seq<u8>>::empty(),
            r.wf(),
    {
        let r = Store { blocks: Vec::new() };
        proof {
            assert(r@ =~= Seq::<Seq<u8>>::empty());
        }
        r
    }

    /// Fetch the block at an address; an address the store does not hold
    /// yields the explicit absent outcome, distinct from any failure.
    pub fn get(&self, a: &Address) -> (r: Option<Vec<u8>>)
        ensures
            match r {
                Some(v) => spec_lookup(self@, a@) == Some(v@),
                None => spec_lookup(self@, a@) is None,
            },
    {
        if a.index < self.blocks.len() {
            Some(copy_bytes(&self.blocks[a.index]))
        } else {
            None
        }
    }

    /// Store a block and return its content address. Byte-identical blocks
    /// always yield the same address, and no existing block is disturbed.
    pub fn put(&mut self, bytes: Vec<u8>) -> (a: Address)
        requires
            old(self).wf(),
        ensures
            final(self).wf(),
            final(self)@ == spec_put(old(self)@, bytes@),
            a@ == spec_addr_of(old(self)@, bytes@),
            spec_lookup(final(self)@, a@) == Some(bytes@),
    {
        let ghost c0 = self@;
        let n = self.blocks.len();
        let mut i: usize = 0;
        while i < n
            invariant
                self@ == c0,
                distinct_blocks(c0),
                n == self.blocks@.len(),
                i <= n,
                forall|j: int| 0 <= j < i ==> c0[j] != bytes@,
            decreases n - i,
        {
            if bytes_eq(&self.blocks[i], &bytes) {
                proof {
                    assert(c0[i as int] == bytes@);
                    assert(c0.contains(bytes@));
                    let k = choose|k: int| 0 <= k < c0.len() && c0[k] == bytes@;
                    assert(k == i as int);
                }
                return Address { index: i };
            }
            i += 1;
        }
        proof {
            assert(!c0.contains(bytes@));
        }
        self.blocks.push(bytes);
        proof {
            assert(self@ =~= c0.push(bytes@));
        }
        Address { index: n }
    }
}

} // verus!
