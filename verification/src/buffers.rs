//! Buffers that the transport fills while it reassembles fragmented messages.
//!
//! The transport asks for a buffer, writes a message into it through its address,
//! and names the buffer by that address when the message is complete or has failed.
//! The map owns each buffer from the request until it is freed.

use std::collections::HashMap;
use vstd::prelude::*;

verus! {

broadcast use vstd::std_specs::hash::group_hash_axioms;

/// The buffers that are handed out, by address.
pub struct AllocMap {
    buffers: HashMap<usize, Vec<u8>>,
}

impl View for AllocMap {
    type V = Map<usize, nat>;

    /// The size of each buffer that is handed out, by address.
    open spec fn view(&self) -> Map<usize, nat> {
        self.kept().map_values(|buf: Vec<u8>| buf@.len())
    }
}

impl AllocMap {
    /// The buffers that are handed out, by address, as they were when they were handed out.
    pub closed spec fn kept(self) -> Map<usize, Vec<u8>> {
        self.buffers@
    }

    /// The bytes of the buffer at `addr` as they were when it was handed out.
    pub open spec fn handed_out(self, addr: usize) -> Seq<u8> {
        self.kept()[addr]@
    }

    /// A map without buffers.
    pub fn new() -> (r: Self)
        ensures
            r.kept() == Map::<usize, Vec<u8>>::empty(),
            r@ == Map::<usize, nat>::empty(),
    {
        let r = AllocMap { buffers: HashMap::new() };
        assert(r@ =~= Map::<usize, nat>::empty());
        r
    }

    /// The number of buffers that are handed out.
    pub fn len(&self) -> (r: usize)
        ensures
            r == self@.dom().len(),
    {
        assert(self@.dom() =~= self.buffers@.dom());
        self.buffers.len()
    }
}

/// Calls `Vec::as_mut_ptr` and gives the address as a number. The buffer is left as
/// it is, and the pointer of a vector is never null. Which address it is, the standard
/// library does not say.
#[verifier::external_body]
fn buffer_address(buf: &mut Vec<u8>) -> (r: usize)
    ensures
        final(buf)@ == old(buf)@,
        r != 0,
{
    buf.as_mut_ptr() as usize
}

/// Hands out a new buffer of `max_size` zero bytes and gives its address, which is not
/// null. The buffers at other addresses stay as they are. That the address is none of
/// theirs rests on the allocator, and is not stated.
pub fn alloc_buf(map: &mut AllocMap, max_size: usize) -> (addr: usize)
    ensures
        addr != 0,
        final(map)@ == old(map)@.insert(addr, max_size as nat),
        final(map).kept().contains_key(addr),
        final(map).handed_out(addr) == Seq::new(max_size as nat, |i: int| 0u8),
        final(map).kept().remove(addr) == old(map).kept().remove(addr),
{
    let mut buf: Vec<u8> = vec![0u8; max_size];
    let addr: usize = buffer_address(&mut buf);
    map.buffers.insert(addr, buf);
    assert(map@ =~= old(map)@.insert(addr, max_size as nat));
    assert(map.handed_out(addr) =~= Seq::new(max_size as nat, |i: int| 0u8));
    addr
}

/// Frees the buffer at `addr`, and no other; an address at which no buffer is handed out
/// is ignored.
pub fn free_buf(map: &mut AllocMap, addr: usize)
    ensures
        final(map).kept() == old(map).kept().remove(addr),
        final(map)@ == old(map)@.remove(addr),
{
    map.buffers.remove(&addr);
    assert(map@ =~= old(map)@.remove(addr));
}

/// Freeing a buffer that was just handed out, at an address of its own, leaves every buffer
/// that was handed out before as it was.
pub proof fn law_free_undoes_alloc(before: AllocMap, handed: AllocMap, freed: AllocMap, addr: usize)
    requires
        !before.kept().contains_key(addr),
        handed.kept().remove(addr) == before.kept().remove(addr),
        freed.kept() == handed.kept().remove(addr),
    ensures
        freed.kept() == before.kept(),
        freed@ == before@,
{
    assert(before.kept().remove(addr) =~= before.kept());
}

/// Freeing an address at which no buffer is handed out changes nothing: it frees and
/// replaces no buffer.
pub proof fn law_unknown_free_is_ignored(before: AllocMap, freed: AllocMap, addr: usize)
    requires
        !before.kept().contains_key(addr),
        freed.kept() == before.kept().remove(addr),
    ensures
        freed.kept() == before.kept(),
        freed@ == before@,
{
    assert(before.kept().remove(addr) =~= before.kept());
}

/// Freeing an address twice frees it once, and no other buffer.
pub proof fn law_second_free_is_ignored(
    before: AllocMap,
    once: AllocMap,
    twice: AllocMap,
    addr: usize,
)
    requires
        once.kept() == before.kept().remove(addr),
        twice.kept() == once.kept().remove(addr),
    ensures
        twice.kept() == once.kept(),
        twice@ == once@,
        forall|other: usize|
            other != addr && #[trigger] before.kept().contains_key(other)
                ==> twice.kept().contains_key(other) && twice.kept()[other]
                == before.kept()[other],
{
    assert(twice.kept() =~= once.kept());
}

/// A buffer that is handed out at an address of its own is one more, and every buffer that
/// was handed out before has its size still.
pub proof fn law_alloc_adds_one(before: AllocMap, handed: AllocMap, addr: usize, max_size: nat)
    requires
        !before@.contains_key(addr),
        handed@ == before@.insert(addr, max_size),
    ensures
        handed@.dom().len() == before@.dom().len() + 1,
        handed@[addr] == max_size,
        forall|other: usize| #[trigger]
            before@.contains_key(other) ==> other != addr && handed@.contains_key(other)
                && handed@[other] == before@[other],
{
    assert(before@.dom() =~= before.buffers@.dom());
}

} // verus!
