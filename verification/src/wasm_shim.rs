//! What the physics engine's C code finds in place of a C library: where its messages go, how
//! its memory is laid out, and how it hashes.

use vstd::prelude::*;

verus! {

// ---------------------------------------------------------------------------------------
// The log

/// Where the engine's messages go: the address of a function, none at first.
pub struct ShimLog {
    sink: usize,
}

impl View for ShimLog {
    type V = Option<usize>;

    closed spec fn view(&self) -> Option<usize> {
        if self.sink == 0 {
            None
        } else {
            Some(self.sink)
        }
    }
}

impl ShimLog {
    pub fn new() -> (r: Self)
        ensures
            r@ is None,
    {
        ShimLog { sink: 0 }
    }

    /// The function that gets a message of the engine's. None before one was set, and none
    /// for a message that is not there.
    pub fn route(&self, has_message: bool) -> (r: Option<usize>)
        ensures
            r == (if has_message {
                self@
            } else {
                None
            }),
    {
        if self.sink == 0 || !has_message {
            None
        } else {
            Some(self.sink)
        }
    }
}

/// Sends the engine's messages to the function at this address from now on.
pub fn set_shim_log(log: &mut ShimLog, sink: usize)
    requires
        sink != 0,
    ensures
        final(log)@ == Some(sink),
{
    log.sink = sink;
}

// ---------------------------------------------------------------------------------------
// Memory

/// The size of what stands below each block: the base address and the total size.
pub const HEADER: u32 = 8;

/// How every allocation is aligned.
pub const BASE_ALIGN: u32 = 16;

/// The largest size an allocation can have.
pub const MAX_LAYOUT: u32 = 0x7fff_fff0;

/// A block of memory: what the allocator gave, and the address that is handed out.
#[derive(Debug, Clone, Copy, PartialEq, Eq, Structural)]
pub struct Block {
    pub base: u32,
    pub total: u32,
    pub user: u32,
}

/// The larger of two numbers.
pub open spec fn at_least(x: int, least: int) -> int {
    if x < least {
        least
    } else {
        x
    }
}

/// What is asked of the allocator for a block: room for it, for its header, and for moving it
/// up to where it is aligned.
pub open spec fn room_for(size: u32, align: u32) -> int {
    at_least(size as int, 1) + at_least(align as int, BASE_ALIGN as int) + HEADER
}

/// What is asked of the allocator for a block of this size and alignment.
pub fn alloc_size(size: u32, align: u32) -> (r: u32)
    requires
        room_for(size, align) <= MAX_LAYOUT,
    ensures
        r == room_for(size, align),
{
    let size: u32 = if size < 1 {
        1
    } else {
        size
    };
    let align: u32 = if align < BASE_ALIGN {
        BASE_ALIGN
    } else {
        align
    };
    size + align + HEADER
}

/// Places a block in what the allocator gave: at the first aligned address that leaves room
/// for the header.
pub fn place(base: u32, size: u32, align: u32) -> (r: Block)
    requires
        room_for(size, align) <= MAX_LAYOUT,
        base + room_for(size, align) <= u32::MAX,
    ensures
        r.base == base,
        r.total == room_for(size, align),
        r.user as int % at_least(align as int, BASE_ALIGN as int) == 0,
        base + HEADER <= r.user < base + HEADER + at_least(align as int, BASE_ALIGN as int),
{
    let total: u32 = alloc_size(size, align);
    let align: u32 = if align < BASE_ALIGN {
        BASE_ALIGN
    } else {
        align
    };
    let last: u32 = base + HEADER + (align - 1);
    let user: u32 = last - last % align;
    proof {
        let (l, a) = (last as int, align as int);
        assert((l - l % a) % a == 0) by (nonlinear_arith)
            requires
                0 < a,
                0 <= l,
        ;
        assert(0 <= l % a < a) by (nonlinear_arith)
            requires
                0 < a,
        ;
    }
    Block { base, total, user }
}

/// The header that is written below a block: what the allocator gave.
pub fn header_of(block: &Block) -> (r: (u32, u32))
    ensures
        r == (block.base, block.total),
{
    (block.base, block.total)
}

/// Where a block's header stands.
pub fn header_address(user: u32) -> (r: u32)
    requires
        user >= HEADER,
    ensures
        r == user - HEADER,
{
    user - HEADER
}

/// What goes back to the allocator when the block at an address is freed, given the header
/// that stands below it: the base address and the total size. Freeing nothing gives back
/// nothing.
pub fn free_layout(user: u32, header: (u32, u32)) -> (r: Option<(u32, u32)>)
    ensures
        r == freed(user, header),
{
    if user == 0 {
        None
    } else {
        Some(header)
    }
}

/// What goes back to the allocator when the block at an address is freed.
pub open spec fn freed(user: u32, header: (u32, u32)) -> Option<(u32, u32)> {
    if user == 0 {
        None
    } else {
        Some(header)
    }
}

/// A placed block is sound: it lies aligned and whole within what the allocator gave, with
/// its header below it and inside too.
pub proof fn blocks_fit(block: Block, base: u32, size: u32, align: u32)
    requires
        block.base == base,
        block.total == room_for(size, align),
        base + HEADER <= block.user < base + HEADER + at_least(align as int, BASE_ALIGN as int),
    ensures
        block.base <= block.user - HEADER,
        block.user + at_least(size as int, 1) <= block.base + block.total,
{
}

/// Freeing a block gives back exactly what was taken for it.
pub proof fn freeing_gives_back_what_was_taken(block: Block, base: u32, size: u32, align: u32)
    requires
        block.base == base,
        block.total == room_for(size, align),
        base + HEADER <= block.user,
    ensures
        freed(block.user, (block.base, block.total)) == Some((base, room_for(size, align) as u32)),
{
}

/// There is one place for a block: an aligned address in the range is the only one.
pub proof fn the_place_is_unique(base: int, align: int, a: int, b: int)
    requires
        0 < align,
        a % align == 0,
        b % align == 0,
        base <= a < base + align,
        base <= b < base + align,
    ensures
        a == b,
{
    let (p, q) = (a / align, b / align);
    assert(a == align * p) by (nonlinear_arith)
        requires
            a % align == 0,
            0 < align,
            p == a / align,
    ;
    assert(b == align * q) by (nonlinear_arith)
        requires
            b % align == 0,
            0 < align,
            q == b / align,
    ;
    assert(p == q) by (nonlinear_arith)
        requires
            a == align * p,
            b == align * q,
            -align < a - b < align,
            0 < align,
    ;
}

// ---------------------------------------------------------------------------------------
// The hash

/// One step of the hash.
pub open spec fn mix(hash: u32, word: u32) -> u32 {
    ((33 * hash + word) % 0x1_0000_0000) as u32
}

/// Four bytes as a number, the least significant first.
pub open spec fn word_at(data: Seq<u8>, i: int) -> u32 {
    (data[i] + 0x100 * data[i + 1] + 0x1_0000 * data[i + 2] + 0x100_0000 * data[i + 3]) as u32
}

/// The hash of bytes taken one at a time.
pub open spec fn hash_bytes(hash: u32, data: Seq<u8>) -> u32
    decreases data.len(),
{
    if data.len() == 0 {
        hash
    } else {
        hash_bytes(mix(hash, data[0] as u32), data.skip(1))
    }
}

/// The hash of data: eight bytes at a time as two words, then the rest one at a time.
pub open spec fn hash_of(hash: u32, data: Seq<u8>) -> u32
    decreases data.len(),
{
    if data.len() < 8 {
        hash_bytes(hash, data)
    } else {
        hash_of(mix(mix(hash, word_at(data, 0)), word_at(data, 4)), data.skip(8))
    }
}

fn mixed(hash: u32, word: u32) -> (r: u32)
    ensures
        r == mix(hash, word),
{
    proof {
        assert((hash << 5u32) == (32 * hash) % 0x1_0000_0000) by (bit_vector);
    }
    (hash << 5u32).wrapping_add(hash).wrapping_add(word)
}

fn word(data: &[u8], i: usize) -> (r: u32)
    requires
        i + 4 <= data@.len(),
    ensures
        r == word_at(data@, i as int),
{
    data[i] as u32 + 0x100 * data[i + 1] as u32 + 0x1_0000 * data[i + 2] as u32 + 0x100_0000
        * data[i + 3] as u32
}

/// Carries a hash on over data.
pub fn b3Hash(hash: u32, data: &[u8]) -> (r: u32)
    ensures
        r == hash_of(hash, data@),
{
    let mut result: u32 = hash;
    let mut i: usize = 0;
    assert(data@.skip(0) =~= data@);
    while data.len() - i >= 8
        invariant
            i <= data@.len(),
            hash_of(hash, data@) == hash_of(result, data@.skip(i as int)),
        decreases data@.len() - i,
    {
        proof {
            let rest = data@.skip(i as int);
            assert(word_at(rest, 0) == word_at(data@, i as int));
            assert(word_at(rest, 4) == word_at(data@, i + 4));
            assert(rest.skip(8) =~= data@.skip(i + 8));
        }
        result = mixed(result, word(data, i));
        result = mixed(result, word(data, i + 4));
        i = i + 8;
    }
    while i < data.len()
        invariant
            i <= data@.len(),
            hash_of(hash, data@) == hash_bytes(result, data@.skip(i as int)),
        decreases data@.len() - i,
    {
        assert(data@.skip(i as int).skip(1) =~= data@.skip(i + 1));
        result = mixed(result, data[i] as u32);
        i = i + 1;
    }
    result
}

/// A hash can be carried on: over whole eights of bytes first and the rest afterwards, it is
/// that of all of them at once.
pub proof fn hashes_carry_on(hash: u32, a: Seq<u8>, b: Seq<u8>)
    requires
        a.len() % 8 == 0,
    ensures
        hash_of(hash, a + b) == hash_of(hash_of(hash, a), b),
    decreases a.len(),
{
    if a.len() == 0 {
        assert(a + b =~= b);
        assert(hash_of(hash, a) == hash);
    } else {
        let all = a + b;
        assert(word_at(all, 0) == word_at(a, 0));
        assert(word_at(all, 4) == word_at(a, 4));
        assert(all.skip(8) =~= a.skip(8) + b);
        hashes_carry_on(mix(mix(hash, word_at(a, 0)), word_at(a, 4)), a.skip(8), b);
    }
}

/// Four bytes are read from the least significant on.
pub proof fn words_are_read_from_their_low_byte(data: Seq<u8>, i: int)
    ensures
        word_at(data, i) as int % 0x100 == data[i],
        (word_at(data, i) as int / 0x100) % 0x100 == data[i + 1],
        (word_at(data, i) as int / 0x1_0000) % 0x100 == data[i + 2],
        word_at(data, i) as int / 0x100_0000 == data[i + 3],
{
    let (a, b, c, d) = (
        data[i] as int,
        data[i + 1] as int,
        data[i + 2] as int,
        data[i + 3] as int,
    );
    let w = a + 0x100 * b + 0x1_0000 * c + 0x100_0000 * d;
    assert(word_at(data, i) == w);
    assert(w / 0x100 == b + 0x100 * c + 0x1_0000 * d);
    assert(w / 0x1_0000 == c + 0x100 * d);
}

/// Every piece of data counts, the later the less: what is carried so far counts 33 times as much as
/// what comes next. Fewer than eight bytes come one at a time, and eight come as two words.
pub proof fn hashes_take_in_what_comes(hash: u32, byte: u8, rest: Seq<u8>, eight: Seq<u8>)
    requires
        rest.len() < 7,
        eight.len() == 8,
    ensures
        hash_of(hash, seq![]) == hash,
        hash_of(hash, seq![byte] + rest) == hash_of(
            ((33 * hash + byte) % 0x1_0000_0000) as u32,
            rest,
        ),
        hash_of(hash, eight) == (33 * (33 * hash + word_at(eight, 0)) + word_at(eight, 4))
            % 0x1_0000_0000,
{
    let all = seq![byte] + rest;
    assert(all.skip(1) =~= rest);
    assert(eight.skip(8) =~= seq![]);
    let m = mix(hash, word_at(eight, 0)) as int;
    let n = 33 * hash + word_at(eight, 0);
    assert(m == n % 0x1_0000_0000);
    assert((33 * m + word_at(eight, 4)) % 0x1_0000_0000 == (33 * n + word_at(eight, 4))
        % 0x1_0000_0000);
    assert(hash_of(mix(mix(hash, word_at(eight, 0)), word_at(eight, 4)), seq![]) == mix(
        mix(hash, word_at(eight, 0)),
        word_at(eight, 4),
    ));
}

/// What is asked of the allocator leaves room for the block, of one byte at least, for its header
/// of eight, and for an alignment of sixteen at least.
pub proof fn there_is_room_for_a_block(size: u32, align: u32)
    ensures
        size >= 1 && align >= 16 ==> room_for(size, align) == size + align + 8,
        size == 0 && align >= 16 ==> room_for(size, align) == 1 + align + 8,
        size >= 1 && align < 16 ==> room_for(size, align) == size + 24,
        size == 0 && align < 16 ==> room_for(size, align) == 25,
{
}

} // verus!
