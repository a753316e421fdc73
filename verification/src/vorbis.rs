//! Which Ogg Vorbis streams are handed to the decoder.
//!
//! The decoder is trusted only with streams of a plain form: one logical
//! stream, page after page from the first byte to the last, whose
//! headers keep within what the decoder can count. The identification
//! header bounds the samples of a block, the comment header holds its
//! texts whole, and the setup header is read part by part, as the
//! decoder reads it, as far as its residues: its codebooks have
//! dimensions and codewords, its floors are of the kind 1 and read
//! heights that they can tell apart, and its residues have no eighth
//! stage. Everything here is a test on the bytes; nothing is decoded.

use vstd::prelude::*;

verus! {

/// The longest stream that is handed to the decoder, in bytes.
pub const MAX_STREAM_BYTES: u64 = 0x1000_0000;

/// The largest position in the sound that a page on which a packet ends
/// may claim. The decoder counts on from there in 64 bits, and takes
/// differences of positions as lengths in the machine's word; up to this
/// limit both stay within 32 bits.
pub const GRANULE_LIMIT: u64 = 0x7000_0000;

/// The pattern of bits with which a codebook of a setup header begins.
pub const CODEBOOK_SYNC: u32 = 0x564342;

/// The most entries that a codebook may have: the decoder sets a tree up
/// for all of them, however few bits the setup header takes to list them.
pub const MAX_ENTRIES: u32 = 0x1_0000;

/// The most values that the entries of a codebook with a table of values
/// may have together: the decoder sets the table up for all of them.
pub const MAX_VALUES: u64 = 0x10_0000;

/// The most runs of equal codeword lengths that an ordered codebook may
/// have: codewords are no longer than 32 bits.
pub const MAX_RUNS: u32 = 33;

/// Two to the power of a bit's place in its byte.
pub open spec fn place(shift: int) -> int {
    if shift == 0 {
        1
    } else if shift == 1 {
        2
    } else if shift == 2 {
        4
    } else if shift == 3 {
        8
    } else if shift == 4 {
        16
    } else if shift == 5 {
        32
    } else if shift == 6 {
        64
    } else {
        128
    }
}

/// Bit `k` of a packet: the bits of a byte count from its lowest.
pub open spec fn bit(packet: Seq<u8>, k: int) -> int {
    (packet[k / 8] as int / place(k % 8)) % 2
}

/// The number that the `n` bits from bit `pos` on spell, the lowest first.
pub open spec fn bits(packet: Seq<u8>, pos: int, n: int) -> int
    decreases n,
{
    if n <= 0 {
        0
    } else {
        bit(packet, pos) + 2 * bits(packet, pos + 1, n - 1)
    }
}

/// The number of bits that it takes to write `x`.
pub open spec fn ilog(x: int) -> int
    decreases x,
{
    if x <= 0 {
        0
    } else {
        1 + ilog(x / 2)
    }
}

/// Reads bit `k` of a packet.
fn read_bit(packet: &Vec<u8>, k: usize) -> (b: u32)
    requires
        k < 8 * packet@.len(),
    ensures
        b == bit(packet@, k as int),
        b <= 1,
{
    let byte = packet[k / 8];
    let shift = k % 8;
    let moved: u8 = if shift == 0 {
        byte
    } else if shift == 1 {
        byte / 2
    } else if shift == 2 {
        byte / 4
    } else if shift == 3 {
        byte / 8
    } else if shift == 4 {
        byte / 16
    } else if shift == 5 {
        byte / 32
    } else if shift == 6 {
        byte / 64
    } else {
        byte / 128
    };
    (moved % 2) as u32
}

/// Two to the power of `n`, for up to 24 bits.
pub open spec fn limit(n: int) -> int {
    if n <= 0 {
        0x1
    } else     if n <= 1 {
        0x2
    } else     if n <= 2 {
        0x4
    } else     if n <= 3 {
        0x8
    } else     if n <= 4 {
        0x10
    } else     if n <= 5 {
        0x20
    } else     if n <= 6 {
        0x40
    } else     if n <= 7 {
        0x80
    } else     if n <= 8 {
        0x100
    } else     if n <= 9 {
        0x200
    } else     if n <= 10 {
        0x400
    } else     if n <= 11 {
        0x800
    } else     if n <= 12 {
        0x1000
    } else     if n <= 13 {
        0x2000
    } else     if n <= 14 {
        0x4000
    } else     if n <= 15 {
        0x8000
    } else     if n <= 16 {
        0x10000
    } else     if n <= 17 {
        0x20000
    } else     if n <= 18 {
        0x40000
    } else     if n <= 19 {
        0x80000
    } else     if n <= 20 {
        0x100000
    } else     if n <= 21 {
        0x200000
    } else     if n <= 22 {
        0x400000
    } else     if n <= 23 {
        0x800000
    } else {
        0x100_0000
    }
}

/// The number spelt by `n` bits is below two to the `n`.
proof fn lemma_bits_bound(packet: Seq<u8>, pos: int, n: int)
    requires
        0 <= n <= 24,
    ensures
        0 <= bits(packet, pos, n) < limit(n),
    decreases n,
{
    if n > 0 {
        lemma_bits_bound(packet, pos + 1, n - 1);
        assert(limit(n) == 2 * limit(n - 1));
    }
}

/// Reads the number that the `n` bits from bit `pos` on spell.
fn read_bits(packet: &Vec<u8>, pos: usize, n: usize) -> (v: u32)
    requires
        n <= 24,
        pos + n <= 8 * packet@.len(),
        packet@.len() <= MAX_STREAM_BYTES,
    ensures
        v == bits(packet@, pos as int, n as int),
        v < limit(n as int),
{
    let mut v: u32 = 0;
    let mut i: usize = n;
    while i > 0
        invariant
            i <= n <= 24,
            pos + n <= 8 * packet@.len(),
            packet@.len() <= MAX_STREAM_BYTES,
            v == bits(packet@, pos + i, n - i),
            v < limit(n - i),
        decreases i,
    {
        i = i - 1;
        proof {
            lemma_bits_bound(packet@, pos + i, n - i);
            assert(limit(n - i) == 2 * limit(n - i - 1));
        }
        v = 2 * v + read_bit(packet, pos + i);
    }
    v
}

/// The number of bits that it takes to write `x`.
fn bit_length(x: u32) -> (w: usize)
    requires
        x < 0x100_0000,
    ensures
        w == ilog(x as int),
        w <= 24,
{
    let mut w: usize = 0;
    let mut rest: u32 = x;
    while rest > 0
        invariant
            ilog(x as int) == w + ilog(rest as int),
            w <= 24,
            rest < limit(24 - w),
        decreases rest,
    {
        proof {
            assert(w < 24);
            assert(limit(24 - w) == 2 * limit(23 - w));
        }
        rest = rest / 2;
        w = w + 1;
    }
    w
}

/// Whether a codebook begins at bit `k` of a setup header: its pattern
/// stands there, and the packet holds its dimensions, the number of its
/// entries and its flag of order.
pub open spec fn codebook_at(packet: Seq<u8>, k: int) -> bool {
    0 <= k && k + 65 <= 8 * packet.len() && bits(packet, k, 24) == CODEBOOK_SYNC
}

/// Whether an identification header can be handed to the decoder: it has
/// its thirty bytes, both block sizes are no more than two to the 13th,
/// and a block of every channel together has fewer than two to the 16th
/// samples, which is as far as the decoder counts them.
pub open spec fn ident_is_sound(packet: Seq<u8>) -> bool {
    &&& packet.len() >= 30
    &&& packet[28] % 16 <= 13
    &&& packet[28] / 16 <= 13
    &&& limit(packet[28] as int % 16) * packet[11] < 0x1_0000
    &&& limit(packet[28] as int / 16) * packet[11] < 0x1_0000
}

/// Tests whether an identification header can be handed to the decoder.
pub fn check_ident(packet: &Vec<u8>) -> (sound: bool)
    ensures
        sound == ident_is_sound(packet@),
{
    if packet.len() < 30 {
        return false;
    }
    let channels: u32 = packet[11] as u32;
    let small: u8 = packet[28] % 16;
    let large: u8 = packet[28] / 16;
    if small > 13 || large > 13 {
        return false;
    }
    let short = block_size(small);
    let long = block_size(large);
    assert(short * channels <= 0x2000 * 255 && long * channels <= 0x2000 * 255)
        by (nonlinear_arith)
        requires
            short <= 0x2000,
            long <= 0x2000,
            channels <= 255,
    ;
    short * channels < 0x1_0000 && long * channels < 0x1_0000
}

/// Two to the power of `exponent`: the samples of a block.
fn block_size(exponent: u8) -> (n: u32)
    requires
        exponent <= 13,
    ensures
        n == limit(exponent as int),
        n <= 0x2000,
{
    let mut n: u32 = 1;
    let mut i: u8 = 0;
    while i < exponent
        invariant
            i <= exponent <= 13,
            n == limit(i as int),
        decreases exponent - i,
    {
        assert(limit(i + 1) == 2 * limit(i as int));
        n = 2 * n;
        i = i + 1;
    }
    n
}

/// The bit after the sparse list of codeword lengths that begins at bit
/// `p` and has `left` entries to go, `used` telling whether an entry
/// before them has a codeword; nothing if the packet ends first, or if
/// no entry of the list has a codeword.
pub open spec fn sparse_end(packet: Seq<u8>, p: int, left: int, used: bool) -> Option<int>
    decreases left,
{
    if left <= 0 {
        if used {
            Some(p)
        } else {
            None
        }
    } else if p + 1 > 8 * packet.len() {
        None
    } else if bit(packet, p) == 1 {
        if p + 6 > 8 * packet.len() {
            None
        } else {
            sparse_end(packet, p + 6, left - 1, true)
        }
    } else {
        sparse_end(packet, p + 1, left - 1, used)
    }
}

/// The bit after the runs of an ordered list of codeword lengths that are
/// read from bit `p` on, with `done` of the `entries` given a length and
/// `left` runs allowed; nothing if the packet ends first, if the runs
/// give more lengths than there are entries, or if there are more runs.
pub open spec fn ordered_end(packet: Seq<u8>, p: int, entries: int, done: int, left: int) -> Option<
    int,
>
    decreases left,
{
    if done == entries {
        Some(p)
    } else if done > entries || left <= 0 {
        None
    } else if p + ilog(entries - done) > 8 * packet.len() {
        None
    } else {
        ordered_end(
            packet,
            p + ilog(entries - done),
            entries,
            done + bits(packet, p, ilog(entries - done)),
            left - 1,
        )
    }
}

/// The bit after the codeword lengths of the codebook that begins at bit
/// `pos`; nothing if the codebook has no entry with a codeword, or more
/// entries than `MAX_ENTRIES`.
pub open spec fn lengths_end(packet: Seq<u8>, pos: int) -> Option<int> {
    let entries = bits(packet, pos + 40, 24);
    if entries == 0 || entries > MAX_ENTRIES {
        None
    } else if bit(packet, pos + 64) == 1 {
        if pos + 70 > 8 * packet.len() {
            None
        } else {
            ordered_end(packet, pos + 70, entries, 0, MAX_RUNS as int)
        }
    } else if pos + 66 > 8 * packet.len() {
        None
    } else if bit(packet, pos + 65) == 1 {
        sparse_end(packet, pos + 66, entries, false)
    } else if pos + 66 + 5 * entries > 8 * packet.len() {
        None
    } else {
        Some(pos + 66 + 5 * entries)
    }
}

/// `base` to the power of `d`.
pub open spec fn power(base: int, d: int) -> int
    decreases d,
{
    if d <= 0 {
        1
    } else {
        base * power(base, d - 1)
    }
}

/// The largest number from `r` on whose power of `d` is no more than `e`,
/// given that the power of `r` is: counted up from `r`.
pub open spec fn root_up(r: int, d: int, e: int) -> int
    decreases e - r,
{
    if r < e && power(r + 1, d) <= e {
        root_up(r + 1, d, e)
    } else {
        r
    }
}

/// The bit after the table of values of a codebook of `entries` entries
/// of `dims` dimensions, which begins at bit `p` with its kind. A table
/// of the first kind has as many values as the root of the entries by
/// the dimensions, one of the second kind a value for every dimension of
/// every entry. Nothing if the packet ends first, if the kind is none
/// of these, or if the entries have more than `MAX_VALUES` values
/// together.
pub open spec fn lookup_end(packet: Seq<u8>, p: int, entries: int, dims: int) -> Option<int> {
    if p + 4 > 8 * packet.len() {
        None
    } else if bits(packet, p, 4) == 0 {
        Some(p + 4)
    } else if bits(packet, p, 4) > 2 || p + 73 > 8 * packet.len() || entries * dims > MAX_VALUES {
        None
    } else {
        let width = bits(packet, p + 68, 4) + 1;
        let count = if bits(packet, p, 4) == 1 {
            root_up(0, dims, entries)
        } else {
            entries * dims
        };
        if p + 73 + count * width > 8 * packet.len() {
            None
        } else {
            Some(p + 73 + count * width)
        }
    }
}

/// The bit after the codebook that begins at bit `pos`; nothing if no
/// sound codebook stands there whole.
pub open spec fn codebook_end(packet: Seq<u8>, pos: int) -> Option<int> {
    if !codebook_at(packet, pos) || bits(packet, pos + 24, 16) == 0 {
        None
    } else {
        match lengths_end(packet, pos) {
            Some(q) => lookup_end(
                packet,
                q,
                bits(packet, pos + 40, 24),
                bits(packet, pos + 24, 16),
            ),
            None => None,
        }
    }
}

/// The bit after `left` codebooks, one after the other from bit `pos` on.
pub open spec fn codebooks_end(packet: Seq<u8>, pos: int, left: int) -> Option<int>
    decreases left,
{
    if left <= 0 {
        Some(pos)
    } else {
        match codebook_end(packet, pos) {
            Some(q) => codebooks_end(packet, q, left - 1),
            None => None,
        }
    }
}

/// The number of entries of codebook `index` of a setup header, whose
/// codebooks begin after its first eight bytes.
pub open spec fn book_size(packet: Seq<u8>, index: int) -> int {
    match codebooks_end(packet, 64, index) {
        Some(s) => bits(packet, s + 40, 24),
        None => 0,
    }
}

/// The largest of the `n` classes of partitions that are listed from bit
/// `p` on, four bits each; -1 if there is none.
pub open spec fn class_max(packet: Seq<u8>, p: int, n: int) -> int
    decreases n,
{
    if n <= 0 {
        -1
    } else {
        let m = class_max(packet, p, n - 1);
        let c = bits(packet, p + 4 * (n - 1), 4);
        if c > m {
            c
        } else {
            m
        }
    }
}

/// The most entries that a codebook has among those that the `n` bytes
/// from bit `p` on name, in a setup header of `count` codebooks. A byte
/// names the codebook before its number, and 0 none. A name of no
/// codebook counts as more entries than a codebook can have.
pub open spec fn books_most(packet: Seq<u8>, p: int, n: int, count: int) -> int
    decreases n,
{
    if n <= 0 {
        0
    } else {
        let rest = books_most(packet, p, n - 1, count);
        let v = bits(packet, p + 8 * (n - 1), 8);
        let size = if v == 0 {
            0
        } else if v > count {
            0x100_0000
        } else {
            book_size(packet, v - 1)
        };
        if size > rest {
            size
        } else {
            rest
        }
    }
}

/// What the classes of a floor come to: the bit after them, the number
/// of points of each, and the most entries of a codebook that one of
/// them reads a height from.
pub struct Classes {
    pub end: int,
    pub sizes: Seq<int>,
    pub most: int,
}

/// What the descriptions of `left` classes from bit `p` on come to, after
/// those in `got`, in a setup header of `count` codebooks.
pub open spec fn classes_end(packet: Seq<u8>, p: int, left: int, count: int, got: Classes) -> Option<
    Classes,
>
    decreases left,
{
    if left <= 0 {
        Some(Classes { end: p, sizes: got.sizes, most: got.most })
    } else if p + 5 > 8 * packet.len() {
        None
    } else {
        let sub = bits(packet, p + 3, 2);
        let first = p + 5 + (if sub != 0 {
            8int
        } else {
            0int
        });
        let most = books_most(packet, first, limit(sub), count);
        if first + 8 * limit(sub) > 8 * packet.len() {
            None
        } else {
            classes_end(
                packet,
                first + 8 * limit(sub),
                left - 1,
                count,
                Classes {
                    end: p,
                    sizes: got.sizes.push(bits(packet, p, 3) + 1),
                    most: if most > got.most {
                        most
                    } else {
                        got.most
                    },
                },
            )
        }
    }
}

/// The number of points that the first `n` partitions listed from bit `p`
/// on have together: those of their classes.
pub open spec fn points(packet: Seq<u8>, p: int, n: int, sizes: Seq<int>) -> int
    decreases n,
{
    if n <= 0 {
        0
    } else {
        points(packet, p, n - 1, sizes) + sizes[bits(packet, p + 4 * (n - 1), 4)]
    }
}

/// The number of heights that a floor tells apart, by the two bits of
/// its multiplier.
pub open spec fn span(multiplier: int) -> int {
    if multiplier == 0 {
        256
    } else if multiplier == 1 {
        128
    } else if multiplier == 2 {
        86
    } else {
        64
    }
}

/// The bit after the floor that begins at bit `p`, in a setup header of
/// `count` codebooks; nothing if it does not stand there whole, if it is
/// not of the kind 1, or if it reads a height from a codebook with more
/// entries than it tells heights apart.
pub open spec fn floor_end(packet: Seq<u8>, p: int, count: int) -> Option<int> {
    if p + 21 > 8 * packet.len() || bits(packet, p, 16) != 1 {
        None
    } else {
        let parts = bits(packet, p + 16, 5);
        let list = p + 21;
        if list + 4 * parts > 8 * packet.len() {
            None
        } else {
            match classes_end(
                packet,
                list + 4 * parts,
                class_max(packet, list, parts) + 1,
                count,
                Classes { end: 0, sizes: Seq::empty(), most: 0 },
            ) {
                Some(c) => {
                    if c.end + 6 > 8 * packet.len() {
                        None
                    } else if c.most > span(bits(packet, c.end, 2)) {
                        None
                    } else if c.end + 6 + bits(packet, c.end + 2, 4) * points(
                        packet,
                        list,
                        parts,
                        c.sizes,
                    ) > 8 * packet.len() {
                        None
                    } else {
                        Some(
                            c.end + 6 + bits(packet, c.end + 2, 4) * points(
                                packet,
                                list,
                                parts,
                                c.sizes,
                            ),
                        )
                    }
                },
                None => None,
            }
        }
    }
}

/// The bit after `left` floors, one after the other from bit `p` on.
pub open spec fn floors_end(packet: Seq<u8>, p: int, left: int, count: int) -> Option<int>
    decreases left,
{
    if left <= 0 {
        Some(p)
    } else {
        match floor_end(packet, p, count) {
            Some(q) => floors_end(packet, q, left - 1, count),
            None => None,
        }
    }
}

/// What the stages of the classes of a residue come to: the bit after
/// them, and the number of codebooks that they name.
pub struct Stages {
    pub end: int,
    pub books: int,
}

/// The number of codebooks that the class at bit `p` names: one for each
/// of its first three stages that is set, and with `wide`, where the
/// class has eight stages, one for each of the four that follow.
#[verifier::opaque]
pub open spec fn stage_books(packet: Seq<u8>, p: int, wide: bool) -> int {
    bit(packet, p) + bit(packet, p + 1) + bit(packet, p + 2) + if wide {
        bit(packet, p + 4) + bit(packet, p + 5) + bit(packet, p + 6) + bit(packet, p + 7)
    } else {
        0
    }
}

/// What the stages of `left` classes from bit `p` on come to, after
/// `books` codebooks were named. A class has three stages, or eight
/// where the bit after the three is set; nothing if the packet ends
/// first or a class has its last, the eighth, stage.
pub open spec fn stages_end(packet: Seq<u8>, p: int, left: int, books: int) -> Option<Stages>
    decreases left,
{
    if left <= 0 {
        Some(Stages { end: p, books: books })
    } else if p + 4 > 8 * packet.len() {
        None
    } else if bit(packet, p + 3) == 0 {
        stages_end(packet, p + 4, left - 1, books + stage_books(packet, p, false))
    } else if p + 9 > 8 * packet.len() || bit(packet, p + 8) == 1 {
        None
    } else {
        stages_end(packet, p + 9, left - 1, books + stage_books(packet, p, true))
    }
}

/// The bit after the residue that begins at bit `p`: after its kind, its
/// range, the size of its partitions, the number of its classes and its
/// codebook of classes come the stages of the classes and a byte for
/// every codebook that they name.
pub open spec fn residue_end(packet: Seq<u8>, p: int) -> Option<int> {
    if p + 102 > 8 * packet.len() {
        None
    } else {
        match stages_end(packet, p + 102, bits(packet, p + 88, 6) + 1, 0) {
            Some(s) => if s.end + 8 * s.books > 8 * packet.len() {
                None
            } else {
                Some(s.end + 8 * s.books)
            },
            None => None,
        }
    }
}

/// The bit after `left` residues, one after the other from bit `p` on.
pub open spec fn residues_end(packet: Seq<u8>, p: int, left: int) -> Option<int>
    decreases left,
{
    if left <= 0 {
        Some(p)
    } else {
        match residue_end(packet, p) {
            Some(q) => residues_end(packet, q, left - 1),
            None => None,
        }
    }
}

/// The bit after the floors of a setup header whose codebooks end at bit
/// `p`: after the codebooks come the placeholders, sixteen bits each, and
/// the floors.
pub open spec fn floors_after(packet: Seq<u8>, p: int) -> Option<int> {
    if p + 6 > 8 * packet.len() {
        None
    } else if p + 6 + 16 * (bits(packet, p, 6) + 1) + 6 > 8 * packet.len() {
        None
    } else {
        floors_end(
            packet,
            p + 6 + 16 * (bits(packet, p, 6) + 1) + 6,
            bits(packet, p + 6 + 16 * (bits(packet, p, 6) + 1), 6) + 1,
            bits(packet, 56, 8) + 1,
        )
    }
}

/// Whether a setup header can be handed to the decoder: its parts can be
/// read one after the other, as the decoder reads them, as far as its
/// residues, and each of them is sound. After the seven bytes of its
/// name and the number of its codebooks come the codebooks, the
/// placeholders, the floors and the residues.
pub open spec fn setup_is_sound(packet: Seq<u8>) -> bool {
    &&& 64 <= 8 * packet.len()
    &&& match codebooks_end(packet, 64, bits(packet, 56, 8) + 1) {
        Some(p) => match floors_after(packet, p) {
            Some(r) => r + 6 <= 8 * packet.len() && residues_end(
                packet,
                r + 6,
                bits(packet, r, 6) + 1,
            ) is Some,
            None => false,
        },
        None => false,
    }
}

/// The number that the four bytes from byte `at` on spell, the lowest first.
pub open spec fn number_at(packet: Seq<u8>, at: int) -> int {
    packet[at] + 0x100 * packet[at + 1] + 0x1_0000 * packet[at + 2] + 0x100_0000 * packet[at + 3]
}

/// Whether `left` comments, each after its length, stand whole in the
/// packet from byte `at` on.
pub open spec fn comments_fit(packet: Seq<u8>, at: int, left: int) -> bool
    decreases left,
{
    if left <= 0 {
        true
    } else {
        &&& at + 4 <= packet.len()
        &&& at + 4 + number_at(packet, at) <= packet.len()
        &&& comments_fit(packet, at + 4 + number_at(packet, at), left - 1)
    }
}

/// Whether a comment header can be handed to the decoder: after the seven
/// bytes of its name, the vendor's text and every comment that it counts
/// stand whole in it, each after its length.
pub open spec fn comment_is_sound(packet: Seq<u8>) -> bool {
    &&& 11 <= packet.len()
    &&& 15 + number_at(packet, 7) <= packet.len()
    &&& comments_fit(
        packet,
        15 + number_at(packet, 7),
        number_at(packet, 11 + number_at(packet, 7)),
    )
}

/// Whether a place that was computed is the place that was specified.
pub open spec fn agrees(found: Option<usize>, end: Option<int>) -> bool {
    match (found, end) {
        (Some(a), Some(b)) => a == b,
        (None, None) => true,
        _ => false,
    }
}

/// Finds the bit after a sparse list of codeword lengths.
fn skip_sparse(packet: &Vec<u8>, pos: usize, entries: u32) -> (found: Option<usize>)
    requires
        packet@.len() <= MAX_STREAM_BYTES,
        pos <= 8 * packet@.len(),
    ensures
        agrees(found, sparse_end(packet@, pos as int, entries as int, false)),
        found is Some ==> pos <= found->Some_0 <= 8 * packet@.len(),
{
    let total: usize = 8 * packet.len();
    let mut at: usize = pos;
    let mut left: u32 = entries;
    let mut used = false;
    while left > 0
        invariant
            packet@.len() <= MAX_STREAM_BYTES,
            total == 8 * packet@.len(),
            pos <= at <= total,
            sparse_end(packet@, pos as int, entries as int, false) == sparse_end(
                packet@,
                at as int,
                left as int,
                used,
            ),
        decreases left,
    {
        if at >= total {
            return None;
        }
        if read_bit(packet, at) == 1 {
            if total - at < 6 {
                return None;
            }
            at = at + 6;
            used = true;
        } else {
            at = at + 1;
        }
        left = left - 1;
    }
    if used {
        Some(at)
    } else {
        None
    }
}

/// Finds the bit after the runs of an ordered list of codeword lengths.
fn skip_ordered(packet: &Vec<u8>, pos: usize, entries: u32) -> (found: Option<usize>)
    requires
        packet@.len() <= MAX_STREAM_BYTES,
        pos <= 8 * packet@.len(),
        entries < 0x100_0000,
    ensures
        agrees(found, ordered_end(packet@, pos as int, entries as int, 0, MAX_RUNS as int)),
        found is Some ==> pos <= found->Some_0 <= 8 * packet@.len(),
{
    let total: usize = 8 * packet.len();
    let mut at: usize = pos;
    let mut done: u32 = 0;
    let mut left: u32 = MAX_RUNS;
    while done != entries
        invariant
            packet@.len() <= MAX_STREAM_BYTES,
            total == 8 * packet@.len(),
            pos <= at <= total,
            entries < 0x100_0000,
            done < 0x200_0000,
            left <= MAX_RUNS,
            ordered_end(packet@, pos as int, entries as int, 0, MAX_RUNS as int) == ordered_end(
                packet@,
                at as int,
                entries as int,
                done as int,
                left as int,
            ),
        decreases left,
    {
        if done > entries || left == 0 {
            return None;
        }
        let width = bit_length(entries - done);
        if width > total - at {
            return None;
        }
        let number = read_bits(packet, at, width);
        at = at + width;
        done = done + number;
        left = left - 1;
    }
    Some(at)
}

/// A power of a number from 1 on is 1 or more, and grows with the exponent.
proof fn lemma_power_grows(base: int, i: int, d: int)
    requires
        1 <= base,
        0 <= i <= d,
    ensures
        1 <= power(base, i) <= power(base, d),
    decreases d,
{
    if i < d {
        lemma_power_grows(base, i, d - 1);
        assert(power(base, d - 1) <= base * power(base, d - 1)) by (nonlinear_arith)
            requires
                1 <= base,
                1 <= power(base, d - 1),
        ;
    } else if d > 0 {
        lemma_power_grows(base, i - 1, d - 1);
        assert(1 <= base * power(base, d - 1)) by (nonlinear_arith)
            requires
                1 <= base,
                1 <= power(base, d - 1),
        ;
    }
}

/// Tests whether `base` to the power of `dims` is no more than `entries`.
fn fits(base: u32, dims: u32, entries: u32) -> (f: bool)
    requires
        1 <= base <= 0x100_0000,
        1 <= entries < 0x100_0000,
    ensures
        f == (power(base as int, dims as int) <= entries),
{
    let mut acc: u64 = 1;
    let mut i: u32 = 0;
    while i < dims
        invariant
            i <= dims,
            1 <= base <= 0x100_0000,
            1 <= entries < 0x100_0000,
            acc == power(base as int, i as int),
            acc <= entries,
        decreases dims - i,
    {
        assert(acc * base <= 0x100_0000 * 0x100_0000) by (nonlinear_arith)
            requires
                acc <= 0x100_0000,
                base <= 0x100_0000,
        ;
        let next: u64 = acc * (base as u64);
        assert(next == power(base as int, i + 1)) by (nonlinear_arith)
            requires
                next == acc * base,
                acc == power(base as int, i as int),
                power(base as int, i + 1) == base * power(base as int, i as int),
        ;
        if next > entries as u64 {
            proof {
                lemma_power_grows(base as int, i + 1, dims as int);
            }
            return false;
        }
        acc = next;
        i = i + 1;
    }
    true
}

/// The largest number whose power of `dims` is no more than `entries`.
fn root(entries: u32, dims: u32) -> (r: u32)
    requires
        entries < 0x100_0000,
    ensures
        r == root_up(0, dims as int, entries as int),
        r <= entries,
{
    let mut r: u32 = 0;
    while r < entries
        invariant
            r <= entries < 0x100_0000,
            root_up(0, dims as int, entries as int) == root_up(
                r as int,
                dims as int,
                entries as int,
            ),
        decreases entries - r,
    {
        if !fits(r + 1, dims, entries) {
            return r;
        }
        r = r + 1;
    }
    r
}

/// Finds the bit after the table of values of a codebook.
fn skip_lookup(packet: &Vec<u8>, pos: usize, entries: u32, dims: u32) -> (found: Option<usize>)
    requires
        packet@.len() <= MAX_STREAM_BYTES,
        pos <= 8 * packet@.len(),
        entries < 0x100_0000,
        dims < 0x1_0000,
    ensures
        agrees(found, lookup_end(packet@, pos as int, entries as int, dims as int)),
        found is Some ==> pos < found->Some_0 <= 8 * packet@.len(),
{
    let total: usize = 8 * packet.len();
    if total - pos < 4 {
        return None;
    }
    let kind = read_bits(packet, pos, 4);
    if kind == 0 {
        return Some(pos + 4);
    }
    assert(entries * dims <= 0x100_0000 * 0x1_0000) by (nonlinear_arith)
        requires
            entries <= 0x100_0000,
            dims <= 0x1_0000,
    ;
    if kind > 2 || total - pos < 73 || entries as u64 * dims as u64 > MAX_VALUES {
        return None;
    }
    let width: u64 = read_bits(packet, pos + 68, 4) as u64 + 1;
    let count: u64 = if kind == 1 {
        root(entries, dims) as u64
    } else {
        entries as u64 * dims as u64
    };
    assert(count * width <= 0x100_0000 * 0x1_0000 * 16) by (nonlinear_arith)
        requires
            count <= 0x100_0000 * 0x1_0000,
            width <= 16,
    ;
    let need: u64 = count * width;
    if need > (total - pos - 73) as u64 {
        return None;
    }
    Some(pos + 73 + need as usize)
}

/// Finds the bit after the codebook that begins at bit `pos`.
fn skip_codebook(packet: &Vec<u8>, pos: usize) -> (found: Option<usize>)
    requires
        packet@.len() <= MAX_STREAM_BYTES,
        pos <= 8 * packet@.len(),
    ensures
        agrees(found, codebook_end(packet@, pos as int)),
        found is Some ==> pos + 65 < found->Some_0 <= 8 * packet@.len(),
{
    let total: usize = 8 * packet.len();
    if total - pos < 65 || read_bits(packet, pos, 24) != CODEBOOK_SYNC {
        return None;
    }
    let dims = read_bits(packet, pos + 24, 16);
    let entries = read_bits(packet, pos + 40, 24);
    if dims == 0 || entries == 0 || entries > MAX_ENTRIES {
        return None;
    }
    let lengths = if read_bit(packet, pos + 64) == 1 {
        if total - pos < 70 {
            None
        } else {
            skip_ordered(packet, pos + 70, entries)
        }
    } else if total - pos < 66 {
        None
    } else if read_bit(packet, pos + 65) == 1 {
        skip_sparse(packet, pos + 66, entries)
    } else if 5 * (entries as u64) > (total - pos - 66) as u64 {
        None
    } else {
        Some(pos + 66 + 5 * (entries as usize))
    };
    match lengths {
        Some(q) => skip_lookup(packet, q, entries, dims),
        None => None,
    }
}

/// The place after one codebook more is the place after that codebook.
proof fn lemma_codebooks_step(packet: Seq<u8>, pos: int, k: int)
    requires
        0 <= k,
    ensures
        codebooks_end(packet, pos, k + 1) == match codebooks_end(packet, pos, k) {
            Some(s) => codebook_end(packet, s),
            None => None,
        },
    decreases k,
{
    match codebook_end(packet, pos) {
        Some(q) => {
            if k > 0 {
                lemma_codebooks_step(packet, q, k - 1);
                assert(codebooks_end(packet, pos, k) == codebooks_end(packet, q, k - 1));
            } else {
                assert(codebooks_end(packet, q, 0) == Some(q));
                assert(codebooks_end(packet, pos, 0) == Some(pos));
            }
            assert(codebooks_end(packet, pos, k + 1) == codebooks_end(packet, q, k));
        },
        None => {
            if k > 0 {
                assert(codebooks_end(packet, pos, k) is None);
            } else {
                assert(codebooks_end(packet, pos, 0) == Some(pos));
            }
            assert(codebooks_end(packet, pos, k + 1) is None);
        },
    }
}

/// Finds the bit after the `count` codebooks of a setup header, and
/// gathers the number of entries of each.
fn skip_codebooks(packet: &Vec<u8>, count: u32, sizes: &mut Vec<u32>) -> (found: Option<usize>)
    requires
        packet@.len() <= MAX_STREAM_BYTES,
        64 <= 8 * packet@.len(),
        old(sizes)@.len() == 0,
        count <= 256,
    ensures
        agrees(found, codebooks_end(packet@, 64, count as int)),
        found is Some ==> 64 <= found->Some_0 <= 8 * packet@.len(),
        found is Some ==> final(sizes)@.len() == count,
        forall|i: int|
            0 <= i < final(sizes)@.len() ==> #[trigger] final(sizes)@[i] == book_size(packet@, i)
                && final(sizes)@[i] < 0x100_0000,
{
    let mut at: usize = 64;
    while sizes.len() < count as usize
        invariant
            packet@.len() <= MAX_STREAM_BYTES,
            count <= 256,
            sizes@.len() <= count,
            64 <= at <= 8 * packet@.len(),
            codebooks_end(packet@, 64, sizes@.len() as int) == Some(at as int),
            codebooks_end(packet@, 64, count as int) == codebooks_end(
                packet@,
                at as int,
                count - sizes@.len(),
            ),
            forall|i: int|
                0 <= i < sizes@.len() ==> #[trigger] sizes@[i] == book_size(packet@, i) && sizes@[i]
                    < 0x100_0000,
        decreases count - sizes@.len(),
    {
        match skip_codebook(packet, at) {
            Some(q) => {
                let entries = read_bits(packet, at + 40, 24);
                proof {
                    lemma_codebooks_step(packet@, 64, sizes@.len() as int);
                }
                sizes.push(entries);
                at = q;
            },
            None => {
                return None;
            },
        }
    }
    Some(at)
}

/// No class among the first `n` is larger than the largest.
proof fn lemma_class_max(packet: Seq<u8>, p: int, n: int, i: int)
    requires
        0 <= i < n,
    ensures
        bits(packet, p + 4 * i, 4) <= class_max(packet, p, n),
    decreases n,
{
    if i < n - 1 {
        lemma_class_max(packet, p, n - 1, i);
    }
}

/// Finds the most entries of a codebook among those that the `names`
/// bytes from bit `first` on name.
fn most_entries(packet: &Vec<u8>, first: usize, names: usize, sizes: &Vec<u32>) -> (top: u32)
    requires
        packet@.len() <= MAX_STREAM_BYTES,
        names <= 8,
        first + 8 * names <= 8 * packet@.len(),
        forall|i: int|
            0 <= i < sizes@.len() ==> #[trigger] sizes@[i] == book_size(packet@, i) && sizes@[i] < 0x100_0000,
    ensures
        top == books_most(packet@, first as int, names as int, sizes@.len() as int),
        top <= 0x100_0000,
{
    let mut top: u32 = 0;
    let mut j: usize = 0;
    while j < names
        invariant
            packet@.len() <= MAX_STREAM_BYTES,
            j <= names <= 8,
            first + 8 * names <= 8 * packet@.len(),
            forall|i: int|
                0 <= i < sizes@.len() ==> #[trigger] sizes@[i] == book_size(packet@, i) && sizes@[i]
                    < 0x100_0000,
            top == books_most(packet@, first as int, j as int, sizes@.len() as int),
            top <= 0x100_0000,
        decreases names - j,
    {
        let v: usize = read_bits(packet, first + 8 * j, 8) as usize;
        let size: u32 = if v == 0 {
            0
        } else if v > sizes.len() {
            0x100_0000
        } else {
            sizes[v - 1]
        };
        if size > top {
            top = size;
        }
        j = j + 1;
    }
    top
}

/// Finds the bit after the floor that begins at bit `pos`, if it is one
/// that can be handed to the decoder.
fn skip_floor(packet: &Vec<u8>, pos: usize, sizes: &Vec<u32>) -> (found: Option<usize>)
    requires
        packet@.len() <= MAX_STREAM_BYTES,
        pos <= 8 * packet@.len(),
        forall|i: int|
            0 <= i < sizes@.len() ==> #[trigger] sizes@[i] == book_size(packet@, i) && sizes@[i] < 0x100_0000,
    ensures
        agrees(found, floor_end(packet@, pos as int, sizes@.len() as int)),
        found is Some ==> pos < found->Some_0 <= 8 * packet@.len(),
{
    let total: usize = 8 * packet.len();
    if total - pos < 21 || read_bits(packet, pos, 16) != 1 {
        return None;
    }
    let parts: usize = read_bits(packet, pos + 16, 5) as usize;
    let list: usize = pos + 21;
    if 4 * parts > total - list {
        return None;
    }
    let mut count: u32 = 0;
    let mut i: usize = 0;
    while i < parts
        invariant
            packet@.len() <= MAX_STREAM_BYTES,
            total == 8 * packet@.len(),
            i <= parts < 32,
            list + 4 * parts <= total,
            count == class_max(packet@, list as int, i as int) + 1,
            count <= 16,
        decreases parts - i,
    {
        let class = read_bits(packet, list + 4 * i, 4);
        if class + 1 > count {
            count = class + 1;
        }
        i = i + 1;
    }
    let start: usize = list + 4 * parts;
    let mut dims: Vec<u8> = Vec::new();
    let mut most: u32 = 0;
    let ghost none = Classes { end: 0, sizes: Seq::empty(), most: 0 };
    let ghost mut got: Classes = none;
    let mut at: usize = start;
    while dims.len() < count as usize
        invariant
            packet@.len() <= MAX_STREAM_BYTES,
            total == 8 * packet@.len(),
            start <= at <= total,
            total - pos >= 21,
            bits(packet@, pos as int, 16) == 1,
            parts == bits(packet@, pos + 16, 5),
            list == pos + 21,
            start == list + 4 * parts,
            count == class_max(packet@, list as int, parts as int) + 1,
            count <= 16,
            dims@.len() <= count,
            none == (Classes { end: 0, sizes: Seq::empty(), most: 0 }),
            got.sizes.len() == dims@.len(),
            got.most == most,
            most <= 0x100_0000,
            forall|i: int|
                0 <= i < sizes@.len() ==> #[trigger] sizes@[i] == book_size(packet@, i) && sizes@[i]
                    < 0x100_0000,
            forall|j: int| 0 <= j < got.sizes.len() ==> got.sizes[j] == dims@[j] && dims@[j] <= 8,
            classes_end(packet@, start as int, count as int, sizes@.len() as int, none)
                == classes_end(
                packet@,
                at as int,
                count - dims@.len(),
                sizes@.len() as int,
                got,
            ),
        decreases count - dims@.len(),
    {
        if total - at < 5 {
            return None;
        }
        let size = read_bits(packet, at, 3) + 1;
        let sub = read_bits(packet, at + 3, 2);
        let names: usize = if sub == 0 {
            1
        } else if sub == 1 {
            2
        } else if sub == 2 {
            4
        } else {
            8
        };
        let lead: usize = if sub == 0 {
            5
        } else {
            13
        };
        if lead + 8 * names > total - at {
            return None;
        }
        let top = most_entries(packet, at + lead, names, sizes);
        if top > most {
            most = top;
        }
        proof {
            got = Classes { end: at as int, sizes: got.sizes.push(size as int), most: most as int };
        }
        at = at + lead + 8 * names;
        dims.push(size as u8);
    }
    if total - at < 6 {
        return None;
    }
    let multiplier = read_bits(packet, at, 2);
    let heights: u32 = if multiplier == 0 {
        256
    } else if multiplier == 1 {
        128
    } else if multiplier == 2 {
        86
    } else {
        64
    };
    if most > heights {
        return None;
    }
    let range: usize = read_bits(packet, at + 2, 4) as usize;
    let mut sum: usize = 0;
    let mut i: usize = 0;
    while i < parts
        invariant
            packet@.len() <= MAX_STREAM_BYTES,
            total == 8 * packet@.len(),
            i <= parts < 32,
            list + 4 * parts <= total,
            dims@.len() == class_max(packet@, list as int, parts as int) + 1,
            got.sizes.len() == dims@.len(),
            forall|j: int| 0 <= j < got.sizes.len() ==> got.sizes[j] == dims@[j] && dims@[j] <= 8,
            sum == points(packet@, list as int, i as int, got.sizes),
            sum <= 8 * i,
        decreases parts - i,
    {
        let class = read_bits(packet, list + 4 * i, 4) as usize;
        proof {
            lemma_class_max(packet@, list as int, parts as int, i as int);
            assert(got.sizes[class as int] == dims@[class as int] && dims@[class as int] <= 8);
        }
        sum = sum + dims[class] as usize;
        i = i + 1;
    }
    assert(range * sum <= 16 * 256) by (nonlinear_arith)
        requires
            range <= 16,
            sum <= 256,
    ;
    let need: usize = range * sum;
    if need > total - at - 6 {
        return None;
    }
    Some(at + 6 + need)
}

/// Finds the bit after `count` floors that follow each other from bit
/// `pos` on, if all can be handed to the decoder.
fn skip_floors(packet: &Vec<u8>, pos: usize, count: u32, sizes: &Vec<u32>) -> (found: Option<
    usize,
>)
    requires
        packet@.len() <= MAX_STREAM_BYTES,
        pos <= 8 * packet@.len(),
        forall|i: int|
            0 <= i < sizes@.len() ==> #[trigger] sizes@[i] == book_size(packet@, i) && sizes@[i] < 0x100_0000,
    ensures
        agrees(found, floors_end(packet@, pos as int, count as int, sizes@.len() as int)),
        found is Some ==> pos <= found->Some_0 <= 8 * packet@.len(),
{
    let mut at: usize = pos;
    let mut left: u32 = count;
    while left > 0
        invariant
            packet@.len() <= MAX_STREAM_BYTES,
            pos <= at <= 8 * packet@.len(),
            forall|i: int|
                0 <= i < sizes@.len() ==> #[trigger] sizes@[i] == book_size(packet@, i) && sizes@[i]
                    < 0x100_0000,
            floors_end(packet@, pos as int, count as int, sizes@.len() as int) == floors_end(
                packet@,
                at as int,
                left as int,
                sizes@.len() as int,
            ),
        decreases left,
    {
        match skip_floor(packet, at, sizes) {
            Some(q) => {
                at = q;
            },
            None => {
                return None;
            },
        }
        left = left - 1;
    }
    Some(at)
}

/// Counts the codebooks that the class at bit `at` names.
fn count_stages(packet: &Vec<u8>, at: usize, wide: bool) -> (n: usize)
    requires
        packet@.len() <= MAX_STREAM_BYTES,
        at + 3 <= 8 * packet@.len(),
        wide ==> at + 8 <= 8 * packet@.len(),
    ensures
        n == stage_books(packet@, at as int, wide),
        n <= 7,
{
    reveal(stage_books);
    let low: u32 = read_bit(packet, at) + read_bit(packet, at + 1) + read_bit(packet, at + 2);
    let high: u32 = if wide {
        read_bit(packet, at + 4) + read_bit(packet, at + 5) + read_bit(packet, at + 6) + read_bit(
            packet,
            at + 7,
        )
    } else {
        0
    };
    (low + high) as usize
}

/// Finds the bit after the residue that begins at bit `pos`, if it is
/// one that can be handed to the decoder.
fn skip_residue(packet: &Vec<u8>, pos: usize) -> (found: Option<usize>)
    requires
        packet@.len() <= MAX_STREAM_BYTES,
        pos <= 8 * packet@.len(),
    ensures
        agrees(found, residue_end(packet@, pos as int)),
        found is Some ==> pos < found->Some_0 <= 8 * packet@.len(),
{
    let total: usize = 8 * packet.len();
    if total - pos < 102 {
        return None;
    }
    let classes = read_bits(packet, pos + 88, 6) + 1;
    let mut at: usize = pos + 102;
    let mut left: u32 = classes;
    let mut books: usize = 0;
    while left > 0
        invariant
            packet@.len() <= MAX_STREAM_BYTES,
            total == 8 * packet@.len(),
            pos + 102 <= at <= total,
            classes == bits(packet@, pos + 88, 6) + 1,
            left <= classes <= 64,
            books + 7 * left <= 448,
            stages_end(packet@, pos + 102, classes as int, 0) == stages_end(
                packet@,
                at as int,
                left as int,
                books as int,
            ),
        decreases left,
    {
        if total - at < 4 {
            return None;
        }
        if read_bit(packet, at + 3) == 0 {
            books = books + count_stages(packet, at, false);
            at = at + 4;
        } else {
            if total - at < 9 || read_bit(packet, at + 8) == 1 {
                return None;
            }
            books = books + count_stages(packet, at, true);
            at = at + 9;
        }
        left = left - 1;
    }
    if 8 * books > total - at {
        return None;
    }
    Some(at + 8 * books)
}

/// Finds the bit after `count` residues that follow each other from bit
/// `pos` on, if all can be handed to the decoder.
fn skip_residues(packet: &Vec<u8>, pos: usize, count: u32) -> (found: Option<usize>)
    requires
        packet@.len() <= MAX_STREAM_BYTES,
        pos <= 8 * packet@.len(),
    ensures
        agrees(found, residues_end(packet@, pos as int, count as int)),
        found is Some ==> pos <= found->Some_0 <= 8 * packet@.len(),
{
    let mut at: usize = pos;
    let mut left: u32 = count;
    while left > 0
        invariant
            packet@.len() <= MAX_STREAM_BYTES,
            pos <= at <= 8 * packet@.len(),
            residues_end(packet@, pos as int, count as int) == residues_end(
                packet@,
                at as int,
                left as int,
            ),
        decreases left,
    {
        match skip_residue(packet, at) {
            Some(q) => {
                at = q;
            },
            None => {
                return None;
            },
        }
        left = left - 1;
    }
    Some(at)
}

/// Tests whether a setup header can be handed to the decoder.
pub fn check_setup(packet: &Vec<u8>) -> (sound: bool)
    requires
        packet@.len() <= MAX_STREAM_BYTES,
    ensures
        sound == setup_is_sound(packet@),
{
    let total: usize = 8 * packet.len();
    if total < 64 {
        return false;
    }
    let books = read_bits(packet, 56, 8) + 1;
    let mut sizes: Vec<u32> = Vec::new();
    match skip_codebooks(packet, books, &mut sizes) {
        Some(p) => {
            if total - p < 6 {
                return false;
            }
            let fillers: usize = read_bits(packet, p, 6) as usize + 1;
            if 16 * fillers + 6 > total - p - 6 {
                return false;
            }
            let q: usize = p + 6 + 16 * fillers;
            let floors = read_bits(packet, q, 6) + 1;
            match skip_floors(packet, q + 6, floors, &sizes) {
                Some(r) => {
                    if total - r < 6 {
                        return false;
                    }
                    let residues = read_bits(packet, r, 6) + 1;
                    skip_residues(packet, r + 6, residues).is_some()
                },
                None => false,
            }
        },
        None => false,
    }
}

/// Reads the number that the four bytes from byte `at` on spell.
fn read_number(packet: &Vec<u8>, at: usize) -> (v: u64)
    requires
        packet@.len() <= MAX_STREAM_BYTES,
        at + 4 <= packet@.len(),
    ensures
        v == number_at(packet@, at as int),
        v <= 0xffff_ffff,
{
    let b0: u64 = packet[at] as u64;
    let b1: u64 = packet[at + 1] as u64;
    let b2: u64 = packet[at + 2] as u64;
    let b3: u64 = packet[at + 3] as u64;
    b0 + 0x100 * b1 + 0x1_0000 * b2 + 0x100_0000 * b3
}

/// Tests whether a comment header can be handed to the decoder.
pub fn check_comment(packet: &Vec<u8>) -> (sound: bool)
    requires
        packet@.len() <= MAX_STREAM_BYTES,
    ensures
        sound == comment_is_sound(packet@),
{
    let n: usize = packet.len();
    if n < 11 {
        return false;
    }
    let vendor = read_number(packet, 7);
    if vendor > (n - 11) as u64 || (n - 11) as u64 - vendor < 4 {
        return false;
    }
    let mut left: u64 = read_number(packet, 11 + vendor as usize);
    let mut at: usize = 15 + vendor as usize;
    let ghost start = at;
    let ghost count = left;
    while left > 0
        invariant
            n == packet@.len(),
            n <= MAX_STREAM_BYTES,
            at <= n,
            comment_is_sound(packet@) == comments_fit(packet@, start as int, count as int),
            comments_fit(packet@, start as int, count as int) == comments_fit(
                packet@,
                at as int,
                left as int,
            ),
        decreases left,
    {
        if n - at < 4 {
            return false;
        }
        let length = read_number(packet, at);
        if length > (n - at - 4) as u64 {
            return false;
        }
        at = at + 4 + length as usize;
        left = left - 1;
    }
    true
}

/// What a walk along the pages of a stream has gathered: how many of the
/// three header packets are complete, and the bytes of each: the
/// identification header, the comment header and the setup header.
pub struct Walk {
    pub packets: int,
    pub ident: Seq<u8>,
    pub comment: Seq<u8>,
    pub setup: Seq<u8>,
}

/// The number of segments of the page that begins at byte `at`.
pub open spec fn segment_count(bytes: Seq<u8>, at: int) -> int {
    bytes[at + 26] as int
}

/// The length of segment `i` of the page at `at`: its lacing value.
pub open spec fn lacing(bytes: Seq<u8>, at: int, i: int) -> int {
    bytes[at + 27 + i] as int
}

/// The length of the first `n` segments of the page at `at` together.
pub open spec fn body_len(bytes: Seq<u8>, at: int, n: int) -> int
    decreases n,
{
    if n <= 0 {
        0
    } else {
        body_len(bytes, at, n - 1) + lacing(bytes, at, n - 1)
    }
}

/// The byte after the page that begins at `at`.
pub open spec fn page_end(bytes: Seq<u8>, at: int) -> int {
    at + 27 + segment_count(bytes, at) + body_len(bytes, at, segment_count(bytes, at))
}

/// Whether a whole page of version 0 stands at byte `at`: the capture
/// pattern `OggS`, the header, the lacing values and the segments.
pub open spec fn page_fits(bytes: Seq<u8>, at: int) -> bool {
    &&& 0 <= at
    &&& at + 27 <= bytes.len()
    &&& bytes[at] == 0x4f
    &&& bytes[at + 1] == 0x67
    &&& bytes[at + 2] == 0x67
    &&& bytes[at + 3] == 0x53
    &&& bytes[at + 4] == 0
    &&& page_end(bytes, at) <= bytes.len()
}

/// Whether the page at `at` belongs to the logical stream of the first page.
pub open spec fn same_serial(bytes: Seq<u8>, at: int) -> bool {
    &&& bytes[at + 14] == bytes[14]
    &&& bytes[at + 15] == bytes[15]
    &&& bytes[at + 16] == bytes[16]
    &&& bytes[at + 17] == bytes[17]
}

/// The position in the sound that the page at `at` claims: the eight
/// bytes from `at + 6` on, the lowest first.
pub open spec fn granule_at(bytes: Seq<u8>, at: int) -> int {
    bytes[at + 6] + bytes[at + 7] * 0x100 + bytes[at + 8] * 0x1_0000 + bytes[at + 9] * 0x100_0000
        + bytes[at + 10] * 0x1_0000_0000 + bytes[at + 11] * 0x100_0000_0000 + bytes[at + 12]
        * 0x1_0000_0000_0000 + bytes[at + 13] * 0x100_0000_0000_0000
}

/// Whether no packet ends on the page at `at`: every segment is full.
pub open spec fn no_packet_ends(bytes: Seq<u8>, at: int) -> bool {
    forall|i: int| 0 <= i < segment_count(bytes, at) ==> #[trigger] lacing(bytes, at, i) == 255
}

/// Whether the position of the page at `at` is within the limit. A page
/// on which no packet ends may claim a position of all ones instead; the
/// decoder takes positions only from pages on which a packet ends.
pub open spec fn position_allowed(bytes: Seq<u8>, at: int) -> bool {
    granule_at(bytes, at) <= GRANULE_LIMIT || (granule_at(bytes, at) == 0xffff_ffff_ffff_ffff
        && no_packet_ends(bytes, at))
}

/// What the walk has gathered after the segments of the page at `at`
/// from segment `i` on, which begins `off` bytes into the body.
pub open spec fn after_segments(bytes: Seq<u8>, at: int, w: Walk, i: int, off: int) -> Walk
    decreases segment_count(bytes, at) - i,
{
    if i >= segment_count(bytes, at) {
        w
    } else {
        let from = at + 27 + segment_count(bytes, at) + off;
        let data = bytes.subrange(from, from + lacing(bytes, at, i));
        after_segments(
            bytes,
            at,
            Walk {
                packets: if lacing(bytes, at, i) < 255 && w.packets < 3 {
                    w.packets + 1
                } else {
                    w.packets
                },
                ident: if w.packets == 0 {
                    w.ident + data
                } else {
                    w.ident
                },
                comment: if w.packets == 1 {
                    w.comment + data
                } else {
                    w.comment
                },
                setup: if w.packets == 2 {
                    w.setup + data
                } else {
                    w.setup
                },
            },
            i + 1,
            off + lacing(bytes, at, i),
        )
    }
}

/// What a walk gathers from byte `at` to the end of the stream, if the
/// stream is page after page of one logical stream from there on, each
/// with a position that is allowed.
pub open spec fn walked(bytes: Seq<u8>, at: int, w: Walk) -> Option<Walk>
    decreases bytes.len() - at,
{
    if at >= bytes.len() {
        Some(w)
    } else if !(page_fits(bytes, at) && same_serial(bytes, at) && position_allowed(bytes, at)) {
        None
    } else if page_end(bytes, at) <= at {
        None
    } else {
        walked(bytes, page_end(bytes, at), after_segments(bytes, at, w, 0, 0))
    }
}

/// Whether a stream can be handed to the decoder.
///
/// It is no longer than `MAX_STREAM_BYTES`. It is page after page, from
/// its first byte to its last, all of one logical stream, each page with
/// an allowed position. Its three header packets are complete, and each
/// of them is sound.
pub open spec fn stream_is_safe(bytes: Seq<u8>) -> bool {
    &&& bytes.len() <= MAX_STREAM_BYTES
    &&& match walked(bytes, 0, Walk { packets: 0, ident: Seq::empty(), comment: Seq::empty(), setup: Seq::empty() }) {
        Some(w) => w.packets == 3 && ident_is_sound(w.ident) && comment_is_sound(w.comment)
            && setup_is_sound(w.setup),
        None => false,
    }
}

/// The segments of a page have no negative length.
proof fn lemma_body_len(bytes: Seq<u8>, at: int, n: int)
    ensures
        0 <= body_len(bytes, at, n),
        n >= 0 ==> body_len(bytes, at, n) <= 255 * n,
    decreases n,
{
    if n > 0 {
        lemma_body_len(bytes, at, n - 1);
    }
}

/// Tests whether a stream can be handed to the decoder.
pub fn check_stream(bytes: &[u8]) -> (safe: bool)
    ensures
        safe == stream_is_safe(bytes@),
{
    let n = bytes.len();
    if n as u64 > MAX_STREAM_BYTES {
        return false;
    }
    let ghost start = Walk { packets: 0, ident: Seq::empty(), comment: Seq::empty(), setup: Seq::empty() };
    let mut at: usize = 0;
    let mut packets: u8 = 0;
    let mut ident: Vec<u8> = Vec::new();
    let mut comment: Vec<u8> = Vec::new();
    let mut setup: Vec<u8> = Vec::new();
    while at < n
        invariant
            n == bytes@.len(),
            n <= MAX_STREAM_BYTES,
            start == (Walk { packets: 0, ident: Seq::empty(), comment: Seq::empty(), setup: Seq::empty() }),
            at <= n,
            packets <= 3,
            ident@.len() <= at,
            comment@.len() <= at,
            setup@.len() <= at,
            walked(bytes@, 0, start) == walked(
                bytes@,
                at as int,
                Walk { packets: packets as int, ident: ident@, comment: comment@, setup: setup@ },
            ),
        decreases n - at,
    {
        let ghost before = Walk { packets: packets as int, ident: ident@, comment: comment@, setup: setup@ };
        if n - at < 27 || bytes[at] != 0x4f || bytes[at + 1] != 0x67 || bytes[at + 2] != 0x67
            || bytes[at + 3] != 0x53 || bytes[at + 4] != 0 {
            return false;
        }
        let count: usize = bytes[at + 26] as usize;
        if n - at - 27 < count {
            proof {
                lemma_body_len(bytes@, at as int, count as int);
            }
            return false;
        }
        let mut body: usize = 0;
        let mut full = true;
        let mut i: usize = 0;
        while i < count
            invariant
                n == bytes@.len(),
                at + 27 + count <= n,
                count <= 255,
                i <= count,
                body == body_len(bytes@, at as int, i as int),
                body <= 255 * i,
                full == (forall|j: int| 0 <= j < i ==> #[trigger] lacing(bytes@, at as int, j) == 255),
            decreases count - i,
        {
            let l = bytes[at + 27 + i];
            if l != 255 {
                full = false;
                assert(lacing(bytes@, at as int, i as int) != 255);
            }
            body = body + l as usize;
            i = i + 1;
        }
        if n - at - 27 - count < body {
            return false;
        }
        assert(page_fits(bytes@, at as int));
        assert(full == no_packet_ends(bytes@, at as int));
        if bytes[at + 14] != bytes[14] || bytes[at + 15] != bytes[15] || bytes[at + 16] != bytes[16]
            || bytes[at + 17] != bytes[17] {
            return false;
        }
        let granule: u64 = bytes[at + 6] as u64 + bytes[at + 7] as u64 * 0x100 + bytes[at + 8] as u64
            * 0x1_0000 + bytes[at + 9] as u64 * 0x100_0000 + bytes[at + 10] as u64 * 0x1_0000_0000
            + bytes[at + 11] as u64 * 0x100_0000_0000 + bytes[at + 12] as u64 * 0x1_0000_0000_0000
            + bytes[at + 13] as u64 * 0x100_0000_0000_0000;
        if !(granule <= GRANULE_LIMIT || (granule == 0xffff_ffff_ffff_ffff && full)) {
            return false;
        }
        let from: usize = at + 27 + count;
        let mut off: usize = 0;
        let mut i: usize = 0;
        while i < count
            invariant
                n == bytes@.len(),
                count == segment_count(bytes@, at as int),
                from == at + 27 + count,
                from + body <= n,
                body == body_len(bytes@, at as int, count as int),
                i <= count,
                off == body_len(bytes@, at as int, i as int),
                off <= body,
                packets <= 3,
                ident@.len() <= at + off,
                comment@.len() <= at + off,
                setup@.len() <= at + off,
                after_segments(bytes@, at as int, before, 0, 0) == after_segments(
                    bytes@,
                    at as int,
                    Walk { packets: packets as int, ident: ident@, comment: comment@, setup: setup@ },
                    i as int,
                    off as int,
                ),
            decreases count - i,
        {
            let l: usize = bytes[at + 27 + i] as usize;
            proof {
                lemma_body_rest(bytes@, at as int, i as int + 1, count as int);
            }
            let ghost data = bytes@.subrange(from + off, from + off + l);
            if packets == 0 {
                copy_bytes(bytes, from + off, l, &mut ident);
            } else if packets == 1 {
                copy_bytes(bytes, from + off, l, &mut comment);
            } else if packets == 2 {
                copy_bytes(bytes, from + off, l, &mut setup);
            }
            if l < 255 && packets < 3 {
                packets = packets + 1;
            }
            off = off + l;
            i = i + 1;
        }
        at = from + body;
    }
    packets == 3 && check_ident(&ident) && check_comment(&comment) && check_setup(&setup)
}

/// The first segments of a page are no longer than all of them.
proof fn lemma_body_rest(bytes: Seq<u8>, at: int, i: int, n: int)
    requires
        0 <= i <= n,
    ensures
        body_len(bytes, at, i) <= body_len(bytes, at, n),
    decreases n - i,
{
    if i < n {
        lemma_body_rest(bytes, at, i, n - 1);
    }
}

/// Adds `count` bytes of a stream, from byte `from` on, to a packet.
fn copy_bytes(bytes: &[u8], from: usize, count: usize, packet: &mut Vec<u8>)
    requires
        from + count <= bytes@.len(),
    ensures
        final(packet)@ == old(packet)@ + bytes@.subrange(from as int, from + count),
{
    let n = bytes.len();
    let mut j: usize = 0;
    while j < count
        invariant
            n == bytes@.len(),
            from + count <= n,
            j <= count,
            packet@ == old(packet)@ + bytes@.subrange(from as int, from + j),
        decreases count - j,
    {
        packet.push(bytes[from + j]);
        proof {
            assert(packet@ =~= old(packet)@ + bytes@.subrange(from as int, from + j + 1));
        }
        j = j + 1;
    }
}

} // verus!
