//! Little-endian integers in byte sequences.

use vstd::arithmetic::power::pow;
use vstd::prelude::*;

verus! {

/// The number that `bytes` spells, least significant byte first.
pub open spec fn le_value(bytes: Seq<u8>) -> nat
    decreases bytes.len(),
{
    if bytes.len() == 0 {
        0
    } else {
        bytes[0] as nat + 256 * le_value(bytes.drop_first())
    }
}

/// The `n` low bytes of `value`, least significant byte first.
pub open spec fn le_bytes(value: nat, n: nat) -> Seq<u8>
    decreases n,
{
    if n == 0 {
        Seq::empty()
    } else {
        seq![(value % 256) as u8] + le_bytes(value / 256, (n - 1) as nat)
    }
}

/// Reading back the `n` low bytes of a value gives the value, as long as it fits in them.
pub proof fn le_round_trip(value: nat, n: nat)
    requires
        value < pow(256, n),
    ensures
        le_bytes(value, n).len() == n,
        le_value(le_bytes(value, n)) == value,
    decreases n,
{
    reveal(pow);
    if n > 0 {
        let rest: nat = value / 256;
        assert(rest < pow(256, (n - 1) as nat)) by (nonlinear_arith)
            requires
                value < 256 * pow(256, (n - 1) as nat),
                rest == value / 256,
        ;
        le_round_trip(rest, (n - 1) as nat);
        assert(le_bytes(value, n).drop_first() =~= le_bytes(rest, (n - 1) as nat));
    }
}

/// Reading `n` bytes and writing the number back gives the same bytes.
pub proof fn le_bytes_of_le_value(bytes: Seq<u8>)
    ensures
        le_bytes(le_value(bytes), bytes.len()) == bytes,
        le_value(bytes) < pow(256, bytes.len()),
    decreases bytes.len(),
{
    reveal(pow);
    if bytes.len() > 0 {
        let rest: Seq<u8> = bytes.drop_first();
        le_bytes_of_le_value(rest);
        assert(le_value(bytes) / 256 == le_value(rest));
        assert(le_bytes(le_value(bytes), bytes.len()) =~= bytes);
        assert(256 * le_value(rest) + bytes[0] < 256 * pow(256, rest.len()));
    } else {
        assert(le_bytes(le_value(bytes), bytes.len()) =~= bytes);
    }
}

/// How many numbers two, four and eight bytes can spell.
pub proof fn byte_ranges()
    ensures
        pow(256, 1) == 0x100,
        pow(256, 2) == 0x1_0000,
        pow(256, 4) == 0x1_0000_0000,
        pow(256, 8) == 0x1_0000_0000_0000_0000,
{
    reveal(pow);
    reveal_with_fuel(pow, 9);
}

/// `le_bytes` has the length that was asked for.
pub proof fn le_bytes_len(value: nat, n: nat)
    ensures
        le_bytes(value, n).len() == n,
    decreases n,
{
    if n > 0 {
        le_bytes_len(value / 256, (n - 1) as nat);
    }
}

proof fn le_value_step(data: Seq<u8>, from: int, to: int)
    requires
        0 <= from < to <= data.len(),
    ensures
        le_value(data.subrange(from, to)) == data[from] + 256 * le_value(
            data.subrange(from + 1, to),
        ),
{
    assert(data.subrange(from, to).drop_first() =~= data.subrange(from + 1, to));
}

/// The two bytes at `pos` as a number.
pub fn le_u16(data: &[u8], pos: usize) -> (r: u16)
    requires
        pos + 2 <= data.len(),
    ensures
        r == le_value(data@.subrange(pos as int, pos + 2)),
{
    proof {
        le_value_step(data@, pos as int, pos + 2);
        le_value_step(data@, pos + 1, pos + 2);
    }
    data[pos] as u16 + 256 * (data[pos + 1] as u16)
}

/// The four bytes at `pos` as a number.
pub fn le_u32(data: &[u8], pos: usize) -> (r: u32)
    requires
        pos + 4 <= data.len(),
    ensures
        r == le_value(data@.subrange(pos as int, pos + 4)),
{
    proof {
        le_value_step(data@, pos as int, pos + 4);
        le_value_step(data@, pos + 1, pos + 4);
        assert(data@.subrange(pos + 2, pos + 4) =~= data@.subrange(pos + 2, (pos + 2) + 2));
    }
    let low: u32 = data[pos] as u32 + 256 * (data[pos + 1] as u32);
    low + 65536 * (le_u16(data, pos + 2) as u32)
}

/// The eight bytes at `pos` as a number.
pub fn le_u64(data: &[u8], pos: usize) -> (r: u64)
    requires
        pos + 8 <= data.len(),
    ensures
        r == le_value(data@.subrange(pos as int, pos + 8)),
{
    proof {
        le_value_step(data@, pos as int, pos + 8);
        le_value_step(data@, pos + 1, pos + 8);
        le_value_step(data@, pos + 2, pos + 8);
        le_value_step(data@, pos + 3, pos + 8);
        le_value_step(data@, pos as int, pos + 4);
        le_value_step(data@, pos + 1, pos + 4);
        le_value_step(data@, pos + 2, pos + 4);
        le_value_step(data@, pos + 3, pos + 4);
        assert(data@.subrange(pos + 4, pos + 8) =~= data@.subrange(pos + 4, (pos + 4) + 4));
    }
    le_u32(data, pos) as u64 + 0x1_0000_0000 * (le_u32(data, pos + 4) as u64)
}

/// Appends the `n` low bytes of `value`.
pub fn push_le(buf: &mut Vec<u8>, value: u64, n: usize)
    ensures
        final(buf)@ == old(buf)@ + le_bytes(value as nat, n as nat),
{
    let mut rest: u64 = value;
    let mut left: usize = n;
    assert(buf@ + le_bytes(rest as nat, left as nat) =~= old(buf)@ + le_bytes(
        value as nat,
        n as nat,
    ));
    while left > 0
        invariant
            buf@ + le_bytes(rest as nat, left as nat) == old(buf)@ + le_bytes(
                value as nat,
                n as nat,
            ),
        decreases left,
    {
        let ghost before: Seq<u8> = buf@;
        buf.push((rest % 256) as u8);
        proof {
            assert(before + le_bytes(rest as nat, left as nat) =~= buf@ + le_bytes(
                (rest / 256) as nat,
                (left - 1) as nat,
            ));
        }
        rest = rest / 256;
        left = left - 1;
    }
    assert(buf@ + le_bytes(rest as nat, 0) =~= buf@);
}

/// Pieces joined in order.
pub open spec fn concat(pieces: Seq<Seq<u8>>) -> Seq<u8>
    decreases pieces.len(),
{
    if pieces.len() == 0 {
        Seq::empty()
    } else {
        concat(pieces.drop_last()) + pieces.last()
    }
}

/// One more piece comes behind the others.
pub proof fn concat_push(pieces: Seq<Seq<u8>>, piece: Seq<u8>)
    ensures
        concat(pieces.push(piece)) == concat(pieces) + piece,
{
    assert(pieces.push(piece).drop_last() =~= pieces);
}

/// Piece `i` stands behind the pieces in front of it.
pub proof fn concat_piece(pieces: Seq<Seq<u8>>, i: int)
    requires
        0 <= i < pieces.len(),
    ensures
        concat(pieces.take(i + 1)).len() == concat(pieces.take(i)).len() + pieces[i].len(),
        concat(pieces.take(i + 1)).len() <= concat(pieces).len(),
        concat(pieces).subrange(
            concat(pieces.take(i)).len() as int,
            concat(pieces.take(i + 1)).len() as int,
        ) == pieces[i],
    decreases pieces.len(),
{
    assert(pieces.take(i + 1).drop_last() =~= pieces.take(i));
    if i == pieces.len() - 1 {
        assert(pieces.take(i + 1) =~= pieces);
        assert(concat(pieces).subrange(
            concat(pieces.take(i)).len() as int,
            concat(pieces).len() as int,
        ) =~= pieces[i]);
    } else {
        let shorter: Seq<Seq<u8>> = pieces.drop_last();
        concat_piece(shorter, i);
        assert(shorter.take(i) =~= pieces.take(i));
        assert(shorter.take(i + 1) =~= pieces.take(i + 1));
        assert(concat(pieces).subrange(
            concat(pieces.take(i)).len() as int,
            concat(pieces.take(i + 1)).len() as int,
        ) =~= concat(shorter).subrange(
            concat(pieces.take(i)).len() as int,
            concat(pieces.take(i + 1)).len() as int,
        ));
    }
}

} // verus!
