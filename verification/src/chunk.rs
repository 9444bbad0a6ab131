//! Splitting a message into pieces that the log daemon accepts, and the
//! terminator that the platform expects behind each piece.

use vstd::prelude::*;
use vstd::slice::slice_subrange;

verus! {

/// The most bytes of a message that go into one record. The log daemon cuts
/// records off at 4096 bytes; the rest is room for what it adds.
pub const MAX_LOG_LEN: usize = 4000;

/// How many pieces a message of `len` bytes is split into: one while it is
/// shorter than [`MAX_LOG_LEN`], else as many as it takes to hold it in
/// pieces of [`MAX_LOG_LEN`] bytes.
pub open spec fn piece_count(len: nat) -> nat {
    if len < MAX_LOG_LEN {
        1
    } else {
        ((len + MAX_LOG_LEN - 1) / (MAX_LOG_LEN as int)) as nat
    }
}

/// Where piece `i` of a message of `len` bytes starts.
pub open spec fn piece_start(len: nat, i: int) -> int {
    i * MAX_LOG_LEN
}

/// Where piece `i` of a message of `len` bytes ends.
pub open spec fn piece_end(len: nat, i: int) -> int {
    if (i + 1) * MAX_LOG_LEN < len {
        (i + 1) * MAX_LOG_LEN
    } else {
        len as int
    }
}

/// Piece `i` of a message.
pub open spec fn piece(message: Seq<u8>, i: int) -> Seq<u8> {
    message.subrange(piece_start(message.len(), i), piece_end(message.len(), i))
}

/// The pieces of a message, in order.
pub open spec fn pieces(message: Seq<u8>) -> Seq<Seq<u8>> {
    Seq::new(piece_count(message.len()), |i: int| piece(message, i))
}

/// The given byte strings, one behind the other.
pub open spec fn concat(parts: Seq<Seq<u8>>) -> Seq<u8>
    decreases parts.len(),
{
    if parts.len() == 0 {
        Seq::empty()
    } else {
        concat(parts.drop_last()) + parts.last()
    }
}

/// The bytes with a terminator behind them, unless they end in one.
pub open spec fn terminated(bytes: Seq<u8>) -> Seq<u8> {
    if bytes.len() > 0 && bytes.last() == 0 {
        bytes
    } else {
        bytes.push(0)
    }
}

/// Whether the bytes are a C string: they end in a terminator and hold no
/// other.
pub open spec fn is_c_string(bytes: Seq<u8>) -> bool {
    &&& bytes.len() > 0
    &&& bytes.last() == 0
    &&& forall|i: int| 0 <= i < bytes.len() - 1 ==> bytes[i] != 0
}

/// Whether the bytes can be handed to the sink once terminated.
pub open spec fn sendable(bytes: Seq<u8>) -> bool {
    is_c_string(terminated(bytes))
}

/// Whether a byte string holds a terminator anywhere.
pub open spec fn has_nul(bytes: Seq<u8>) -> bool {
    exists|i: int| 0 <= i < bytes.len() && bytes[i] == 0
}

/// A message shorter than [`MAX_LOG_LEN`] is its own single piece.
pub proof fn lemma_short_message_is_one_piece(message: Seq<u8>)
    requires
        message.len() < MAX_LOG_LEN,
    ensures
        pieces(message) == seq![message],
{
    assert(piece(message, 0) =~= message);
    assert(pieces(message) =~= seq![message]);
}

/// A message of [`MAX_LOG_LEN`] bytes or more has as many pieces as its
/// length divided by [`MAX_LOG_LEN`], rounded up.
pub proof fn lemma_piece_count_rounds_up(len: nat)
    requires
        len >= MAX_LOG_LEN,
    ensures
        (piece_count(len) - 1) * MAX_LOG_LEN < len <= piece_count(len) * MAX_LOG_LEN,
        piece_count(len) >= 1,
{
}

/// No piece is longer than [`MAX_LOG_LEN`]; every piece but the last is
/// exactly that long; and a piece is empty only if the message is.
pub proof fn lemma_piece_len(message: Seq<u8>, i: int)
    requires
        0 <= i < piece_count(message.len()),
    ensures
        piece(message, i).len() <= MAX_LOG_LEN,
        i < piece_count(message.len()) - 1 ==> piece(message, i).len() == MAX_LOG_LEN,
        message.len() > 0 ==> piece(message, i).len() > 0,
        piece(message, i).len() == piece_end(message.len(), i) - piece_start(message.len(), i),
        0 <= piece_start(message.len(), i) <= piece_end(message.len(), i) <= message.len(),
{
    if message.len() >= MAX_LOG_LEN {
        lemma_piece_count_rounds_up(message.len());
    }
}

/// The first `k` pieces of a message, one behind the other, are the message
/// up to where piece `k` starts.
proof fn lemma_concat_prefix(message: Seq<u8>, k: int)
    requires
        0 <= k <= piece_count(message.len()),
    ensures
        concat(pieces(message).take(k)) == message.take(
            if k * MAX_LOG_LEN < message.len() {
                k * MAX_LOG_LEN
            } else {
                message.len() as int
            },
        ),
    decreases k,
{
    let parts = pieces(message).take(k);
    if k == 0 {
        assert(concat(parts) =~= message.take(0));
    } else {
        lemma_concat_prefix(message, k - 1);
        lemma_piece_len(message, k - 1);
        assert(parts.drop_last() =~= pieces(message).take(k - 1));
        assert(parts.last() == piece(message, k - 1));
        let end = if k * MAX_LOG_LEN < message.len() {
            k * MAX_LOG_LEN
        } else {
            message.len() as int
        };
        assert(end == piece_end(message.len(), k - 1));
        assert(message.take((k - 1) * MAX_LOG_LEN) + piece(message, k - 1) =~= message.take(end));
    }
}

/// The pieces of a message, one behind the other in their order, are the
/// message.
pub proof fn lemma_pieces_concat(message: Seq<u8>)
    ensures
        concat(pieces(message)) == message,
{
    let count = piece_count(message.len()) as int;
    if message.len() >= MAX_LOG_LEN {
        lemma_piece_count_rounds_up(message.len());
    }
    lemma_concat_prefix(message, count);
    assert(pieces(message).take(count) =~= pieces(message));
    assert(message.take(message.len() as int) =~= message);
}

/// Returns how many pieces a message of `len` bytes is split into.
pub fn count_pieces(len: usize) -> (count: usize)
    ensures
        count == piece_count(len as nat),
        count >= 1,
        len >= MAX_LOG_LEN ==> (count - 1) * MAX_LOG_LEN < len <= count * MAX_LOG_LEN,
{
    if len < MAX_LOG_LEN {
        1
    } else {
        let full: usize = len / MAX_LOG_LEN;
        if len % MAX_LOG_LEN == 0 {
            full
        } else {
            full + 1
        }
    }
}

/// Returns piece `i` of `message`, which has such a piece.
pub(crate) fn piece_at(message: &[u8], i: usize) -> (part: &[u8])
    requires
        i < piece_count(message@.len()),
    ensures
        part@ == piece(message@, i as int),
{
    let len: usize = message.len();
    let count: usize = count_pieces(len);
    if len < MAX_LOG_LEN {
        assert(piece(message@, 0) =~= message@);
        return message;
    }
    let start: usize = i * MAX_LOG_LEN;
    let end: usize = if len - start > MAX_LOG_LEN {
        start + MAX_LOG_LEN
    } else {
        len
    };
    slice_subrange(message, start, end)
}

/// Returns piece `i` of `message`, or nothing when there is no such piece.
pub fn piece_of(message: &[u8], i: usize) -> (part: Option<&[u8]>)
    ensures
        i < piece_count(message@.len()) ==> (part matches Some(p) && p@ == piece(message@, i as int)),
        i >= piece_count(message@.len()) ==> part is None,
{
    if i < count_pieces(message.len()) {
        Some(piece_at(message, i))
    } else {
        None
    }
}

/// Returns whether `bytes` is a C string: whether it ends in a terminator
/// and holds no other.
pub fn check_c_string(bytes: &[u8]) -> (ok: bool)
    ensures
        ok == is_c_string(bytes@),
{
    let len: usize = bytes.len();
    if len == 0 {
        return false;
    }
    if bytes[len - 1] != 0 {
        return false;
    }
    let mut i: usize = 0;
    while i < len - 1
        invariant
            len == bytes@.len(),
            len > 0,
            i <= len - 1,
            forall|j: int| 0 <= j < i ==> bytes@[j] != 0,
        decreases len - i,
    {
        if bytes[i] == 0 {
            return false;
        }
        i = i + 1;
    }
    true
}

/// Returns whether `bytes` holds a terminator anywhere.
pub fn contains_nul(bytes: &[u8]) -> (found: bool)
    ensures
        found == has_nul(bytes@),
{
    let mut i: usize = 0;
    while i < bytes.len()
        invariant
            i <= bytes@.len(),
            forall|j: int| 0 <= j < i ==> bytes@[j] != 0,
        decreases bytes@.len() - i,
    {
        if bytes[i] == 0 {
            return true;
        }
        i = i + 1;
    }
    false
}

} // verus!
