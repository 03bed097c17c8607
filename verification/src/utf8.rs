//! Byte offsets and character positions in UTF-8 text.
//!
//! A string is viewed as its sequence of characters; its bytes are the UTF-8
//! encoding of that sequence. The lemmas here relate the two views: a byte
//! offset is a character boundary exactly when it is the encoded length of a
//! prefix of the characters.

use vstd::prelude::*;
use vstd::slice::*;
use vstd::string::*;
use vstd::utf8::*;

verus! {

/// Number of bytes that the UTF-8 encoding of `c` takes.
pub open spec fn char_len(c: char) -> int {
    encode_scalar(c as u32).len() as int
}

/// Number of bytes that the UTF-8 encoding of `s` takes.
pub open spec fn byte_len(s: Seq<char>) -> int {
    encode_utf8(s).len() as int
}

/// Byte offset at which the character with index `k` starts: the encoded
/// length of the first `k` characters.
pub open spec fn byte_offset(s: Seq<char>, k: int) -> int {
    byte_len(s.take(k))
}

/// Number of whole characters encoded in the first `i` bytes of `s`.
pub open spec fn char_index(s: Seq<char>, i: int) -> int {
    decode_utf8(encode_utf8(s).subrange(0, i)).len() as int
}

/// Whether byte offset `i` falls between two characters of `s`, or at either end.
pub open spec fn on_boundary(s: Seq<char>, i: int) -> bool {
    is_char_boundary(encode_utf8(s), i)
}

/// The boundary before `idx`: the start of the character that ends at `idx`.
pub open spec fn prev_boundary(s: Seq<char>, idx: int) -> int {
    if idx <= 0 {
        0
    } else {
        byte_offset(s, char_index(s, idx) - 1)
    }
}

/// The boundary after `idx`: the end of the character that starts at `idx`.
pub open spec fn next_boundary(s: Seq<char>, idx: int) -> int {
    if idx >= byte_len(s) {
        byte_len(s)
    } else {
        byte_offset(s, char_index(s, idx) + 1)
    }
}

/// Encoding distributes over concatenation.
pub proof fn lemma_encode_concat(a: Seq<char>, b: Seq<char>)
    ensures
        encode_utf8(a + b) =~= encode_utf8(a) + encode_utf8(b),
    decreases a.len(),
{
    if a.len() > 0 {
        assert((a + b).drop_first() =~= a.drop_first() + b);
        lemma_encode_concat(a.drop_first(), b);
    }
}

/// The encoding of a single character is its scalar encoding.
pub proof fn lemma_encode_single(c: char)
    ensures
        encode_utf8(seq![c]) =~= encode_scalar(c as u32),
{
    reveal_with_fuel(encode_utf8, 2);
}

/// The bytes before the offset of character `k` encode the first `k`
/// characters, and the bytes from there on encode the rest.
pub proof fn lemma_split_at_offset(s: Seq<char>, k: int)
    requires
        0 <= k <= s.len(),
    ensures
        0 <= byte_offset(s, k) <= byte_len(s),
        encode_utf8(s).subrange(0, byte_offset(s, k)) =~= encode_utf8(s.take(k)),
        encode_utf8(s).subrange(byte_offset(s, k), byte_len(s)) =~= encode_utf8(s.skip(k)),
{
    lemma_encode_concat(s.take(k), s.skip(k));
    assert(s.take(k) + s.skip(k) =~= s);
}

/// Offsets grow by the length of each character passed.
pub proof fn lemma_offset_step(s: Seq<char>, k: int)
    requires
        0 <= k < s.len(),
    ensures
        byte_offset(s, k + 1) == byte_offset(s, k) + char_len(s[k]),
{
    lemma_encode_concat(s.take(k), seq![s[k]]);
    lemma_encode_single(s[k]);
    assert(s.take(k + 1) =~= s.take(k) + seq![s[k]]);
}

/// Offsets are strictly increasing in the character index.
pub proof fn lemma_offset_increasing(s: Seq<char>, j: int, k: int)
    requires
        0 <= j <= k <= s.len(),
    ensures
        byte_offset(s, j) + (k - j) <= byte_offset(s, k),
    decreases k - j,
{
    if j < k {
        lemma_offset_increasing(s, j, k - 1);
        lemma_offset_step(s, k - 1);
    }
}

/// The offset of every character index is a boundary.
pub proof fn lemma_offset_on_boundary(s: Seq<char>, k: int)
    requires
        0 <= k <= s.len(),
    ensures
        on_boundary(s, byte_offset(s, k)),
    decreases s.len(),
{
    broadcast use encode_utf8_valid_utf8;

    if k > 0 {
        let rest = s.drop_first();
        encode_utf8_first_scalar(s);
        assert(pop_first_scalar(encode_utf8(s)) =~= encode_utf8(rest));
        lemma_offset_on_boundary(rest, k - 1);
        assert(s.take(k).drop_first() =~= rest.take(k - 1));
    }
}

/// A boundary lies within the bytes.
pub proof fn lemma_boundary_in_range(s: Seq<char>, i: int)
    requires
        on_boundary(s, i),
    ensures
        0 <= i <= byte_len(s),
{
    broadcast use encode_utf8_valid_utf8;

}

/// Every boundary is the offset of a character index, namely of `char_index`.
pub proof fn lemma_boundary_is_offset(s: Seq<char>, i: int)
    requires
        on_boundary(s, i),
    ensures
        0 <= char_index(s, i) <= s.len(),
        byte_offset(s, char_index(s, i)) == i,
        s.take(char_index(s, i)) =~= decode_utf8(encode_utf8(s).subrange(0, i)),
        s.skip(char_index(s, i)) =~= decode_utf8(encode_utf8(s).subrange(i, byte_len(s))),
{
    broadcast use encode_utf8_valid_utf8, encode_utf8_decode_utf8, decode_utf8_encode_utf8;

    let bytes = encode_utf8(s);
    valid_utf8_split(bytes, i);
    decode_utf8_split(bytes, i);
    let head = bytes.subrange(0, i);
    let tail = bytes.subrange(i, bytes.len() as int);
    let a = decode_utf8(head);
    let b = decode_utf8(tail);
    assert(s.take(a.len() as int) =~= a);
}

/// The character index of an offset is the index it was computed from.
pub proof fn lemma_char_index_of_offset(s: Seq<char>, k: int)
    requires
        0 <= k <= s.len(),
    ensures
        char_index(s, byte_offset(s, k)) == k,
{
    broadcast use encode_utf8_decode_utf8;

    lemma_split_at_offset(s, k);
}

/// Both ends of a text are boundaries.
pub proof fn lemma_ends_on_boundary(s: Seq<char>)
    ensures
        on_boundary(s, 0),
        on_boundary(s, byte_len(s)),
{
    broadcast use encode_utf8_valid_utf8;

    is_char_boundary_start_end_of_seq(encode_utf8(s));
}

/// Two texts with the same encoding are the same text.
pub proof fn lemma_encode_injective(a: Seq<char>, b: Seq<char>)
    requires
        encode_utf8(a) == encode_utf8(b),
    ensures
        a == b,
{
    broadcast use encode_utf8_decode_utf8;

    assert(decode_utf8(encode_utf8(a)) == a);
}

/// Replacing the bytes between two boundaries of `s` by the encoding of
/// `with` replaces the characters between them by `with`; the first boundary
/// stays one, at the same character index.
pub proof fn lemma_splice(s: Seq<char>, start: int, end: int, with: Seq<char>, t: Seq<char>)
    requires
        start <= end,
        on_boundary(s, start),
        on_boundary(s, end),
        encode_utf8(t) == encode_utf8(s).subrange(0, start) + encode_utf8(with) + encode_utf8(
            s,
        ).subrange(end, byte_len(s)),
    ensures
        t == s.take(char_index(s, start)) + with + s.skip(char_index(s, end)),
        char_index(s, start) <= char_index(s, end),
        on_boundary(t, start),
        char_index(t, start) == char_index(s, start),
        on_boundary(t, start + byte_len(with)),
        char_index(t, start + byte_len(with)) == char_index(s, start) + with.len(),
        byte_len(t) == byte_len(s) - (end - start) + byte_len(with),
{
    let j = char_index(s, start);
    let k = char_index(s, end);
    lemma_boundary_is_offset(s, start);
    lemma_boundary_is_offset(s, end);
    if k < j {
        lemma_offset_increasing(s, k, j);
    }
    lemma_split_at_offset(s, j);
    lemma_split_at_offset(s, k);
    let u = s.take(j) + with + s.skip(k);
    lemma_encode_concat(s.take(j), with);
    lemma_encode_concat(s.take(j) + with, s.skip(k));
    lemma_encode_injective(t, u);
    assert(u.take(j) =~= s.take(j));
    assert(u.take(j + with.len()) =~= s.take(j) + with);
    lemma_offset_on_boundary(u, j);
    lemma_char_index_of_offset(u, j);
    lemma_offset_on_boundary(u, j + with.len());
    lemma_char_index_of_offset(u, j + with.len());
}

/// The bytes between two boundaries encode the characters between them.
pub proof fn lemma_subrange(s: Seq<char>, start: int, end: int)
    requires
        start <= end,
        on_boundary(s, start),
        on_boundary(s, end),
    ensures
        0 <= char_index(s, start) <= char_index(s, end) <= s.len(),
        encode_utf8(s).subrange(start, end) =~= encode_utf8(
            s.subrange(char_index(s, start), char_index(s, end)),
        ),
        on_boundary(s.take(char_index(s, end)), start),
{
    let j = char_index(s, start);
    let k = char_index(s, end);
    lemma_boundary_is_offset(s, start);
    lemma_boundary_is_offset(s, end);
    if k < j {
        lemma_offset_increasing(s, k, j);
    }
    let head = s.take(k);
    lemma_split_at_offset(s, k);
    assert(head.take(j) =~= s.take(j));
    lemma_split_at_offset(head, j);
    assert(head.skip(j) =~= s.subrange(j, k));
    lemma_offset_on_boundary(head, j);
}

/// Largest boundary of `s` that is not above `i`, and 0 for a negative `i`.
pub open spec fn snap_down(s: Seq<char>, i: int) -> int
    decreases i,
{
    if i <= 0 {
        0
    } else if on_boundary(s, i) {
        i
    } else {
        snap_down(s, i - 1)
    }
}

/// Smallest boundary of `s` that is not below `i`, and the length of `s` in
/// bytes for an `i` past the end.
pub open spec fn snap_up(s: Seq<char>, i: int) -> int
    decreases byte_len(s) - i,
{
    if i >= byte_len(s) {
        byte_len(s)
    } else if on_boundary(s, i) {
        i
    } else {
        snap_up(s, i + 1)
    }
}

/// `snap_down` gives a boundary, at most three bytes below a valid offset.
pub proof fn lemma_snap_down(s: Seq<char>, i: int)
    requires
        0 <= i <= byte_len(s),
    ensures
        on_boundary(s, snap_down(s, i)),
        i - 3 <= snap_down(s, i) <= i,
        forall|j: int| snap_down(s, i) < j <= i ==> !on_boundary(s, j),
    decreases i,
{
    lemma_ends_on_boundary(s);
    if i > 0 && !on_boundary(s, i) {
        lemma_snap_down(s, i - 1);
        lemma_snap_gap(s, snap_down(s, i), i);
    }
}

/// `snap_up` gives a boundary, at most three bytes above a valid offset.
pub proof fn lemma_snap_up(s: Seq<char>, i: int)
    requires
        0 <= i <= byte_len(s),
    ensures
        on_boundary(s, snap_up(s, i)),
        i <= snap_up(s, i) <= i + 3,
        snap_up(s, i) <= byte_len(s),
        forall|j: int| i <= j < snap_up(s, i) ==> !on_boundary(s, j),
    decreases byte_len(s) - i,
{
    lemma_ends_on_boundary(s);
    if i < byte_len(s) && !on_boundary(s, i) {
        lemma_snap_up(s, i + 1);
        lemma_snap_down(s, i);
        lemma_boundary_is_offset(s, snap_down(s, i));
        lemma_boundary_is_offset(s, snap_up(s, i));
        let j = char_index(s, snap_down(s, i));
        let k = char_index(s, snap_up(s, i));
        if k <= j {
            lemma_offset_increasing(s, k, j);
        }
        lemma_offset_on_boundary(s, j + 1);
        lemma_offset_step(s, j);
    }
}

/// An offset that is not on a boundary lies less than four bytes above the
/// boundary below it.
proof fn lemma_snap_gap(s: Seq<char>, b: int, i: int)
    requires
        on_boundary(s, b),
        b < i <= byte_len(s),
        forall|j: int| b < j <= i ==> !on_boundary(s, j),
    ensures
        i - b <= 3,
{
    lemma_boundary_is_offset(s, b);
    let k = char_index(s, b);
    if k >= s.len() {
        assert(s.take(k) =~= s);
    } else {
        lemma_offset_step(s, k);
        lemma_offset_on_boundary(s, k + 1);
    }
}

/// The characters of `s` between two boundaries, as a string of its own.
pub fn substring(s: &str, start: usize, end: usize) -> (r: String)
    requires
        start <= end,
        on_boundary(s@, start as int),
        on_boundary(s@, end as int),
    ensures
        r@ == s@.subrange(char_index(s@, start as int), char_index(s@, end as int)),
{
    proof {
        lemma_subrange(s@, start as int, end as int);
        lemma_boundary_is_offset(s@, end as int);
    }
    let (head, _) = s.split_at(end);
    proof {
        lemma_split_at_offset(s@, char_index(s@, end as int));
    }
    let (_, mid) = head.split_at(start);
    proof {
        assert(encode_utf8(head@).subrange(start as int, byte_len(head@)) =~= encode_utf8(
            s@,
        ).subrange(start as int, end as int));
        lemma_encode_injective(
            mid@,
            s@.subrange(char_index(s@, start as int), char_index(s@, end as int)),
        );
    }
    mid.to_owned()
}

/// Byte length of a string slice.
pub fn str_byte_len(s: &str) -> (n: usize)
    ensures
        n == byte_len(s@),
{
    broadcast use axiom_spec_len;

    s.as_bytes().len()
}

/// Start of the character that ends at byte offset `idx`, or 0 at the start
/// of the text. Found by scanning backwards for a boundary.
pub fn prev_char_boundary(s: &str, idx: usize) -> (r: usize)
    requires
        on_boundary(s@, idx as int),
    ensures
        r == prev_boundary(s@, idx as int),
        on_boundary(s@, r as int),
        idx > 0 ==> r < idx,
{
    if idx == 0 {
        return 0;
    }
    let mut i: usize = idx - 1;
    while i > 0 && !s.is_char_boundary(i)
        invariant
            0 <= i < idx,
            forall|j: int| i < j < idx ==> !on_boundary(s@, j),
        decreases i,
    {
        i -= 1;
    }
    proof {
        broadcast use encode_utf8_valid_utf8;

        let k = char_index(s@, idx as int);
        lemma_boundary_is_offset(s@, idx as int);
        lemma_boundary_is_offset(s@, i as int);
        let m = char_index(s@, i as int);
        if m >= k {
            lemma_offset_increasing(s@, k, m);
        }
        lemma_offset_on_boundary(s@, k - 1);
        lemma_offset_increasing(s@, k - 1, k);
        lemma_offset_increasing(s@, m, k - 1);
    }
    i
}

/// End of the character that starts at byte offset `idx`, or the length of
/// the text at or past its end. Found by scanning forwards for a boundary.
pub fn next_char_boundary(s: &str, idx: usize) -> (r: usize)
    requires
        idx >= byte_len(s@) || on_boundary(s@, idx as int),
    ensures
        r == next_boundary(s@, idx as int),
        on_boundary(s@, r as int),
        idx < byte_len(s@) ==> idx < r,
{
    let len = str_byte_len(s);
    proof {
        broadcast use encode_utf8_valid_utf8;

        is_char_boundary_start_end_of_seq(encode_utf8(s@));
    }
    if idx >= len {
        return len;
    }
    let mut i: usize = idx + 1;
    while i < len && !s.is_char_boundary(i)
        invariant
            idx < i <= len,
            len == byte_len(s@),
            forall|j: int| idx < j < i ==> !on_boundary(s@, j),
        decreases len - i,
    {
        i += 1;
    }
    proof {
        let k = char_index(s@, idx as int);
        lemma_boundary_is_offset(s@, idx as int);
        lemma_boundary_is_offset(s@, i as int);
        let m = char_index(s@, i as int);
        if m <= k {
            lemma_offset_increasing(s@, m, k);
        }
        lemma_offset_on_boundary(s@, k + 1);
        lemma_offset_increasing(s@, k, k + 1);
        lemma_offset_increasing(s@, k + 1, m);
    }
    i
}

} // verus!
