//! Contracts for the string operations of the standard library that the
//! crate relies on and that come without one. The contracts are taken on
//! trust: each states what the documentation of the operation says. The
//! lemmas about what they speak of are proved.

use vstd::prelude::*;
use vstd::slice::*;
use vstd::string::*;
use vstd::utf8::*;
use crate::utf8::{byte_len, char_len, lemma_encode_injective, on_boundary};

verus! {

/// The view of an optional value.
pub open spec fn view_of<T: View>(value: Option<T>) -> Option<T::V> {
    match value {
        Some(v) => Some(v@),
        None => None,
    }
}

/// The texts of a list of strings.
pub open spec fn texts(v: Seq<String>) -> Seq<Seq<char>> {
    Seq::new(v.len(), |i: int| v[i]@)
}

/// Whether a character beyond ASCII has the Unicode `White_Space`
/// property, as `char::is_whitespace` reports it.
pub uninterp spec fn unicode_whitespace(c: char) -> bool;

/// Whether `c` is whitespace: within ASCII the space and the characters
/// from U+0009 to U+000D, beyond ASCII what has the Unicode `White_Space`
/// property.
pub open spec fn is_whitespace(c: char) -> bool {
    if c <= '\u{7f}' {
        c == ' ' || ('\t' <= c && c <= '\r')
    } else {
        unicode_whitespace(c)
    }
}

/// `s` without its leading whitespace.
pub open spec fn trim_start_of(s: Seq<char>) -> Seq<char>
    decreases s.len(),
{
    if s.len() > 0 && is_whitespace(s[0]) {
        trim_start_of(s.drop_first())
    } else {
        s
    }
}

/// `s` without its trailing whitespace.
pub open spec fn trim_end_of(s: Seq<char>) -> Seq<char>
    decreases s.len(),
{
    if s.len() > 0 && is_whitespace(s.last()) {
        trim_end_of(s.drop_last())
    } else {
        s
    }
}

/// `s` without its leading and trailing whitespace.
pub open spec fn trimmed(s: Seq<char>) -> Seq<char> {
    trim_end_of(trim_start_of(s))
}

/// Whether `s` holds nothing but whitespace.
pub open spec fn is_blank(s: Seq<char>) -> bool {
    trimmed(s).len() == 0
}

/// Trailing whitespace is all that `trim_end_of` removes: what is left is
/// empty or ends otherwise, and trimming it again changes nothing.
pub proof fn lemma_trim_end_idempotent(s: Seq<char>)
    ensures
        trim_end_of(trim_end_of(s)) == trim_end_of(s),
        trim_end_of(s).len() <= s.len(),
        trim_end_of(s).len() > 0 ==> trim_end_of(s)[0] == s[0],
    decreases s.len(),
{
    if s.len() > 0 && is_whitespace(s.last()) {
        lemma_trim_end_idempotent(s.drop_last());
    }
}

/// Leading whitespace is all that `trim_start_of` removes: what is left is
/// empty or starts otherwise, and trimming it again changes nothing.
pub proof fn lemma_trim_start_idempotent(s: Seq<char>)
    ensures
        trim_start_of(trim_start_of(s)) == trim_start_of(s),
        trim_start_of(s).len() > 0 ==> !is_whitespace(trim_start_of(s)[0]),
    decreases s.len(),
{
    if s.len() > 0 && is_whitespace(s[0]) {
        lemma_trim_start_idempotent(s.drop_first());
    }
}

/// A text that neither starts nor ends with whitespace is left as it is.
pub proof fn lemma_trimmed_tight(s: Seq<char>)
    requires
        s.len() > 0 ==> !is_whitespace(s.first()) && !is_whitespace(s.last()),
    ensures
        trimmed(s) == s,
{
}

/// A text is blank exactly if all its characters are whitespace.
pub proof fn lemma_blank(s: Seq<char>)
    ensures
        is_blank(s) <==> forall|i: int| 0 <= i < s.len() ==> is_whitespace(#[trigger] s[i]),
{
    lemma_trim_start_blank(s);
    lemma_trim_end_blank(trim_start_of(s));
    lemma_trim_start_idempotent(s);
    let t = trim_start_of(s);
    if t.len() > 0 {
        assert(!is_whitespace(t[0]));
    }
}

/// `trim_start_of` leaves nothing exactly of a text that is all whitespace.
pub proof fn lemma_trim_start_blank(s: Seq<char>)
    ensures
        trim_start_of(s).len() == 0 <==> forall|i: int|
            0 <= i < s.len() ==> is_whitespace(#[trigger] s[i]),
    decreases s.len(),
{
    if s.len() > 0 && is_whitespace(s[0]) {
        let rest = s.drop_first();
        lemma_trim_start_blank(rest);
        assert forall|i: int| 0 <= i < rest.len() implies rest[i] == s[i + 1] by {}
        if forall|i: int| 0 <= i < rest.len() ==> is_whitespace(#[trigger] rest[i]) {
            assert forall|i: int| 0 <= i < s.len() implies is_whitespace(#[trigger] s[i]) by {
                if i > 0 {
                    assert(is_whitespace(rest[i - 1]));
                }
            }
        } else {
            let i = choose|i: int| 0 <= i < rest.len() && !is_whitespace(#[trigger] rest[i]);
            assert(!is_whitespace(s[i + 1]));
        }
    } else if s.len() > 0 {
        assert(!is_whitespace(s[0]));
    }
}

/// `trim_end_of` leaves nothing exactly of a text that is all whitespace.
pub proof fn lemma_trim_end_blank(s: Seq<char>)
    ensures
        trim_end_of(s).len() == 0 <==> forall|i: int|
            0 <= i < s.len() ==> is_whitespace(#[trigger] s[i]),
    decreases s.len(),
{
    if s.len() > 0 && is_whitespace(s.last()) {
        let rest = s.drop_last();
        lemma_trim_end_blank(rest);
        if forall|i: int| 0 <= i < rest.len() ==> is_whitespace(#[trigger] rest[i]) {
            assert forall|i: int| 0 <= i < s.len() implies is_whitespace(#[trigger] s[i]) by {
                if i < rest.len() {
                    assert(is_whitespace(rest[i]));
                }
            }
        } else {
            let i = choose|i: int| 0 <= i < rest.len() && !is_whitespace(#[trigger] rest[i]);
            assert(!is_whitespace(s[i]));
        }
    } else if s.len() > 0 {
        assert(!is_whitespace(s[s.len() - 1]));
    }
}

/// Trimming a trimmed text changes nothing; so what is left of a text that
/// is not blank is not blank.
pub proof fn lemma_trimmed_not_blank(s: Seq<char>)
    ensures
        trimmed(trimmed(s)) == trimmed(s),
        !is_blank(s) ==> !is_blank(trimmed(s)),
{
    lemma_trim_start_idempotent(s);
    lemma_trim_end_idempotent(trim_start_of(s));
    if trimmed(s).len() > 0 {
        assert(trim_start_of(trimmed(s)) == trimmed(s));
    }
}

/// `str::trim`: the slice that is left when leading and trailing whitespace
/// is removed, whitespace being what `char::is_whitespace` accepts. So a
/// character beyond ASCII at either end of what is left is no whitespace.
pub assume_specification[ str::trim ](s: &str) -> (r: &str)
    ensures
        r@ == trimmed(s@),
        r@.len() > 0 && r@.first() > '\u{7f}' ==> !unicode_whitespace(r@.first()),
        r@.len() > 0 && r@.last() > '\u{7f}' ==> !unicode_whitespace(r@.last()),
;

/// `char::len_utf8`: the number of bytes that the character takes in UTF-8.
pub assume_specification[ char::len_utf8 ](c: char) -> (n: usize)
    ensures
        n == char_len(c),
;

/// `String::insert`: the bytes of the character are spliced in at byte
/// position `idx`, which has to be a character boundary.
pub assume_specification[ std::string::String::insert ](
    s: &mut std::string::String,
    idx: usize,
    ch: char,
)
    requires
        on_boundary(old(s)@, idx as int),
    ensures
        encode_utf8(final(s)@) == encode_utf8(old(s)@).subrange(0, idx as int) + encode_scalar(
            ch as u32,
        ) + encode_utf8(old(s)@).subrange(idx as int, byte_len(old(s)@)),
;

/// `String::push`: the character is appended.
pub assume_specification[ std::string::String::push ](s: &mut std::string::String, ch: char)
    ensures
        final(s)@ == old(s)@.push(ch),
;

/// `String::push_str`: the characters of `other` are appended.
pub assume_specification[ std::string::String::push_str ](
    s: &mut std::string::String,
    other: &str,
)
    ensures
        final(s)@ == old(s)@ + other@,
;

/// `String::clear`: the string is emptied.
pub assume_specification[ std::string::String::clear ](s: &mut std::string::String)
    ensures
        final(s)@ == Seq::<char>::empty(),
;

/// `s` without the characters `c` that it starts with.
pub open spec fn strip_leading(s: Seq<char>, c: char) -> Seq<char>
    decreases s.len(),
{
    if s.len() > 0 && s[0] == c {
        strip_leading(s.drop_first(), c)
    } else {
        s
    }
}

/// `s` without the characters `c` that it ends with.
pub open spec fn strip_trailing(s: Seq<char>, c: char) -> Seq<char>
    decreases s.len(),
{
    if s.len() > 0 && s.last() == c {
        strip_trailing(s.drop_last(), c)
    } else {
        s
    }
}

/// Whether `pattern` occurs in `s`.
pub open spec fn has_substring(s: Seq<char>, pattern: Seq<char>) -> bool {
    exists|i: int|
        0 <= i <= s.len() - pattern.len() && #[trigger] s.subrange(i, i + pattern.len())
            == pattern
}

/// `s` with every occurrence of `from` replaced by `to`, as `str::replace`
/// gives it: occurrences are taken from the left and do not overlap.
pub uninterp spec fn replaced(s: Seq<char>, from: Seq<char>, to: Seq<char>) -> Seq<char>;

/// `str::trim_start_matches` with a character as its pattern: the slice
/// behind all leading occurrences of the character.
#[verifier::external_body]
pub(crate) fn trim_start_matches(s: &str, c: char) -> (r: &str)
    ensures
        r@ == strip_leading(s@, c),
{
    s.trim_start_matches(c)
}

/// `str::trim_end_matches` with a character as its pattern: the slice
/// before all trailing occurrences of the character.
#[verifier::external_body]
pub(crate) fn trim_end_matches(s: &str, c: char) -> (r: &str)
    ensures
        r@ == strip_trailing(s@, c),
{
    s.trim_end_matches(c)
}

/// `str::contains` with a string slice as its pattern.
#[verifier::external_body]
pub(crate) fn contains(s: &str, pattern: &str) -> (r: bool)
    ensures
        r == has_substring(s@, pattern@),
{
    s.contains(pattern)
}

/// `str::replace` with a string slice as its pattern.
#[verifier::external_body]
pub(crate) fn replace(s: &str, from: &str, to: &str) -> (r: String)
    ensures
        r@ == replaced(s@, from@, to@),
{
    s.replace(from, to)
}

/// Whether both slices hold the same characters: whether their bytes are
/// the same.
pub fn str_eq(a: &str, b: &str) -> (r: bool)
    ensures
        r == (a@ == b@),
{
    let left = a.as_bytes();
    let right = b.as_bytes();
    if left.len() != right.len() {
        return false;
    }
    let mut i: usize = 0;
    while i < left.len()
        invariant
            i <= left.len(),
            left.len() == right.len(),
            left@ == encode_utf8(a@),
            right@ == encode_utf8(b@),
            forall|j: int| 0 <= j < i ==> left@[j] == right@[j],
        decreases left.len() - i,
    {
        if left[i] != right[i] {
            return false;
        }
        i += 1;
    }
    proof {
        assert(left@ =~= right@);
        lemma_encode_injective(a@, b@);
    }
    true
}

/// `String::replace_range` on the byte range from `start` to `end`, both of
/// which have to be character boundaries: the bytes in the range give way to
/// those of `with`.
#[verifier::external_body]
pub(crate) fn replace_range(s: &mut String, start: usize, end: usize, with: &str)
    requires
        start <= end,
        on_boundary(old(s)@, start as int),
        on_boundary(old(s)@, end as int),
    ensures
        encode_utf8(final(s)@) == encode_utf8(old(s)@).subrange(0, start as int) + encode_utf8(
            with@,
        ) + encode_utf8(old(s)@).subrange(end as int, byte_len(old(s)@)),
{
    s.replace_range(start..end, with)
}

} // verus!
