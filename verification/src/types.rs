//! The two leaf fields of a record: a fixed-capacity text field and a
//! one-byte boolean.

use vstd::prelude::*;
use vstd::array::array_as_slice;
use vstd::slice::slice_subrange;
use vstd::utf8::*;

verus! {

/// The byte that one character contributes to a text field: the low eight
/// bits of its code point.
pub open spec fn low_byte(c: char) -> u8 {
    ((c as u32) % 256) as u8
}

/// The `n` bytes that hold `text`: the low byte of each of the first `n`
/// characters, in order, then zeros.
pub open spec fn encoded(text: Seq<char>, n: nat) -> Seq<u8> {
    Seq::new(n, |i: int| if i < text.len() { low_byte(text[i]) } else { 0u8 })
}

/// `k` is where the text held in `bytes` ends: at the first zero byte, or at
/// the end of the buffer when it holds none.
pub open spec fn ends_text(bytes: Seq<u8>, k: int) -> bool {
    &&& 0 <= k <= bytes.len()
    &&& forall|i: int| 0 <= i < k ==> bytes[i] != 0
    &&& k < bytes.len() ==> bytes[k] == 0
}

/// The number of bytes of text in `bytes`.
pub open spec fn text_len(bytes: Seq<u8>) -> int {
    choose|k: int| ends_text(bytes, k)
}

/// The bytes of text in `bytes`: those before the first zero byte.
pub open spec fn text_span(bytes: Seq<u8>) -> Seq<u8> {
    bytes.take(text_len(bytes))
}

/// What `String::from_utf8_lossy` makes of bytes that are not valid UTF-8.
pub uninterp spec fn utf8_lossy(bytes: Seq<u8>) -> Seq<char>;

/// The text that a span of bytes stands for: its characters where the bytes
/// are valid UTF-8, and the lossy reading of them where they are not.
pub open spec fn lossy_text(bytes: Seq<u8>) -> Seq<char> {
    if valid_utf8(bytes) {
        decode_utf8(bytes)
    } else {
        utf8_lossy(bytes)
    }
}

/// The text that a buffer decodes to.
pub open spec fn decoded(bytes: Seq<u8>) -> Seq<char> {
    lossy_text(text_span(bytes))
}

/// A character that a text field holds as itself: ASCII and not the null
/// character.
pub open spec fn is_plain(c: char) -> bool {
    '\u{1}' <= c <= '\u{7f}'
}

/// From any place that no zero byte comes before, the text ends somewhere.
proof fn lemma_text_ends_from(bytes: Seq<u8>, k: int)
    requires
        0 <= k <= bytes.len(),
        forall|i: int| 0 <= i < k ==> bytes[i] != 0,
    ensures
        exists|j: int| ends_text(bytes, j),
    decreases bytes.len() - k,
{
    if k < bytes.len() && bytes[k] != 0 {
        lemma_text_ends_from(bytes, k + 1);
    } else {
        assert(ends_text(bytes, k));
    }
}

/// Every buffer holds a text, which ends within the buffer: its length is
/// never more than the buffer's.
pub proof fn lemma_text_len_bounded(bytes: Seq<u8>)
    ensures
        ends_text(bytes, text_len(bytes)),
        0 <= text_len(bytes) <= bytes.len(),
{
    lemma_text_ends_from(bytes, 0);
}

/// The end of the text is unique, so any `k` that ends it is its length.
pub proof fn lemma_text_len(bytes: Seq<u8>, k: int)
    requires
        ends_text(bytes, k),
    ensures
        text_len(bytes) == k,
{
    let found = text_len(bytes);
    assert(ends_text(bytes, found));
    if found < k {
        assert(bytes[found] != 0);
    } else if k < found {
        assert(bytes[k] != 0);
    }
}

/// Wraps `String::from_utf8_lossy`. Trusted: on valid UTF-8 the result holds
/// the characters that the bytes encode; on other bytes it is a function of
/// the bytes alone, which this crate names and does not spell out.
#[verifier::external_body]
fn string_from_utf8_lossy(bytes: &[u8]) -> (text: String)
    ensures
        valid_utf8(bytes@) ==> text@ == decode_utf8(bytes@),
        !valid_utf8(bytes@) ==> text@ == utf8_lossy(bytes@),
{
    String::from_utf8_lossy(bytes).into_owned()
}

/// Wraps zerocopy's `AsBytes::as_bytes` on a `bool`. Trusted: a `bool` is one
/// byte, 1 for `true` and 0 for `false`.
#[verifier::external_body]
fn bool_as_byte(flag: bool) -> (byte: u8)
    ensures
        byte == flag_byte(flag),
{
    zerocopy::AsBytes::as_bytes(&flag)[0]
}

/// The low eight bits of a character's code point.
fn char_low_byte(c: char) -> (byte: u8)
    ensures
        byte == low_byte(c),
{
    ((c as u32) % 256) as u8
}

/// A text field of exactly `N` bytes.
#[derive(Clone, Copy, Debug, PartialEq, Eq)]
pub struct CharArray<const N: usize>([u8; N]);

impl<const N: usize> View for CharArray<N> {
    type V = Seq<u8>;

    closed spec fn view(&self) -> Seq<u8> {
        self.0@
    }
}

impl<const N: usize> CharArray<N> {
    /// A field always holds `N` bytes.
    pub proof fn lemma_len(self)
        ensures
            self@.len() == N,
    {
    }

    /// Encodes `text`. At most `N` characters are taken; the flag tells
    /// whether any were left out.
    pub fn encode(text: &str) -> (r: (Self, bool))
        ensures
            r.0@ == encoded(text@, N as nat),
            r.1 == (text@.len() > N),
    {
        let len: usize = text.unicode_len();
        let mut buf: [u8; N] = [0u8; N];
        let mut i: usize = 0;
        while i < N && i < len
            invariant
                i <= N,
                i <= len,
                len == text@.len(),
                buf@.len() == N,
                forall|j: int| 0 <= j < i ==> buf@[j] == low_byte(text@[j]),
                forall|j: int| i <= j < N ==> buf@[j] == 0u8,
            decreases N - i,
        {
            let c = text.get_char(i);
            buf[i] = char_low_byte(c);
            i += 1;
        }
        assert(buf@ =~= encoded(text@, N as nat));
        (CharArray(buf), len > N)
    }

    /// Tells whether the field holds `text` without loss: the text fits and
    /// all its characters are plain. Such a text decodes to itself.
    pub fn holds_exactly(text: &str) -> (ok: bool)
        ensures
            ok == (text@.len() <= N && forall|i: int|
                0 <= i < text@.len() ==> is_plain(#[trigger] text@[i])),
            ok ==> decoded(encoded(text@, N as nat)) == text@,
    {
        let len: usize = text.unicode_len();
        if len > N {
            return false;
        }
        let mut i: usize = 0;
        while i < len
            invariant
                i <= len,
                len == text@.len(),
                forall|j: int| 0 <= j < i ==> is_plain(#[trigger] text@[j]),
            decreases len - i,
        {
            let c = text.get_char(i);
            if c < '\u{1}' || c > '\u{7f}' {
                assert(!is_plain(text@[i as int]));
                return false;
            }
            i += 1;
        }
        proof {
            lemma_round_trip_when_fits(text@, N as nat);
        }
        true
    }

    /// The field over the given bytes, taken as they are.
    pub fn from_array(bytes: [u8; N]) -> (r: Self)
        ensures
            r@ == bytes@,
    {
        CharArray(bytes)
    }

    /// The field's `N` bytes.
    pub fn as_array(&self) -> (bytes: [u8; N])
        ensures
            bytes@ == self@,
    {
        self.0
    }

    /// Reads a field from the `N` bytes of `bytes` that start at `at`.
    pub(crate) fn read(bytes: &[u8], at: usize) -> (r: Self)
        requires
            at + N <= bytes@.len(),
        ensures
            r@ == bytes@.subrange(at as int, at + N),
    {
        let total: usize = bytes.len();
        let mut buf: [u8; N] = [0u8; N];
        let mut i: usize = 0;
        while i < N
            invariant
                i <= N,
                at + N <= total == bytes@.len(),
                buf@.len() == N,
                forall|j: int| 0 <= j < i ==> buf@[j] == bytes@[at + j],
            decreases N - i,
        {
            buf[i] = bytes[at + i];
            i += 1;
        }
        assert(buf@ =~= bytes@.subrange(at as int, at + N));
        CharArray(buf)
    }

    /// Appends the field's `N` bytes to `out`.
    pub(crate) fn write(&self, out: &mut Vec<u8>)
        ensures
            final(out)@ == old(out)@ + self@,
    {
        out.extend_from_slice(array_as_slice(&self.0));
    }

    /// The length of the text: the place of the first zero byte, or `N`.
    pub fn len(&self) -> (k: usize)
        ensures
            k == text_len(self@),
            k <= N,
    {
        let mut k: usize = 0;
        while k < N && self.0[k] != 0
            invariant
                k <= N,
                self.0@.len() == N,
                forall|i: int| 0 <= i < k ==> self.0@[i] != 0,
            decreases N - k,
        {
            k += 1;
        }
        proof {
            lemma_text_len(self@, k as int);
        }
        k
    }

    /// Decodes the field: the bytes before the first zero byte, read as text.
    pub fn decode(&self) -> (text: String)
        ensures
            text@ == decoded(self@),
    {
        let k = self.len();
        let span = slice_subrange(array_as_slice(&self.0), 0, k);
        string_from_utf8_lossy(span)
    }
}

/// The number of characters of `text` that a field of `n` bytes takes.
pub open spec fn taken(text: Seq<char>, n: nat) -> int {
    if text.len() <= n { text.len() as int } else { n as int }
}

/// Where none of the characters taken has a zero low byte, the text in the
/// buffer is the low bytes of exactly those characters.
pub proof fn lemma_span_of_encoded(text: Seq<char>, n: nat)
    requires
        forall|i: int| 0 <= i < taken(text, n) ==> low_byte(#[trigger] text[i]) != 0,
    ensures
        text_span(encoded(text, n)) == Seq::new(
            taken(text, n) as nat,
            |i: int| low_byte(text[i]),
        ),
{
    let bytes = encoded(text, n);
    let k = taken(text, n);
    assert forall|i: int| 0 <= i < k implies bytes[i] != 0 by {
        assert(bytes[i] == low_byte(text[i]));
    }
    lemma_text_len(bytes, k);
    assert(text_span(bytes) =~= Seq::new(k as nat, |i: int| low_byte(text[i])));
}

/// Where the characters taken are plain, decoding the encoded text gives
/// those characters back: the first `n` of them, or all where there are
/// fewer.
pub proof fn lemma_decode_encoded(text: Seq<char>, n: nat)
    requires
        forall|i: int| 0 <= i < taken(text, n) ==> is_plain(#[trigger] text[i]),
    ensures
        decoded(encoded(text, n)) == text.take(taken(text, n)),
{
    let k = taken(text, n);
    let kept = text.take(k);
    assert forall|i: int| 0 <= i < k implies low_byte(#[trigger] text[i]) != 0 by {
        assert(is_plain(text[i]));
    }
    lemma_span_of_encoded(text, n);
    let span = text_span(encoded(text, n));
    assert(is_ascii_chars(kept)) by {
        assert forall|i: int| 0 <= i < kept.len() implies '\0' <= #[trigger] kept[i] <= '\u{7f}' by {
            assert(is_plain(text[i]));
        }
    }
    is_ascii_chars_encode_utf8(kept);
    assert(span =~= encode_utf8(kept)) by {
        assert forall|i: int| 0 <= i < k implies span[i] == encode_utf8(kept)[i] by {
            assert(is_plain(text[i]));
            assert(kept[i] as u8 == encode_utf8(kept)[i]);
        }
    }
    encode_utf8_valid_utf8(kept);
    encode_utf8_decode_utf8(kept);
}

/// A text of plain characters that fits the field survives encoding and
/// decoding unchanged.
pub proof fn lemma_round_trip_when_fits(text: Seq<char>, n: nat)
    requires
        text.len() <= n,
        forall|i: int| 0 <= i < text.len() ==> is_plain(#[trigger] text[i]),
    ensures
        decoded(encoded(text, n)) == text,
{
    lemma_decode_encoded(text, n);
    assert(text.take(text.len() as int) =~= text);
}

/// A text longer than the field, whose first `n` characters are plain, comes
/// back cut to those `n` characters.
pub proof fn lemma_round_trip_when_too_long(text: Seq<char>, n: nat)
    requires
        text.len() > n,
        forall|i: int| 0 <= i < n ==> is_plain(#[trigger] text[i]),
    ensures
        decoded(encoded(text, n)) == text.take(n as int),
{
    lemma_decode_encoded(text, n);
}

/// The byte of a flag: 1 for `true`, 0 for `false`.
pub open spec fn flag_byte(flag: bool) -> u8 {
    if flag { 1u8 } else { 0u8 }
}

/// The flag of a byte: `false` for 0, `true` for every other byte.
pub open spec fn byte_flag(byte: u8) -> bool {
    byte != 0
}

/// A boolean held in one byte.
#[derive(Clone, Copy, Debug, PartialEq, Eq)]
pub struct Bool(u8);

impl View for Bool {
    type V = u8;

    closed spec fn view(&self) -> u8 {
        self.0
    }
}

impl Bool {
    /// Encodes a flag as 1 or 0.
    pub fn encode(flag: bool) -> (r: Self)
        ensures
            r@ == flag_byte(flag),
    {
        Bool(bool_as_byte(flag))
    }

    /// Decodes the byte: only 0 is `false`.
    pub fn decode(&self) -> (flag: bool)
        ensures
            flag == byte_flag(self@),
    {
        self.0 != 0
    }

    /// The boolean over the given byte, taken as it is.
    pub fn from_byte(byte: u8) -> (r: Self)
        ensures
            r@ == byte,
    {
        Bool(byte)
    }

    /// The byte held.
    pub fn byte(&self) -> (byte: u8)
        ensures
            byte == self@,
    {
        self.0
    }
}

/// Decoding undoes encoding for both flags.
pub proof fn lemma_flag_round_trip(flag: bool)
    ensures
        byte_flag(flag_byte(flag)) == flag,
{
}

/// Every byte but 0 decodes to `true`, so 0 and 1 are the only bytes that
/// encoding gives back; every other byte comes back as 1.
pub proof fn lemma_byte_round_trip(byte: u8)
    ensures
        byte != 0 ==> byte_flag(byte),
        flag_byte(byte_flag(byte)) == byte <==> (byte == 0 || byte == 1),
        byte >= 2 ==> flag_byte(byte_flag(byte)) == 1,
{
}

} // verus!
