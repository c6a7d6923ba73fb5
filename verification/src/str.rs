//! Host string construction from UTF-8 text.
//!
//! The host stores a string with a fixed number of bytes per character, so a
//! text is classified by the widest code point it holds before its units are
//! written out.

use vstd::prelude::*;
use vstd::std_specs::iter::IteratorSpec;
use vstd::string::*;
use vstd::utf8::*;

verus! {

broadcast use vstd::string::group_string_axioms;

/// A string in the host's representation: a fixed-width unit per character.
#[derive(Clone, Debug, PartialEq, Eq)]
pub enum HostString {
    /// The shared empty string.
    Empty,
    /// One byte per character, every character below U+0080.
    Ascii(Vec<u8>),
    /// One byte per character, every character at most U+00FF.
    OneByte(Vec<u8>),
    /// Two bytes per character, every character at most U+FFFF.
    TwoByte(Vec<u16>),
    /// Four bytes per character.
    FourByte(Vec<u32>),
}

/// What a [`HostString`] holds, as sequences of units.
pub enum HostStringView {
    Empty,
    Ascii(Seq<u8>),
    OneByte(Seq<u8>),
    TwoByte(Seq<u16>),
    FourByte(Seq<u32>),
}

impl View for HostString {
    type V = HostStringView;

    open spec fn view(&self) -> HostStringView {
        match self {
            HostString::Empty => HostStringView::Empty,
            HostString::Ascii(v) => HostStringView::Ascii(v@),
            HostString::OneByte(v) => HostStringView::OneByte(v@),
            HostString::TwoByte(v) => HostStringView::TwoByte(v@),
            HostString::FourByte(v) => HostStringView::FourByte(v@),
        }
    }
}

impl HostStringView {
    /// The code point stored in each unit, in order.
    pub open spec fn code_points(self) -> Seq<u32> {
        match self {
            HostStringView::Empty => Seq::empty(),
            HostStringView::Ascii(s) => Seq::new(s.len(), |i: int| s[i] as u32),
            HostStringView::OneByte(s) => Seq::new(s.len(), |i: int| s[i] as u32),
            HostStringView::TwoByte(s) => Seq::new(s.len(), |i: int| s[i] as u32),
            HostStringView::FourByte(s) => s,
        }
    }

    /// The characters read back from the units.
    pub open spec fn chars(self) -> Seq<char> {
        let cps = self.code_points();
        Seq::new(cps.len(), |i: int| cps[i] as char)
    }

    /// Bytes taken by one unit.
    pub open spec fn unit_width(self) -> nat {
        match self {
            HostStringView::Empty => 1,
            HostStringView::Ascii(_) => 1,
            HostStringView::OneByte(_) => 1,
            HostStringView::TwoByte(_) => 2,
            HostStringView::FourByte(_) => 4,
        }
    }

    /// Bytes taken by all units together.
    pub open spec fn byte_len(self) -> nat {
        self.code_points().len() * self.unit_width()
    }

    /// The largest code point that the representation can hold.
    pub open spec fn max_char(self) -> u32 {
        match self {
            HostStringView::Empty => 0xFF,
            HostStringView::Ascii(_) => 0x7F,
            HostStringView::OneByte(_) => 0xFF,
            HostStringView::TwoByte(_) => 0xFFFF,
            HostStringView::FourByte(_) => 0x10FFFF,
        }
    }
}

/// Every character of `chars` is at most `bound`.
pub open spec fn fits(chars: Seq<char>, bound: u32) -> bool {
    forall|i: int| 0 <= i < chars.len() ==> chars[i] as u32 <= bound
}

/// Every byte of `bytes` is at most `bound`.
pub open spec fn bytes_within(bytes: Seq<u8>, bound: u8) -> bool {
    forall|i: int| 0 <= i < bytes.len() ==> bytes[i] <= bound
}

/// The low eight bits of each character.
pub open spec fn narrow8(chars: Seq<char>) -> Seq<u8> {
    Seq::new(chars.len(), |i: int| chars[i] as u8)
}

/// The low sixteen bits of each character.
pub open spec fn narrow16(chars: Seq<char>) -> Seq<u16> {
    Seq::new(chars.len(), |i: int| chars[i] as u16)
}

/// Each character as its code point.
pub open spec fn widen32(chars: Seq<char>) -> Seq<u32> {
    Seq::new(chars.len(), |i: int| chars[i] as u32)
}

/// The representation chosen for text that is known not to be pure ASCII:
/// the narrowest of one, two and four bytes per character that holds its
/// widest code point.
pub open spec fn scalar_host_string_of(chars: Seq<char>) -> HostStringView {
    if fits(chars, 0xFF) {
        HostStringView::OneByte(narrow8(chars))
    } else if fits(chars, 0xFFFF) {
        HostStringView::TwoByte(narrow16(chars))
    } else {
        HostStringView::FourByte(widen32(chars))
    }
}

/// The host representation of a text: the shared empty string, the ASCII form
/// for pure ASCII, else the narrowest form that holds the widest code point.
pub open spec fn host_string_of(chars: Seq<char>) -> HostStringView {
    if chars.len() == 0 {
        HostStringView::Empty
    } else if fits(chars, 0x7F) {
        HostStringView::Ascii(narrow8(chars))
    } else {
        scalar_host_string_of(chars)
    }
}

proof fn lemma_width_1_bytes(c: u32)
    by (bit_vector)
    requires
        has_width_1_encoding(c),
    ensures
        leading_byte_width_1(c) <= 0x7F,
{
}

proof fn lemma_width_2_bytes(c: u32)
    by (bit_vector)
    requires
        has_width_2_encoding(c),
    ensures
        leading_byte_width_2(c) <= 0xDF,
        leading_byte_width_2(c) <= 0xC3 <==> c <= 0xFF,
        last_continuation_byte(c) <= 0xBF,
{
}

proof fn lemma_width_3_bytes(c: u32)
    by (bit_vector)
    requires
        has_width_3_encoding(c),
    ensures
        0xE0 <= leading_byte_width_3(c) <= 0xEF,
        second_last_continuation_byte(c) <= 0xBF,
        last_continuation_byte(c) <= 0xBF,
{
}

proof fn lemma_width_4_bytes(c: u32)
    by (bit_vector)
    requires
        has_width_4_encoding(c),
    ensures
        0xF0 <= leading_byte_width_4(c),
{
}

/// How the bytes of one encoded scalar reflect its magnitude.
proof fn lemma_scalar_encoding_bounds(c: u32)
    requires
        is_scalar(c),
    ensures
        encode_scalar(c).len() >= 1,
        encode_scalar(c).len() == 1 <==> c <= 0x7F,
        bytes_within(encode_scalar(c), 239) <==> c <= 0xFFFF,
        bytes_within(encode_scalar(c), 195) <==> c <= 0xFF,
{
    let b = encode_scalar(c);
    if has_width_1_encoding(c) {
        lemma_width_1_bytes(c);
    } else if has_width_2_encoding(c) {
        lemma_width_2_bytes(c);
        if c > 0xFF {
            assert(b[0] > 195);
        }
    } else if has_width_3_encoding(c) {
        lemma_width_3_bytes(c);
        assert(b[0] > 195);
    } else {
        lemma_width_4_bytes(c);
        assert(b[0] > 239);
    }
}

/// How the bytes of an encoded text reflect the magnitude of its characters:
/// its length equals the number of characters exactly for pure ASCII, a byte
/// above 239 occurs exactly when a character lies above U+FFFF, and a byte
/// above 195 exactly when one lies above U+00FF.
pub proof fn lemma_encoding_bounds(chars: Seq<char>)
    ensures
        encode_utf8(chars).len() >= chars.len(),
        encode_utf8(chars).len() == chars.len() <==> fits(chars, 0x7F),
        bytes_within(encode_utf8(chars), 239) <==> fits(chars, 0xFFFF),
        bytes_within(encode_utf8(chars), 195) <==> fits(chars, 0xFF),
    decreases chars.len(),
{
    if chars.len() > 0 {
        let c = chars[0] as u32;
        let head = encode_scalar(c);
        let rest = chars.drop_first();
        let tail = encode_utf8(rest);
        let bytes = encode_utf8(chars);
        char_is_scalar(chars[0]);
        lemma_scalar_encoding_bounds(c);
        lemma_encoding_bounds(rest);
        assert(bytes == head + tail);
        lemma_fits_split(chars, 0x7F);
        lemma_fits_split(chars, 0xFF);
        lemma_fits_split(chars, 0xFFFF);
        lemma_bytes_within_concat(head, tail, 239);
        lemma_bytes_within_concat(head, tail, 195);
    }
}

proof fn lemma_fits_split(chars: Seq<char>, bound: u32)
    requires
        chars.len() > 0,
    ensures
        fits(chars, bound) <==> chars[0] as u32 <= bound && fits(chars.drop_first(), bound),
{
    let rest = chars.drop_first();
    if chars[0] as u32 <= bound && fits(rest, bound) {
        assert forall|i: int| 0 <= i < chars.len() implies chars[i] as u32 <= bound by {
            if i > 0 {
                assert(chars[i] == rest[i - 1]);
            }
        }
    }
    if fits(chars, bound) {
        assert forall|i: int| 0 <= i < rest.len() implies rest[i] as u32 <= bound by {
            assert(rest[i] == chars[i + 1]);
        }
    }
}

proof fn lemma_bytes_within_concat(a: Seq<u8>, b: Seq<u8>, bound: u8)
    ensures
        bytes_within(a + b, bound) <==> bytes_within(a, bound) && bytes_within(b, bound),
{
    let ab = a + b;
    if bytes_within(ab, bound) {
        assert forall|i: int| 0 <= i < a.len() implies a[i] <= bound by {
            assert(ab[i] == a[i]);
        }
        assert forall|i: int| 0 <= i < b.len() implies b[i] <= bound by {
            assert(ab[a.len() + i] == b[i]);
        }
    }
}


/// Counts the characters of UTF-8 text by calling `bytecount::num_chars`.
///
/// Trusted: the count never exceeds the number of bytes, and for well-formed
/// UTF-8 it is the number of encoded characters.
#[verifier::external_body]
fn num_chars(utf8_chars: &[u8]) -> (n: usize)
    ensures
        n <= utf8_chars@.len(),
        valid_utf8(utf8_chars@) ==> n == decode_utf8(utf8_chars@).len(),
{
    bytecount::num_chars(utf8_chars)
}

fn any_byte_above(bytes: &[u8], bound: u8) -> (found: bool)
    ensures
        found <==> !bytes_within(bytes@, bound),
{
    let mut i: usize = 0;
    while i < bytes.len()
        invariant
            i <= bytes@.len(),
            forall|j: int| 0 <= j < i ==> bytes@[j] <= bound,
        decreases bytes@.len() - i,
    {
        if bytes[i] > bound {
            return true;
        }
        i += 1;
    }
    false
}

impl HostString {
    /// The largest code point that the representation can hold.
    pub fn max_char(&self) -> (m: u32)
        ensures
            m == self@.max_char(),
    {
        match self {
            HostString::Empty => 0xFF,
            HostString::Ascii(_) => 0x7F,
            HostString::OneByte(_) => 0xFF,
            HostString::TwoByte(_) => 0xFFFF,
            HostString::FourByte(_) => 0x10FFFF,
        }
    }
}

/// Builds the ASCII form from the first `num_chars` bytes of `buf`, copied
/// verbatim.
pub fn pyunicode_ascii(buf: &[u8], num_chars: usize) -> (s: HostString)
    requires
        num_chars <= buf@.len(),
    ensures
        s@ == HostStringView::Ascii(buf@.subrange(0, num_chars as int)),
{
    let mut units: Vec<u8> = Vec::with_capacity(num_chars);
    let mut i: usize = 0;
    while i < num_chars
        invariant
            i <= num_chars <= buf@.len(),
            units@ == buf@.subrange(0, i as int),
        decreases num_chars - i,
    {
        units.push(buf[i]);
        i += 1;
    }
    HostString::Ascii(units)
}

/// Builds the one-byte form: each character of `buf` narrowed to its low
/// eight bits.
pub fn pyunicode_onebyte(buf: &str, num_chars: usize) -> (s: HostString)
    requires
        num_chars == buf@.len(),
    ensures
        s@ == HostStringView::OneByte(narrow8(buf@)),
{
    let mut units: Vec<u8> = Vec::with_capacity(num_chars);
    let chars = buf.chars();
    for each in it: chars
        invariant
            it.seq() == buf@,
            units@.len() == it.index(),
            forall|i: int| 0 <= i < units@.len() ==> units@[i] == buf@[i] as u8,
    {
        units.push(#[verifier::truncate] (each as u8));
    }
    assert(units@ == narrow8(buf@));
    HostString::OneByte(units)
}

/// Builds the two-byte form: each character of `buf` narrowed to its low
/// sixteen bits.
pub fn pyunicode_twobyte(buf: &str, num_chars: usize) -> (s: HostString)
    requires
        num_chars == buf@.len(),
    ensures
        s@ == HostStringView::TwoByte(narrow16(buf@)),
{
    let mut units: Vec<u16> = Vec::with_capacity(num_chars);
    let chars = buf.chars();
    for each in it: chars
        invariant
            it.seq() == buf@,
            units@.len() == it.index(),
            forall|i: int| 0 <= i < units@.len() ==> units@[i] == buf@[i] as u16,
    {
        units.push(#[verifier::truncate] (each as u16));
    }
    assert(units@ == narrow16(buf@));
    HostString::TwoByte(units)
}

/// Builds the four-byte form: each character of `buf` as its code point.
pub fn pyunicode_fourbyte(buf: &str, num_chars: usize) -> (s: HostString)
    requires
        num_chars == buf@.len(),
    ensures
        s@ == HostStringView::FourByte(widen32(buf@)),
{
    let mut units: Vec<u32> = Vec::with_capacity(num_chars);
    let chars = buf.chars();
    for each in it: chars
        invariant
            it.seq() == buf@,
            units@.len() == it.index(),
            forall|i: int| 0 <= i < units@.len() ==> units@[i] == buf@[i] as u32,
    {
        units.push(each as u32);
    }
    assert(units@ == widen32(buf@));
    HostString::FourByte(units)
}

/// Chooses the representation of non-empty text by its widest code point,
/// found by scanning the encoded bytes, and builds it.
pub fn str_impl_kind_scalar(buf: &str, num_chars: usize) -> (s: HostString)
    requires
        buf@.len() > 0,
        num_chars == buf@.len(),
    ensures
        s@ == scalar_host_string_of(buf@),
{
    let bytes = buf.as_bytes();
    proof {
        lemma_encoding_bounds(buf@);
    }
    if bytes[0] > 239 {
        return pyunicode_fourbyte(buf, num_chars);
    }
    if any_byte_above(bytes, 239) {
        pyunicode_fourbyte(buf, num_chars)
    } else if any_byte_above(bytes, 195) {
        pyunicode_twobyte(buf, num_chars)
    } else {
        pyunicode_onebyte(buf, num_chars)
    }
}

/// Builds the host representation of `buf`.
pub fn unicode_from_str(buf: &str) -> (s: HostString)
    ensures
        s@ == host_string_of(buf@),
{
    if buf.is_empty() {
        return HostString::Empty;
    }
    let bytes = buf.as_bytes();
    let num_chars = num_chars(bytes);
    proof {
        lemma_encoding_bounds(buf@);
        encode_utf8_valid_utf8(buf@);
        encode_utf8_decode_utf8(buf@);
    }
    if bytes.len() == num_chars {
        proof {
            assert forall|i: int| 0 <= i < buf@.len() implies '\0' <= #[trigger] buf@[i]
                <= '\u{7f}' by {
                lemma_char_casts(buf@[i]);
            }
            is_ascii_chars_encode_utf8(buf@);
            assert(bytes@.subrange(0, num_chars as int) == narrow8(buf@));
        }
        pyunicode_ascii(bytes, num_chars)
    } else {
        str_impl_kind_scalar(buf, num_chars)
    }
}

proof fn lemma_char_casts(c: char)
    ensures
        c as u32 <= 0xFF ==> (c as u8) as u32 == c as u32,
        c as u32 <= 0xFFFF ==> (c as u16) as u32 == c as u32,
        (c as u32) as char == c,
        c as u32 <= 0x7F ==> '\0' <= c <= '\u{7f}',
{
}

/// Reading the host string of a text back gives that text, unit by unit, so
/// that encoding what was read as UTF-8 gives the bytes of that text.
pub proof fn lemma_host_string_round_trip(chars: Seq<char>)
    ensures
        host_string_of(chars).code_points() == widen32(chars),
        host_string_of(chars).chars() == chars,
        encode_utf8(host_string_of(chars).chars()) == encode_utf8(chars),
{
    let h = host_string_of(chars);
    assert forall|i: int| 0 <= i < chars.len() implies #[trigger] h.code_points()[i]
        == chars[i] as u32 by {
        lemma_char_casts(chars[i]);
    }
    assert(h.code_points() =~= widen32(chars));
    assert forall|i: int| 0 <= i < chars.len() implies #[trigger] h.chars()[i] == chars[i] by {
        lemma_char_casts(chars[i]);
    }
    assert(h.chars() =~= chars);
}

/// The host string of a text holds one unit per character, every character
/// fits the chosen unit, and no narrower representation would hold them all.
pub proof fn lemma_host_string_is_narrowest(chars: Seq<char>)
    ensures
        host_string_of(chars).code_points().len() == chars.len(),
        host_string_of(chars).byte_len() == chars.len() * host_string_of(chars).unit_width(),
        fits(chars, host_string_of(chars).max_char()),
        host_string_of(chars) is Empty <==> chars.len() == 0,
        host_string_of(chars) is OneByte ==> !fits(chars, 0x7F),
        host_string_of(chars) is TwoByte ==> !fits(chars, 0xFF),
        host_string_of(chars) is FourByte ==> !fits(chars, 0xFFFF),
{
    lemma_host_string_round_trip(chars);
}

} // verus!
