//! Character-level helpers shared by the backends: decimal rendering, the
//! `SPEAKER_NN` label vocabulary, UTF-8 byte offsets, and trimming.

use vstd::prelude::*;
use vstd::utf8::*;

verus! {

/// The ASCII digit for `d`, for `d < 10`.
pub open spec fn digit_char(d: nat) -> char {
    (48 + d) as char
}

/// The decimal rendering of `n`, most significant digit first, without
/// leading zeros.
pub open spec fn decimal(n: nat) -> Seq<char>
    decreases n,
{
    if n < 10 {
        seq![digit_char(n)]
    } else {
        decimal(n / 10).push(digit_char(n % 10))
    }
}

/// `digits` left-padded with `'0'` to a width of at least two.
pub open spec fn pad_two(digits: Seq<char>) -> Seq<char> {
    if digits.len() < 2 {
        seq!['0'].add(digits)
    } else {
        digits
    }
}

/// The characters of `SPEAKER_`.
pub open spec fn speaker_prefix() -> Seq<char> {
    seq!['S', 'P', 'E', 'A', 'K', 'E', 'R', '_']
}

/// The label for speaker `index`: `SPEAKER_` followed by the index in
/// decimal, zero-padded to two digits.
pub open spec fn speaker_label_spec(index: nat) -> Seq<char> {
    speaker_prefix() + pad_two(decimal(index))
}

/// Appends `c` to `s`.
///
/// Calls `String::push`, which std documents as appending the given char to
/// the end of the string.
#[verifier::external_body]
pub(crate) fn push_char(s: &mut String, c: char)
    ensures
        final(s)@ == old(s)@.push(c),
{
    s.push(c);
}

/// Appends the decimal rendering of `n` to `s`.
pub fn push_decimal(s: &mut String, n: u64)
    ensures
        final(s)@ == old(s)@ + decimal(n as nat),
    decreases n,
{
    if n >= 10 {
        push_decimal(s, n / 10);
    }
    let d: u8 = (n % 10) as u8;
    let c: char = (48u8 + d) as char;
    push_char(s, c);
    assert(s@ =~= old(s)@ + decimal(n as nat));
}

/// The `SPEAKER_NN` label for a provider's integer speaker index.
pub fn format_speaker_label(index: u64) -> (label: String)
    ensures
        label@ == speaker_label_spec(index as nat),
{
    let mut label = String::new();
    push_char(&mut label, 'S');
    push_char(&mut label, 'P');
    push_char(&mut label, 'E');
    push_char(&mut label, 'A');
    push_char(&mut label, 'K');
    push_char(&mut label, 'E');
    push_char(&mut label, 'R');
    push_char(&mut label, '_');
    assert(label@ =~= speaker_prefix());
    if index < 10 {
        push_char(&mut label, '0');
    }
    push_decimal(&mut label, index);
    proof {
        let d = decimal(index as nat);
        assert(d.len() == 1 <==> index < 10) by {
            if index >= 10 {
                lemma_decimal_len_pos((index / 10) as nat);
            }
        }
        if index < 10 {
            assert(label@ =~= speaker_prefix() + seq!['0'].add(d));
        } else {
            assert(label@ =~= speaker_prefix() + d);
        }
    }
    label
}

/// Every decimal rendering has at least one digit.
pub proof fn lemma_decimal_len_pos(n: nat)
    ensures
        decimal(n).len() >= 1,
    decreases n,
{
    if n >= 10 {
        lemma_decimal_len_pos(n / 10);
    }
}

/// The number a string of decimal digits stands for.
pub open spec fn digits_value(s: Seq<char>) -> int
    decreases s.len(),
{
    if s.len() == 0 {
        0
    } else {
        digits_value(s.drop_last()) * 10 + (s.last() as int - 48)
    }
}

/// A decimal rendering stands for the number it renders.
pub proof fn lemma_decimal_value(n: nat)
    ensures
        digits_value(decimal(n)) == n,
        decimal(n).len() >= 1,
    decreases n,
{
    if n >= 10 {
        lemma_decimal_value(n / 10);
        assert(decimal(n).drop_last() == decimal(n / 10));
        assert(decimal(n).last() == digit_char(n % 10));
        assert((digit_char(n % 10) as int) == 48 + n % 10);
        assert((n / 10) * 10 + n % 10 == n);
        assert(digits_value(decimal(n)) == digits_value(decimal(n / 10)) * 10 + (decimal(n).last() as int - 48));
    } else {
        assert(seq![digit_char(n)].drop_last() =~= Seq::<char>::empty());
        assert(digits_value(Seq::<char>::empty()) == 0);
        assert((digit_char(n) as int) == 48 + n);
    }
}

/// Padding with a leading zero keeps the number a rendering stands for.
pub proof fn lemma_pad_two_value(n: nat)
    ensures
        digits_value(pad_two(decimal(n))) == n,
{
    lemma_decimal_value(n);
    let d = decimal(n);
    if d.len() < 2 {
        let p = seq!['0'].add(d);
        assert(p.drop_last() =~= seq!['0']);
        assert(seq!['0'].drop_last() =~= Seq::<char>::empty());
        assert(d.drop_last() =~= Seq::<char>::empty());
        assert(('0' as int) == 48);
        assert(digits_value(Seq::<char>::empty()) == 0);
        assert(digits_value(seq!['0']) == 0);
        assert(p.last() == d.last());
        assert(digits_value(d) == d.last() as int - 48);
    }
}

/// Different speakers get different labels: the label of a speaker index
/// names that index and no other.
pub proof fn lemma_speaker_labels_distinct(i: nat, j: nat)
    requires
        i != j,
    ensures
        speaker_label_spec(i) != speaker_label_spec(j),
{
    lemma_pad_two_value(i);
    lemma_pad_two_value(j);
    if speaker_label_spec(i) == speaker_label_spec(j) {
        assert(speaker_label_spec(i).skip(8) =~= pad_two(decimal(i)));
        assert(speaker_label_spec(j).skip(8) =~= pad_two(decimal(j)));
    }
}

/// The label given to speaker `i` is `SPEAKER_` followed by digits that
/// stand for `i` itself, so different speakers keep different labels.
pub proof fn lemma_speaker_label_names_index(i: nat)
    ensures
        speaker_label_spec(i).take(8) == speaker_prefix(),
        digits_value(speaker_label_spec(i).skip(8)) == i,
{
    lemma_pad_two_value(i);
    assert(speaker_label_spec(i).take(8) =~= speaker_prefix());
    assert(speaker_label_spec(i).skip(8) =~= pad_two(decimal(i)));
}

/// Number of bytes in the UTF-8 encoding of `s`: what `str::len` reports.
pub open spec fn utf8_len(s: Seq<char>) -> nat {
    encode_utf8(s).len()
}

/// The byte offset at which character `i` of `s` begins; for `i == s.len()`,
/// the byte length of `s`.
pub open spec fn byte_offset(s: Seq<char>, i: int) -> nat {
    encode_utf8(s.take(i)).len()
}

/// Encoding distributes over concatenation.
pub proof fn lemma_encode_utf8_concat(a: Seq<char>, b: Seq<char>)
    ensures
        encode_utf8(a + b) == encode_utf8(a) + encode_utf8(b),
    decreases a.len(),
{
    if a.len() == 0 {
        assert(a + b =~= b);
        assert(encode_utf8(a) + encode_utf8(b) =~= encode_utf8(b));
    } else {
        lemma_encode_utf8_concat(a.drop_first(), b);
        assert((a + b).drop_first() =~= a.drop_first() + b);
        assert(encode_utf8(a + b) =~= encode_scalar(a[0] as u32) + encode_utf8(a.drop_first() + b));
    }
}

/// Every character takes between one and four bytes.
pub proof fn lemma_encode_scalar_len(c: char)
    ensures
        1 <= encode_scalar(c as u32).len() <= 4,
{
    char_is_scalar(c);
}

/// The byte offset of character `i + 1` is that of character `i` plus the
/// width of character `i`.
pub proof fn lemma_byte_offset_step(s: Seq<char>, i: int)
    requires
        0 <= i < s.len(),
    ensures
        byte_offset(s, i + 1) == byte_offset(s, i) + encode_scalar(s[i] as u32).len(),
{
    assert(s.take(i + 1) =~= s.take(i) + seq![s[i]]);
    lemma_encode_utf8_concat(s.take(i), seq![s[i]]);
    assert(encode_utf8(seq![s[i]]) =~= encode_scalar(s[i] as u32) + encode_utf8(seq![s[i]].drop_first()));
    assert(seq![s[i]].drop_first() =~= Seq::<char>::empty());
}

/// Byte offsets grow strictly with the character index and end at the byte
/// length of the whole sequence.
pub proof fn lemma_byte_offset_strict(s: Seq<char>, i: int, j: int)
    requires
        0 <= i < j <= s.len(),
    ensures
        byte_offset(s, i) < byte_offset(s, j) <= utf8_len(s),
    decreases j - i,
{
    lemma_byte_offset_step(s, j - 1);
    lemma_encode_scalar_len(s[j - 1]);
    if i < j - 1 {
        lemma_byte_offset_strict(s, i, j - 1);
    }
    lemma_byte_offset_le_len(s, j);
}

/// No byte offset lies past the end of the encoding.
pub proof fn lemma_byte_offset_le_len(s: Seq<char>, j: int)
    requires
        0 <= j <= s.len(),
    ensures
        byte_offset(s, j) <= utf8_len(s),
{
    assert(s =~= s.take(j) + s.skip(j));
    lemma_encode_utf8_concat(s.take(j), s.skip(j));
}

/// The bytes between the offsets of characters `i` and `j` are exactly the
/// encoding of those characters.
pub proof fn lemma_byte_range_is_chars(s: Seq<char>, i: int, j: int)
    requires
        0 <= i <= j <= s.len(),
    ensures
        encode_utf8(s).subrange(byte_offset(s, i) as int, byte_offset(s, j) as int)
            == encode_utf8(s.subrange(i, j)),
        byte_offset(s, j) - byte_offset(s, i) == utf8_len(s.subrange(i, j)),
{
    let a = s.take(i);
    let b = s.subrange(i, j);
    let c = s.skip(j);
    assert(s =~= a + b + c);
    assert(s.take(j) =~= a + b);
    lemma_encode_utf8_concat(a, b);
    lemma_encode_utf8_concat(a + b, c);
    assert(encode_utf8(s) =~= encode_utf8(a) + encode_utf8(b) + encode_utf8(c));
    assert(encode_utf8(s).subrange(byte_offset(s, i) as int, byte_offset(s, j) as int)
        =~= encode_utf8(b));
}

/// Whether every character of `s` is ASCII.
pub open spec fn all_ascii(s: Seq<char>) -> bool {
    forall|i: int| 0 <= i < s.len() ==> (s[i] as u32) < 0x80
}

/// For ASCII text, character and byte offsets coincide.
pub proof fn lemma_ascii_byte_offsets(s: Seq<char>, i: int)
    requires
        all_ascii(s),
        0 <= i <= s.len(),
    ensures
        byte_offset(s, i) == i,
    decreases i,
{
    if i == 0 {
        assert(s.take(0) =~= Seq::<char>::empty());
    } else {
        lemma_ascii_byte_offsets(s, i - 1);
        lemma_byte_offset_step(s, i - 1);
    }
}

/// The number of bytes `c` takes in UTF-8.
pub fn char_utf8_width(c: char) -> (width: usize)
    ensures
        width == encode_scalar(c as u32).len(),
{
    proof {
        char_is_scalar(c);
    }
    let v: u32 = c as u32;
    if v < 0x80 {
        1
    } else if v < 0x800 {
        2
    } else if v < 0x10000 {
        3
    } else {
        4
    }
}


/// `s` with every trailing `'/'` removed.
pub open spec fn strip_trailing_slashes(s: Seq<char>) -> Seq<char>
    decreases s.len(),
{
    if s.len() > 0 && s.last() == '/' {
        strip_trailing_slashes(s.drop_last())
    } else {
        s
    }
}

/// `s` with every trailing `'/'` removed.
///
/// Calls `str::trim_end_matches` with the pattern `'/'`, which std documents
/// as returning the string with all suffixes matching the pattern repeatedly
/// removed.
#[verifier::external_body]
pub(crate) fn trim_trailing_slashes(s: &str) -> (trimmed: &str)
    ensures
        trimmed@ == strip_trailing_slashes(s@),
{
    s.trim_end_matches('/')
}

/// Whether `c` has the Unicode `White_Space` property.
pub open spec fn is_white_space(c: char) -> bool {
    let v = c as u32;
    ||| 0x09 <= v <= 0x0D
    ||| v == 0x20
    ||| v == 0x85
    ||| v == 0xA0
    ||| v == 0x1680
    ||| 0x2000 <= v <= 0x200A
    ||| v == 0x2028
    ||| v == 0x2029
    ||| v == 0x202F
    ||| v == 0x205F
    ||| v == 0x3000
}

/// `s` without its leading white space.
pub open spec fn trim_start_spec(s: Seq<char>) -> Seq<char>
    decreases s.len(),
{
    if s.len() > 0 && is_white_space(s[0]) {
        trim_start_spec(s.drop_first())
    } else {
        s
    }
}

/// `s` without its trailing white space.
pub open spec fn trim_end_spec(s: Seq<char>) -> Seq<char>
    decreases s.len(),
{
    if s.len() > 0 && is_white_space(s.last()) {
        trim_end_spec(s.drop_last())
    } else {
        s
    }
}

/// `s` without its leading and trailing white space.
pub open spec fn trim_spec(s: Seq<char>) -> Seq<char> {
    trim_end_spec(trim_start_spec(s))
}

/// `s` without its leading and trailing white space.
///
/// Calls `str::trim`, which std documents as removing leading and trailing
/// characters with the Unicode `White_Space` property.
#[verifier::external_body]
pub(crate) fn trim(s: &str) -> (trimmed: &str)
    ensures
        trimmed@ == trim_spec(s@),
{
    s.trim()
}

} // verus!
