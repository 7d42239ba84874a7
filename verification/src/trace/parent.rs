//! W3C `traceparent`: parsing, and the identifiers that this proxy mints.
use crate::text::{chars_of, text_of};
use crate::trace::split::{parts_view, split, split_chars};
use vstd::prelude::*;
use vstd::string::*;
use vstd::utf8::*;

verus! {

/// Number of hex characters in a trace-id.
pub const TRACE_ID_LEN: usize = 32;

/// Number of hex characters in a span-id.
pub const SPAN_ID_LEN: usize = 16;

/// Trace-id and flags continued from a valid inbound `traceparent`.
pub struct InboundTrace {
    /// Masked `trace-flags`.
    pub flags: String,
    /// Shared 32-hex trace-id.
    pub trace_id: String,
}

/// A lower-case hexadecimal character.
pub open spec fn is_hex_char(c: char) -> bool {
    ('0' <= c && c <= '9') || ('a' <= c && c <= 'f')
}

/// Every character is lower-case hexadecimal.
pub open spec fn is_hex(s: Seq<char>) -> bool {
    forall|i: int| 0 <= i < s.len() ==> is_hex_char(#[trigger] s[i])
}

/// Every character is the digit zero.
pub open spec fn is_zero(s: Seq<char>) -> bool {
    forall|i: int| 0 <= i < s.len() ==> #[trigger] s[i] == '0'
}

/// An identifier of the given length as W3C Trace Context has it: lower-case
/// hexadecimal and not all zero.
pub open spec fn is_w3c_id(s: Seq<char>, len: nat) -> bool {
    s.len() == len && is_hex(s) && !is_zero(s)
}

/// The number that a lower-case hexadecimal character stands for.
pub open spec fn hex_value(c: char) -> int {
    if c <= '9' {
        c as int - '0' as int
    } else {
        c as int - 'a' as int + 10
    }
}

/// The flags that are propagated: the sampled bit, the lowest one, and nothing
/// else.
pub open spec fn masked_flags(flags: Seq<char>) -> Seq<char> {
    if hex_value(flags.last()) % 2 == 1 {
        seq!['0', '1']
    } else {
        seq!['0', '0']
    }
}

/// A `traceparent` that is continued: version, trace-id, span-id and flags, well
/// formed, with no further field unless the version is a later one than `00`.
pub open spec fn valid_traceparent(value: Seq<char>) -> bool {
    let fields = split(value, '-');
    &&& fields.len() >= 4
    &&& fields[0].len() == 2
    &&& is_hex(fields[0])
    &&& fields[0] != seq!['f', 'f']
    &&& fields.len() > 4 ==> fields[0] != seq!['0', '0']
    &&& is_w3c_id(fields[1], TRACE_ID_LEN as nat)
    &&& is_w3c_id(fields[2], SPAN_ID_LEN as nat)
    &&& fields[3].len() == 2
    &&& is_hex(fields[3])
}

/// Whether every character is lower-case hexadecimal.
fn hex_chars(s: &[char]) -> (hex: bool)
    ensures
        hex == is_hex(s@),
{
    let mut i: usize = 0;
    while i < s.len()
        invariant
            i <= s@.len(),
            forall|j: int| 0 <= j < i ==> is_hex_char(#[trigger] s@[j]),
        decreases s@.len() - i,
    {
        let c: char = s[i];
        if !(('0' <= c && c <= '9') || ('a' <= c && c <= 'f')) {
            assert(!is_hex_char(s@[i as int]));
            return false;
        }
        i += 1;
    }
    true
}

/// Whether every character is the digit zero.
fn zero_chars(s: &[char]) -> (zero: bool)
    ensures
        zero == is_zero(s@),
{
    let mut i: usize = 0;
    while i < s.len()
        invariant
            i <= s@.len(),
            forall|j: int| 0 <= j < i ==> #[trigger] s@[j] == '0',
        decreases s@.len() - i,
    {
        if s[i] != '0' {
            return false;
        }
        i += 1;
    }
    true
}

/// Whether every character is lower-case hexadecimal.
pub fn is_lower_hex(value: &str) -> (hex: bool)
    ensures
        hex == is_hex(value@),
{
    hex_chars(chars_of(value).as_slice())
}

/// Whether every character is the digit zero.
pub fn is_all_zero(value: &str) -> (zero: bool)
    ensures
        zero == is_zero(value@),
{
    zero_chars(chars_of(value).as_slice())
}

/// Keeps only the sampled bit of two hexadecimal flag characters.
fn mask_flags(flags: &[char]) -> (masked: String)
    requires
        flags@.len() == 2,
        is_hex(flags@),
    ensures
        masked@ == masked_flags(flags@),
{
    let low: char = flags[1];
    assert(is_hex_char(flags@[1]));
    let value: u32 = if low <= '9' {
        low as u32 - 48
    } else {
        low as u32 - 87
    };
    let mut masked = String::new();
    masked.push('0');
    if value % 2 == 1 {
        masked.push('1');
    } else {
        masked.push('0');
    }
    masked
}

/// Parses a W3C `traceparent`. `None` if malformed, all zero, or version `ff`.
pub fn parse_traceparent(value: &str) -> (parsed: Option<InboundTrace>)
    ensures
        parsed is Some <==> valid_traceparent(value@),
        parsed matches Some(trace) ==> {
            &&& trace.trace_id@ == split(value@, '-')[1]
            &&& trace.flags@ == masked_flags(split(value@, '-')[3])
        },
{
    let chars = chars_of(value);
    let fields = split_chars(chars.as_slice(), '-');
    assert(parts_view(fields@).len() == fields@.len());
    if fields.len() < 4 {
        return None;
    }
    let version = fields[0].as_slice();
    let trace_id = fields[1].as_slice();
    let span_id = fields[2].as_slice();
    let flags = fields[3].as_slice();
    assert(split(value@, '-')[0] == version@);
    assert(split(value@, '-')[1] == trace_id@);
    assert(split(value@, '-')[2] == span_id@);
    assert(split(value@, '-')[3] == flags@);

    if version.len() != 2 || !hex_chars(version) {
        return None;
    }
    if version[0] == 'f' && version[1] == 'f' {
        assert(version@ == seq!['f', 'f']);
        return None;
    }
    assert(version@ != seq!['f', 'f']) by {
        assert(seq!['f', 'f'][0] == 'f' && seq!['f', 'f'][1] == 'f');
    }
    if fields.len() > 4 && version[0] == '0' && version[1] == '0' {
        assert(version@ == seq!['0', '0']);
        return None;
    }
    assert(fields.len() > 4 ==> version@ != seq!['0', '0']) by {
        assert(seq!['0', '0'][0] == '0' && seq!['0', '0'][1] == '0');
    }
    if trace_id.len() != TRACE_ID_LEN || !hex_chars(trace_id) || zero_chars(trace_id) {
        return None;
    }
    if span_id.len() != SPAN_ID_LEN || !hex_chars(span_id) || zero_chars(span_id) {
        return None;
    }
    if flags.len() != 2 || !hex_chars(flags) {
        return None;
    }
    Some(InboundTrace { flags: mask_flags(flags), trace_id: text_of(trace_id) })
}

/// The hexadecimal character that stands for `c` in a minted identifier: its
/// lower-case form, or zero when it is no hexadecimal character.
pub open spec fn coerced_char(c: char) -> char {
    if is_hex_char(c) {
        c
    } else if 'A' <= c && c <= 'F' {
        (c as u32 + 32) as char
    } else {
        '0'
    }
}

/// The first 32 characters of an identifier, coerced to hexadecimal and padded
/// with zeros on the left.
pub open spec fn coerced_id(id: Seq<char>) -> Seq<char> {
    let kept = if id.len() < TRACE_ID_LEN {
        id
    } else {
        id.take(TRACE_ID_LEN as int)
    };
    Seq::new(
        TRACE_ID_LEN as nat,
        |i: int|
            if i < TRACE_ID_LEN - kept.len() {
                '0'
            } else {
                coerced_char(kept[i - (TRACE_ID_LEN - kept.len())])
            },
    )
}

/// The smallest identifier of the given length that is not all zero.
pub open spec fn least_id(len: nat) -> Seq<char> {
    Seq::new(
        len,
        |i: int|
            if i == len - 1 {
                '1'
            } else {
                '0'
            },
    )
}

/// The trace-id made of a generated identifier.
pub open spec fn minted_trace_id(id: Seq<char>) -> Seq<char> {
    if is_zero(coerced_id(id)) {
        least_id(TRACE_ID_LEN as nat)
    } else {
        coerced_id(id)
    }
}

/// Coerces a generated identifier into a W3C trace-id, never all zero.
pub fn sanitize_trace_id(id: &str) -> (trace_id: String)
    ensures
        trace_id@ == minted_trace_id(id@),
        is_w3c_id(trace_id@, TRACE_ID_LEN as nat),
{
    let chars = chars_of(id);
    let kept: usize = if chars.len() < TRACE_ID_LEN {
        chars.len()
    } else {
        TRACE_ID_LEN
    };
    let mut out: Vec<char> = Vec::new();
    let mut i: usize = 0;
    while i < TRACE_ID_LEN
        invariant
            i <= TRACE_ID_LEN,
            kept == (if id@.len() < TRACE_ID_LEN {
                id@.len() as int
            } else {
                TRACE_ID_LEN as int
            }),
            chars@ == id@,
            out@.len() == i,
            forall|j: int| 0 <= j < i ==> out@[j] == coerced_id(id@)[j],
        decreases TRACE_ID_LEN - i,
    {
        if i < TRACE_ID_LEN - kept {
            out.push('0');
        } else {
            let c: char = chars[i - (TRACE_ID_LEN - kept)];
            out.push(coerce(c));
        }
        i += 1;
    }
    assert(out@ == coerced_id(id@));
    assert(is_hex(out@)) by {
        assert forall|j: int| 0 <= j < out@.len() implies is_hex_char(#[trigger] out@[j]) by {
            lemma_coerced_is_hex(id@, j);
        }
    }
    if zero_chars(out.as_slice()) {
        least_text(TRACE_ID_LEN)
    } else {
        text_of(out.as_slice())
    }
}

proof fn lemma_coerced_is_hex(id: Seq<char>, i: int)
    requires
        0 <= i < TRACE_ID_LEN,
    ensures
        is_hex_char(coerced_id(id)[i]),
{
}

/// The lower-case hexadecimal character for `c`, or zero.
fn coerce(c: char) -> (hex: char)
    ensures
        hex == coerced_char(c),
{
    if ('0' <= c && c <= '9') || ('a' <= c && c <= 'f') {
        c
    } else if c == 'A' {
        'a'
    } else if c == 'B' {
        'b'
    } else if c == 'C' {
        'c'
    } else if c == 'D' {
        'd'
    } else if c == 'E' {
        'e'
    } else if c == 'F' {
        'f'
    } else {
        '0'
    }
}

/// Writes the smallest identifier of the given length that is not all zero.
fn least_text(len: usize) -> (text: String)
    requires
        len > 0,
    ensures
        text@ == least_id(len as nat),
        is_w3c_id(text@, len as nat),
{
    let mut text = String::new();
    let mut i: usize = 0;
    while i < len - 1
        invariant
            i <= len - 1,
            text@.len() == i,
            forall|j: int| 0 <= j < i ==> #[trigger] text@[j] == '0',
        decreases len - i,
    {
        text.push('0');
        i += 1;
    }
    text.push('1');
    assert(text@ =~= least_id(len as nat));
    assert(text@[len - 1] == '1');
    text
}

/// The characters from the sixteenth byte of a text on.
pub open spec fn span_part(trace_id: Seq<char>) -> Seq<char> {
    decode_utf8(encode_utf8(trace_id).subrange(SPAN_ID_LEN as int, TRACE_ID_LEN as int))
}

/// The span-id made of a trace-id: its second half, unless the text has no such
/// half of sixteen bytes or that half is all zero.
pub open spec fn minted_span_id(trace_id: Seq<char>) -> Seq<char> {
    let bytes = encode_utf8(trace_id);
    if bytes.len() == TRACE_ID_LEN && is_char_boundary(bytes, SPAN_ID_LEN as int) && !is_zero(
        span_part(trace_id),
    ) {
        span_part(trace_id)
    } else {
        least_id(SPAN_ID_LEN as nat)
    }
}

/// The last sixteen characters of a trace-id: the first sixteen collide within
/// the same microsecond.
pub fn span_id_from(trace_id: &str) -> (span_id: String)
    ensures
        span_id@ == minted_span_id(trace_id@),
{
    if trace_id.as_bytes().len() != TRACE_ID_LEN || !trace_id.is_char_boundary(SPAN_ID_LEN) {
        return least_text(SPAN_ID_LEN);
    }
    let (_, span_id) = trace_id.split_at(SPAN_ID_LEN);
    proof {
        encode_utf8_decode_utf8(span_id@);
        assert(span_id@ == span_part(trace_id@));
    }
    if is_all_zero(span_id) {
        return least_text(SPAN_ID_LEN);
    }
    span_id.to_owned()
}

/// A trace-id for a generated identifier.
pub fn generate_trace_id(generated: &str) -> (trace_id: String)
    ensures
        trace_id@ == minted_trace_id(generated@),
        is_w3c_id(trace_id@, TRACE_ID_LEN as nat),
{
    sanitize_trace_id(generated)
}

/// A span-id for a generated identifier.
pub fn generate_span_id(generated: &str) -> (span_id: String)
    ensures
        span_id@ == minted_span_id(minted_trace_id(generated@)),
        is_w3c_id(span_id@, SPAN_ID_LEN as nat),
{
    let trace_id = generate_trace_id(generated);
    proof {
        law_minted_ids_are_w3c(generated@);
    }
    span_id_from(trace_id.as_str())
}

/// The second half of a trace-id in W3C form is its last sixteen characters.
pub proof fn lemma_span_part_of_w3c_id(trace_id: Seq<char>)
    requires
        is_w3c_id(trace_id, TRACE_ID_LEN as nat),
    ensures
        encode_utf8(trace_id).len() == TRACE_ID_LEN,
        is_char_boundary(encode_utf8(trace_id), SPAN_ID_LEN as int),
        span_part(trace_id) == trace_id.subrange(SPAN_ID_LEN as int, TRACE_ID_LEN as int),
{
    let half = trace_id.subrange(SPAN_ID_LEN as int, TRACE_ID_LEN as int);
    assert(is_ascii_chars(trace_id)) by {
        assert forall|i: int| 0 <= i < trace_id.len() implies is_hex_char(
            #[trigger] trace_id[i],
        ) by {
        }
    }
    assert(is_ascii_chars(half)) by {
        assert forall|i: int| 0 <= i < half.len() implies is_hex_char(#[trigger] half[i]) by {
            assert(half[i] == trace_id[i + SPAN_ID_LEN]);
        }
    }
    is_ascii_chars_encode_utf8(trace_id);
    is_ascii_chars_encode_utf8(half);
    assert(encode_utf8(trace_id).subrange(SPAN_ID_LEN as int, TRACE_ID_LEN as int)
        == encode_utf8(half));
    encode_utf8_decode_utf8(half);
    encode_utf8_valid_utf8(trace_id);
    assert(is_hex_char(trace_id[SPAN_ID_LEN as int]));
    is_char_boundary_iff_not_is_continuation_byte(encode_utf8(trace_id), SPAN_ID_LEN as int);
}

/// Whatever identifier was generated, the trace-id made of it and the span-id
/// made of that are well formed: lower-case hexadecimal of the right length, and
/// never all zero.
pub proof fn law_minted_ids_are_w3c(id: Seq<char>)
    ensures
        is_w3c_id(minted_trace_id(id), TRACE_ID_LEN as nat),
        is_w3c_id(minted_span_id(minted_trace_id(id)), SPAN_ID_LEN as nat),
{
    assert forall|i: int| 0 <= i < TRACE_ID_LEN implies is_hex_char(
        #[trigger] coerced_id(id)[i],
    ) by {
        lemma_coerced_is_hex(id, i);
    }
    assert(least_id(TRACE_ID_LEN as nat)[TRACE_ID_LEN - 1] == '1');
    assert(least_id(SPAN_ID_LEN as nat)[SPAN_ID_LEN - 1] == '1');
    let trace_id = minted_trace_id(id);
    lemma_span_part_of_w3c_id(trace_id);
    let half = trace_id.subrange(SPAN_ID_LEN as int, TRACE_ID_LEN as int);
    assert forall|i: int| 0 <= i < half.len() implies is_hex_char(#[trigger] half[i]) by {
        assert(half[i] == trace_id[i + SPAN_ID_LEN]);
    }
}

} // verus!
