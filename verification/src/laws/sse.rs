//! Event streams: what a record is on the wire, and what is read of a stream.
use crate::chunk::{buffer_data, bytes_data};
use crate::sse::decoder::{
    break_index, decode, decoded, law_encoded_record_decodes, lemma_break_index,
    lemma_break_index_unique, lemma_colon_index_unique, line_field, line_value, next_line,
};
use crate::sse::encoder::{
    encode, encode_into, encoded, field_line, law_record_is_appended_as_lines,
};
use crate::sse::record::{
    field_error, fields_bytes, first_error, lemma_known_names, single_line, SseBuildError, SseField,
    SseFieldView, SseRecord, SseRecordBuilder,
};
use crate::text::{ascii_bytes, decimal, lemma_decimal_bytes, lemma_decimal_digits};
use bytes::{Bytes, BytesMut};
use vstd::prelude::*;
use vstd::string::*;

verus! {

// ----- Building -----

/// A builder starts empty and each call adds one field at the end.
pub proof fn law_builders_collect_fields(
    fresh: SseRecordBuilder,
    builder: SseRecordBuilder,
    value: Bytes,
    event: SseRecordBuilder,
    data: SseRecordBuilder,
    id: SseRecordBuilder,
    comment: SseRecordBuilder,
    field: SseField,
    other: SseRecordBuilder,
)
    requires
        call_ensures(SseRecord::builder, (), fresh),
        call_ensures(SseRecordBuilder::event, (builder, value), event),
        call_ensures(SseRecordBuilder::data, (builder, value), data),
        call_ensures(SseRecordBuilder::id, (builder, value), id),
        call_ensures(SseRecordBuilder::comment, (builder, value), comment),
        call_ensures(SseRecordBuilder::field, (builder, field), other),
    ensures
        fresh@.len() == 0,
        event@ == builder@ + seq![SseFieldView::Event(bytes_data(value))],
        data@ == builder@ + seq![SseFieldView::Data(bytes_data(value))],
        id@ == builder@ + seq![SseFieldView::Id(bytes_data(value))],
        comment@ == builder@ + seq![SseFieldView::Comment(bytes_data(value))],
        other@ == builder@ + seq![field@],
{
}

/// The number that ASCII digits are read as.
pub open spec fn read_digits(digits: Seq<u8>) -> int
    decreases digits.len(),
{
    if digits.len() == 0 {
        0
    } else {
        10 * read_digits(digits.drop_last()) + (digits.last() as int - 48)
    }
}

proof fn lemma_digits_read_back(n: nat)
    ensures
        read_digits(ascii_bytes(decimal(n))) == n,
    decreases n,
{
    let digits = ascii_bytes(decimal(n));
    if n < 10 {
        assert(digits.drop_last() =~= Seq::empty());
        reveal_with_fuel(read_digits, 2);
    } else {
        let before = decimal(n / 10);
        lemma_digits_read_back(n / 10);
        assert(digits.drop_last() =~= ascii_bytes(before));
    }
}

/// The delay is added as a number of milliseconds in digits.
pub proof fn law_delays_are_numbers(
    builder: SseRecordBuilder,
    millis: u64,
    later: SseRecordBuilder,
)
    requires
        call_ensures(SseRecordBuilder::retry, (builder, millis), later),
    ensures
        later@.len() == builder@.len() + 1,
        later@.drop_last() == builder@,
        later@.last() matches SseFieldView::Retry(digits) && digits.len() > 0 && (forall|i: int|
            0 <= i < digits.len() ==> 48 <= #[trigger] digits[i] <= 57) && read_digits(digits)
            == millis,
{
    lemma_digits_read_back(millis as nat);
    lemma_decimal_bytes(millis as nat);
    lemma_decimal_digits(millis as nat);
}

/// Bytes with neither a line feed nor a carriage return.
pub open spec fn unbroken(data: Seq<u8>) -> bool {
    !data.contains(10) && !data.contains(13)
}

/// The name of an unknown field would be read as something else.
pub open spec fn misleads(name: Seq<u8>) -> bool {
    ||| name.len() == 0
    ||| !unbroken(name)
    ||| name.contains(58)
    ||| name == seq![101u8, 118, 101, 110, 116]
    ||| name == seq![100u8, 97, 116, 97]
    ||| name == seq![105u8, 100]
    ||| name == seq![114u8, 101, 116, 114, 121]
}

/// The value of a field.
pub open spec fn value_of(field: SseFieldView) -> Seq<u8> {
    match field {
        SseFieldView::Event(value) => value,
        SseFieldView::Data(value) => value,
        SseFieldView::Id(value) => value,
        SseFieldView::Retry(value) => value,
        SseFieldView::Comment(value) => value,
        SseFieldView::Unknown { value, .. } => value,
    }
}

/// What is wrong with a field.
pub open spec fn fault(field: SseFieldView) -> Option<SseBuildError> {
    if field matches SseFieldView::Unknown { name, .. } && misleads(name) {
        Some(SseBuildError::InvalidName)
    } else if !unbroken(value_of(field)) {
        Some(SseBuildError::LineBreak)
    } else {
        None
    }
}

proof fn lemma_unbroken(data: Seq<u8>)
    ensures
        unbroken(data) <==> single_line(data),
{
    if single_line(data) {
        assert forall|i: int| 0 <= i < data.len() implies data[i] != 10 && data[i] != 13 by {
        }
    } else {
        let i = choose|i: int|
            0 <= i < data.len() && !(#[trigger] data[i] != 10 && data[i] != 13);
        assert(data.contains(data[i]));
    }
    if unbroken(data) {
        assert forall|i: int| 0 <= i < data.len() implies #[trigger] data[i] != 10 && data[i]
            != 13 by {
            assert(data.contains(data[i]));
        }
    }
}

proof fn lemma_fault(field: SseFieldView)
    ensures
        fault(field) == field_error(field),
{
    lemma_known_names();
    lemma_unbroken(value_of(field));
    if let SseFieldView::Unknown { name, .. } = field {
        lemma_unbroken(name);
        if !name.contains(58) {
            assert forall|i: int| 0 <= i < name.len() implies #[trigger] name[i] != 58 by {
                assert(name.contains(name[i]));
            }
        }
    }
}

/// The first fault decides.
proof fn lemma_first_fault(fields: Seq<SseFieldView>)
    ensures
        first_error(fields) is None <==> forall|i: int|
            0 <= i < fields.len() ==> fault(#[trigger] fields[i]) is None,
        forall|i: int|
            #![trigger fields[i]]
            0 <= i < fields.len() && fault(fields[i]) is Some && (forall|j: int|
                0 <= j < i ==> fault(#[trigger] fields[j]) is None) ==> first_error(fields)
                == fault(fields[i]),
    decreases fields.len(),
{
    if fields.len() > 0 {
        let shorter = fields.drop_last();
        let at = fields.len() - 1;
        lemma_first_fault(shorter);
        lemma_fault(fields[at]);
        assert(fields.last() == fields[at]);
        assert forall|i: int| 0 <= i < shorter.len() implies shorter[i] == fields[i] by {
        }
        if forall|i: int| 0 <= i < fields.len() ==> fault(#[trigger] fields[i]) is None {
            assert forall|i: int| 0 <= i < shorter.len() implies fault(
                #[trigger] shorter[i],
            ) is None by {
                assert(fault(fields[i]) is None);
            }
        }
        if first_error(fields) is None {
            assert forall|i: int| 0 <= i < fields.len() implies fault(
                #[trigger] fields[i],
            ) is None by {
                if i < at {
                    assert(fault(shorter[i]) is None);
                }
            }
        }
        assert forall|i: int|
            #![trigger fields[i]]
            0 <= i < fields.len() && fault(fields[i]) is Some && (forall|j: int|
                0 <= j < i ==> fault(
                    #[trigger] fields[j],
                ) is None) implies first_error(fields) == fault(fields[i]) by {
            if i < at {
                assert(shorter[i] == fields[i]);
                assert forall|j: int| 0 <= j < i implies fault(#[trigger] shorter[j]) is None by {
                    assert(fault(fields[j]) is None);
                }
            } else {
                assert forall|j: int| 0 <= j < shorter.len() implies fault(
                    #[trigger] shorter[j],
                ) is None by {
                    assert(fault(fields[j]) is None);
                }
            }
        }
    }
}

/// A record is complete exactly where no field is at fault, and then it has the fields that
/// were collected; else the fault of the first such field is told.
pub proof fn law_records_have_no_faulty_field(
    builder: SseRecordBuilder,
    built: Result<SseRecord, SseBuildError>,
    i: int,
)
    requires
        call_ensures(SseRecordBuilder::build, (builder,), built),
    ensures
        built is Ok <==> forall|j: int|
            0 <= j < builder@.len() ==> fault(#[trigger] builder@[j]) is None,
        built matches Ok(record) ==> record.spec_fields() == builder@,
        0 <= i < builder@.len() && fault(builder@[i]) is Some && (forall|j: int|
            0 <= j < i ==> fault(#[trigger] builder@[j]) is None) ==> (built matches Err(error)
            && Some(error) == fault(builder@[i])),
{
    lemma_first_fault(builder@);
}

/// A record shows its fields.
pub proof fn law_records_show_their_fields(record: &SseRecord, fields: &Vec<SseField>, i: int)
    requires
        call_ensures(SseRecord::fields, (record,), fields),
    ensures
        fields@.len() == record.spec_fields().len(),
        0 <= i < fields@.len() ==> fields@[i]@ == record.spec_fields()[i] && fault(fields@[i]@)
            is None,
{
    lemma_first_fault(record.spec_fields());
    if 0 <= i < fields@.len() {
        assert(record.spec_fields()[i] == fields@[i]@);
    }
}

// ----- Writing -----

/// The line of a field: its name, a colon, a space, its value and a line feed. A comment has
/// no name.
pub open spec fn wire(field: SseFieldView) -> Seq<u8> {
    let name = match field {
        SseFieldView::Event(_) => seq![101u8, 118, 101, 110, 116],
        SseFieldView::Data(_) => seq![100u8, 97, 116, 97],
        SseFieldView::Id(_) => seq![105u8, 100],
        SseFieldView::Retry(_) => seq![114u8, 101, 116, 114, 121],
        SseFieldView::Comment(_) => Seq::empty(),
        SseFieldView::Unknown { name, .. } => name,
    };
    name + seq![58u8, 32u8] + value_of(field) + seq![10u8]
}

/// A record is written as the lines of its fields, in order, and a blank line; in a buffer
/// it comes after what is there.
pub proof fn law_records_are_written_line_by_line(
    record: &SseRecord,
    data: Bytes,
    out: &mut BytesMut,
)
    requires
        call_ensures(encode, (record,), data),
        call_ensures(encode_into, (record, out), ()),
    ensures
        bytes_data(data) == record.spec_fields().map_values(
            |field: SseFieldView| wire(field),
        ).flatten() + seq![10u8],
        buffer_data(*final(out)) == buffer_data(*old(out)) + bytes_data(data),
{
    lemma_known_names();
    let fields = record.spec_fields();
    let lines = fields.map_values(|field: SseFieldView| field_line(field));
    assert forall|i: int| 0 <= i < fields.len() implies field_line(fields[i]) == #[trigger] wire(
        fields[i],
    ) by {
        assert(field_line(fields[i]) =~= wire(fields[i]));
    }
    assert(lines =~= fields.map_values(|field: SseFieldView| wire(field)));
    let none = Seq::<u8>::empty();
    law_record_is_appended_as_lines(none, fields);
    assert(none + encoded(fields) =~= encoded(fields));
    assert(none + lines.flatten() + seq![10u8] =~= lines.flatten() + seq![10u8]);
}

// ----- Reading -----

/// Whatever is built, written and read again has the same fields in the same order, byte for
/// byte, whatever follows it in the stream.
pub proof fn law_written_records_are_read_back(
    builder: SseRecordBuilder,
    built: Result<SseRecord, SseBuildError>,
    data: Bytes,
    stream: &[u8],
    tail: Seq<u8>,
    read: Option<(Vec<SseField>, usize)>,
    i: int,
)
    requires
        call_ensures(SseRecordBuilder::build, (builder,), built),
        built is Ok,
        call_ensures(encode, (&built->Ok_0,), data),
        stream@ == bytes_data(data) + tail,
        call_ensures(decode, (stream,), read),
    ensures
        read is Some,
        (read->0).1 == bytes_data(data).len(),
        (read->0).0@.len() == builder@.len(),
        0 <= i < builder@.len() ==> (read->0).0@[i]@ == builder@[i],
{
    law_encoded_record_decodes(builder@, tail);
    let fields = (read->0).0@;
    if 0 <= i < builder@.len() {
        assert(fields_bytes(fields)[i] == fields[i]@);
    }
}

/// What a name and a value are read as.
pub open spec fn read_as(field: SseFieldView, name: Seq<u8>, value: Seq<u8>) -> bool {
    if name.len() == 0 {
        field == SseFieldView::Comment(value)
    } else if name == seq![101u8, 118, 101, 110, 116] {
        field == SseFieldView::Event(value)
    } else if name == seq![100u8, 97, 116, 97] {
        field == SseFieldView::Data(value)
    } else if name == seq![105u8, 100] {
        field == SseFieldView::Id(value)
    } else if name == seq![114u8, 101, 116, 114, 121] {
        field == SseFieldView::Retry(value)
    } else {
        field == SseFieldView::Unknown { name, value }
    }
}

/// A line has a name and a value: they are parted by the first colon and at most one space
/// after it, and a line without a colon is a name alone.
pub open spec fn parts(line: Seq<u8>, name: Seq<u8>, value: Seq<u8>) -> bool {
    &&& !name.contains(58)
    &&& {
        ||| line == name && value.len() == 0
        ||| line == name + seq![58u8] + value && (value.len() == 0 || value[0] != 32)
        ||| line == name + seq![58u8, 32u8] + value
    }
}

/// How lines end: with a line feed, a carriage return, or both in this order.
pub open spec fn ends_line(mark: Seq<u8>, rest: Seq<u8>) -> bool {
    ||| mark == seq![10u8]
    ||| mark == seq![13u8, 10u8]
    ||| mark == seq![13u8] && (rest.len() == 0 || rest[0] != 10)
}

proof fn lemma_parts(line: Seq<u8>, name: Seq<u8>, value: Seq<u8>)
    requires
        parts(line, name, value),
    ensures
        read_as(line_field(line), name, value),
{
    lemma_known_names();
    let at = name.len() as int;
    assert forall|i: int| 0 <= i < at implies #[trigger] line[i] != 58 by {
        assert(line[i] == name[i]);
        assert(name.contains(name[i]));
    }
    if line == name && value.len() == 0 {
        lemma_colon_index_unique(line, at);
        assert(line.take(at) =~= name);
        assert(line_value(line) =~= value);
    } else {
        assert(line[at] == 58);
        lemma_colon_index_unique(line, at);
        assert(line.take(at) =~= name);
        if line == name + seq![58u8] + value && (value.len() == 0 || value[0] != 32) {
            if value.len() > 0 {
                assert(line[at + 1] == value[0]);
                assert(line.skip(at + 1) =~= value);
            }
        } else {
            assert(line[at + 1] == 32);
            assert(line.skip(at + 2) =~= value);
        }
        assert(line_value(line) =~= value);
    }
}

/// Data without a line break hold no record yet.
pub proof fn law_unfinished_lines_are_not_read(
    data: &[u8],
    read: Option<(Vec<SseField>, usize)>,
)
    requires
        call_ensures(decode, (data,), read),
        unbroken(data@),
    ensures
        read is None,
{
    lemma_break_index(data@);
    lemma_unbroken(data@);
    if break_index(data@) < data@.len() {
        assert(data@[break_index(data@)] != 10);
    }
}

/// A blank line ends a record, and its mark is all that is taken up.
pub proof fn law_blank_lines_end_a_record(
    data: &[u8],
    mark: Seq<u8>,
    rest: Seq<u8>,
    read: Option<(Vec<SseField>, usize)>,
)
    requires
        call_ensures(decode, (data,), read),
        data@ == mark + rest,
        ends_line(mark, rest),
    ensures
        read matches Some((fields, len)) && fields@.len() == 0 && len == mark.len(),
{
    assert(data@[0] == mark[0]);
    lemma_break_index_unique(data@, 0);
    if mark.len() == 2 {
        assert(data@[1] == mark[1]);
    } else if rest.len() > 0 {
        assert(data@[1] == rest[0]);
    }
    assert(decoded(data@) == Some((Seq::<SseFieldView>::empty(), next_line(data@, 0))));
    if let Some((fields, _)) = read {
        assert(fields_bytes(fields@).len() == fields@.len());
    }
}

/// Each line of a record is one field, whatever it ends with, and what follows is read as if
/// it stood alone.
pub proof fn law_records_are_read_line_by_line(
    data: &[u8],
    line: Seq<u8>,
    name: Seq<u8>,
    value: Seq<u8>,
    mark: Seq<u8>,
    rest: &[u8],
    read: Option<(Vec<SseField>, usize)>,
    later: Option<(Vec<SseField>, usize)>,
    i: int,
)
    requires
        call_ensures(decode, (data,), read),
        call_ensures(decode, (rest,), later),
        data@ == line + mark + rest@,
        line.len() > 0,
        unbroken(line),
        parts(line, name, value),
        ends_line(mark, rest@),
    ensures
        read is Some <==> later is Some,
        read matches Some((fields, len)) ==> {
            &&& fields@.len() == (later->0).0@.len() + 1
            &&& read_as(fields@[0]@, name, value)
            &&& 0 <= i < (later->0).0@.len() ==> fields@[i + 1]@ == (later->0).0@[i]@
            &&& len == line.len() + mark.len() + (later->0).1
        },
{
    let all = data@;
    let at = line.len() as int;
    lemma_unbroken(line);
    lemma_parts(line, name, value);
    assert(all[at] == mark[0]);
    assert forall|k: int| 0 <= k < at implies #[trigger] all[k] != 10 && all[k] != 13 by {
        assert(all[k] == line[k]);
    }
    lemma_break_index_unique(all, at);
    if mark.len() == 2 {
        assert(all[at + 1] == mark[1]);
    } else if rest@.len() > 0 {
        assert(all[at + 1] == rest@[0]);
    }
    let next = next_line(all, at);
    assert(next == at + mark.len());
    assert(all.take(at) =~= line);
    assert(all.skip(next) =~= rest@);
    if let Some((fields, len)) = read {
        let later_fields = fields_bytes((later->0).0@);
        let views = fields_bytes(fields@);
        assert(views == seq![line_field(line)] + later_fields);
        assert(views.len() == fields@.len());
        assert(fields@[0]@ == views[0]);
        if 0 <= i < (later->0).0@.len() {
            assert(fields@[i + 1]@ == views[i + 1]);
            assert(views[i + 1] == later_fields[i]);
        }
    }
}

} // verus!
