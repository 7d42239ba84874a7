//! Writing records as an event stream.
use super::record::{
    field_error, field_name, field_value, fields_bytes, first_error, lemma_known_names, single_line,
    SseField, SseFieldView, SseRecord, DATA_NAME, EVENT_NAME, ID_NAME, RETRY_NAME,
};
use crate::chunk::{buffer_data, bytes_data, fits_buffer};
use crate::text::ascii_bytes;
use bytes::{Bytes, BytesMut};
use vstd::prelude::*;
use vstd::string::*;
use vstd::utf8::*;

verus! {

/// What stands between name and value.
pub const SEPARATOR: &'static str = ": ";

/// What ends a line.
pub const LINE_END: &'static str = "\n";

/// One field on the wire: name, colon, space, value, line feed.
pub open spec fn field_line(field: SseFieldView) -> Seq<u8> {
    field_name(field) + seq![58u8, 32] + field_value(field) + seq![10u8]
}

/// Fields on the wire, one line each.
pub open spec fn field_lines(fields: Seq<SseFieldView>) -> Seq<u8>
    decreases fields.len(),
{
    if fields.len() == 0 {
        Seq::empty()
    } else {
        field_lines(fields.drop_last()) + field_line(fields.last())
    }
}

/// A record on the wire: its fields and a blank line.
pub open spec fn encoded(fields: Seq<SseFieldView>) -> Seq<u8> {
    field_lines(fields) + seq![10u8]
}

proof fn lemma_marks()
    ensures
        encode_utf8(SEPARATOR@) == seq![58u8, 32],
        encode_utf8(LINE_END@) == seq![10u8],
        encode_utf8(""@) == Seq::<u8>::empty(),
{
    reveal_strlit(": ");
    reveal_strlit("\n");
    reveal_strlit("");
    assert(is_ascii_chars(SEPARATOR@));
    assert(is_ascii_chars(LINE_END@));
    assert(is_ascii_chars(""@));
    is_ascii_chars_encode_utf8(SEPARATOR@);
    is_ascii_chars_encode_utf8(LINE_END@);
    is_ascii_chars_encode_utf8(""@);
    assert(encode_utf8(SEPARATOR@) =~= seq![58u8, 32]);
    assert(encode_utf8(LINE_END@) =~= seq![10u8]);
    assert(encode_utf8(""@) =~= Seq::<u8>::empty());
}

/// Writes one line.
fn write_named(out: &mut BytesMut, name: &[u8], value: &[u8])
    requires
        fits_buffer(buffer_data(*old(out)).len() + name@.len() + value@.len() + 3),
    ensures
        buffer_data(*final(out)) == buffer_data(*old(out)) + (name@ + seq![58u8, 32] + value@
            + seq![10u8]),
{
    proof {
        lemma_marks();
    }
    out.extend_from_slice(name);
    out.extend_from_slice(SEPARATOR.as_bytes());
    out.extend_from_slice(value);
    out.extend_from_slice(LINE_END.as_bytes());
    assert(buffer_data(*out) =~= buffer_data(*old(out)) + (name@ + seq![58u8, 32] + value@
        + seq![10u8]));
}

proof fn lemma_lines_step(fields: Seq<SseFieldView>, i: int)
    requires
        0 <= i < fields.len(),
    ensures
        field_lines(fields.take(i + 1)) == field_lines(fields.take(i)) + field_line(fields[i]),
        field_lines(fields.take(i + 1)).len() <= field_lines(fields).len(),
    decreases fields.len(),
{
    assert(fields.take(i + 1).drop_last() =~= fields.take(i));
    if i + 1 == fields.len() {
        assert(fields.take(i + 1) =~= fields);
    } else {
        assert(fields.drop_last().take(i + 1) =~= fields.take(i + 1));
        assert(fields.drop_last().take(i) =~= fields.take(i));
        lemma_lines_step(fields.drop_last(), i);
    }
}

/// Appends a record to a buffer, so that several can share one.
pub fn encode_into(record: &SseRecord, out: &mut BytesMut)
    requires
        fits_buffer(buffer_data(*old(out)).len() + encoded(record.spec_fields()).len()),
    ensures
        buffer_data(*final(out)) == buffer_data(*old(out)) + encoded(record.spec_fields()),
{
    let fields = record.fields();
    let ghost views = fields_bytes(fields@);
    let ghost start = buffer_data(*out);
    proof {
        lemma_marks();
        lemma_known_names();
        assert(views.take(0) =~= Seq::<SseFieldView>::empty());
        assert(start + field_lines(views.take(0)) =~= start);
    }
    let mut i: usize = 0;
    while i < fields.len()
        invariant
            i <= fields@.len(),
            views == fields_bytes(fields@),
            buffer_data(*out) == start + field_lines(views.take(i as int)),
            fits_buffer(start.len() + field_lines(views).len() + 1),
            encode_utf8(""@) == Seq::<u8>::empty(),
            encode_utf8(EVENT_NAME@) == ascii_bytes(EVENT_NAME@),
            encode_utf8(DATA_NAME@) == ascii_bytes(DATA_NAME@),
            encode_utf8(ID_NAME@) == ascii_bytes(ID_NAME@),
            encode_utf8(RETRY_NAME@) == ascii_bytes(RETRY_NAME@),
        decreases fields@.len() - i,
    {
        proof {
            lemma_lines_step(views, i as int);
            assert(views[i as int] == fields@[i as int]@);
        }
        match &fields[i] {
            SseField::Event(value) => write_named(out, EVENT_NAME.as_bytes(), value),
            SseField::Data(value) => write_named(out, DATA_NAME.as_bytes(), value),
            SseField::Id(value) => write_named(out, ID_NAME.as_bytes(), value),
            SseField::Retry(value) => write_named(out, RETRY_NAME.as_bytes(), value),
            SseField::Comment(value) => write_named(out, "".as_bytes(), value),
            SseField::Unknown { name, value } => write_named(out, name, value),
        }
        assert(buffer_data(*out) =~= start + field_lines(views.take(i + 1)));
        i += 1;
    }
    assert(views.take(i as int) =~= views);
    out.extend_from_slice(LINE_END.as_bytes());
    assert(buffer_data(*out) =~= start + encoded(views));
}

/// Writes a record.
pub fn encode(record: &SseRecord) -> (data: Bytes)
    requires
        fits_buffer(encoded(record.spec_fields()).len()),
    ensures
        bytes_data(data) == encoded(record.spec_fields()),
{
    let mut out = BytesMut::new();
    encode_into(record, &mut out);
    assert(Seq::<u8>::empty() + encoded(record.spec_fields()) =~= encoded(record.spec_fields()));
    out.freeze()
}

/// The line break at `i` ends a blank line.
pub open spec fn ends_blank_line(data: Seq<u8>, i: int) -> bool {
    data[i] == 10 && (i == 0 || data[i - 1] == 10)
}

/// A field takes exactly one line.
pub proof fn lemma_field_is_one_line(field: SseFieldView)
    requires
        field_error(field) is None,
    ensures
        single_line(field_line(field).drop_last()),
        field_line(field).last() == 10,
{
    lemma_known_names();
    let name = field_name(field);
    let value = field_value(field);
    let line = field_line(field).drop_last();
    assert(line =~= name + seq![58u8, 32] + value);
    assert forall|i: int| 0 <= i < line.len() implies #[trigger] line[i] != 10 && line[i] != 13 by {
        if i < name.len() {
            assert(line[i] == name[i]);
        } else if i >= name.len() + 2 {
            assert(line[i] == value[i - name.len() - 2]);
        }
    }
}

/// No line of a record is blank.
proof fn lemma_lines_are_not_blank(fields: Seq<SseFieldView>)
    requires
        first_error(fields) is None,
    ensures
        forall|i: int|
            0 <= i < field_lines(fields).len() ==> !#[trigger] ends_blank_line(
                field_lines(fields),
                i,
            ),
        fields.len() > 0 ==> field_lines(fields).last() == 10,
        fields.len() > 0 ==> field_lines(fields).len() > 0,
    decreases fields.len(),
{
    if fields.len() > 0 {
        let shorter = field_lines(fields.drop_last());
        let line = field_line(fields.last());
        let data = field_lines(fields);
        lemma_lines_are_not_blank(fields.drop_last());
        lemma_field_is_one_line(fields.last());
        assert forall|i: int| 0 <= i < data.len() implies !#[trigger] ends_blank_line(data, i) by {
            if i < shorter.len() {
                assert(!ends_blank_line(shorter, i));
            } else {
                let at = i - shorter.len();
                assert(data[i] == line[at]);
                if at < line.len() - 1 {
                    assert(line.drop_last()[at] != 10);
                } else {
                    assert(data[i - 1] == line.drop_last()[at - 1]);
                }
            }
        }
    }
}

/// A record is appended to whatever a buffer holds: what was there stays, nothing
/// comes between it and the record, and the record is one line for each field, in
/// order, then a blank line. Where every field can be written, no other line of it is
/// blank.
pub proof fn law_record_is_appended_as_lines(before: Seq<u8>, fields: Seq<SseFieldView>)
    ensures
        before + encoded(fields) == before + fields.map_values(
            |field: SseFieldView| field_line(field),
        ).flatten() + seq![10u8],
        first_error(fields) is None ==> forall|i: int|
            0 <= i < encoded(fields).len() ==> (#[trigger] ends_blank_line(encoded(fields), i)
                <==> i == encoded(fields).len() - 1),
{
    let lines = fields.map_values(|field: SseFieldView| field_line(field));
    lemma_lines_in_order(fields);
    lines.lemma_flatten_and_flatten_alt_are_equivalent();
    assert(before + encoded(fields) =~= before + lines.flatten() + seq![10u8]);
    if first_error(fields) is None {
        lemma_lines_are_not_blank(fields);
        let data = encoded(fields);
        assert forall|i: int| 0 <= i < data.len() implies (#[trigger] ends_blank_line(data, i)
            <==> i == data.len() - 1) by {
            if i < data.len() - 1 {
                assert(!ends_blank_line(field_lines(fields), i));
            }
        }
    }
}

/// The lines of a record are those of its fields, one after another.
proof fn lemma_lines_in_order(fields: Seq<SseFieldView>)
    ensures
        field_lines(fields) == fields.map_values(
            |field: SseFieldView| field_line(field),
        ).flatten_alt(),
    decreases fields.len(),
{
    if fields.len() > 0 {
        lemma_lines_in_order(fields.drop_last());
        let write = |field: SseFieldView| field_line(field);
        assert(fields.map_values(write).drop_last() =~= fields.drop_last().map_values(write));
    }
}

} // verus!
