//! Reading records from an event stream.
use super::encoder::{encoded, field_line, field_lines, lemma_field_is_one_line};
use super::record::{
    field_error, field_name, field_value, fields_bytes, first_error, is_text, lemma_known_names,
    single_line, SseField, SseFieldView, DATA_NAME, EVENT_NAME, ID_NAME, RETRY_NAME,
};
use crate::chunk::chunk_from;
use crate::text::ascii_bytes;
use vstd::prelude::*;
use vstd::slice::slice_to_vec;
use vstd::string::*;
use vstd::utf8::*;

verus! {

/// The place of the first line break, or the end of the data.
pub open spec fn break_index(data: Seq<u8>) -> int
    decreases data.len(),
{
    if data.len() == 0 || data[0] == 10 || data[0] == 13 {
        0
    } else {
        1 + break_index(data.drop_first())
    }
}

/// Where the next line starts after a line break at `at`: a carriage return and a
/// line feed are one break.
pub open spec fn next_line(data: Seq<u8>, at: int) -> int {
    if data[at] == 13 && at + 1 < data.len() && data[at + 1] == 10 {
        at + 2
    } else {
        at + 1
    }
}

/// The place of the first colon, or the end of the line.
pub open spec fn colon_index(line: Seq<u8>) -> int
    decreases line.len(),
{
    if line.len() == 0 || line[0] == 58 {
        0
    } else {
        1 + colon_index(line.drop_first())
    }
}

/// What follows the colon, without one leading space.
pub open spec fn line_value(line: Seq<u8>) -> Seq<u8> {
    let after = colon_index(line) + 1;
    if after >= line.len() {
        Seq::empty()
    } else if line[after] == 32 {
        line.skip(after + 1)
    } else {
        line.skip(after)
    }
}

/// The field that a line stands for. A line that starts with a colon is a comment.
pub open spec fn line_field(line: Seq<u8>) -> SseFieldView {
    let name = line.take(colon_index(line));
    let value = line_value(line);
    if name.len() == 0 {
        SseFieldView::Comment(value)
    } else if name == ascii_bytes(EVENT_NAME@) {
        SseFieldView::Event(value)
    } else if name == ascii_bytes(DATA_NAME@) {
        SseFieldView::Data(value)
    } else if name == ascii_bytes(ID_NAME@) {
        SseFieldView::Id(value)
    } else if name == ascii_bytes(RETRY_NAME@) {
        SseFieldView::Retry(value)
    } else {
        SseFieldView::Unknown { name, value }
    }
}

/// The fields of the record that data start with, and how many bytes it takes up
/// with its blank line. `None` where the blank line is not there yet.
pub open spec fn decoded(data: Seq<u8>) -> Option<(Seq<SseFieldView>, int)>
    decreases data.len(),
    via decoded_decreases
{
    let at = break_index(data);
    if at >= data.len() {
        None
    } else {
        let next = next_line(data, at);
        if at == 0 {
            Some((Seq::empty(), next))
        } else {
            match decoded(data.skip(next)) {
                Some((fields, len)) => Some((seq![line_field(data.take(at))] + fields, next + len)),
                None => None,
            }
        }
    }
}

#[via_fn]
proof fn decoded_decreases(data: Seq<u8>) {
    lemma_break_index(data);
}

/// The first line break is one, and nothing before it is.
pub proof fn lemma_break_index(data: Seq<u8>)
    ensures
        0 <= break_index(data) <= data.len(),
        forall|i: int|
            0 <= i < break_index(data) ==> #[trigger] data[i] != 10 && data[i] != 13,
        break_index(data) < data.len() ==> data[break_index(data)] == 10 || data[break_index(data)]
            == 13,
    decreases data.len(),
{
    if data.len() > 0 && data[0] != 10 && data[0] != 13 {
        let rest = data.drop_first();
        lemma_break_index(rest);
        assert forall|i: int| 0 <= i < break_index(data) implies #[trigger] data[i] != 10 && data[i]
            != 13 by {
            if i > 0 {
                assert(rest[i - 1] == data[i]);
            }
        }
    }
}

/// The first line break is where nothing before is one.
pub proof fn lemma_break_index_unique(data: Seq<u8>, at: int)
    requires
        0 <= at <= data.len(),
        forall|i: int| 0 <= i < at ==> #[trigger] data[i] != 10 && data[i] != 13,
        at < data.len() ==> data[at] == 10 || data[at] == 13,
    ensures
        break_index(data) == at,
{
    lemma_break_index(data);
    if break_index(data) < at {
        assert(data[break_index(data)] != 10 && data[break_index(data)] != 13);
    }
}

proof fn lemma_colon_index(line: Seq<u8>)
    ensures
        0 <= colon_index(line) <= line.len(),
        forall|i: int| 0 <= i < colon_index(line) ==> #[trigger] line[i] != 58,
        colon_index(line) < line.len() ==> line[colon_index(line)] == 58,
    decreases line.len(),
{
    if line.len() > 0 && line[0] != 58 {
        let rest = line.drop_first();
        lemma_colon_index(rest);
        assert forall|i: int| 0 <= i < colon_index(line) implies #[trigger] line[i] != 58 by {
            if i > 0 {
                assert(rest[i - 1] == line[i]);
            }
        }
    }
}

/// The first colon is where nothing before is one.
pub proof fn lemma_colon_index_unique(line: Seq<u8>, at: int)
    requires
        0 <= at <= line.len(),
        forall|i: int| 0 <= i < at ==> #[trigger] line[i] != 58,
        at < line.len() ==> line[at] == 58,
    ensures
        colon_index(line) == at,
{
    lemma_colon_index(line);
    if colon_index(line) < at {
        assert(line[colon_index(line)] != 58);
    }
}

/// Reads one line.
fn decode_line(line: &[u8]) -> (field: SseField)
    ensures
        field@ == line_field(line@),
{
    proof {
        lemma_known_names();
    }
    let mut colon: usize = 0;
    while colon < line.len() && line[colon] != 58
        invariant
            colon <= line@.len(),
            forall|i: int| 0 <= i < colon ==> #[trigger] line@[i] != 58,
        decreases line@.len() - colon,
    {
        colon += 1;
    }
    proof {
        lemma_colon_index_unique(line@, colon as int);
    }
    let name = vstd::slice::slice_subrange(line, 0, colon);
    assert(name@ =~= line@.take(colon as int));
    let mut from: usize = if colon < line.len() {
        colon + 1
    } else {
        colon
    };
    if from < line.len() && from > colon && line[from] == 32 {
        from += 1;
    }
    let data = vstd::slice::slice_subrange(line, from, line.len());
    assert(data@ =~= line_value(line@));
    let value = chunk_from(slice_to_vec(data));
    if name.len() == 0 {
        SseField::Comment(value)
    } else if is_text(name, EVENT_NAME) {
        SseField::Event(value)
    } else if is_text(name, DATA_NAME) {
        SseField::Data(value)
    } else if is_text(name, ID_NAME) {
        SseField::Id(value)
    } else if is_text(name, RETRY_NAME) {
        SseField::Retry(value)
    } else {
        SseField::Unknown { name: chunk_from(slice_to_vec(name)), value }
    }
}

/// Reads the record that the data start with, and tells how many bytes it takes
/// up. `None` where its blank line is not there yet.
pub fn decode(data: &[u8]) -> (read: Option<(Vec<SseField>, usize)>)
    ensures
        match read {
            Some((fields, len)) => decoded(data@) == Some((fields_bytes(fields@), len as int)),
            None => decoded(data@) is None,
        },
{
    let mut fields: Vec<SseField> = Vec::new();
    let mut start: usize = 0;
    assert(data@.skip(0) =~= data@);
    assert(fields_bytes(fields@) =~= Seq::<SseFieldView>::empty());
    proof {
        if let Some((rest, _)) = decoded(data@) {
            assert(Seq::<SseFieldView>::empty() + rest =~= rest);
        }
    }
    loop
        invariant
            start <= data@.len(),
            match decoded(data@.skip(start as int)) {
                Some((rest, len)) => decoded(data@) == Some(
                    (fields_bytes(fields@) + rest, start + len),
                ),
                None => decoded(data@) is None,
            },
        decreases data@.len() - start,
    {
        let ghost rest = data@.skip(start as int);
        let mut at: usize = start;
        while at < data.len() && data[at] != 10 && data[at] != 13
            invariant
                start <= at <= data@.len(),
                rest == data@.skip(start as int),
                forall|i: int| 0 <= i < at - start ==> #[trigger] rest[i] != 10 && rest[i] != 13,
            decreases data@.len() - at,
        {
            assert(rest[at - start] == data@[at as int]);
            at += 1;
        }
        proof {
            if at < data@.len() {
                assert(rest[at - start] == data@[at as int]);
            }
            lemma_break_index_unique(rest, at - start);
        }
        if at >= data.len() {
            return None;
        }
        let next: usize = if data[at] == 13 && at + 1 < data.len() && data[at + 1] == 10 {
            at + 2
        } else {
            at + 1
        };
        proof {
            if at + 1 < data@.len() {
                assert(rest[at + 1 - start] == data@[at + 1]);
            }
            assert(next - start == next_line(rest, at - start));
            assert(rest.skip(next - start) =~= data@.skip(next as int));
        }
        if at == start {
            assert(fields_bytes(fields@) + Seq::empty() =~= fields_bytes(fields@));
            return Some((fields, next));
        }
        let ghost before = fields_bytes(fields@);
        let line = vstd::slice::slice_subrange(data, start, at);
        assert(line@ =~= rest.take(at - start));
        let field = decode_line(line);
        let ghost view = field@;
        fields.push(field);
        proof {
            assert(fields_bytes(fields@) =~= before.push(view));
            if let Some((later, _)) = decoded(data@.skip(next as int)) {
                assert(before.push(view) + later =~= before + (seq![view] + later));
            }
        }
        start = next;
    }
}

// ----- Laws -----

/// Fields on the wire, seen from the first.
proof fn lemma_lines_first(fields: Seq<SseFieldView>)
    requires
        fields.len() > 0,
    ensures
        field_lines(fields) == field_line(fields[0]) + field_lines(fields.drop_first()),
    decreases fields.len(),
{
    let rest = fields.drop_first();
    if fields.len() == 1 {
        assert(fields.drop_last() =~= Seq::<SseFieldView>::empty());
        assert(rest =~= Seq::<SseFieldView>::empty());
        assert(field_lines(fields) =~= field_line(fields[0]) + field_lines(rest));
    } else {
        lemma_lines_first(fields.drop_last());
        assert(fields.drop_last().drop_first() =~= rest.drop_last());
        assert(field_lines(fields) =~= field_line(fields[0]) + field_lines(rest));
    }
}

/// A field that can be written is read back from its line.
proof fn lemma_line_reads_back(field: SseFieldView)
    requires
        field_error(field) is None,
    ensures
        line_field(field_line(field).drop_last()) == field,
        single_line(field_line(field).drop_last()),
        field_line(field).drop_last().len() > 0,
{
    lemma_known_names();
    let name = field_name(field);
    let value = field_value(field);
    let line = field_line(field).drop_last();
    assert(line =~= name + seq![58u8, 32] + value);
    assert(name.len() < line.len() && line[name.len() as int] == 58);
    assert forall|i: int| 0 <= i < name.len() implies #[trigger] line[i] != 58 by {
        assert(line[i] == name[i]);
    }
    lemma_colon_index_unique(line, name.len() as int);
    assert(line.take(name.len() as int) =~= name);
    assert(line[name.len() as int + 1] == 32);
    assert(line.skip(name.len() as int + 2) =~= value);
    if name.len() + 2 == line.len() {
        assert(value =~= Seq::<u8>::empty());
    }
    assert(line_value(line) =~= value);
    lemma_field_is_one_line(field);
}

/// What is read back of a record that was written is the record: the same fields in
/// the same order, byte for byte, whatever follows it in the stream. In particular
/// a value cannot be read as the start of another field or record.
pub proof fn law_encoded_record_decodes(fields: Seq<SseFieldView>, tail: Seq<u8>)
    requires
        first_error(fields) is None,
    ensures
        decoded(encoded(fields) + tail) == Some((fields, encoded(fields).len() as int)),
    decreases fields.len(),
{
    let data = encoded(fields) + tail;
    if fields.len() == 0 {
        assert(data[0] == 10);
        lemma_break_index_unique(data, 0);
        assert(fields =~= Seq::<SseFieldView>::empty());
    } else {
        let first = fields[0];
        let rest = fields.drop_first();
        lemma_first_error_split(fields);
        lemma_lines_first(fields);
        lemma_line_reads_back(first);
        let line = field_line(first).drop_last();
        let at = line.len() as int;
        assert(encoded(fields) =~= field_line(first) + encoded(rest));
        assert(data[at] == 10);
        assert(data.take(at) =~= line);
        assert forall|i: int| 0 <= i < at implies #[trigger] data[i] != 10 && data[i] != 13 by {
            assert(data[i] == line[i]);
        }
        lemma_break_index_unique(data, at);
        assert(data.skip(at + 1) =~= encoded(rest) + tail);
        law_encoded_record_decodes(rest, tail);
        assert(seq![first] + rest =~= fields);
    }
}

proof fn lemma_first_error_split(fields: Seq<SseFieldView>)
    requires
        fields.len() > 0,
        first_error(fields) is None,
    ensures
        field_error(fields[0]) is None,
        first_error(fields.drop_first()) is None,
    decreases fields.len(),
{
    if fields.len() > 1 {
        lemma_first_error_split(fields.drop_last());
        assert(fields.drop_last().drop_first() =~= fields.drop_first().drop_last());
    } else {
        assert(fields.drop_first() =~= Seq::<SseFieldView>::empty());
    }
}

} // verus!
