//! Records of an event stream.
use crate::chunk::bytes_data;
use crate::text::{ascii_bytes, decimal, decimal_text, lemma_decimal_bytes};
use bytes::{Bytes, BytesMut};
use vstd::prelude::*;
use vstd::string::*;
use vstd::utf8::*;

verus! {

/// The name of a field that names an event.
pub const EVENT_NAME: &'static str = "event";

/// The name of a field that holds data.
pub const DATA_NAME: &'static str = "data";

/// The name of a field that holds an id.
pub const ID_NAME: &'static str = "id";

/// The name of a field that holds a delay.
pub const RETRY_NAME: &'static str = "retry";

/// One field of a record.
pub enum SseField {
    /// Name of the event.
    Event(Bytes),
    /// One line of data.
    Data(Bytes),
    /// Id of the event.
    Id(Bytes),
    /// Delay before the client connects again.
    Retry(Bytes),
    /// A comment, which clients skip.
    Comment(Bytes),
    /// A field that clients do not know.
    Unknown {
        /// Its name.
        name: Bytes,
        /// Its value.
        value: Bytes,
    },
}

/// One field of a record, as bytes.
pub enum SseFieldView {
    /// Name of the event.
    Event(Seq<u8>),
    /// One line of data.
    Data(Seq<u8>),
    /// Id of the event.
    Id(Seq<u8>),
    /// Delay before the client connects again.
    Retry(Seq<u8>),
    /// A comment, which clients skip.
    Comment(Seq<u8>),
    /// A field that clients do not know.
    Unknown {
        /// Its name.
        name: Seq<u8>,
        /// Its value.
        value: Seq<u8>,
    },
}

impl View for SseField {
    type V = SseFieldView;

    open spec fn view(&self) -> SseFieldView {
        match *self {
            SseField::Event(value) => SseFieldView::Event(bytes_data(value)),
            SseField::Data(value) => SseFieldView::Data(bytes_data(value)),
            SseField::Id(value) => SseFieldView::Id(bytes_data(value)),
            SseField::Retry(value) => SseFieldView::Retry(bytes_data(value)),
            SseField::Comment(value) => SseFieldView::Comment(bytes_data(value)),
            SseField::Unknown { name, value } => SseFieldView::Unknown {
                name: bytes_data(name),
                value: bytes_data(value),
            },
        }
    }
}

/// Fields, each as bytes.
pub open spec fn fields_bytes(fields: Seq<SseField>) -> Seq<SseFieldView> {
    Seq::new(fields.len(), |i: int| fields[i]@)
}

/// Data that stays on one line.
pub open spec fn single_line(data: Seq<u8>) -> bool {
    forall|i: int| 0 <= i < data.len() ==> #[trigger] data[i] != 10 && data[i] != 13
}

/// A name with a meaning of its own.
pub open spec fn is_known_name(name: Seq<u8>) -> bool {
    ||| name == ascii_bytes(EVENT_NAME@)
    ||| name == ascii_bytes(DATA_NAME@)
    ||| name == ascii_bytes(ID_NAME@)
    ||| name == ascii_bytes(RETRY_NAME@)
}

/// A name that an unknown field can have: not that of another kind of field, and
/// without a colon, which would end it.
pub open spec fn is_unknown_name(name: Seq<u8>) -> bool {
    &&& name.len() > 0
    &&& single_line(name)
    &&& forall|i: int| 0 <= i < name.len() ==> #[trigger] name[i] != 58
    &&& !is_known_name(name)
}

/// Why a record cannot be built.
#[derive(Clone, Copy, Debug, PartialEq, Eq, Structural)]
pub enum SseBuildError {
    /// A value holds a line break.
    LineBreak,
    /// An unknown field has a name that would be read as something else.
    InvalidName,
}

/// The name that a field is written under.
pub open spec fn field_name(field: SseFieldView) -> Seq<u8> {
    match field {
        SseFieldView::Event(_) => ascii_bytes(EVENT_NAME@),
        SseFieldView::Data(_) => ascii_bytes(DATA_NAME@),
        SseFieldView::Id(_) => ascii_bytes(ID_NAME@),
        SseFieldView::Retry(_) => ascii_bytes(RETRY_NAME@),
        SseFieldView::Comment(_) => Seq::empty(),
        SseFieldView::Unknown { name, .. } => name,
    }
}

/// The value of a field.
pub open spec fn field_value(field: SseFieldView) -> Seq<u8> {
    match field {
        SseFieldView::Event(value) => value,
        SseFieldView::Data(value) => value,
        SseFieldView::Id(value) => value,
        SseFieldView::Retry(value) => value,
        SseFieldView::Comment(value) => value,
        SseFieldView::Unknown { value, .. } => value,
    }
}

/// What is wrong with a field, if anything.
pub open spec fn field_error(field: SseFieldView) -> Option<SseBuildError> {
    if field is Unknown && !is_unknown_name(field_name(field)) {
        Some(SseBuildError::InvalidName)
    } else if !single_line(field_value(field)) {
        Some(SseBuildError::LineBreak)
    } else {
        None
    }
}

/// What is wrong with the first field that cannot be written, if any.
pub open spec fn first_error(fields: Seq<SseFieldView>) -> Option<SseBuildError>
    decreases fields.len(),
{
    if fields.len() == 0 {
        None
    } else {
        match first_error(fields.drop_last()) {
            Some(error) => Some(error),
            None => field_error(fields.last()),
        }
    }
}

fn is_single_line(data: &[u8]) -> (single: bool)
    ensures
        single == single_line(data@),
{
    let mut i: usize = 0;
    while i < data.len()
        invariant
            i <= data@.len(),
            forall|j: int| 0 <= j < i ==> #[trigger] data@[j] != 10 && data@[j] != 13,
        decreases data@.len() - i,
    {
        if data[i] == 10 || data[i] == 13 {
            return false;
        }
        i += 1;
    }
    true
}

fn has_no_colon(data: &[u8]) -> (none: bool)
    ensures
        none == forall|i: int| 0 <= i < data@.len() ==> #[trigger] data@[i] != 58,
{
    let mut i: usize = 0;
    while i < data.len()
        invariant
            i <= data@.len(),
            forall|j: int| 0 <= j < i ==> #[trigger] data@[j] != 58,
        decreases data@.len() - i,
    {
        if data[i] == 58 {
            return false;
        }
        i += 1;
    }
    true
}

/// Whether some data are the given ASCII text.
pub fn is_text(data: &[u8], text: &str) -> (same: bool)
    requires
        is_ascii_chars(text@),
    ensures
        same == (data@ == ascii_bytes(text@)),
{
    let wanted = text.as_bytes();
    proof {
        is_ascii_chars_encode_utf8(text@);
        assert(wanted@ =~= ascii_bytes(text@));
    }
    if data.len() != wanted.len() {
        return false;
    }
    let mut i: usize = 0;
    while i < data.len()
        invariant
            i <= data@.len(),
            data@.len() == wanted@.len(),
            wanted@ == ascii_bytes(text@),
            forall|j: int| 0 <= j < i ==> data@[j] == wanted@[j],
        decreases data@.len() - i,
    {
        if data[i] != wanted[i] {
            return false;
        }
        i += 1;
    }
    assert(data@ =~= wanted@);
    true
}

/// The known names are ASCII, and differ from each other.
pub proof fn lemma_known_names()
    ensures
        is_ascii_chars(EVENT_NAME@),
        is_ascii_chars(DATA_NAME@),
        is_ascii_chars(ID_NAME@),
        is_ascii_chars(RETRY_NAME@),
        encode_utf8(EVENT_NAME@) == ascii_bytes(EVENT_NAME@),
        encode_utf8(DATA_NAME@) == ascii_bytes(DATA_NAME@),
        encode_utf8(ID_NAME@) == ascii_bytes(ID_NAME@),
        encode_utf8(RETRY_NAME@) == ascii_bytes(RETRY_NAME@),
        ascii_bytes(EVENT_NAME@) == seq![101u8, 118, 101, 110, 116],
        ascii_bytes(DATA_NAME@) == seq![100u8, 97, 116, 97],
        ascii_bytes(ID_NAME@) == seq![105u8, 100],
        ascii_bytes(RETRY_NAME@) == seq![114u8, 101, 116, 114, 121],
        ascii_bytes(EVENT_NAME@)[0] != ascii_bytes(RETRY_NAME@)[0],
{
    reveal_strlit("event");
    reveal_strlit("data");
    reveal_strlit("id");
    reveal_strlit("retry");
    is_ascii_chars_encode_utf8(EVENT_NAME@);
    is_ascii_chars_encode_utf8(DATA_NAME@);
    is_ascii_chars_encode_utf8(ID_NAME@);
    is_ascii_chars_encode_utf8(RETRY_NAME@);
    assert(encode_utf8(EVENT_NAME@) =~= ascii_bytes(EVENT_NAME@));
    assert(encode_utf8(DATA_NAME@) =~= ascii_bytes(DATA_NAME@));
    assert(encode_utf8(ID_NAME@) =~= ascii_bytes(ID_NAME@));
    assert(encode_utf8(RETRY_NAME@) =~= ascii_bytes(RETRY_NAME@));
    assert(ascii_bytes(EVENT_NAME@) =~= seq![101u8, 118, 101, 110, 116]);
    assert(ascii_bytes(DATA_NAME@) =~= seq![100u8, 97, 116, 97]);
    assert(ascii_bytes(ID_NAME@) =~= seq![105u8, 100]);
    assert(ascii_bytes(RETRY_NAME@) =~= seq![114u8, 101, 116, 114, 121]);
}

/// Checks one field.
fn check_field(field: &SseField) -> (error: Option<SseBuildError>)
    ensures
        error == field_error(field@),
{
    proof {
        lemma_known_names();
    }
    let single = match field {
        SseField::Event(value) => is_single_line(value),
        SseField::Data(value) => is_single_line(value),
        SseField::Id(value) => is_single_line(value),
        SseField::Retry(value) => is_single_line(value),
        SseField::Comment(value) => is_single_line(value),
        SseField::Unknown { name, value } => {
            if name.len() == 0 || !is_single_line(name) || !has_no_colon(name) || is_text(
                name,
                EVENT_NAME,
            ) || is_text(name, DATA_NAME) || is_text(name, ID_NAME) || is_text(name, RETRY_NAME) {
                return Some(SseBuildError::InvalidName);
            }
            is_single_line(value)
        },
    };
    if single {
        None
    } else {
        Some(SseBuildError::LineBreak)
    }
}

/// A record whose fields can be written without being read as something else.
pub struct SseRecord {
    fields: Vec<SseField>,
}

impl SseRecord {
    /// The fields, in the order in which they are written.
    pub closed spec fn spec_fields(&self) -> Seq<SseFieldView> {
        fields_bytes(self.fields@)
    }

    #[verifier::type_invariant]
    closed spec fn wf(&self) -> bool {
        first_error(fields_bytes(self.fields@)) is None
    }

    /// Starts a record.
    pub fn builder() -> (builder: SseRecordBuilder)
        ensures
            builder@ == Seq::<SseFieldView>::empty(),
    {
        let builder = SseRecordBuilder { fields: Vec::new() };
        assert(builder@ =~= Seq::<SseFieldView>::empty());
        builder
    }

    /// The fields, in the order in which they are written.
    pub fn fields(&self) -> (fields: &Vec<SseField>)
        ensures
            fields_bytes(fields@) == self.spec_fields(),
            first_error(self.spec_fields()) is None,
    {
        proof {
            use_type_invariant(self);
        }
        &self.fields
    }
}

/// Collects the fields of a record.
pub struct SseRecordBuilder {
    fields: Vec<SseField>,
}

impl View for SseRecordBuilder {
    type V = Seq<SseFieldView>;

    closed spec fn view(&self) -> Seq<SseFieldView> {
        fields_bytes(self.fields@)
    }
}

impl SseRecordBuilder {
    /// Adds a field.
    pub fn field(self, field: SseField) -> (builder: Self)
        ensures
            builder@ == self@.push(field@),
    {
        let mut fields = self.fields;
        fields.push(field);
        let builder = SseRecordBuilder { fields };
        assert(builder@ =~= self@.push(field@));
        builder
    }

    /// Names the event.
    pub fn event(self, value: Bytes) -> (builder: Self)
        ensures
            builder@ == self@.push(SseFieldView::Event(bytes_data(value))),
    {
        self.field(SseField::Event(value))
    }

    /// Adds a line of data.
    pub fn data(self, value: Bytes) -> (builder: Self)
        ensures
            builder@ == self@.push(SseFieldView::Data(bytes_data(value))),
    {
        self.field(SseField::Data(value))
    }

    /// Gives the event an id.
    pub fn id(self, value: Bytes) -> (builder: Self)
        ensures
            builder@ == self@.push(SseFieldView::Id(bytes_data(value))),
    {
        self.field(SseField::Id(value))
    }

    /// Sets the delay before the client connects again, in milliseconds.
    pub fn retry(self, millis: u64) -> (builder: Self)
        ensures
            builder@ == self@.push(SseFieldView::Retry(ascii_bytes(decimal(millis as nat)))),
    {
        let text = decimal_text(millis);
        proof {
            lemma_decimal_bytes(millis as nat);
            lemma_decimal_len(millis as nat);
        }
        let mut digits = BytesMut::new();
        digits.extend_from_slice(text.as_str().as_bytes());
        let value = digits.freeze();
        assert(bytes_data(value) =~= ascii_bytes(decimal(millis as nat)));
        self.field(SseField::Retry(value))
    }

    /// Adds a comment.
    pub fn comment(self, value: Bytes) -> (builder: Self)
        ensures
            builder@ == self@.push(SseFieldView::Comment(bytes_data(value))),
    {
        self.field(SseField::Comment(value))
    }

    /// Completes the record, unless one of its fields cannot be written.
    pub fn build(self) -> (built: Result<SseRecord, SseBuildError>)
        ensures
            match first_error(self@) {
                None => built matches Ok(record) && record.spec_fields() == self@,
                Some(error) => built == Err::<SseRecord, SseBuildError>(error),
            },
    {
        let ghost views = fields_bytes(self.fields@);
        let mut i: usize = 0;
        assert(views.take(0) =~= Seq::<SseFieldView>::empty());
        while i < self.fields.len()
            invariant
                i <= self.fields@.len(),
                views == fields_bytes(self.fields@),
                first_error(views.take(i as int)) is None,
            decreases self.fields@.len() - i,
        {
            assert(views.take(i + 1).drop_last() =~= views.take(i as int));
            assert(views.take(i + 1).last() == self.fields@[i as int]@);
            match check_field(&self.fields[i]) {
                Some(error) => {
                    proof {
                        lemma_first_error_stays(views, i + 1);
                    }
                    return Err(error);
                },
                None => {},
            }
            i += 1;
        }
        assert(views.take(i as int) =~= views);
        Ok(SseRecord { fields: self.fields })
    }
}

proof fn lemma_first_error_stays(fields: Seq<SseFieldView>, n: int)
    requires
        0 <= n <= fields.len(),
        first_error(fields.take(n)) is Some,
    ensures
        first_error(fields) == first_error(fields.take(n)),
    decreases fields.len(),
{
    if n == fields.len() {
        assert(fields.take(n) =~= fields);
    } else {
        assert(fields.drop_last().take(n) =~= fields.take(n));
        lemma_first_error_stays(fields.drop_last(), n);
    }
}

/// No 64-bit number has more than 20 digits.
proof fn lemma_decimal_len(n: nat)
    requires
        n <= u64::MAX,
    ensures
        decimal(n).len() <= 20,
{
    reveal_with_fuel(decimal, 21);
}

} // verus!
