//! The two record layouts and their packed byte form.
//!
//! A record's fields stand in the byte form in declaration order, with no
//! padding between or around them. Integers are little-endian.

use vstd::prelude::*;
use crate::publisher::OutboundMessage;
use crate::types::{decoded, encoded, is_plain, lemma_round_trip_when_fits, CharArray};

verus! {

/// The bytes of a ping record.
pub const PING_SIZE: usize = 32;

/// The bytes of a pong record.
pub const PONG_SIZE: usize = 28;

/// The four bytes of an integer, lowest first.
pub open spec fn le_bytes(x: u32) -> Seq<u8> {
    seq![
        (x % 256) as u8,
        (x / 256 % 256) as u8,
        (x / 65536 % 256) as u8,
        (x / 16777216) as u8,
    ]
}

/// The integer that four bytes hold, lowest first.
pub open spec fn le_value(bytes: Seq<u8>) -> u32 {
    (bytes[0] + 256 * bytes[1] + 65536 * bytes[2] + 16777216 * bytes[3]) as u32
}

/// Reading an integer's four bytes gives the integer back.
pub proof fn lemma_le_value_of_bytes(x: u32)
    ensures
        le_bytes(x).len() == 4,
        le_value(le_bytes(x)) == x,
{
}

/// Writing the integer that four bytes hold gives the bytes back.
pub proof fn lemma_le_bytes_of_value(bytes: Seq<u8>)
    requires
        bytes.len() == 4,
    ensures
        le_bytes(le_value(bytes)) == bytes,
{
    let b0: u32 = bytes[0] as u32;
    let b1: u32 = bytes[1] as u32;
    let b2: u32 = bytes[2] as u32;
    let b3: u32 = bytes[3] as u32;
    let x: u32 = le_value(bytes);
    assert(x == b0 + 256 * b1 + 65536 * b2 + 16777216 * b3);
    assert(x % 256 == b0 && x / 256 % 256 == b1 && x / 65536 % 256 == b2 && x / 16777216 == b3)
        by (bit_vector)
        requires
            b0 < 256 && b1 < 256 && b2 < 256 && b3 < 256,
            x == b0 + 256 * b1 + 65536 * b2 + 16777216 * b3,
    ;
    assert(le_bytes(x) =~= bytes);
}

/// Appends the four bytes of `x` to `out`.
pub(crate) fn write_u32(out: &mut Vec<u8>, x: u32)
    ensures
        final(out)@ == old(out)@ + le_bytes(x),
{
    out.push((x % 256) as u8);
    out.push((x / 256 % 256) as u8);
    out.push((x / 65536 % 256) as u8);
    out.push((x / 16777216) as u8);
    assert(out@ =~= old(out)@ + le_bytes(x));
}

/// Reads the integer held in the four bytes of `bytes` that start at `at`.
pub(crate) fn read_u32(bytes: &[u8], at: usize) -> (x: u32)
    requires
        at + 4 <= bytes@.len(),
    ensures
        x == le_value(bytes@.subrange(at as int, at + 4)),
{
    let b0: u32 = bytes[at] as u32;
    let b1: u32 = bytes[at + 1] as u32;
    let b2: u32 = bytes[at + 2] as u32;
    let b3: u32 = bytes[at + 3] as u32;
    b0 + 256 * b1 + 65536 * b2 + 16777216 * b3
}

/// A byte string whose length is not that of the record asked for.
#[derive(Clone, Copy, Debug, PartialEq, Eq)]
pub struct MalformedRecordError {
    /// The length of the record.
    pub expected: usize,
    /// The length of what was given.
    pub actual: usize,
}

/// A ping record as a request carries it.
#[derive(Clone, Debug, PartialEq, Eq)]
pub struct PingFields {
    pub operation_code: u32,
    pub name: String,
    pub email: String,
    pub order_id: u32,
    pub amount: u32,
}

/// What a ping record holds.
pub struct PingView {
    pub operation_code: u32,
    pub name: Seq<u8>,
    pub email: Seq<u8>,
    pub order_id: u32,
    pub amount: u32,
}

impl PingView {
    /// Both text fields have their ten bytes.
    pub open spec fn wf(self) -> bool {
        self.name.len() == 10 && self.email.len() == 10
    }

    /// The packed bytes of the record.
    pub open spec fn wire(self) -> Seq<u8> {
        le_bytes(self.operation_code) + self.name + self.email + le_bytes(self.order_id)
            + le_bytes(self.amount)
    }

    /// The record that 32 packed bytes hold.
    pub open spec fn parse(bytes: Seq<u8>) -> PingView {
        PingView {
            operation_code: le_value(bytes.subrange(0, 4)),
            name: bytes.subrange(4, 14),
            email: bytes.subrange(14, 24),
            order_id: le_value(bytes.subrange(24, 28)),
            amount: le_value(bytes.subrange(28, 32)),
        }
    }

    /// The record that stands for the given request values.
    pub open spec fn of_fields(fields: PingFields) -> PingView {
        PingView {
            operation_code: fields.operation_code,
            name: encoded(fields.name@, 10),
            email: encoded(fields.email@, 10),
            order_id: fields.order_id,
            amount: fields.amount,
        }
    }
}

/// The ping record: 32 bytes on the wire.
#[derive(Clone, Copy, Debug, PartialEq, Eq)]
pub struct PingPayload {
    operation_code: u32,
    name: CharArray<10>,
    email: CharArray<10>,
    order_id: u32,
    amount: u32,
}

impl View for PingPayload {
    type V = PingView;

    closed spec fn view(&self) -> PingView {
        PingView {
            operation_code: self.operation_code,
            name: self.name@,
            email: self.email@,
            order_id: self.order_id,
            amount: self.amount,
        }
    }
}

impl PingPayload {
    /// Every record is well formed.
    pub proof fn lemma_wf(self)
        ensures
            self@.wf(),
    {
        self.name.lemma_len();
        self.email.lemma_len();
    }

    /// Builds the record from request values, encoding both texts. The flag
    /// tells whether either text was cut to fit its field.
    pub fn from_structured(fields: &PingFields) -> (r: (Self, bool))
        ensures
            r.0@ == PingView::of_fields(*fields),
            r.1 == (fields.name@.len() > 10 || fields.email@.len() > 10),
    {
        let (name, name_cut) = CharArray::<10>::encode(fields.name.as_str());
        let (email, email_cut) = CharArray::<10>::encode(fields.email.as_str());
        let record = PingPayload {
            operation_code: fields.operation_code,
            name,
            email,
            order_id: fields.order_id,
            amount: fields.amount,
        };
        (record, name_cut || email_cut)
    }

    /// The request values of the record, with both texts decoded.
    pub fn to_structured(&self) -> (fields: PingFields)
        ensures
            fields.operation_code == self@.operation_code,
            fields.name@ == decoded(self@.name),
            fields.email@ == decoded(self@.email),
            fields.order_id == self@.order_id,
            fields.amount == self@.amount,
    {
        PingFields {
            operation_code: self.operation_code,
            name: self.name.decode(),
            email: self.email.decode(),
            order_id: self.order_id,
            amount: self.amount,
        }
    }

    /// The packed bytes of the record.
    pub fn to_bytes(&self) -> (bytes: Vec<u8>)
        ensures
            bytes@ == self@.wire(),
            bytes@.len() == PING_SIZE,
            PingView::parse(bytes@) == self@,
    {
        let mut out: Vec<u8> = Vec::with_capacity(PING_SIZE);
        write_u32(&mut out, self.operation_code);
        self.name.write(&mut out);
        self.email.write(&mut out);
        write_u32(&mut out, self.order_id);
        write_u32(&mut out, self.amount);
        proof {
            self.lemma_wf();
            assert(out@ =~= self@.wire());
            lemma_ping_parse_of_wire(self@);
        }
        out
    }

    /// The message that carries the record to `topic` under `key`: its
    /// payload is the record's packed bytes.
    pub fn to_message(&self, topic: &str, key: &str) -> (message: OutboundMessage)
        ensures
            message.topic@ == topic@,
            message.key@ == key@,
            message.payload@ == self@.wire(),
    {
        OutboundMessage::new(topic, key, self.to_bytes())
    }

    /// Reads a record from its packed bytes. Fails exactly when `bytes` has
    /// not the length of the record.
    pub fn from_bytes(bytes: &[u8]) -> (r: Result<Self, MalformedRecordError>)
        ensures
            bytes@.len() == PING_SIZE ==> r is Ok && r->Ok_0@ == PingView::parse(bytes@),
            bytes@.len() != PING_SIZE ==> r == Err::<Self, MalformedRecordError>(
                MalformedRecordError { expected: PING_SIZE, actual: bytes@.len() as usize },
            ),
    {
        if bytes.len() != PING_SIZE {
            return Err(MalformedRecordError { expected: PING_SIZE, actual: bytes.len() });
        }
        Ok(
            PingPayload {
                operation_code: read_u32(bytes, 0),
                name: CharArray::<10>::read(bytes, 4),
                email: CharArray::<10>::read(bytes, 14),
                order_id: read_u32(bytes, 24),
                amount: read_u32(bytes, 28),
            },
        )
    }
}

/// The packed bytes of a record are 32, and reading them gives the record
/// back.
pub proof fn lemma_ping_parse_of_wire(v: PingView)
    requires
        v.wf(),
    ensures
        v.wire().len() == PING_SIZE,
        PingView::parse(v.wire()) == v,
{
    let w = v.wire();
    lemma_le_value_of_bytes(v.operation_code);
    lemma_le_value_of_bytes(v.order_id);
    lemma_le_value_of_bytes(v.amount);
    assert(w.subrange(0, 4) =~= le_bytes(v.operation_code));
    assert(w.subrange(4, 14) =~= v.name);
    assert(w.subrange(14, 24) =~= v.email);
    assert(w.subrange(24, 28) =~= le_bytes(v.order_id));
    assert(w.subrange(28, 32) =~= le_bytes(v.amount));
}

/// Packing the record that 32 bytes hold gives the bytes back.
pub proof fn lemma_ping_wire_of_parse(bytes: Seq<u8>)
    requires
        bytes.len() == PING_SIZE,
    ensures
        PingView::parse(bytes).wf(),
        PingView::parse(bytes).wire() == bytes,
{
    lemma_le_bytes_of_value(bytes.subrange(0, 4));
    lemma_le_bytes_of_value(bytes.subrange(24, 28));
    lemma_le_bytes_of_value(bytes.subrange(28, 32));
    assert(PingView::parse(bytes).wire() =~= bytes);
}

/// Request values whose texts fit their fields and hold plain characters
/// only come back unchanged from the record built of them.
pub proof fn lemma_ping_fields_round_trip(fields: PingFields)
    requires
        fields.name@.len() <= 10,
        fields.email@.len() <= 10,
        forall|i: int| 0 <= i < fields.name@.len() ==> is_plain(#[trigger] fields.name@[i]),
        forall|i: int| 0 <= i < fields.email@.len() ==> is_plain(#[trigger] fields.email@[i]),
    ensures
        decoded(PingView::of_fields(fields).name) == fields.name@,
        decoded(PingView::of_fields(fields).email) == fields.email@,
{
    lemma_round_trip_when_fits(fields.name@, 10);
    lemma_round_trip_when_fits(fields.email@, 10);
}

/// A pong record as a request carries it.
#[derive(Clone, Debug, PartialEq, Eq)]
pub struct PongFields {
    pub laptop_id: u32,
    pub model: String,
    pub color: String,
    pub price: u32,
}

/// What a pong record holds.
pub struct PongView {
    pub laptop_id: u32,
    pub model: Seq<u8>,
    pub color: Seq<u8>,
    pub price: u32,
}

impl PongView {
    /// Both text fields have their ten bytes.
    pub open spec fn wf(self) -> bool {
        self.model.len() == 10 && self.color.len() == 10
    }

    /// The packed bytes of the record.
    pub open spec fn wire(self) -> Seq<u8> {
        le_bytes(self.laptop_id) + self.model + self.color + le_bytes(self.price)
    }

    /// The record that 28 packed bytes hold.
    pub open spec fn parse(bytes: Seq<u8>) -> PongView {
        PongView {
            laptop_id: le_value(bytes.subrange(0, 4)),
            model: bytes.subrange(4, 14),
            color: bytes.subrange(14, 24),
            price: le_value(bytes.subrange(24, 28)),
        }
    }

    /// The record that stands for the given request values.
    pub open spec fn of_fields(fields: PongFields) -> PongView {
        PongView {
            laptop_id: fields.laptop_id,
            model: encoded(fields.model@, 10),
            color: encoded(fields.color@, 10),
            price: fields.price,
        }
    }
}

/// The pong record: 28 bytes on the wire.
#[derive(Clone, Copy, Debug, PartialEq, Eq)]
pub struct PongPayload {
    laptop_id: u32,
    model: CharArray<10>,
    color: CharArray<10>,
    price: u32,
}

impl View for PongPayload {
    type V = PongView;

    closed spec fn view(&self) -> PongView {
        PongView {
            laptop_id: self.laptop_id,
            model: self.model@,
            color: self.color@,
            price: self.price,
        }
    }
}

impl PongPayload {
    /// Every record is well formed.
    pub proof fn lemma_wf(self)
        ensures
            self@.wf(),
    {
        self.model.lemma_len();
        self.color.lemma_len();
    }

    /// Builds the record from request values, encoding both texts. The flag
    /// tells whether either text was cut to fit its field.
    pub fn from_structured(fields: &PongFields) -> (r: (Self, bool))
        ensures
            r.0@ == PongView::of_fields(*fields),
            r.1 == (fields.model@.len() > 10 || fields.color@.len() > 10),
    {
        let (model, model_cut) = CharArray::<10>::encode(fields.model.as_str());
        let (color, color_cut) = CharArray::<10>::encode(fields.color.as_str());
        let record = PongPayload { laptop_id: fields.laptop_id, model, color, price: fields.price };
        (record, model_cut || color_cut)
    }

    /// The request values of the record, with both texts decoded.
    pub fn to_structured(&self) -> (fields: PongFields)
        ensures
            fields.laptop_id == self@.laptop_id,
            fields.model@ == decoded(self@.model),
            fields.color@ == decoded(self@.color),
            fields.price == self@.price,
    {
        PongFields {
            laptop_id: self.laptop_id,
            model: self.model.decode(),
            color: self.color.decode(),
            price: self.price,
        }
    }

    /// The packed bytes of the record.
    pub fn to_bytes(&self) -> (bytes: Vec<u8>)
        ensures
            bytes@ == self@.wire(),
            bytes@.len() == PONG_SIZE,
            PongView::parse(bytes@) == self@,
    {
        let mut out: Vec<u8> = Vec::with_capacity(PONG_SIZE);
        write_u32(&mut out, self.laptop_id);
        self.model.write(&mut out);
        self.color.write(&mut out);
        write_u32(&mut out, self.price);
        proof {
            self.lemma_wf();
            assert(out@ =~= self@.wire());
            lemma_pong_parse_of_wire(self@);
        }
        out
    }

    /// The message that carries the record to `topic` under `key`: its
    /// payload is the record's packed bytes.
    pub fn to_message(&self, topic: &str, key: &str) -> (message: OutboundMessage)
        ensures
            message.topic@ == topic@,
            message.key@ == key@,
            message.payload@ == self@.wire(),
    {
        OutboundMessage::new(topic, key, self.to_bytes())
    }

    /// Reads a record from its packed bytes. Fails exactly when `bytes` has
    /// not the length of the record.
    pub fn from_bytes(bytes: &[u8]) -> (r: Result<Self, MalformedRecordError>)
        ensures
            bytes@.len() == PONG_SIZE ==> r is Ok && r->Ok_0@ == PongView::parse(bytes@),
            bytes@.len() != PONG_SIZE ==> r == Err::<Self, MalformedRecordError>(
                MalformedRecordError { expected: PONG_SIZE, actual: bytes@.len() as usize },
            ),
    {
        if bytes.len() != PONG_SIZE {
            return Err(MalformedRecordError { expected: PONG_SIZE, actual: bytes.len() });
        }
        Ok(
            PongPayload {
                laptop_id: read_u32(bytes, 0),
                model: CharArray::<10>::read(bytes, 4),
                color: CharArray::<10>::read(bytes, 14),
                price: read_u32(bytes, 24),
            },
        )
    }
}

/// The packed bytes of a record are 28, and reading them gives the record
/// back.
pub proof fn lemma_pong_parse_of_wire(v: PongView)
    requires
        v.wf(),
    ensures
        v.wire().len() == PONG_SIZE,
        PongView::parse(v.wire()) == v,
{
    let w = v.wire();
    lemma_le_value_of_bytes(v.laptop_id);
    lemma_le_value_of_bytes(v.price);
    assert(w.subrange(0, 4) =~= le_bytes(v.laptop_id));
    assert(w.subrange(4, 14) =~= v.model);
    assert(w.subrange(14, 24) =~= v.color);
    assert(w.subrange(24, 28) =~= le_bytes(v.price));
}

/// Packing the record that 28 bytes hold gives the bytes back.
pub proof fn lemma_pong_wire_of_parse(bytes: Seq<u8>)
    requires
        bytes.len() == PONG_SIZE,
    ensures
        PongView::parse(bytes).wf(),
        PongView::parse(bytes).wire() == bytes,
{
    lemma_le_bytes_of_value(bytes.subrange(0, 4));
    lemma_le_bytes_of_value(bytes.subrange(24, 28));
    assert(PongView::parse(bytes).wire() =~= bytes);
}

/// Request values whose texts fit their fields and hold plain characters
/// only come back unchanged from the record built of them.
pub proof fn lemma_pong_fields_round_trip(fields: PongFields)
    requires
        fields.model@.len() <= 10,
        fields.color@.len() <= 10,
        forall|i: int| 0 <= i < fields.model@.len() ==> is_plain(#[trigger] fields.model@[i]),
        forall|i: int| 0 <= i < fields.color@.len() ==> is_plain(#[trigger] fields.color@[i]),
    ensures
        decoded(PongView::of_fields(fields).model) == fields.model@,
        decoded(PongView::of_fields(fields).color) == fields.color@,
{
    lemma_round_trip_when_fits(fields.model@, 10);
    lemma_round_trip_when_fits(fields.color@, 10);
}

} // verus!
