use vstd::prelude::*;

pub mod compact;
pub mod sink;
pub mod types;

pub use compact::build_int_buf;
pub use sink::Sink;

use compact::{be_value, compact, lemma_compact_round_trip};
use types::{header, is_nibble, lemma_header_parts, BOOLEAN, INT_NEG, INT_POS};

verus! {

/// The inline code of an optional boolean: absent, true and false are 0, 1 and 2.
pub open spec fn bool_code(value: Option<bool>) -> u8 {
    match value {
        None => 0,
        Some(true) => 1,
        Some(false) => 2,
    }
}

/// A header byte that holds `tag` and the length of `payload`, then the payload.
pub open spec fn short_record(tag: u8, payload: Seq<u8>) -> Seq<u8> {
    seq![header(tag, payload.len() as u8)] + payload
}

/// The bytes of an optional boolean: one header byte with the value inline.
pub open spec fn bool_record(value: Option<bool>) -> Seq<u8> {
    seq![header(BOOLEAN, bool_code(value))]
}

/// The bytes of an optional unsigned integer, under the positive tag.
pub open spec fn int_pos_record(value: Option<u64>) -> Seq<u8> {
    match value {
        None => short_record(INT_POS, Seq::empty()),
        Some(m) => short_record(INT_POS, compact(m)),
    }
}

/// The bytes of an optional negative integer given by its magnitude, which is
/// stored less one.
pub open spec fn int_neg_record(magnitude: Option<u64>) -> Seq<u8>
    recommends
        magnitude matches Some(m) ==> m >= 1,
{
    match magnitude {
        None => short_record(INT_NEG, Seq::empty()),
        Some(m) => short_record(INT_NEG, compact((m - 1) as u64)),
    }
}

/// The bytes of an optional signed integer. Absence is written under the
/// positive tag, whatever sign the value would have had.
pub open spec fn int_record(value: Option<i64>) -> Seq<u8> {
    match value {
        None => short_record(INT_POS, Seq::empty()),
        Some(v) => if v >= 0 {
            int_pos_record(Some(v as u64))
        } else {
            int_neg_record(Some((-v) as u64))
        },
    }
}

/// An integer record reads back: its header holds the integer tag and the
/// length of the payload that follows, and the payload, read as a big-endian
/// number, is the magnitude, less one for a negative integer.
pub proof fn lemma_int_records_decode(m: u64)
    ensures
        ({
            let rec = int_pos_record(Some(m));
            &&& rec[0] / 16 == INT_POS
            &&& rec[0] % 16 == rec.len() - 1
            &&& 2 <= rec.len() <= 9
            &&& be_value(rec.subrange(1, rec.len() as int)) == m
        }),
        m >= 1 ==> ({
            let rec = int_neg_record(Some(m));
            &&& rec[0] / 16 == INT_NEG
            &&& rec[0] % 16 == rec.len() - 1
            &&& 2 <= rec.len() <= 9
            &&& be_value(rec.subrange(1, rec.len() as int)) + 1 == m
        }),
{
    lemma_compact_round_trip(m);
    let p = compact(m);
    lemma_header_parts(INT_POS, p.len() as u8);
    assert(int_pos_record(Some(m)).subrange(1, p.len() as int + 1) =~= p);
    if m >= 1 {
        let q = compact((m - 1) as u64);
        lemma_compact_round_trip((m - 1) as u64);
        lemma_header_parts(INT_NEG, q.len() as u8);
        assert(int_neg_record(Some(m)).subrange(1, q.len() as int + 1) =~= q);
    }
}

/// Encodes values onto a sink, each as a header byte and a payload.
pub struct Writer<W> {
    inner: W,
}

impl<W: Sink> View for Writer<W> {
    type V = Seq<u8>;

    /// The bytes that the sink holds.
    closed spec fn view(&self) -> Seq<u8> {
        self.inner.bytes()
    }
}

impl<W: Sink> Writer<W> {
    /// Whether the sink takes every write without failing.
    pub closed spec fn infallible(&self) -> bool {
        self.inner.infallible()
    }

    pub fn new(inner: W) -> (r: Writer<W>)
        ensures
            r@ == inner.bytes(),
            r.infallible() == inner.infallible(),
    {
        Writer { inner: inner }
    }

    pub fn write_bool(&mut self, value: bool) -> (r: Result<(), W::Error>)
        ensures
            r is Ok ==> final(self)@ == old(self)@ + bool_record(Some(value)),
            old(self).infallible() ==> r is Ok,
            final(self).infallible() == old(self).infallible(),
    {
        self.write_bool_opt(Some(value))
    }

    pub fn write_bool_opt(&mut self, value: Option<bool>) -> (r: Result<(), W::Error>)
        ensures
            r is Ok ==> final(self)@ == old(self)@ + bool_record(value),
            old(self).infallible() ==> r is Ok,
            final(self).infallible() == old(self).infallible(),
    {
        let raw_value: u8 = match value {
            None => 0,
            Some(true) => 1,
            Some(false) => 2,
        };
        self.write_tiny(BOOLEAN, raw_value)
    }

    pub fn write_int_pos(&mut self, value: u64) -> (r: Result<(), W::Error>)
        ensures
            r is Ok ==> final(self)@ == old(self)@ + int_pos_record(Some(value)),
            old(self).infallible() ==> r is Ok,
            final(self).infallible() == old(self).infallible(),
    {
        self.write_int_pos_opt(Some(value))
    }

    pub fn write_int_pos_opt(&mut self, value: Option<u64>) -> (r: Result<(), W::Error>)
        ensures
            r is Ok ==> final(self)@ == old(self)@ + int_pos_record(value),
            old(self).infallible() ==> r is Ok,
            final(self).infallible() == old(self).infallible(),
    {
        let value = match value {
            Some(value) => value,
            None => return self.write_short(INT_POS, &[]),
        };
        let mut buffer = [0u8; 8];
        let len = build_int_buf(value, &mut buffer);
        self.write_short(INT_POS, &buffer[0..len])
    }

    /// Writes the negative integer whose magnitude is `value`; there is no negative zero.
    pub fn write_int_neg(&mut self, value: u64) -> (r: Result<(), W::Error>)
        requires
            value >= 1,
        ensures
            r is Ok ==> final(self)@ == old(self)@ + int_neg_record(Some(value)),
            old(self).infallible() ==> r is Ok,
            final(self).infallible() == old(self).infallible(),
    {
        self.write_int_neg_opt(Some(value))
    }

    pub fn write_int_neg_opt(&mut self, value: Option<u64>) -> (r: Result<(), W::Error>)
        requires
            value matches Some(m) ==> m >= 1,
        ensures
            r is Ok ==> final(self)@ == old(self)@ + int_neg_record(value),
            old(self).infallible() ==> r is Ok,
            final(self).infallible() == old(self).infallible(),
    {
        let value = match value {
            Some(value) => value,
            None => return self.write_short(INT_NEG, &[]),
        };
        let value = value.checked_sub(1).expect("cannot have negative 0");
        let mut buffer = [0u8; 8];
        let len = build_int_buf(value, &mut buffer);
        self.write_short(INT_NEG, &buffer[0..len])
    }

    pub fn write_int(&mut self, value: i64) -> (r: Result<(), W::Error>)
        ensures
            r is Ok ==> final(self)@ == old(self)@ + int_record(Some(value)),
            old(self).infallible() ==> r is Ok,
            final(self).infallible() == old(self).infallible(),
    {
        self.write_int_opt(Some(value))
    }

    pub fn write_int_opt(&mut self, value: Option<i64>) -> (r: Result<(), W::Error>)
        ensures
            r is Ok ==> final(self)@ == old(self)@ + int_record(value),
            old(self).infallible() ==> r is Ok,
            final(self).infallible() == old(self).infallible(),
    {
        let value = match value {
            Some(value) => value,
            None => return self.write_short(INT_POS, &[]),
        };
        if value >= 0 {
            self.write_int_pos(value as u64)
        } else {
            // the magnitude of a negative i64, i64::MIN included, fits in a u64
            let magnitude = ((-(value + 1)) as u64) + 1;
            self.write_int_neg(magnitude)
        }
    }

    /// Writes one header byte holding `kind` and `value`, both under sixteen.
    fn write_tiny(&mut self, kind: u8, value: u8) -> (r: Result<(), W::Error>)
        requires
            is_nibble(kind),
            is_nibble(value),
        ensures
            r is Ok ==> final(self)@ == old(self)@ + seq![header(kind, value)],
            old(self).infallible() ==> r is Ok,
            final(self).infallible() == old(self).infallible(),
    {
        proof {
            assert(kind <= 15 && value <= 15 ==> kind << 4 | value == ((kind * 16 + value) as u8))
                by (bit_vector);
        }
        let head = kind << 4 | value;
        let one = [head];
        proof {
            assert(one@ =~= seq![head]);
        }
        self.inner.write_all(&one)
    }

    /// Writes a header byte holding `kind` and the length of `bytes`, then `bytes`.
    fn write_short(&mut self, kind: u8, bytes: &[u8]) -> (r: Result<(), W::Error>)
        requires
            is_nibble(kind),
            bytes@.len() <= 0xF,
        ensures
            r is Ok ==> final(self)@ == old(self)@ + short_record(kind, bytes@),
            old(self).infallible() ==> r is Ok,
            final(self).infallible() == old(self).infallible(),
    {
        let count = bytes.len() as u8;
        proof {
            assert(kind <= 15 && count <= 15 ==> kind << 4 | count == ((kind * 16 + count) as u8))
                by (bit_vector);
        }
        let head = kind << 4 | count;
        let one = [head];
        proof {
            assert(one@ =~= seq![head]);
        }
        match self.inner.write_all(&one) {
            Ok(()) => {},
            Err(e) => return Err(e),
        }
        let r = self.inner.write_all(bytes);
        proof {
            assert(seq![head] + bytes@ =~= short_record(kind, bytes@));
        }
        r
    }
}

} // verus!
