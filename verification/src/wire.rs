//! Wire primitives shared by the property and packet codecs.
//!
//! The model is a family of `take_*` spec functions. Each one reads a
//! value off the front of a byte sequence and gives back the value together
//! with the bytes that follow it, or the error that the reader reports. The
//! executable readers work on a slice and a cursor; their contracts say that
//! they return what `take_*` gives for the bytes from the cursor on, and where
//! the cursor is left: past the value on success, and on failure past what had
//! been read by then, which the `*_stop` spec functions count.

use std::sync::Arc;

use vstd::prelude::*;
use vstd::utf8::*;

use crate::error::{CodecError, MqttError, Violation};

verus! {

/// Largest value that a four-byte Variable Byte Integer can carry.
pub const MAX_VARIABLE_BYTE_INTEGER: usize = 268_435_455;

// ----------------------------------------------------------------------------
// Model
// ----------------------------------------------------------------------------

pub open spec fn eof() -> MqttError {
    MqttError::Codec(CodecError::UnexpectedEof)
}

pub open spec fn malformed_length() -> MqttError {
    MqttError::Codec(CodecError::MalformedLength)
}

pub open spec fn invalid_utf8() -> MqttError {
    MqttError::Codec(CodecError::InvalidUtf8)
}

pub open spec fn null_character() -> MqttError {
    MqttError::Protocol(Violation::Utf8NullCharacter)
}

/// The characters of a shared string.
pub open spec fn text(s: Arc<str>) -> Seq<char> {
    (*s)@
}

/// The characters of an optional shared string.
pub open spec fn opt_text(s: Option<Arc<str>>) -> Option<Seq<char>> {
    match s {
        Some(s) => Some(text(s)),
        None => None,
    }
}

/// The bytes from position `at` on; nothing when `at` lies past the end.
pub open spec fn rest_at(b: Seq<u8>, at: int) -> Seq<u8> {
    if 0 <= at <= b.len() {
        b.skip(at)
    } else {
        Seq::empty()
    }
}

/// `after` is the cursor that leaves exactly `rest` of `input` unread.
pub open spec fn cursor_at(input: Seq<u8>, after: int, rest: Seq<u8>) -> bool {
    &&& 0 <= after <= input.len()
    &&& rest == input.skip(after)
}

/// What a reader of plain values has to do, given what the model says about
/// the unread bytes.
pub open spec fn reads<T>(
    want: Result<(T, Seq<u8>), MqttError>,
    got: Result<T, MqttError>,
    input: Seq<u8>,
    before: usize,
    after: usize,
) -> bool {
    match want {
        Ok((v, rest)) => got == Ok::<T, MqttError>(v) && cursor_at(input, after as int, rest),
        Err(e) => got == Err::<T, MqttError>(e) && after == before,
    }
}

pub open spec fn take_u8(s: Seq<u8>) -> Result<(u8, Seq<u8>), MqttError> {
    if s.len() < 1 {
        Err(eof())
    } else {
        Ok((s[0], s.skip(1)))
    }
}

/// Two bytes, most significant first.
pub open spec fn u16_bytes(v: u16) -> Seq<u8> {
    seq![(v / 256) as u8, (v % 256) as u8]
}

pub open spec fn take_u16(s: Seq<u8>) -> Result<(u16, Seq<u8>), MqttError> {
    if s.len() < 2 {
        Err(eof())
    } else {
        Ok(((s[0] * 256 + s[1]) as u16, s.skip(2)))
    }
}

/// Four bytes, most significant first.
pub open spec fn u32_bytes(v: u32) -> Seq<u8> {
    seq![
        (v / 0x100_0000) as u8,
        ((v / 0x1_0000) % 256) as u8,
        ((v / 256) % 256) as u8,
        (v % 256) as u8,
    ]
}

pub open spec fn take_u32(s: Seq<u8>) -> Result<(u32, Seq<u8>), MqttError> {
    if s.len() < 4 {
        Err(eof())
    } else {
        Ok(((s[0] * 0x100_0000 + s[1] * 0x1_0000 + s[2] * 256 + s[3]) as u32, s.skip(4)))
    }
}

/// A byte string behind its two-byte length.
pub open spec fn take_prefixed(s: Seq<u8>) -> Result<(Seq<u8>, Seq<u8>), MqttError> {
    match take_u16(s) {
        Err(e) => Err(e),
        Ok((n, rest)) => if n > rest.len() {
            Err(eof())
        } else {
            Ok((rest.take(n as int), rest.skip(n as int)))
        },
    }
}

/// How many bytes are read of a byte string behind its two-byte length, or of
/// text in that form, when reading it fails: the length, if it is there.
pub open spec fn prefix_stop(s: Seq<u8>) -> nat {
    if s.len() < 2 {
        0
    } else {
        2
    }
}

/// A byte string with its length written in the two bytes before it. Only the
/// low sixteen bits of the length fit there.
pub open spec fn prefixed(b: Seq<u8>) -> Seq<u8> {
    seq![((b.len() / 256) % 256) as u8, (b.len() % 256) as u8] + b
}

/// UTF-8 text behind its two-byte length.
pub open spec fn take_text(s: Seq<u8>) -> Result<(Seq<char>, Seq<u8>), MqttError> {
    match take_prefixed(s) {
        Err(e) => Err(e),
        Ok((b, rest)) => if valid_utf8(b) {
            Ok((decode_utf8(b), rest))
        } else {
            Err(invalid_utf8())
        },
    }
}

/// Length-prefixed UTF-8 text.
pub open spec fn prefixed_text(c: Seq<char>) -> Seq<u8> {
    prefixed(encode_utf8(c))
}

/// A Variable Byte Integer: seven bits per byte, least significant first, the
/// high bit set on every byte but the last.
pub open spec fn vbi_bytes(v: nat) -> Seq<u8>
    decreases v,
{
    if v < 128 {
        seq![v as u8]
    } else {
        seq![(v % 128 + 128) as u8] + vbi_bytes(v / 128)
    }
}

/// Reads a Variable Byte Integer of at most `room` bytes. An encoding that is
/// longer than its value needs is rejected; `first` tells whether no byte of
/// the integer has been read yet.
pub open spec fn take_vbi_from(s: Seq<u8>, room: nat, first: bool) -> Result<
    (nat, Seq<u8>),
    MqttError,
>
    decreases room,
{
    if room == 0 {
        Err(malformed_length())
    } else if s.len() == 0 {
        Err(eof())
    } else if s[0] < 128 {
        if !first && s[0] == 0 {
            Err(malformed_length())
        } else {
            Ok((s[0] as nat, s.skip(1)))
        }
    } else {
        match take_vbi_from(s.skip(1), (room - 1) as nat, false) {
            Ok((v, rest)) => Ok(((s[0] - 128) as nat + 128 * v, rest)),
            Err(e) => Err(e),
        }
    }
}

pub open spec fn take_vbi(s: Seq<u8>) -> Result<(nat, Seq<u8>), MqttError> {
    take_vbi_from(s, 4, true)
}

/// How many bytes are read of a Variable Byte Integer of at most `room` bytes,
/// whether or not that succeeds: those up to the first one without the high bit.
pub open spec fn vbi_stop_from(s: Seq<u8>, room: nat) -> nat
    decreases room,
{
    if room == 0 || s.len() == 0 {
        0
    } else if s[0] < 128 {
        1
    } else {
        1 + vbi_stop_from(s.skip(1), (room - 1) as nat)
    }
}

pub open spec fn vbi_stop(s: Seq<u8>) -> nat {
    vbi_stop_from(s, 4)
}

/// Reads the Remaining Length of a fixed header. `Ok(None)` means that its
/// last byte has not arrived. Unlike a property length it may be padded.
pub open spec fn take_length_from(s: Seq<u8>, room: nat) -> Result<
    Option<(nat, Seq<u8>)>,
    MqttError,
>
    decreases room,
{
    if room == 0 {
        Err(malformed_length())
    } else if s.len() == 0 {
        Ok(None)
    } else if s[0] < 128 {
        Ok(Some((s[0] as nat, s.skip(1))))
    } else {
        match take_length_from(s.skip(1), (room - 1) as nat) {
            Ok(Some((v, rest))) => Ok(Some(((s[0] - 128) as nat + 128 * v, rest))),
            Ok(None) => Ok(None),
            Err(e) => Err(e),
        }
    }
}

pub open spec fn take_length(s: Seq<u8>) -> Result<Option<(nat, Seq<u8>)>, MqttError> {
    take_length_from(s, 4)
}

// ----------------------------------------------------------------------------
// Text
// ----------------------------------------------------------------------------

/// Calls `std::str::from_utf8`: a string slice over the same bytes when they
/// are well-formed UTF-8, nothing otherwise.
#[verifier::external_body]
pub(crate) fn utf8_text(bytes: &[u8]) -> (r: Option<&str>)
    ensures
        r is Some <==> valid_utf8(bytes@),
        r matches Some(s) ==> s@ == decode_utf8(bytes@),
{
    match std::str::from_utf8(bytes) {
        Ok(s) => Some(s),
        Err(_) => None,
    }
}

/// Calls `Arc::<str>::from`: a shared string with the same characters.
#[verifier::external_body]
pub(crate) fn shared_text(s: &str) -> (r: Arc<str>)
    ensures
        text(r) == s@,
{
    Arc::from(s)
}

/// Another handle on the same optional text.
pub(crate) fn share_opt_text(s: &Option<Arc<str>>) -> (r: Option<Arc<str>>)
    ensures
        r == *s,
{
    match s {
        Some(s) => Some(s.clone()),
        None => None,
    }
}

/// Whether two strings hold the same characters.
pub fn same_text(a: &str, b: &str) -> (r: bool)
    ensures
        r == (a@ == b@),
{
    let x = a.as_bytes();
    let y = b.as_bytes();
    let same = same_bytes(x, y);
    proof {
        encode_utf8_decode_utf8(a@);
        encode_utf8_decode_utf8(b@);
    }
    same
}

fn same_bytes(x: &[u8], y: &[u8]) -> (r: bool)
    ensures
        r == (x@ == y@),
{
    if x.len() != y.len() {
        return false;
    }
    let mut i: usize = 0;
    while i < x.len()
        invariant
            i <= x@.len(),
            x@.len() == y@.len(),
            forall|j: int| 0 <= j < i ==> x@[j] == y@[j],
        decreases x@.len() - i,
    {
        if x[i] != y[i] {
            return false;
        }
        i += 1;
    }
    assert(x@ =~= y@);
    true
}

// ----------------------------------------------------------------------------
// Readers
// ----------------------------------------------------------------------------

pub fn read_u8(input: &[u8], cursor: &mut usize) -> (r: Result<u8, MqttError>)
    ensures
        reads(
            take_u8(rest_at(input@, *old(cursor) as int)),
            r,
            input@,
            *old(cursor),
            *final(cursor),
        ),
{
    if *cursor >= input.len() {
        return Err(MqttError::Codec(CodecError::UnexpectedEof));
    }
    let value = input[*cursor];
    assert(input@.skip(*cursor as int).skip(1) =~= input@.skip(*cursor + 1));
    *cursor = *cursor + 1;
    Ok(value)
}

pub fn read_u16(input: &[u8], cursor: &mut usize) -> (r: Result<u16, MqttError>)
    ensures
        reads(
            take_u16(rest_at(input@, *old(cursor) as int)),
            r,
            input@,
            *old(cursor),
            *final(cursor),
        ),
{
    if *cursor > input.len() || input.len() - *cursor < 2 {
        return Err(MqttError::Codec(CodecError::UnexpectedEof));
    }
    let at: usize = *cursor;
    let value: u16 = (input[at] as u16) * 256 + input[at + 1] as u16;
    assert(input@.skip(at as int).skip(2) =~= input@.skip(at + 2));
    *cursor = at + 2;
    Ok(value)
}

pub fn read_u32(input: &[u8], cursor: &mut usize) -> (r: Result<u32, MqttError>)
    ensures
        reads(
            take_u32(rest_at(input@, *old(cursor) as int)),
            r,
            input@,
            *old(cursor),
            *final(cursor),
        ),
{
    if *cursor > input.len() || input.len() - *cursor < 4 {
        return Err(MqttError::Codec(CodecError::UnexpectedEof));
    }
    let at: usize = *cursor;
    let value: u32 = (input[at] as u32) * 0x100_0000 + (input[at + 1] as u32) * 0x1_0000 + (
    input[at + 2] as u32) * 256 + input[at + 3] as u32;
    assert(input@.skip(at as int).skip(4) =~= input@.skip(at + 4));
    *cursor = at + 4;
    Ok(value)
}

/// Reads a byte string behind its two-byte length, without copying it.
pub fn read_prefixed_bytes<'a>(input: &'a [u8], cursor: &mut usize) -> (r: Result<
    &'a [u8],
    MqttError,
>)
    ensures
        match take_prefixed(rest_at(input@, *old(cursor) as int)) {
            Ok((b, rest)) => (r matches Ok(got) && got@ == b) && cursor_at(
                input@,
                *final(cursor) as int,
                rest,
            ),
            Err(e) => r == Err::<&[u8], MqttError>(e) && *final(cursor) == *old(cursor)
                + prefix_stop(rest_at(input@, *old(cursor) as int)),
        },
{
    let length = match read_u16(input, cursor) {
        Ok(n) => n as usize,
        Err(e) => {
            return Err(e);
        },
    };
    let at: usize = *cursor;
    if length > input.len() - at {
        return Err(MqttError::Codec(CodecError::UnexpectedEof));
    }
    let end: usize = at + length;
    let bytes = vstd::slice::slice_subrange(input, at, end);
    assert(bytes@ =~= input@.skip(at as int).take(length as int));
    assert(input@.skip(at as int).skip(length as int) =~= input@.skip(end as int));
    *cursor = end;
    Ok(bytes)
}

/// Reads UTF-8 text behind its two-byte length.
pub fn read_arc_str(body: &[u8], cursor: &mut usize) -> (r: Result<Arc<str>, MqttError>)
    ensures
        match take_text(rest_at(body@, *old(cursor) as int)) {
            Ok((c, rest)) => (r matches Ok(got) && text(got) == c) && cursor_at(
                body@,
                *final(cursor) as int,
                rest,
            ),
            Err(e) => r == Err::<Arc<str>, MqttError>(e) && *final(cursor) == *old(cursor)
                + prefix_stop(rest_at(body@, *old(cursor) as int)),
        },
{
    let length = match read_u16(body, cursor) {
        Ok(n) => n as usize,
        Err(e) => {
            return Err(e);
        },
    };
    let at: usize = *cursor;
    if length > body.len() - at {
        return Err(MqttError::Codec(CodecError::UnexpectedEof));
    }
    let end: usize = at + length;
    let bytes = vstd::slice::slice_subrange(body, at, end);
    assert(bytes@ =~= body@.skip(at as int).take(length as int));
    assert(body@.skip(at as int).skip(length as int) =~= body@.skip(end as int));
    match utf8_text(bytes) {
        Some(s) => {
            *cursor = end;
            Ok(shared_text(s))
        },
        None => Err(MqttError::Codec(CodecError::InvalidUtf8)),
    }
}

/// Reads a canonical Variable Byte Integer.
pub fn read_vbi(input: &[u8], cursor: &mut usize) -> (r: Result<usize, MqttError>)
    ensures
        match take_vbi(rest_at(input@, *old(cursor) as int)) {
            Ok((v, rest)) => (r matches Ok(got) && got == v) && v <= MAX_VARIABLE_BYTE_INTEGER
                && cursor_at(input@, *final(cursor) as int, rest),
            Err(e) => r == Err::<usize, MqttError>(e),
        },
        *final(cursor) == *old(cursor) + vbi_stop(rest_at(input@, *old(cursor) as int)),
{
    let mut value: usize = 0;
    let mut multiplier: usize = 1;
    let mut count: usize = 0;
    let ghost want = take_vbi(rest_at(input@, *cursor as int));
    while count < 4
        invariant
            count <= 4,
            count == 0 ==> multiplier == 1,
            count == 1 ==> multiplier == 128,
            count == 2 ==> multiplier == 0x4000,
            count == 3 ==> multiplier == 0x20_0000,
            count == 4 ==> multiplier == 0x1000_0000,
            value < multiplier,
            count > 0 ==> *cursor <= input@.len(),
            want == (match take_vbi_from(
                rest_at(input@, *cursor as int),
                (4 - count) as nat,
                count == 0,
            ) {
                Ok((v, rest)) => Ok((value as nat + multiplier as nat * v, rest)),
                Err(e) => Err::<(nat, Seq<u8>), MqttError>(e),
            }),
            *cursor + vbi_stop_from(rest_at(input@, *cursor as int), (4 - count) as nat) == *old(
                cursor,
            ) + vbi_stop(rest_at(input@, *old(cursor) as int)),
            want == take_vbi(rest_at(input@, *old(cursor) as int)),
        decreases 4 - count,
    {
        let byte = match read_u8(input, cursor) {
            Ok(b) => b,
            Err(e) => {
                return Err(e);
            },
        };
        if byte < 128 {
            if byte == 0 && count > 0 {
                return Err(MqttError::Codec(CodecError::MalformedLength));
            }
            assert((byte as usize) * multiplier <= 127 * multiplier) by (nonlinear_arith)
                requires
                    byte <= 127,
            ;
            assert((byte as usize) * multiplier == (multiplier as nat) * (byte as nat))
                by (nonlinear_arith);
            return Ok(value + (byte as usize) * multiplier);
        }
        let low: usize = byte as usize - 128;
        assert(low * multiplier <= 127 * multiplier) by (nonlinear_arith)
            requires
                low <= 127,
        ;
        proof {
            let after = take_vbi_from(rest_at(input@, *cursor as int), (3 - count) as nat, false);
            if let Ok((v, rest)) = after {
                assert(value as nat + multiplier as nat * (low as nat + 128 * v) == (value + low
                    * multiplier) as nat + (multiplier * 128) as nat * v) by (nonlinear_arith);
            }
        }
        value = value + low * multiplier;
        multiplier = multiplier * 128;
        count += 1;
    }
    Err(MqttError::Codec(CodecError::MalformedLength))
}

// ----------------------------------------------------------------------------
// Remaining Length
// ----------------------------------------------------------------------------

/// Accumulates the Remaining Length of a fixed header byte by byte, as the
/// bytes come off a wire.
pub struct LengthDecoder {
    value: usize,
    multiplier: usize,
    count: usize,
}

impl LengthDecoder {
    /// The sum of the bytes read so far.
    pub closed spec fn value(self) -> nat {
        self.value as nat
    }

    /// What one unit of the next byte is worth.
    pub closed spec fn multiplier(self) -> nat {
        self.multiplier as nat
    }

    /// How many bytes have been read.
    pub closed spec fn count(self) -> nat {
        self.count as nat
    }

    pub closed spec fn wf(self) -> bool {
        &&& self.count <= 3
        &&& self.count == 0 ==> self.multiplier == 1
        &&& self.count == 1 ==> self.multiplier == 128
        &&& self.count == 2 ==> self.multiplier == 0x4000
        &&& self.count == 3 ==> self.multiplier == 0x20_0000
        &&& self.value < self.multiplier
    }

    /// The outcome once the bytes `s` follow those already read.
    pub open spec fn outcome(self, s: Seq<u8>) -> Result<Option<(nat, Seq<u8>)>, MqttError> {
        match take_length_from(s, (4 - self.count()) as nat) {
            Ok(Some((v, rest))) => Ok(Some((self.value() + self.multiplier() * v, rest))),
            Ok(None) => Ok(None),
            Err(e) => Err(e),
        }
    }

    pub fn new() -> (r: Self)
        ensures
            r.wf(),
            r.count() == 0,
            r.value() == 0,
            r.multiplier() == 1,
            forall|s: Seq<u8>| #[trigger] r.outcome(s) == take_length(s),
    {
        let r = LengthDecoder { value: 0, multiplier: 1, count: 0 };
        assert forall|s: Seq<u8>| #[trigger] r.outcome(s) == take_length(s) by {}
        r
    }

    /// Feeds the next byte. `Ok(Some(n))` ends the length with value `n`;
    /// `Ok(None)` asks for another byte.
    pub fn push(&mut self, byte: u8) -> (r: Result<Option<usize>, MqttError>)
        requires
            old(self).wf(),
        ensures
            old(self).count() <= 3,
            byte < 128 ==> (r matches Ok(Some(n)) && n == old(self).value() + old(
                self,
            ).multiplier() * byte && n <= MAX_VARIABLE_BYTE_INTEGER),
            byte >= 128 && old(self).count() == 3 ==> r == Err::<Option<usize>, MqttError>(
                malformed_length(),
            ),
            byte >= 128 && old(self).count() < 3 ==> r == Ok::<Option<usize>, MqttError>(None)
                && final(self).wf() && final(self).count() == old(self).count() + 1
                && final(self).value() == old(self).value() + old(self).multiplier() * (byte - 128)
                && final(self).multiplier() == old(self).multiplier() * 128,
            r matches Ok(None) ==> final(self).wf(),
            forall|s: Seq<u8>|
                s.len() > 0 && s[0] == byte ==> #[trigger] old(self).outcome(s) == (match r {
                    Ok(Some(n)) => Ok(Some((n as nat, s.skip(1)))),
                    Ok(None) => final(self).outcome(s.skip(1)),
                    Err(e) => Err::<Option<(nat, Seq<u8>)>, MqttError>(e),
                }),
    {
        let ghost before = *self;
        if byte < 128 {
            assert((byte as usize) * self.multiplier <= 127 * self.multiplier)
                by (nonlinear_arith)
                requires
                    byte <= 127,
            ;
            assert((byte as usize) * self.multiplier == (self.multiplier as nat) * (byte as nat))
                by (nonlinear_arith);
            return Ok(Some(self.value + (byte as usize) * self.multiplier));
        }
        if self.count >= 3 {
            proof {
                reveal_with_fuel(take_length_from, 2);
            }
            return Err(MqttError::Codec(CodecError::MalformedLength));
        }
        let low: usize = byte as usize - 128;
        assert(low * self.multiplier <= 127 * self.multiplier) by (nonlinear_arith)
            requires
                low <= 127,
        ;
        self.value = self.value + low * self.multiplier;
        self.multiplier = self.multiplier * 128;
        self.count = self.count + 1;
        proof {
            assert forall|s: Seq<u8>| s.len() > 0 && s[0] == byte implies
                #[trigger] before.outcome(s) == self.outcome(s.skip(1)) by {
                if let Ok(Some((v, rest))) = take_length_from(
                    s.skip(1),
                    (3 - before.count()) as nat,
                ) {
                    assert(before.value as nat + before.multiplier as nat * (low as nat + 128 * v)
                        == (before.value + low * before.multiplier) as nat + (before.multiplier
                        * 128) as nat * v) by (nonlinear_arith);
                }
            }
        }
        assert(low * before.multiplier == before.multiplier * (byte - 128)) by (nonlinear_arith)
            requires
                low == byte - 128,
        ;
        Ok(None)
    }
}

/// Decodes a Remaining Length from the front of `data`: its value and the
/// number of bytes it takes, or `None` when its last byte is not there yet.
pub fn decode_remaining_length_from_slice(data: &[u8]) -> (r: Result<
    Option<(usize, usize)>,
    MqttError,
>)
    ensures
        match take_length(data@) {
            Ok(Some((v, rest))) => (r matches Ok(Some((n, used))) && n == v && n
                <= MAX_VARIABLE_BYTE_INTEGER && used <= 4 && cursor_at(data@, used as int, rest)),
            Ok(None) => r == Ok::<Option<(usize, usize)>, MqttError>(None),
            Err(e) => r == Err::<Option<(usize, usize)>, MqttError>(e),
        },
{
    let mut decoder = LengthDecoder::new();
    let mut i: usize = 0;
    assert(data@.skip(0) =~= data@);
    while i < data.len()
        invariant
            i <= data@.len(),
            i <= 3,
            decoder.wf(),
            decoder.count() == i,
            decoder.outcome(data@.skip(i as int)) == take_length(data@),
        decreases data@.len() - i,
    {
        let byte = data[i];
        let ghost s = data@.skip(i as int);
        assert(s.skip(1) =~= data@.skip(i + 1));
        match decoder.push(byte) {
            Ok(Some(n)) => {
                return Ok(Some((n, i + 1)));
            },
            Ok(None) => {},
            Err(e) => {
                return Err(e);
            },
        }
        i += 1;
    }
    Ok(None)
}

// ----------------------------------------------------------------------------
// Writers
// ----------------------------------------------------------------------------

pub(crate) fn write_bytes(output: &mut Vec<u8>, bytes: &[u8])
    ensures
        final(output)@ == old(output)@ + bytes@,
{
    let ghost before = output@;
    output.extend_from_slice(bytes);
    assert(output@ =~= before + bytes@);
}

pub(crate) fn write_u16(output: &mut Vec<u8>, v: u16)
    ensures
        final(output)@ == old(output)@ + u16_bytes(v),
{
    let ghost before = output@;
    output.push((v / 256) as u8);
    output.push((v % 256) as u8);
    assert(output@ =~= before + u16_bytes(v));
}

pub(crate) fn write_u32(output: &mut Vec<u8>, v: u32)
    ensures
        final(output)@ == old(output)@ + u32_bytes(v),
{
    let ghost before = output@;
    output.push((v / 0x100_0000) as u8);
    output.push(((v / 0x1_0000) % 256) as u8);
    output.push(((v / 256) % 256) as u8);
    output.push((v % 256) as u8);
    assert(output@ =~= before + u32_bytes(v));
}

/// Writes `bytes` behind the low sixteen bits of their length.
pub(crate) fn write_short_prefixed(output: &mut Vec<u8>, bytes: &[u8])
    ensures
        final(output)@ == old(output)@ + prefixed(bytes@),
{
    let ghost before = output@;
    output.push(((bytes.len() / 256) % 256) as u8);
    output.push((bytes.len() % 256) as u8);
    write_bytes(output, bytes);
    assert(output@ =~= before + prefixed(bytes@));
}

/// Writes text behind the low sixteen bits of its byte length.
pub fn write_arc_str(output: &mut Vec<u8>, s: &Arc<str>)
    ensures
        final(output)@ == old(output)@ + prefixed_text(text(*s)),
{
    let b: &str = &**s;
    write_short_prefixed(output, b.as_bytes());
}

/// Appends a length of any size, seven bits per byte.
pub(crate) fn write_length(output: &mut Vec<u8>, value: u128)
    ensures
        final(output)@ == old(output)@ + vbi_bytes(value as nat),
{
    let ghost before = output@;
    let mut left: u128 = value;
    while left >= 128
        invariant
            before + vbi_bytes(value as nat) == output@ + vbi_bytes(left as nat),
        decreases left,
    {
        let ghost so_far = output@;
        output.push((left % 128 + 128) as u8);
        proof {
            let b = (left % 128 + 128) as u8;
            assert(so_far + (seq![b] + vbi_bytes((left / 128) as nat)) =~= so_far.push(b)
                + vbi_bytes((left / 128) as nat));
        }
        left = left / 128;
    }
    let ghost so_far = output@;
    output.push(left as u8);
    assert(so_far + seq![left as u8] =~= so_far.push(left as u8));
}

/// The Remaining Length field for a body of `value` bytes.
pub fn encode_remaining_length(value: usize) -> (r: Vec<u8>)
    ensures
        r@ == vbi_bytes(value as nat),
{
    let mut out: Vec<u8> = Vec::new();
    write_length(&mut out, value as u128);
    assert(Seq::<u8>::empty() + vbi_bytes(value as nat) =~= vbi_bytes(value as nat));
    out
}

/// Appends a Variable Byte Integer, or reports a value that does not fit one.
pub fn write_vbi(output: &mut Vec<u8>, value: usize) -> (r: Result<(), MqttError>)
    ensures
        value <= MAX_VARIABLE_BYTE_INTEGER ==> r is Ok && final(output)@ == old(output)@
            + vbi_bytes(value as nat),
        value > MAX_VARIABLE_BYTE_INTEGER ==> r == Err::<(), MqttError>(
            MqttError::Codec(CodecError::VariableByteIntegerOutOfRange { value }),
        ) && final(output)@ == old(output)@,
{
    if value > MAX_VARIABLE_BYTE_INTEGER {
        return Err(MqttError::Codec(CodecError::VariableByteIntegerOutOfRange { value }));
    }
    write_length(output, value as u128);
    Ok(())
}

// ----------------------------------------------------------------------------
// Laws
// ----------------------------------------------------------------------------

/// Numbers stand on the wire with their most significant byte first, both as
/// they are written and as they are read.
pub proof fn numbers_are_big_endian(v: u16, w: u32, a: u8, b: u8, c: u8, d: u8, rest: Seq<u8>)
    ensures
        u16_bytes(v).len() == 2,
        u16_bytes(v)[0] * 256 + u16_bytes(v)[1] == v,
        u32_bytes(w).len() == 4,
        u32_bytes(w)[0] * 0x100_0000 + u32_bytes(w)[1] * 0x1_0000 + u32_bytes(w)[2] * 256
            + u32_bytes(w)[3] == w,
        take_u8(seq![a] + rest) == Ok::<(u8, Seq<u8>), MqttError>((a, rest)),
        take_u16(seq![a, b] + rest) matches Ok((x, left)) && x == a * 256 + b && left == rest,
        take_u32(seq![a, b, c, d] + rest) matches Ok((x, left)) && x == a * 0x100_0000 + b
            * 0x1_0000 + c * 256 + d && left == rest,
{
    assert((seq![a] + rest).skip(1) =~= rest);
    assert((seq![a, b] + rest).skip(2) =~= rest);
    assert((seq![a, b, c, d] + rest).skip(4) =~= rest);
    u32_round_trip(w, Seq::empty());
    let s = u32_bytes(w);
    assert(s + Seq::<u8>::empty() =~= s);
    assert(s[0] * 0x100_0000 + s[1] * 0x1_0000 + s[2] * 256 + s[3] == w);
}

/// Text and binary data stand behind their length, which is two bytes, most
/// significant first, and counts bytes.
pub proof fn fields_stand_behind_their_length(
    b: Seq<u8>,
    c: Seq<char>,
    hi: u8,
    lo: u8,
    rest: Seq<u8>,
)
    requires
        b.len() == hi * 256 + lo,
    ensures
        prefixed(b) == seq![hi, lo] + b,
        encode_utf8(c) == b ==> prefixed_text(c) == seq![hi, lo] + b,
        take_prefixed(seq![hi, lo] + b + rest) == Ok::<(Seq<u8>, Seq<u8>), MqttError>((b, rest)),
        encode_utf8(c) == b ==> take_text(seq![hi, lo] + b + rest) == Ok::<
            (Seq<char>, Seq<u8>),
            MqttError,
        >((c, rest)),
        !valid_utf8(b) ==> take_text(seq![hi, lo] + b + rest) == Err::<
            (Seq<char>, Seq<u8>),
            MqttError,
        >(MqttError::Codec(CodecError::InvalidUtf8)),
{
    assert(prefixed(b) =~= seq![hi, lo] + b);
    prefixed_round_trip(b, rest);
    if encode_utf8(c) == b {
        text_round_trip(c, rest);
    }
}

/// A field that ends before its length says so is an error.
pub proof fn short_fields_are_refused(s: Seq<u8>)
    requires
        s.len() < 2 || s.len() < 2 + s[0] * 256 + s[1],
    ensures
        take_prefixed(s) == Err::<(Seq<u8>, Seq<u8>), MqttError>(
            MqttError::Codec(CodecError::UnexpectedEof),
        ),
        take_text(s) == Err::<(Seq<char>, Seq<u8>), MqttError>(
            MqttError::Codec(CodecError::UnexpectedEof),
        ),
{
}

/// A Variable Byte Integer has the low seven bits of a value in its first byte,
/// with the high bit set where more follow, and the rest of the value behind it.
pub proof fn lengths_have_seven_bits_per_byte(v: nat)
    ensures
        v < 128 ==> vbi_bytes(v).len() == 1 && vbi_bytes(v)[0] == v,
        v >= 128 ==> vbi_bytes(v).len() == 1 + vbi_bytes(v / 128).len() && vbi_bytes(v)[0]
            == 128 + v % 128 && vbi_bytes(v).skip(1) == vbi_bytes(v / 128),
{
    if v >= 128 {
        assert(vbi_bytes(v).skip(1) =~= vbi_bytes(v / 128));
    }
}

/// How the four widths of a Remaining Length are read. A fifth byte is one too
/// many, and a length that has not ended asks for more.
pub proof fn lengths_are_read_by_weight(a: u8, b: u8, c: u8, d: u8, rest: Seq<u8>)
    requires
        a >= 128,
        b >= 128,
        c >= 128,
    ensures
        d < 128 ==> {
            &&& take_length(seq![d] + rest) == Ok::<Option<(nat, Seq<u8>)>, MqttError>(
                Some((d as nat, rest)),
            )
            &&& take_length(seq![a, d] + rest) == Ok::<Option<(nat, Seq<u8>)>, MqttError>(
                Some(((a - 128 + 128 * d) as nat, rest)),
            )
            &&& take_length(seq![a, b, d] + rest) == Ok::<Option<(nat, Seq<u8>)>, MqttError>(
                Some(((a - 128 + 128 * (b - 128) + 0x4000 * d) as nat, rest)),
            )
            &&& take_length(seq![a, b, c, d] + rest) == Ok::<Option<(nat, Seq<u8>)>, MqttError>(
                Some(
                    ((a - 128 + 128 * (b - 128) + 0x4000 * (c - 128) + 0x20_0000 * d) as nat, rest),
                ),
            )
        },
        d >= 128 ==> take_length(seq![a, b, c, d] + rest) == Err::<
            Option<(nat, Seq<u8>)>,
            MqttError,
        >(MqttError::Codec(CodecError::MalformedLength)),
        take_length(Seq::empty()) == Ok::<Option<(nat, Seq<u8>)>, MqttError>(None),
        take_length(seq![a, b, c]) == Ok::<Option<(nat, Seq<u8>)>, MqttError>(None),
{
    reveal_with_fuel(take_length_from, 5);
    assert((seq![d] + rest).skip(1) =~= rest);
    assert((seq![a, d] + rest).skip(1) =~= seq![d] + rest);
    assert((seq![a, b, d] + rest).skip(1) =~= seq![b, d] + rest);
    assert((seq![b, d] + rest).skip(1) =~= seq![d] + rest);
    assert((seq![a, b, c, d] + rest).skip(1) =~= seq![b, c, d] + rest);
    assert((seq![b, c, d] + rest).skip(1) =~= seq![c, d] + rest);
    assert((seq![c, d] + rest).skip(1) =~= seq![d] + rest);
    assert(seq![a, b, c].skip(1) =~= seq![b, c]);
    assert(seq![b, c].skip(1) =~= seq![c]);
    assert(seq![c].skip(1) =~= Seq::<u8>::empty());
}

/// Putting byte strings behind each other is associative.
pub proof fn joined(a: Seq<u8>, b: Seq<u8>, c: Seq<u8>)
    ensures
        a + b + c == a + (b + c),
{
    assert(a + b + c =~= a + (b + c));
}

/// Reading sixteen bits gives back the value that was written.
pub proof fn u16_round_trip(v: u16, rest: Seq<u8>)
    ensures
        take_u16(u16_bytes(v) + rest) == Ok::<(u16, Seq<u8>), MqttError>((v, rest)),
{
    assert((u16_bytes(v) + rest).skip(2) =~= rest);
}

/// Reading thirty-two bits gives back the value that was written.
pub proof fn u32_round_trip(v: u32, rest: Seq<u8>)
    ensures
        take_u32(u32_bytes(v) + rest) == Ok::<(u32, Seq<u8>), MqttError>((v, rest)),
{
    assert((u32_bytes(v) + rest).skip(4) =~= rest);
    let s = u32_bytes(v);
    assert(s[0] * 0x100_0000 + s[1] * 0x1_0000 + s[2] * 256 + s[3] == v);
}

/// Reading a length-prefixed byte string gives back what was written, as long
/// as its length fits the two-byte prefix.
pub proof fn prefixed_round_trip(b: Seq<u8>, rest: Seq<u8>)
    requires
        b.len() <= 0xffff,
    ensures
        take_prefixed(prefixed(b) + rest) == Ok::<(Seq<u8>, Seq<u8>), MqttError>((b, rest)),
{
    let s = prefixed(b) + rest;
    assert(s.skip(2) =~= b + rest);
    assert((b + rest).take(b.len() as int) =~= b);
    assert((b + rest).skip(b.len() as int) =~= rest);
}

/// Reading length-prefixed text gives back what was written, as long as its
/// byte length fits the two-byte prefix.
pub proof fn text_round_trip(c: Seq<char>, rest: Seq<u8>)
    requires
        encode_utf8(c).len() <= 0xffff,
    ensures
        take_text(prefixed_text(c) + rest) == Ok::<(Seq<char>, Seq<u8>), MqttError>((c, rest)),
{
    prefixed_round_trip(encode_utf8(c), rest);
    encode_utf8_valid_utf8(c);
    encode_utf8_decode_utf8(c);
}

proof fn vbi_round_trip_from(v: nat, room: nat, first: bool, rest: Seq<u8>)
    requires
        1 <= room <= 4,
        room == 1 ==> v < 128,
        room == 2 ==> v < 0x4000,
        room == 3 ==> v < 0x20_0000,
        room == 4 ==> v < 0x1000_0000,
        !first ==> v > 0,
    ensures
        take_vbi_from(vbi_bytes(v) + rest, room, first) == Ok::<(nat, Seq<u8>), MqttError>(
            (v, rest),
        ),
    decreases room,
{
    let s = vbi_bytes(v) + rest;
    if v < 128 {
        assert(s.skip(1) =~= rest);
    } else {
        assert(s.skip(1) =~= vbi_bytes(v / 128) + rest);
        vbi_round_trip_from(v / 128, (room - 1) as nat, false, rest);
    }
}

/// Reading a Variable Byte Integer gives back the value that was written.
pub proof fn vbi_round_trip(v: nat, rest: Seq<u8>)
    requires
        v <= MAX_VARIABLE_BYTE_INTEGER,
    ensures
        take_vbi(vbi_bytes(v) + rest) == Ok::<(nat, Seq<u8>), MqttError>((v, rest)),
{
    vbi_round_trip_from(v, 4, true, rest);
}

proof fn vbi_is_canonical_from(s: Seq<u8>, room: nat, first: bool)
    ensures
        take_vbi_from(s, room, first) matches Ok((v, rest)) ==> s == vbi_bytes(v) + rest && (!first
            ==> v > 0),
    decreases room,
{
    if room > 0 && s.len() > 0 {
        if s[0] < 128 {
            assert(s =~= seq![s[0]] + s.skip(1));
        } else {
            vbi_is_canonical_from(s.skip(1), (room - 1) as nat, false);
            if let Ok((w, rest)) = take_vbi_from(s.skip(1), (room - 1) as nat, false) {
                let v = (s[0] - 128) as nat + 128 * w;
                assert(v / 128 == w && v % 128 == s[0] - 128);
                assert(s =~= seq![s[0]] + s.skip(1));
                assert(s =~= vbi_bytes(v) + rest);
            }
        }
    }
}

/// A Variable Byte Integer is accepted in its shortest encoding only: what was
/// read is what writing the value would have produced.
pub proof fn vbi_is_canonical(s: Seq<u8>)
    ensures
        take_vbi(s) matches Ok((v, rest)) ==> s == vbi_bytes(v) + rest,
{
    vbi_is_canonical_from(s, 4, true);
}

proof fn vbi_is_in_range_from(s: Seq<u8>, room: nat, first: bool)
    requires
        room <= 4,
    ensures
        take_vbi_from(s, room, first) matches Ok((v, _)) ==> {
            &&& room == 1 ==> v < 128
            &&& room == 2 ==> v < 0x4000
            &&& room == 3 ==> v < 0x20_0000
            &&& room == 4 ==> v < 0x1000_0000
        },
    decreases room,
{
    if room > 0 && s.len() > 0 && s[0] >= 128 {
        vbi_is_in_range_from(s.skip(1), (room - 1) as nat, false);
    }
}

/// No Variable Byte Integer is read that could not be written.
pub proof fn vbi_is_in_range(s: Seq<u8>)
    ensures
        take_vbi(s) matches Ok((v, _)) ==> v <= MAX_VARIABLE_BYTE_INTEGER,
{
    vbi_is_in_range_from(s, 4, true);
}

/// Sixteen bits that were read are what writing them would have produced.
pub proof fn u16_is_canonical(s: Seq<u8>)
    ensures
        take_u16(s) matches Ok((v, rest)) ==> s == u16_bytes(v) + rest,
{
    if let Ok((v, rest)) = take_u16(s) {
        assert(s =~= u16_bytes(v) + rest);
    }
}

proof fn four_digits(v: u32, a: u8, b: u8, c: u8, d: u8)
    requires
        v == a * 0x100_0000 + b * 0x1_0000 + c * 256 + d,
    ensures
        u32_bytes(v) == seq![a, b, c, d],
{
    assert(v / 0x100_0000 == a && (v / 0x1_0000) % 256 == b && (v / 256) % 256 == c && v % 256 == d)
        by (bit_vector)
        requires
            v == a * 0x100_0000 + b * 0x1_0000 + c * 256 + d,
    ;
    assert(u32_bytes(v) =~= seq![a, b, c, d]);
}

/// Thirty-two bits that were read are what writing them would have produced.
pub proof fn u32_is_canonical(s: Seq<u8>)
    ensures
        take_u32(s) matches Ok((v, rest)) ==> s == u32_bytes(v) + rest,
{
    if let Ok((v, rest)) = take_u32(s) {
        four_digits(v, s[0], s[1], s[2], s[3]);
        assert(s =~= seq![s[0], s[1], s[2], s[3]] + rest);
    }
}

/// A length-prefixed byte string that was read is what writing it would have
/// produced.
pub proof fn prefixed_is_canonical(s: Seq<u8>)
    ensures
        take_prefixed(s) matches Ok((b, rest)) ==> b.len() <= 0xffff && s == prefixed(b) + rest,
{
    if let Ok((b, rest)) = take_prefixed(s) {
        assert(s =~= prefixed(b) + rest);
    }
}

/// Length-prefixed text that was read is what writing it would have produced.
pub proof fn text_is_canonical(s: Seq<u8>)
    ensures
        take_text(s) matches Ok((c, rest)) ==> encode_utf8(c).len() <= 0xffff && s
            == prefixed_text(c) + rest,
{
    prefixed_is_canonical(s);
    if let Ok((b, rest)) = take_prefixed(s) {
        if valid_utf8(b) {
            decode_utf8_encode_utf8(b);
        }
    }
}

/// A Variable Byte Integer within its range takes one to four bytes.
pub proof fn vbi_length(v: nat)
    requires
        v <= MAX_VARIABLE_BYTE_INTEGER,
    ensures
        1 <= vbi_bytes(v).len() <= 4,
{
    reveal_with_fuel(vbi_bytes, 4);
}

/// A value beyond that range takes more than four bytes.
pub proof fn vbi_length_beyond(v: nat)
    requires
        v > MAX_VARIABLE_BYTE_INTEGER,
    ensures
        vbi_bytes(v).len() > 4,
{
    reveal_with_fuel(vbi_bytes, 5);
}

/// Bytes that follow a Remaining Length do not change how it is read.
pub proof fn length_reads_no_further(s: Seq<u8>, room: nat, more: Seq<u8>)
    ensures
        take_length_from(s, room) is Err ==> take_length_from(s + more, room) == take_length_from(
            s,
            room,
        ),
        take_length_from(s, room) matches Ok(Some((n, rest))) ==> take_length_from(s + more, room)
            == Ok::<Option<(nat, Seq<u8>)>, MqttError>(Some((n, rest + more))),
    decreases room,
{
    if room > 0 && s.len() > 0 {
        assert((s + more).skip(1) =~= s.skip(1) + more);
        assert((s + more)[0] == s[0]);
        length_reads_no_further(s.skip(1), (room - 1) as nat, more);
    }
}

/// A Remaining Length that has not ended asks for more bytes.
pub proof fn length_prefix_waits(v: nat, room: nat, k: int)
    requires
        1 <= room <= 4,
        room == 1 ==> v < 128,
        room == 2 ==> v < 0x4000,
        room == 3 ==> v < 0x20_0000,
        room == 4 ==> v < 0x1000_0000,
        0 <= k < vbi_bytes(v).len(),
    ensures
        take_length_from(vbi_bytes(v).take(k), room) == Ok::<Option<(nat, Seq<u8>)>, MqttError>(
            None,
        ),
    decreases room,
{
    if k > 0 {
        let s = vbi_bytes(v).take(k);
        assert(v >= 128);
        assert(s.skip(1) =~= vbi_bytes(v / 128).take(k - 1));
        length_prefix_waits(v / 128, (room - 1) as nat, k - 1);
    }
}

proof fn length_round_trip_from(v: nat, room: nat, rest: Seq<u8>)
    requires
        1 <= room <= 4,
        room == 1 ==> v < 128,
        room == 2 ==> v < 0x4000,
        room == 3 ==> v < 0x20_0000,
        room == 4 ==> v < 0x1000_0000,
    ensures
        take_length_from(vbi_bytes(v) + rest, room) == Ok::<Option<(nat, Seq<u8>)>, MqttError>(
            Some((v, rest)),
        ),
    decreases room,
{
    let s = vbi_bytes(v) + rest;
    if v < 128 {
        assert(s.skip(1) =~= rest);
    } else {
        assert(s.skip(1) =~= vbi_bytes(v / 128) + rest);
        length_round_trip_from(v / 128, (room - 1) as nat, rest);
    }
}

/// Decoding a Remaining Length gives back the value that was encoded.
pub proof fn length_round_trip(v: nat, rest: Seq<u8>)
    requires
        v <= MAX_VARIABLE_BYTE_INTEGER,
    ensures
        take_length(vbi_bytes(v) + rest) == Ok::<Option<(nat, Seq<u8>)>, MqttError>(
            Some((v, rest)),
        ),
{
    length_round_trip_from(v, 4, rest);
}

/// Reading a Remaining Length leaves a suffix of the bytes.
pub proof fn length_leaves_a_suffix(s: Seq<u8>, room: nat)
    ensures
        take_length_from(s, room) matches Ok(Some((_, rest))) ==> rest.len() < s.len() && rest
            == s.skip(s.len() - rest.len()),
    decreases room,
{
    if room > 0 && s.len() > 0 {
        length_leaves_a_suffix(s.skip(1), (room - 1) as nat);
        if let Ok(Some((_, rest))) = take_length_from(s, room) {
            assert(s.skip(1).skip(s.len() - 1 - rest.len()) =~= s.skip(s.len() - rest.len()));
        }
    }
}

/// A Variable Byte Integer that is longer than it needs to be, that does not end
/// within four bytes, or that has not ended yet, is an error.
pub proof fn broken_integers_are_refused(a: u8, b: u8, c: u8, d: u8, rest: Seq<u8>)
    requires
        a >= 128,
        b >= 128,
        c >= 128,
        d >= 128,
    ensures
        take_vbi(seq![a, 0u8] + rest) == Err::<(nat, Seq<u8>), MqttError>(
            MqttError::Codec(CodecError::MalformedLength),
        ),
        take_vbi(seq![a, b, c, d] + rest) == Err::<(nat, Seq<u8>), MqttError>(
            MqttError::Codec(CodecError::MalformedLength),
        ),
        take_vbi(seq![a, b]) == Err::<(nat, Seq<u8>), MqttError>(
            MqttError::Codec(CodecError::UnexpectedEof),
        ),
        take_vbi(Seq::empty()) == Err::<(nat, Seq<u8>), MqttError>(
            MqttError::Codec(CodecError::UnexpectedEof),
        ),
{
    reveal_with_fuel(take_vbi_from, 5);
    assert((seq![a, 0u8] + rest).skip(1)[0] == 0);
    assert((seq![a, b, c, d] + rest).skip(1) =~= seq![b, c, d] + rest);
    assert((seq![b, c, d] + rest).skip(1) =~= seq![c, d] + rest);
    assert((seq![c, d] + rest).skip(1) =~= seq![d] + rest);
    assert(seq![a, b].skip(1) =~= seq![b]);
    assert(seq![b].skip(1) =~= Seq::<u8>::empty());
}

/// What it is to read: the value that is there and a cursor behind it, or the
/// error and the cursor where it was.
pub proof fn reading_is_exact<T>(
    v: T,
    rest: Seq<u8>,
    e: MqttError,
    got: Result<T, MqttError>,
    input: Seq<u8>,
    before: usize,
    after: usize,
)
    ensures
        reads(Ok((v, rest)), got, input, before, after) ==> got == Ok::<T, MqttError>(v) && after
            <= input.len() && rest == input.skip(after as int),
        reads(Err(e), got, input, before, after) ==> got == Err::<T, MqttError>(e) && after
            == before,
        before <= input.len() ==> rest_at(input, before as int) == input.skip(before as int),
        before > input.len() ==> rest_at(input, before as int) == Seq::<u8>::empty(),
        cursor_at(input, after as int, rest) ==> after <= input.len() && rest == input.skip(
            after as int,
        ),
{
}

/// Where a failed read leaves the cursor: behind the length of a field, if the
/// length is there, and behind the bytes of an integer up to the first without
/// the high bit, four of them at most.
pub proof fn reading_stops_where_it_fails(
    a: u8,
    b: u8,
    c: u8,
    d: u8,
    x: u8,
    rest: Seq<u8>,
    s: Seq<u8>,
)
    requires
        a >= 128,
        b >= 128,
        c >= 128,
        x < 128,
    ensures
        s.len() < 2 ==> prefix_stop(s) == 0,
        s.len() >= 2 ==> prefix_stop(s) == 2,
        vbi_stop(Seq::empty()) == 0,
        vbi_stop(seq![x] + rest) == 1,
        vbi_stop(seq![a, x] + rest) == 2,
        vbi_stop(seq![a, b, x] + rest) == 3,
        vbi_stop(seq![a, b, c, d] + rest) == 4,
        vbi_stop(seq![a, b]) == 2,
{
    reveal_with_fuel(vbi_stop_from, 5);
    assert((seq![a, x] + rest).skip(1) =~= seq![x] + rest);
    assert((seq![a, b, x] + rest).skip(1) =~= seq![b, x] + rest);
    assert((seq![b, x] + rest).skip(1) =~= seq![x] + rest);
    assert((seq![a, b, c, d] + rest).skip(1) =~= seq![b, c, d] + rest);
    assert((seq![b, c, d] + rest).skip(1) =~= seq![c, d] + rest);
    assert((seq![c, d] + rest).skip(1) =~= seq![d] + rest);
    assert(seq![a, b].skip(1) =~= seq![b]);
    assert(seq![b].skip(1) =~= Seq::<u8>::empty());
}

/// A Variable Byte Integer holds twenty-eight bits.
pub proof fn integers_hold_twenty_eight_bits()
    ensures
        MAX_VARIABLE_BYTE_INTEGER == 0x1000_0000 - 1,
{
}

} // verus!
