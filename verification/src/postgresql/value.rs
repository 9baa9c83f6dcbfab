//! PostgreSQL scalar normalization without decimal or timestamp precision loss.

use crate::calendar;
use crate::calendar::{format_micros, Moment};
use crate::database::row::{Cell, CellValue};
use crate::double;
use crate::double::Double;
use crate::postgresql::error::PgError;
use crate::postgresql::numeric;
use crate::postgresql::wire;
use crate::text;
use crate::text::{append_signed, append_text};
use crate::utf8::read_utf8;
use vstd::prelude::*;

verus! {

/// The result types that have a normal form, and all others.
#[derive(Clone, Copy, Debug, PartialEq, Eq, Structural)]
pub enum PgType {
    Bool,
    Int2,
    Int4,
    Int8,
    Float4,
    Float8,
    Numeric,
    Text,
    Varchar,
    Bpchar,
    Name,
    Bytea,
    Date,
    Timestamp,
    TimestampTz,
    Json,
    Jsonb,
    Uuid,
    Interval,
    /// Any other type.
    Other,
}

/// The type that PostgreSQL's catalog gives an object identifier.
pub open spec fn type_of(oid: u32) -> PgType {
    if oid == 16 {
        PgType::Bool
    } else if oid == 21 {
        PgType::Int2
    } else if oid == 23 {
        PgType::Int4
    } else if oid == 20 {
        PgType::Int8
    } else if oid == 700 {
        PgType::Float4
    } else if oid == 701 {
        PgType::Float8
    } else if oid == 1700 {
        PgType::Numeric
    } else if oid == 25 {
        PgType::Text
    } else if oid == 1043 {
        PgType::Varchar
    } else if oid == 1042 {
        PgType::Bpchar
    } else if oid == 19 {
        PgType::Name
    } else if oid == 17 {
        PgType::Bytea
    } else if oid == 1082 {
        PgType::Date
    } else if oid == 1114 {
        PgType::Timestamp
    } else if oid == 1184 {
        PgType::TimestampTz
    } else if oid == 114 {
        PgType::Json
    } else if oid == 3802 {
        PgType::Jsonb
    } else if oid == 2950 {
        PgType::Uuid
    } else if oid == 1186 {
        PgType::Interval
    } else {
        PgType::Other
    }
}

impl PgType {
    /// The type with this object identifier.
    pub fn from_oid(oid: u32) -> (r: Self)
        ensures
            r == type_of(oid),
    {
        match oid {
            16 => PgType::Bool,
            21 => PgType::Int2,
            23 => PgType::Int4,
            20 => PgType::Int8,
            700 => PgType::Float4,
            701 => PgType::Float8,
            1700 => PgType::Numeric,
            25 => PgType::Text,
            1043 => PgType::Varchar,
            1042 => PgType::Bpchar,
            19 => PgType::Name,
            17 => PgType::Bytea,
            1082 => PgType::Date,
            1114 => PgType::Timestamp,
            1184 => PgType::TimestampTz,
            114 => PgType::Json,
            3802 => PgType::Jsonb,
            2950 => PgType::Uuid,
            1186 => PgType::Interval,
            _ => PgType::Other,
        }
    }
}

/// Whether values of a type have a normal form.
pub fn supported(ty: PgType) -> (found: bool)
    ensures
        found == (ty != PgType::Other),
{
    match ty {
        PgType::Other => false,
        _ => true,
    }
}

/// The text of an interval: months, days and microseconds, each kept apart.
pub open spec fn interval_text(raw: Seq<u8>) -> Seq<char> {
    text::signed_decimal(wire::signed32(raw.subrange(12, 16))) + " mons "@ + text::signed_decimal(
        wire::signed32(raw.subrange(8, 12)),
    ) + " days "@ + text::signed_decimal(wire::signed64(raw.subrange(0, 8))) + " microseconds"@
}

/// The text of bytes that must be UTF-8.
pub open spec fn utf8_cell(raw: Seq<u8>) -> Result<Cell, PgError> {
    if vstd::utf8::valid_utf8(raw) {
        Ok(Cell::Text(vstd::utf8::decode_utf8(raw)))
    } else {
        Err(PgError::Conversion)
    }
}

/// The text of a moment that was read, if it was and has one.
pub open spec fn moment_text(moment: Option<Moment>) -> Option<Seq<char>> {
    match moment {
        Some(moment) => calendar::micros_text(moment),
        None => None,
    }
}

/// The normal form of a value that is present and within bounds.
pub open spec fn value_cell(ty: PgType, raw: Seq<u8>, limit: u64) -> Result<Cell, PgError> {
    match ty {
        PgType::Bool => match wire::bool_value(raw) {
            Some(value) => Ok(Cell::Bool(value)),
            None => Err(PgError::Conversion),
        },
        PgType::Int2 => match wire::int2_value(raw) {
            Some(value) => Ok(Cell::Int64(value as i64)),
            None => Err(PgError::Conversion),
        },
        PgType::Int4 => match wire::int4_value(raw) {
            Some(value) => Ok(Cell::Int64(value as i64)),
            None => Err(PgError::Conversion),
        },
        PgType::Int8 => match wire::int8_value(raw) {
            Some(value) => Ok(Cell::Int64(value as i64)),
            None => Err(PgError::Conversion),
        },
        PgType::Float4 => {
            let bits = double::widened(wire::big_endian(raw) as u32);
            if raw.len() == 4 && double::finite(bits) {
                Ok(Cell::Float64(Double { bits }))
            } else {
                Err(PgError::Conversion)
            }
        },
        PgType::Float8 => if raw.len() == 8 && double::finite(wire::big_endian(raw) as u64) {
            Ok(Cell::Float64(Double { bits: wire::big_endian(raw) as u64 }))
        } else {
            Err(PgError::Conversion)
        },
        PgType::Numeric => match numeric::numeric_result(raw, limit) {
            Ok(value) => Ok(Cell::Decimal(value)),
            Err(error) => Err(error),
        },
        PgType::Bytea => Ok(Cell::Bytes(raw)),
        PgType::Uuid => match wire::uuid_text(raw) {
            Some(value) => Ok(Cell::Text(value)),
            None => Err(PgError::Conversion),
        },
        PgType::Date => match wire::date_text(raw) {
            Some(value) => Ok(Cell::Text(value)),
            None => Err(PgError::Conversion),
        },
        PgType::Timestamp => match moment_text(wire::timestamp_moment(raw)) {
            Some(value) => Ok(Cell::Timestamp(value)),
            None => Err(PgError::Conversion),
        },
        PgType::TimestampTz => match moment_text(wire::timestamptz_moment(raw)) {
            Some(value) => Ok(Cell::TimestampTz(value)),
            None => Err(PgError::Conversion),
        },
        PgType::Interval => if raw.len() == 16 {
            Ok(Cell::Interval(interval_text(raw)))
        } else {
            Err(PgError::Conversion)
        },
        PgType::Jsonb => if raw.len() > 0 && raw[0] == 1 {
            utf8_cell(raw.skip(1))
        } else {
            Err(PgError::Conversion)
        },
        PgType::Text | PgType::Varchar | PgType::Bpchar | PgType::Name | PgType::Json => utf8_cell(
            raw,
        ),
        PgType::Other => Err(PgError::UnsupportedType),
    }
}

/// What decoding a value gives: NULL for an absent one, a refusal for one beyond the
/// limit, and else its normal form or why it has none.
pub open spec fn decoded(ty: PgType, raw: Option<Seq<u8>>, limit: u64) -> Result<Cell, PgError> {
    match raw {
        None => Ok(Cell::Null),
        Some(raw) => if raw.len() > limit {
            Err(PgError::RowTooLarge)
        } else {
            value_cell(ty, raw, limit)
        },
    }
}

/// The result of a decoding as a mathematical value.
pub open spec fn cell_result(result: Result<CellValue, PgError>) -> Result<Cell, PgError> {
    match result {
        Ok(cell) => Ok(cell@),
        Err(error) => Err(error),
    }
}

fn utf8_text(raw: &[u8]) -> (r: Result<CellValue, PgError>)
    ensures
        cell_result(r) == utf8_cell(raw@),
{
    match read_utf8(raw) {
        Some(value) => Ok(CellValue::String(value)),
        None => Err(PgError::Conversion),
    }
}

fn text_of_moment(moment: Option<Moment>) -> (r: Option<String>)
    ensures
        match r {
            Some(value) => moment_text(moment) == Some(value@),
            None => moment_text(moment) is None,
        },
{
    match moment {
        Some(moment) => format_micros(moment),
        None => None,
    }
}

fn decode_float4(raw: &[u8]) -> (r: Result<CellValue, PgError>)
    ensures
        cell_result(r) == value_cell(PgType::Float4, raw@, 0),
{
    if raw.len() != 4 {
        return Err(PgError::Conversion);
    }
    assert(raw@.subrange(0, 4) =~= raw@);
    let value = Double::widen(wire::read_word(raw, 0));
    if !value.is_finite() {
        return Err(PgError::Conversion);
    }
    Ok(CellValue::Float64(value))
}

fn decode_float8(raw: &[u8]) -> (r: Result<CellValue, PgError>)
    ensures
        cell_result(r) == value_cell(PgType::Float8, raw@, 0),
{
    if raw.len() != 8 {
        return Err(PgError::Conversion);
    }
    assert(raw@.subrange(0, 8) =~= raw@);
    let value = Double { bits: wire::read_long(raw, 0) };
    if !value.is_finite() {
        return Err(PgError::Conversion);
    }
    Ok(CellValue::Float64(value))
}

fn decode_interval(raw: &[u8]) -> (r: Result<CellValue, PgError>)
    ensures
        cell_result(r) == value_cell(PgType::Interval, raw@, 0),
{
    if raw.len() != 16 {
        return Err(PgError::Conversion);
    }
    let micros: i64 = wire::as_signed64(wire::read_long(raw, 0));
    let days: i64 = wire::as_signed32(wire::read_word(raw, 8));
    let months: i64 = wire::as_signed32(wire::read_word(raw, 12));
    let mut value = String::new();
    append_signed(&mut value, months);
    append_text(&mut value, " mons ");
    append_signed(&mut value, days);
    append_text(&mut value, " days ");
    append_signed(&mut value, micros);
    append_text(&mut value, " microseconds");
    assert(value@ =~= interval_text(raw@));
    Ok(CellValue::Interval(value))
}

fn decode_jsonb(raw: &[u8]) -> (r: Result<CellValue, PgError>)
    ensures
        cell_result(r) == value_cell(PgType::Jsonb, raw@, 0),
{
    if raw.len() == 0 || raw[0] != 1 {
        return Err(PgError::Conversion);
    }
    let rest = vstd::slice::slice_subrange(raw, 1, raw.len());
    assert(rest@ =~= raw@.skip(1));
    utf8_text(rest)
}

/// Decodes one value that is `limit` bytes long at most.
pub fn decode(ty: PgType, raw: Option<&[u8]>, limit: u64) -> (r: Result<CellValue, PgError>)
    ensures
        cell_result(r) == decoded(
            ty,
            match raw {
                Some(raw) => Some(raw@),
                None => None,
            },
            limit,
        ),
{
    let raw = match raw {
        Some(raw) => raw,
        None => {
            return Ok(CellValue::Null);
        },
    };
    if raw.len() as u64 > limit {
        return Err(PgError::RowTooLarge);
    }
    match ty {
        PgType::Bool => match wire::read_bool(raw) {
            Some(value) => Ok(CellValue::Bool(value)),
            None => Err(PgError::Conversion),
        },
        PgType::Int2 => match wire::read_int2(raw) {
            Some(value) => Ok(CellValue::Int64(value as i64)),
            None => Err(PgError::Conversion),
        },
        PgType::Int4 => match wire::read_int4(raw) {
            Some(value) => Ok(CellValue::Int64(value as i64)),
            None => Err(PgError::Conversion),
        },
        PgType::Int8 => match wire::read_int8(raw) {
            Some(value) => Ok(CellValue::Int64(value)),
            None => Err(PgError::Conversion),
        },
        PgType::Float4 => decode_float4(raw),
        PgType::Float8 => decode_float8(raw),
        PgType::Numeric => match numeric::numeric(raw, limit) {
            Ok(value) => Ok(CellValue::Decimal(value)),
            Err(error) => Err(error),
        },
        PgType::Bytea => Ok(CellValue::Bytes(vstd::slice::slice_to_vec(raw))),
        PgType::Uuid => match wire::read_uuid(raw) {
            Some(value) => Ok(CellValue::String(value)),
            None => Err(PgError::Conversion),
        },
        PgType::Date => match wire::read_date(raw) {
            Some(value) => Ok(CellValue::String(value)),
            None => Err(PgError::Conversion),
        },
        PgType::Timestamp => match text_of_moment(wire::read_timestamp(raw)) {
            Some(value) => Ok(CellValue::Timestamp(value)),
            None => Err(PgError::Conversion),
        },
        PgType::TimestampTz => match text_of_moment(wire::read_timestamptz(raw)) {
            Some(value) => Ok(CellValue::TimestampTz(value)),
            None => Err(PgError::Conversion),
        },
        PgType::Interval => decode_interval(raw),
        PgType::Jsonb => decode_jsonb(raw),
        PgType::Text
        | PgType::Varchar
        | PgType::Bpchar
        | PgType::Name
        | PgType::Json => utf8_text(raw),
        PgType::Other => Err(PgError::UnsupportedType),
    }
}

/// Every supported type is known by its one object identifier in the catalog.
pub proof fn law_types_are_known_by_their_identifiers(oid: u32)
    ensures
        type_of(oid) is Bool <==> oid == 16,
        type_of(oid) is Bytea <==> oid == 17,
        type_of(oid) is Name <==> oid == 19,
        type_of(oid) is Int8 <==> oid == 20,
        type_of(oid) is Int2 <==> oid == 21,
        type_of(oid) is Int4 <==> oid == 23,
        type_of(oid) is Text <==> oid == 25,
        type_of(oid) is Json <==> oid == 114,
        type_of(oid) is Float4 <==> oid == 700,
        type_of(oid) is Float8 <==> oid == 701,
        type_of(oid) is Bpchar <==> oid == 1042,
        type_of(oid) is Varchar <==> oid == 1043,
        type_of(oid) is Date <==> oid == 1082,
        type_of(oid) is Timestamp <==> oid == 1114,
        type_of(oid) is TimestampTz <==> oid == 1184,
        type_of(oid) is Interval <==> oid == 1186,
        type_of(oid) is Numeric <==> oid == 1700,
        type_of(oid) is Uuid <==> oid == 2950,
        type_of(oid) is Jsonb <==> oid == 3802,
{
}

/// An absent value is NULL, whatever its type, and one beyond the limit is refused for its
/// size before it is read.
pub proof fn law_absent_and_large_values(ty: PgType, raw: Option<Seq<u8>>, limit: u64)
    ensures
        decoded(ty, raw, limit) == Ok::<Cell, PgError>(Cell::Null) <==> raw is None,
        raw matches Some(bytes) ==> if bytes.len() > limit {
            decoded(ty, raw, limit) == Err::<Cell, PgError>(PgError::RowTooLarge)
        } else {
            decoded(ty, raw, limit) == value_cell(ty, bytes, limit)
        },
{
}

/// Integers keep their value whatever their width: the two's complement number of their bytes,
/// read most significant first.
pub proof fn law_integers_keep_their_value(ty: PgType, raw: Seq<u8>, limit: u64)
    requires
        ty is Int2 || ty is Int4 || ty is Int8,
    ensures
        match value_cell(ty, raw, limit) {
            Ok(Cell::Int64(n)) => match ty {
                PgType::Int2 => raw.len() == 2 && n == raw[0] * 0x100 + raw[1] - if raw[0] >= 0x80 {
                    0x1_0000int
                } else {
                    0int
                },
                PgType::Int4 => raw.len() == 4 && n == raw[0] * 0x100_0000 + raw[1] * 0x1_0000
                    + raw[2] * 0x100 + raw[3] - if raw[0] >= 0x80 {
                    0x1_0000_0000int
                } else {
                    0int
                },
                _ => raw.len() == 8 && n == raw[0] * 0x100_0000_0000_0000 + raw[1]
                    * 0x1_0000_0000_0000 + raw[2] * 0x100_0000_0000 + raw[3] * 0x1_0000_0000
                    + raw[4] * 0x100_0000 + raw[5] * 0x1_0000 + raw[6] * 0x100 + raw[7] - if raw[0]
                    >= 0x80 {
                    0x1_0000_0000_0000_0000int
                } else {
                    0int
                },
            },
            Err(error) => error is Conversion && raw.len() != match ty {
                PgType::Int2 => 2nat,
                PgType::Int4 => 4,
                _ => 8,
            },
            _ => false,
        },
{
    wire::law_int2_is_read_from_its_bytes(raw);
    wire::law_int4_is_read_from_its_bytes(raw);
    wire::law_int8_is_read_from_its_bytes(raw);
}

/// Texts keep their characters and bytes their bytes; what has to be UTF-8 and is not, or has
/// not the length of its type, cannot be converted.
pub proof fn law_texts_and_bytes_are_kept(ty: PgType, raw: Seq<u8>, limit: u64)
    ensures
        ty is Bytea ==> value_cell(ty, raw, limit) == Ok::<Cell, PgError>(Cell::Bytes(raw)),
        ty is Text || ty is Varchar || ty is Bpchar || ty is Name || ty is Json
            ==> match value_cell(ty, raw, limit) {
            Ok(cell) => cell == Cell::Text(vstd::utf8::decode_utf8(raw)) && vstd::utf8::valid_utf8(
                raw,
            ),
            Err(error) => error is Conversion && !vstd::utf8::valid_utf8(raw),
        },
        ty is Jsonb ==> match value_cell(ty, raw, limit) {
            Ok(cell) => raw.len() >= 1 && raw[0] == 1 && cell == Cell::Text(
                vstd::utf8::decode_utf8(raw.skip(1)),
            ) && vstd::utf8::valid_utf8(raw.skip(1)),
            Err(error) => error is Conversion && (raw.len() == 0 || raw[0] != 1
                || !vstd::utf8::valid_utf8(raw.skip(1))),
        },
        ty is Bool ==> match value_cell(ty, raw, limit) {
            Ok(Cell::Bool(b)) => raw.len() == 1 && (b <==> raw[0] != 0),
            Err(error) => error is Conversion && raw.len() != 1,
            _ => false,
        },
        ty is Other ==> value_cell(ty, raw, limit) == Err::<Cell, PgError>(
            PgError::UnsupportedType,
        ),
{
}

/// An interval's months, days and microseconds are each the number of its own bytes, in
/// decimal and with their units, and none is folded into another.
pub proof fn law_intervals_keep_their_parts(raw: Seq<u8>, limit: u64)
    ensures
        match value_cell(PgType::Interval, raw, limit) {
            Ok(cell) => {
                let months = wire::int4_value(raw.subrange(12, 16))->0;
                let days = wire::int4_value(raw.subrange(8, 12))->0;
                let micros = wire::int8_value(raw.subrange(0, 8))->0;
                &&& raw.len() == 16
                &&& cell == Cell::Interval(
                    text::signed_decimal(months) + " mons "@ + text::signed_decimal(days)
                        + " days "@ + text::signed_decimal(micros) + " microseconds"@,
                )
            },
            Err(error) => error is Conversion && raw.len() != 16,
        },
{
}

/// A double keeps its bits, in the order of its bytes, and a single is widened without loss;
/// one that is no number cannot be converted.
pub proof fn law_floats_keep_their_bits(raw: Seq<u8>, limit: u64)
    ensures
        match value_cell(PgType::Float8, raw, limit) {
            Ok(Cell::Float64(d)) => raw.len() == 8 && double::finite(d.bits) && d.bits == raw[0]
                * 0x100_0000_0000_0000 + raw[1] * 0x1_0000_0000_0000 + raw[2] * 0x100_0000_0000
                + raw[3] * 0x1_0000_0000 + raw[4] * 0x100_0000 + raw[5] * 0x1_0000 + raw[6] * 0x100
                + raw[7],
            Err(error) => error is Conversion && (raw.len() == 8 ==> !double::finite(
                wire::big_endian(raw) as u64,
            )),
            _ => false,
        },
        match value_cell(PgType::Float4, raw, limit) {
            Ok(Cell::Float64(d)) => raw.len() == 4 && double::finite(d.bits) && d.bits
                == double::widened(
                (raw[0] * 0x100_0000 + raw[1] * 0x1_0000 + raw[2] * 0x100 + raw[3]) as u32,
            ),
            Err(error) => error is Conversion && (raw.len() == 4 ==> !double::finite(
                double::widened(wire::big_endian(raw) as u32),
            )),
            _ => false,
        },
{
    wire::law_bytes_count_most_significant_first(raw);
}

} // verus!
