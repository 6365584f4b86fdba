//! Record projection for the table-lake sink: batches of bus records
//! become typed columns under the mapping's declared schema, with per-type
//! coercion and range checks, and an optional metadata column.

use vstd::prelude::*;

use crate::bus::{ConnectorError, ErrorKind, SinkRecord, SinkRecordModel};
use crate::deltalake::config::TopicMapping;
use crate::timefmt::rfc3339_parse_micros;
use crate::value::{
    num_of_u64, num_of_u64_spec, value_field, Number, ValModel, Value,
};

verus! {

/// A column type from the closed set the sink can build.
#[derive(Clone, Copy, Debug, PartialEq, Eq, Structural)]
pub enum ArrowType {
    Utf8,
    Int8,
    Int16,
    Int32,
    Int64,
    UInt8,
    UInt16,
    UInt32,
    UInt64,
    Float32,
    Float64,
    Boolean,
    Timestamp,
    Date32,
    Date64,
    Binary,
}

/// The column type a name denotes, if any.
pub open spec fn arrow_type_of(s: Seq<char>) -> Option<ArrowType> {
    if s == "Utf8"@ {
        Option::Some(ArrowType::Utf8)
    } else if s == "Int8"@ {
        Option::Some(ArrowType::Int8)
    } else if s == "Int16"@ {
        Option::Some(ArrowType::Int16)
    } else if s == "Int32"@ {
        Option::Some(ArrowType::Int32)
    } else if s == "Int64"@ {
        Option::Some(ArrowType::Int64)
    } else if s == "UInt8"@ {
        Option::Some(ArrowType::UInt8)
    } else if s == "UInt16"@ {
        Option::Some(ArrowType::UInt16)
    } else if s == "UInt32"@ {
        Option::Some(ArrowType::UInt32)
    } else if s == "UInt64"@ {
        Option::Some(ArrowType::UInt64)
    } else if s == "Float32"@ {
        Option::Some(ArrowType::Float32)
    } else if s == "Float64"@ {
        Option::Some(ArrowType::Float64)
    } else if s == "Boolean"@ {
        Option::Some(ArrowType::Boolean)
    } else if s == "Timestamp"@ {
        Option::Some(ArrowType::Timestamp)
    } else if s == "Date32"@ {
        Option::Some(ArrowType::Date32)
    } else if s == "Date64"@ {
        Option::Some(ArrowType::Date64)
    } else if s == "Binary"@ {
        Option::Some(ArrowType::Binary)
    } else {
        Option::None
    }
}

/// Parse a column type name; a name outside the closed set is a fatal
/// error.
pub fn parse_arrow_type(type_str: &str) -> (r: Result<ArrowType, ConnectorError>)
    ensures
        match r {
            Result::Ok(t) => arrow_type_of(type_str@) == Option::Some(t),
            Result::Err(e) => arrow_type_of(type_str@) is None && e.kind == ErrorKind::Fatal,
        },
{
    if crate::text::str_eq(type_str, "Utf8") {
        Result::Ok(ArrowType::Utf8)
    } else if crate::text::str_eq(type_str, "Int8") {
        Result::Ok(ArrowType::Int8)
    } else if crate::text::str_eq(type_str, "Int16") {
        Result::Ok(ArrowType::Int16)
    } else if crate::text::str_eq(type_str, "Int32") {
        Result::Ok(ArrowType::Int32)
    } else if crate::text::str_eq(type_str, "Int64") {
        Result::Ok(ArrowType::Int64)
    } else if crate::text::str_eq(type_str, "UInt8") {
        Result::Ok(ArrowType::UInt8)
    } else if crate::text::str_eq(type_str, "UInt16") {
        Result::Ok(ArrowType::UInt16)
    } else if crate::text::str_eq(type_str, "UInt32") {
        Result::Ok(ArrowType::UInt32)
    } else if crate::text::str_eq(type_str, "UInt64") {
        Result::Ok(ArrowType::UInt64)
    } else if crate::text::str_eq(type_str, "Float32") {
        Result::Ok(ArrowType::Float32)
    } else if crate::text::str_eq(type_str, "Float64") {
        Result::Ok(ArrowType::Float64)
    } else if crate::text::str_eq(type_str, "Boolean") {
        Result::Ok(ArrowType::Boolean)
    } else if crate::text::str_eq(type_str, "Timestamp") {
        Result::Ok(ArrowType::Timestamp)
    } else if crate::text::str_eq(type_str, "Date32") {
        Result::Ok(ArrowType::Date32)
    } else if crate::text::str_eq(type_str, "Date64") {
        Result::Ok(ArrowType::Date64)
    } else if crate::text::str_eq(type_str, "Binary") {
        Result::Ok(ArrowType::Binary)
    } else {
        Result::Err(ConnectorError::fatal(String::from_str("unsupported column type")))
    }
}

/// A number read as a signed integer: signed values directly, unsigned
/// values when they fit.
pub open spec fn as_i64_model(v: ValModel) -> Option<i64> {
    match v {
        ValModel::Num(Number::Int(i)) => Option::Some(i),
        ValModel::Num(Number::UInt(u)) => if u <= i64::MAX {
            Option::Some(u as i64)
        } else {
            Option::None
        },
        _ => Option::None,
    }
}

/// A number read as an unsigned integer: unsigned values directly, signed
/// values when they are not negative.
pub open spec fn as_u64_model(v: ValModel) -> Option<u64> {
    match v {
        ValModel::Num(Number::Int(i)) => if i >= 0 {
            Option::Some(i as u64)
        } else {
            Option::None
        },
        ValModel::Num(Number::UInt(u)) => Option::Some(u),
        _ => Option::None,
    }
}

/// Any number, for floating-point columns; the writer performs the final
/// numeric conversion.
pub open spec fn as_num_model(v: ValModel) -> Option<Number> {
    match v {
        ValModel::Num(n) => Option::Some(n),
        _ => Option::None,
    }
}

/// A boolean field.
pub open spec fn as_bool_model(v: ValModel) -> Option<bool> {
    match v {
        ValModel::Bool(b) => Option::Some(b),
        _ => Option::None,
    }
}

/// A string field.
pub open spec fn as_str_model(v: ValModel) -> Option<Seq<char>> {
    match v {
        ValModel::Str(s) => Option::Some(s),
        _ => Option::None,
    }
}

/// Seconds that survive conversion to microseconds.
pub open spec fn secs_in_micros_range(secs: i64) -> bool {
    -9_223_372_036_854i64 <= secs <= 9_223_372_036_854i64
}

/// A timestamp field: an integer is Unix seconds scaled to microseconds,
/// a string is parsed as RFC 3339; seconds too large to scale are
/// rejected rather than wrapped.
pub open spec fn ts_of_field(f: ValModel) -> Option<i64> {
    match as_i64_model(f) {
        Option::Some(secs) => if secs_in_micros_range(secs) {
            Option::Some((secs * 1_000_000) as i64)
        } else {
            Option::None
        },
        Option::None => match f {
            ValModel::Str(s) => rfc3339_parse_micros(s),
            _ => Option::None,
        },
    }
}

/// Extract a string field from a payload object.
pub fn extract_string_field(value: &Value, field_name: &str) -> (r: Option<String>)
    ensures
        match r {
            Option::Some(s) => match value_field(value@, field_name@) {
                Option::Some(f) => as_str_model(f) == Option::Some(s@),
                Option::None => false,
            },
            Option::None => match value_field(value@, field_name@) {
                Option::Some(f) => as_str_model(f) is None,
                Option::None => true,
            },
        },
{
    match value.get_field(field_name) {
        Option::Some(f) => match f {
            Value::Str(s) => Option::Some(s.clone()),
            _ => Option::None,
        },
        Option::None => Option::None,
    }
}

/// Extract a signed-integer field from a payload object.
pub fn extract_int_field(value: &Value, field_name: &str) -> (r: Option<i64>)
    ensures
        r == match value_field(value@, field_name@) {
            Option::Some(f) => as_i64_model(f),
            Option::None => Option::None::<i64>,
        },
{
    match value.get_field(field_name) {
        Option::Some(f) => match f {
            Value::Num(Number::Int(i)) => Option::Some(*i),
            Value::Num(Number::UInt(u)) => {
                if *u <= i64::MAX as u64 {
                    Option::Some(*u as i64)
                } else {
                    Option::None
                }
            },
            _ => Option::None,
        },
        Option::None => Option::None,
    }
}

/// Extract an unsigned-integer field from a payload object.
pub fn extract_uint_field(value: &Value, field_name: &str) -> (r: Option<u64>)
    ensures
        r == match value_field(value@, field_name@) {
            Option::Some(f) => as_u64_model(f),
            Option::None => Option::None::<u64>,
        },
{
    match value.get_field(field_name) {
        Option::Some(f) => match f {
            Value::Num(Number::Int(i)) => {
                if *i >= 0 {
                    Option::Some(*i as u64)
                } else {
                    Option::None
                }
            },
            Value::Num(Number::UInt(u)) => Option::Some(*u),
            _ => Option::None,
        },
        Option::None => Option::None,
    }
}

/// Extract a numeric field for a floating-point column.
pub fn extract_float_field(value: &Value, field_name: &str) -> (r: Option<Number>)
    ensures
        r == match value_field(value@, field_name@) {
            Option::Some(f) => as_num_model(f),
            Option::None => Option::None::<Number>,
        },
{
    match value.get_field(field_name) {
        Option::Some(f) => match f {
            Value::Num(n) => Option::Some(*n),
            _ => Option::None,
        },
        Option::None => Option::None,
    }
}

/// Extract a boolean field from a payload object.
pub fn extract_bool_field(value: &Value, field_name: &str) -> (r: Option<bool>)
    ensures
        r == match value_field(value@, field_name@) {
            Option::Some(f) => as_bool_model(f),
            Option::None => Option::None::<bool>,
        },
{
    match value.get_field(field_name) {
        Option::Some(f) => match f {
            Value::Bool(b) => Option::Some(*b),
            _ => Option::None,
        },
        Option::None => Option::None,
    }
}

/// Extract a timestamp field: Unix seconds scaled to microseconds, or an
/// RFC 3339 string.
pub fn extract_timestamp_field(value: &Value, field_name: &str) -> (r: Option<i64>)
    ensures
        r == match value_field(value@, field_name@) {
            Option::Some(f) => ts_of_field(f),
            Option::None => Option::None::<i64>,
        },
{
    match value.get_field(field_name) {
        Option::Some(f) => {
            let secs: Option<i64> = match f {
                Value::Num(Number::Int(i)) => Option::Some(*i),
                Value::Num(Number::UInt(u)) => {
                    if *u <= i64::MAX as u64 {
                        Option::Some(*u as i64)
                    } else {
                        Option::None
                    }
                },
                _ => Option::None,
            };
            match secs {
                Option::Some(s) => {
                    if -9_223_372_036_854i64 <= s && s <= 9_223_372_036_854i64 {
                        Option::Some(s * 1_000_000)
                    } else {
                        Option::None
                    }
                },
                Option::None => match f {
                    Value::Str(s) => crate::timefmt::parse_rfc3339_micros(s.as_str()),
                    _ => Option::None,
                },
            }
        },
        Option::None => Option::None,
    }
}

} // verus!

verus! {

/// One cell of a typed column; `Missing` is a null cell.  Date cells are
/// the day or millisecond count; binary cells carry the base64 text the
/// system uses for bytes, which the writer decodes.
#[derive(Debug, PartialEq, Eq)]
pub enum CellValue {
    Missing,
    Utf8(String),
    Int(i64),
    UInt(u64),
    Float(Number),
    Boolean(bool),
    Timestamp(i64),
    Date(i64),
    Binary(String),
}

/// The model of a cell.
#[verifier::ext_equal]
pub enum CellModel {
    Missing,
    Utf8(Seq<char>),
    Int(i64),
    UInt(u64),
    Float(Number),
    Boolean(bool),
    Timestamp(i64),
    Date(i64),
    Binary(Seq<char>),
}

impl View for CellValue {
    type V = CellModel;

    open spec fn view(&self) -> CellModel {
        match self {
            CellValue::Missing => CellModel::Missing,
            CellValue::Utf8(s) => CellModel::Utf8(s@),
            CellValue::Int(i) => CellModel::Int(*i),
            CellValue::UInt(u) => CellModel::UInt(*u),
            CellValue::Float(n) => CellModel::Float(*n),
            CellValue::Boolean(b) => CellModel::Boolean(*b),
            CellValue::Timestamp(t) => CellModel::Timestamp(*t),
            CellValue::Date(d) => CellModel::Date(*d),
            CellValue::Binary(b) => CellModel::Binary(b@),
        }
    }
}

/// The model of a cell list.
pub open spec fn cells_model(cells: Seq<CellValue>) -> Seq<CellModel>
    decreases cells,
{
    if cells.len() == 0 {
        Seq::empty()
    } else {
        seq![cells[0]@] + cells_model(cells.drop_first())
    }
}

/// `cells_model` maps the sequence pointwise.
pub broadcast proof fn lemma_cells_model_len(cells: Seq<CellValue>)
    ensures
        (#[trigger] cells_model(cells)).len() == cells.len(),
        forall|i: int| 0 <= i < cells.len() ==> cells_model(cells)[i] == cells[i]@,
    decreases cells,
{
    if cells.len() > 0 {
        lemma_cells_model_len(cells.drop_first());
    }
}

/// The signed range of a column type, when it is a signed-integer type.
pub open spec fn int_range_of(t: ArrowType) -> Option<(int, int)> {
    match t {
        ArrowType::Int8 => Option::Some((i8::MIN as int, i8::MAX as int)),
        ArrowType::Int16 => Option::Some((i16::MIN as int, i16::MAX as int)),
        ArrowType::Int32 => Option::Some((i32::MIN as int, i32::MAX as int)),
        ArrowType::Int64 => Option::Some((i64::MIN as int, i64::MAX as int)),
        _ => Option::None,
    }
}

/// The unsigned bound of a column type, when it is an unsigned-integer
/// type.
pub open spec fn uint_bound_of(t: ArrowType) -> Option<int> {
    match t {
        ArrowType::UInt8 => Option::Some(u8::MAX as int),
        ArrowType::UInt16 => Option::Some(u16::MAX as int),
        ArrowType::UInt32 => Option::Some(u32::MAX as int),
        ArrowType::UInt64 => Option::Some(u64::MAX as int),
        _ => Option::None,
    }
}

/// The cell a record's payload contributes to a column, if the value fits:
/// a missing or null field becomes a null cell only for a nullable column;
/// a present field must coerce to the column's type, with range checks on
/// the integer widths.
pub open spec fn coerce_cell_spec(
    payload: ValModel,
    name: Seq<char>,
    dtype: ArrowType,
    nullable: bool,
) -> Option<CellModel> {
    let f = value_field(payload, name);
    match f {
        Option::None => if nullable {
            Option::Some(CellModel::Missing)
        } else {
            Option::None
        },
        Option::Some(ValModel::Null) => if nullable {
            Option::Some(CellModel::Missing)
        } else {
            Option::None
        },
        Option::Some(fv) => match dtype {
            ArrowType::Utf8 => match as_str_model(fv) {
                Option::Some(s) => Option::Some(CellModel::Utf8(s)),
                Option::None => Option::None,
            },
            ArrowType::Int8 | ArrowType::Int16 | ArrowType::Int32 | ArrowType::Int64 => {
                match (as_i64_model(fv), int_range_of(dtype)) {
                    (Option::Some(n), Option::Some((lo, hi))) => if lo <= n <= hi {
                        Option::Some(CellModel::Int(n))
                    } else {
                        Option::None
                    },
                    _ => Option::None,
                }
            },
            ArrowType::UInt8 | ArrowType::UInt16 | ArrowType::UInt32 | ArrowType::UInt64 => {
                match (as_u64_model(fv), uint_bound_of(dtype)) {
                    (Option::Some(n), Option::Some(hi)) => if n <= hi {
                        Option::Some(CellModel::UInt(n))
                    } else {
                        Option::None
                    },
                    _ => Option::None,
                }
            },
            ArrowType::Float32 | ArrowType::Float64 => match as_num_model(fv) {
                Option::Some(n) => Option::Some(CellModel::Float(n)),
                Option::None => Option::None,
            },
            ArrowType::Boolean => match as_bool_model(fv) {
                Option::Some(b) => Option::Some(CellModel::Boolean(b)),
                Option::None => Option::None,
            },
            ArrowType::Timestamp => match ts_of_field(fv) {
                Option::Some(t) => Option::Some(CellModel::Timestamp(t)),
                Option::None => Option::None,
            },
            ArrowType::Date32 => match as_i64_model(fv) {
                Option::Some(d) => if i32::MIN <= d <= i32::MAX {
                    Option::Some(CellModel::Date(d))
                } else {
                    Option::None
                },
                Option::None => Option::None,
            },
            ArrowType::Date64 => match as_i64_model(fv) {
                Option::Some(d) => Option::Some(CellModel::Date(d)),
                Option::None => Option::None,
            },
            ArrowType::Binary => match as_str_model(fv) {
                Option::Some(b) => Option::Some(CellModel::Binary(b)),
                Option::None => Option::None,
            },
        },
    }
}

/// A built column has one cell per payload.
pub proof fn lemma_cells_spec_len(
    vs: Seq<ValModel>,
    name: Seq<char>,
    dtype: ArrowType,
    nullable: bool,
)
    requires
        cells_spec(vs, name, dtype, nullable) is Some,
    ensures
        cells_spec(vs, name, dtype, nullable)->0.len() == vs.len(),
    decreases vs.len(),
{
    if vs.len() > 0 {
        lemma_cells_spec_len(vs.drop_first(), name, dtype, nullable);
    }
}

/// The whole column a payload list contributes, if every value fits.
pub open spec fn cells_spec(
    vs: Seq<ValModel>,
    name: Seq<char>,
    dtype: ArrowType,
    nullable: bool,
) -> Option<Seq<CellModel>>
    decreases vs.len(),
{
    if vs.len() == 0 {
        Option::Some(Seq::empty())
    } else {
        match (coerce_cell_spec(vs[0], name, dtype, nullable), cells_spec(
            vs.drop_first(),
            name,
            dtype,
            nullable,
        )) {
            (Option::Some(c), Option::Some(rest)) => Option::Some(seq![c] + rest),
            _ => Option::None,
        }
    }
}

/// The model of a payload list.
pub open spec fn values_model(vs: Seq<Value>) -> Seq<ValModel>
    decreases vs,
{
    if vs.len() == 0 {
        Seq::empty()
    } else {
        seq![vs[0]@] + values_model(vs.drop_first())
    }
}

/// `values_model` maps the sequence pointwise.
pub broadcast proof fn lemma_values_model_len(vs: Seq<Value>)
    ensures
        (#[trigger] values_model(vs)).len() == vs.len(),
        forall|i: int| 0 <= i < vs.len() ==> values_model(vs)[i] == vs[i]@,
    decreases vs,
{
    if vs.len() > 0 {
        lemma_values_model_len(vs.drop_first());
    }
}

/// Coerce one payload into one cell.
fn coerce_cell(payload: &Value, name: &str, dtype: ArrowType, nullable: bool) -> (r: Option<
    CellValue,
>)
    ensures
        match r {
            Option::Some(c) => coerce_cell_spec(payload@, name@, dtype, nullable) == Option::Some(
                c@,
            ),
            Option::None => coerce_cell_spec(payload@, name@, dtype, nullable) is None,
        },
{
    let f = match payload.get_field(name) {
        Option::None => {
            return if nullable {
                Option::Some(CellValue::Missing)
            } else {
                Option::None
            };
        },
        Option::Some(Value::Null) => {
            return if nullable {
                Option::Some(CellValue::Missing)
            } else {
                Option::None
            };
        },
        Option::Some(f) => f,
    };
    match dtype {
        ArrowType::Utf8 => match f {
            Value::Str(s) => Option::Some(CellValue::Utf8(s.clone())),
            _ => Option::None,
        },
        ArrowType::Int8 | ArrowType::Int16 | ArrowType::Int32 | ArrowType::Int64 => {
            let n: i64 = match f {
                Value::Num(Number::Int(i)) => *i,
                Value::Num(Number::UInt(u)) => {
                    if *u <= i64::MAX as u64 {
                        *u as i64
                    } else {
                        return Option::None;
                    }
                },
                _ => {
                    return Option::None;
                },
            };
            let ok = match dtype {
                ArrowType::Int8 => i8::MIN as i64 <= n && n <= i8::MAX as i64,
                ArrowType::Int16 => i16::MIN as i64 <= n && n <= i16::MAX as i64,
                ArrowType::Int32 => i32::MIN as i64 <= n && n <= i32::MAX as i64,
                _ => true,
            };
            if ok {
                Option::Some(CellValue::Int(n))
            } else {
                Option::None
            }
        },
        ArrowType::UInt8 | ArrowType::UInt16 | ArrowType::UInt32 | ArrowType::UInt64 => {
            let n: u64 = match f {
                Value::Num(Number::Int(i)) => {
                    if *i >= 0 {
                        *i as u64
                    } else {
                        return Option::None;
                    }
                },
                Value::Num(Number::UInt(u)) => *u,
                _ => {
                    return Option::None;
                },
            };
            let ok = match dtype {
                ArrowType::UInt8 => n <= u8::MAX as u64,
                ArrowType::UInt16 => n <= u16::MAX as u64,
                ArrowType::UInt32 => n <= u32::MAX as u64,
                _ => true,
            };
            if ok {
                Option::Some(CellValue::UInt(n))
            } else {
                Option::None
            }
        },
        ArrowType::Float32 | ArrowType::Float64 => match f {
            Value::Num(n) => Option::Some(CellValue::Float(*n)),
            _ => Option::None,
        },
        ArrowType::Boolean => match f {
            Value::Bool(b) => Option::Some(CellValue::Boolean(*b)),
            _ => Option::None,
        },
        ArrowType::Timestamp => match extract_timestamp_field(payload, name) {
            Option::Some(t) => Option::Some(CellValue::Timestamp(t)),
            Option::None => Option::None,
        },
        ArrowType::Date32 => {
            let d: i64 = match f {
                Value::Num(Number::Int(i)) => *i,
                Value::Num(Number::UInt(u)) => {
                    if *u <= i64::MAX as u64 {
                        *u as i64
                    } else {
                        return Option::None;
                    }
                },
                _ => {
                    return Option::None;
                },
            };
            if i32::MIN as i64 <= d && d <= i32::MAX as i64 {
                Option::Some(CellValue::Date(d))
            } else {
                Option::None
            }
        },
        ArrowType::Date64 => match f {
            Value::Num(Number::Int(i)) => Option::Some(CellValue::Date(*i)),
            Value::Num(Number::UInt(u)) => {
                if *u <= i64::MAX as u64 {
                    Option::Some(CellValue::Date(*u as i64))
                } else {
                    Option::None
                }
            },
            _ => Option::None,
        },
        ArrowType::Binary => match f {
            Value::Str(b) => Option::Some(CellValue::Binary(b.clone())),
            _ => Option::None,
        },
    }
}

/// Build the column for one declared field over a batch's payloads.  The
/// whole column builds, or the first value that does not fit the declared
/// type is invalid data.
#[verifier::loop_isolation(false)]
pub fn build_array_for_field(
    field_name: &str,
    data_type: ArrowType,
    nullable: bool,
    values: &Vec<Value>,
) -> (r: Result<Vec<CellValue>, ConnectorError>)
    ensures
        match r {
            Result::Ok(cells) => cells_spec(values_model(values@), field_name@, data_type, nullable)
                == Option::Some(cells_model(cells@)),
            Result::Err(e) => cells_spec(
                values_model(values@),
                field_name@,
                data_type,
                nullable,
            ) is None && e.kind == ErrorKind::InvalidData,
        },
{
    broadcast use lemma_values_model_len;
    broadcast use lemma_cells_model_len;

    let ghost vs = values_model(values@);
    let n = values.len();
    let mut cells: Vec<CellValue> = Vec::new();
    proof {
        assert(vs.skip(0) =~= vs);
        assert(cells_model(cells@) =~= Seq::<CellModel>::empty());
        if cells_spec(vs, field_name@, data_type, nullable) is Some {
            assert(cells_model(cells@) + cells_spec(vs, field_name@, data_type, nullable)->0
                =~= cells_spec(vs, field_name@, data_type, nullable)->0);
        }
    }
    for i in 0..n
        invariant
            cells@.len() == i,
            cells_spec(vs, field_name@, data_type, nullable) == match cells_spec(
                vs.skip(i as int),
                field_name@,
                data_type,
                nullable,
            ) {
                Option::Some(rest) => Option::Some(cells_model(cells@) + rest),
                Option::None => Option::None::<Seq<CellModel>>,
            },
    {
        proof {
            assert(vs.skip(i as int)[0] == vs[i as int]);
            assert(vs.skip(i as int).drop_first() =~= vs.skip(i + 1));
            assert(vs[i as int] == values@[i as int]@);
        }
        match coerce_cell(&values[i], field_name, data_type, nullable) {
            Option::Some(c) => {
                let ghost cells_before = cells@;
                cells.push(c);
                proof {
                    assert(cells_model(cells@) =~= cells_model(cells_before) + seq![c@]);
                    if cells_spec(vs.skip(i + 1), field_name@, data_type, nullable) is Some {
                        assert((cells_model(cells_before) + (seq![c@] + cells_spec(
                            vs.skip(i + 1),
                            field_name@,
                            data_type,
                            nullable,
                        )->0)) =~= (cells_model(cells_before) + seq![c@]) + cells_spec(
                            vs.skip(i + 1),
                            field_name@,
                            data_type,
                            nullable,
                        )->0);
                    }
                }
            },
            Option::None => {
                return Result::Err(
                    ConnectorError::invalid_data(
                        String::from_str("field does not fit its declared column type"),
                        Vec::new(),
                    ),
                );
            },
        }
    }
    proof {
        assert(vs.skip(n as int) =~= Seq::<ValModel>::empty());
        assert(cells_model(cells@) + Seq::<CellModel>::empty() =~= cells_model(cells@));
    }
    Result::Ok(cells)
}

} // verus!

verus! {

/// One declared column of a built batch.
#[derive(Debug)]
pub struct FieldDef {
    pub name: String,
    pub data_type: ArrowType,
    pub nullable: bool,
}

/// The parsed schema of a mapping: every declared field's type resolved,
/// in order.
pub open spec fn schema_spec(schema: Seq<crate::deltalake::config::SchemaField>) -> Option<
    Seq<(Seq<char>, ArrowType, bool)>,
>
    decreases schema.len(),
{
    if schema.len() == 0 {
        Option::Some(Seq::empty())
    } else {
        match (arrow_type_of(schema[0].data_type@), schema_spec(schema.drop_first())) {
            (Option::Some(t), Option::Some(rest)) => Option::Some(
                seq![(schema[0].name@, t, schema[0].nullable)] + rest,
            ),
            _ => Option::None,
        }
    }
}

/// The model of a field list.
pub open spec fn fields_model(fs: Seq<FieldDef>) -> Seq<(Seq<char>, ArrowType, bool)>
    decreases fs,
{
    if fs.len() == 0 {
        Seq::empty()
    } else {
        seq![(fs[0].name@, fs[0].data_type, fs[0].nullable)] + fields_model(fs.drop_first())
    }
}

/// `fields_model` maps the sequence pointwise.
pub broadcast proof fn lemma_fields_model_len(fs: Seq<FieldDef>)
    ensures
        (#[trigger] fields_model(fs)).len() == fs.len(),
        forall|i: int|
            0 <= i < fs.len() ==> fields_model(fs)[i] == (
            fs[i].name@,
            fs[i].data_type,
            fs[i].nullable,
            ),
    decreases fs,
{
    if fs.len() > 0 {
        lemma_fields_model_len(fs.drop_first());
    }
}

/// Build the batch's field list from the mapping's declared schema,
/// appending the metadata column when the mapping asks for it.  A type
/// name outside the closed set is a fatal error.
#[verifier::loop_isolation(false)]
pub fn build_arrow_schema(mapping: &TopicMapping) -> (r: Result<Vec<FieldDef>, ConnectorError>)
    ensures
        match r {
            Result::Ok(fs) => schema_spec(mapping.schema@) matches Option::Some(decl)
                && fields_model(fs@) == decl + if mapping.include_danube_metadata {
                seq![("_danube_metadata"@, ArrowType::Utf8, false)]
            } else {
                Seq::empty()
            },
            Result::Err(e) => schema_spec(mapping.schema@) is None && e.kind == ErrorKind::Fatal,
        },
{
    broadcast use lemma_fields_model_len;

    let ghost decl = schema_spec(mapping.schema@);
    let n = mapping.schema.len();
    let mut fields: Vec<FieldDef> = Vec::new();
    proof {
        assert(mapping.schema@.skip(0) =~= mapping.schema@);
        assert(fields_model(fields@) =~= Seq::<(Seq<char>, ArrowType, bool)>::empty());
        if decl is Some {
            assert(fields_model(fields@) + decl->0 =~= decl->0);
        }
    }
    for i in 0..n
        invariant
            fields@.len() == i,
            decl == match schema_spec(mapping.schema@.skip(i as int)) {
                Option::Some(rest) => Option::Some(fields_model(fields@) + rest),
                Option::None => Option::None::<Seq<(Seq<char>, ArrowType, bool)>>,
            },
    {
        proof {
            assert(mapping.schema@.skip(i as int)[0] == mapping.schema@[i as int]);
            assert(mapping.schema@.skip(i as int).drop_first() =~= mapping.schema@.skip(i + 1));
        }
        let sf = &mapping.schema[i];
        let dtype = match parse_arrow_type(sf.data_type.as_str()) {
            Result::Ok(t) => t,
            Result::Err(e) => {
                return Result::Err(e);
            },
        };
        let ghost fields_before = fields@;
        fields.push(FieldDef { name: sf.name.clone(), data_type: dtype, nullable: sf.nullable });
        proof {
            assert(fields_model(fields@) =~= fields_model(fields_before) + seq![
                (sf.name@, dtype, sf.nullable),
            ]);
            if schema_spec(mapping.schema@.skip(i + 1)) is Some {
                assert((fields_model(fields_before) + (seq![(sf.name@, dtype, sf.nullable)]
                    + schema_spec(mapping.schema@.skip(i + 1))->0)) =~= (fields_model(
                    fields_before,
                ) + seq![(sf.name@, dtype, sf.nullable)]) + schema_spec(
                    mapping.schema@.skip(i + 1),
                )->0);
            }
        }
    }
    proof {
        assert(mapping.schema@.skip(n as int) =~= Seq::<
            crate::deltalake::config::SchemaField,
        >::empty());
        assert(fields_model(fields@) + Seq::<(Seq<char>, ArrowType, bool)>::empty()
            =~= fields_model(fields@));
    }
    if mapping.include_danube_metadata {
        let ghost fields_before = fields@;
        fields.push(
            FieldDef {
                name: String::from_str("_danube_metadata"),
                data_type: ArrowType::Utf8,
                nullable: false,
            },
        );
        proof {
            assert(fields_model(fields@) =~= fields_model(fields_before) + seq![
                ("_danube_metadata"@, ArrowType::Utf8, false),
            ]);
        }
    }
    Result::Ok(fields)
}

/// The metadata object recorded for one bus record: its origin topic,
/// offset, publish instant, producer, partition (or `none`), and the
/// producer-set attributes.
pub open spec fn md_value_model(rec: SinkRecordModel) -> ValModel {
    ValModel::Obj(
        seq![
            ("topic"@, ValModel::Str(rec.topic)),
            ("offset"@, ValModel::Num(num_of_u64_spec(rec.offset))),
            ("timestamp"@, ValModel::Num(num_of_u64_spec(rec.publish_time))),
            ("producer"@, ValModel::Str(rec.producer_name)),
            (
                "partition"@,
                ValModel::Str(
                    match rec.partition {
                        Option::Some(p) => p,
                        Option::None => "none"@,
                    },
                ),
            ),
            ("attributes"@, ValModel::Obj(crate::bus::attrs_obj_model(rec.attributes))),
        ],
    )
}

/// Build the metadata column's cells, one object per record, in order.
#[verifier::loop_isolation(false)]
pub fn build_metadata_array(records: &Vec<SinkRecord>) -> (r: Vec<Value>)
    ensures
        r@.len() == records@.len(),
        forall|i: int| 0 <= i < r@.len() ==> (#[trigger] r@[i])@ == md_value_model(records@[i]@),
{
    broadcast use crate::value::lemma_obj_model_len;

    let n = records.len();
    let mut out: Vec<Value> = Vec::new();
    for i in 0..n
        invariant
            out@.len() == i,
            forall|j: int|
                0 <= j < i ==> (#[trigger] out@[j])@ == md_value_model(records@[j]@),
    {
        let rec = &records[i];
        let mut entries: Vec<(String, Value)> = Vec::new();
        entries.push((String::from_str("topic"), Value::Str(rec.topic().clone())));
        entries.push((String::from_str("offset"), Value::Num(num_of_u64(rec.offset()))));
        entries.push((String::from_str("timestamp"), Value::Num(num_of_u64(rec.publish_time()))));
        entries.push((String::from_str("producer"), Value::Str(rec.producer_name().clone())));
        let partition: String = match &rec.partition {
            Option::Some(p) => p.clone(),
            Option::None => String::from_str("none"),
        };
        entries.push((String::from_str("partition"), Value::Str(partition)));
        entries.push((String::from_str("attributes"), crate::bus::attrs_to_value(
            &rec.attributes,
        )));
        let ghost ens = entries@;
        let v = Value::Obj(entries);
        proof {
            let m = crate::value::obj_model(ens);
            crate::value::lemma_obj_model_len(ens);
            let mdm = md_value_model(records@[i as int]@);
            let es2 = mdm->Obj_0;
            assert(es2.len() == 6);
            assert(m.len() == 6);
            assert(m[0] == es2[0]);
            assert(m[1] == es2[1]);
            assert(m[2] == es2[2]);
            assert(m[3] == es2[3]);
            assert(m[4] == es2[4]);
            assert(m[5] == es2[5]);
            assert(m =~= es2);
            assert(v@ == mdm);
        }
        out.push(v);
    }
    out
}

/// A built batch: the field list (metadata column included when asked)
/// and one typed cell column per declared field, plus the metadata cells.
#[derive(Debug)]
pub struct RecordBatch {
    pub schema: Vec<FieldDef>,
    /// One column per declared schema field, in order.
    pub columns: Vec<Vec<CellValue>>,
    /// The metadata column's cells, when the mapping asks for them.
    pub metadata: Option<Vec<Value>>,
}

/// Whether some declared field's column cannot be built from these
/// payloads: a value that does not fit its declared type under the
/// nullability rule.
pub open spec fn some_column_fails(
    schema: Seq<crate::deltalake::config::SchemaField>,
    vs: Seq<ValModel>,
) -> bool {
    exists|f: int|
        0 <= f < schema.len() && cells_spec(
            vs,
            (#[trigger] schema[f]).name@,
            arrow_type_of(schema[f].data_type@)->0,
            schema[f].nullable,
        ) is None
}

/// A schema that parses as a whole has every field's type in the closed
/// set.
proof fn lemma_schema_spec_fields(schema: Seq<crate::deltalake::config::SchemaField>)
    requires
        schema_spec(schema) is Some,
    ensures
        forall|f: int|
            0 <= f < schema.len() ==> arrow_type_of((#[trigger] schema[f]).data_type@) is Some,
    decreases schema.len(),
{
    if schema.len() > 0 {
        lemma_schema_spec_fields(schema.drop_first());
        assert(forall|f: int|
            0 <= f < schema.drop_first().len() ==> #[trigger] schema.drop_first()[f] == schema[f
                + 1]);
        assert forall|f: int|
            0 <= f < schema.len() implies arrow_type_of(
            (#[trigger] schema[f]).data_type@,
        ) is Some by {
            if f > 0 {
                assert(schema.drop_first()[f - 1] == schema[f]);
            }
        }
    }
}

/// Convert a batch of bus records into typed columns under the mapping's
/// declared schema.  The batch builds exactly when it is non-empty, the
/// schema's types are all known, and every record's fields fit their
/// declared columns; an empty batch or a bad schema is fatal, a value
/// that does not fit is invalid data.
#[verifier::loop_isolation(false)]
pub fn to_record_batch(records: &Vec<SinkRecord>, mapping: &TopicMapping) -> (r: Result<
    RecordBatch,
    ConnectorError,
>)
    ensures
        r is Err <==> records@.len() == 0 || schema_spec(mapping.schema@) is None
            || some_column_fails(mapping.schema@, payloads_model(records@)),
        records@.len() == 0 ==> (r matches Result::Err(e) && e.kind == ErrorKind::Fatal),
        records@.len() > 0 && schema_spec(mapping.schema@) is None ==> (r matches Result::Err(e)
            && e.kind == ErrorKind::Fatal),
        records@.len() > 0 && schema_spec(mapping.schema@) is Some && some_column_fails(
            mapping.schema@,
            payloads_model(records@),
        ) ==> (r matches Result::Err(e) && e.kind == ErrorKind::InvalidData),
        r matches Result::Ok(b) ==> {
            &&& records@.len() > 0
            &&& schema_spec(mapping.schema@) matches Option::Some(decl) && fields_model(b.schema@)
                == decl + if mapping.include_danube_metadata {
                seq![("_danube_metadata"@, ArrowType::Utf8, false)]
            } else {
                Seq::empty()
            }
            &&& b.columns@.len() == mapping.schema@.len()
            &&& (forall|f: int|
                0 <= f < b.columns@.len() ==> (#[trigger] b.columns@[f])@.len()
                    == records@.len())
            &&& (forall|f: int|
                0 <= f < mapping.schema@.len() ==> {
                    let sf = mapping.schema@[f];
                    cells_spec(
                        payloads_model(records@),
                        sf.name@,
                        arrow_type_of(sf.data_type@)->0,
                        sf.nullable,
                    ) == Option::Some(cells_model((#[trigger] b.columns@[f])@))
                })
            &&& match b.metadata {
                Option::Some(md) => mapping.include_danube_metadata && md@.len()
                    == records@.len() && (forall|i: int|
                    0 <= i < md@.len() ==> (#[trigger] md@[i])@ == md_value_model(records@[i]@)),
                Option::None => !mapping.include_danube_metadata,
            }
        },
{
    broadcast use lemma_fields_model_len;

    if records.len() == 0 {
        return Result::Err(ConnectorError::fatal(String::from_str("empty batch")));
    }
    let schema = match build_arrow_schema(mapping) {
        Result::Ok(s) => s,
        Result::Err(e) => {
            return Result::Err(e);
        },
    };
    let n = records.len();
    let mut payloads: Vec<Value> = Vec::new();
    for i in 0..n
        invariant
            payloads@.len() == i,
            forall|j: int| 0 <= j < i ==> (#[trigger] payloads@[j])@ == records@[j]@.payload,
    {
        payloads.push(records[i].payload().duplicate());
    }
    proof {
        broadcast use lemma_values_model_len;

        lemma_payloads_model_len(records@);
        assert(values_model(payloads@) =~= payloads_model(records@));
    }
    proof {
        lemma_schema_spec_fields(mapping.schema@);
    }
    let k = mapping.schema.len();
    let mut columns: Vec<Vec<CellValue>> = Vec::new();
    for f in 0..k
        invariant
            columns@.len() == f,
            forall|j: int|
                0 <= j < f ==> (#[trigger] columns@[j])@.len() == records@.len(),
            forall|j: int|
                0 <= j < f ==> {
                    let sf = mapping.schema@[j];
                    cells_spec(
                        payloads_model(records@),
                        sf.name@,
                        arrow_type_of(sf.data_type@)->0,
                        sf.nullable,
                    ) == Option::Some(cells_model((#[trigger] columns@[j])@))
                },
    {
        let sf = &mapping.schema[f];
        let dtype = match parse_arrow_type(sf.data_type.as_str()) {
            Result::Ok(t) => t,
            Result::Err(_) => {
                proof {
                    assert(arrow_type_of(mapping.schema@[f as int].data_type@) is Some);
                    assert(false);
                }
                return Result::Err(
                    ConnectorError::fatal(String::from_str("unsupported column type")),
                );
            },
        };
        match build_array_for_field(sf.name.as_str(), dtype, sf.nullable, &payloads) {
            Result::Ok(cells) => {
                proof {
                    lemma_cells_spec_len(payloads_model(records@), sf.name@, dtype, sf.nullable);
                    lemma_cells_model_len(cells@);
                    lemma_payloads_model_len(records@);
                }
                columns.push(cells);
            },
            Result::Err(e) => {
                proof {
                    assert(cells_spec(
                        payloads_model(records@),
                        (mapping.schema@[f as int]).name@,
                        arrow_type_of(mapping.schema@[f as int].data_type@)->0,
                        mapping.schema@[f as int].nullable,
                    ) is None);
                    assert(some_column_fails(mapping.schema@, payloads_model(records@)));
                }
                return Result::Err(e);
            },
        }
    }
    proof {
        if some_column_fails(mapping.schema@, payloads_model(records@)) {
            let f = choose|f: int|
                0 <= f < mapping.schema@.len() && cells_spec(
                    payloads_model(records@),
                    (#[trigger] mapping.schema@[f]).name@,
                    arrow_type_of(mapping.schema@[f].data_type@)->0,
                    mapping.schema@[f].nullable,
                ) is None;
            assert(cells_spec(
                payloads_model(records@),
                mapping.schema@[f].name@,
                arrow_type_of(mapping.schema@[f].data_type@)->0,
                mapping.schema@[f].nullable,
            ) == Option::Some(cells_model((columns@[f])@)));
        }
    }
    let metadata: Option<Vec<Value>> = if mapping.include_danube_metadata {
        Option::Some(build_metadata_array(records))
    } else {
        Option::None
    };
    Result::Ok(RecordBatch { schema, columns, metadata })
}

/// The payload models of a record list.
pub open spec fn payloads_model(rs: Seq<SinkRecord>) -> Seq<ValModel>
    decreases rs,
{
    if rs.len() == 0 {
        Seq::empty()
    } else {
        seq![rs[0]@.payload] + payloads_model(rs.drop_first())
    }
}

/// `payloads_model` maps the sequence pointwise.
pub broadcast proof fn lemma_payloads_model_len(rs: Seq<SinkRecord>)
    ensures
        (#[trigger] payloads_model(rs)).len() == rs.len(),
        forall|i: int| 0 <= i < rs.len() ==> payloads_model(rs)[i] == rs[i]@.payload,
    decreases rs,
{
    if rs.len() > 0 {
        lemma_payloads_model_len(rs.drop_first());
    }
}

} // verus!
