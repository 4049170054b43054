use vstd::prelude::*;
use vstd::string::*;

use crate::error::{result_view, ErrorModel, GraphError};
use crate::text::{json_list_debug_text, json_text, number_parse, number_text, parse_number, render_json, render_json_list, render_number};

verus! {

broadcast use vstd::std_specs::vec::group_vec_axioms;

/// The static type of a port, independent of the value that it currently holds.
#[derive(Clone, Copy, Debug, PartialEq, Eq, Structural)]
pub enum DataType {
    Bool,
    Number,
    String,
    Array,
    Json,
}

impl DataType {
    pub open spec fn spec_name(self) -> Seq<char> {
        match self {
            DataType::Bool => "boolean"@,
            DataType::Number => "number"@,
            DataType::String => "string"@,
            DataType::Array => "array"@,
            DataType::Json => "json"@,
        }
    }

    /// The name of the type as the editor shows it.
    pub fn name(&self) -> (r: &'static str)
        ensures
            r@ == self.spec_name(),
    {
        match self {
            DataType::Bool => "boolean",
            DataType::Number => "number",
            DataType::String => "string",
            DataType::Array => "array",
            DataType::Json => "json",
        }
    }

    pub open spec fn spec_color(self) -> (u8, u8, u8) {
        match self {
            DataType::Bool => (255, 51, 255),
            DataType::Number => (51, 51, 255),
            DataType::String => (51, 153, 255),
            DataType::Array => (51, 255, 255),
            DataType::Json => (255, 255, 51),
        }
    }

    /// The color, red, green and blue, that the editor draws the type's ports in.
    pub fn data_type_color(&self) -> (r: (u8, u8, u8))
        ensures
            r == self.spec_color(),
    {
        match self {
            DataType::Bool => (255, 51, 255),
            DataType::Number => (51, 51, 255),
            DataType::String => (51, 153, 255),
            DataType::Array => (51, 255, 255),
            DataType::Json => (255, 255, 51),
        }
    }
}

/// A number as the proofs see it. A float is known by its IEEE-754 bits.
#[derive(Clone, Copy, Debug, PartialEq, Eq, Structural)]
pub enum NumberModel {
    PosInt(u64),
    NegInt(i64),
    Float(u64),
}

#[verifier::external_type_specification]
#[verifier::external_body]
pub struct ExNumber(serde_json::Number);

/// A finite floating-point number as serde_json parsed it: its bits, and the parsed number
/// itself, which is what gets rendered. The bits are those of the parsed number: the fields
/// are private, and only the number parser builds one.
#[derive(Debug)]
pub struct FloatNumber {
    bits: u64,
    raw: serde_json::Number,
}

impl FloatNumber {
    pub closed spec fn view(&self) -> u64 {
        self.bits
    }

    pub fn bits(&self) -> (r: u64)
        ensures
            r == self@,
    {
        self.bits
    }

    pub(crate) fn raw(&self) -> &serde_json::Number {
        &self.raw
    }

    pub fn duplicate(&self) -> (r: FloatNumber)
        ensures
            r@ == self@,
    {
        FloatNumber { bits: self.bits, raw: clone_number(&self.raw) }
    }
}

/// Relies on `serde_json::Number`'s `Clone`; nothing is claimed of the copy.
#[verifier::external_body]
fn clone_number(n: &serde_json::Number) -> serde_json::Number {
    n.clone()
}

/// A numeric value: an integer, or a finite float.
#[derive(Debug)]
pub enum JsonNumber {
    PosInt(u64),
    NegInt(i64),
    Float(FloatNumber),
}

impl JsonNumber {
    pub open spec fn view(&self) -> NumberModel {
        match self {
            JsonNumber::PosInt(u) => NumberModel::PosInt(*u),
            JsonNumber::NegInt(i) => NumberModel::NegInt(*i),
            JsonNumber::Float(f) => NumberModel::Float(f@),
        }
    }

    /// Builds a float from what serde_json parsed.
    pub(crate) fn float(bits: u64, raw: serde_json::Number) -> (r: JsonNumber)
        ensures
            r@ == NumberModel::Float(bits),
    {
        JsonNumber::Float(FloatNumber { bits, raw })
    }

    pub fn duplicate(&self) -> (r: JsonNumber)
        ensures
            r@ == self@,
    {
        match self {
            JsonNumber::PosInt(u) => JsonNumber::PosInt(*u),
            JsonNumber::NegInt(i) => JsonNumber::NegInt(*i),
            JsonNumber::Float(f) => JsonNumber::Float(f.duplicate()),
        }
    }

    /// Whether the number is greater than zero.
    pub fn is_positive(&self) -> (r: bool)
        ensures
            r == number_positive(self@),
    {
        match self {
            JsonNumber::PosInt(u) => *u > 0,
            JsonNumber::NegInt(i) => *i > 0,
            JsonNumber::Float(f) => 0 < f.bits && f.bits <= FLOAT_POS_INFINITY_BITS,
        }
    }
}

/// The bits of positive infinity. A float compares greater than zero exactly when its bits
/// lie above zero and at most here: past it come the NaNs, then the negative values.
pub const FLOAT_POS_INFINITY_BITS: u64 = 0x7ff0_0000_0000_0000;

/// The exponent field of a float's bits: all set for the infinities and the NaNs.
pub const FLOAT_EXPONENT_BITS: u64 = 0x7ff0_0000_0000_0000;

/// Whether a number is finite: a float whose exponent field is not all set.
pub open spec fn number_finite(n: NumberModel) -> bool {
    match n {
        NumberModel::Float(b) => b & FLOAT_EXPONENT_BITS != FLOAT_EXPONENT_BITS,
        _ => true,
    }
}

/// Whether a number compares greater than zero.
pub open spec fn number_positive(n: NumberModel) -> bool {
    match n {
        NumberModel::PosInt(u) => u > 0,
        NumberModel::NegInt(i) => i > 0,
        NumberModel::Float(b) => 0 < b && b <= FLOAT_POS_INFINITY_BITS,
    }
}

/// A JSON value as the proofs see it.
pub enum JsonModel {
    Null,
    Bool(bool),
    Number(NumberModel),
    String(Seq<char>),
    Array(Seq<JsonModel>),
    Object(Seq<(Seq<char>, JsonModel)>),
}

/// A JSON value. An object keeps its entries in insertion order; looking a key up finds the
/// entry inserted last.
#[derive(Debug)]
pub enum JsonValue {
    Null,
    Bool(bool),
    Number(JsonNumber),
    String(String),
    Array(Vec<JsonValue>),
    Object(Vec<(String, JsonValue)>),
}

impl JsonValue {
    pub open spec fn view(&self) -> JsonModel
        decreases self,
    {
        match self {
            JsonValue::Null => JsonModel::Null,
            JsonValue::Bool(b) => JsonModel::Bool(*b),
            JsonValue::Number(n) => JsonModel::Number(n@),
            JsonValue::String(s) => JsonModel::String(s@),
            JsonValue::Array(a) => JsonModel::Array(json_seq_view(a@)),
            JsonValue::Object(o) => JsonModel::Object(json_entries_view(o@)),
        }
    }
}

pub open spec fn json_seq_view(s: Seq<JsonValue>) -> Seq<JsonModel>
    decreases s,
{
    if s.len() == 0 {
        Seq::empty()
    } else {
        json_seq_view(s.drop_last()).push(s.last()@)
    }
}

pub open spec fn json_entries_view(s: Seq<(String, JsonValue)>) -> Seq<(Seq<char>, JsonModel)>
    decreases s,
{
    if s.len() == 0 {
        Seq::empty()
    } else {
        json_entries_view(s.drop_last()).push((s.last().0@, s.last().1@))
    }
}

impl JsonValue {
    pub fn duplicate(&self) -> (r: JsonValue)
        ensures
            r@ == self@,
        decreases self,
    {
        match self {
            JsonValue::Null => JsonValue::Null,
            JsonValue::Bool(b) => JsonValue::Bool(*b),
            JsonValue::Number(n) => JsonValue::Number(n.duplicate()),
            JsonValue::String(s) => JsonValue::String(s.clone()),
            JsonValue::Array(a) => JsonValue::Array(duplicate_list(a)),
            JsonValue::Object(o) => JsonValue::Object(duplicate_entries(o)),
        }
    }
}

/// The value that a port holds or that an output produced.
#[derive(Debug)]
pub enum ValueType {
    Bool(bool),
    Number(JsonNumber),
    String(String),
    Array(Vec<JsonValue>),
    Json(JsonValue),
}

/// A `ValueType` as the proofs see it.
pub enum ValueModel {
    Bool(bool),
    Number(NumberModel),
    String(Seq<char>),
    Array(Seq<JsonModel>),
    Json(JsonModel),
}

impl ValueType {
    pub open spec fn view(&self) -> ValueModel {
        match self {
            ValueType::Bool(b) => ValueModel::Bool(*b),
            ValueType::Number(n) => ValueModel::Number(n@),
            ValueType::String(s) => ValueModel::String(s@),
            ValueType::Array(a) => ValueModel::Array(json_seq_view(a@)),
            ValueType::Json(j) => ValueModel::Json(j@),
        }
    }
}

/// The kind of a value: the port type that holds it without conversion.
pub open spec fn kind_of(v: ValueModel) -> DataType {
    match v {
        ValueModel::Bool(_) => DataType::Bool,
        ValueModel::Number(_) => DataType::Number,
        ValueModel::String(_) => DataType::String,
        ValueModel::Array(_) => DataType::Array,
        ValueModel::Json(_) => DataType::Json,
    }
}

pub open spec fn coercion_error(v: ValueModel, to: DataType) -> ErrorModel {
    ErrorModel::TypeCoercion { from: kind_of(v), to }
}

/// A value as a boolean: a number is true when it is greater than zero.
pub open spec fn coerce_bool(v: ValueModel) -> Result<bool, ErrorModel> {
    match v {
        ValueModel::Bool(b) => Ok(b),
        ValueModel::Number(n) => Ok(number_positive(n)),
        _ => Err(coercion_error(v, DataType::Bool)),
    }
}

/// Parses a text as a number.
pub open spec fn parse_text_number(s: Seq<char>) -> Result<NumberModel, ErrorModel> {
    match number_parse(s) {
        Some(n) => Ok(n),
        None => Err(ErrorModel::ParseError { text: s }),
    }
}

/// A value as a number: a boolean is one or zero, a text is parsed.
pub open spec fn coerce_number(v: ValueModel) -> Result<NumberModel, ErrorModel> {
    match v {
        ValueModel::Bool(b) => Ok(NumberModel::PosInt(if b { 1 } else { 0 })),
        ValueModel::String(s) => parse_text_number(s),
        _ => Err(coercion_error(v, DataType::Number)),
    }
}

/// The text of a value. Every value has one.
pub open spec fn value_text(v: ValueModel) -> Seq<char> {
    match v {
        ValueModel::Bool(b) => if b {
            seq!['t', 'r', 'u', 'e']
        } else {
            seq!['f', 'a', 'l', 's', 'e']
        },
        ValueModel::Number(n) => number_text(n),
        ValueModel::String(s) => s,
        ValueModel::Array(a) => json_list_debug_text(a),
        ValueModel::Json(j) => json_text(j),
    }
}

/// A value as JSON. Every value has one.
pub open spec fn value_json(v: ValueModel) -> JsonModel {
    match v {
        ValueModel::Bool(b) => JsonModel::Bool(b),
        ValueModel::Number(n) => JsonModel::Number(n),
        ValueModel::String(s) => JsonModel::String(s),
        ValueModel::Array(a) => JsonModel::Array(a),
        ValueModel::Json(j) => j,
    }
}

/// A value as a list of JSON values: a JSON value becomes a list of one.
pub open spec fn coerce_array(v: ValueModel) -> Result<Seq<JsonModel>, ErrorModel> {
    match v {
        ValueModel::Array(a) => Ok(a),
        ValueModel::Json(j) => Ok(seq![j]),
        _ => Err(coercion_error(v, DataType::Array)),
    }
}

/// The value that a new input port of a type starts with.
pub open spec fn default_value(t: DataType) -> ValueModel {
    match t {
        DataType::Bool => ValueModel::Bool(true),
        DataType::Number => ValueModel::Number(NumberModel::PosInt(0)),
        DataType::String => ValueModel::String(Seq::empty()),
        DataType::Array => ValueModel::Array(Seq::empty()),
        DataType::Json => ValueModel::Json(JsonModel::Null),
    }
}

/// Reads a JSON value as a value of a port type; what does not fit gives that type's zero:
/// `false`, `0`, `""`, an empty list. Every JSON value fits `Json`.
pub open spec fn extract(j: JsonModel, t: DataType) -> ValueModel {
    match t {
        DataType::Bool => ValueModel::Bool(
            match j {
                JsonModel::Bool(b) => b,
                _ => false,
            },
        ),
        DataType::Number => ValueModel::Number(
            match j {
                JsonModel::Number(n) => n,
                _ => NumberModel::PosInt(0),
            },
        ),
        DataType::String => ValueModel::String(
            match j {
                JsonModel::String(s) => s,
                _ => Seq::empty(),
            },
        ),
        DataType::Array => ValueModel::Array(
            match j {
                JsonModel::Array(a) => a,
                _ => Seq::empty(),
            },
        ),
        DataType::Json => ValueModel::Json(j),
    }
}

/// The entry of `key` in a list of object entries, the last one where it occurs twice.
pub open spec fn entries_get(s: Seq<(Seq<char>, JsonModel)>, key: Seq<char>) -> Option<JsonModel>
    decreases s.len(),
{
    if s.len() == 0 {
        None
    } else if s.last().0 == key {
        Some(s.last().1)
    } else {
        entries_get(s.drop_last(), key)
    }
}

/// The field `key` of a JSON object; `null` where it is absent or the value is no object.
pub open spec fn field(j: JsonModel, key: Seq<char>) -> JsonModel {
    match j {
        JsonModel::Object(entries) => match entries_get(entries, key) {
            Some(v) => v,
            None => JsonModel::Null,
        },
        _ => JsonModel::Null,
    }
}

/// Element `i` of a list, `null` past its end.
pub open spec fn element(a: Seq<JsonModel>, i: int) -> JsonModel {
    if 0 <= i < a.len() {
        a[i]
    } else {
        JsonModel::Null
    }
}

impl ValueType {
    pub fn duplicate(&self) -> (r: ValueType)
        ensures
            r@ == self@,
    {
        match self {
            ValueType::Bool(b) => ValueType::Bool(*b),
            ValueType::Number(n) => ValueType::Number(n.duplicate()),
            ValueType::String(s) => ValueType::String(s.clone()),
            ValueType::Array(a) => ValueType::Array(duplicate_list(a)),
            ValueType::Json(j) => ValueType::Json(j.duplicate()),
        }
    }

    pub fn kind(&self) -> (r: DataType)
        ensures
            r == kind_of(self@),
    {
        match self {
            ValueType::Bool(_) => DataType::Bool,
            ValueType::Number(_) => DataType::Number,
            ValueType::String(_) => DataType::String,
            ValueType::Array(_) => DataType::Array,
            ValueType::Json(_) => DataType::Json,
        }
    }

    /// The value that a new input port of type `t` starts with.
    pub fn default_for(t: DataType) -> (r: ValueType)
        ensures
            r@ == default_value(t),
    {
        match t {
            DataType::Bool => ValueType::Bool(true),
            DataType::Number => ValueType::Number(JsonNumber::PosInt(0)),
            DataType::String => ValueType::String(String::new()),
            DataType::Array => {
                let r = ValueType::Array(Vec::new());
                proof {
                    assert(json_seq_view(Seq::<JsonValue>::empty()) =~= Seq::<JsonModel>::empty());
                }
                r
            },
            DataType::Json => ValueType::Json(JsonValue::Null),
        }
    }

    pub fn try_into_bool(&self) -> (r: Result<bool, GraphError>)
        ensures
            result_view(r) == coerce_bool(self@),
    {
        match self {
            ValueType::Bool(b) => Ok(*b),
            ValueType::Number(n) => Ok(n.is_positive()),
            _ => Err(GraphError::TypeCoercion { from: self.kind(), to: DataType::Bool }),
        }
    }

    /// The value as a number: a boolean is one or zero; a text is read by the rules of a
    /// JSON number literal (so `".5"`, `"+5"`, `"NaN"` and `"inf"` are no numbers), and a
    /// number read is always finite.
    pub fn try_into_number(&self) -> (r: Result<JsonNumber, GraphError>)
        ensures
            match r {
                Ok(n) => coerce_number(self@) == Ok::<NumberModel, ErrorModel>(n@) && number_finite(n@),
                Err(e) => coerce_number(self@) == Err::<NumberModel, ErrorModel>(e@),
            },
    {
        match self {
            ValueType::Bool(b) => Ok(JsonNumber::PosInt(if *b { 1 } else { 0 })),
            ValueType::String(s) => parse_text(s.as_str()),
            _ => Err(GraphError::TypeCoercion { from: self.kind(), to: DataType::Number }),
        }
    }

    /// The text of the value; never fails.
    pub fn render(&self) -> (r: String)
        ensures
            r@ == value_text(self@),
    {
        match self {
            ValueType::Bool(b) => if *b {
                let r = String::from_str("true");
                proof {
                    reveal_strlit("true");
                }
                r
            } else {
                let r = String::from_str("false");
                proof {
                    reveal_strlit("false");
                }
                r
            },
            ValueType::Number(n) => render_number(n),
            ValueType::String(s) => s.clone(),
            ValueType::Array(a) => render_json_list(a),
            ValueType::Json(j) => render_json(j),
        }
    }

    /// The value as JSON; never fails.
    pub fn to_json(&self) -> (r: JsonValue)
        ensures
            r@ == value_json(self@),
    {
        match self {
            ValueType::Bool(b) => JsonValue::Bool(*b),
            ValueType::Number(n) => JsonValue::Number(n.duplicate()),
            ValueType::String(s) => JsonValue::String(s.clone()),
            ValueType::Array(a) => JsonValue::Array(duplicate_list(a)),
            ValueType::Json(j) => j.duplicate(),
        }
    }

    pub fn try_into_array(&self) -> (r: Result<Vec<JsonValue>, GraphError>)
        ensures
            match r {
                Ok(a) => coerce_array(self@) == Ok::<Seq<JsonModel>, ErrorModel>(json_seq_view(a@)),
                Err(e) => coerce_array(self@) == Err::<Seq<JsonModel>, ErrorModel>(e@),
            },
    {
        match self {
            ValueType::Array(a) => Ok(duplicate_list(a)),
            ValueType::Json(j) => {
                let mut out: Vec<JsonValue> = Vec::new();
                out.push(j.duplicate());
                proof {
                    assert(out@.drop_last() =~= Seq::<JsonValue>::empty());
                    assert(json_seq_view(Seq::<JsonValue>::empty()) =~= Seq::<JsonModel>::empty());
                    assert(json_seq_view(out@) =~= seq![j@]);
                }
                Ok(out)
            },
            _ => Err(GraphError::TypeCoercion { from: self.kind(), to: DataType::Array }),
        }
    }
}

/// Parses a text as a number, naming the text where it is none.
pub fn parse_text(s: &str) -> (r: Result<JsonNumber, GraphError>)
    ensures
        match r {
            Ok(n) => parse_text_number(s@) == Ok::<NumberModel, ErrorModel>(n@) && number_finite(n@),
            Err(e) => parse_text_number(s@) == Err::<NumberModel, ErrorModel>(e@),
        },
{
    match parse_number(s) {
        Some(n) => Ok(n),
        None => Err(GraphError::ParseError { text: s.to_owned() }),
    }
}

pub fn duplicate_list(a: &Vec<JsonValue>) -> (r: Vec<JsonValue>)
    ensures
        json_seq_view(r@) == json_seq_view(a@),
    decreases a,
{
    let mut out: Vec<JsonValue> = Vec::new();
    let mut i: usize = 0;
    while i < a.len()
        invariant
            i <= a.len(),
            json_seq_view(out@) == json_seq_view(a@.subrange(0, i as int)),
        decreases a.len() - i,
    {
        proof {
            assert(decreases_to!(*a => a@[i as int]));
        }
        let x = a[i].duplicate();
        let ghost before = out@;
        out.push(x);
        proof {
            assert(out@.drop_last() =~= before);
            assert(a@.subrange(0, i + 1).drop_last() =~= a@.subrange(0, i as int));
        }
        i += 1;
    }
    proof {
        assert(a@.subrange(0, a.len() as int) =~= a@);
    }
    out
}

pub fn duplicate_entries(o: &Vec<(String, JsonValue)>) -> (r: Vec<(String, JsonValue)>)
    ensures
        json_entries_view(r@) == json_entries_view(o@),
    decreases o,
{
    let mut out: Vec<(String, JsonValue)> = Vec::new();
    let mut i: usize = 0;
    while i < o.len()
        invariant
            i <= o.len(),
            json_entries_view(out@) == json_entries_view(o@.subrange(0, i as int)),
        decreases o.len() - i,
    {
        proof {
            assert(decreases_to!(*o => o@[i as int].1));
        }
        let x = o[i].1.duplicate();
        let ghost before = out@;
        out.push((o[i].0.clone(), x));
        proof {
            assert(out@.drop_last() =~= before);
            assert(o@.subrange(0, i + 1).drop_last() =~= o@.subrange(0, i as int));
        }
        i += 1;
    }
    proof {
        assert(o@.subrange(0, o.len() as int) =~= o@);
    }
    out
}

pub proof fn lemma_json_seq_view_index(s: Seq<JsonValue>)
    ensures
        json_seq_view(s).len() == s.len(),
        forall|i: int| 0 <= i < s.len() ==> #[trigger] json_seq_view(s)[i] == s[i]@,
    decreases s.len(),
{
    if s.len() > 0 {
        lemma_json_seq_view_index(s.drop_last());
    }
}

pub proof fn lemma_json_entries_view_index(s: Seq<(String, JsonValue)>)
    ensures
        json_entries_view(s).len() == s.len(),
        forall|i: int|
            0 <= i < s.len() ==> #[trigger] json_entries_view(s)[i] == (s[i].0@, s[i].1@),
    decreases s.len(),
{
    if s.len() > 0 {
        lemma_json_entries_view_index(s.drop_last());
    }
}

impl JsonValue {
    /// The field `key` of an object; `null` where it is absent or this is no object.
    pub fn field(&self, key: &String) -> (r: JsonValue)
        ensures
            r@ == field(self@, key@),
    {
        match self {
            JsonValue::Object(o) => {
                let ghost m = json_entries_view(o@);
                proof {
                    lemma_json_entries_view_index(o@);
                }
                proof {
                    assert(m.subrange(0, o.len() as int) =~= m);
                }
                let mut i: usize = o.len();
                while i > 0
                    invariant
                        i <= o.len(),
                        m == json_entries_view(o@),
                        self@ == JsonModel::Object(m),
                        m.len() == o@.len(),
                        forall|k: int| 0 <= k < o@.len() ==> #[trigger] m[k] == (o@[k].0@, o@[k].1@),
                        entries_get(m, key@) == entries_get(m.subrange(0, i as int), key@),
                    decreases i,
                {
                    proof {
                        assert(m.subrange(0, i as int).drop_last() =~= m.subrange(0, i - 1));
                    }
                    if o[i - 1].0 == *key {
                        proof {
                            assert(m.subrange(0, i as int).last() == m[i - 1]);
                        }
                        return o[i - 1].1.duplicate();
                    }
                    i -= 1;
                }
                JsonValue::Null
            },
            _ => JsonValue::Null,
        }
    }
}

/// Element `i` of a list, `null` past its end.
pub fn list_element(items: &Vec<JsonValue>, i: usize) -> (r: JsonValue)
    ensures
        r@ == element(json_seq_view(items@), i as int),
{
    proof {
        lemma_json_seq_view_index(items@);
    }
    if i < items.len() {
        items[i].duplicate()
    } else {
        JsonValue::Null
    }
}

/// Reads a JSON value as a value of type `t`; what does not fit gives the type's zero.
pub fn extract_value(j: &JsonValue, t: DataType) -> (r: ValueType)
    ensures
        r@ == extract(j@, t),
{
    match t {
        DataType::Bool => ValueType::Bool(
            match j {
                JsonValue::Bool(b) => *b,
                _ => false,
            },
        ),
        DataType::Number => ValueType::Number(
            match j {
                JsonValue::Number(n) => n.duplicate(),
                _ => JsonNumber::PosInt(0),
            },
        ),
        DataType::String => ValueType::String(
            match j {
                JsonValue::String(s) => s.clone(),
                _ => String::new(),
            },
        ),
        DataType::Array => {
            let r = ValueType::Array(
                match j {
                    JsonValue::Array(a) => duplicate_list(a),
                    _ => Vec::new(),
                },
            );
            proof {
                assert(json_seq_view(Seq::<JsonValue>::empty()) =~= Seq::<JsonModel>::empty());
            }
            r
        },
        DataType::Json => ValueType::Json(j.duplicate()),
    }
}

impl Default for ValueType {
    /// A value that holds `false`.
    fn default() -> (r: ValueType)
        ensures
            r@ == ValueModel::Bool(false),
    {
        ValueType::Bool(false)
    }
}

} // verus!
