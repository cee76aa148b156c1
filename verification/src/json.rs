//! The report's JSON layer: a document model, a verified renderer to
//! text, and the report schema with its round trip.

use vstd::prelude::*;
use vstd::string::StrSliceExecFns;
use crate::base::PrivacyUsage;
use crate::errors::{Error, ErrorKind};

verus! {

/// A JSON document.  Numbers are the library's fixed-point integers.
#[derive(Debug)]
pub enum JsonValue {
    Null,
    Bool(bool),
    Int(i64),
    Str(String),
    Arr(Vec<JsonValue>),
    Obj(Vec<(String, JsonValue)>),
}

#[verifier::ext_equal]
pub enum JsonValueV {
    Null,
    Bool(bool),
    Int(i64),
    Str(Seq<char>),
    Arr(Seq<JsonValueV>),
    Obj(Seq<(Seq<char>, JsonValueV)>),
}

pub open spec fn json_seq_dv(s: Seq<JsonValue>) -> Seq<JsonValueV>
    decreases s,
{
    if s.len() == 0 {
        Seq::empty()
    } else {
        json_seq_dv(s.subrange(0, s.len() - 1)).push(s.last().deep_view())
    }
}

pub open spec fn json_obj_dv(s: Seq<(String, JsonValue)>) -> Seq<(Seq<char>, JsonValueV)>
    decreases s,
{
    if s.len() == 0 {
        Seq::empty()
    } else {
        json_obj_dv(s.subrange(0, s.len() - 1)).push((s.last().0@, s.last().1.deep_view()))
    }
}

impl DeepView for JsonValue {
    type V = JsonValueV;

    open spec fn deep_view(&self) -> JsonValueV
        decreases self,
    {
        match self {
            JsonValue::Null => JsonValueV::Null,
            JsonValue::Bool(b) => JsonValueV::Bool(*b),
            JsonValue::Int(x) => JsonValueV::Int(*x),
            JsonValue::Str(s) => JsonValueV::Str(s@),
            JsonValue::Arr(items) => JsonValueV::Arr(json_seq_dv(items@)),
            JsonValue::Obj(fields) => JsonValueV::Obj(json_obj_dv(fields@)),
        }
    }
}

pub proof fn lemma_json_seq_dv(s: Seq<JsonValue>)
    ensures
        json_seq_dv(s).len() == s.len(),
        forall|i: int| 0 <= i < s.len() ==> json_seq_dv(s)[i] == (#[trigger] s[i]).deep_view(),
    decreases s,
{
    reveal_with_fuel(json_seq_dv, 2);
    if s.len() > 0 {
        lemma_json_seq_dv(s.subrange(0, s.len() - 1));
        assert forall|i: int| 0 <= i < s.len() implies json_seq_dv(s)[i] == (
        #[trigger] s[i]).deep_view() by {
            if i < s.len() - 1 {
                assert(s.subrange(0, s.len() - 1)[i] == s[i]);
            }
        }
    }
}

pub proof fn lemma_json_obj_dv(s: Seq<(String, JsonValue)>)
    ensures
        json_obj_dv(s).len() == s.len(),
        forall|i: int| 0 <= i < s.len() ==> json_obj_dv(s)[i] == ((#[trigger] s[i]).0@, s[i].1.deep_view()),
    decreases s,
{
    reveal_with_fuel(json_obj_dv, 2);
    if s.len() > 0 {
        lemma_json_obj_dv(s.subrange(0, s.len() - 1));
        assert forall|i: int| 0 <= i < s.len() implies json_obj_dv(s)[i] == ((#[trigger] s[i]).0@,
        s[i].1.deep_view()) by {
            if i < s.len() - 1 {
                assert(s.subrange(0, s.len() - 1)[i] == s[i]);
            }
        }
    }
}

/// The decimal digits of a number, most significant first.
pub open spec fn dec_digits(n: nat) -> Seq<char>
    decreases n,
{
    if n < 10 {
        seq![(48 + n) as u8 as char]
    } else {
        dec_digits(n / 10).push((48 + n % 10) as u8 as char)
    }
}

/// The rendering of a fixed-point integer: a possible minus sign and
/// the decimal digits of its magnitude.
pub open spec fn render_int(x: int) -> Seq<char> {
    if x < 0 {
        seq!['-'] + dec_digits((-x) as nat)
    } else {
        dec_digits(x as nat)
    }
}

/// The hexadecimal digit of a value below sixteen.
pub open spec fn hex_digit(d: nat) -> char {
    if d < 10 {
        (48 + d) as u8 as char
    } else {
        (87 + d) as u8 as char
    }
}

/// How one character is written inside a JSON string: quotes and
/// backslashes are escaped, the named control characters by their
/// short forms, and every other control character numerically, so the
/// rendered text is always well-formed JSON.
pub open spec fn escape_char(c: char) -> Seq<char> {
    if c == '"' {
        seq!['\\', '"']
    } else if c == '\\' {
        seq!['\\', '\\']
    } else if c == '\n' {
        seq!['\\', 'n']
    } else if c == '\r' {
        seq!['\\', 'r']
    } else if c == '\t' {
        seq!['\\', 't']
    } else if (c as u32) < 32 {
        seq![
            '\\',
            'u',
            '0',
            '0',
            hex_digit((c as u32 / 16) as nat),
            hex_digit((c as u32 % 16) as nat),
        ]
    } else {
        seq![c]
    }
}

pub open spec fn escape_str(s: Seq<char>) -> Seq<char>
    decreases s,
{
    if s.len() == 0 {
        Seq::empty()
    } else {
        escape_str(s.subrange(0, s.len() - 1)) + escape_char(s.last())
    }
}

/// The text of a JSON document.
pub open spec fn render_json(v: JsonValueV) -> Seq<char>
    decreases v,
{
    match v {
        JsonValueV::Null => seq!['n', 'u', 'l', 'l'],
        JsonValueV::Bool(b) => if b {
            seq!['t', 'r', 'u', 'e']
        } else {
            seq!['f', 'a', 'l', 's', 'e']
        },
        JsonValueV::Int(x) => render_int(x as int),
        JsonValueV::Str(s) => seq!['"'] + escape_str(s) + seq!['"'],
        JsonValueV::Arr(items) => seq!['['] + render_arr(items) + seq![']'],
        JsonValueV::Obj(fields) => seq!['{'] + render_obj(fields) + seq!['}'],
    }
}

pub open spec fn render_arr(items: Seq<JsonValueV>) -> Seq<char>
    decreases items,
{
    if items.len() == 0 {
        Seq::empty()
    } else if items.len() == 1 {
        render_json(items[0])
    } else {
        render_arr(items.subrange(0, items.len() - 1)) + seq![','] + render_json(items.last())
    }
}

pub open spec fn render_obj(fields: Seq<(Seq<char>, JsonValueV)>) -> Seq<char>
    decreases fields,
{
    if fields.len() == 0 {
        Seq::empty()
    } else if fields.len() == 1 {
        render_field(fields[0])
    } else {
        render_obj(fields.subrange(0, fields.len() - 1)) + seq![','] + render_field(fields.last())
    }
}

pub open spec fn render_field(f: (Seq<char>, JsonValueV)) -> Seq<char>
    decreases f,
{
    seq!['"'] + escape_str(f.0) + seq!['"', ':'] + render_json(f.1)
}

/// Relies on `String::from_iter` over `char`: the string holds exactly
/// the given characters, in order.
#[verifier::external_body]
pub fn chars_to_string(v: Vec<char>) -> (r: String)
    ensures
        r@ == v@,
{
    v.into_iter().collect()
}

/// Appends the decimal digits of a number.
fn push_digits(n: u64, out: &mut Vec<char>)
    ensures
        final(out)@ == old(out)@ + dec_digits(n as nat),
    decreases n,
{
    if n < 10 {
        out.push((48 + n as u8) as char);
        proof {
            assert(out@ =~= old(out)@ + dec_digits(n as nat));
        }
    } else {
        push_digits(n / 10, out);
        out.push((48 + (n % 10) as u8) as char);
        proof {
            assert(out@ =~= old(out)@ + dec_digits(n as nat));
        }
    }
}

/// Appends the rendering of a fixed-point integer.
fn push_int(x: i64, out: &mut Vec<char>)
    ensures
        final(out)@ == old(out)@ + render_int(x as int),
{
    if x < 0 {
        out.push('-');
        let magnitude: u64 = if x == i64::MIN {
            9223372036854775808u64
        } else {
            (-x) as u64
        };
        push_digits(magnitude, out);
        proof {
            assert(out@ =~= old(out)@ + render_int(x as int));
        }
    } else {
        push_digits(x as u64, out);
    }
}

/// Appends a string's characters, escaped for a JSON string body.
fn push_escaped(s: &String, out: &mut Vec<char>)
    ensures
        final(out)@ == old(out)@ + escape_str(s@),
{
    let ghost sv = s@;
    let n = s.as_str().unicode_len();
    let mut i: usize = 0;
    while i < n
        invariant
            n == sv.len(),
            sv == s@,
            i <= sv.len(),
            out@ == old(out)@ + escape_str(sv.subrange(0, i as int)),
        decreases sv.len() - i,
    {
        let c = s.as_str().get_char(i);
        if c == '"' {
            out.push('\\');
            out.push('"');
        } else if c == '\\' {
            out.push('\\');
            out.push('\\');
        } else if c == '\n' {
            out.push('\\');
            out.push('n');
        } else if c == '\r' {
            out.push('\\');
            out.push('r');
        } else if c == '\t' {
            out.push('\\');
            out.push('t');
        } else if (c as u32) < 32 {
            let code = c as u32;
            out.push('\\');
            out.push('u');
            out.push('0');
            out.push('0');
            let high = (code / 16) as u8;
            let low = (code % 16) as u8;
            out.push(
                if high < 10 {
                    (48 + high) as char
                } else {
                    (87 + high) as char
                },
            );
            out.push(
                if low < 10 {
                    (48 + low) as char
                } else {
                    (87 + low) as char
                },
            );
        } else {
            out.push(c);
        }
        proof {
            assert(sv.subrange(0, i + 1).subrange(0, i as int) =~= sv.subrange(0, i as int));
            assert(sv.subrange(0, i + 1).last() == sv[i as int]);
            assert(out@ =~= old(out)@ + escape_str(sv.subrange(0, i + 1)));
        }
        i = i + 1;
    }
    proof {
        assert(sv.subrange(0, sv.len() as int) =~= sv);
    }
}

/// Appends the text of a JSON document.
pub fn push_json(v: &JsonValue, out: &mut Vec<char>)
    ensures
        final(out)@ == old(out)@ + render_json(v.deep_view()),
    decreases v,
{
    broadcast use vstd::std_specs::vec::axiom_vec_index_decreases;

    match v {
        JsonValue::Null => {
            out.push('n');
            out.push('u');
            out.push('l');
            out.push('l');
            proof {
                assert(out@ =~= old(out)@ + render_json(v.deep_view()));
            }
        },
        JsonValue::Bool(b) => {
            if *b {
                out.push('t');
                out.push('r');
                out.push('u');
                out.push('e');
            } else {
                out.push('f');
                out.push('a');
                out.push('l');
                out.push('s');
                out.push('e');
            }
            proof {
                assert(out@ =~= old(out)@ + render_json(v.deep_view()));
            }
        },
        JsonValue::Int(x) => {
            push_int(*x, out);
        },
        JsonValue::Str(s) => {
            out.push('"');
            push_escaped(s, out);
            out.push('"');
            proof {
                assert(out@ =~= old(out)@ + render_json(v.deep_view()));
            }
        },
        JsonValue::Arr(items) => {
            out.push('[');
            let ghost iv = items@;
            let mut i: usize = 0;
            while i < items.len()
                invariant
                    iv == items@,
                    *v == JsonValue::Arr(*items),
                    v.deep_view() == JsonValueV::Arr(json_seq_dv(iv)),
                    i <= iv.len(),
                    out@ == old(out)@ + seq!['['] + render_arr(json_seq_dv(iv).take(i as int)),
                decreases iv.len() - i,
            {
                if i > 0 {
                    out.push(',');
                }
                proof {
                    assert(decreases_to!(*v => items@[i as int]));
                }
                push_json(&items[i], out);
                proof {
                    reveal_with_fuel(render_arr, 2);
                    lemma_json_seq_dv(iv);
                    let d = json_seq_dv(iv);
                    assert(d.take(i + 1).subrange(0, i as int) =~= d.take(i as int));
                    assert(d.take(i + 1).last() == d[i as int]);
                    assert(d[i as int] == iv[i as int].deep_view());
                    if i == 0 {
                        assert(d.take(1)[0] == d[0]);
                        assert(render_arr(d.take(1)) == render_json(d[0]));
                    }
                    assert(out@ =~= old(out)@ + seq!['['] + render_arr(d.take(i + 1)));
                }
                i = i + 1;
            }
            out.push(']');
            proof {
                lemma_json_seq_dv(iv);
                assert(json_seq_dv(iv).take(iv.len() as int) =~= json_seq_dv(iv));
                assert(out@ =~= old(out)@ + render_json(v.deep_view()));
            }
        },
        JsonValue::Obj(fields) => {
            out.push('{');
            let ghost fv = fields@;
            let mut i: usize = 0;
            while i < fields.len()
                invariant
                    fv == fields@,
                    *v == JsonValue::Obj(*fields),
                    v.deep_view() == JsonValueV::Obj(json_obj_dv(fv)),
                    i <= fv.len(),
                    out@ == old(out)@ + seq!['{'] + render_obj(json_obj_dv(fv).take(i as int)),
                decreases fv.len() - i,
            {
                if i > 0 {
                    out.push(',');
                }
                out.push('"');
                push_escaped(&fields[i].0, out);
                out.push('"');
                out.push(':');
                proof {
                    assert(decreases_to!(*v => fields@[i as int].1));
                }
                push_json(&fields[i].1, out);
                proof {
                    reveal_with_fuel(render_obj, 2);
                    lemma_json_obj_dv(fv);
                    let d = json_obj_dv(fv);
                    assert(d.take(i + 1).subrange(0, i as int) =~= d.take(i as int));
                    assert(d.take(i + 1).last() == d[i as int]);
                    assert(d[i as int] == (fv[i as int].0@, fv[i as int].1.deep_view()));
                    if i == 0 {
                        assert(d.take(1)[0] == d[0]);
                        assert(render_obj(d.take(1)) == render_field(d[0]));
                    }
                    assert(out@ =~= old(out)@ + seq!['{'] + render_obj(d.take(i + 1)));
                }
                i = i + 1;
            }
            out.push('}');
            proof {
                lemma_json_obj_dv(fv);
                assert(json_obj_dv(fv).take(fv.len() as int) =~= json_obj_dv(fv));
                assert(out@ =~= old(out)@ + render_json(v.deep_view()));
            }
        },
    }
}

/// Renders a JSON document to text.
pub fn json_to_string(v: &JsonValue) -> (r: String)
    ensures
        r@ == render_json(v.deep_view()),
{
    let mut out: Vec<char> = Vec::new();
    push_json(v, &mut out);
    proof {
        assert(out@ =~= render_json(v.deep_view()));
    }
    chars_to_string(out)
}

/// The JSON form of a privacy usage: its distance name and the
/// fixed-point epsilon and delta, or null when undefined.
pub open spec fn usage_to_json_v(u: PrivacyUsage) -> JsonValueV {
    match u.distance {
        Some(d) => JsonValueV::Obj(
            seq![
                ("name"@, JsonValueV::Str("approximate"@)),
                ("epsilon"@, JsonValueV::Int(d.epsilon)),
                ("delta"@, JsonValueV::Int(d.delta)),
            ],
        ),
        None => JsonValueV::Null,
    }
}

/// Builds the JSON form of a privacy usage.
pub fn privacy_usage_to_json(usage: &PrivacyUsage) -> (r: JsonValue)
    ensures
        r.deep_view() == usage_to_json_v(*usage),
{
    match usage.distance {
        Some(d) => {
            let mut fields: Vec<(String, JsonValue)> = Vec::new();
            fields.push((String::from_str("name"), JsonValue::Str(String::from_str("approximate"))));
            fields.push((String::from_str("epsilon"), JsonValue::Int(d.epsilon)));
            fields.push((String::from_str("delta"), JsonValue::Int(d.delta)));
            let ghost fv = fields@;
            let r = JsonValue::Obj(fields);
            proof {
                lemma_json_obj_dv(fv);
                assert(fv.len() == 3);
                assert(json_obj_dv(fv)[0] == (fv[0].0@, fv[0].1.deep_view()));
                assert(json_obj_dv(fv)[1] == (fv[1].0@, fv[1].1.deep_view()));
                assert(json_obj_dv(fv)[2] == (fv[2].0@, fv[2].1.deep_view()));
                let expected = usage_to_json_v(*usage);
                assert(expected->Obj_0.len() == 3);
                assert(json_obj_dv(fv) =~~= expected->Obj_0);
                assert(r.deep_view() == JsonValueV::Obj(json_obj_dv(fv)));
                assert(r.deep_view() == expected);
            }
            r
        },
        None => JsonValue::Null,
    }
}


/// The JSON form of a released value.  Arrays become arrays of rows;
/// keyed families cannot be summarised directly.
pub fn value_to_json(value: &crate::base::Value) -> (r: Result<JsonValue, Error>)
    ensures
        match r {
            Ok(j) => !(value is Indexmap) && (value is Array ==> j is Arr),
            Err(e) => value is Indexmap && e.kind is TypeMismatch,
        },
{
    match value {
        crate::base::Value::Array(a) => {
            let rows_json = match a {
                crate::base::ArrayValue::Bool(rows) => bool_rows_to_json(rows),
                crate::base::ArrayValue::Int(rows) => int_rows_to_json(rows),
                crate::base::ArrayValue::Float(rows) => int_rows_to_json(rows),
                crate::base::ArrayValue::Str(rows) => str_rows_to_json(rows),
            };
            Ok(JsonValue::Arr(rows_json))
        },
        crate::base::Value::Jagged(j) => {
            let cols_json = match j {
                crate::base::Jagged::Bool(cols) => bool_rows_to_json(cols),
                crate::base::Jagged::Int(cols) => int_rows_to_json(cols),
                crate::base::Jagged::Float(cols) => int_rows_to_json(cols),
                crate::base::Jagged::Str(cols) => str_rows_to_json(cols),
            };
            Ok(JsonValue::Arr(cols_json))
        },
        crate::base::Value::Indexmap(_) => Err(
            Error::new(
                ErrorKind::TypeMismatch(String::from_str("array"), String::from_str("indexmap")),
            ),
        ),
    }
}

fn int_rows_to_json(rows: &Vec<Vec<i64>>) -> (r: Vec<JsonValue>)
{
    let mut out: Vec<JsonValue> = Vec::new();
    let mut i: usize = 0;
    while i < rows.len()
        decreases rows@.len() - i,
    {
        let row = &rows[i];
        let mut cells: Vec<JsonValue> = Vec::new();
        let mut j: usize = 0;
        while j < row.len()
            decreases row@.len() - j,
        {
            cells.push(JsonValue::Int(row[j]));
            j = j + 1;
        }
        out.push(JsonValue::Arr(cells));
        i = i + 1;
    }
    out
}

fn bool_rows_to_json(rows: &Vec<Vec<bool>>) -> (r: Vec<JsonValue>)
{
    let mut out: Vec<JsonValue> = Vec::new();
    let mut i: usize = 0;
    while i < rows.len()
        decreases rows@.len() - i,
    {
        let row = &rows[i];
        let mut cells: Vec<JsonValue> = Vec::new();
        let mut j: usize = 0;
        while j < row.len()
            decreases row@.len() - j,
        {
            cells.push(JsonValue::Bool(row[j]));
            j = j + 1;
        }
        out.push(JsonValue::Arr(cells));
        i = i + 1;
    }
    out
}

fn str_rows_to_json(rows: &Vec<Vec<String>>) -> (r: Vec<JsonValue>)
{
    let mut out: Vec<JsonValue> = Vec::new();
    let mut i: usize = 0;
    while i < rows.len()
        decreases rows@.len() - i,
    {
        let row = &rows[i];
        let mut cells: Vec<JsonValue> = Vec::new();
        let mut j: usize = 0;
        while j < row.len()
            decreases row@.len() - j,
        {
            cells.push(JsonValue::Str(row[j].clone()));
            j = j + 1;
        }
        out.push(JsonValue::Arr(cells));
        i = i + 1;
    }
    out
}

/// One column of a rectangular block of fixed-point rows.
pub fn get_ith_column(rows: &Vec<Vec<i64>>, column: usize) -> (r: Result<Vec<i64>, Error>)
    ensures
        match r {
            Ok(col) => {
                &&& forall|i: int| 0 <= i < rows.deep_view().len() ==> column < (
                #[trigger] rows.deep_view()[i]).len()
                &&& col.deep_view().len() == rows.deep_view().len()
                &&& forall|i: int| 0 <= i < rows.deep_view().len() ==> #[trigger] col.deep_view()[i]
                    == rows.deep_view()[i][column as int]
            },
            Err(e) => e.kind is Missing && exists|i: int|
                0 <= i < rows.deep_view().len() && column >= (#[trigger] rows.deep_view()[i]).len(),
        },
{
    let mut out: Vec<i64> = Vec::new();
    let mut i: usize = 0;
    while i < rows.len()
        invariant
            i <= rows@.len(),
            rows.deep_view().len() == rows@.len(),
            out@.len() == i,
            forall|k: int| 0 <= k < i ==> column < (#[trigger] rows.deep_view()[k]).len(),
            forall|k: int| 0 <= k < i ==> #[trigger] out@[k] == rows.deep_view()[k][column as int],
        decreases rows@.len() - i,
    {
        proof {
            assert(rows.deep_view()[i as int] =~= rows@[i as int]@);
        }
        if column >= rows[i].len() {
            return Err(Error::new(ErrorKind::Missing(String::from_str("column"))));
        }
        out.push(rows[i][column]);
        i = i + 1;
    }
    proof {
        assert(out.deep_view() =~= out@);
    }
    Ok(out)
}

/// Provenance of the algorithm behind one released statistic.
#[derive(Debug)]
pub struct AlgorithmInfo {
    pub name: String,
    pub cite: String,
    pub mechanism: String,
    pub argument: JsonValue,
}

#[verifier::ext_equal]
pub struct AlgorithmInfoV {
    pub name: Seq<char>,
    pub cite: Seq<char>,
    pub mechanism: Seq<char>,
    pub argument: JsonValueV,
}

impl DeepView for AlgorithmInfo {
    type V = AlgorithmInfoV;

    open spec fn deep_view(&self) -> AlgorithmInfoV {
        AlgorithmInfoV {
            name: self.name@,
            cite: self.cite@,
            mechanism: self.mechanism@,
            argument: self.argument.deep_view(),
        }
    }
}

/// One released statistic of the report.
#[derive(Debug)]
pub struct JSONRelease {
    pub description: String,
    pub statistic: String,
    pub variables: JsonValue,
    pub release_info: JsonValue,
    pub privacy_loss: JsonValue,
    pub accuracy: Option<JsonValue>,
    pub submission: u32,
    pub node_id: u32,
    pub postprocess: bool,
    pub algorithm_info: AlgorithmInfo,
}

#[verifier::ext_equal]
pub struct JSONReleaseV {
    pub description: Seq<char>,
    pub statistic: Seq<char>,
    pub variables: JsonValueV,
    pub release_info: JsonValueV,
    pub privacy_loss: JsonValueV,
    pub accuracy: Option<JsonValueV>,
    pub submission: u32,
    pub node_id: u32,
    pub postprocess: bool,
    pub algorithm_info: AlgorithmInfoV,
}

impl DeepView for JSONRelease {
    type V = JSONReleaseV;

    open spec fn deep_view(&self) -> JSONReleaseV {
        JSONReleaseV {
            description: self.description@,
            statistic: self.statistic@,
            variables: self.variables.deep_view(),
            release_info: self.release_info.deep_view(),
            privacy_loss: self.privacy_loss.deep_view(),
            accuracy: self.accuracy.deep_view(),
            submission: self.submission,
            node_id: self.node_id,
            postprocess: self.postprocess,
            algorithm_info: self.algorithm_info.deep_view(),
        }
    }
}

/// The JSON document of one released statistic, fields in schema order.
pub open spec fn json_of_release(r: JSONReleaseV) -> JsonValueV {
    JsonValueV::Obj(
        seq![
            ("description"@, JsonValueV::Str(r.description)),
            ("statistic"@, JsonValueV::Str(r.statistic)),
            ("variables"@, r.variables),
            ("release_info"@, r.release_info),
            ("privacy_loss"@, r.privacy_loss),
            (
                "accuracy"@,
                match r.accuracy {
                    Some(a) => a,
                    None => JsonValueV::Null,
                },
            ),
            ("submission"@, JsonValueV::Int(r.submission as i64)),
            ("node_id"@, JsonValueV::Int(r.node_id as i64)),
            ("postprocess"@, JsonValueV::Bool(r.postprocess)),
            (
                "algorithm_info"@,
                JsonValueV::Obj(
                    seq![
                        ("name"@, JsonValueV::Str(r.algorithm_info.name)),
                        ("cite"@, JsonValueV::Str(r.algorithm_info.cite)),
                        ("mechanism"@, JsonValueV::Str(r.algorithm_info.mechanism)),
                        ("argument"@, r.algorithm_info.argument),
                    ],
                ),
            ),
        ],
    )
}

/// Reads one released statistic back from its JSON document, expecting
/// the schema's fields in their canonical order.  `accuracy` is read
/// back as absent when it is null, and the ids must fit their wire
/// widths.
pub open spec fn release_from_json(v: JsonValueV) -> Option<JSONReleaseV> {
    match v {
        JsonValueV::Obj(fields) => if fields.len() == 10 && fields[0].0 == "description"@
            && fields[0].1 is Str && fields[1].0 == "statistic"@ && fields[1].1 is Str && fields[2].0
            == "variables"@ && fields[3].0 == "release_info"@ && fields[4].0 == "privacy_loss"@
            && fields[5].0 == "accuracy"@ && fields[6].0 == "submission"@ && fields[6].1 is Int && 0
            <= fields[6].1->Int_0 <= u32::MAX && fields[7].0 == "node_id"@ && fields[7].1 is Int && 0
            <= fields[7].1->Int_0 <= u32::MAX && fields[8].0 == "postprocess"@
            && fields[8].1 is Bool && fields[9].0 == "algorithm_info"@ && (match fields[9].1 {
            JsonValueV::Obj(ai) => ai.len() == 4 && ai[0].0 == "name"@ && ai[0].1 is Str && ai[1].0
                == "cite"@ && ai[1].1 is Str && ai[2].0 == "mechanism"@ && ai[2].1 is Str && ai[3].0
                == "argument"@,
            _ => false,
        }) {
            let ai = fields[9].1->Obj_0;
            Some(
                JSONReleaseV {
                    description: fields[0].1->Str_0,
                    statistic: fields[1].1->Str_0,
                    variables: fields[2].1,
                    release_info: fields[3].1,
                    privacy_loss: fields[4].1,
                    accuracy: if fields[5].1 is Null {
                        None
                    } else {
                        Some(fields[5].1)
                    },
                    submission: fields[6].1->Int_0 as u32,
                    node_id: fields[7].1->Int_0 as u32,
                    postprocess: fields[8].1->Bool_0,
                    algorithm_info: AlgorithmInfoV {
                        name: ai[0].1->Str_0,
                        cite: ai[1].1->Str_0,
                        mechanism: ai[2].1->Str_0,
                        argument: ai[3].1,
                    },
                },
            )
        } else {
            None
        },
        _ => None,
    }
}

/// Serialising a released statistic and deserialising it yields the
/// statistic unchanged, as long as a recorded accuracy is not the null
/// document, which stands for an absent accuracy.
pub proof fn lemma_release_round_trip(r: JSONReleaseV)
    requires
        match r.accuracy {
            Some(a) => !(a is Null),
            None => true,
        },
    ensures
        release_from_json(json_of_release(r)) == Some(r),
{
    assert(release_from_json(json_of_release(r))->0 =~~= r);
}

/// The JSON documents of a whole report.
pub open spec fn json_of_report(rs: Seq<JSONReleaseV>) -> JsonValueV {
    JsonValueV::Arr(Seq::new(rs.len(), |i: int| json_of_release(rs[i])))
}

/// Reads a whole report back from its JSON document.
pub open spec fn report_from_json(v: JsonValueV) -> Option<Seq<JSONReleaseV>> {
    match v {
        JsonValueV::Arr(items) => if forall|i: int|
            0 <= i < items.len() ==> release_from_json(#[trigger] items[i]) is Some {
            Some(Seq::new(items.len(), |i: int| release_from_json(items[i])->0))
        } else {
            None
        },
        _ => None,
    }
}

/// Serialising a report and deserialising it yields an equal report.
pub proof fn lemma_report_round_trip(rs: Seq<JSONReleaseV>)
    requires
        forall|i: int| 0 <= i < rs.len() ==> match (#[trigger] rs[i]).accuracy {
            Some(a) => !(a is Null),
            None => true,
        },
    ensures
        report_from_json(json_of_report(rs)) == Some(rs),
{
    let items = json_of_report(rs)->Arr_0;
    assert forall|i: int| 0 <= i < items.len() implies release_from_json(
        #[trigger] items[i],
    ) is Some by {
        lemma_release_round_trip(rs[i]);
    }
    assert(report_from_json(json_of_report(rs))->0 =~= rs) by {
        assert forall|i: int| 0 <= i < rs.len() implies report_from_json(json_of_report(rs))->0[i]
            == rs[i] by {
            lemma_release_round_trip(rs[i]);
        }
    }
}


/// Builds the JSON document of one released statistic.
pub fn release_to_json(r: &JSONRelease) -> (j: JsonValue)
    ensures
        j.deep_view() == json_of_release(r.deep_view()),
{
    let mut ai_fields: Vec<(String, JsonValue)> = Vec::new();
    ai_fields.push((String::from_str("name"), JsonValue::Str(r.algorithm_info.name.clone())));
    ai_fields.push((String::from_str("cite"), JsonValue::Str(r.algorithm_info.cite.clone())));
    ai_fields.push(
        (String::from_str("mechanism"), JsonValue::Str(r.algorithm_info.mechanism.clone())),
    );
    ai_fields.push((String::from_str("argument"), clone_json(&r.algorithm_info.argument)));
    let ghost aiv = ai_fields@;
    let ai = JsonValue::Obj(ai_fields);

    let mut fields: Vec<(String, JsonValue)> = Vec::new();
    fields.push((String::from_str("description"), JsonValue::Str(r.description.clone())));
    fields.push((String::from_str("statistic"), JsonValue::Str(r.statistic.clone())));
    fields.push((String::from_str("variables"), clone_json(&r.variables)));
    fields.push((String::from_str("release_info"), clone_json(&r.release_info)));
    fields.push((String::from_str("privacy_loss"), clone_json(&r.privacy_loss)));
    fields.push(
        (
            String::from_str("accuracy"),
            match &r.accuracy {
                Some(a) => clone_json(a),
                None => JsonValue::Null,
            },
        ),
    );
    fields.push((String::from_str("submission"), JsonValue::Int(r.submission as i64)));
    fields.push((String::from_str("node_id"), JsonValue::Int(r.node_id as i64)));
    fields.push((String::from_str("postprocess"), JsonValue::Bool(r.postprocess)));
    fields.push((String::from_str("algorithm_info"), ai));
    let ghost fv = fields@;
    let j = JsonValue::Obj(fields);
    proof {
        lemma_json_obj_dv(aiv);
        lemma_json_obj_dv(fv);
        assert(aiv.len() == 4);
        assert(fv.len() == 10);
        assert(json_obj_dv(aiv)[0] == (aiv[0].0@, aiv[0].1.deep_view()));
        assert(json_obj_dv(aiv)[1] == (aiv[1].0@, aiv[1].1.deep_view()));
        assert(json_obj_dv(aiv)[2] == (aiv[2].0@, aiv[2].1.deep_view()));
        assert(json_obj_dv(aiv)[3] == (aiv[3].0@, aiv[3].1.deep_view()));
        assert(json_obj_dv(aiv) =~~= json_of_release(r.deep_view())->Obj_0[9].1->Obj_0);
        assert(json_obj_dv(fv)[0] == (fv[0].0@, fv[0].1.deep_view()));
        assert(json_obj_dv(fv)[0] == json_of_release(r.deep_view())->Obj_0[0]);
        assert(json_obj_dv(fv)[1] == (fv[1].0@, fv[1].1.deep_view()));
        assert(json_obj_dv(fv)[1] == json_of_release(r.deep_view())->Obj_0[1]);
        assert(json_obj_dv(fv)[2] == (fv[2].0@, fv[2].1.deep_view()));
        assert(json_obj_dv(fv)[2] == json_of_release(r.deep_view())->Obj_0[2]);
        assert(json_obj_dv(fv)[3] == (fv[3].0@, fv[3].1.deep_view()));
        assert(json_obj_dv(fv)[3] == json_of_release(r.deep_view())->Obj_0[3]);
        assert(json_obj_dv(fv)[4] == (fv[4].0@, fv[4].1.deep_view()));
        assert(json_obj_dv(fv)[4] == json_of_release(r.deep_view())->Obj_0[4]);
        assert(json_obj_dv(fv)[5] == (fv[5].0@, fv[5].1.deep_view()));
        assert(json_obj_dv(fv)[5] == json_of_release(r.deep_view())->Obj_0[5]);
        assert(json_obj_dv(fv)[6] == (fv[6].0@, fv[6].1.deep_view()));
        assert(json_obj_dv(fv)[6] == json_of_release(r.deep_view())->Obj_0[6]);
        assert(json_obj_dv(fv)[7] == (fv[7].0@, fv[7].1.deep_view()));
        assert(json_obj_dv(fv)[7] == json_of_release(r.deep_view())->Obj_0[7]);
        assert(json_obj_dv(fv)[8] == (fv[8].0@, fv[8].1.deep_view()));
        assert(json_obj_dv(fv)[8] == json_of_release(r.deep_view())->Obj_0[8]);
        assert(json_obj_dv(fv)[9] == (fv[9].0@, fv[9].1.deep_view()));
        assert(json_obj_dv(fv)[9] == json_of_release(r.deep_view())->Obj_0[9]);
        assert(json_obj_dv(fv) =~~= json_of_release(r.deep_view())->Obj_0);
        assert(j.deep_view() =~~= json_of_release(r.deep_view()));
    }
    j
}

/// Deep-copies a JSON document.
pub fn clone_json(v: &JsonValue) -> (r: JsonValue)
    ensures
        r.deep_view() == v.deep_view(),
    decreases v,
{
    broadcast use vstd::std_specs::vec::axiom_vec_index_decreases;

    match v {
        JsonValue::Null => JsonValue::Null,
        JsonValue::Bool(b) => JsonValue::Bool(*b),
        JsonValue::Int(x) => JsonValue::Int(*x),
        JsonValue::Str(s) => JsonValue::Str(s.clone()),
        JsonValue::Arr(items) => {
            let ghost iv = items@;
            let mut out: Vec<JsonValue> = Vec::new();
            let mut i: usize = 0;
            while i < items.len()
                invariant
                    iv == items@,
                    *v == JsonValue::Arr(*items),
                    i <= iv.len(),
                    out@.len() == i,
                    forall|k: int| 0 <= k < i ==> (#[trigger] out@[k]).deep_view()
                        == iv[k].deep_view(),
                decreases iv.len() - i,
            {
                proof {
                    assert(decreases_to!(*v => v->Arr_0));
                    assert(v->Arr_0 == *items);
                    assert(decreases_to!(*items => items@[i as int]));
                    assert(decreases_to!(*v => items@[i as int]));
                }
                let c = clone_json(&items[i]);
                out.push(c);
                i = i + 1;
            }
            let ghost ov = out@;
            let r = JsonValue::Arr(out);
            proof {
                lemma_json_seq_dv(iv);
                lemma_json_seq_dv(ov);
                assert forall|k: int| 0 <= k < iv.len() implies json_seq_dv(ov)[k] == json_seq_dv(
                    iv,
                )[k] by {
                    assert(json_seq_dv(ov)[k] == ov[k].deep_view());
                    assert(json_seq_dv(iv)[k] == iv[k].deep_view());
                }
                assert(json_seq_dv(ov) =~= json_seq_dv(iv));
            }
            r
        },
        JsonValue::Obj(fields) => {
            let ghost fv = fields@;
            let mut out: Vec<(String, JsonValue)> = Vec::new();
            let mut i: usize = 0;
            while i < fields.len()
                invariant
                    fv == fields@,
                    *v == JsonValue::Obj(*fields),
                    i <= fv.len(),
                    out@.len() == i,
                    forall|k: int| 0 <= k < i ==> (#[trigger] out@[k]).0@ == fv[k].0@
                        && out@[k].1.deep_view() == fv[k].1.deep_view(),
                decreases fv.len() - i,
            {
                proof {
                    assert(decreases_to!(*v => v->Obj_0));
                    assert(v->Obj_0 == *fields);
                    assert(decreases_to!(*fields => fields@[i as int]));
                    assert(decreases_to!(*v => fields@[i as int].1));
                }
                let c = clone_json(&fields[i].1);
                out.push((fields[i].0.clone(), c));
                i = i + 1;
            }
            let ghost ov = out@;
            let r = JsonValue::Obj(out);
            proof {
                lemma_json_obj_dv(fv);
                lemma_json_obj_dv(ov);
                assert forall|k: int| 0 <= k < fv.len() implies json_obj_dv(ov)[k] == json_obj_dv(
                    fv,
                )[k] by {
                    assert(json_obj_dv(ov)[k] == (ov[k].0@, ov[k].1.deep_view()));
                    assert(json_obj_dv(fv)[k] == (fv[k].0@, fv[k].1.deep_view()));
                }
                assert(json_obj_dv(ov) =~= json_obj_dv(fv));
            }
            r
        },
    }
}

/// Builds the JSON document of a whole report.
pub fn report_to_json(rs: &Vec<JSONRelease>) -> (j: JsonValue)
    ensures
        j.deep_view() == json_of_report(rs.deep_view()),
{
    let mut items: Vec<JsonValue> = Vec::new();
    let mut i: usize = 0;
    while i < rs.len()
        invariant
            i <= rs@.len(),
            rs.deep_view().len() == rs@.len(),
            items@.len() == i,
            forall|k: int| 0 <= k < i ==> (#[trigger] items@[k]).deep_view() == json_of_release(
                rs.deep_view()[k],
            ),
        decreases rs@.len() - i,
    {
        proof {
            assert(rs.deep_view()[i as int] == rs@[i as int].deep_view());
        }
        let item = release_to_json(&rs[i]);
        items.push(item);
        i = i + 1;
    }
    let ghost iv = items@;
    let j = JsonValue::Arr(items);
    proof {
        lemma_json_seq_dv(iv);
        assert forall|k: int| 0 <= k < iv.len() implies json_seq_dv(iv)[k] == json_of_report(
            rs.deep_view(),
        )->Arr_0[k] by {
            assert(json_seq_dv(iv)[k] == iv[k].deep_view());
        }
        assert(json_seq_dv(iv) =~= json_of_report(rs.deep_view())->Arr_0);
        assert(j.deep_view() == json_of_report(rs.deep_view()));
    }
    j
}

} // verus!
