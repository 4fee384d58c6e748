//! The structured document value a search hit carries, and the rendering
//! pipeline that turns one into display lines: a compact single-line form,
//! an indented multi-line form, and a flattened `path = value` form.
//!
//! Numbers are carried as their literal decimal text, so the renderers can
//! reproduce them without any numeric re-formatting.

use vstd::prelude::*;
use vstd::string::*;
use crate::text::dec_str;
use crate::text::u64_str;
use crate::text::push_char;

verus! {

/// A structured document value: object, array or scalar.
pub enum JsonValue {
    Null,
    Bool(bool),
    /// A number, carried as its literal text.
    Num(String),
    Str(String),
    Arr(Vec<JsonValue>),
    Obj(Vec<(String, JsonValue)>),
}

/// The mathematical model of a `JsonValue`: the same tree over sequences.
pub enum JsonView {
    Null,
    Bool(bool),
    Num(Seq<char>),
    Str(Seq<char>),
    Arr(Seq<JsonView>),
    Obj(Seq<(Seq<char>, JsonView)>),
}

/// The model of `v`.
pub open spec fn jview(v: JsonValue) -> JsonView
    decreases v, 0int,
{
    match v {
        JsonValue::Null => JsonView::Null,
        JsonValue::Bool(b) => JsonView::Bool(b),
        JsonValue::Num(s) => JsonView::Num(s@),
        JsonValue::Str(s) => JsonView::Str(s@),
        JsonValue::Arr(items) => JsonView::Arr(jview_items(items@)),
        JsonValue::Obj(fields) => JsonView::Obj(jview_fields(fields@)),
    }
}

/// The models of a sequence of values.
pub open spec fn jview_items(items: Seq<JsonValue>) -> Seq<JsonView>
    decreases items, 0int,
{
    if items.len() == 0 {
        Seq::empty()
    } else {
        seq![jview(items[0])] + jview_items(items.subrange(1, items.len() as int))
    }
}

/// The models of a sequence of key/value fields.
pub open spec fn jview_fields(fields: Seq<(String, JsonValue)>) -> Seq<(Seq<char>, JsonView)>
    decreases fields, 0int,
{
    if fields.len() == 0 {
        Seq::empty()
    } else {
        seq![(fields[0].0@, jview(fields[0].1))] + jview_fields(
            fields.subrange(1, fields.len() as int),
        )
    }
}

pub proof fn lemma_jview_items(items: Seq<JsonValue>)
    ensures
        jview_items(items).len() == items.len(),
        forall|i: int| 0 <= i < items.len() ==> jview_items(items)[i] == jview(items[i]),
    decreases items.len(),
{
    if items.len() > 0 {
        lemma_jview_items(items.subrange(1, items.len() as int));
    }
}

pub proof fn lemma_jview_fields(fields: Seq<(String, JsonValue)>)
    ensures
        jview_fields(fields).len() == fields.len(),
        forall|i: int|
            0 <= i < fields.len() ==> jview_fields(fields)[i] == (
                fields[i].0@,
                jview(fields[i].1),
            ),
    decreases fields.len(),
{
    if fields.len() > 0 {
        lemma_jview_fields(fields.subrange(1, fields.len() as int));
    }
}

// ---------------------------------------------------------------------------
// Inline scalar rendering
// ---------------------------------------------------------------------------

/// The single-token rendering of a leaf: strings quoted, numbers and
/// booleans as their literal text, null as `null`, and a fixed placeholder
/// for composite values standing where a leaf was expected.
pub open spec fn inline_of(v: JsonView) -> Seq<char> {
    match v {
        JsonView::Str(s) => "\""@ + s + "\""@,
        JsonView::Num(s) => s,
        JsonView::Bool(b) => if b {
            "true"@
        } else {
            "false"@
        },
        JsonView::Null => "null"@,
        _ => "<complex>"@,
    }
}

/// Renders a leaf value inline, as `inline_of` describes.
pub fn json_value_inline(value: &JsonValue) -> (r: String)
    ensures
        r@ == inline_of(jview(*value)),
{
    match value {
        JsonValue::Str(s) => {
            let mut r = String::new();
            r.append("\"");
            r.append(s.as_str());
            r.append("\"");
            proof {
                assert(r@ =~= "\""@ + s@ + "\""@);
            }
            r
        },
        JsonValue::Num(s) => s.clone(),
        JsonValue::Bool(b) => {
            if *b {
                "true".to_owned()
            } else {
                "false".to_owned()
            }
        },
        JsonValue::Null => "null".to_owned(),
        JsonValue::Arr(_) => "<complex>".to_owned(),
        JsonValue::Obj(_) => "<complex>".to_owned(),
    }
}

// ---------------------------------------------------------------------------
// Flattening
// ---------------------------------------------------------------------------

/// The path of a field `key` under `prefix`: keys are joined with `.`.
pub open spec fn join_path(prefix: Seq<char>, key: Seq<char>) -> Seq<char> {
    if prefix.len() == 0 {
        key
    } else {
        prefix + "."@ + key
    }
}

/// The path of an array element `i` under `prefix`.
pub open spec fn index_path(prefix: Seq<char>, i: int) -> Seq<char> {
    prefix + "["@ + dec_str(i) + "]"@
}

/// The `path = value` line of a leaf at `prefix`.
pub open spec fn flat_leaf(prefix: Seq<char>, v: JsonView) -> Seq<char> {
    (if prefix.len() == 0 {
        "<root>"@
    } else {
        prefix
    }) + " = "@ + inline_of(v)
}

/// The flattened lines of `v` under `prefix`: a depth-first traversal in
/// which every leaf contributes one `path = value` line.
pub open spec fn flat_lines(v: JsonView, prefix: Seq<char>) -> Seq<Seq<char>>
    decreases v, 0int,
{
    match v {
        JsonView::Obj(fields) => flat_fields_from(fields, prefix, 0),
        JsonView::Arr(items) => flat_items_from(items, prefix, 0),
        _ => seq![flat_leaf(prefix, v)],
    }
}

/// The flattened lines of the fields of an object, from field `i` on.
pub open spec fn flat_fields_from(
    fields: Seq<(Seq<char>, JsonView)>,
    prefix: Seq<char>,
    i: int,
) -> Seq<Seq<char>>
    decreases fields, fields.len() - i,
{
    if 0 <= i < fields.len() {
        flat_lines(fields[i].1, join_path(prefix, fields[i].0)) + flat_fields_from(
            fields,
            prefix,
            i + 1,
        )
    } else {
        Seq::empty()
    }
}

/// The flattened lines of the elements of an array, from element `i` on.
pub open spec fn flat_items_from(items: Seq<JsonView>, prefix: Seq<char>, i: int) -> Seq<
    Seq<char>,
>
    decreases items, items.len() - i,
{
    if 0 <= i < items.len() {
        flat_lines(items[i], index_path(prefix, i)) + flat_items_from(items, prefix, i + 1)
    } else {
        Seq::empty()
    }
}

fn join_path_exec(prefix: &str, key: &str) -> (r: String)
    ensures
        r@ == join_path(prefix@, key@),
{
    if prefix.is_empty() {
        key.to_owned()
    } else {
        let mut r = prefix.to_owned();
        r.append(".");
        r.append(key);
        proof {
            assert(r@ =~= prefix@ + "."@ + key@);
        }
        r
    }
}

fn index_path_exec(prefix: &str, i: usize) -> (r: String)
    ensures
        r@ == index_path(prefix@, i as int),
{
    let mut r = prefix.to_owned();
    r.append("[");
    let num = u64_str(i as u64);
    r.append(num.as_str());
    r.append("]");
    proof {
        assert(r@ =~= prefix@ + "["@ + dec_str(i as int) + "]"@);
    }
    r
}

/// Appends to `out` one `path = value` line per leaf of `value`, paths
/// rooted at `prefix`, in depth-first order.
pub fn flatten_json_value(value: &JsonValue, prefix: &str, out: &mut Vec<String>)
    ensures
        final(out).deep_view() == old(out).deep_view() + flat_lines(jview(*value), prefix@),
    decreases *value,
{
    match value {
        JsonValue::Obj(fields) => {
            proof {
                lemma_jview_fields(fields@);
            }
            let ghost jf = jview_fields(fields@);
            let n = fields.len();
            let mut i: usize = 0;
            while i < n
                invariant
                    0 <= i <= n,
                    *value is Obj,
                    value->Obj_0 == *fields,
                    n == fields@.len(),
                    jf == jview_fields(fields@),
                    jf.len() == n,
                    forall|k: int| 0 <= k < n ==> jf[k] == (fields@[k].0@, jview(fields@[k].1)),
                    out.deep_view() + flat_fields_from(jf, prefix@, i as int) == old(
                        out,
                    ).deep_view() + flat_fields_from(jf, prefix@, 0),
                decreases n - i,
            {
                let next = join_path_exec(prefix, fields[i].0.as_str());
                let ghost pre = out.deep_view();
                proof {
                    assert(value->Obj_0 == *fields);
                    assert(decreases_to!(*value => value->Obj_0@[i as int].1)) by {
                        assert(decreases_to!(*value => value->Obj_0));
                        assert(decreases_to!(value->Obj_0 => value->Obj_0@));
                        assert(decreases_to!(value->Obj_0@ => value->Obj_0@[i as int]));
                        assert(decreases_to!(value->Obj_0@[i as int] => value->Obj_0@[i as int].1));
                    }
                }
                flatten_json_value(&fields[i].1, next.as_str(), out);
                proof {
                    let fl = flat_lines(jview(fields@[i as int].1), next@);
                    let rest = flat_fields_from(jf, prefix@, i + 1);
                    assert(flat_fields_from(jf, prefix@, i as int) == fl + rest);
                    assert((pre + fl) + rest =~= pre + (fl + rest));
                }
                i = i + 1;
            }
            proof {
                assert(flat_fields_from(jf, prefix@, n as int) =~= Seq::<Seq<char>>::empty());
                assert(out.deep_view() + Seq::<Seq<char>>::empty() =~= out.deep_view());
            }
        },
        JsonValue::Arr(items) => {
            proof {
                lemma_jview_items(items@);
            }
            let ghost ji = jview_items(items@);
            let n = items.len();
            let mut i: usize = 0;
            while i < n
                invariant
                    0 <= i <= n,
                    *value is Arr,
                    value->Arr_0 == *items,
                    n == items@.len(),
                    ji == jview_items(items@),
                    ji.len() == n,
                    forall|k: int| 0 <= k < n ==> ji[k] == jview(items@[k]),
                    out.deep_view() + flat_items_from(ji, prefix@, i as int) == old(
                        out,
                    ).deep_view() + flat_items_from(ji, prefix@, 0),
                decreases n - i,
            {
                let next = index_path_exec(prefix, i);
                let ghost pre = out.deep_view();
                proof {
                    assert(value->Arr_0 == *items);
                    assert(decreases_to!(*value => value->Arr_0@[i as int])) by {
                        assert(decreases_to!(*value => value->Arr_0));
                        assert(decreases_to!(value->Arr_0 => value->Arr_0@));
                        assert(decreases_to!(value->Arr_0@ => value->Arr_0@[i as int]));
                    }
                }
                flatten_json_value(&items[i], next.as_str(), out);
                proof {
                    let fl = flat_lines(jview(items@[i as int]), next@);
                    let rest = flat_items_from(ji, prefix@, i + 1);
                    assert(flat_items_from(ji, prefix@, i as int) == fl + rest);
                    assert((pre + fl) + rest =~= pre + (fl + rest));
                }
                i = i + 1;
            }
            proof {
                assert(flat_items_from(ji, prefix@, n as int) =~= Seq::<Seq<char>>::empty());
                assert(out.deep_view() + Seq::<Seq<char>>::empty() =~= out.deep_view());
            }
        },
        _ => {
            let mut line = if prefix.is_empty() {
                "<root>".to_owned()
            } else {
                prefix.to_owned()
            };
            line.append(" = ");
            let inline = json_value_inline(value);
            line.append(inline.as_str());
            proof {
                assert(line@ =~= flat_leaf(prefix@, jview(*value)));
            }
            out.push(line);
            proof {
                assert(out.deep_view() =~= old(out).deep_view() + flat_lines(
                    jview(*value),
                    prefix@,
                ));
            }
        },
    }
}

/// The flattened rendering of a whole document: its flat lines, or a single
/// placeholder line when the value has no leaves.
pub open spec fn flat_json_lines(v: JsonView) -> Seq<Seq<char>> {
    let lines = flat_lines(v, Seq::empty());
    if lines.len() == 0 {
        seq!["<empty>"@]
    } else {
        lines
    }
}

/// Renders `value` in the flattened view, as `flat_json_lines` describes.
pub fn json_lines_flatten(value: &JsonValue) -> (r: Vec<String>)
    ensures
        r.deep_view() == flat_json_lines(jview(*value)),
{
    let mut out: Vec<String> = Vec::new();
    proof {
        reveal_strlit("");
        assert(""@ =~= Seq::<char>::empty());
        assert(out.deep_view() =~= Seq::<Seq<char>>::empty());
    }
    flatten_json_value(value, "", &mut out);
    if out.len() == 0 {
        let mut r: Vec<String> = Vec::new();
        r.push("<empty>".to_owned());
        proof {
            assert(r.deep_view() =~= seq!["<empty>"@]);
            assert(out.deep_view().len() == 0);
        }
        r
    } else {
        proof {
            assert(out.deep_view() =~= Seq::<Seq<char>>::empty() + out.deep_view());
        }
        out
    }
}

} // verus!

verus! {

// ---------------------------------------------------------------------------
// String escaping
// ---------------------------------------------------------------------------

/// The lowercase hexadecimal digit character for `d` in `0 ..= 15`.
pub open spec fn hex_digit(d: int) -> char {
    if d < 10 {
        crate::text::digit_char(d)
    } else if d == 10 {
        'a'
    } else if d == 11 {
        'b'
    } else if d == 12 {
        'c'
    } else if d == 13 {
        'd'
    } else if d == 14 {
        'e'
    } else {
        'f'
    }
}

/// The escaped form of one character inside a serialized string: quote,
/// backslash and the named control characters get two-character escapes,
/// other control characters a `\u00..` escape, everything else stands as is.
pub open spec fn escape_char(c: char) -> Seq<char> {
    if c == '"' {
        "\\\""@
    } else if c == '\\' {
        "\\\\"@
    } else if c == '\n' {
        "\\n"@
    } else if c == '\r' {
        "\\r"@
    } else if c == '\t' {
        "\\t"@
    } else if c == '\u{8}' {
        "\\b"@
    } else if c == '\u{c}' {
        "\\f"@
    } else if (c as u32) < 32 {
        "\\u00"@ + seq![hex_digit((c as u32) as int / 16)] + seq![hex_digit((c as u32) as int % 16)]
    } else {
        seq![c]
    }
}

/// The escaped form of `s` from position `i` on.
pub open spec fn escape_from(s: Seq<char>, i: int) -> Seq<char>
    decreases s.len() - i,
{
    if 0 <= i < s.len() {
        escape_char(s[i]) + escape_from(s, i + 1)
    } else {
        Seq::empty()
    }
}

/// The escaped form of `s`.
pub open spec fn escape_str_of(s: Seq<char>) -> Seq<char> {
    escape_from(s, 0)
}

fn hex_digit_str(d: u64) -> (r: &'static str)
    requires
        d < 16,
    ensures
        r@ == seq![hex_digit(d as int)],
{
    if d < 10 {
        crate::text::digit_str(d)
    } else {
        proof {
            reveal_strlit("a");
            reveal_strlit("b");
            reveal_strlit("c");
            reveal_strlit("d");
            reveal_strlit("e");
            reveal_strlit("f");
        }
        let r = match d {
            10 => "a",
            11 => "b",
            12 => "c",
            13 => "d",
            14 => "e",
            _ => "f",
        };
        proof {
            assert(r@ =~= seq![hex_digit(d as int)]);
        }
        r
    }
}

fn escape_push(s: &str, out: &mut String)
    ensures
        final(out)@ == old(out)@ + escape_str_of(s@),
{
    let n = s.unicode_len();
    let mut i: usize = 0;
    while i < n
        invariant
            0 <= i <= n,
            n == s@.len(),
            out@ + escape_from(s@, i as int) == old(out)@ + escape_from(s@, 0),
        decreases n - i,
    {
        let ghost pre = out@;
        let c = s.get_char(i);
        if c == '"' {
            out.append("\\\"");
        } else if c == '\\' {
            out.append("\\\\");
        } else if c == '\n' {
            out.append("\\n");
        } else if c == '\r' {
            out.append("\\r");
        } else if c == '\t' {
            out.append("\\t");
        } else if c == '\u{8}' {
            out.append("\\b");
        } else if c == '\u{c}' {
            out.append("\\f");
        } else if (c as u32) < 32 {
            let code: u32 = c as u32;
            out.append("\\u00");
            out.append(hex_digit_str((code / 16) as u64));
            out.append(hex_digit_str((code % 16) as u64));
            proof {
                assert(out@ =~= pre + escape_char(c));
            }
        } else {
            crate::text::push_char(out, c);
            proof {
                assert(out@ =~= pre + escape_char(c));
            }
        }
        proof {
            assert(out@ == pre + escape_char(s@[i as int]));
            assert((pre + escape_char(s@[i as int])) + escape_from(s@, i + 1) =~= pre + (
            escape_char(s@[i as int]) + escape_from(s@, i + 1)));
        }
        i = i + 1;
    }
    proof {
        assert(escape_from(s@, n as int) =~= Seq::<char>::empty());
        assert(out@ + Seq::<char>::empty() =~= out@);
    }
}

// ---------------------------------------------------------------------------
// Compact (single-line) serialization
// ---------------------------------------------------------------------------

/// The compact serialization of `v` on one line: escaped quoted strings,
/// literal numbers and booleans, `null`, and bracketed arrays and objects
/// with `,` and `:` separators and no spacing.
pub open spec fn compact_of(v: JsonView) -> Seq<char>
    decreases v, 0int,
{
    match v {
        JsonView::Null => "null"@,
        JsonView::Bool(b) => if b {
            "true"@
        } else {
            "false"@
        },
        JsonView::Num(s) => s,
        JsonView::Str(s) => "\""@ + escape_str_of(s) + "\""@,
        JsonView::Arr(items) => "["@ + compact_items_from(items, 0) + "]"@,
        JsonView::Obj(fields) => "{"@ + compact_fields_from(fields, 0) + "}"@,
    }
}

/// The comma-separated compact serializations of array elements from `i` on.
pub open spec fn compact_items_from(items: Seq<JsonView>, i: int) -> Seq<char>
    decreases items, items.len() - i,
{
    if 0 <= i < items.len() {
        compact_of(items[i]) + (if i + 1 < items.len() {
            ","@
        } else {
            Seq::<char>::empty()
        }) + compact_items_from(items, i + 1)
    } else {
        Seq::empty()
    }
}

/// The comma-separated compact serializations of object fields from `i` on.
pub open spec fn compact_fields_from(fields: Seq<(Seq<char>, JsonView)>, i: int) -> Seq<char>
    decreases fields, fields.len() - i,
{
    if 0 <= i < fields.len() {
        "\""@ + escape_str_of(fields[i].0) + "\":"@ + compact_of(fields[i].1) + (if i + 1
            < fields.len() {
            ","@
        } else {
            Seq::<char>::empty()
        }) + compact_fields_from(fields, i + 1)
    } else {
        Seq::empty()
    }
}

/// Appends the compact serialization of `value` to `out`.
pub fn write_compact(value: &JsonValue, out: &mut String)
    ensures
        final(out)@ == old(out)@ + compact_of(jview(*value)),
    decreases *value,
{
    match value {
        JsonValue::Null => {
            out.append("null");
        },
        JsonValue::Bool(b) => {
            if *b {
                out.append("true");
            } else {
                out.append("false");
            }
        },
        JsonValue::Num(s) => {
            out.append(s.as_str());
        },
        JsonValue::Str(s) => {
            let ghost pre = out@;
            out.append("\"");
            escape_push(s.as_str(), out);
            out.append("\"");
            proof {
                assert(out@ =~= pre + ("\""@ + escape_str_of(s@) + "\""@));
            }
        },
        JsonValue::Arr(items) => {
            proof {
                lemma_jview_items(items@);
            }
            let ghost ji = jview_items(items@);
            let ghost pre = out@;
            out.append("[");
            let n = items.len();
            let mut i: usize = 0;
            while i < n
                invariant
                    0 <= i <= n,
                    *value is Arr,
                    value->Arr_0 == *items,
                    n == items@.len(),
                    ji == jview_items(items@),
                    ji.len() == n,
                    forall|k: int| 0 <= k < n ==> ji[k] == jview(items@[k]),
                    out@ + compact_items_from(ji, i as int) == pre + "["@ + compact_items_from(
                        ji,
                        0,
                    ),
                decreases n - i,
            {
                proof {
                    assert(decreases_to!(*value => value->Arr_0@[i as int])) by {
                        assert(decreases_to!(*value => value->Arr_0));
                        assert(decreases_to!(value->Arr_0 => value->Arr_0@));
                        assert(decreases_to!(value->Arr_0@ => value->Arr_0@[i as int]));
                    }
                }
                let ghost mid = out@;
                write_compact(&items[i], out);
                if i + 1 < n {
                    out.append(",");
                    proof {
                        assert(out@ =~= mid + (compact_of(ji[i as int]) + ","@));
                    }
                } else {
                    proof {
                        assert(out@ =~= mid + (compact_of(ji[i as int]) + Seq::<char>::empty()));
                    }
                }
                proof {
                    let sep = if i + 1 < n {
                        ","@
                    } else {
                        Seq::<char>::empty()
                    };
                    assert(compact_items_from(ji, i as int) == compact_of(ji[i as int]) + sep
                        + compact_items_from(ji, i + 1));
                    assert((mid + (compact_of(ji[i as int]) + sep)) + compact_items_from(ji, i + 1)
                        =~= mid + ((compact_of(ji[i as int]) + sep) + compact_items_from(
                        ji,
                        i + 1,
                    )));
                    assert((compact_of(ji[i as int]) + sep) + compact_items_from(ji, i + 1)
                        =~= compact_of(ji[i as int]) + sep + compact_items_from(ji, i + 1));
                }
                i = i + 1;
            }
            out.append("]");
            proof {
                assert(compact_items_from(ji, n as int) =~= Seq::<char>::empty());
                assert(out@ =~= pre + ("["@ + compact_items_from(ji, 0) + "]"@));
            }
        },
        JsonValue::Obj(fields) => {
            proof {
                lemma_jview_fields(fields@);
            }
            let ghost jf = jview_fields(fields@);
            let ghost pre = out@;
            out.append("{");
            let n = fields.len();
            let mut i: usize = 0;
            while i < n
                invariant
                    0 <= i <= n,
                    *value is Obj,
                    value->Obj_0 == *fields,
                    n == fields@.len(),
                    jf == jview_fields(fields@),
                    jf.len() == n,
                    forall|k: int| 0 <= k < n ==> jf[k] == (fields@[k].0@, jview(fields@[k].1)),
                    out@ + compact_fields_from(jf, i as int) == pre + "{"@ + compact_fields_from(
                        jf,
                        0,
                    ),
                decreases n - i,
            {
                proof {
                    assert(decreases_to!(*value => value->Obj_0@[i as int].1)) by {
                        assert(decreases_to!(*value => value->Obj_0));
                        assert(decreases_to!(value->Obj_0 => value->Obj_0@));
                        assert(decreases_to!(value->Obj_0@ => value->Obj_0@[i as int]));
                        assert(decreases_to!(value->Obj_0@[i as int] => value->Obj_0@[i as int].1));
                    }
                }
                let ghost mid = out@;
                out.append("\"");
                escape_push(fields[i].0.as_str(), out);
                out.append("\":");
                let ghost mid2 = out@;
                proof {
                    assert(mid2 =~= mid + ("\""@ + escape_str_of(jf[i as int].0) + "\":"@));
                }
                write_compact(&fields[i].1, out);
                if i + 1 < n {
                    out.append(",");
                }
                proof {
                    let sep = if i + 1 < n {
                        ","@
                    } else {
                        Seq::<char>::empty()
                    };
                    let piece = "\""@ + escape_str_of(jf[i as int].0) + "\":"@ + compact_of(
                        jf[i as int].1,
                    ) + sep;
                    assert(out@ =~= mid + piece);
                    assert(compact_fields_from(jf, i as int) == piece + compact_fields_from(
                        jf,
                        i + 1,
                    ));
                    assert((mid + piece) + compact_fields_from(jf, i + 1) =~= mid + (piece
                        + compact_fields_from(jf, i + 1)));
                }
                i = i + 1;
            }
            out.append("}");
            proof {
                assert(compact_fields_from(jf, n as int) =~= Seq::<char>::empty());
                assert(out@ =~= pre + ("{"@ + compact_fields_from(jf, 0) + "}"@));
            }
        },
    }
}

/// The compact single-line serialization of `value`.
pub fn to_compact(value: &JsonValue) -> (r: String)
    ensures
        r@ == compact_of(jview(*value)),
{
    let mut out = String::new();
    write_compact(value, &mut out);
    proof {
        assert(Seq::<char>::empty() + compact_of(jview(*value)) =~= compact_of(jview(*value)));
    }
    out
}

/// Renders `value` in the raw view: one compact line.
pub fn json_lines_raw(value: &JsonValue) -> (r: Vec<String>)
    ensures
        r.deep_view() == seq![compact_of(jview(*value))],
{
    let mut r: Vec<String> = Vec::new();
    r.push(to_compact(value));
    proof {
        assert(r.deep_view() =~= seq![compact_of(jview(*value))]);
    }
    r
}

} // verus!

verus! {

// ---------------------------------------------------------------------------
// Pretty (indented multi-line) rendering
// ---------------------------------------------------------------------------

/// A trailing comma, or nothing.
pub open spec fn comma_str(comma: bool) -> Seq<char> {
    if comma {
        ","@
    } else {
        Seq::empty()
    }
}

/// The indented lines of `v`: `pad` indents every line of the value,
/// `head` follows the indent on the first line (a field's `"key": ` or
/// nothing), and `comma` puts a trailing comma on the last line. Arrays
/// and objects open and close on lines of their own, their elements
/// indented two further spaces; empty ones render as `[]` and `{}`.
pub open spec fn pretty_at(v: JsonView, pad: Seq<char>, head: Seq<char>, comma: bool) -> Seq<
    Seq<char>,
>
    decreases v, 0int,
{
    match v {
        JsonView::Arr(items) => if items.len() == 0 {
            seq![pad + head + "[]"@ + comma_str(comma)]
        } else {
            seq![pad + head + "["@] + pretty_items_from(items, pad + "  "@, 0) + seq![
                pad + "]"@ + comma_str(comma),
            ]
        },
        JsonView::Obj(fields) => if fields.len() == 0 {
            seq![pad + head + "{}"@ + comma_str(comma)]
        } else {
            seq![pad + head + "{"@] + pretty_fields_from(fields, pad + "  "@, 0) + seq![
                pad + "}"@ + comma_str(comma),
            ]
        },
        _ => seq![pad + head + compact_of(v) + comma_str(comma)],
    }
}

/// The indented lines of array elements from `i` on, every element but the
/// last followed by a comma.
pub open spec fn pretty_items_from(items: Seq<JsonView>, pad: Seq<char>, i: int) -> Seq<Seq<char>>
    decreases items, items.len() - i,
{
    if 0 <= i < items.len() {
        pretty_at(items[i], pad, Seq::empty(), i + 1 < items.len()) + pretty_items_from(
            items,
            pad,
            i + 1,
        )
    } else {
        Seq::empty()
    }
}

/// The indented lines of object fields from `i` on, every field led by its
/// quoted key and every field but the last followed by a comma.
pub open spec fn pretty_fields_from(
    fields: Seq<(Seq<char>, JsonView)>,
    pad: Seq<char>,
    i: int,
) -> Seq<Seq<char>>
    decreases fields, fields.len() - i,
{
    if 0 <= i < fields.len() {
        pretty_at(
            fields[i].1,
            pad,
            "\""@ + escape_str_of(fields[i].0) + "\": "@,
            i + 1 < fields.len(),
        ) + pretty_fields_from(fields, pad, i + 1)
    } else {
        Seq::empty()
    }
}

fn push_pretty_line(out: &mut Vec<String>, pad: &str, head: &str, body: String, comma: bool)
    ensures
        final(out).deep_view() == old(out).deep_view() + seq![
            pad@ + head@ + body@ + comma_str(comma),
        ],
{
    let mut line = pad.to_owned();
    line.append(head);
    line.append(body.as_str());
    if comma {
        line.append(",");
    }
    proof {
        assert(line@ =~= pad@ + head@ + body@ + comma_str(comma));
    }
    out.push(line);
    proof {
        assert(out.deep_view() =~= old(out).deep_view() + seq![
            pad@ + head@ + body@ + comma_str(comma),
        ]);
    }
}

/// Appends the indented lines of `value` to `out`, as `pretty_at`
/// describes.
pub fn pretty_push(value: &JsonValue, pad: &str, head: &str, comma: bool, out: &mut Vec<String>)
    ensures
        final(out).deep_view() == old(out).deep_view() + pretty_at(
            jview(*value),
            pad@,
            head@,
            comma,
        ),
    decreases *value,
{
    match value {
        JsonValue::Arr(items) => {
            proof {
                lemma_jview_items(items@);
            }
            let ghost ji = jview_items(items@);
            if items.len() == 0 {
                push_pretty_line(out, pad, head, "[]".to_owned(), comma);
            } else {
                push_pretty_line(out, pad, head, "[".to_owned(), false);
                let ghost opened = out.deep_view();
                proof {
                    assert(comma_str(false) =~= Seq::<char>::empty());
                    assert(pad@ + head@ + "["@ + Seq::<char>::empty() =~= pad@ + head@ + "["@);
                }
                let mut child_pad = pad.to_owned();
                child_pad.append("  ");
                let n = items.len();
                let mut i: usize = 0;
                while i < n
                    invariant
                        0 <= i <= n,
                        *value is Arr,
                        value->Arr_0 == *items,
                        n == items@.len(),
                        ji == jview_items(items@),
                        ji.len() == n,
                        forall|k: int| 0 <= k < n ==> ji[k] == jview(items@[k]),
                        child_pad@ == pad@ + "  "@,
                        out.deep_view() + pretty_items_from(ji, child_pad@, i as int) == opened
                            + pretty_items_from(ji, child_pad@, 0),
                    decreases n - i,
                {
                    proof {
                        assert(decreases_to!(*value => value->Arr_0@[i as int])) by {
                            assert(decreases_to!(*value => value->Arr_0));
                            assert(decreases_to!(value->Arr_0 => value->Arr_0@));
                            assert(decreases_to!(value->Arr_0@ => value->Arr_0@[i as int]));
                        }
                    }
                    let ghost pre = out.deep_view();
                    pretty_push(&items[i], child_pad.as_str(), "", i + 1 < n, out);
                    proof {
                        reveal_strlit("");
                        assert(""@ =~= Seq::<char>::empty());
                        let fl = pretty_at(ji[i as int], child_pad@, Seq::empty(), i + 1 < n);
                        let rest = pretty_items_from(ji, child_pad@, i + 1);
                        assert(pretty_items_from(ji, child_pad@, i as int) == fl + rest);
                        assert((pre + fl) + rest =~= pre + (fl + rest));
                    }
                    i = i + 1;
                }
                push_pretty_line(out, pad, "", "]".to_owned(), comma);
                proof {
                    reveal_strlit("");
                    assert(""@ =~= Seq::<char>::empty());
                    assert(pretty_items_from(ji, child_pad@, n as int) =~= Seq::<Seq<char>>::empty());
                    assert(pad@ + Seq::<char>::empty() + "]"@ + comma_str(comma) =~= pad@ + "]"@
                        + comma_str(comma));
                    assert(out.deep_view() =~= old(out).deep_view() + pretty_at(
                        jview(*value),
                        pad@,
                        head@,
                        comma,
                    ));
                }
            }
        },
        JsonValue::Obj(fields) => {
            proof {
                lemma_jview_fields(fields@);
            }
            let ghost jf = jview_fields(fields@);
            if fields.len() == 0 {
                push_pretty_line(out, pad, head, "{}".to_owned(), comma);
            } else {
                push_pretty_line(out, pad, head, "{".to_owned(), false);
                let ghost opened = out.deep_view();
                proof {
                    assert(comma_str(false) =~= Seq::<char>::empty());
                    assert(pad@ + head@ + "{"@ + Seq::<char>::empty() =~= pad@ + head@ + "{"@);
                }
                let mut child_pad = pad.to_owned();
                child_pad.append("  ");
                let n = fields.len();
                let mut i: usize = 0;
                while i < n
                    invariant
                        0 <= i <= n,
                        *value is Obj,
                        value->Obj_0 == *fields,
                        n == fields@.len(),
                        jf == jview_fields(fields@),
                        jf.len() == n,
                        forall|k: int| 0 <= k < n ==> jf[k] == (fields@[k].0@, jview(fields@[k].1)),
                        child_pad@ == pad@ + "  "@,
                        out.deep_view() + pretty_fields_from(jf, child_pad@, i as int) == opened
                            + pretty_fields_from(jf, child_pad@, 0),
                    decreases n - i,
                {
                    proof {
                        assert(decreases_to!(*value => value->Obj_0@[i as int].1)) by {
                            assert(decreases_to!(*value => value->Obj_0));
                            assert(decreases_to!(value->Obj_0 => value->Obj_0@));
                            assert(decreases_to!(value->Obj_0@ => value->Obj_0@[i as int]));
                            assert(decreases_to!(value->Obj_0@[i as int] => value->Obj_0@[i as int]
                                .1));
                        }
                    }
                    let mut key_head = String::new();
                    key_head.append("\"");
                    escape_push(fields[i].0.as_str(), &mut key_head);
                    key_head.append("\": ");
                    proof {
                        assert(key_head@ =~= "\""@ + escape_str_of(jf[i as int].0) + "\": "@);
                    }
                    let ghost pre = out.deep_view();
                    pretty_push(&fields[i].1, child_pad.as_str(), key_head.as_str(), i + 1 < n, out);
                    proof {
                        let fl = pretty_at(jf[i as int].1, child_pad@, key_head@, i + 1 < n);
                        let rest = pretty_fields_from(jf, child_pad@, i + 1);
                        assert(pretty_fields_from(jf, child_pad@, i as int) == fl + rest);
                        assert((pre + fl) + rest =~= pre + (fl + rest));
                    }
                    i = i + 1;
                }
                push_pretty_line(out, pad, "", "}".to_owned(), comma);
                proof {
                    reveal_strlit("");
                    assert(""@ =~= Seq::<char>::empty());
                    assert(pretty_fields_from(jf, child_pad@, n as int) =~= Seq::<
                        Seq<char>,
                    >::empty());
                    assert(pad@ + Seq::<char>::empty() + "}"@ + comma_str(comma) =~= pad@ + "}"@
                        + comma_str(comma));
                    assert(out.deep_view() =~= old(out).deep_view() + pretty_at(
                        jview(*value),
                        pad@,
                        head@,
                        comma,
                    ));
                }
            }
        },
        _ => {
            let body = to_compact(value);
            push_pretty_line(out, pad, head, body, comma);
        },
    }
}

/// The indented rendering of a whole document.
pub open spec fn pretty_json_lines(v: JsonView) -> Seq<Seq<char>> {
    pretty_at(v, Seq::empty(), Seq::empty(), false)
}

/// Renders `value` in the indented view, as `pretty_json_lines` describes.
pub fn json_lines_pretty(value: &JsonValue) -> (r: Vec<String>)
    ensures
        r.deep_view() == pretty_json_lines(jview(*value)),
{
    let mut out: Vec<String> = Vec::new();
    proof {
        reveal_strlit("");
        assert(""@ =~= Seq::<char>::empty());
        assert(out.deep_view() =~= Seq::<Seq<char>>::empty());
    }
    pretty_push(value, "", "", false, &mut out);
    proof {
        assert(Seq::<Seq<char>>::empty() + pretty_json_lines(jview(*value)) =~= pretty_json_lines(
            jview(*value),
        ));
    }
    out
}

} // verus!
