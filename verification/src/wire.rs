//! Wire framing: serialize a request envelope to the JSON text the remote
//! reads, with nothing outside this crate deciding what the bytes say.
//!
//! String content is escaped as JSON asks: quote and backslash get a
//! backslash, the named control characters their short forms, and every
//! other control character a `\u00..` form.

use vstd::prelude::*;
use vstd::string::{StrSliceExecFns, StringExecFns};

use crate::codec::Envelope;
use crate::error::{i64_decimal, spec_idecimal, spec_udecimal, u64_decimal};
use crate::value::Value;

verus! {

pub open spec fn spec_hex_digit(d: nat) -> char {
    if d == 0 {
        '0'
    } else if d == 1 {
        '1'
    } else if d == 2 {
        '2'
    } else if d == 3 {
        '3'
    } else if d == 4 {
        '4'
    } else if d == 5 {
        '5'
    } else if d == 6 {
        '6'
    } else if d == 7 {
        '7'
    } else if d == 8 {
        '8'
    } else if d == 9 {
        '9'
    } else if d == 10 {
        'a'
    } else if d == 11 {
        'b'
    } else if d == 12 {
        'c'
    } else if d == 13 {
        'd'
    } else if d == 14 {
        'e'
    } else {
        'f'
    }
}

/// What one character contributes to a JSON string literal's body.
pub open spec fn spec_escape_char(c: char) -> Seq<char> {
    if c == '"' {
        seq!['\\', '"']
    } else if c == '\\' {
        seq!['\\', '\\']
    } else if c == '\n' {
        seq!['\\', 'n']
    } else if c == '\r' {
        seq!['\\', 'r']
    } else if c == '\t' {
        seq!['\\', 't']
    } else if (c as nat) < 32 {
        seq!['\\', 'u', '0', '0', spec_hex_digit((c as nat) / 16), spec_hex_digit((c as nat) % 16)]
    } else {
        seq![c]
    }
}

/// The body of a JSON string literal for this text.
pub open spec fn spec_escape(s: Seq<char>) -> Seq<char>
    decreases s.len(),
{
    if s.len() == 0 {
        Seq::empty()
    } else {
        spec_escape_char(s[0]) + spec_escape(s.drop_first())
    }
}

proof fn lemma_escape_push(s: Seq<char>, c: char)
    ensures
        spec_escape(s.push(c)) == spec_escape(s) + spec_escape_char(c),
    decreases s.len(),
{
    reveal_with_fuel(spec_escape, 3);
    let whole = s.push(c);
    if s.len() == 0 {
        assert(whole.drop_first() =~= Seq::<char>::empty());
        assert(spec_escape(whole) =~= spec_escape(s) + spec_escape_char(c));
    } else {
        assert(whole.drop_first() =~= s.drop_first().push(c));
        lemma_escape_push(s.drop_first(), c);
        assert(spec_escape(whole) =~= spec_escape(s) + spec_escape_char(c));
    }
}

/// The JSON text of a value. Numeric literals carried as text are written
/// verbatim; the conversion layer is responsible for their shape.
pub open spec fn json_text(v: Value) -> Seq<char>
    decreases v,
{
    match v {
        Value::Null => "null"@,
        Value::Bool(b) => if b {
            "true"@
        } else {
            "false"@
        },
        Value::UInt(u) => spec_udecimal(u as nat),
        Value::Int(i) => spec_idecimal(i as int),
        Value::Decimal(t) => t@,
        Value::Str(s) => seq!['"'] + spec_escape(s@) + seq!['"'],
        Value::Arr(items) => seq!['['] + json_items(items@) + seq![']'],
        Value::Obj(entries) => seq!['{'] + json_entries(entries@) + seq!['}'],
    }
}

/// The comma-separated texts of an array's items.
pub open spec fn json_items(items: Seq<Value>) -> Seq<char>
    decreases items, 1int,
{
    if items.len() == 0 {
        Seq::empty()
    } else {
        json_text(items[0]) + json_more_items(items.drop_first())
    }
}

pub open spec fn json_more_items(items: Seq<Value>) -> Seq<char>
    decreases items, 2int,
{
    if items.len() == 0 {
        Seq::empty()
    } else {
        seq![','] + json_text(items[0]) + json_more_items(items.drop_first())
    }
}

/// The text of one object member: quoted key, colon, value.
pub open spec fn json_entry(e: (String, Value)) -> Seq<char>
    decreases e, 0int,
{
    seq!['"'] + spec_escape(e.0@) + seq!['"', ':'] + json_text(e.1)
}

/// The comma-separated texts of an object's members.
pub open spec fn json_entries(entries: Seq<(String, Value)>) -> Seq<char>
    decreases entries, 1int,
{
    if entries.len() == 0 {
        Seq::empty()
    } else {
        json_entry(entries[0]) + json_more_entries(entries.drop_first())
    }
}

pub open spec fn json_more_entries(entries: Seq<(String, Value)>) -> Seq<char>
    decreases entries, 2int,
{
    if entries.len() == 0 {
        Seq::empty()
    } else {
        seq![','] + json_entry(entries[0]) + json_more_entries(entries.drop_first())
    }
}

proof fn lemma_items_push(items: Seq<Value>, x: Value)
    ensures
        json_items(items.push(x)) == if items.len() == 0 {
            json_text(x)
        } else {
            json_items(items) + seq![','] + json_text(x)
        },
    decreases items.len(),
{
    reveal_with_fuel(json_items, 2);
    reveal_with_fuel(json_more_items, 3);
    let whole = items.push(x);
    if items.len() == 0 {
        assert(whole.drop_first() =~= Seq::<Value>::empty());
        assert(json_items(whole) =~= json_text(x));
    } else {
        assert(whole.drop_first() =~= items.drop_first().push(x));
        lemma_more_items_push(items.drop_first(), x);
        assert(json_items(whole) =~= json_items(items) + seq![','] + json_text(x));
    }
}

proof fn lemma_more_items_push(items: Seq<Value>, x: Value)
    ensures
        json_more_items(items.push(x)) == json_more_items(items) + seq![','] + json_text(x),
    decreases items.len(),
{
    reveal_with_fuel(json_more_items, 3);
    let whole = items.push(x);
    if items.len() == 0 {
        assert(whole.drop_first() =~= Seq::<Value>::empty());
        assert(json_more_items(whole) =~= json_more_items(items) + seq![','] + json_text(x));
    } else {
        assert(whole.drop_first() =~= items.drop_first().push(x));
        lemma_more_items_push(items.drop_first(), x);
        assert(json_more_items(whole) =~= json_more_items(items) + seq![','] + json_text(x));
    }
}

proof fn lemma_entries_text_push(entries: Seq<(String, Value)>, x: (String, Value))
    ensures
        json_entries(entries.push(x)) == if entries.len() == 0 {
            json_entry(x)
        } else {
            json_entries(entries) + seq![','] + json_entry(x)
        },
    decreases entries.len(),
{
    reveal_with_fuel(json_entries, 2);
    reveal_with_fuel(json_more_entries, 3);
    let whole = entries.push(x);
    if entries.len() == 0 {
        assert(whole.drop_first() =~= Seq::<(String, Value)>::empty());
        assert(json_entries(whole) =~= json_entry(x));
    } else {
        assert(whole.drop_first() =~= entries.drop_first().push(x));
        lemma_more_entries_push(entries.drop_first(), x);
        assert(json_entries(whole) =~= json_entries(entries) + seq![','] + json_entry(x));
    }
}

proof fn lemma_more_entries_push(entries: Seq<(String, Value)>, x: (String, Value))
    ensures
        json_more_entries(entries.push(x)) == json_more_entries(entries) + seq![','] + json_entry(
            x,
        ),
    decreases entries.len(),
{
    reveal_with_fuel(json_more_entries, 3);
    let whole = entries.push(x);
    if entries.len() == 0 {
        assert(whole.drop_first() =~= Seq::<(String, Value)>::empty());
        assert(json_more_entries(whole) =~= json_more_entries(entries) + seq![','] + json_entry(
            x,
        ));
    } else {
        assert(whole.drop_first() =~= entries.drop_first().push(x));
        lemma_more_entries_push(entries.drop_first(), x);
        assert(json_more_entries(whole) =~= json_more_entries(entries) + seq![','] + json_entry(
            x,
        ));
    }
}

/// Relies on `String::push`: appends exactly the one character.
#[verifier::external_body]
fn push_char(out: &mut String, c: char)
    ensures
        final(out)@ == old(out)@.push(c),
{
    out.push(c);
}

fn hex_digit_string(d: u32) -> (s: String)
    requires
        d < 16,
    ensures
        s@ == seq![spec_hex_digit(d as nat)],
{
    let s = if d == 0 {
        "0"
    } else if d == 1 {
        "1"
    } else if d == 2 {
        "2"
    } else if d == 3 {
        "3"
    } else if d == 4 {
        "4"
    } else if d == 5 {
        "5"
    } else if d == 6 {
        "6"
    } else if d == 7 {
        "7"
    } else if d == 8 {
        "8"
    } else if d == 9 {
        "9"
    } else if d == 10 {
        "a"
    } else if d == 11 {
        "b"
    } else if d == 12 {
        "c"
    } else if d == 13 {
        "d"
    } else if d == 14 {
        "e"
    } else {
        "f"
    };
    proof {
        reveal_strlit("0");
        reveal_strlit("1");
        reveal_strlit("2");
        reveal_strlit("3");
        reveal_strlit("4");
        reveal_strlit("5");
        reveal_strlit("6");
        reveal_strlit("7");
        reveal_strlit("8");
        reveal_strlit("9");
        reveal_strlit("a");
        reveal_strlit("b");
        reveal_strlit("c");
        reveal_strlit("d");
        reveal_strlit("e");
        reveal_strlit("f");
        assert(s@ =~= seq![spec_hex_digit(d as nat)]);
    }
    s.to_owned()
}

/// Append one character's escaped form.
fn write_escaped_char(c: char, out: &mut String)
    ensures
        final(out)@ == old(out)@ + spec_escape_char(c),
{
    if c == '"' {
        out.append("\\\"");
        proof {
            reveal_strlit("\\\"");
            assert(out@ =~= old(out)@ + spec_escape_char(c));
        }
    } else if c == '\\' {
        out.append("\\\\");
        proof {
            reveal_strlit("\\\\");
            assert(out@ =~= old(out)@ + spec_escape_char(c));
        }
    } else if c == '\n' {
        out.append("\\n");
        proof {
            reveal_strlit("\\n");
            assert(out@ =~= old(out)@ + spec_escape_char(c));
        }
    } else if c == '\r' {
        out.append("\\r");
        proof {
            reveal_strlit("\\r");
            assert(out@ =~= old(out)@ + spec_escape_char(c));
        }
    } else if c == '\t' {
        out.append("\\t");
        proof {
            reveal_strlit("\\t");
            assert(out@ =~= old(out)@ + spec_escape_char(c));
        }
    } else if (c as u32) < 32 {
        let code = c as u32;
        out.append("\\u00");
        let high = hex_digit_string(code / 16);
        out.append(high.as_str());
        let low = hex_digit_string(code % 16);
        out.append(low.as_str());
        proof {
            reveal_strlit("\\u00");
            assert(out@ =~= old(out)@ + spec_escape_char(c));
        }
    } else {
        push_char(out, c);
        proof {
            assert(out@ =~= old(out)@ + spec_escape_char(c));
        }
    }
}

/// Append a string's escaped body.
#[verifier::loop_isolation(false)]
fn write_escaped(s: &str, out: &mut String)
    ensures
        final(out)@ == old(out)@ + spec_escape(s@),
{
    let ghost base = out@;
    let n = s.unicode_len();
    for i in 0..n
        invariant
            n == s@.len(),
            out@ == base + spec_escape(s@.subrange(0, i as int)),
    {
        proof {
            assert(s@.subrange(0, i + 1) =~= s@.subrange(0, i as int).push(s@[i as int]));
            lemma_escape_push(s@.subrange(0, i as int), s@[i as int]);
        }
        let c = s.get_char(i);
        write_escaped_char(c, out);
        proof {
            assert(out@ =~= base + spec_escape(s@.subrange(0, i + 1)));
        }
    }
    proof {
        assert(s@.subrange(0, s@.len() as int) =~= s@);
    }
}

/// Append a quoted, escaped JSON string literal.
fn write_string_literal(s: &str, out: &mut String)
    ensures
        final(out)@ == old(out)@ + seq!['"'] + spec_escape(s@) + seq!['"'],
{
    push_char(out, '"');
    write_escaped(s, out);
    push_char(out, '"');
    proof {
        assert(out@ =~= old(out)@ + seq!['"'] + spec_escape(s@) + seq!['"']);
    }
}

/// Append a value's JSON text.
#[verifier::loop_isolation(false)]
fn write_value(v: &Value, out: &mut String)
    ensures
        final(out)@ == old(out)@ + json_text(*v),
    decreases *v, 1int,
{
    broadcast use vstd::std_specs::vec::group_vec_axioms;

    match v {
        Value::Null => {
            out.append("null");
        },
        Value::Bool(b) => {
            if *b {
                out.append("true");
            } else {
                out.append("false");
            }
        },
        Value::UInt(u) => {
            let text = u64_decimal(*u);
            out.append(text.as_str());
        },
        Value::Int(i) => {
            let text = i64_decimal(*i);
            out.append(text.as_str());
        },
        Value::Decimal(t) => {
            out.append(t.as_str());
        },
        Value::Str(s) => {
            write_string_literal(s.as_str(), out);
        },
        Value::Arr(items) => {
            let ghost pre = out@;
            write_array(items, out);
            proof {
                assert(out@ =~= pre + json_text(*v));
            }
        },
        Value::Obj(entries) => {
            let ghost pre = out@;
            write_object(entries, out);
            proof {
                assert(out@ =~= pre + json_text(*v));
            }
        },
    }
}

/// Append an array's JSON text.
#[verifier::loop_isolation(false)]
fn write_array(items: &Vec<Value>, out: &mut String)
    ensures
        final(out)@ == old(out)@ + seq!['['] + json_items(items@) + seq![']'],
    decreases items@, 0int,
{
    broadcast use vstd::std_specs::vec::group_vec_axioms;

    push_char(out, '[');
    let ghost base = out@;
    let n = items.len();
    for i in 0..n
        invariant
            n == items.len(),
            base == old(out)@.push('['),
            out@ == base + json_items(items@.subrange(0, i as int)),
    {
        proof {
            assert(items@.subrange(0, i + 1) =~= items@.subrange(0, i as int).push(
                items@[i as int],
            ));
            lemma_items_push(items@.subrange(0, i as int), items@[i as int]);
        }
        if i > 0 {
            push_char(out, ',');
        }
        proof {
            assert(decreases_to!(items@ => items@[i as int]));
        }
        write_value(&items[i], out);
        proof {
            assert(out@ =~= base + json_items(items@.subrange(0, i + 1)));
        }
    }
    push_char(out, ']');
    proof {
        assert(items@.subrange(0, n as int) =~= items@);
        assert(out@ =~= old(out)@ + seq!['['] + json_items(items@) + seq![']']);
    }
}

/// Append an object's JSON text.
#[verifier::loop_isolation(false)]
fn write_object(entries: &Vec<(String, Value)>, out: &mut String)
    ensures
        final(out)@ == old(out)@ + seq!['{'] + json_entries(entries@) + seq!['}'],
    decreases entries@, 0int,
{
    broadcast use vstd::std_specs::vec::group_vec_axioms;

    push_char(out, '{');
    let ghost base = out@;
    let n = entries.len();
    for i in 0..n
        invariant
            n == entries.len(),
            base == old(out)@.push('{'),
            out@ == base + json_entries(entries@.subrange(0, i as int)),
    {
        proof {
            assert(entries@.subrange(0, i + 1) =~= entries@.subrange(0, i as int).push(
                entries@[i as int],
            ));
            lemma_entries_text_push(entries@.subrange(0, i as int), entries@[i as int]);
        }
        if i > 0 {
            push_char(out, ',');
        }
        let pair = &entries[i];
        write_string_literal(pair.0.as_str(), out);
        push_char(out, ':');
        proof {
            assert(decreases_to!(entries@ => entries@[i as int].1));
        }
        write_value(&pair.1, out);
        proof {
            assert(out@ =~= base + json_entries(entries@.subrange(0, i + 1)));
        }
    }
    push_char(out, '}');
    proof {
        assert(entries@.subrange(0, n as int) =~= entries@);
        assert(out@ =~= old(out)@ + seq!['{'] + json_entries(entries@) + seq!['}']);
    }
}

/// The JSON text of one value.
pub fn value_json(v: &Value) -> (r: String)
    ensures
        r@ == json_text(*v),
{
    let mut out = String::new();
    write_value(v, &mut out);
    out
}

/// The JSON text of a request envelope:
/// `{"jsonrpc": <tag>, "method": <name>, "id": <number>, "params": <value>}`,
/// the `params` member absent when the request takes none.
pub open spec fn spec_envelope_text(e: Envelope) -> Seq<char> {
    "{\"jsonrpc\":"@ + json_text(Value::Str(e.jsonrpc)) + ",\"method\":"@ + json_text(
        Value::Str(e.method),
    ) + ",\"id\":"@ + spec_udecimal(e.id as nat) + (match e.params {
        None => Seq::<char>::empty(),
        Some(p) => ",\"params\":"@ + json_text(p),
    }) + seq!['}']
}

/// The JSON text of a request envelope.
pub fn envelope_json(e: &Envelope) -> (r: String)
    ensures
        r@ == spec_envelope_text(*e),
{
    let mut out = String::new();
    out.append("{\"jsonrpc\":");
    write_string_literal(e.jsonrpc.as_str(), &mut out);
    out.append(",\"method\":");
    write_string_literal(e.method.as_str(), &mut out);
    out.append(",\"id\":");
    let id_text = u64_decimal(e.id);
    out.append(id_text.as_str());
    match &e.params {
        None => {},
        Some(p) => {
            out.append(",\"params\":");
            write_value(p, &mut out);
        },
    }
    push_char(&mut out, '}');
    proof {
        assert(out@ =~= spec_envelope_text(*e));
    }
    out
}

/// The wire bytes of a request envelope: its JSON text, UTF-8 encoded.
pub fn envelope_wire_bytes(e: &Envelope) -> (r: Vec<u8>)
    ensures
        r@ == vstd::utf8::encode_utf8(spec_envelope_text(*e)),
{
    let text = envelope_json(e);
    text.as_str().as_bytes_vec()
}

} // verus!
