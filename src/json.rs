//! A small JSON document model and its encoding to bytes.
//!
//! Documents are encoded compactly: no whitespace between tokens, object members in the
//! order they are given, strings quoted and escaped by `serde_json`.
use vstd::prelude::*;

verus! {

/// `[`
pub const LEFT_BRACKET: u8 = 91;
/// `]`
pub const RIGHT_BRACKET: u8 = 93;
/// `{`
pub const LEFT_BRACE: u8 = 123;
/// `}`
pub const RIGHT_BRACE: u8 = 125;
/// `,`
pub const COMMA: u8 = 44;
/// `:`
pub const COLON: u8 = 58;

/// A JSON document, as a mathematical value.
pub enum Json {
    Null,
    Bool(bool),
    Number(nat),
    Str(Seq<char>),
    Array(Seq<Json>),
    Object(Seq<(Seq<char>, Json)>),
}

/// A JSON document that code can build and encode.
pub enum JsonValue {
    Null,
    Bool(bool),
    Number(u64),
    Str(String),
    Array(Vec<JsonValue>),
    Object(Vec<(String, JsonValue)>),
}

/// The document that `v` stands for.
pub open spec fn value_model(v: JsonValue) -> Json
    decreases v,
{
    match v {
        JsonValue::Null => Json::Null,
        JsonValue::Bool(b) => Json::Bool(b),
        JsonValue::Number(n) => Json::Number(n as nat),
        JsonValue::Str(s) => Json::Str(s@),
        JsonValue::Array(items) => Json::Array(items_model(items@)),
        JsonValue::Object(members) => Json::Object(members_model(members@)),
    }
}

/// The documents that a sequence of values stands for, in order.
pub open spec fn items_model(s: Seq<JsonValue>) -> Seq<Json>
    decreases s,
{
    if s.len() == 0 {
        Seq::empty()
    } else {
        items_model(s.subrange(0, s.len() - 1)).push(value_model(s.last()))
    }
}

/// The members that a sequence of key and value pairs stands for, in order.
pub open spec fn members_model(s: Seq<(String, JsonValue)>) -> Seq<(Seq<char>, Json)>
    decreases s,
{
    if s.len() == 0 {
        Seq::empty()
    } else {
        members_model(s.subrange(0, s.len() - 1)).push((s.last().0@, value_model(s.last().1)))
    }
}

/// The bytes `serde_json` writes for a JSON string holding `s`, quotes included.
pub uninterp spec fn json_string(s: Seq<char>) -> Seq<u8>;

/// The decimal digits of `n`, most significant first, without leading zeros.
pub open spec fn decimal(n: nat) -> Seq<u8>
    decreases n,
{
    if n < 10 {
        seq![(48 + n) as u8]
    } else {
        decimal(n / 10).push((48 + n % 10) as u8)
    }
}

/// The compact encoding of a document.
pub open spec fn json_text(j: Json) -> Seq<u8>
    decreases j,
{
    match j {
        Json::Null => seq![110u8, 117u8, 108u8, 108u8],
        Json::Bool(b) => if b {
            seq![116u8, 114u8, 117u8, 101u8]
        } else {
            seq![102u8, 97u8, 108u8, 115u8, 101u8]
        },
        Json::Number(n) => decimal(n),
        Json::Str(s) => json_string(s),
        Json::Array(items) => seq![LEFT_BRACKET] + items_text(items) + seq![RIGHT_BRACKET],
        Json::Object(members) => seq![LEFT_BRACE] + members_text(members) + seq![RIGHT_BRACE],
    }
}

/// The elements of an array, separated by commas.
pub open spec fn items_text(s: Seq<Json>) -> Seq<u8>
    decreases s,
{
    if s.len() == 0 {
        Seq::empty()
    } else {
        let sep = if s.len() > 1 {
            seq![COMMA]
        } else {
            Seq::empty()
        };
        items_text(s.subrange(0, s.len() - 1)) + sep + json_text(s.last())
    }
}

/// The members of an object, `"key":value`, separated by commas.
pub open spec fn members_text(s: Seq<(Seq<char>, Json)>) -> Seq<u8>
    decreases s,
{
    if s.len() == 0 {
        Seq::empty()
    } else {
        let sep = if s.len() > 1 {
            seq![COMMA]
        } else {
            Seq::empty()
        };
        members_text(s.subrange(0, s.len() - 1)) + sep + json_string(s.last().0) + seq![COLON]
            + json_text(s.last().1)
    }
}

/// The number of values in a document, itself included.
pub open spec fn json_size(j: Json) -> nat
    decreases j,
{
    match j {
        Json::Array(items) => 1 + items_size(items),
        Json::Object(members) => 1 + members_size(members),
        _ => 1,
    }
}

/// The number of values in a sequence of documents.
pub open spec fn items_size(s: Seq<Json>) -> nat
    decreases s,
{
    if s.len() == 0 {
        0
    } else {
        items_size(s.subrange(0, s.len() - 1)) + json_size(s.last())
    }
}

/// The number of values in the members of an object.
pub open spec fn members_size(s: Seq<(Seq<char>, Json)>) -> nat
    decreases s,
{
    if s.len() == 0 {
        0
    } else {
        members_size(s.subrange(0, s.len() - 1)) + json_size(s.last().1)
    }
}

proof fn lemma_items_size_bound(s: Seq<Json>, i: int)
    requires
        0 <= i < s.len(),
    ensures
        json_size(s[i]) <= items_size(s),
    decreases s.len(),
{
    if i < s.len() - 1 {
        lemma_items_size_bound(s.subrange(0, s.len() - 1), i);
    }
}

proof fn lemma_members_size_bound(s: Seq<(Seq<char>, Json)>, i: int)
    requires
        0 <= i < s.len(),
    ensures
        json_size(s[i].1) <= members_size(s),
    decreases s.len(),
{
    if i < s.len() - 1 {
        lemma_members_size_bound(s.subrange(0, s.len() - 1), i);
    }
}

#[verifier::external_type_specification]
#[verifier::external_body]
pub struct ExJsonError(serde_json::Error);

/// Relies on `serde_json::to_vec` on a string slice: it serializes the string into a
/// `Vec<u8>` with `format_escaped_str`, whose only source of failure is the writer, and
/// writing into a `Vec` does not fail. The bytes are the JSON string literal for `s`,
/// quotes included, with the escapes that `serde_json` writes.
#[verifier::external_body]
fn quote_string(s: &str) -> (r: Result<Vec<u8>, serde_json::Error>)
    ensures
        r is Ok,
        r matches Ok(b) ==> b@ == json_string(s@),
{
    serde_json::to_vec(s)
}

/// Appends the JSON string literal for `s` to `out`.
pub fn write_string(s: &str, out: &mut Vec<u8>)
    ensures
        final(out)@ == old(out)@ + json_string(s@),
{
    if let Ok(mut bytes) = quote_string(s) {
        out.append(&mut bytes);
    }
}

/// Appends the decimal digits of `n` to `out`.
pub fn write_decimal(n: u64, out: &mut Vec<u8>)
    ensures
        final(out)@ == old(out)@ + decimal(n as nat),
    decreases n,
{
    if n >= 10 {
        write_decimal(n / 10, out);
    }
    let digit: u8 = (n % 10) as u8;
    out.push(48u8 + digit);
    assert(final(out)@ =~= old(out)@ + decimal(n as nat));
}

proof fn lemma_items_model_prefix(s: Seq<JsonValue>, i: int)
    requires
        0 <= i < s.len(),
    ensures
        items_model(s.subrange(0, i + 1)) == items_model(s.subrange(0, i)).push(
            value_model(s[i]),
        ),
{
    assert(s.subrange(0, i + 1).subrange(0, i) =~= s.subrange(0, i));
}

proof fn lemma_members_model_prefix(s: Seq<(String, JsonValue)>, i: int)
    requires
        0 <= i < s.len(),
    ensures
        members_model(s.subrange(0, i + 1)) == members_model(s.subrange(0, i)).push(
            (s[i].0@, value_model(s[i].1)),
        ),
{
    assert(s.subrange(0, i + 1).subrange(0, i) =~= s.subrange(0, i));
}

proof fn lemma_items_model_len(s: Seq<JsonValue>)
    ensures
        items_model(s).len() == s.len(),
    decreases s.len(),
{
    if s.len() > 0 {
        lemma_items_model_len(s.subrange(0, s.len() - 1));
    }
}

proof fn lemma_members_model_len(s: Seq<(String, JsonValue)>)
    ensures
        members_model(s).len() == s.len(),
    decreases s.len(),
{
    if s.len() > 0 {
        lemma_members_model_len(s.subrange(0, s.len() - 1));
    }
}

proof fn lemma_items_text_push(s: Seq<Json>, x: Json)
    ensures
        items_text(s.push(x)) == items_text(s) + (if s.len() > 0 {
            seq![COMMA]
        } else {
            Seq::empty()
        }) + json_text(x),
{
    assert(s.push(x).subrange(0, s.len() as int) =~= s);
}

proof fn lemma_members_text_push(s: Seq<(Seq<char>, Json)>, key: Seq<char>, x: Json)
    ensures
        members_text(s.push((key, x))) == members_text(s) + (if s.len() > 0 {
            seq![COMMA]
        } else {
            Seq::empty()
        }) + json_string(key) + seq![COLON] + json_text(x),
{
    assert(s.push((key, x)).subrange(0, s.len() as int) =~= s);
}

proof fn lemma_items_model_index(s: Seq<JsonValue>, i: int)
    requires
        0 <= i < s.len(),
    ensures
        items_model(s).len() == s.len(),
        items_model(s)[i] == value_model(s[i]),
    decreases s.len(),
{
    lemma_items_model_len(s);
    if i < s.len() - 1 {
        lemma_items_model_index(s.subrange(0, s.len() - 1), i);
    }
}

proof fn lemma_members_model_index(s: Seq<(String, JsonValue)>, i: int)
    requires
        0 <= i < s.len(),
    ensures
        members_model(s).len() == s.len(),
        members_model(s)[i] == (s[i].0@, value_model(s[i].1)),
    decreases s.len(),
{
    lemma_members_model_len(s);
    if i < s.len() - 1 {
        lemma_members_model_index(s.subrange(0, s.len() - 1), i);
    }
}

/// Appends the compact encoding of `v` to `out`.
pub fn write_value(v: &JsonValue, out: &mut Vec<u8>)
    ensures
        final(out)@ == old(out)@ + json_text(value_model(*v)),
    decreases json_size(value_model(*v)),
{
    match v {
        JsonValue::Null => {
            out.push(110u8);
            out.push(117u8);
            out.push(108u8);
            out.push(108u8);
            assert(final(out)@ =~= old(out)@ + json_text(value_model(*v)));
        },
        JsonValue::Bool(b) => {
            if *b {
                out.push(116u8);
                out.push(114u8);
                out.push(117u8);
                out.push(101u8);
            } else {
                out.push(102u8);
                out.push(97u8);
                out.push(108u8);
                out.push(115u8);
                out.push(101u8);
            }
            assert(final(out)@ =~= old(out)@ + json_text(value_model(*v)));
        },
        JsonValue::Number(n) => {
            write_decimal(*n, out);
        },
        JsonValue::Str(s) => {
            write_string(s.as_str(), out);
        },
        JsonValue::Array(items) => {
            let ghost start = out@;
            out.push(LEFT_BRACKET);
            let mut i: usize = 0;
            while i < items.len()
                invariant
                    i <= items.len(),
                    *v == JsonValue::Array(*items),
                    out@ == start + seq![LEFT_BRACKET] + items_text(
                        items_model(items@.subrange(0, i as int)),
                    ),
                decreases items.len() - i,
            {
                proof {
                    lemma_items_model_prefix(items@, i as int);
                    lemma_items_model_len(items@.subrange(0, i as int));
                    lemma_items_text_push(
                        items_model(items@.subrange(0, i as int)),
                        value_model(items@[i as int]),
                    );
                }
                if i > 0 {
                    out.push(COMMA);
                }
                let ghost before = out@;
                proof {
                    lemma_items_model_index(items@, i as int);
                    lemma_items_size_bound(items_model(items@), i as int);
                }
                write_value(&items[i], out);
                assert(out@ == start + seq![LEFT_BRACKET] + items_text(
                    items_model(items@.subrange(0, i as int + 1)),
                )) by {
                    assert(out@ == before + json_text(value_model(items@[i as int])));
                };
                i = i + 1;
            }
            out.push(RIGHT_BRACKET);
            assert(items@.subrange(0, items@.len() as int) =~= items@);
            assert(out@ =~= start + json_text(value_model(*v)));
        },
        JsonValue::Object(members) => {
            let ghost start = out@;
            out.push(LEFT_BRACE);
            let mut i: usize = 0;
            while i < members.len()
                invariant
                    i <= members.len(),
                    *v == JsonValue::Object(*members),
                    out@ == start + seq![LEFT_BRACE] + members_text(
                        members_model(members@.subrange(0, i as int)),
                    ),
                decreases members.len() - i,
            {
                proof {
                    lemma_members_model_prefix(members@, i as int);
                    lemma_members_model_len(members@.subrange(0, i as int));
                    lemma_members_text_push(
                        members_model(members@.subrange(0, i as int)),
                        members@[i as int].0@,
                        value_model(members@[i as int].1),
                    );
                }
                if i > 0 {
                    out.push(COMMA);
                }
                let ghost before = out@;
                write_string(members[i].0.as_str(), out);
                out.push(COLON);
                let ghost middle = out@;
                proof {
                    lemma_members_model_index(members@, i as int);
                    lemma_members_size_bound(members_model(members@), i as int);
                }
                write_value(&members[i].1, out);
                assert(out@ == start + seq![LEFT_BRACE] + members_text(
                    members_model(members@.subrange(0, i as int + 1)),
                )) by {
                    assert(out@ == middle + json_text(value_model(members@[i as int].1)));
                };
                i = i + 1;
            }
            out.push(RIGHT_BRACE);
            assert(members@.subrange(0, members@.len() as int) =~= members@);
            assert(out@ =~= start + json_text(value_model(*v)));
        },
    }
}

} // verus!
