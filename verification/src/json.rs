//! Canonical JSON: compact text with recursively sorted object keys, and its
//! SHA-256 digest.

use serde_json::Number;
use serde_json::Value;
use sha2::Digest;
use sha2::Sha256;
use vstd::prelude::*;
use vstd::string::*;

use crate::error;
use crate::error::{Fault, StoreError};
use crate::text;
use crate::text::{characters, join2, same_text, text_precedes};

verus! {

#[verifier::external_type_specification]
#[verifier::external_body]
pub struct ExJsonValue(serde_json::Value);

#[verifier::external_type_specification]
#[verifier::external_body]
pub struct ExJsonNumber(serde_json::Number);

/// A JSON value. The members of an object stand in the order in which the
/// object hands them out.
pub enum JsonTree {
    Null,
    Bool(bool),
    Natural(nat),
    Negative(int),
    Float(Number),
    Text(Seq<char>),
    Array(Seq<JsonTree>),
    Object(Seq<(Seq<char>, JsonTree)>),
}

enum JsonValue {
    Null,
    Bool(bool),
    Natural(u64),
    Negative(i64),
    Float(Number),
    Text(String),
    Array(Vec<JsonValue>),
    Object(Vec<(String, JsonValue)>),
}

spec fn tree(value: JsonValue) -> JsonTree
    decreases value,
{
    match value {
        JsonValue::Null => JsonTree::Null,
        JsonValue::Bool(b) => JsonTree::Bool(b),
        JsonValue::Natural(n) => JsonTree::Natural(n as nat),
        JsonValue::Negative(n) => JsonTree::Negative(n as int),
        JsonValue::Float(n) => JsonTree::Float(n),
        JsonValue::Text(text) => JsonTree::Text(text@),
        JsonValue::Array(items) => JsonTree::Array(
            Seq::new(
                items@.len(),
                |i: int|
                    if 0 <= i < items@.len() {
                        tree(items@[i])
                    } else {
                        JsonTree::Null
                    },
            ),
        ),
        JsonValue::Object(entries) => JsonTree::Object(
            Seq::new(
                entries@.len(),
                |i: int|
                    if 0 <= i < entries@.len() {
                        (entries@[i].0@, tree(entries@[i].1))
                    } else {
                        (Seq::empty(), JsonTree::Null)
                    },
            ),
        ),
    }
}

/// What a `serde_json::Value` holds.
pub uninterp spec fn value_tree(value: Value) -> JsonTree;

/// What `serde_json::from_str` reads from a text, or how it describes why the
/// text is not JSON.
pub uninterp spec fn parsed_json(text: Seq<char>) -> Result<JsonTree, Seq<char>>;

/// What `serde_json::to_string` writes for a `serde_json::Value` that holds this.
pub uninterp spec fn json_text(tree: JsonTree) -> Seq<char>;

/// What `sha2::Sha256::digest` makes of a sequence of bytes.
pub uninterp spec fn sha256_digest(bytes: Seq<u8>) -> Seq<u8>;

/// The number of members in front of the first whose key does not precede
/// `key`.
pub open spec fn position(entries: Seq<(Seq<char>, JsonTree)>, key: Seq<char>) -> nat
    decreases entries.len(),
{
    if entries.len() == 0 || !text::precedes(entries[0].0, key) {
        0
    } else {
        1 + position(entries.drop_first(), key)
    }
}

/// The members with `key` added in its place, or its value replaced.
pub open spec fn put(
    entries: Seq<(Seq<char>, JsonTree)>,
    key: Seq<char>,
    value: JsonTree,
) -> Seq<(Seq<char>, JsonTree)> {
    let at = position(entries, key) as int;
    if at < entries.len() && entries[at].0 == key {
        entries.update(at, (key, value))
    } else {
        entries.insert(at, (key, value))
    }
}

/// The members in the order of their keys; of equal keys the last one stays.
pub open spec fn sorted_entries(entries: Seq<(Seq<char>, JsonTree)>) -> Seq<(Seq<char>, JsonTree)>
    decreases entries.len(),
{
    if entries.len() == 0 {
        Seq::empty()
    } else {
        put(sorted_entries(entries.drop_last()), entries.last().0, entries.last().1)
    }
}

/// The value with the members of every object, at every depth, in the order of
/// their keys.
pub open spec fn canonical(value: JsonTree) -> JsonTree
    decreases value,
{
    match value {
        JsonTree::Array(items) => JsonTree::Array(canonical_items(items)),
        JsonTree::Object(entries) => JsonTree::Object(sorted_entries(canonical_entries(entries))),
        _ => value,
    }
}

/// The canonical forms of the items of an array.
pub open spec fn canonical_items(items: Seq<JsonTree>) -> Seq<JsonTree>
    decreases items,
{
    Seq::new(
        items.len(),
        |i: int|
            if 0 <= i < items.len() {
                canonical(items[i])
            } else {
                JsonTree::Null
            },
    )
}

/// The members of an object, each value in canonical form.
pub open spec fn canonical_entries(entries: Seq<(Seq<char>, JsonTree)>) -> Seq<
    (Seq<char>, JsonTree),
>
    decreases entries,
{
    Seq::new(
        entries.len(),
        |i: int|
            if 0 <= i < entries.len() {
                (entries[i].0, canonical(entries[i].1))
            } else {
                (Seq::empty(), JsonTree::Null)
            },
    )
}

/// The value nests at most `depth` arrays and objects.
pub open spec fn nested_within(value: JsonTree, depth: nat) -> bool
    decreases value,
{
    match value {
        JsonTree::Array(items) => depth > 0 && forall|i: int|
            0 <= i < items.len() ==> nested_within(#[trigger] items[i], (depth - 1) as nat),
        JsonTree::Object(entries) => depth > 0 && forall|i: int|
            0 <= i < entries.len() ==> nested_within(
                (#[trigger] entries[i]).1,
                (depth - 1) as nat,
            ),
        _ => true,
    }
}

/// The value holds no number with a fraction or an exponent.
pub open spec fn integral(value: JsonTree) -> bool
    decreases value,
{
    match value {
        JsonTree::Float(_) => false,
        JsonTree::Array(items) => forall|i: int|
            0 <= i < items.len() ==> integral(#[trigger] items[i]),
        JsonTree::Object(entries) => forall|i: int|
            0 <= i < entries.len() ==> integral((#[trigger] entries[i]).1),
        _ => true,
    }
}

/// Where a reader of a JSON text stands: outside of every string, inside of one,
/// or inside of one behind a backslash.
pub enum Standing {
    Outside,
    Inside,
    Escaped,
}

/// Where a reader stands at the end of a text.
pub open spec fn standing(text: Seq<char>) -> Standing
    decreases text.len(),
{
    if text.len() == 0 {
        Standing::Outside
    } else {
        match standing(text.drop_last()) {
            Standing::Outside => if text.last() == '"' {
                Standing::Inside
            } else {
                Standing::Outside
            },
            Standing::Inside => if text.last() == '"' {
                Standing::Outside
            } else if text.last() == '\\' {
                Standing::Escaped
            } else {
                Standing::Inside
            },
            Standing::Escaped => Standing::Inside,
        }
    }
}

/// No white space stands in the text outside of strings.
pub open spec fn compact(text: Seq<char>) -> bool {
    forall|i: int|
        0 <= i < text.len() && standing(#[trigger] text.take(i)) is Outside
            ==> !text::white_space(text[i])
}

/// The depth to which `serde_json::from_str` follows nested arrays and objects.
pub const NESTING_LIMIT: u64 = 127;

/// The value is the canonical form of something that a `serde_json::Value`
/// holds.
pub open spec fn held_in_order(value: JsonTree) -> bool {
    exists|source: Value| #[trigger] canonical(value_tree(source)) == value
}

/// Takes a `serde_json::Value` apart. Nothing is lost: an integer goes to the
/// variant that `Number::as_u64` or `Number::as_i64` finds, any other number is
/// carried along, and the members of an object come in the order in which
/// `serde_json::Map` hands them out.
#[verifier::external_body]
fn json_from_value(value: Value) -> (json: JsonValue)
    ensures
        tree(json) == value_tree(value),
{
    match value {
        Value::Null => JsonValue::Null,
        Value::Bool(flag) => JsonValue::Bool(flag),
        Value::Number(number) => match (number.as_u64(), number.as_i64()) {
            (Some(natural), _) => JsonValue::Natural(natural),
            (None, Some(negative)) => JsonValue::Negative(negative),
            (None, None) => JsonValue::Float(number),
        },
        Value::String(text) => JsonValue::Text(text),
        Value::Array(items) => JsonValue::Array(items.into_iter().map(json_from_value).collect()),
        Value::Object(map) => JsonValue::Object(
            map.into_iter().map(|entry| (entry.0, json_from_value(entry.1))).collect()),
    }
}

/// Puts a `serde_json::Value` together. An object whose keys are sorted and
/// distinct keeps its members in that order, whether `serde_json::Map` orders
/// them by key or by insertion.
#[verifier::external_body]
fn value_from_json(json: JsonValue) -> (value: Value)
    requires
        held_in_order(tree(json)),
    ensures
        value_tree(value) == tree(json),
{
    match json {
        JsonValue::Null => Value::Null,
        JsonValue::Bool(flag) => Value::Bool(flag),
        JsonValue::Natural(natural) => Value::from(natural),
        JsonValue::Negative(negative) => Value::from(negative),
        JsonValue::Float(number) => Value::Number(number),
        JsonValue::Text(text) => Value::String(text),
        JsonValue::Array(items) => Value::Array(items.into_iter().map(value_from_json).collect()),
        JsonValue::Object(entries) => Value::Object(
            entries.into_iter().map(|entry| (entry.0, value_from_json(entry.1))).collect()),
    }
}

/// What was read, or how it was described why nothing was.
pub open spec fn value_or_error(result: Result<Value, String>) -> Result<JsonTree, Seq<char>> {
    match result {
        Ok(value) => Ok(value_tree(value)),
        Err(error) => Err(error@),
    }
}

/// `serde_json::from_str` into a `Value`. What it reads, and how it describes a
/// text that is no JSON, depends on the text alone. It follows nested arrays and
/// objects to a fixed depth and reads nothing that nests deeper.
#[verifier::external_body]
fn read_value(text: &str) -> (r: Result<Value, String>)
    ensures
        value_or_error(r) == parsed_json(text@),
        r matches Ok(value) ==> nested_within(value_tree(value), NESTING_LIMIT as nat),
{
    match serde_json::from_str(text) {
        Ok(value) => Ok(value),
        Err(error) => Err(error.to_string()),
    }
}

/// A text was written, without white space outside of strings.
pub open spec fn writes(result: Result<String, String>, text: Seq<char>) -> bool {
    result matches Ok(written) && written@ == text && compact(text)
}

/// What was written reads back as the value.
pub open spec fn reads_back(result: Result<String, String>, value: JsonTree) -> bool {
    parsed_json(result->Ok_0@) == Ok::<JsonTree, Seq<char>>(value)
}

/// `serde_json::to_string` of a `Value`, which never fails. What it writes
/// depends on what the value holds, and has no white space outside of strings.
/// A value that nests no deeper than the parser follows, and whose numbers are
/// integers, is read back from the text by `serde_json::from_str`. Of other
/// values that is not claimed: a number with a fraction may come back with its
/// last digit changed.
#[verifier::external_body]
fn write_value(value: &Value) -> (r: Result<String, String>)
    ensures
        writes(r, json_text(value_tree(*value))),
        integral(value_tree(*value)) && nested_within(value_tree(*value), NESTING_LIMIT as nat)
            ==> reads_back(r, value_tree(*value)),
{
    match serde_json::to_string(value) {
        Ok(text) => Ok(text),
        Err(error) => Err(error.to_string()),
    }
}

/// What the values of a list hold.
pub open spec fn value_trees(values: Seq<Value>) -> Seq<JsonTree> {
    Seq::new(values.len(), |i: int| value_tree(values[i]))
}

/// `serde_json::Value::Array`: a value that holds a list of values.
#[verifier::external_body]
fn array_value(values: Vec<Value>) -> (r: Value)
    ensures
        value_tree(r) == JsonTree::Array(value_trees(values@)),
{
    Value::Array(values)
}

/// `serde_json::Value::String`: a value that holds a text.
#[verifier::external_body]
fn text_value(text: String) -> (r: Value)
    ensures
        value_tree(r) == JsonTree::Text(text@),
{
    Value::String(text)
}

/// The number is one of the two zeros that are not integers.
pub open spec fn is_float_zero(number: Number) -> bool {
    json_text(JsonTree::Float(number)) == "0.0"@ || json_text(JsonTree::Float(number)) == "-0.0"@
}

/// Two values in canonical form are equal: they hold the same, but that a zero
/// which is not an integer equals itself with any sign.
pub open spec fn alike(a: JsonTree, b: JsonTree) -> bool
    decreases a,
{
    match (a, b) {
        (JsonTree::Float(x), JsonTree::Float(y)) => x == y || (is_float_zero(x)
            && is_float_zero(y)),
        (JsonTree::Array(left), JsonTree::Array(right)) => left.len() == right.len() && forall|
            i: int,
        |
            0 <= i < left.len() ==> alike(#[trigger] left[i], right[i]),
        (JsonTree::Object(left), JsonTree::Object(right)) => left.len() == right.len() && forall|
            i: int,
        |
            0 <= i < left.len() ==> (#[trigger] left[i]).0 == right[i].0 && alike(
                left[i].1,
                right[i].1,
            ),
        _ => a == b,
    }
}

/// The values hold equal JSON, in whatever order their objects hand their
/// members out.
pub open spec fn equal_json(a: Value, b: Value) -> bool {
    alike(canonical(value_tree(a)), canonical(value_tree(b)))
}

/// `==` of two `serde_json::Value`s. Objects are equal that have equal members
/// under the same keys. Numbers that are not integers are compared as floats,
/// which are always finite: only the two zeros, written `0.0` and `-0.0`, are
/// equal without being the same.
#[verifier::external_body]
pub(crate) fn equal_values(a: &Value, b: &Value) -> (r: bool)
    ensures
        r == equal_json(*a, *b),
{
    a == b
}

/// `sha2::Sha256::digest`, a function of the bytes, always 32 bytes long.
#[verifier::external_body]
fn sha256(bytes: &[u8]) -> (digest: Vec<u8>)
    ensures
        digest@ == sha256_digest(bytes@),
        digest@.len() == 32,
{
    Sha256::digest(bytes).to_vec()
}

/// The lowercase hexadecimal digit of `n`, for `n` below sixteen.
pub open spec fn hex_digit(n: int) -> char {
    if n == 0 {
        '0'
    } else if n == 1 {
        '1'
    } else if n == 2 {
        '2'
    } else if n == 3 {
        '3'
    } else if n == 4 {
        '4'
    } else if n == 5 {
        '5'
    } else if n == 6 {
        '6'
    } else if n == 7 {
        '7'
    } else if n == 8 {
        '8'
    } else if n == 9 {
        '9'
    } else if n == 10 {
        'a'
    } else if n == 11 {
        'b'
    } else if n == 12 {
        'c'
    } else if n == 13 {
        'd'
    } else if n == 14 {
        'e'
    } else {
        'f'
    }
}

/// Two lowercase hexadecimal digits for each byte.
pub open spec fn lower_hex(bytes: Seq<u8>) -> Seq<char> {
    Seq::new(
        2 * bytes.len(),
        |i: int|
            if i % 2 == 0 {
                hex_digit(bytes[i / 2] as int / 16)
            } else {
                hex_digit(bytes[i / 2] as int % 16)
            },
    )
}

/// The SHA-256 digest of a text's UTF-8 bytes, in lowercase hexadecimal.
pub open spec fn text_digest(text: Seq<char>) -> Seq<char> {
    lower_hex(sha256_digest(vstd::utf8::encode_utf8(text)))
}

fn append_hex_digit(out: &mut String, n: u8)
    requires
        n < 16,
    ensures
        final(out)@ == old(out)@.push(hex_digit(n as int)),
{
    proof {
        reveal_strlit("0");
        reveal_strlit("1");
        reveal_strlit("2");
        reveal_strlit("3");
        reveal_strlit("4");
        reveal_strlit("5");
        reveal_strlit("6");
        reveal_strlit("7");
        reveal_strlit("8");
        reveal_strlit("9");
        reveal_strlit("a");
        reveal_strlit("b");
        reveal_strlit("c");
        reveal_strlit("d");
        reveal_strlit("e");
        reveal_strlit("f");
    }
    let digit = if n == 0 {
        "0"
    } else if n == 1 {
        "1"
    } else if n == 2 {
        "2"
    } else if n == 3 {
        "3"
    } else if n == 4 {
        "4"
    } else if n == 5 {
        "5"
    } else if n == 6 {
        "6"
    } else if n == 7 {
        "7"
    } else if n == 8 {
        "8"
    } else if n == 9 {
        "9"
    } else if n == 10 {
        "a"
    } else if n == 11 {
        "b"
    } else if n == 12 {
        "c"
    } else if n == 13 {
        "d"
    } else if n == 14 {
        "e"
    } else {
        "f"
    };
    out.append(digit);
    assert(digit@ =~= seq![hex_digit(n as int)]);
    assert(out@ =~= old(out)@.push(hex_digit(n as int)));
}

fn hex_text(bytes: &Vec<u8>) -> (r: String)
    ensures
        r@ == lower_hex(bytes@),
{
    let mut out = String::new();
    let mut i: usize = 0;
    while i < bytes.len()
        invariant
            i <= bytes.len(),
            out@ == lower_hex(bytes@).take(2 * i),
        decreases bytes.len() - i,
    {
        let byte: u8 = bytes[i];
        append_hex_digit(&mut out, byte / 16);
        append_hex_digit(&mut out, byte % 16);
        assert(out@ =~= lower_hex(bytes@).take(2 * (i + 1)));
        i = i + 1;
    }
    assert(out@ =~= lower_hex(bytes@));
    out
}

/// The SHA-256 digest of the UTF-8 bytes of `text`, in lowercase hexadecimal.
pub fn sha256_hex(text: &str) -> (r: String)
    ensures
        r@ == text_digest(text@),
        text::lower_hex_64(r@),
{
    let digest = sha256(text.as_bytes());
    let out = hex_text(&digest);
    assert(text::lower_hex_64(out@));
    out
}

proof fn position_is(entries: Seq<(Seq<char>, JsonTree)>, key: Seq<char>, at: int)
    requires
        0 <= at <= entries.len(),
        forall|i: int| 0 <= i < at ==> text::precedes((#[trigger] entries[i]).0, key),
        at == entries.len() || !text::precedes(entries[at].0, key),
    ensures
        position(entries, key) == at,
    decreases entries.len(),
{
    if at > 0 {
        assert(text::precedes(entries[0].0, key));
        let rest = entries.drop_first();
        assert forall|i: int| 0 <= i < at - 1 implies text::precedes((#[trigger] rest[i]).0, key) by {
            assert(rest[i] == entries[i + 1]);
        }
        assert(at == entries.len() || rest[at - 1] == entries[at]);
        position_is(rest, key, at - 1);
    }
}

spec fn entry_trees(entries: Seq<(String, JsonValue)>) -> Seq<(Seq<char>, JsonTree)> {
    Seq::new(entries.len(), |i: int| (entries[i].0@, tree(entries[i].1)))
}

spec fn item_trees(items: Seq<JsonValue>) -> Seq<JsonTree> {
    Seq::new(items.len(), |i: int| tree(items[i]))
}

proof fn tree_of_array(items: Vec<JsonValue>)
    ensures
        tree(JsonValue::Array(items)) == JsonTree::Array(item_trees(items@)),
{
    assert(tree(JsonValue::Array(items))->Array_0 =~= item_trees(items@));
}

proof fn tree_of_object(entries: Vec<(String, JsonValue)>)
    ensures
        tree(JsonValue::Object(entries)) == JsonTree::Object(entry_trees(entries@)),
{
    assert(tree(JsonValue::Object(entries))->Object_0 =~= entry_trees(entries@));
}

fn put_entry(entries: &mut Vec<(String, JsonValue)>, key: String, value: JsonValue)
    ensures
        entry_trees(final(entries)@) == put(entry_trees(old(entries)@), key@, tree(value)),
{
    let ghost before = entry_trees(entries@);
    let mut at: usize = 0;
    while at < entries.len() && text_precedes(entries[at].0.as_str(), key.as_str())
        invariant
            at <= entries.len(),
            before == entry_trees(entries@),
            forall|i: int| 0 <= i < at ==> text::precedes((#[trigger] before[i]).0, key@),
        decreases entries.len() - at,
    {
        at = at + 1;
    }
    proof {
        position_is(before, key@, at as int);
    }
    if at < entries.len() && same_text(entries[at].0.as_str(), key.as_str()) {
        let ghost replaced = (key@, tree(value));
        entries.set(at, (key, value));
        assert(entry_trees(entries@) =~= before.update(at as int, replaced));
    } else {
        let ghost added = (key@, tree(value));
        entries.insert(at, (key, value));
        assert(entry_trees(entries@) =~= before.insert(at as int, added));
    }
}

fn sort_object_keys(value: JsonValue) -> (r: JsonValue)
    ensures
        tree(r) == canonical(tree(value)),
    decreases value,
{
    match value {
        JsonValue::Array(items) => {
            let ghost source = items@;
            let mut out: Vec<JsonValue> = Vec::new();
            proof {
                tree_of_array(items);
                assert(decreases_to!(value => items@));
                assert forall|i: int| #![trigger source[i]] 0 <= i < source.len() implies decreases_to!(
                    value => source[i]) by {
                    assert(decreases_to!(items@ => items@[i]));
                }
            }
            for item in it: items
                invariant
                    it.seq() == source,
                    forall|i: int|
                        #![trigger source[i]]
                        0 <= i < source.len() ==> decreases_to!(value => source[i]),
                    item_trees(out@) == canonical_items(item_trees(source)).take(it.index()),
            {
                assert(item == source[it.index()]);
                let ghost before = out@;
                out.push(sort_object_keys(item));
                assert(item_trees(out@) =~= item_trees(before).push(canonical(tree(item))));
                assert(item_trees(out@) =~= canonical_items(item_trees(source)).take(
                    it.index() + 1,
                ));
            }
            proof {
                tree_of_array(out);
            }
            assert(item_trees(out@) =~= canonical_items(item_trees(source)));
            JsonValue::Array(out)
        },
        JsonValue::Object(entries) => {
            let ghost source = canonical_entries(entry_trees(entries@));
            let ghost given = entries@;
            let mut out: Vec<(String, JsonValue)> = Vec::new();
            proof {
                tree_of_object(entries);
                assert(decreases_to!(value => entries@));
                assert forall|i: int| #![trigger given[i]] 0 <= i < given.len() implies decreases_to!(
                    value => given[i].1) by {
                    assert(decreases_to!(entries@ => entries@[i]));
                    assert(decreases_to!(entries@[i] => entries@[i].1));
                }
            }
            for entry in it: entries
                invariant
                    it.seq() == given,
                    forall|i: int|
                        #![trigger given[i]]
                        0 <= i < given.len() ==> decreases_to!(value => given[i].1),
                    source == canonical_entries(entry_trees(given)),
                    entry_trees(out@) == sorted_entries(source.take(it.index())),
            {
                let ghost done = source.take(it.index() + 1);
                assert(done.drop_last() =~= source.take(it.index()));
                assert(done.last() == (entry.0@, canonical(tree(entry.1))));
                assert(entry == given[it.index()]);
                let (key, member) = entry;
                put_entry(&mut out, key, sort_object_keys(member));
            }
            proof {
                tree_of_object(out);
            }
            assert(source.take(source.len() as int) =~= source);
            JsonValue::Object(out)
        },
        other => other,
    }
}

/// What a fallible operation of the store answers, over mathematical values.
pub open spec fn told<T: View>(result: Result<T, StoreError>) -> Result<T::V, Fault> {
    match result {
        Ok(value) => Ok(value@),
        Err(error) => Err(error@),
    }
}

/// The canonical text of a JSON value.
pub open spec fn canonical_text(value: JsonTree) -> Seq<char> {
    json_text(canonical(value))
}

/// The canonical text of the JSON value that a text holds.
pub open spec fn parse_outcome(text: Seq<char>) -> Result<Seq<char>, Fault> {
    match parsed_json(text) {
        Ok(value) => Ok(canonical_text(value)),
        Err(error) => Err(Fault::Serialization(error)),
    }
}

/// What a list of texts reads as, where each of them is JSON.
pub open spec fn list_tree(texts: Seq<Seq<char>>) -> JsonTree {
    JsonTree::Array(Seq::new(texts.len(), |i: int| parsed_json(texts[i])->Ok_0))
}

/// The canonical text of the list of what texts hold, where each of them is
/// JSON.
pub open spec fn list_text(texts: Seq<Seq<char>>) -> Seq<char> {
    canonical_text(list_tree(texts))
}

/// What is wrong with a list of JSON texts: the first that is no JSON.
pub open spec fn list_fault(texts: Seq<Seq<char>>) -> Option<Fault>
    decreases texts.len(),
{
    if texts.len() == 0 {
        None
    } else {
        error::first_of(
            list_fault(texts.drop_last()),
            match parsed_json(texts.last()) {
                Ok(_) => None,
                Err(error) => Some(Fault::Serialization(error)),
            },
        )
    }
}

proof fn list_fault_of_prefix(texts: Seq<Seq<char>>, n: int)
    requires
        0 <= n <= texts.len(),
        list_fault(texts.take(n)) is Some,
    ensures
        list_fault(texts) == list_fault(texts.take(n)),
    decreases texts.len(),
{
    if n < texts.len() {
        assert(texts.drop_last().take(n) =~= texts.take(n));
        list_fault_of_prefix(texts.drop_last(), n);
    } else {
        assert(texts.take(n) =~= texts);
    }
}

/// A list of texts that each read as JSON has no fault.
pub proof fn readable_lists_are_taken(texts: Seq<Seq<char>>)
    requires
        forall|i: int| 0 <= i < texts.len() ==> parsed_json(#[trigger] texts[i]) is Ok,
    ensures
        list_fault(texts) is None,
    decreases texts.len(),
{
    if texts.len() > 0 {
        let shorter = texts.drop_last();
        assert forall|i: int| 0 <= i < shorter.len() implies parsed_json(
            #[trigger] shorter[i],
        ) is Ok by {
            assert(shorter[i] == texts[i]);
        }
        readable_lists_are_taken(shorter);
        assert(parsed_json(texts[texts.len() - 1]) is Ok);
    }
}

/// The canonical text of a list of texts.
pub open spec fn text_list(texts: Seq<Seq<char>>) -> Seq<char> {
    canonical_text(JsonTree::Array(Seq::new(texts.len(), |i: int| JsonTree::Text(texts[i]))))
}

/// The texts of canonical values.
pub open spec fn canonical_views(values: Seq<CanonicalJson>) -> Seq<Seq<char>> {
    Seq::new(values.len(), |i: int| values[i]@)
}

/// What is wrong with a stored pair of JSON text and digest.
pub open spec fn stored_fault(
    entity: Seq<char>,
    key: Seq<char>,
    text: Seq<char>,
    digest: Seq<char>,
) -> Option<Fault> {
    match parse_outcome(text) {
        Err(error) => Some(
            error::corrupt_fault(entity, key, "invalid payload_json: "@ + error::fault_message(error)),
        ),
        Ok(canonical) => if canonical != text {
            Some(error::corrupt_fault(entity, key, "payload_json is not in canonical form"@))
        } else if text_digest(text) != digest {
            Some(error::corrupt_fault(entity, key, "payload_hash does not match payload_json"@))
        } else {
            None
        },
    }
}

/// At this place of a JSON text begins the number `-0.0`.
pub open spec fn signed_zero_at(text: Seq<char>, at: int) -> bool {
    &&& 0 <= at
    &&& at + 4 <= text.len()
    &&& standing(text.take(at)) is Outside
    &&& text.subrange(at, at + 4) == seq!['-', '0', '.', '0']
    &&& at + 4 < text.len() ==> text[at + 4] == ',' || text[at + 4] == ']' || text[at + 4] == '}'
}

/// The first `n` characters of a JSON text, without the minus signs of zeros.
pub open spec fn unsigned_to(text: Seq<char>, n: int) -> Seq<char>
    decreases n,
{
    if n <= 0 {
        Seq::empty()
    } else if signed_zero_at(text, n - 1) {
        unsigned_to(text, n - 1)
    } else {
        unsigned_to(text, n - 1).push(text[n - 1])
    }
}

/// A JSON text without the minus signs of zeros, by which canonical texts are
/// compared where their numbers count as numbers: `0.0` and `-0.0` are equal.
pub open spec fn unsigned_zeros(text: Seq<char>) -> Seq<char> {
    unsigned_to(text, text.len() as int)
}

fn drop_zero_signs(text: &str) -> (r: Vec<char>)
    ensures
        r@ == unsigned_zeros(text@),
{
    let chars = characters(text);
    let mut kept: Vec<char> = Vec::new();
    let mut stands = Standing::Outside;
    let mut i: usize = 0;
    while i < chars.len()
        invariant
            i <= chars.len(),
            chars@ == text@,
            stands == standing(text@.take(i as int)),
            kept@ == unsigned_to(text@, i as int),
        decreases chars.len() - i,
    {
        let c = chars[i];
        let outside = match stands {
            Standing::Outside => true,
            _ => false,
        };
        let left: usize = chars.len() - i;
        let signed = outside && left >= 4 && c == '-' && chars[i + 1] == '0' && chars[i + 2] == '.'
            && chars[i + 3] == '0' && (left == 4 || chars[i + 4] == ',' || chars[i + 4] == ']'
            || chars[i + 4] == '}');
        proof {
            let longer = text@.take(i + 1);
            assert(longer.drop_last() =~= text@.take(i as int));
            assert(longer.last() == c);
            if left >= 4 {
                let part = text@.subrange(i as int, i + 4);
                assert(part[0] == text@[i as int]);
                assert(part[1] == text@[i + 1]);
                assert(part[2] == text@[i + 2]);
                assert(part[3] == text@[i + 3]);
                if signed {
                    assert(part =~= seq!['-', '0', '.', '0']);
                }
            }
            assert(signed == signed_zero_at(text@, i as int));
        }
        if !signed {
            kept.push(c);
        }
        stands = match stands {
            Standing::Outside => if c == '"' {
                Standing::Inside
            } else {
                Standing::Outside
            },
            Standing::Inside => if c == '"' {
                Standing::Outside
            } else if c == '\\' {
                Standing::Escaped
            } else {
                Standing::Inside
            },
            Standing::Escaped => Standing::Inside,
        };
        i = i + 1;
    }
    assert(text@.take(i as int) =~= text@);
    kept
}

fn same_characters(a: &Vec<char>, b: &Vec<char>) -> (r: bool)
    ensures
        r == (a@ == b@),
{
    if a.len() != b.len() {
        return false;
    }
    let mut i: usize = 0;
    while i < a.len()
        invariant
            i <= a.len(),
            a.len() == b.len(),
            forall|j: int| 0 <= j < i ==> a@[j] == b@[j],
        decreases a.len() - i,
    {
        if a[i] != b[i] {
            return false;
        }
        i = i + 1;
    }
    assert(a@ =~= b@);
    true
}

/// The text is its own canonical form.
pub open spec fn is_canonical_text(text: Seq<char>) -> bool {
    parse_outcome(text) == Ok::<Seq<char>, Fault>(text)
}

/// Compact JSON with recursively sorted object keys and its SHA-256 digest.
///
/// This representation is for persistence and duplicate detection. The digest
/// is always that of the text, so two of them are equal when their texts are.
#[derive(Debug, PartialEq, Eq)]
pub struct CanonicalJson {
    text: String,
    sha256_hex: String,
}

impl View for CanonicalJson {
    type V = Seq<char>;

    closed spec fn view(&self) -> Seq<char> {
        self.text@
    }
}

impl CanonicalJson {
    #[verifier::type_invariant]
    spec fn digest_is_of_text(self) -> bool {
        self.sha256_hex@ == text_digest(self.text@)
    }

    /// The canonical form of a JSON value: its text is written without white
    /// space, with the members of every object in the order of their keys, and
    /// reads back as the value where its numbers are integers.
    pub fn from_value(value: Value) -> (r: Result<CanonicalJson, StoreError>)
        ensures
            r matches Ok(json) && json@ == canonical_text(value_tree(value)),
            r matches Ok(json) ==> compact(json@),
            integral(value_tree(value)) && nested_within(
                value_tree(value),
                NESTING_LIMIT as nat,
            ) ==> parsed_json(r->Ok_0@) == Ok::<JsonTree, Seq<char>>(canonical(value_tree(value)))
                && is_canonical_text(r->Ok_0@),
    {
        let ghost given = value_tree(value);
        let sorted = sort_object_keys(json_from_value(value));
        let value = value_from_json(sorted);
        match write_value(&value) {
            Ok(text) => {
                let sha256_hex = sha256_hex(text.as_str());
                proof {
                    canonical_is_idempotent(given);
                    canonical_nests_no_deeper(given, NESTING_LIMIT as nat);
                }
                Ok(CanonicalJson { text, sha256_hex })
            },
            Err(error) => Err(StoreError::Serialization(error)),
        }
    }

    /// The canonical form of the JSON value that `text` holds.
    pub fn parse(text: &str) -> (r: Result<CanonicalJson, StoreError>)
        ensures
            told(r) == parse_outcome(text@),
            r matches Ok(json) ==> compact(json@),
            parsed_json(text@) matches Ok(value) ==> integral(value) ==> parsed_json(r->Ok_0@)
                == Ok::<JsonTree, Seq<char>>(canonical(value)) && is_canonical_text(r->Ok_0@),
    {
        match read_value(text) {
            Ok(value) => CanonicalJson::from_value(value),
            Err(error) => Err(StoreError::Serialization(error)),
        }
    }

    /// The canonical form of the list of what canonical values hold.
    pub fn from_list(values: &Vec<CanonicalJson>) -> (r: Result<CanonicalJson, StoreError>)
        ensures
            error::fault(r) == list_fault(canonical_views(values@)),
            r matches Ok(json) ==> json@ == list_text(canonical_views(values@)),
    {
        let ghost all = canonical_views(values@);
        let mut items: Vec<Value> = Vec::new();
        let mut i: usize = 0;
        while i < values.len()
            invariant
                i <= values.len(),
                all == canonical_views(values@),
                items@.len() == i,
                list_fault(all.take(i as int)) is None,
                forall|j: int|
                    0 <= j < i ==> value_tree(#[trigger] items@[j]) == parsed_json(all[j])->Ok_0,
            decreases values.len() - i,
        {
            let ghost longer = all.take(i + 1);
            assert(longer.drop_last() =~= all.take(i as int));
            assert(longer.last() == values@[i as int]@);
            match read_value(values[i].as_str()) {
                Ok(value) => items.push(value),
                Err(error) => {
                    proof {
                        list_fault_of_prefix(all, i + 1);
                    }
                    return Err(StoreError::Serialization(error));
                },
            }
            i = i + 1;
        }
        assert(all.take(i as int) =~= all);
        assert(JsonTree::Array(value_trees(items@)) == list_tree(all)) by {
            assert(value_trees(items@) =~= Seq::new(
                all.len(),
                |j: int| parsed_json(all[j])->Ok_0,
            ));
        }
        CanonicalJson::from_value(array_value(items))
    }

    /// The canonical form of a list of texts.
    pub fn from_texts(texts: &Vec<String>) -> (r: Result<CanonicalJson, StoreError>)
        ensures
            r matches Ok(json) && json@ == text_list(text::texts(texts@)) && is_canonical_text(
                json@,
            ),
    {
        let ghost all = text::texts(texts@);
        let mut items: Vec<Value> = Vec::new();
        let mut i: usize = 0;
        while i < texts.len()
            invariant
                i <= texts.len(),
                all == text::texts(texts@),
                items@.len() == i,
                forall|j: int|
                    0 <= j < i ==> value_tree(#[trigger] items@[j]) == JsonTree::Text(all[j]),
            decreases texts.len() - i,
        {
            items.push(text_value(texts[i].clone()));
            i = i + 1;
        }
        let ghost list = JsonTree::Array(Seq::new(all.len(), |j: int| JsonTree::Text(all[j])));
        assert(JsonTree::Array(value_trees(items@)) == list) by {
            assert(value_trees(items@) =~= Seq::new(all.len(), |j: int| JsonTree::Text(all[j])));
        }
        proof {
            reveal_with_fuel(integral, 2);
            reveal_with_fuel(nested_within, 2);
            assert(integral(list));
            assert(nested_within(list, NESTING_LIMIT as nat));
        }
        CanonicalJson::from_value(array_value(items))
    }

    /// The canonical text.
    pub fn as_str(&self) -> (r: &str)
        ensures
            r@ == self@,
    {
        self.text.as_str()
    }

    /// The digest of the canonical text.
    pub fn sha256_hex(&self) -> (r: &str)
        ensures
            r@ == text_digest(self@),
    {
        proof {
            use_type_invariant(self);
        }
        self.sha256_hex.as_str()
    }

    /// The canonical text and its digest.
    pub fn into_parts(self) -> (r: (String, String))
        ensures
            r.0@ == self@,
            r.1@ == text_digest(self@),
    {
        proof {
            use_type_invariant(&self);
        }
        (self.text, self.sha256_hex)
    }

    /// Takes a stored text for what it claims to be, if it is in canonical form
    /// and the stored digest is its own.
    pub fn from_stored(
        entity: &'static str,
        key: &str,
        text: String,
        stored_hash: String,
    ) -> (r: Result<CanonicalJson, StoreError>)
        ensures
            error::fault(r) == stored_fault(entity@, key@, text@, stored_hash@),
            r matches Ok(json) ==> json@ == text@,
    {
        match CanonicalJson::parse(text.as_str()) {
            Err(error) => {
                let reason = join2("invalid payload_json: ", error.message().as_str());
                Err(StoreError::corrupt(entity, key, reason.as_str()))
            },
            Ok(canonical) => {
                proof {
                    use_type_invariant(&canonical);
                }
                if canonical.text != text {
                    return Err(
                        StoreError::corrupt(entity, key, "payload_json is not in canonical form"),
                    );
                }
                if canonical.sha256_hex != stored_hash {
                    return Err(
                        StoreError::corrupt(
                            entity,
                            key,
                            "payload_hash does not match payload_json",
                        ),
                    );
                }
                Ok(canonical)
            },
        }
    }

    /// Whether two canonical values are the same.
    pub fn same(&self, other: &CanonicalJson) -> (r: bool)
        ensures
            r == (self@ == other@),
    {
        proof {
            use_type_invariant(self);
            use_type_invariant(other);
        }
        self.text == other.text && self.sha256_hex == other.sha256_hex
    }

    /// Whether two canonical values are equal, with `0.0` equal to `-0.0`.
    pub fn same_value(&self, other: &CanonicalJson) -> (r: bool)
        ensures
            r == (unsigned_zeros(self@) == unsigned_zeros(other@)),
    {
        same_characters(
            &drop_zero_signs(self.text.as_str()),
            &drop_zero_signs(other.text.as_str()),
        )
    }
}

impl Clone for CanonicalJson {
    fn clone(&self) -> (r: Self)
        ensures
            r == *self,
    {
        proof {
            use_type_invariant(self);
        }
        CanonicalJson { text: self.text.clone(), sha256_hex: self.sha256_hex.clone() }
    }
}

/// The keys of the members stand in strict order.
pub open spec fn keys_sorted(entries: Seq<(Seq<char>, JsonTree)>) -> bool {
    forall|i: int, j: int|
        0 <= i < j < entries.len() ==> text::precedes((#[trigger] entries[i]).0, (#[trigger] entries[j]).0)
}

/// The keys of every object, at every depth, stand in strict order.
pub open spec fn ordered(value: JsonTree) -> bool
    decreases value,
{
    match value {
        JsonTree::Array(items) => forall|i: int|
            0 <= i < items.len() ==> ordered(#[trigger] items[i]),
        JsonTree::Object(entries) => keys_sorted(entries) && forall|i: int|
            0 <= i < entries.len() ==> ordered((#[trigger] entries[i]).1),
        _ => true,
    }
}

proof fn position_facts(entries: Seq<(Seq<char>, JsonTree)>, key: Seq<char>)
    ensures
        position(entries, key) <= entries.len(),
        forall|i: int|
            0 <= i < position(entries, key) ==> text::precedes((#[trigger] entries[i]).0, key),
        position(entries, key) == entries.len() || !text::precedes(
            entries[position(entries, key) as int].0,
            key,
        ),
    decreases entries.len(),
{
    if entries.len() > 0 && text::precedes(entries[0].0, key) {
        let rest = entries.drop_first();
        position_facts(rest, key);
        assert forall|i: int| 0 <= i < position(entries, key) implies text::precedes(
            (#[trigger] entries[i]).0,
            key,
        ) by {
            if i > 0 {
                assert(entries[i] == rest[i - 1]);
            }
        }
    }
}

proof fn put_keeps_order(entries: Seq<(Seq<char>, JsonTree)>, key: Seq<char>, value: JsonTree)
    requires
        keys_sorted(entries),
    ensures
        keys_sorted(put(entries, key, value)),
        forall|i: int|
            0 <= i < put(entries, key, value).len() ==> (#[trigger] put(entries, key, value)[i])
                == (key, value) || exists|j: int|
                0 <= j < entries.len() && entries[j] == put(entries, key, value)[i],
        exists|i: int|
            0 <= i < put(entries, key, value).len() && put(entries, key, value)[i] == (key, value),
        forall|j: int|
            0 <= j < entries.len() && (#[trigger] entries[j]).0 != key ==> exists|i: int|
                0 <= i < put(entries, key, value).len() && put(entries, key, value)[i]
                    == entries[j],
{
    position_facts(entries, key);
    let at = position(entries, key) as int;
    let after = put(entries, key, value);
    if at < entries.len() && entries[at].0 == key {
        assert(after[at] == (key, value));
        assert forall|i: int, j: int| 0 <= i < j < after.len() implies text::precedes(
            (#[trigger] after[i]).0,
            (#[trigger] after[j]).0,
        ) by {
            assert(after[i].0 == entries[i].0 && after[j].0 == entries[j].0);
        }
        assert forall|i: int| 0 <= i < after.len() implies (#[trigger] after[i]) == (key, value)
            || exists|j: int| 0 <= j < entries.len() && entries[j] == after[i] by {
            if i != at {
                assert(entries[i] == after[i]);
            }
        }
        assert forall|j: int| 0 <= j < entries.len() && (#[trigger] entries[j]).0
            != key implies exists|i: int| 0 <= i < after.len() && after[i] == entries[j] by {
            assert(after[j] == entries[j]);
        }
    } else {
        assert(after[at] == (key, value));
        assert forall|i: int| at <= i < entries.len() implies text::precedes(
            key,
            (#[trigger] entries[i]).0,
        ) by {
            text::precedes_total(key, entries[at].0);
            if i > at {
                text::precedes_transitive(key, entries[at].0, entries[i].0);
            }
        }
        assert forall|i: int, j: int| 0 <= i < j < after.len() implies text::precedes(
            (#[trigger] after[i]).0,
            (#[trigger] after[j]).0,
        ) by {
            let before_i = if i < at {
                i
            } else {
                i - 1
            };
            let before_j = if j < at {
                j
            } else {
                j - 1
            };
            if i != at {
                assert(after[i] == entries[before_i]);
            }
            if j != at {
                assert(after[j] == entries[before_j]);
            }
        }
        assert forall|i: int| 0 <= i < after.len() implies (#[trigger] after[i]) == (key, value)
            || exists|j: int| 0 <= j < entries.len() && entries[j] == after[i] by {
            if i < at {
                assert(entries[i] == after[i]);
            } else if i > at {
                assert(entries[i - 1] == after[i]);
            }
        }
        assert forall|j: int| 0 <= j < entries.len() && (#[trigger] entries[j]).0
            != key implies exists|i: int| 0 <= i < after.len() && after[i] == entries[j] by {
            if j < at {
                assert(after[j] == entries[j]);
            } else {
                assert(after[j + 1] == entries[j]);
            }
        }
    }
}

proof fn sorting_sorts(entries: Seq<(Seq<char>, JsonTree)>)
    ensures
        keys_sorted(sorted_entries(entries)),
        forall|i: int|
            0 <= i < sorted_entries(entries).len() ==> exists|j: int|
                0 <= j < entries.len() && entries[j] == #[trigger] sorted_entries(entries)[i],
    decreases entries.len(),
{
    if entries.len() > 0 {
        let rest = entries.drop_last();
        let last = entries.last();
        sorting_sorts(rest);
        put_keeps_order(sorted_entries(rest), last.0, last.1);
        let after = sorted_entries(entries);
        assert forall|i: int| 0 <= i < after.len() implies exists|j: int|
            0 <= j < entries.len() && entries[j] == #[trigger] after[i] by {
            if after[i] == last {
                assert(entries[entries.len() - 1] == after[i]);
            } else {
                let k = choose|k: int|
                    0 <= k < sorted_entries(rest).len() && sorted_entries(rest)[k] == after[i];
                let j = choose|j: int| 0 <= j < rest.len() && rest[j] == sorted_entries(rest)[k];
                assert(entries[j] == after[i]);
            }
        }
    }
}

proof fn sorting_keeps_sorted(entries: Seq<(Seq<char>, JsonTree)>)
    requires
        keys_sorted(entries),
    ensures
        sorted_entries(entries) == entries,
    decreases entries.len(),
{
    if entries.len() > 0 {
        let rest = entries.drop_last();
        let last = entries.last();
        assert(keys_sorted(rest)) by {
            assert forall|i: int, j: int| 0 <= i < j < rest.len() implies text::precedes(
                (#[trigger] rest[i]).0,
                (#[trigger] rest[j]).0,
            ) by {
                assert(rest[i] == entries[i] && rest[j] == entries[j]);
            }
        }
        sorting_keeps_sorted(rest);
        assert forall|i: int| 0 <= i < rest.len() implies text::precedes((#[trigger] rest[i]).0, last.0) by {
            assert(rest[i] == entries[i]);
        }
        position_is(rest, last.0, rest.len() as int);
        assert(sorted_entries(entries) =~= entries);
    } else {
        assert(sorted_entries(entries) =~= entries);
    }
}

/// In canonical form the keys of every object, at every depth, are sorted and
/// none occurs twice.
pub proof fn canonical_is_ordered(value: JsonTree)
    ensures
        ordered(canonical(value)),
    decreases value,
{
    match value {
        JsonTree::Array(items) => {
            assert forall|i: int| 0 <= i < items.len() implies ordered(
                #[trigger] canonical_items(items)[i],
            ) by {
                canonical_is_ordered(items[i]);
            }
            assert(canonical(value) == JsonTree::Array(canonical_items(items)));
        },
        JsonTree::Object(entries) => {
            let inner = canonical_entries(entries);
            let sorted = sorted_entries(inner);
            sorting_sorts(inner);
            assert forall|i: int| 0 <= i < sorted.len() implies ordered((#[trigger] sorted[i]).1) by {
                let j = choose|j: int| 0 <= j < inner.len() && inner[j] == sorted[i];
                canonical_is_ordered(entries[j].1);
            }
        },
        _ => {},
    }
}

/// The canonical form of a canonical form is that form.
pub proof fn canonical_is_idempotent(value: JsonTree)
    ensures
        canonical(canonical(value)) == canonical(value),
    decreases value,
{
    match value {
        JsonTree::Array(items) => {
            let once = canonical_items(items);
            assert forall|i: int| 0 <= i < once.len() implies canonical(#[trigger] once[i])
                == once[i] by {
                canonical_is_idempotent(items[i]);
            }
            assert(canonical_items(once) =~= once);
        },
        JsonTree::Object(entries) => {
            let inner = canonical_entries(entries);
            let once = sorted_entries(inner);
            sorting_sorts(inner);
            assert forall|i: int| 0 <= i < once.len() implies canonical((#[trigger] once[i]).1)
                == once[i].1 by {
                let j = choose|j: int| 0 <= j < inner.len() && inner[j] == once[i];
                canonical_is_idempotent(entries[j].1);
            }
            assert(canonical_entries(once) =~= once);
            sorting_keeps_sorted(once);
        },
        _ => {},
    }
}

/// The canonical form of a value nests no deeper than the value, and its numbers
/// are integers where those of the value are.
pub proof fn canonical_nests_no_deeper(value: JsonTree, depth: nat)
    ensures
        nested_within(value, depth) ==> nested_within(canonical(value), depth),
        integral(value) ==> integral(canonical(value)),
    decreases value,
{
    match value {
        JsonTree::Array(items) => {
            let once = canonical_items(items);
            assert forall|i: int| 0 <= i < once.len() implies (nested_within(value, depth)
                ==> nested_within(#[trigger] once[i], (depth - 1) as nat)) && (integral(value)
                ==> integral(once[i])) by {
                canonical_nests_no_deeper(items[i], (depth - 1) as nat);
            }
        },
        JsonTree::Object(entries) => {
            let inner = canonical_entries(entries);
            let once = sorted_entries(inner);
            sorting_sorts(inner);
            assert forall|i: int| 0 <= i < once.len() implies (nested_within(value, depth)
                ==> nested_within((#[trigger] once[i]).1, (depth - 1) as nat)) && (integral(value)
                ==> integral(once[i].1)) by {
                let j = choose|j: int| 0 <= j < inner.len() && inner[j] == once[i];
                canonical_nests_no_deeper(entries[j].1, (depth - 1) as nat);
            }
        },
        _ => {},
    }
}

/// The keys of the members of an object.
pub open spec fn entry_keys(entries: Seq<(Seq<char>, JsonTree)>) -> Seq<Seq<char>> {
    Seq::new(entries.len(), |i: int| entries[i].0)
}

/// The member of an object under a key.
pub open spec fn member(value: JsonTree, key: Seq<char>) -> Option<JsonTree> {
    match value {
        JsonTree::Object(entries) => {
            let at = text::first_index(entry_keys(entries), key) as int;
            if at < entries.len() {
                Some(entries[at].1)
            } else {
                None
            }
        },
        _ => None,
    }
}

/// The text under a key of an object, if the member there is one.
pub open spec fn member_text(value: JsonTree, key: Seq<char>) -> Option<Seq<char>> {
    match member(value, key) {
        Some(JsonTree::Text(text)) => Some(text),
        _ => None,
    }
}

/// A JSON value that can be looked into.
pub struct JsonDocument {
    value: JsonValue,
}

impl View for JsonDocument {
    type V = JsonTree;

    closed spec fn view(&self) -> JsonTree {
        tree(self.value)
    }
}

impl JsonDocument {
    /// Reads the JSON value that a text holds.
    pub fn read(text: &str) -> (r: Result<JsonDocument, String>)
        ensures
            match r {
                Ok(document) => parsed_json(text@) == Ok::<JsonTree, Seq<char>>(document@),
                Err(error) => parsed_json(text@) == Err::<JsonTree, Seq<char>>(error@),
            },
    {
        match read_value(text) {
            Ok(value) => Ok(JsonDocument { value: json_from_value(value) }),
            Err(error) => Err(error),
        }
    }

    /// Whether the value is an object.
    pub fn is_object(&self) -> (r: bool)
        ensures
            r == (self@ is Object),
    {
        match &self.value {
            JsonValue::Object(_) => true,
            _ => false,
        }
    }

    fn find(&self, key: &str) -> (r: Option<&JsonValue>)
        ensures
            match r {
                Some(found) => member(self@, key@) == Some(tree(*found)),
                None => member(self@, key@) is None,
            },
    {
        match &self.value {
            JsonValue::Object(entries) => {
                proof {
                    tree_of_object(*entries);
                }
                let ghost keys = entry_keys(entry_trees(entries@));
                let mut i: usize = 0;
                while i < entries.len()
                    invariant
                        i <= entries.len(),
                        self@ == JsonTree::Object(entry_trees(entries@)),
                        keys == entry_keys(entry_trees(entries@)),
                        forall|j: int| 0 <= j < i ==> keys[j] != key@,
                    decreases entries.len() - i,
                {
                    if same_text(entries[i].0.as_str(), key) {
                        proof {
                            text::first_index_is(keys, key@, i as int);
                        }
                        return Some(&entries[i].1);
                    }
                    i = i + 1;
                }
                proof {
                    text::first_index_is(keys, key@, i as int);
                }
                None
            },
            _ => None,
        }
    }

    /// Whether the member under a key is this text.
    pub fn member_is_text(&self, key: &str, text: &str) -> (r: bool)
        ensures
            r == (member(self@, key@) == Some(JsonTree::Text(text@))),
    {
        match self.find(key) {
            Some(JsonValue::Text(found)) => same_text(found.as_str(), text),
            _ => false,
        }
    }

    /// The text under a key, if the member there is one.
    pub fn text_member(&self, key: &str) -> (r: Option<String>)
        ensures
            text::optional_text(r) == member_text(self@, key@),
    {
        match self.find(key) {
            Some(JsonValue::Text(found)) => Some(found.clone()),
            _ => None,
        }
    }

    /// Whether the member under a key is this number.
    pub fn member_is_natural(&self, key: &str, number: u64) -> (r: bool)
        ensures
            r == (member(self@, key@) == Some(JsonTree::Natural(number as nat))),
    {
        match self.find(key) {
            Some(JsonValue::Natural(found)) => *found == number,
            _ => false,
        }
    }
}

/// No object, at any depth, has two members under one key.
pub open spec fn keys_distinct(value: JsonTree) -> bool
    decreases value,
{
    match value {
        JsonTree::Array(items) => forall|i: int|
            0 <= i < items.len() ==> keys_distinct(#[trigger] items[i]),
        JsonTree::Object(entries) => entry_keys(entries).no_duplicates() && forall|i: int|
            0 <= i < entries.len() ==> keys_distinct((#[trigger] entries[i]).1),
        _ => true,
    }
}

/// Two values differ at most in the order in which objects, at any depth, hold
/// their members.
pub open spec fn reordered(a: JsonTree, b: JsonTree) -> bool
    decreases a,
{
    match (a, b) {
        (JsonTree::Array(left), JsonTree::Array(right)) => left.len() == right.len() && forall|
            i: int,
        |
            #![trigger left[i]]
            0 <= i < left.len() ==> reordered(left[i], right[i]),
        (JsonTree::Object(left), JsonTree::Object(right)) => {
            &&& left.len() == right.len()
            &&& forall|i: int|
                #![trigger left[i]]
                0 <= i < left.len() ==> exists|j: int|
                    #![trigger right[j]]
                    0 <= j < right.len() && left[i].0 == right[j].0 && reordered(
                        left[i].1,
                        right[j].1,
                    )
        },
        _ => a == b,
    }
}

/// Every member of one object is a member of the other.
#[verifier::opaque]
spec fn members_within(
    left: Seq<(Seq<char>, JsonTree)>,
    right: Seq<(Seq<char>, JsonTree)>,
) -> bool {
    forall|i: int| 0 <= i < left.len() ==> right.contains(#[trigger] left[i])
}

proof fn matched(
    left: Seq<(Seq<char>, JsonTree)>,
    right: Seq<(Seq<char>, JsonTree)>,
    i: int,
) -> (j: int)
    requires
        members_within(left, right),
        0 <= i < left.len(),
    ensures
        0 <= j < right.len(),
        left[i] == right[j],
{
    reveal(members_within);
    assert(right.contains(left[i]));
    choose|j: int| 0 <= j < right.len() && right[j] == left[i]
}

proof fn sorting_keeps_members(entries: Seq<(Seq<char>, JsonTree)>)
    requires
        entry_keys(entries).no_duplicates(),
    ensures
        members_within(entries, sorted_entries(entries)),
    decreases entries.len(),
{
    let after = sorted_entries(entries);
    if entries.len() > 0 {
        let rest = entries.drop_last();
        let last = entries.last();
        let keys = entry_keys(entries);
        assert forall|i: int, j: int| 0 <= i < rest.len() && 0 <= j < rest.len() && i
            != j implies entry_keys(rest)[i] != entry_keys(rest)[j] by {
            assert(keys[i] != keys[j]);
        }
        sorting_keeps_members(rest);
        let before = sorted_entries(rest);
        assert forall|i: int| 0 <= i < entries.len() implies after.contains(
            #[trigger] entries[i],
        ) by {
            if i == entries.len() - 1 {
                put_adds(before, last.0, last.1);
            } else {
                assert(rest[i] == entries[i]);
                let k = matched(rest, before, i);
                assert(keys[i] != keys[entries.len() - 1]);
                sorting_sorts(rest);
                put_keeps(before, last.0, last.1, k);
            }
        }
    }
    reveal(members_within);
}

proof fn put_adds(entries: Seq<(Seq<char>, JsonTree)>, key: Seq<char>, value: JsonTree)
    ensures
        put(entries, key, value).contains((key, value)),
{
    position_facts(entries, key);
    assert(put(entries, key, value)[position(entries, key) as int] == (key, value));
}

proof fn put_keeps(entries: Seq<(Seq<char>, JsonTree)>, key: Seq<char>, value: JsonTree, k: int)
    requires
        0 <= k < entries.len(),
        entries[k].0 != key,
    ensures
        put(entries, key, value).contains(entries[k]),
{
    position_facts(entries, key);
    let at = position(entries, key) as int;
    let after = put(entries, key, value);
    if at < entries.len() && entries[at].0 == key {
        assert(after[k] == entries[k]);
    } else if k < at {
        assert(after[k] == entries[k]);
    } else {
        assert(after[k + 1] == entries[k]);
    }
}

proof fn fewer_sorted(entries: Seq<(Seq<char>, JsonTree)>)
    requires
        keys_sorted(entries),
        entries.len() > 0,
    ensures
        keys_sorted(entries.drop_last()),
{
    let fewer = entries.drop_last();
    assert forall|a: int, b: int| 0 <= a < b < fewer.len() implies text::precedes(
        (#[trigger] fewer[a]).0,
        (#[trigger] fewer[b]).0,
    ) by {
        assert(fewer[a] == entries[a] && fewer[b] == entries[b]);
    }
}

proof fn last_members_agree(
    left: Seq<(Seq<char>, JsonTree)>,
    right: Seq<(Seq<char>, JsonTree)>,
)
    requires
        keys_sorted(left),
        keys_sorted(right),
        members_within(left, right),
        members_within(right, left),
        left.len() > 0,
        right.len() > 0,
    ensures
        left.last() == right.last(),
{
    let m = left.len() - 1;
    let n = right.len() - 1;
    let j = matched(left, right, m);
    let i = matched(right, left, n);
    if j < n && i < m {
        assert(text::precedes(right[j].0, right[n].0));
        assert(text::precedes(left[i].0, left[m].0));
        text::precedes_asymmetric(right[j].0, right[n].0);
    } else if j < n {
        assert(text::precedes(right[j].0, right[n].0));
        text::precedes_irreflexive(right[n].0);
    }
}

proof fn without_the_last(left: Seq<(Seq<char>, JsonTree)>, right: Seq<(Seq<char>, JsonTree)>)
    requires
        left.len() > 0,
        right.len() > 0,
        left.last() == right.last(),
        keys_sorted(left),
        members_within(left, right),
    ensures
        members_within(left.drop_last(), right.drop_last()),
{
    let fewer = left.drop_last();
    let other = right.drop_last();
    assert forall|a: int| 0 <= a < fewer.len() implies other.contains(#[trigger] fewer[a]) by {
        let b = matched(left, right, a);
        if b == right.len() - 1 {
            assert(text::precedes(left[a].0, left[left.len() - 1].0));
            text::precedes_irreflexive(left[a].0);
        }
        assert(other[b] == fewer[a]);
    }
    reveal(members_within);
}

proof fn sorted_members_are_in_one_order(
    left: Seq<(Seq<char>, JsonTree)>,
    right: Seq<(Seq<char>, JsonTree)>,
)
    requires
        keys_sorted(left),
        keys_sorted(right),
        members_within(left, right),
        members_within(right, left),
    ensures
        left == right,
    decreases left.len(),
{
    if left.len() == 0 {
        if right.len() > 0 {
            matched(right, left, 0);
        }
        assert(left =~= right);
    } else if right.len() == 0 {
        matched(left, right, 0);
    } else {
        last_members_agree(left, right);
        fewer_sorted(left);
        fewer_sorted(right);
        without_the_last(left, right);
        without_the_last(right, left);
        sorted_members_are_in_one_order(left.drop_last(), right.drop_last());
        assert(left =~= left.drop_last().push(left.last()));
        assert(right =~= right.drop_last().push(right.last()));
    }
}

proof fn sorting_adds_no_members(entries: Seq<(Seq<char>, JsonTree)>)
    ensures
        members_within(sorted_entries(entries), entries),
{
    sorting_sorts(entries);
    let sorted = sorted_entries(entries);
    assert forall|i: int| 0 <= i < sorted.len() implies entries.contains(#[trigger] sorted[i]) by {
        let j = choose|j: int| 0 <= j < entries.len() && entries[j] == sorted[i];
        assert(entries[j] == sorted[i]);
    }
    reveal(members_within);
}

proof fn within_is_transitive(
    first: Seq<(Seq<char>, JsonTree)>,
    second: Seq<(Seq<char>, JsonTree)>,
    third: Seq<(Seq<char>, JsonTree)>,
)
    requires
        members_within(first, second),
        members_within(second, third),
    ensures
        members_within(first, third),
{
    assert forall|i: int| 0 <= i < first.len() implies third.contains(#[trigger] first[i]) by {
        let a = matched(first, second, i);
        let b = matched(second, third, a);
        assert(third[b] == first[i]);
    }
    reveal(members_within);
}

/// Of two objects of one size with distinct keys, one of which holds every
/// member of the other, each holds every member of the other.
proof fn all_members_are_matched(
    left: Seq<(Seq<char>, JsonTree)>,
    right: Seq<(Seq<char>, JsonTree)>,
)
    requires
        left.len() == right.len(),
        entry_keys(left).no_duplicates(),
        members_within(left, right),
    ensures
        members_within(right, left),
{
    let have = left.to_set();
    let want = right.to_set();
    assert(left.no_duplicates()) by {
        assert forall|i: int, j: int| 0 <= i < left.len() && 0 <= j < left.len() && i
            != j implies left[i] != left[j] by {
            assert(entry_keys(left)[i] != entry_keys(left)[j]);
        }
    }
    left.unique_seq_to_set();
    vstd::seq_lib::seq_to_set_is_finite(left);
    vstd::seq_lib::seq_to_set_is_finite(right);
    right.lemma_cardinality_of_set();
    assert(have.subset_of(want)) by {
        assert forall|entry: (Seq<char>, JsonTree)| have.contains(entry) implies want.contains(
            entry,
        ) by {
            let i = choose|i: int| 0 <= i < left.len() && left[i] == entry;
            let j = matched(left, right, i);
            assert(right[j] == entry);
        }
    }
    vstd::set_lib::lemma_len_subset(have, want);
    vstd::set_lib::lemma_subset_equality(have, want);
    assert forall|j: int| 0 <= j < right.len() implies left.contains(#[trigger] right[j]) by {
        assert(want.contains(right[j]));
        assert(have.contains(right[j]));
    }
    reveal(members_within);
}

proof fn reordered_members_are_matched(
    left: Seq<(Seq<char>, JsonTree)>,
    right: Seq<(Seq<char>, JsonTree)>,
)
    requires
        keys_distinct(JsonTree::Object(left)),
        keys_distinct(JsonTree::Object(right)),
        reordered(JsonTree::Object(left), JsonTree::Object(right)),
    ensures
        members_within(canonical_entries(left), canonical_entries(right)),
    decreases left, 0nat,
{
    let inner_left = canonical_entries(left);
    let inner_right = canonical_entries(right);
    assert forall|i: int| 0 <= i < inner_left.len() implies inner_right.contains(
        #[trigger] inner_left[i],
    ) by {
        assert(keys_distinct(left[i].1));
        let j = choose|j: int|
            #![trigger right[j]]
            0 <= j < right.len() && left[i].0 == right[j].0 && reordered(left[i].1, right[j].1);
        assert(keys_distinct(right[j].1));
        assert(decreases_to!(left => left[i]));
        assert(decreases_to!(left[i] => left[i].1));
        member_order_is_immaterial(left[i].1, right[j].1);
        assert(inner_right[j] == inner_left[i]);
    }
    reveal(members_within);
}

/// In which order an object holds its members does not matter: two values that
/// differ in nothing else have one canonical form.
pub proof fn member_order_is_immaterial(a: JsonTree, b: JsonTree)
    requires
        keys_distinct(a),
        keys_distinct(b),
        reordered(a, b),
    ensures
        canonical(a) == canonical(b),
    decreases a, 1nat,
{
    match (a, b) {
        (JsonTree::Array(left), JsonTree::Array(right)) => {
            assert forall|i: int| 0 <= i < left.len() implies canonical(#[trigger] left[i])
                == canonical(right[i]) by {
                assert(keys_distinct(right[i]));
                member_order_is_immaterial(left[i], right[i]);
            }
            assert(canonical_items(left) =~= canonical_items(right));
        },
        (JsonTree::Object(left), JsonTree::Object(right)) => {
            let inner_left = canonical_entries(left);
            let inner_right = canonical_entries(right);
            assert(entry_keys(inner_left) =~= entry_keys(left));
            assert(entry_keys(inner_right) =~= entry_keys(right));
            reordered_members_are_matched(left, right);
            all_members_are_matched(inner_left, inner_right);
            sorting_keeps_members(inner_left);
            sorting_keeps_members(inner_right);
            sorting_adds_no_members(inner_left);
            sorting_adds_no_members(inner_right);
            sorting_sorts(inner_left);
            sorting_sorts(inner_right);
            let sorted_left = sorted_entries(inner_left);
            let sorted_right = sorted_entries(inner_right);
            within_is_transitive(sorted_left, inner_left, inner_right);
            within_is_transitive(sorted_left, inner_right, sorted_right);
            within_is_transitive(sorted_right, inner_right, inner_left);
            within_is_transitive(sorted_right, inner_left, sorted_left);
            sorted_members_are_in_one_order(sorted_left, sorted_right);
        },
        _ => {},
    }
}

/// Two texts whose values differ only in the order of the members of objects are
/// both taken, and have one canonical form.
pub proof fn texts_in_any_order_agree(a: Seq<char>, b: Seq<char>)
    requires
        parsed_json(a) is Ok,
        parsed_json(b) is Ok,
        keys_distinct(parsed_json(a)->Ok_0),
        keys_distinct(parsed_json(b)->Ok_0),
        reordered(parsed_json(a)->Ok_0, parsed_json(b)->Ok_0),
    ensures
        parse_outcome(a) is Ok,
        parse_outcome(a) == parse_outcome(b),
{
    member_order_is_immaterial(parsed_json(a)->Ok_0, parsed_json(b)->Ok_0);
}

/// What is canonical is taken back when it is read with its own digest,
/// whatever record it belongs to.
pub proof fn canonical_text_is_taken_back(entity: Seq<char>, key: Seq<char>, text: Seq<char>)
    requires
        is_canonical_text(text),
    ensures
        stored_fault(entity, key, text, text_digest(text)) is None,
{
}

/// A text with any other digest than its own is never taken back.
pub proof fn other_digests_are_refused(
    entity: Seq<char>,
    key: Seq<char>,
    text: Seq<char>,
    digest: Seq<char>,
)
    requires
        digest != text_digest(text),
    ensures
        stored_fault(entity, key, text, digest) is Some,
{
}

/// What is the same is equal.
pub proof fn same_is_alike(value: JsonTree)
    ensures
        alike(value, value),
    decreases value,
{
    match value {
        JsonTree::Array(items) => {
            assert forall|i: int| 0 <= i < items.len() implies alike(
                #[trigger] items[i],
                items[i],
            ) by {
                same_is_alike(items[i]);
            }
        },
        JsonTree::Object(entries) => {
            assert forall|i: int| 0 <= i < entries.len() implies alike(
                (#[trigger] entries[i]).1,
                entries[i].1,
            ) by {
                same_is_alike(entries[i].1);
            }
        },
        _ => {},
    }
}

/// Where all numbers are integers, only what is the same is equal.
pub proof fn alike_integers_are_same(a: JsonTree, b: JsonTree)
    requires
        integral(a),
        alike(a, b),
    ensures
        a == b,
    decreases a,
{
    match (a, b) {
        (JsonTree::Array(left), JsonTree::Array(right)) => {
            assert forall|i: int| 0 <= i < left.len() implies left[i] == right[i] by {
                alike_integers_are_same(left[i], right[i]);
            }
            assert(left =~= right);
        },
        (JsonTree::Object(left), JsonTree::Object(right)) => {
            assert forall|i: int| 0 <= i < left.len() implies left[i] == right[i] by {
                alike_integers_are_same(left[i].1, right[i].1);
            }
            assert(left =~= right);
        },
        _ => {},
    }
}

/// A stored text is taken back if it is readable, is written the one way in which
/// it is written, and has the digest that is stored with it.
pub proof fn only_intact_texts_are_taken_back(
    entity: Seq<char>,
    key: Seq<char>,
    text: Seq<char>,
    digest: Seq<char>,
)
    ensures
        stored_fault(entity, key, text, digest) is None <==> {
            &&& parsed_json(text) is Ok
            &&& json_text(canonical(parsed_json(text)->Ok_0)) == text
            &&& digest == lower_hex(sha256_digest(vstd::utf8::encode_utf8(text)))
        },
{
}

/// A digest is written with two characters for each byte, the higher half first.
pub proof fn digests_are_written_in_hex(bytes: Seq<u8>, i: int)
    requires
        0 <= i < bytes.len(),
    ensures
        lower_hex(bytes).len() == 2 * bytes.len(),
        ({
            let high = bytes[i] as int / 16;
            let low = bytes[i] as int % 16;
            &&& high < 10 ==> lower_hex(bytes)[2 * i] as int == '0' as int + high
            &&& high >= 10 ==> lower_hex(bytes)[2 * i] as int == 'a' as int + high - 10
            &&& low < 10 ==> lower_hex(bytes)[2 * i + 1] as int == '0' as int + low
            &&& low >= 10 ==> lower_hex(bytes)[2 * i + 1] as int == 'a' as int + low - 10
        }),
{
    assert((2 * i) / 2 == i && (2 * i) % 2 == 0);
    assert((2 * i + 1) / 2 == i && (2 * i + 1) % 2 == 1);
}

proof fn last_entries_win(entries: Seq<(Seq<char>, JsonTree)>, at: int)
    requires
        0 <= at < entries.len(),
        forall|j: int| at < j < entries.len() ==> (#[trigger] entries[j]).0 != entries[at].0,
    ensures
        sorted_entries(entries).contains(entries[at]),
    decreases entries.len(),
{
    let rest = entries.drop_last();
    let last = entries.last();
    if at == entries.len() - 1 {
        put_adds(sorted_entries(rest), last.0, last.1);
    } else {
        assert(rest[at] == entries[at]);
        assert forall|j: int| at < j < rest.len() implies (#[trigger] rest[j]).0 != rest[at].0 by {
            assert(rest[j] == entries[j]);
        }
        last_entries_win(rest, at);
        let before = sorted_entries(rest);
        let k = choose|k: int| 0 <= k < before.len() && before[k] == entries[at];
        assert(entries[entries.len() - 1].0 != entries[at].0);
        put_keeps(before, last.0, last.1, k);
    }
}

/// Writing a value in the one way loses nothing and adds nothing: what is no list
/// and no object stays as it is, a list keeps its items in their order, and an
/// object keeps under each name what was last given under it.
pub proof fn canonical_loses_nothing(value: JsonTree, at: int)
    ensures
        !(value is Array) && !(value is Object) ==> canonical(value) == value,
        value matches JsonTree::Array(items) ==> canonical(value) is Array && canonical(
            value,
        )->Array_0.len() == items.len() && (0 <= at < items.len() ==> canonical(value)->Array_0[at]
            == canonical(items[at])),
        value matches JsonTree::Object(entries) ==> canonical(value) is Object && (0 <= at
            < entries.len() && (forall|j: int|
            at < j < entries.len() ==> (#[trigger] entries[j]).0 != entries[at].0) ==> canonical(
            value,
        )->Object_0.contains((entries[at].0, canonical(entries[at].1)))) && (forall|k: int|
            0 <= k < canonical(value)->Object_0.len() ==> exists|j: int|
                0 <= j < entries.len() && (#[trigger] canonical(value)->Object_0[k]) == (
                    (#[trigger] entries[j]).0,
                    canonical(entries[j].1),
                )),
{
    match value {
        JsonTree::Object(entries) => {
            let all = canonical_entries(entries);
            sorting_sorts(all);
            if 0 <= at < entries.len() && (forall|j: int|
                at < j < entries.len() ==> (#[trigger] entries[j]).0 != entries[at].0) {
                assert forall|j: int| at < j < all.len() implies (#[trigger] all[j]).0
                    != all[at].0 by {
                    assert(all[j].0 == entries[j].0);
                }
                last_entries_win(all, at);
            }
            assert forall|k: int| 0 <= k < canonical(value)->Object_0.len() implies exists|j: int|
                0 <= j < entries.len() && (#[trigger] canonical(value)->Object_0[k]) == (
                    (#[trigger] entries[j]).0,
                    canonical(entries[j].1),
                ) by {
                let sorted = sorted_entries(all);
                let j = choose|j: int| 0 <= j < all.len() && all[j] == sorted[k];
                assert(entries[j].0 == all[j].0);
            }
        },
        _ => {},
    }
}

/// The member of an object under a name is the first that stands there; what is no
/// object has none.
pub proof fn members_are_found_by_name(
    entries: Seq<(Seq<char>, JsonTree)>,
    key: Seq<char>,
    at: int,
    other: JsonTree,
)
    ensures
        0 <= at < entries.len() && entries[at].0 == key && (forall|j: int|
            0 <= j < at ==> (#[trigger] entries[j]).0 != key) ==> member(
            JsonTree::Object(entries),
            key,
        ) == Some(entries[at].1),
        (forall|j: int| 0 <= j < entries.len() ==> (#[trigger] entries[j]).0 != key) ==> member(
            JsonTree::Object(entries),
            key,
        ) is None,
        !(other is Object) ==> member(other, key) is None,
        member_text(other, key) is Some <==> member(other, key) is Some && member(other, key)->0
            is Text,
        member_text(other, key) is Some ==> member(other, key) == Some(
            JsonTree::Text(member_text(other, key)->0),
        ),
{
    let keys = entry_keys(entries);
    text::first_index_facts(keys, key);
    if 0 <= at < entries.len() && entries[at].0 == key && (forall|j: int|
        0 <= j < at ==> (#[trigger] entries[j]).0 != key) {
        assert forall|j: int| 0 <= j < at implies keys[j] != key by {
            assert(entries[j].0 != key);
        }
        text::first_index_is(keys, key, at);
    }
    if forall|j: int| 0 <= j < entries.len() ==> (#[trigger] entries[j]).0 != key {
        if keys.contains(key) {
            let j = choose|j: int| 0 <= j < keys.len() && keys[j] == key;
            assert(entries[j].0 == key);
        }
    }
}

/// Only a minus sign is ever left out of a text, and a text without one stays as
/// it is.
pub proof fn only_signs_of_zeros_are_left_out(text: Seq<char>, n: int)
    requires
        0 <= n <= text.len(),
    ensures
        unsigned_to(text, n).len() <= n,
        (forall|i: int| 0 <= i < text.len() ==> #[trigger] text[i] != '-') ==> unsigned_to(text, n)
            == text.take(n),
    decreases n,
{
    if n > 0 {
        only_signs_of_zeros_are_left_out(text, n - 1);
        if forall|i: int| 0 <= i < text.len() ==> #[trigger] text[i] != '-' {
            if signed_zero_at(text, n - 1) {
                assert(text.subrange(n - 1, n + 3)[0] == text[n - 1]);
                assert(text[n - 1] == '-');
            }
            assert(text.take(n) == text.take(n - 1).push(text[n - 1]));
        }
    }
}

}
