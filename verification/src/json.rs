//! JSON values and their text.
//!
//! A value is a tagged variant with structural equality; an object keeps its
//! members in order. The compact and the indented text of a value are
//! specified over the model of the value, and the members of an object are
//! written in the order in which they are held: the text of a response
//! depends on that order. String literals are quoted by `serde_json`, so
//! that escaping is the one that its readers expect.

use vstd::prelude::*;
use vstd::string::*;
use crate::text::{str_eq, texts, view_of};

verus! {

/// A JSON number: a non-negative integer, a negative integer, or the text of
/// any other number.
#[derive(Debug, PartialEq, Eq)]
pub enum JsonNumber {
    PosInt(u64),
    NegInt(i64),
    Float(String),
}

/// The model of a [`JsonNumber`].
pub enum NumberModel {
    PosInt(u64),
    NegInt(i64),
    Float(Seq<char>),
}

impl View for JsonNumber {
    type V = NumberModel;

    open spec fn view(&self) -> NumberModel {
        match self {
            JsonNumber::PosInt(n) => NumberModel::PosInt(*n),
            JsonNumber::NegInt(n) => NumberModel::NegInt(*n),
            JsonNumber::Float(t) => NumberModel::Float(t@),
        }
    }
}

/// A JSON value.
#[derive(Debug, PartialEq, Eq)]
pub enum JsonValue {
    Null,
    Bool(bool),
    Number(JsonNumber),
    String(String),
    Array(Vec<JsonValue>),
    Object(Vec<(String, JsonValue)>),
}

/// The model of a [`JsonValue`].
pub enum JsonModel {
    Null,
    Bool(bool),
    Number(NumberModel),
    String(Seq<char>),
    Array(Seq<JsonModel>),
    Object(Seq<(Seq<char>, JsonModel)>),
}

/// The models of a list of values.
pub open spec fn models(items: Seq<JsonValue>) -> Seq<JsonModel>
    decreases items,
{
    Seq::new(
        items.len(),
        |i: int|
            if 0 <= i < items.len() {
                items[i].model()
            } else {
                JsonModel::Null
            },
    )
}

/// The models of a list of object members.
pub open spec fn member_models(entries: Seq<(String, JsonValue)>) -> Seq<(Seq<char>, JsonModel)>
    decreases entries,
{
    Seq::new(
        entries.len(),
        |i: int|
            if 0 <= i < entries.len() {
                (entries[i].0@, entries[i].1.model())
            } else {
                (Seq::empty(), JsonModel::Null)
            },
    )
}

impl JsonValue {
    /// The value as a mathematical value.
    pub open spec fn model(&self) -> JsonModel
        decreases self,
    {
        match self {
            JsonValue::Null => JsonModel::Null,
            JsonValue::Bool(b) => JsonModel::Bool(*b),
            JsonValue::Number(n) => JsonModel::Number(n@),
            JsonValue::String(s) => JsonModel::String(s@),
            JsonValue::Array(items) => JsonModel::Array(models(items@)),
            JsonValue::Object(entries) => JsonModel::Object(member_models(entries@)),
        }
    }
}

impl View for JsonValue {
    type V = JsonModel;

    open spec fn view(&self) -> JsonModel {
        self.model()
    }
}

/// The character for the hexadecimal digit `d`, in lower case.
pub open spec fn lower_hex(d: int) -> char {
    if d < 10 {
        (d + 48) as char
    } else {
        (d + 87) as char
    }
}

/// What stands for a character inside a JSON string: the quote and the
/// backslash behind a backslash, a backslash and a letter for the five
/// control characters that have one, `\u00` and two hexadecimal digits for
/// any other character below the space, and every other character as it is.
pub open spec fn escaped_char(c: char) -> Seq<char> {
    if c == '"' {
        seq!['\\', '"']
    } else if c == '\\' {
        seq!['\\', '\\']
    } else if c == '\u{8}' {
        seq!['\\', 'b']
    } else if c == '\u{c}' {
        seq!['\\', 'f']
    } else if c == '\n' {
        seq!['\\', 'n']
    } else if c == '\r' {
        seq!['\\', 'r']
    } else if c == '\t' {
        seq!['\\', 't']
    } else if (c as u32) < 0x20 {
        seq!['\\', 'u', '0', '0', lower_hex((c as int) / 16), lower_hex((c as int) % 16)]
    } else {
        seq![c]
    }
}

/// The characters of `s` as they stand inside a JSON string.
pub open spec fn escaped(s: Seq<char>) -> Seq<char>
    decreases s.len(),
{
    if s.len() == 0 {
        Seq::empty()
    } else {
        escaped(s.drop_last()) + escaped_char(s.last())
    }
}

/// The JSON string literal for `s`: its escaped characters between double
/// quotes.
pub open spec fn json_string(s: Seq<char>) -> Seq<char> {
    seq!['"'] + escaped(s) + seq!['"']
}

/// `serde_json::to_string` on a string slice, which writes it as a JSON
/// string literal.
#[verifier::external_body]
fn quote(s: &str) -> (r: String)
    ensures
        r@ == json_string(s@),
{
    serde_json::to_string(s).unwrap_or_default()
}

/// The character for the decimal digit `d`.
pub open spec fn digit(d: int) -> char {
    (d + 48) as char
}

/// The decimal numeral for `n`, without leading zeros.
pub open spec fn decimal(n: nat) -> Seq<char>
    decreases n,
{
    if n < 10 {
        seq![digit(n as int)]
    } else {
        decimal(n / 10).push(digit((n % 10) as int))
    }
}

/// The text of a number: integers in decimal, other numbers as they are held.
pub open spec fn number_text(n: NumberModel) -> Seq<char> {
    match n {
        NumberModel::PosInt(u) => decimal(u as nat),
        NumberModel::NegInt(i) => if i < 0 {
            seq!['-'] + decimal((-i) as nat)
        } else {
            decimal(i as nat)
        },
        NumberModel::Float(t) => t,
    }
}

/// A comma, except before the first item of a list.
pub open spec fn comma_before(n: nat) -> Seq<char> {
    if n > 1 {
        seq![',']
    } else {
        Seq::empty()
    }
}

/// The compact JSON text of a value: no whitespace between its tokens.
pub open spec fn compact(v: JsonModel) -> Seq<char>
    decreases v, 0nat,
{
    match v {
        JsonModel::Null => seq!['n', 'u', 'l', 'l'],
        JsonModel::Bool(b) => if b {
            seq!['t', 'r', 'u', 'e']
        } else {
            seq!['f', 'a', 'l', 's', 'e']
        },
        JsonModel::Number(n) => number_text(n),
        JsonModel::String(s) => json_string(s),
        JsonModel::Array(items) => seq!['['] + compact_items(items, items.len()) + seq![']'],
        JsonModel::Object(members) => seq!['{'] + compact_members(members, members.len())
            + seq!['}'],
    }
}

/// The compact text of the first `n` items, separated by commas.
pub open spec fn compact_items(items: Seq<JsonModel>, n: nat) -> Seq<char>
    decreases items, n,
{
    if n == 0 || n > items.len() {
        Seq::empty()
    } else {
        compact_items(items, (n - 1) as nat) + comma_before(n) + compact(items[n - 1])
    }
}

/// The compact text of the first `n` members, separated by commas.
pub open spec fn compact_members(members: Seq<(Seq<char>, JsonModel)>, n: nat) -> Seq<char>
    decreases members, n,
{
    if n == 0 || n > members.len() {
        Seq::empty()
    } else {
        compact_members(members, (n - 1) as nat) + comma_before(n) + json_string(members[n - 1].0)
            + seq![':'] + compact(members[n - 1].1)
    }
}

/// The indented JSON text of a value whose line starts with `indent`: every
/// item of a non-empty array or object stands on a line of its own, two
/// spaces further in.
pub open spec fn pretty(v: JsonModel, indent: Seq<char>) -> Seq<char>
    decreases v, 0nat,
{
    match v {
        JsonModel::Array(items) => if items.len() == 0 {
            seq!['[', ']']
        } else {
            seq!['['] + pretty_items(items, items.len(), indent + seq![' ', ' ']) + seq!['\n']
                + indent + seq![']']
        },
        JsonModel::Object(members) => if members.len() == 0 {
            seq!['{', '}']
        } else {
            seq!['{'] + pretty_members(members, members.len(), indent + seq![' ', ' ']) + seq![
                '\n',
            ] + indent + seq!['}']
        },
        _ => compact(v),
    }
}

/// The indented text of the first `n` items, each on a line that starts
/// with `indent`.
pub open spec fn pretty_items(items: Seq<JsonModel>, n: nat, indent: Seq<char>) -> Seq<char>
    decreases items, n,
{
    if n == 0 || n > items.len() {
        Seq::empty()
    } else {
        pretty_items(items, (n - 1) as nat, indent) + comma_before(n) + seq!['\n'] + indent
            + pretty(items[n - 1], indent)
    }
}

/// The indented text of the first `n` members, each on a line that starts
/// with `indent`.
pub open spec fn pretty_members(
    members: Seq<(Seq<char>, JsonModel)>,
    n: nat,
    indent: Seq<char>,
) -> Seq<char>
    decreases members, n,
{
    if n == 0 || n > members.len() {
        Seq::empty()
    } else {
        pretty_members(members, (n - 1) as nat, indent) + comma_before(n) + seq!['\n'] + indent
            + json_string(members[n - 1].0) + seq![':', ' '] + pretty(members[n - 1].1, indent)
    }
}

/// Index of the first member with the given key among the first `n`.
pub open spec fn find_member(members: Seq<(Seq<char>, JsonModel)>, key: Seq<char>, n: nat) -> Option<
    int,
>
    decreases n,
{
    if n == 0 || n > members.len() {
        None
    } else {
        match find_member(members, key, (n - 1) as nat) {
            Some(i) => Some(i),
            None => if members[n - 1].0 == key {
                Some(n - 1)
            } else {
                None
            },
        }
    }
}

/// A key that is first found at index `i` is found there in every longer
/// prefix of the members.
pub proof fn lemma_find_member_at(
    members: Seq<(Seq<char>, JsonModel)>,
    key: Seq<char>,
    i: int,
    n: nat,
)
    requires
        0 <= i < n <= members.len(),
        find_member(members, key, i as nat) is None,
        members[i].0 == key,
    ensures
        find_member(members, key, n) == Some(i),
    decreases n,
{
    if n > i + 1 {
        lemma_find_member_at(members, key, i, (n - 1) as nat);
    }
}

/// A key is found among the members exactly if one of them has it, and then
/// at the first index that has it.
pub proof fn lemma_find_member(members: Seq<(Seq<char>, JsonModel)>, key: Seq<char>, n: nat)
    requires
        n <= members.len(),
    ensures
        match find_member(members, key, n) {
            Some(i) => 0 <= i < n && members[i].0 == key && forall|j: int|
                0 <= j < i ==> (#[trigger] members[j]).0 != key,
            None => forall|j: int| 0 <= j < n ==> (#[trigger] members[j]).0 != key,
        },
    decreases n,
{
    if n > 0 {
        lemma_find_member(members, key, (n - 1) as nat);
    }
}

/// A key is looked up at the first index that has it.
pub proof fn lemma_lookup_at(members: Seq<(Seq<char>, JsonModel)>, key: Seq<char>, i: int)
    requires
        0 <= i < members.len(),
        members[i].0 == key,
        forall|j: int| 0 <= j < i ==> (#[trigger] members[j]).0 != key,
    ensures
        lookup(members, key) == Some(members[i].1),
{
    lemma_find_member(members, key, members.len());
}

/// The member with the given key, the first if there are several.
pub open spec fn lookup(members: Seq<(Seq<char>, JsonModel)>, key: Seq<char>) -> Option<JsonModel> {
    match find_member(members, key, members.len()) {
        Some(i) => Some(members[i].1),
        None => None,
    }
}

/// The keys of the members in order.
pub open spec fn member_keys(members: Seq<(Seq<char>, JsonModel)>) -> Seq<Seq<char>> {
    Seq::new(members.len(), |i: int| members[i].0)
}

impl JsonModel {
    /// The member of an object with the given key, the first if there are
    /// several; nothing for a value that is no object.
    pub open spec fn get(self, key: Seq<char>) -> Option<JsonModel> {
        match self {
            JsonModel::Object(members) => lookup(members, key),
            _ => None,
        }
    }

    /// The keys of an object in order; nothing for a value that is no object.
    pub open spec fn keys(self) -> Seq<Seq<char>> {
        match self {
            JsonModel::Object(members) => member_keys(members),
            _ => Seq::empty(),
        }
    }
}

/// Appends the decimal numeral for `n`.
fn write_decimal(n: u64, out: &mut String)
    ensures
        final(out)@ == old(out)@ + decimal(n as nat),
    decreases n,
{
    if n >= 10 {
        write_decimal(n / 10, out);
    }
    let d: u8 = (n % 10) as u8;
    out.push((d + 48) as char);
}

/// The decimal numeral for `n`.
pub fn decimal_text(n: u64) -> (r: String)
    ensures
        r@ == decimal(n as nat),
{
    let mut out = String::new();
    write_decimal(n, &mut out);
    out
}

/// Appends the text of a number.
fn write_number(n: &JsonNumber, out: &mut String)
    ensures
        final(out)@ == old(out)@ + number_text(n@),
{
    match n {
        JsonNumber::PosInt(u) => write_decimal(*u, out),
        JsonNumber::NegInt(i) => {
            if *i < 0 {
                out.push('-');
                let magnitude: u64 = (-(*i + 1)) as u64 + 1;
                write_decimal(magnitude, out);
            } else {
                write_decimal(*i as u64, out);
            }
        },
        JsonNumber::Float(t) => out.push_str(t.as_str()),
    }
}

/// Appends the compact text of a value.
fn write_compact(v: &JsonValue, out: &mut String)
    ensures
        final(out)@ == old(out)@ + compact(v@),
    decreases v,
{
    match v {
        JsonValue::Null => {
            out.push_str("null");
            proof {
                reveal_strlit("null");
            }
        },
        JsonValue::Bool(b) => {
            if *b {
                out.push_str("true");
            } else {
                out.push_str("false");
            }
            proof {
                reveal_strlit("true");
                reveal_strlit("false");
            }
        },
        JsonValue::Number(n) => write_number(n, out),
        JsonValue::String(s) => {
            let quoted = quote(s.as_str());
            out.push_str(quoted.as_str());
        },
        JsonValue::Array(items) => {
            out.push('[');
            write_compact_items(items, out);
            out.push(']');
        },
        JsonValue::Object(entries) => {
            out.push('{');
            write_compact_members(entries, out);
            out.push('}');
        },
    }
}

/// Appends the compact text of the items, separated by commas.
fn write_compact_items(items: &Vec<JsonValue>, out: &mut String)
    ensures
        final(out)@ == old(out)@ + compact_items(models(items@), items@.len()),
    decreases items,
{
    let mut i: usize = 0;
    while i < items.len()
        invariant
            i <= items.len(),
            out@ == old(out)@ + compact_items(models(items@), i as nat),
        decreases items.len() - i,
    {
        if i > 0 {
            out.push(',');
        }
        write_compact(&items[i], out);
        i += 1;
    }
}

/// Appends the compact text of the members, separated by commas.
fn write_compact_members(entries: &Vec<(String, JsonValue)>, out: &mut String)
    ensures
        final(out)@ == old(out)@ + compact_members(member_models(entries@), entries@.len()),
    decreases entries,
{
    let mut i: usize = 0;
    while i < entries.len()
        invariant
            i <= entries.len(),
            out@ == old(out)@ + compact_members(member_models(entries@), i as nat),
        decreases entries.len() - i,
    {
        if i > 0 {
            out.push(',');
        }
        let quoted = quote(entries[i].0.as_str());
        out.push_str(quoted.as_str());
        out.push(':');
        write_compact(&entries[i].1, out);
        i += 1;
    }
}

/// The indentation one level below `indent`.
fn deeper(indent: &str) -> (r: String)
    ensures
        r@ == indent@ + seq![' ', ' '],
{
    let mut inner = indent.to_owned();
    inner.push_str("  ");
    proof {
        reveal_strlit("  ");
    }
    inner
}

/// Appends the indented text of a value whose line starts with `indent`.
fn write_pretty(v: &JsonValue, indent: &str, out: &mut String)
    ensures
        final(out)@ == old(out)@ + pretty(v@, indent@),
    decreases v,
{
    match v {
        JsonValue::Array(items) => {
            if items.len() == 0 {
                out.push_str("[]");
                proof {
                    reveal_strlit("[]");
                }
            } else {
                let inner = deeper(indent);
                out.push('[');
                write_pretty_items(items, inner.as_str(), out);
                out.push('\n');
                out.push_str(indent);
                out.push(']');
            }
        },
        JsonValue::Object(entries) => {
            if entries.len() == 0 {
                out.push_str("{}");
                proof {
                    reveal_strlit("{}");
                }
            } else {
                let inner = deeper(indent);
                out.push('{');
                write_pretty_members(entries, inner.as_str(), out);
                out.push('\n');
                out.push_str(indent);
                out.push('}');
            }
        },
        _ => write_compact(v, out),
    }
}

/// Appends the indented text of the items, each on a line that starts with
/// `indent`.
fn write_pretty_items(items: &Vec<JsonValue>, indent: &str, out: &mut String)
    ensures
        final(out)@ == old(out)@ + pretty_items(models(items@), items@.len(), indent@),
    decreases items,
{
    let mut i: usize = 0;
    while i < items.len()
        invariant
            i <= items.len(),
            out@ == old(out)@ + pretty_items(models(items@), i as nat, indent@),
        decreases items.len() - i,
    {
        if i > 0 {
            out.push(',');
        }
        out.push('\n');
        out.push_str(indent);
        write_pretty(&items[i], indent, out);
        i += 1;
    }
}

/// Appends the indented text of the members, each on a line that starts
/// with `indent`.
fn write_pretty_members(entries: &Vec<(String, JsonValue)>, indent: &str, out: &mut String)
    ensures
        final(out)@ == old(out)@ + pretty_members(
            member_models(entries@),
            entries@.len(),
            indent@,
        ),
    decreases entries,
{
    let mut i: usize = 0;
    while i < entries.len()
        invariant
            i <= entries.len(),
            out@ == old(out)@ + pretty_members(member_models(entries@), i as nat, indent@),
        decreases entries.len() - i,
    {
        if i > 0 {
            out.push(',');
        }
        out.push('\n');
        out.push_str(indent);
        let quoted = quote(entries[i].0.as_str());
        out.push_str(quoted.as_str());
        out.push_str(": ");
        proof {
            reveal_strlit(": ");
        }
        write_pretty(&entries[i].1, indent, out);
        i += 1;
    }
}

/// The member with the given key, the first if there are several.
pub fn find<'a>(entries: &'a Vec<(String, JsonValue)>, key: &str) -> (r: Option<&'a JsonValue>)
    ensures
        lookup(member_models(entries@), key@) == view_of(r),
{
    let mut i: usize = 0;
    while i < entries.len()
        invariant
            i <= entries.len(),
            find_member(member_models(entries@), key@, i as nat) is None,
        decreases entries.len() - i,
    {
        if str_eq(entries[i].0.as_str(), key) {
            proof {
                lemma_find_member_at(member_models(entries@), key@, i as int, entries@.len());
            }
            return Some(&entries[i].1);
        }
        i += 1;
    }
    None
}

/// The keys of the members in order.
pub fn keys_of(entries: &Vec<(String, JsonValue)>) -> (r: Vec<String>)
    ensures
        texts(r@) == member_keys(member_models(entries@)),
{
    let mut out: Vec<String> = Vec::new();
    let mut i: usize = 0;
    while i < entries.len()
        invariant
            i <= entries.len(),
            out@.len() == i,
            forall|j: int| 0 <= j < i ==> (#[trigger] out@[j])@ == entries@[j].0@,
        decreases entries.len() - i,
    {
        out.push(entries[i].0.clone());
        i += 1;
    }
    out
}

impl JsonValue {
    /// The compact JSON text of the value.
    pub fn to_compact(&self) -> (r: String)
        ensures
            r@ == compact(self@),
    {
        let mut out = String::new();
        write_compact(self, &mut out);
        out
    }

    /// The indented JSON text of the value.
    pub fn to_pretty(&self) -> (r: String)
        ensures
            r@ == pretty(self@, Seq::empty()),
    {
        let mut out = String::new();
        write_pretty(self, "", &mut out);
        proof {
            reveal_strlit("");
        }
        out
    }

    /// The member of an object with the given key, the first if there are
    /// several; nothing for a value that is no object.
    pub fn get(&self, key: &str) -> (r: Option<&JsonValue>)
        ensures
            self@.get(key@) == view_of(r),
    {
        match self {
            JsonValue::Object(entries) => find(entries, key),
            _ => None,
        }
    }

    /// The keys of an object in order; nothing for a value that is no object.
    pub fn keys(&self) -> (r: Vec<String>)
        ensures
            texts(r@) == self@.keys(),
    {
        match self {
            JsonValue::Object(entries) => keys_of(entries),
            _ => {
                let out: Vec<String> = Vec::new();
                out
            },
        }
    }

    /// A copy of the value.
    #[verifier::loop_isolation(false)]
    pub fn deep_clone(&self) -> (r: JsonValue)
        ensures
            r@ == self@,
        decreases self,
    {
        match self {
            JsonValue::Null => JsonValue::Null,
            JsonValue::Bool(b) => JsonValue::Bool(*b),
            JsonValue::Number(n) => JsonValue::Number(
                match n {
                    JsonNumber::PosInt(u) => JsonNumber::PosInt(*u),
                    JsonNumber::NegInt(i) => JsonNumber::NegInt(*i),
                    JsonNumber::Float(t) => JsonNumber::Float(t.clone()),
                },
            ),
            JsonValue::String(s) => JsonValue::String(s.clone()),
            JsonValue::Array(items) => {
                let mut out: Vec<JsonValue> = Vec::new();
                let mut i: usize = 0;
                while i < items.len()
                    invariant
                        i <= items.len(),
                        models(out@) == models(items@).take(i as int),
                    decreases items.len() - i,
                {
                    out.push(items[i].deep_clone());
                    i += 1;
                }
                assert(models(items@).take(i as int) =~= models(items@));
                JsonValue::Array(out)
            },
            JsonValue::Object(entries) => {
                let mut out: Vec<(String, JsonValue)> = Vec::new();
                let mut i: usize = 0;
                while i < entries.len()
                    invariant
                        i <= entries.len(),
                        member_models(out@) == member_models(entries@).take(i as int),
                    decreases entries.len() - i,
                {
                    out.push((entries[i].0.clone(), entries[i].1.deep_clone()));
                    i += 1;
                }
                assert(member_models(entries@).take(i as int) =~= member_models(entries@));
                JsonValue::Object(out)
            },
        }
    }
}

} // verus!
