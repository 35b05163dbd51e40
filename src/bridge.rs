use vstd::prelude::*;
use crate::error::{Error, HydeError};
use crate::files::{fields_from_pairs, fields_map, lemma_fields_round_trip, pairs_to_fields};
use crate::metadata::map_of;
use crate::value::{Value, ValueList, EntryList, decimal, int_text};

verus! {

/// A value of the scripting runtime.
///
/// Numbers are carried as their IEEE-754 bit pattern; functions and host
/// objects are handles that the runtime hands out.
#[derive(Debug)]
pub enum ScriptValue {
    Nil,
    Boolean(bool),
    Integer(i64),
    Number(u64),
    Str(String),
    Table(ScriptTable),
    Function(u64),
    UserData(u64),
    LightUserData(u64),
}

/// A table of the scripting runtime: its sequence part (the values under
/// the keys 1, 2, ...), its other integer keys, its string-keyed part, and
/// whether it is marked as an array. Keys of other types (non-integral
/// numbers, booleans, tables, functions) have no place in it.
#[derive(Debug)]
pub struct ScriptTable {
    pub seq: ScriptList,
    pub indexed: ScriptIndexed,
    pub fields: ScriptFields,
    pub array: bool,
}

/// The sequence part of a table, in key order.
#[derive(Debug)]
pub enum ScriptList {
    Empty,
    Cons(Box<ScriptValue>, Box<ScriptList>),
}

/// The integer keys of a table outside its sequence part.
#[derive(Debug)]
pub enum ScriptIndexed {
    Empty,
    Cons(i64, Box<ScriptValue>, Box<ScriptIndexed>),
}

/// The string-keyed part of a table.
#[derive(Debug)]
pub enum ScriptFields {
    Empty,
    Cons(String, Box<ScriptValue>, Box<ScriptFields>),
}

/// A scalar as the template engine sees it.
#[derive(Debug, PartialEq)]
pub enum Scalar {
    Bool(bool),
    Int(i64),
    Real(u64),
    Str(String),
}

// ---------------------------------------------------------------------------
// Conversion from template values to script values.

/// The script value that a template value becomes.
pub open spec fn script_of(v: Value) -> ScriptValue
    decreases v,
{
    match v {
        Value::Nil => ScriptValue::Nil,
        Value::Bool(b) => ScriptValue::Boolean(b),
        Value::Int(i) => ScriptValue::Integer(i),
        Value::Real(bits) => ScriptValue::Number(bits),
        Value::Str(s) => ScriptValue::Str(s),
        Value::Array(l) => ScriptValue::Table(
            ScriptTable { seq: script_list_of(l), indexed: ScriptIndexed::Empty, fields: ScriptFields::Empty, array: true },
        ),
        Value::Object(e) => ScriptValue::Table(
            ScriptTable { seq: ScriptList::Empty, indexed: ScriptIndexed::Empty, fields: script_fields_of(e), array: false },
        ),
    }
}

/// The sequence part that the items of a template sequence become.
pub open spec fn script_list_of(l: ValueList) -> ScriptList
    decreases l,
{
    match l {
        ValueList::Empty => ScriptList::Empty,
        ValueList::Cons(h, t) => ScriptList::Cons(
            Box::new(script_of(*h)),
            Box::new(script_list_of(*t)),
        ),
    }
}

/// The string-keyed part that the entries of a template map become.
pub open spec fn script_fields_of(e: EntryList) -> ScriptFields
    decreases e,
{
    match e {
        EntryList::Empty => ScriptFields::Empty,
        EntryList::Cons(k, v, t) => ScriptFields::Cons(
            k,
            Box::new(script_of(*v)),
            Box::new(script_fields_of(*t)),
        ),
    }
}

// ---------------------------------------------------------------------------
// Conversion from script values to template values.

/// The template value that a script value stands for, if it has one:
/// functions and host objects have none, nor has a table with integer keys
/// outside its sequence, or one that mixes a sequence part with string keys.
pub open spec fn value_of(s: ScriptValue) -> Option<Value>
    decreases s,
{
    match s {
        ScriptValue::Nil => Some(Value::Nil),
        ScriptValue::Boolean(b) => Some(Value::Bool(b)),
        ScriptValue::Integer(i) => Some(Value::Int(i)),
        ScriptValue::Number(bits) => Some(Value::Real(bits)),
        ScriptValue::Str(t) => Some(Value::Str(t)),
        ScriptValue::Table(t) => {
            if !(t.indexed is Empty) {
                None
            } else if t.fields is Empty && (t.array || !(t.seq is Empty)) {
                match list_of(t.seq) {
                    Some(l) => Some(Value::Array(l)),
                    None => None,
                }
            } else if t.seq is Empty {
                match entries_of(t.fields) {
                    Some(e) => Some(Value::Object(e)),
                    None => None,
                }
            } else {
                None
            }
        },
        _ => None,
    }
}

/// The items that a sequence part stands for, if every value has one.
pub open spec fn list_of(l: ScriptList) -> Option<ValueList>
    decreases l,
{
    match l {
        ScriptList::Empty => Some(ValueList::Empty),
        ScriptList::Cons(h, t) => match (value_of(*h), list_of(*t)) {
            (Some(hv), Some(tv)) => Some(ValueList::Cons(Box::new(hv), Box::new(tv))),
            _ => None,
        },
    }
}

/// The entries that a string-keyed part stands for, if every value has one.
pub open spec fn entries_of(f: ScriptFields) -> Option<EntryList>
    decreases f,
{
    match f {
        ScriptFields::Empty => Some(EntryList::Empty),
        ScriptFields::Cons(k, v, t) => match (value_of(*v), entries_of(*t)) {
            (Some(vv), Some(tv)) => Some(EntryList::Cons(k, Box::new(vv), Box::new(tv))),
            _ => None,
        },
    }
}

/// A template value that goes into the scripting runtime and comes back
/// unchanged comes back as the same value: scalars, sequences and maps,
/// nested to any depth.
pub proof fn bridge_round_trip(v: Value)
    ensures
        value_of(script_of(v)) == Some(v),
    decreases v,
{
    match v {
        Value::Array(l) => {
            list_round_trip(l);
        },
        Value::Object(e) => {
            entries_round_trip(e);
        },
        _ => {},
    }
}

/// The items of a sequence come back unchanged from the scripting runtime.
pub proof fn list_round_trip(l: ValueList)
    ensures
        list_of(script_list_of(l)) == Some(l),
    decreases l,
{
    match l {
        ValueList::Empty => {},
        ValueList::Cons(h, t) => {
            bridge_round_trip(*h);
            list_round_trip(*t);
        },
    }
}

/// The entries of a map come back unchanged from the scripting runtime.
pub proof fn entries_round_trip(e: EntryList)
    ensures
        entries_of(script_fields_of(e)) == Some(e),
    decreases e,
{
    match e {
        EntryList::Empty => {},
        EntryList::Cons(k, v, t) => {
            bridge_round_trip(*v);
            entries_round_trip(*t);
        },
    }
}

/// Converts a template value into a script value.
pub fn to_script(v: &Value) -> (r: ScriptValue)
    ensures
        r == script_of(*v),
    decreases v,
{
    match v {
        Value::Nil => ScriptValue::Nil,
        Value::Bool(b) => ScriptValue::Boolean(*b),
        Value::Int(i) => ScriptValue::Integer(*i),
        Value::Real(bits) => ScriptValue::Number(*bits),
        Value::Str(s) => ScriptValue::Str(s.clone()),
        Value::Array(l) => ScriptValue::Table(
            ScriptTable { seq: to_script_list(l), indexed: ScriptIndexed::Empty, fields: ScriptFields::Empty, array: true },
        ),
        Value::Object(e) => ScriptValue::Table(
            ScriptTable { seq: ScriptList::Empty, indexed: ScriptIndexed::Empty, fields: to_script_fields(e), array: false },
        ),
    }
}

/// Converts the items of a template sequence into a sequence part.
pub fn to_script_list(l: &ValueList) -> (r: ScriptList)
    ensures
        r == script_list_of(*l),
    decreases l,
{
    match l {
        ValueList::Empty => ScriptList::Empty,
        ValueList::Cons(h, t) => ScriptList::Cons(
            Box::new(to_script(h)),
            Box::new(to_script_list(t)),
        ),
    }
}

/// Converts the entries of a template map into a string-keyed part.
pub fn to_script_fields(e: &EntryList) -> (r: ScriptFields)
    ensures
        r == script_fields_of(*e),
    decreases e,
{
    match e {
        EntryList::Empty => ScriptFields::Empty,
        EntryList::Cons(k, v, t) => ScriptFields::Cons(
            k.clone(),
            Box::new(to_script(v)),
            Box::new(to_script_fields(t)),
        ),
    }
}

/// Converts a script value back into a template value, where it has one.
pub fn from_script(s: &ScriptValue) -> (r: Option<Value>)
    ensures
        r == value_of(*s),
    decreases s,
{
    match s {
        ScriptValue::Nil => Some(Value::Nil),
        ScriptValue::Boolean(b) => Some(Value::Bool(*b)),
        ScriptValue::Integer(i) => Some(Value::Int(*i)),
        ScriptValue::Number(bits) => Some(Value::Real(*bits)),
        ScriptValue::Str(t) => Some(Value::Str(t.clone())),
        ScriptValue::Table(t) => {
            let no_fields = matches!(t.fields, ScriptFields::Empty);
            let no_seq = matches!(t.seq, ScriptList::Empty);
            if !matches!(t.indexed, ScriptIndexed::Empty) {
                None
            } else if no_fields && (t.array || !no_seq) {
                match from_script_list(&t.seq) {
                    Some(l) => Some(Value::Array(l)),
                    None => None,
                }
            } else if no_seq {
                match from_script_fields(&t.fields) {
                    Some(e) => Some(Value::Object(e)),
                    None => None,
                }
            } else {
                None
            }
        },
        _ => None,
    }
}

/// Converts a sequence part back into the items of a template sequence.
pub fn from_script_list(l: &ScriptList) -> (r: Option<ValueList>)
    ensures
        r == list_of(*l),
    decreases l,
{
    match l {
        ScriptList::Empty => Some(ValueList::Empty),
        ScriptList::Cons(h, t) => match (from_script(h), from_script_list(t)) {
            (Some(hv), Some(tv)) => Some(ValueList::Cons(Box::new(hv), Box::new(tv))),
            _ => None,
        },
    }
}

/// Converts a string-keyed part back into the entries of a template map.
pub fn from_script_fields(f: &ScriptFields) -> (r: Option<EntryList>)
    ensures
        r == entries_of(*f),
    decreases f,
{
    match f {
        ScriptFields::Empty => Some(EntryList::Empty),
        ScriptFields::Cons(k, v, t) => match (from_script(v), from_script_fields(t)) {
            (Some(vv), Some(tv)) => Some(EntryList::Cons(k.clone(), Box::new(vv), Box::new(tv))),
            _ => None,
        },
    }
}

// ---------------------------------------------------------------------------
// How a script value answers the template engine's queries.

/// Truthiness: booleans are themselves, nil is false, everything else true.
pub open spec fn spec_truthy(s: ScriptValue) -> bool {
    match s {
        ScriptValue::Boolean(b) => b,
        ScriptValue::Nil => false,
        _ => true,
    }
}

/// The "default" state: nil, false, zero (of either sign), the empty
/// string, or a null light handle.
pub open spec fn spec_is_default(s: ScriptValue) -> bool {
    match s {
        ScriptValue::Nil => true,
        ScriptValue::Boolean(b) => !b,
        ScriptValue::Integer(i) => i == 0,
        ScriptValue::Number(bits) => bits == 0 || bits == 0x8000_0000_0000_0000,
        ScriptValue::Str(t) => t@.len() == 0,
        ScriptValue::LightUserData(a) => a == 0,
        _ => false,
    }
}

/// A table without keys.
pub open spec fn table_is_empty(t: ScriptTable) -> bool {
    t.seq is Empty && t.indexed is Empty && t.fields is Empty
}

/// The "blank" state: nil, the empty string, or an empty table.
pub open spec fn spec_is_blank(s: ScriptValue) -> bool {
    match s {
        ScriptValue::Nil => true,
        ScriptValue::Str(t) => t@.len() == 0,
        ScriptValue::Table(t) => table_is_empty(t),
        _ => false,
    }
}

/// The "empty" state: an empty table.
pub open spec fn spec_is_empty(s: ScriptValue) -> bool {
    match s {
        ScriptValue::Table(t) => table_is_empty(t),
        _ => false,
    }
}

/// The scalar form of a value: booleans, integers, numbers and strings have
/// one, nothing else has.
pub open spec fn spec_scalar(s: ScriptValue) -> Option<Scalar> {
    match s {
        ScriptValue::Boolean(b) => Some(Scalar::Bool(b)),
        ScriptValue::Integer(i) => Some(Scalar::Int(i)),
        ScriptValue::Number(bits) => Some(Scalar::Real(bits)),
        ScriptValue::Str(t) => Some(Scalar::Str(t)),
        _ => None,
    }
}

/// Tables and host objects can be viewed both as arrays and as objects.
pub open spec fn spec_is_container(s: ScriptValue) -> bool {
    s is Table || s is UserData
}

impl ScriptValue {
    /// Whether the value counts as true in a template condition.
    pub fn truthy(&self) -> (r: bool)
        ensures
            r == spec_truthy(*self),
    {
        match self {
            ScriptValue::Boolean(b) => *b,
            ScriptValue::Nil => false,
            _ => true,
        }
    }

    /// Whether the value is an empty table.
    pub fn is_empty(&self) -> (r: bool)
        ensures
            r == spec_is_empty(*self),
    {
        match self {
            ScriptValue::Table(t) => t.is_empty(),
            _ => false,
        }
    }

    /// Whether the value is nil.
    pub fn is_nil(&self) -> (r: bool)
        ensures
            r == (*self is Nil),
    {
        matches!(self, ScriptValue::Nil)
    }

    /// The scalar form of the value, if it has one.
    pub fn as_scalar(&self) -> (r: Option<Scalar>)
        ensures
            r == spec_scalar(*self),
    {
        match self {
            ScriptValue::Boolean(b) => Some(Scalar::Bool(*b)),
            ScriptValue::Integer(i) => Some(Scalar::Int(*i)),
            ScriptValue::Number(bits) => Some(Scalar::Real(*bits)),
            ScriptValue::Str(t) => Some(Scalar::Str(t.clone())),
            _ => None,
        }
    }

    /// Whether the value has a scalar form.
    pub fn is_scalar(&self) -> (r: bool)
        ensures
            r == (spec_scalar(*self) is Some),
    {
        match self {
            ScriptValue::Boolean(_) | ScriptValue::Integer(_) | ScriptValue::Number(_)
            | ScriptValue::Str(_) => true,
            _ => false,
        }
    }

    /// Whether the value can be viewed as an array or an object.
    pub fn is_container(&self) -> (r: bool)
        ensures
            r == spec_is_container(*self),
    {
        matches!(self, ScriptValue::Table(_) | ScriptValue::UserData(_))
    }
}

/// Whether a value is in its "default" state.
pub fn is_value_default(value: &ScriptValue) -> (r: bool)
    ensures
        r == spec_is_default(*value),
{
    match value {
        ScriptValue::Nil => true,
        ScriptValue::Boolean(b) => !*b,
        ScriptValue::Integer(i) => *i == 0,
        ScriptValue::Number(bits) => *bits == 0 || *bits == 0x8000_0000_0000_0000,
        ScriptValue::Str(t) => t.as_str().is_empty(),
        ScriptValue::LightUserData(a) => *a == 0,
        _ => false,
    }
}

/// Whether a value is "blank".
pub fn is_value_blank(value: &ScriptValue) -> (r: bool)
    ensures
        r == spec_is_blank(*value),
{
    match value {
        ScriptValue::Nil => true,
        ScriptValue::Str(t) => t.as_str().is_empty(),
        ScriptValue::Table(t) => t.is_empty(),
        _ => false,
    }
}

/// The values of a sequence part, in key order.
pub open spec fn seq_items(l: ScriptList) -> Seq<ScriptValue>
    decreases l,
{
    match l {
        ScriptList::Empty => Seq::empty(),
        ScriptList::Cons(h, t) => seq![*h].add(seq_items(*t)),
    }
}

/// The value under string key `k`, if any.
pub open spec fn field_lookup(f: ScriptFields, k: Seq<char>) -> Option<ScriptValue>
    decreases f,
{
    match f {
        ScriptFields::Empty => None,
        ScriptFields::Cons(key, v, t) => if key@ == k {
            Some(*v)
        } else {
            field_lookup(*t, k)
        },
    }
}

/// The string keys, in order.
pub open spec fn field_keys(f: ScriptFields) -> Seq<Seq<char>>
    decreases f,
{
    match f {
        ScriptFields::Empty => Seq::empty(),
        ScriptFields::Cons(key, v, t) => seq![key@].add(field_keys(*t)),
    }
}

/// The 0-based position that a template array index stands for: from the
/// start when it is not negative, from the end when it is.
pub open spec fn array_position(index: int, size: int) -> int {
    if index >= 0 {
        index
    } else {
        size + index
    }
}

impl ScriptTable {
    /// Whether the table is empty.
    pub fn is_empty(&self) -> (r: bool)
        ensures
            r == table_is_empty(*self),
    {
        matches!(self.seq, ScriptList::Empty) && matches!(self.indexed, ScriptIndexed::Empty)
            && matches!(self.fields, ScriptFields::Empty)
    }

    /// The length of the sequence part, the runtime's `#` operator (held at
    /// `usize::MAX` should it be longer).
    pub fn size(&self) -> (r: usize)
        ensures
            r == (if seq_items(self.seq).len() < usize::MAX {
                seq_items(self.seq).len()
            } else {
                usize::MAX as nat
            }),
    {
        list_len(&self.seq)
    }

    /// The element at a template array index (0-based; a negative index
    /// counts from the end). The scripting runtime's own keys start at 1, so
    /// index `i` reads key `i + 1`.
    pub fn array_get(&self, index: i64) -> (r: Option<&ScriptValue>)
        ensures
            ({
                let items = seq_items(self.seq);
                let p = array_position(index as int, items.len() as int);
                r == (if 0 <= p < items.len() {
                    Some(&items[p])
                } else {
                    None
                })
            }),
    {
        if index >= 0 {
            list_nth(&self.seq, index as u64)
        } else {
            let k: u64 = (0 - (index as i128)) as u64;
            match list_nth_back(&self.seq, k) {
                Ok(v) => Some(v),
                Err(_) => None,
            }
        }
    }

    /// Whether a template array index reads an element.
    pub fn array_contains(&self, index: i64) -> (r: bool)
        ensures
            ({
                let items = seq_items(self.seq);
                let p = array_position(index as int, items.len() as int);
                r == (0 <= p < items.len())
            }),
    {
        self.array_get(index).is_some()
    }

    /// The value under a string key.
    pub fn object_get(&self, key: &str) -> (r: Option<&ScriptValue>)
        ensures
            r matches Some(v) ==> field_lookup(self.fields, key@) == Some(*v),
            r is None ==> field_lookup(self.fields, key@) is None,
    {
        fields_get(&self.fields, key)
    }

    /// Whether a string key has a value.
    pub fn object_contains(&self, key: &str) -> (r: bool)
        ensures
            r == (field_lookup(self.fields, key@) is Some),
    {
        fields_get(&self.fields, key).is_some()
    }

    /// The keys as text, in the runtime's iteration order: the sequence
    /// positions 1, 2, ..., the other integer keys, then the string keys.
    /// (A sequence of 2^63 - 1 values or more cannot be numbered.)
    pub fn keys(&self) -> (r: Vec<String>)
        ensures
            seq_items(self.seq).len() < i64::MAX ==> texts_of(r@) == table_keys(*self),
    {
        let mut out: Vec<String> = Vec::new();
        let ghost items = seq_items(self.seq);
        let mut cur = &self.seq;
        let mut k: u64 = 0;
        loop
            invariant
                k <= items.len(),
                seq_items(*cur) == items.subrange(k as int, items.len() as int),
                texts_of(out@) == position_keys(k as nat),
            ensures
                k <= items.len(),
                seq_items(*cur) == items.subrange(k as int, items.len() as int),
                texts_of(out@) == position_keys(k as nat),
                seq_items(*cur).len() == 0 || k >= i64::MAX,
            decreases seq_items(*cur).len(),
        {
            match cur {
                ScriptList::Empty => {
                    break;
                },
                ScriptList::Cons(_, t) => {
                    assert(seq_items(*cur).subrange(1, seq_items(*cur).len() as int) =~= seq_items(
                        **t,
                    ));
                    if k >= i64::MAX as u64 {
                        break;
                    }
                    let ghost before = out@;
                    out.push(nat_text(k + 1));
                    assert(texts_of(out@) =~= texts_of(before).push(decimal(k + 1)));
                    k = k + 1;
                    assert(items.subrange(k - 1, items.len() as int).subrange(
                        1,
                        items.len() - (k - 1),
                    ) =~= items.subrange(k as int, items.len() as int));
                    cur = &**t;
                },
            }
        }
        proof {
            if items.len() < i64::MAX {
                assert(k == items.len());
                assert(texts_of(out@) =~= position_keys(items.len()));
            }
        }
        let ghost before = out@;
        indexed_keys_into(&self.indexed, &mut out);
        let ghost middle = out@;
        fields_keys_into(&self.fields, &mut out);
        proof {
            if items.len() < i64::MAX {
                assert(texts_of(out@) =~= table_keys(*self));
            }
        }
        out
    }
}

/// The texts of a list of strings.
pub open spec fn texts_of(v: Seq<String>) -> Seq<Seq<char>> {
    v.map_values(|k: String| k@)
}

/// The texts of the sequence positions 1 to `n`.
pub open spec fn position_keys(n: nat) -> Seq<Seq<char>> {
    Seq::new(n, |i: int| decimal(i + 1))
}

/// The texts of the integer keys outside the sequence part, in order.
pub open spec fn indexed_keys(x: ScriptIndexed) -> Seq<Seq<char>>
    decreases x,
{
    match x {
        ScriptIndexed::Empty => Seq::empty(),
        ScriptIndexed::Cons(k, v, t) => seq![decimal(k as int)].add(indexed_keys(*t)),
    }
}

/// The keys of a table as text, in the runtime's iteration order.
pub open spec fn table_keys(t: ScriptTable) -> Seq<Seq<char>> {
    position_keys(seq_items(t.seq).len()) + indexed_keys(t.indexed) + field_keys(t.fields)
}

/// The decimal text of a count.
fn nat_text(n: u64) -> (r: String)
    requires
        n <= i64::MAX,
    ensures
        r@ == decimal(n as int),
{
    int_text(n as i64)
}

/// Appends the texts of the integer keys of `x`, in order.
fn indexed_keys_into(x: &ScriptIndexed, out: &mut Vec<String>)
    ensures
        texts_of(final(out)@) == texts_of(old(out)@) + indexed_keys(*x),
    decreases x,
{
    match x {
        ScriptIndexed::Empty => {
            assert(texts_of(old(out)@) + indexed_keys(*x) =~= texts_of(old(out)@));
        },
        ScriptIndexed::Cons(k, _, t) => {
            let ghost before = out@;
            out.push(int_text(*k));
            assert(texts_of(out@) =~= texts_of(before).push(decimal(*k as int)));
            indexed_keys_into(t, out);
            assert(texts_of(before).push(decimal(*k as int)) + indexed_keys(**t) =~= texts_of(before)
                + indexed_keys(*x));
        },
    }
}

/// The length of a sequence part, held at `usize::MAX`.
fn list_len(l: &ScriptList) -> (r: usize)
    ensures
        r == (if seq_items(*l).len() < usize::MAX {
            seq_items(*l).len()
        } else {
            usize::MAX as nat
        }),
    decreases l,
{
    match l {
        ScriptList::Empty => 0,
        ScriptList::Cons(_, t) => {
            let n = list_len(t);
            if n == usize::MAX {
                n
            } else {
                n + 1
            }
        },
    }
}

/// The element at 0-based position `i`.
fn list_nth(l: &ScriptList, i: u64) -> (r: Option<&ScriptValue>)
    ensures
        r == (if i < seq_items(*l).len() {
            Some(&seq_items(*l)[i as int])
        } else {
            None
        }),
    decreases l,
{
    match l {
        ScriptList::Empty => None,
        ScriptList::Cons(h, t) => {
            if i == 0 {
                Some(&**h)
            } else {
                let r = list_nth(t, i - 1);
                assert(seq_items(*l).subrange(1, seq_items(*l).len() as int) =~= seq_items(**t));
                r
            }
        },
    }
}

/// The element `k` places from the end (`k` = 1 is the last), or the length
/// where there are fewer than `k` elements.
fn list_nth_back(l: &ScriptList, k: u64) -> (r: Result<&ScriptValue, u64>)
    requires
        k >= 1,
    ensures
        ({
            let items = seq_items(*l);
            if k <= items.len() {
                r == Ok::<&ScriptValue, u64>(&items[items.len() - k])
            } else {
                r == Err::<&ScriptValue, u64>(items.len() as u64)
            }
        }),
    decreases l,
{
    match l {
        ScriptList::Empty => Err(0),
        ScriptList::Cons(h, t) => {
            let r = list_nth_back(t, k);
            assert(seq_items(*l).subrange(1, seq_items(*l).len() as int) =~= seq_items(**t));
            match r {
                Ok(v) => Ok(v),
                Err(c) => {
                    if c + 1 == k {
                        Ok(&**h)
                    } else {
                        Err(c + 1)
                    }
                },
            }
        },
    }
}

/// The value under string key `key`.
fn fields_get<'a>(f: &'a ScriptFields, key: &str) -> (r: Option<&'a ScriptValue>)
    ensures
        r matches Some(v) ==> field_lookup(*f, key@) == Some(*v),
        r is None ==> field_lookup(*f, key@) is None,
    decreases f,
{
    match f {
        ScriptFields::Empty => None,
        ScriptFields::Cons(k, v, t) => {
            if crate::metadata::str_eq(k.as_str(), key) {
                Some(&**v)
            } else {
                fields_get(t, key)
            }
        },
    }
}

/// Appends the string keys of `f`, in order.
fn fields_keys_into(f: &ScriptFields, out: &mut Vec<String>)
    ensures
        texts_of(final(out)@) == texts_of(old(out)@) + field_keys(*f),
    decreases f,
{
    match f {
        ScriptFields::Empty => {
            assert(texts_of(old(out)@) + field_keys(*f) =~= texts_of(old(out)@));
        },
        ScriptFields::Cons(k, _, t) => {
            let ghost before = out@;
            out.push(k.clone());
            assert(texts_of(out@) =~= texts_of(before).push(k@));
            fields_keys_into(t, out);
            assert(texts_of(before).push(k@) + field_keys(**t) =~= texts_of(before) + field_keys(*f));
        },
    }
}

/// Script values converted during one top-level render pass, owned here so
/// that views handed to the template engine stay valid until the pass ends.
#[derive(Debug)]
pub struct ValueArena {
    pub values: Vec<ScriptValue>,
}

impl ValueArena {
    /// An empty arena.
    pub fn new() -> (r: ValueArena)
        ensures
            r.values@.len() == 0,
    {
        ValueArena { values: Vec::new() }
    }

    /// Takes ownership of a value; returns the slot it can be read from.
    pub fn store_value(&mut self, v: ScriptValue) -> (r: usize)
        ensures
            final(self).values@ == old(self).values@.push(v),
            r == old(self).values@.len(),
    {
        let r = self.values.len();
        self.values.push(v);
        r
    }

    /// The value in a slot, while the pass lasts.
    pub fn get(&self, slot: usize) -> (r: Option<&ScriptValue>)
        ensures
            r == (if slot < self.values@.len() {
                Some(&self.values@[slot as int])
            } else {
                None
            }),
    {
        if slot < self.values.len() {
            Some(&self.values[slot])
        } else {
            None
        }
    }
}

/// Empties the arena at the start of a top-level render pass.
pub fn clear_values(arena: &mut ValueArena)
    ensures
        final(arena).values@.len() == 0,
{
    arena.values.clear();
}

/// What a script-registered filter is called with: the input, a table of
/// the keyword arguments, and the positional arguments in order.
#[derive(Debug)]
pub struct FilterCall {
    pub input: ScriptValue,
    pub keywords: ScriptValue,
    pub positional: Vec<ScriptValue>,
}

/// The script values of a list of template values, in order.
pub open spec fn scripts_of(v: Seq<Value>) -> Seq<ScriptValue> {
    v.map_values(|x: Value| script_of(x))
}

/// Converts template values into script values, in order.
pub fn to_script_all(v: &Vec<Value>) -> (r: Vec<ScriptValue>)
    ensures
        r@ == scripts_of(v@),
{
    let mut out: Vec<ScriptValue> = Vec::new();
    let mut i: usize = 0;
    while i < v.len()
        invariant
            i <= v@.len(),
            out@ == scripts_of(v@.subrange(0, i as int)),
        decreases v@.len() - i,
    {
        out.push(to_script(&v[i]));
        i = i + 1;
        assert(out@ =~= scripts_of(v@.subrange(0, i as int)));
    }
    assert(v@.subrange(0, i as int) =~= v@);
    out
}

/// Prepares the arguments of a script-registered filter.
pub fn filter_call(input: &Value, keywords: &Vec<(String, Value)>, positional: &Vec<Value>) -> (r:
    FilterCall)
    ensures
        r.input == script_of(*input),
        r.keywords == ScriptValue::Table(
            ScriptTable { seq: ScriptList::Empty, indexed: ScriptIndexed::Empty, fields: fields_from_pairs(keywords@), array: false },
        ),
        r.positional@ == scripts_of(positional@),
{
    FilterCall {
        input: to_script(input),
        keywords: ScriptValue::Table(
            ScriptTable { seq: ScriptList::Empty, indexed: ScriptIndexed::Empty, fields: pairs_to_fields(keywords), array: false },
        ),
        positional: to_script_all(positional),
    }
}

/// The template value of what a script function returned; a value without
/// one is an error.
pub fn script_result(s: &ScriptValue) -> (r: Result<Value, Error>)
    ensures
        value_of(*s) matches Some(v) ==> r == Ok::<Value, Error>(v),
        value_of(*s) is None ==> (r matches Err(e) && e.kind == HydeError::NotConvertible),
{
    match from_script(s) {
        Some(v) => Ok(v),
        None => Err(Error::new(HydeError::NotConvertible)),
    }
}

/// Every argument a filter receives stands for exactly the template value it
/// was made from: the input, each positional argument, and the keyword
/// table as a whole.
pub proof fn filter_arguments_round_trip(input: Value, keywords: Seq<(String, Value)>, positional: Seq<Value>)
    ensures
        value_of(script_of(input)) == Some(input),
        forall|i: int|
            0 <= i < positional.len() ==> value_of(#[trigger] scripts_of(positional)[i]) == Some(
                positional[i],
            ),
        fields_map(fields_from_pairs(keywords)) == Some(map_of(keywords)),
{
    bridge_round_trip(input);
    assert forall|i: int| 0 <= i < positional.len() implies value_of(
        #[trigger] scripts_of(positional)[i],
    ) == Some(positional[i]) by {
        bridge_round_trip(positional[i]);
    }
    lemma_fields_round_trip(keywords);
}

} // verus!
