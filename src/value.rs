use vstd::prelude::*;

verus! {

/// A structured metadata or template value: null, boolean, number, string,
/// sequence or nested map.
///
/// Floating-point numbers are carried as their IEEE-754 bit pattern, so the
/// library never computes with them. Sequences and maps are linked lists, so
/// that equality of values is plain structural equality.
#[derive(Debug, PartialEq)]
pub enum Value {
    Nil,
    Bool(bool),
    Int(i64),
    Real(u64),
    Str(String),
    Array(ValueList),
    Object(EntryList),
}

/// The items of a sequence value, in order.
#[derive(Debug, PartialEq)]
pub enum ValueList {
    Empty,
    Cons(Box<Value>, Box<ValueList>),
}

/// The entries of a map value, in order.
#[derive(Debug, PartialEq)]
pub enum EntryList {
    Empty,
    Cons(String, Box<Value>, Box<EntryList>),
}

impl ValueList {
    /// The items as a sequence.
    pub open spec fn items(self) -> Seq<Value>
        decreases self,
    {
        match self {
            ValueList::Empty => Seq::empty(),
            ValueList::Cons(h, t) => seq![*h].add(t.items()),
        }
    }
}

impl EntryList {
    /// The entries as a sequence of key and value.
    pub open spec fn entries(self) -> Seq<(Seq<char>, Value)>
        decreases self,
    {
        match self {
            EntryList::Empty => Seq::empty(),
            EntryList::Cons(k, v, t) => seq![(k@, *v)].add(t.entries()),
        }
    }
}

/// Copies a value; the copy equals it.
pub fn copy_value(v: &Value) -> (r: Value)
    ensures
        r == *v,
    decreases v,
{
    match v {
        Value::Nil => Value::Nil,
        Value::Bool(b) => Value::Bool(*b),
        Value::Int(i) => Value::Int(*i),
        Value::Real(bits) => Value::Real(*bits),
        Value::Str(s) => Value::Str(s.clone()),
        Value::Array(items) => Value::Array(copy_list(items)),
        Value::Object(entries) => Value::Object(copy_entries(entries)),
    }
}

/// Copies the items of a sequence value.
pub fn copy_list(l: &ValueList) -> (r: ValueList)
    ensures
        r == *l,
    decreases l,
{
    match l {
        ValueList::Empty => ValueList::Empty,
        ValueList::Cons(h, t) => ValueList::Cons(Box::new(copy_value(h)), Box::new(copy_list(t))),
    }
}

/// Copies the entries of a map value.
pub fn copy_entries(l: &EntryList) -> (r: EntryList)
    ensures
        r == *l,
    decreases l,
{
    match l {
        EntryList::Empty => EntryList::Empty,
        EntryList::Cons(k, v, t) => EntryList::Cons(
            k.clone(),
            Box::new(copy_value(v)),
            Box::new(copy_entries(t)),
        ),
    }
}

/// The decimal digit character for `d < 10`.
pub open spec fn digit_char(d: nat) -> char {
    if d == 0 { '0' } else if d == 1 { '1' } else if d == 2 { '2' } else if d == 3 { '3' }
    else if d == 4 { '4' } else if d == 5 { '5' } else if d == 6 { '6' } else if d == 7 { '7' }
    else if d == 8 { '8' } else { '9' }
}

/// The decimal digits of a natural number, most significant first.
pub open spec fn digits(n: nat) -> Seq<char>
    decreases n,
{
    if n < 10 {
        seq![digit_char(n)]
    } else {
        digits(n / 10) + seq![digit_char(n % 10)]
    }
}

/// The decimal text of an integer, with a leading `-` when negative.
pub open spec fn decimal(i: int) -> Seq<char> {
    if i < 0 {
        seq!['-'] + digits((-i) as nat)
    } else {
        digits(i as nat)
    }
}

fn digit_text(d: u64) -> (r: &'static str)
    requires
        d < 10,
    ensures
        r@ == seq![digit_char(d as nat)],
{
    proof {
        reveal_strlit("0");
        reveal_strlit("1");
        reveal_strlit("2");
        reveal_strlit("3");
        reveal_strlit("4");
        reveal_strlit("5");
        reveal_strlit("6");
        reveal_strlit("7");
        reveal_strlit("8");
        reveal_strlit("9");
    }
    if d == 0 { "0" } else if d == 1 { "1" } else if d == 2 { "2" } else if d == 3 { "3" }
    else if d == 4 { "4" } else if d == 5 { "5" } else if d == 6 { "6" } else if d == 7 { "7" }
    else if d == 8 { "8" } else { "9" }
}

/// Appends the decimal digits of `n`.
fn push_digits(out: &mut String, n: u64)
    ensures
        final(out)@ == old(out)@ + digits(n as nat),
    decreases n,
{
    if n >= 10 {
        push_digits(out, n / 10);
    }
    out.append(digit_text(n % 10));
    assert(out@ =~= old(out)@ + digits(n as nat)) by {
        if n >= 10 {
            assert(digits(n as nat) == digits((n / 10) as nat) + seq![digit_char((n % 10) as nat)]);
        }
    }
}

/// The decimal text of an integer.
pub fn int_text(i: i64) -> (r: String)
    ensures
        r@ == decimal(i as int),
{
    let mut r = String::new();
    if i < 0 {
        r.append("-");
        proof {
            reveal_strlit("-");
        }
        let m: u64 = (0 - (i as i128)) as u64;
        push_digits(&mut r, m);
    } else {
        push_digits(&mut r, i as u64);
    }
    r
}

} // verus!
