use vstd::prelude::*;
use vstd::string::*;

verus! {

/// A runtime value.
///
/// `Tuple` is part of the value model but no term produces or consumes it.
#[derive(Debug, PartialEq, Eq)]
pub enum Value {
    Int(i32),
    Bool(bool),
    Str(String),
    Tuple(Box<Value>, Box<Value>),
    Void,
}

/// The mathematical model of a `Value`: strings are seen as their characters.
pub enum SpecValue {
    Int(i32),
    Bool(bool),
    Str(Seq<char>),
    Tuple(Box<SpecValue>, Box<SpecValue>),
    Void,
}

/// The model of a value.
pub open spec fn value_view(v: Value) -> SpecValue
    decreases v,
{
    match v {
        Value::Int(i) => SpecValue::Int(i),
        Value::Bool(b) => SpecValue::Bool(b),
        Value::Str(s) => SpecValue::Str(s@),
        Value::Tuple(a, b) => SpecValue::Tuple(
            Box::new(value_view(*a)),
            Box::new(value_view(*b)),
        ),
        Value::Void => SpecValue::Void,
    }
}

impl View for Value {
    type V = SpecValue;

    open spec fn view(&self) -> SpecValue {
        value_view(*self)
    }
}

impl Value {
    /// A copy of this value with the same model.
    pub fn duplicate(&self) -> (r: Value)
        ensures
            r@ == self@,
        decreases self,
    {
        match self {
            Value::Int(i) => Value::Int(*i),
            Value::Bool(b) => Value::Bool(*b),
            Value::Str(s) => Value::Str(s.clone()),
            Value::Tuple(a, b) => {
                let a2 = a.duplicate();
                let b2 = b.duplicate();
                Value::Tuple(Box::new(a2), Box::new(b2))
            },
            Value::Void => Value::Void,
        }
    }
}

/// The character of a decimal digit.
pub open spec fn digit_char(d: nat) -> char
    recommends
        d < 10,
{
    seq!['0', '1', '2', '3', '4', '5', '6', '7', '8', '9'][d as int]
}

/// The decimal digits of a natural number, most significant first, without
/// leading zeros (zero itself is `0`).
pub open spec fn digits(n: nat) -> Seq<char>
    decreases n,
{
    if n < 10 {
        seq![digit_char(n)]
    } else {
        digits(n / 10).push(digit_char(n % 10))
    }
}

/// The decimal text of an integer: a `-` before the digits of a negative one.
pub open spec fn decimal(n: int) -> Seq<char> {
    if n < 0 {
        seq!['-'] + digits((-n) as nat)
    } else {
        digits(n as nat)
    }
}

/// The line that printing a value writes, or `None` for a value that cannot be
/// printed.
pub open spec fn printed(v: SpecValue) -> Option<Seq<char>> {
    match v {
        SpecValue::Int(i) => Some(decimal(i as int)),
        SpecValue::Str(s) => Some(s),
        SpecValue::Bool(b) => Some(bool_text(b)),
        _ => None,
    }
}

/// The text of a boolean.
pub open spec fn bool_text(b: bool) -> Seq<char> {
    if b {
        seq!['t', 'r', 'u', 'e']
    } else {
        seq!['f', 'a', 'l', 's', 'e']
    }
}

fn digit_str(d: u32) -> (r: &'static str)
    requires
        d < 10,
    ensures
        r@ == seq![digit_char(d as nat)],
{
    proof {
        reveal_strlit("0");
        reveal_strlit("1");
        reveal_strlit("2");
        reveal_strlit("3");
        reveal_strlit("4");
        reveal_strlit("5");
        reveal_strlit("6");
        reveal_strlit("7");
        reveal_strlit("8");
        reveal_strlit("9");
    }
    let r = match d {
        0 => "0",
        1 => "1",
        2 => "2",
        3 => "3",
        4 => "4",
        5 => "5",
        6 => "6",
        7 => "7",
        8 => "8",
        _ => "9",
    };
    assert(r@ =~= seq![digit_char(d as nat)]);
    r
}

fn append_digits(s: &mut String, n: u32)
    ensures
        final(s)@ == old(s)@ + digits(n as nat),
    decreases n,
{
    if n >= 10 {
        append_digits(s, n / 10);
    }
    let d = digit_str(n % 10);
    s.append(d);
    assert(final(s)@ =~= old(s)@ + digits(n as nat));
}

/// Appends the decimal text of `n` to `s`.
pub fn append_decimal(s: &mut String, n: i32)
    ensures
        final(s)@ == old(s)@ + decimal(n as int),
{
    if n < 0 {
        s.append("-");
        proof {
            reveal_strlit("-");
        }
        let m: u32 = (-(n as i64)) as u32;
        append_digits(s, m);
        assert(final(s)@ =~= old(s)@ + decimal(n as int));
    } else {
        append_digits(s, n as u32);
    }
}

/// The decimal text of `n`.
pub fn decimal_string(n: i32) -> (r: String)
    ensures
        r@ == decimal(n as int),
{
    let mut s = String::new();
    append_decimal(&mut s, n);
    assert(s@ =~= decimal(n as int));
    s
}

impl Value {
    /// The line that printing this value writes, or `None` where the value
    /// cannot be printed (a tuple or void).
    pub fn print_line(&self) -> (r: Option<String>)
        ensures
            r matches Some(l) ==> printed(self@) == Some(l@),
            r is None ==> printed(self@) is None,
    {
        match self {
            Value::Int(i) => Some(decimal_string(*i)),
            Value::Str(s) => Some(s.clone()),
            Value::Bool(b) => {
                proof {
                    reveal_strlit("true");
                    reveal_strlit("false");
                }
                let l = if *b {
                    String::from_str("true")
                } else {
                    String::from_str("false")
                };
                assert(l@ =~= bool_text(*b));
                Some(l)
            },
            _ => None,
        }
    }
}

} // verus!
