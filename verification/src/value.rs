//! Runtime values: what evaluating a call's tokens produces, and what
//! commands return. A total order and a structural hash are derived so values
//! can be sorted and compared.

use vstd::prelude::*;

verus! {

broadcast use vstd::std_specs::vec::axiom_vec_index_decreases;

/// A runtime value. Lists nest; every other variant is scalar.
#[derive(Debug, PartialEq, Eq, PartialOrd, Ord, Hash)]
pub enum Value {
    Nothing,
    /// An integer, held as a machine word.
    Int(i64),
    /// A string value.
    String(String),
    /// A glob pattern, for example `foo*`.
    Pattern(String),
    /// A file path.
    Path(String),
    Boolean(bool),
    List(Vec<Value>),
}

/// The decimal digits, by value.
pub open spec fn digit_char(d: int) -> char {
    if d == 0 {
        '0'
    } else if d == 1 {
        '1'
    } else if d == 2 {
        '2'
    } else if d == 3 {
        '3'
    } else if d == 4 {
        '4'
    } else if d == 5 {
        '5'
    } else if d == 6 {
        '6'
    } else if d == 7 {
        '7'
    } else if d == 8 {
        '8'
    } else {
        '9'
    }
}

/// The decimal form of a non-negative integer.
pub open spec fn spec_nat_string(n: int) -> Seq<char>
    decreases n,
{
    if n < 10 {
        seq![digit_char(n)]
    } else {
        spec_nat_string(n / 10).push(digit_char(n % 10))
    }
}

/// The decimal form of an integer: a leading minus sign when negative.
pub open spec fn spec_int_string(i: int) -> Seq<char> {
    if i < 0 {
        seq!['-'] + spec_nat_string(-i)
    } else {
        spec_nat_string(i)
    }
}

/// The canonical string form of a value: scalars render directly, a list
/// renders its elements joined by single blanks, nothing renders empty.
pub open spec fn spec_value_string(v: Value) -> Seq<char>
    decreases v, 0int,
{
    match v {
        Value::Nothing => Seq::<char>::empty(),
        Value::Int(i) => spec_int_string(i as int),
        Value::String(s) => s@,
        Value::Pattern(s) => s@,
        Value::Path(s) => s@,
        Value::Boolean(b) => if b {
            "true"@
        } else {
            "false"@
        },
        Value::List(l) => spec_list_string(l, 0),
    }
}

/// The elements of `l` from `i` on, rendered and joined by single blanks.
pub open spec fn spec_list_string(l: Vec<Value>, i: int) -> Seq<char>
    decreases l, l@.len() - i,
{
    if 0 <= i < l@.len() {
        let head = spec_value_string(l@[i]);
        if i + 1 < l@.len() {
            head + seq![' '] + spec_list_string(l, i + 1)
        } else {
            head
        }
    } else {
        Seq::<char>::empty()
    }
}

fn digit_string(d: u64) -> (r: String)
    requires
        d < 10,
    ensures
        r@ == seq![digit_char(d as int)],
{
    proof {
        reveal_strlit("0");
        reveal_strlit("1");
        reveal_strlit("2");
        reveal_strlit("3");
        reveal_strlit("4");
        reveal_strlit("5");
        reveal_strlit("6");
        reveal_strlit("7");
        reveal_strlit("8");
        reveal_strlit("9");
    }
    let r = match d {
        0 => String::from_str("0"),
        1 => String::from_str("1"),
        2 => String::from_str("2"),
        3 => String::from_str("3"),
        4 => String::from_str("4"),
        5 => String::from_str("5"),
        6 => String::from_str("6"),
        7 => String::from_str("7"),
        8 => String::from_str("8"),
        _ => String::from_str("9"),
    };
    proof {
        assert(r@ =~= seq![digit_char(d as int)]);
    }
    r
}

fn nat_to_string(m: u64) -> (r: String)
    ensures
        r@ == spec_nat_string(m as int),
    decreases m,
{
    if m < 10 {
        digit_string(m)
    } else {
        let mut s = nat_to_string(m / 10);
        let d = digit_string(m % 10);
        s.append(d.as_str());
        proof {
            assert(s@ =~= spec_nat_string((m / 10) as int).push(digit_char((m % 10) as int)));
            assert((m as int) / 10 == (m / 10) as int);
        }
        s
    }
}

/// The decimal form of `i`.
pub fn int_to_string(i: i64) -> (r: String)
    ensures
        r@ == spec_int_string(i as int),
{
    if i < 0 {
        let m: u64 = (-(i as i128)) as u64;
        proof {
            reveal_strlit("-");
        }
        let mut s = String::from_str("-");
        let tail = nat_to_string(m);
        s.append(tail.as_str());
        proof {
            assert(s@ =~= seq!['-'] + spec_nat_string(m as int));
        }
        s
    } else {
        nat_to_string(i as u64)
    }
}

fn list_string(l: &Vec<Value>, i: usize) -> (r: String)
    requires
        i <= l@.len(),
    ensures
        r@ == spec_list_string(*l, i as int),
    decreases *l, l@.len() - i,
{
    if i >= l.len() {
        String::new()
    } else {
        let head = l[i].to_string();
        if i + 1 < l.len() {
            let mut s = head;
            proof {
                reveal_strlit(" ");
            }
            s.append(" ");
            let rest = list_string(l, i + 1);
            s.append(rest.as_str());
            proof {
                assert(s@ =~= spec_value_string(l@[i as int]) + seq![' '] + spec_list_string(
                    *l,
                    i + 1,
                ));
            }
            s
        } else {
            head
        }
    }
}

impl Value {
    /// The canonical string form of this value.
    pub fn to_string(&self) -> (r: String)
        ensures
            r@ == spec_value_string(*self),
        decreases *self, 1int,
    {
        match self {
            Value::Nothing => String::new(),
            Value::Int(i) => int_to_string(*i),
            Value::String(s) => s.clone(),
            Value::Pattern(s) => s.clone(),
            Value::Path(s) => s.clone(),
            Value::Boolean(b) => if *b {
                String::from_str("true")
            } else {
                String::from_str("false")
            },
            Value::List(l) => list_string(l, 0),
        }
    }
}

/// Vectors whose elements carry equal models render the same model sequence.
proof fn lemma_value_models_pointwise(a: Vec<Value>, b: Vec<Value>, i: int)
    requires
        a@.len() == b@.len(),
        forall|m: int| 0 <= m < a@.len() ==> value_model(#[trigger] a@[m]) == value_model(b@[m]),
    ensures
        value_models(a, i) == value_models(b, i),
    decreases a@.len() - i,
{
    if 0 <= i < a@.len() {
        lemma_value_models_pointwise(a, b, i + 1);
    }
}

impl Clone for Value {
    /// A structural copy: the clone carries the same model as the original.
    fn clone(&self) -> (r: Self)
        ensures
            value_model(r) == value_model(*self),
        decreases *self,
    {
        match self {
            Value::Nothing => Value::Nothing,
            Value::Int(i) => Value::Int(*i),
            Value::String(s) => Value::String(s.clone()),
            Value::Pattern(s) => Value::Pattern(s.clone()),
            Value::Path(s) => Value::Path(s.clone()),
            Value::Boolean(b) => Value::Boolean(*b),
            Value::List(l) => {
                let mut out: Vec<Value> = Vec::new();
                let mut n: usize = 0;
                while n < l.len()
                    invariant
                        n <= l@.len(),
                        *self == Value::List(*l),
                        out@.len() == n,
                        forall|m: int|
                            0 <= m < n ==> value_model(#[trigger] out@[m]) == value_model(l@[m]),
                    decreases l@.len() - n,
                {
                    proof {
                        assert(decreases_to!(*self => self->List_0));
                        assert(decreases_to!(self->List_0 => self->List_0[n as int]));
                        assert(decreases_to!(*self => l[n as int]));
                    }
                    out.push(l[n].clone());
                    n = n + 1;
                }
                let r = Value::List(out);
                proof {
                    lemma_value_models_pointwise(out, *l, 0);
                }
                r
            },
        }
    }
}


/// The mathematical model of a value: what contracts speak of.
pub enum ValueModel {
    Nothing,
    Int(int),
    String(Seq<char>),
    Pattern(Seq<char>),
    Path(Seq<char>),
    Boolean(bool),
    List(Seq<ValueModel>),
}

/// The model of a value.
pub open spec fn value_model(v: Value) -> ValueModel
    decreases v, 0int,
{
    match v {
        Value::Nothing => ValueModel::Nothing,
        Value::Int(i) => ValueModel::Int(i as int),
        Value::String(s) => ValueModel::String(s@),
        Value::Pattern(s) => ValueModel::Pattern(s@),
        Value::Path(s) => ValueModel::Path(s@),
        Value::Boolean(b) => ValueModel::Boolean(b),
        Value::List(l) => ValueModel::List(value_models(l, 0)),
    }
}

/// The models of the elements of `l` from `i` on.
pub open spec fn value_models(l: Vec<Value>, i: int) -> Seq<ValueModel>
    decreases l, l@.len() - i,
{
    if 0 <= i < l@.len() {
        seq![value_model(l@[i])] + value_models(l, i + 1)
    } else {
        Seq::<ValueModel>::empty()
    }
}

impl View for Value {
    type V = ValueModel;

    open spec fn view(&self) -> ValueModel {
        value_model(*self)
    }
}

} // verus!
