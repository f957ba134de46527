//! Runtime values: a closed union passed by shared handle.
//!
//! `Integer` carries the language's single numeric type, a signed machine
//! integer.  `Return` is the sentinel that unwinds block statements; only a
//! call unwraps it.  `Function` is a closure: parameter list and body shared
//! with the syntax tree, plus the frame it captured.

use crate::ast::{BlockStatement, Identifier};
use crate::chars::chars_to_string;
use std::rc::Rc;
use vstd::prelude::*;
use vstd::string::StringExecFns;

verus! {

#[derive(Debug, PartialEq, Eq, Clone, Copy, Structural)]
#[allow(non_camel_case_types)]
pub enum ObjectType {
    INTEGER,
    BOOLEAN,
    RETURN,
    FUNCTION,
    NULL,
}

#[derive(Debug, PartialEq)]
pub struct BooleanObj {
    pub value: bool,
}

/// The unwind sentinel around a returned value.
#[derive(Debug, PartialEq)]
pub struct Return {
    pub value: Rc<Object>,
}

/// A closure: the parameters and body of its literal, and the index of the
/// environment frame it captured.
#[derive(Debug, PartialEq)]
pub struct Function {
    pub parameters: Rc<Vec<Identifier>>,
    pub body: Rc<BlockStatement>,
    pub env: usize,
}

#[derive(Debug, PartialEq)]
pub struct Null {}

#[derive(Debug, PartialEq)]
pub enum Object {
    Integer(i64),
    Boolean(BooleanObj),
    Return(Return),
    Function(Function),
    Null(Null),
}

/// The truthiness rule used by `if` conditions: booleans stand for
/// themselves, null and zero are false, any other number is true, and a
/// function value counts as false (callers should not rely on this).
pub open spec fn spec_truthy(o: Object) -> bool {
    match o {
        Object::Boolean(b) => b.value,
        Object::Integer(n) => n != 0,
        Object::Null(_) => false,
        _ => false,
    }
}

/// Whether a value drives an `if` into its consequence branch.
pub fn is_truthy(condition: Rc<Object>) -> (r: bool)
    ensures
        r == spec_truthy(*condition),
{
    match &*condition {
        Object::Boolean(b) => b.value,
        Object::Integer(n) => *n != 0,
        _ => false,
    }
}

/// The character standing for one decimal digit.
pub open spec fn digit_char(d: int) -> char {
    if d == 0 {
        '0'
    } else if d == 1 {
        '1'
    } else if d == 2 {
        '2'
    } else if d == 3 {
        '3'
    } else if d == 4 {
        '4'
    } else if d == 5 {
        '5'
    } else if d == 6 {
        '6'
    } else if d == 7 {
        '7'
    } else if d == 8 {
        '8'
    } else {
        '9'
    }
}

/// The decimal digits of a non-negative number, most significant first.
pub open spec fn nat_chars(n: int) -> Seq<char>
    decreases n,
{
    if n < 0 {
        Seq::empty()
    } else if n < 10 {
        seq![digit_char(n)]
    } else {
        nat_chars(n / 10).push(digit_char(n % 10))
    }
}

/// The decimal rendering of a number, with a leading minus when negative.
pub open spec fn int_chars(n: int) -> Seq<char> {
    if n < 0 {
        seq!['-'] + nat_chars(-n)
    } else {
        nat_chars(n)
    }
}

fn digit_char_of(d: u64) -> (c: char)
    requires
        d < 10,
    ensures
        c == digit_char(d as int),
{
    if d == 0 {
        '0'
    } else if d == 1 {
        '1'
    } else if d == 2 {
        '2'
    } else if d == 3 {
        '3'
    } else if d == 4 {
        '4'
    } else if d == 5 {
        '5'
    } else if d == 6 {
        '6'
    } else if d == 7 {
        '7'
    } else if d == 8 {
        '8'
    } else {
        '9'
    }
}

fn u64_chars(n: u64) -> (v: Vec<char>)
    ensures
        v@ == nat_chars(n as int),
    decreases n,
{
    if n < 10 {
        let mut v: Vec<char> = Vec::new();
        v.push(digit_char_of(n));
        proof {
            assert(v@ =~= seq![digit_char(n as int)]);
        }
        v
    } else {
        let mut v = u64_chars(n / 10);
        v.push(digit_char_of(n % 10));
        v
    }
}

/// The decimal text of a machine integer.
pub fn i64_string(n: i64) -> (s: String)
    ensures
        s@ == int_chars(n as int),
{
    if n >= 0 {
        let digits = u64_chars(n as u64);
        chars_to_string(&digits)
    } else {
        let m: u64 = if n == i64::MIN {
            9223372036854775808u64
        } else {
            (-n) as u64
        };
        let mut v: Vec<char> = Vec::new();
        v.push('-');
        let mut digits = u64_chars(m);
        v.append(&mut digits);
        proof {
            assert(v@ =~= seq!['-'] + nat_chars(m as int));
        }
        chars_to_string(&v)
    }
}

/// The printed names of a parameter list, comma-separated.
pub open spec fn join_names(ids: Seq<Identifier>) -> Seq<char>
    decreases ids,
{
    if ids.len() == 0 {
        Seq::empty()
    } else if ids.len() == 1 {
        ids[0].value@
    } else {
        join_names(ids.drop_last()) + ","@ + ids.last().value@
    }
}

/// What `inspect` prints: numbers and booleans as their text, `null` as its
/// keyword, a return sentinel as the value it wraps, and a function as its
/// parameter list.
pub open spec fn spec_inspect(o: Object) -> Seq<char>
    decreases o,
{
    match o {
        Object::Integer(n) => int_chars(n as int),
        Object::Boolean(b) => if b.value {
            "true"@
        } else {
            "false"@
        },
        Object::Null(_) => "null"@,
        Object::Return(r) => spec_inspect(*r.value),
        Object::Function(f) => "fn("@ + join_names(f.parameters@) + ")"@,
    }
}

impl Object {
    pub fn get_type(&self) -> (t: ObjectType)
        ensures
            t == (match *self {
                Object::Integer(_) => ObjectType::INTEGER,
                Object::Boolean(_) => ObjectType::BOOLEAN,
                Object::Return(_) => ObjectType::RETURN,
                Object::Function(_) => ObjectType::FUNCTION,
                Object::Null(_) => ObjectType::NULL,
            }),
    {
        match self {
            Object::Integer(_) => ObjectType::INTEGER,
            Object::Boolean(_) => ObjectType::BOOLEAN,
            Object::Return(_) => ObjectType::RETURN,
            Object::Function(_) => ObjectType::FUNCTION,
            Object::Null(_) => ObjectType::NULL,
        }
    }

    /// The value's printed form, as the REPL shows it.
    pub fn inspect(&self) -> (s: String)
        ensures
            s@ == spec_inspect(*self),
        decreases *self,
    {
        match self {
            Object::Integer(n) => i64_string(*n),
            Object::Boolean(b) => if b.value {
                String::from_str("true")
            } else {
                String::from_str("false")
            },
            Object::Null(_) => String::from_str("null"),
            Object::Return(r) => (&*r.value).inspect(),
            Object::Function(f) => {
                let mut s = String::from_str("fn(");
                let params: &Vec<Identifier> = &f.parameters;
                let mut i: usize = 0;
                let n = params.len();
                while i < n
                    invariant
                        i <= n,
                        n == params@.len(),
                        s@ == "fn("@ + join_names(params@.subrange(0, i as int)),
                    decreases n - i,
                {
                    if i > 0 {
                        s.append(",");
                    }
                    s.append(params[i].value.as_str());
                    proof {
                        lemma_join_names_step(params@, i as int);
                    }
                    i = i + 1;
                }
                proof {
                    assert(params@.subrange(0, n as int) =~= params@);
                }
                s.append(")");
                s
            },
        }
    }
}

/// Taking in one more name appends a separating comma (except for the first
/// name) and the name itself.
proof fn lemma_join_names_step(ids: Seq<Identifier>, i: int)
    requires
        0 <= i < ids.len(),
    ensures
        i == 0 ==> join_names(ids.subrange(0, 1)) == ids[0].value@,
        i > 0 ==> join_names(ids.subrange(0, i + 1)) == join_names(ids.subrange(0, i)) + ","@
            + ids[i].value@,
{
    if i == 0 {
        assert(ids.subrange(0, 1).len() == 1);
        assert(ids.subrange(0, 1)[0] == ids[0]);
    } else {
        assert(ids.subrange(0, i + 1).drop_last() =~= ids.subrange(0, i));
        assert(ids.subrange(0, i + 1).last() == ids[i]);
        assert(ids.subrange(0, i + 1).len() == i + 1 >= 2);
    }
}

} // verus!
