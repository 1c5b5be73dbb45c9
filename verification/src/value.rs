//! Runtime values.

use crate::text::Text;
use vstd::prelude::*;

verus! {

/// A double-precision floating-point number, held by its IEEE 754 bit
/// pattern. The library moves such numbers and flips their sign; it does no
/// other arithmetic on them.
#[derive(Clone, Copy, Debug, PartialEq, Eq, Hash)]
pub struct Float {
    pub bits: u64,
}

/// The bit that holds the sign of a double.
pub const SIGN_BIT: u64 = 0x8000_0000_0000_0000u64;

impl Float {
    /// The number with the given bit pattern.
    pub fn from_bits(bits: u64) -> (r: Float)
        ensures
            r.bits == bits,
    {
        Float { bits }
    }

    /// The bit pattern.
    pub fn to_bits(self) -> (r: u64)
        ensures
            r == self.bits,
    {
        self.bits
    }

    /// The number with the opposite sign: the sign bit is flipped, every
    /// other bit stays.
    pub open spec fn negated(self) -> Float {
        Float { bits: self.bits ^ SIGN_BIT }
    }

    /// Computes [`Float::negated`].
    pub fn neg(self) -> (r: Float)
        ensures
            r == self.negated(),
    {
        Float { bits: self.bits ^ SIGN_BIT }
    }

    /// A number that is the smaller, the earlier the float comes in the
    /// total order of IEEE 754: negative floats before positive ones, among
    /// the positive ones the smaller bit pattern first, among the negative
    /// ones the larger. Not-a-number values stand at both ends, and minus
    /// zero stands before zero.
    pub open spec fn order_key(self) -> u64 {
        if self.bits & SIGN_BIT != 0 {
            !self.bits
        } else {
            self.bits | SIGN_BIT
        }
    }

    /// Computes [`Float::order_key`].
    pub fn key(self) -> (r: u64)
        ensures
            r == self.order_key(),
    {
        if self.bits & SIGN_BIT != 0 {
            !self.bits
        } else {
            self.bits | SIGN_BIT
        }
    }

    /// Whether `self` comes before `other` in the total order.
    pub fn precedes(self, other: Float) -> (r: bool)
        ensures
            r == (self.order_key() < other.order_key()),
    {
        self.key() < other.key()
    }
}

/// The order of floats is total: of two floats that differ, one comes
/// before the other.
pub proof fn lemma_float_order_is_total(a: Float, b: Float)
    ensures
        a.order_key() == b.order_key() <==> a == b,
{
    let x = a.bits;
    let y = b.bits;
    assert((if x & 0x8000_0000_0000_0000u64 != 0 {
        !x
    } else {
        x | 0x8000_0000_0000_0000u64
    }) == (if y & 0x8000_0000_0000_0000u64 != 0 {
        !y
    } else {
        y | 0x8000_0000_0000_0000u64
    }) ==> x == y) by (bit_vector);
}

/// A runtime scalar or list.
#[derive(Debug, PartialEq, Eq)]
pub enum Value {
    Null,
    Bool(bool),
    Int(i64),
    Float(Float),
    Str(Text),
    List(Vec<Value>),
}

/// What a [`Value`] holds, as mathematics.
pub enum ValueView {
    Null,
    Bool(bool),
    Int(i64),
    Float(Float),
    Str(Seq<char>),
    List(Seq<ValueView>),
}

/// What `v` holds, as mathematics.
pub open spec fn value_view(v: Value) -> ValueView
    decreases v,
{
    match v {
        Value::Null => ValueView::Null,
        Value::Bool(b) => ValueView::Bool(b),
        Value::Int(i) => ValueView::Int(i),
        Value::Float(f) => ValueView::Float(f),
        Value::Str(t) => ValueView::Str(t@),
        Value::List(items) => ValueView::List(
            Seq::new(
                items@.len(),
                |i: int|
                    if 0 <= i < items@.len() {
                        value_view(items@[i])
                    } else {
                        ValueView::Null
                    },
            ),
        ),
    }
}

impl View for Value {
    type V = ValueView;

    open spec fn view(&self) -> ValueView {
        value_view(*self)
    }
}

impl Value {
    /// Whether the value is an integer or a float.
    pub open spec fn is_numeric(self) -> bool {
        self is Int || self is Float
    }

    /// A copy that holds the same as `self`.
    #[verifier::loop_isolation(false)]
    pub fn duplicate(&self) -> (r: Value)
        ensures
            r@ == self@,
        decreases self,
    {
        match self {
            Value::Null => Value::Null,
            Value::Bool(b) => Value::Bool(*b),
            Value::Int(i) => Value::Int(*i),
            Value::Float(f) => Value::Float(*f),
            Value::Str(t) => Value::Str(t.clone()),
            Value::List(v) => {
                let mut out: Vec<Value> = Vec::new();
                let mut i: usize = 0;
                while i < v.len()
                    invariant
                        i <= v.len(),
                        out@.len() == i,
                        forall|k: int| 0 <= k < i ==> out@[k]@ == v@[k]@,
                    decreases v.len() - i,
                {
                    let d = v[i].duplicate();
                    out.push(d);
                    i += 1;
                }
                let r = Value::List(out);
                assert(r@->List_0 =~= self@->List_0);
                r
            },
        }
    }
}

} // verus!
