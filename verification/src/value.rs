//! The tagged runtime value: the sole datum the virtual machine computes with.
//!
//! `Value` is the executable representation; `AVal` is its mathematical
//! counterpart, with sequences in place of vectors, used by every contract.
//! Floating-point payloads are carried as their 64-bit encodings and are
//! opaque to the machine's arithmetic.
use vstd::prelude::*;

verus! {

broadcast use vstd::std_specs::vec::group_vec_axioms, vstd::seq::axiom_seq_index_decreases, vstd::seq::axiom_seq_subrange_decreases;

/// Mathematical model of a runtime value.
#[verifier::ext_equal]
pub enum AVal {
    Int(i64),
    Char(u8),
    Bool(bool),
    Float(u64),
    Str(Seq<u8>),
    List(Seq<AVal>),
    Nil,
}

/// A runtime value. Lists are ordered and mutable in place on the operand
/// stack; every push, load and store copies, so two bindings never alias.
#[derive(Debug, PartialEq)]
pub enum Value {
    Int(i64),
    Char(u8),
    Bool(bool),
    Float(u64),
    Str(Vec<u8>),
    List(Vec<Value>),
    Nil,
}

pub open spec fn val_view(v: Value) -> AVal
    decreases v,
{
    match v {
        Value::Int(i) => AVal::Int(i),
        Value::Char(c) => AVal::Char(c),
        Value::Bool(b) => AVal::Bool(b),
        Value::Float(bits) => AVal::Float(bits),
        Value::Str(s) => AVal::Str(s@),
        Value::List(l) => AVal::List(vals_view(l@)),
        Value::Nil => AVal::Nil,
    }
}

/// The views of a sequence of values, elementwise.
pub open spec fn vals_view(s: Seq<Value>) -> Seq<AVal>
    decreases s,
{
    if s.len() == 0 {
        Seq::empty()
    } else {
        vals_view(s.drop_last()).push(val_view(s.last()))
    }
}

/// `vals_view` is the elementwise image of `val_view`.
pub broadcast proof fn lemma_vals_view(s: Seq<Value>)
    ensures
        (#[trigger] vals_view(s)).len() == s.len(),
        forall|i: int| 0 <= i < s.len() ==> vals_view(s)[i] == val_view(s[i]),
    decreases s.len(),
{
    if s.len() > 0 {
        lemma_vals_view(s.drop_last());
    }
}

impl View for Value {
    type V = AVal;

    open spec fn view(&self) -> AVal {
        val_view(*self)
    }
}

impl DeepView for Value {
    type V = AVal;

    open spec fn deep_view(&self) -> AVal {
        val_view(*self)
    }
}

/// The deep views of a sequence's elements, elementwise: the shape every
/// contract over a vector of values or instructions is stated in.
pub open spec fn dv<T: DeepView>(s: Seq<T>) -> Seq<T::V> {
    Seq::new(s.len(), |i: int| s[i].deep_view())
}

/// A vector's deep view is `dv` of its shallow view.
pub broadcast proof fn lemma_vec_dv<T: DeepView>(v: Vec<T>)
    ensures
        #[trigger] v.deep_view() == dv(v@),
{
    assert(v.deep_view() =~= dv(v@));
}

pub broadcast proof fn lemma_dv_push<T: DeepView>(s: Seq<T>, x: T)
    ensures
        #[trigger] dv(s.push(x)) == dv(s).push(x.deep_view()),
{
    assert(dv(s.push(x)) =~= dv(s).push(x.deep_view()));
}

pub broadcast proof fn lemma_dv_subrange<T: DeepView>(s: Seq<T>, i: int, j: int)
    requires
        0 <= i <= j <= s.len(),
    ensures
        #[trigger] dv(s.subrange(i, j)) == dv(s).subrange(i, j),
{
    assert(dv(s.subrange(i, j)) =~= dv(s).subrange(i, j));
}

pub broadcast proof fn lemma_dv_update<T: DeepView>(s: Seq<T>, i: int, x: T)
    requires
        0 <= i < s.len(),
    ensures
        #[trigger] dv(s.update(i, x)) == dv(s).update(i, x.deep_view()),
{
    assert(dv(s.update(i, x)) =~= dv(s).update(i, x.deep_view()));
}

/// Pushing one element is appending a singleton.
pub broadcast proof fn lemma_push_concat<T>(s: Seq<T>, x: T)
    ensures
        #[trigger] s.push(x) == s + seq![x],
{
    assert(s.push(x) =~= s + seq![x]);
}

/// Concatenation associates.
pub broadcast proof fn lemma_concat_assoc<T>(a: Seq<T>, b: Seq<T>, c: Seq<T>)
    ensures
        #[trigger] ((a + b) + c) == a + (b + c),
{
    assert((a + b) + c =~= a + (b + c));
}

/// `vals_view` and the elementwise deep view agree.
pub broadcast proof fn lemma_vals_view_is_dv(s: Seq<Value>)
    ensures
        #[trigger] vals_view(s) == dv(s),
{
    lemma_vals_view(s);
    assert(vals_view(s) =~= dv(s));
}

/// The view of a list value is the elementwise deep view of its elements.
pub broadcast proof fn lemma_val_view_list(v: Value)
    requires
        v is List,
    ensures
        #[trigger] val_view(v) == AVal::List(dv(v->List_0@)),
{
    lemma_vals_view_is_dv(v->List_0@);
}

/// Copies a byte vector.
pub fn dup_bytes(s: &Vec<u8>) -> (r: Vec<u8>)
    ensures
        r@ == s@,
{
    let mut out: Vec<u8> = Vec::new();
    let mut i: usize = 0;
    while i < s.len()
        invariant
            i <= s.len(),
            out@ =~= s@.subrange(0, i as int),
        decreases s.len() - i,
    {
        out.push(s[i]);
        i = i + 1;
    }
    proof {
        assert(out@ =~= s@);
    }
    out
}

/// Copies a value. Every stack push, local load and list element read goes
/// through this copy: bindings own their values exclusively.
#[verifier::loop_isolation(false)]
pub fn dup_value(v: &Value) -> (r: Value)
    ensures
        r@ == v@,
    decreases *v,
{
    match v {
        Value::Int(i) => Value::Int(*i),
        Value::Char(c) => Value::Char(*c),
        Value::Bool(b) => Value::Bool(*b),
        Value::Float(bits) => Value::Float(*bits),
        Value::Str(s) => Value::Str(dup_bytes(s)),
        Value::List(l) => {
            let mut out: Vec<Value> = Vec::new();
            let mut i: usize = 0;
            while i < l.len()
                invariant
                    i <= l.len(),
                    out@.len() == i,
                    forall|j: int| 0 <= j < i ==> out@[j]@ == #[trigger] l@[j]@,
                decreases l.len() - i,
            {
                proof {
                    assert(decreases_to!(l@ => l@[i as int]));
                }
                let e = dup_value(&l[i]);
                out.push(e);
                i = i + 1;
            }
            let r = Value::List(out);
            proof {
                lemma_vals_view(out@);
                lemma_vals_view(l@);
                assert(*v == Value::List(*l));
                assert(v@ == AVal::List(vals_view(l@)));
                assert(r@ == AVal::List(vals_view(out@)));
                assert(out@.len() == l@.len());
                assert forall|j: int| 0 <= j < l@.len() implies vals_view(out@)[j] == vals_view(
                    l@,
                )[j] by {
                    assert(out@[j]@ == l@[j]@);
                }
                assert(r@->List_0 =~= v@->List_0);
                assert(r@ == v@);
            }
            r
        },
        Value::Nil => Value::Nil,
    }
}

/// Structural equality on values: the meaning of the machine's `Equal`
/// instruction. Float payloads compare by their encodings.
#[verifier::loop_isolation(false)]
pub fn value_eq(a: &Value, b: &Value) -> (r: bool)
    ensures
        r == (a@ == b@),
    decreases *a,
{
    match (a, b) {
        (Value::Int(x), Value::Int(y)) => x == y,
        (Value::Char(x), Value::Char(y)) => x == y,
        (Value::Bool(x), Value::Bool(y)) => x == y,
        (Value::Float(x), Value::Float(y)) => x == y,
        (Value::Str(x), Value::Str(y)) => {
            proof {
                assert(a@->Str_0 == x@);
                assert(b@->Str_0 == y@);
            }
            if x.len() != y.len() {
                false
            } else {
                let mut i: usize = 0;
                let mut same: bool = true;
                while i < x.len()
                    invariant
                        i <= x.len(),
                        x@.len() == y@.len(),
                        same <==> (forall|j: int| 0 <= j < i ==> x@[j] == #[trigger] y@[j]),
                    decreases x.len() - i,
                {
                    let eq_here = x[i] == y[i];
                    same = same && eq_here;
                    i = i + 1;
                }
                proof {
                    if same {
                        assert(x@ =~= y@);
                    }
                }
                same
            }
        },
        (Value::List(x), Value::List(y)) => {
            proof {
                assert(a@->List_0 == vals_view(x@));
                assert(b@->List_0 == vals_view(y@));
            }
            if x.len() != y.len() {
                proof {
                    lemma_vals_view(x@);
                    lemma_vals_view(y@);
                    assert(a@->List_0.len() != b@->List_0.len());
                }
                false
            } else {
                let mut i: usize = 0;
                let mut same: bool = true;
                while i < x.len()
                    invariant
                        i <= x.len(),
                        x@.len() == y@.len(),
                        same <==> (forall|j: int| 0 <= j < i ==> x@[j]@ == #[trigger] y@[j]@),
                    decreases x.len() - i,
                {
                    proof {
                        assert(decreases_to!(x@ => x@[i as int]));
                    }
                    let eq_here = value_eq(&x[i], &y[i]);
                    same = same && eq_here;
                    i = i + 1;
                }
                proof {
                    lemma_vals_view(x@);
                    lemma_vals_view(y@);
                    let xs = vals_view(x@);
                    let ys = vals_view(y@);
                    if same {
                        assert forall|j: int| 0 <= j < x@.len() implies xs[j] == ys[j] by {
                            assert(x@[j]@ == y@[j]@);
                        }
                        assert(xs =~= ys);
                    } else {
                        let jw = choose|j: int| 0 <= j < x@.len() && x@[j]@ != y@[j]@;
                        assert(xs[jw] != ys[jw]);
                    }
                }
                same
            }
        },
        (Value::Nil, Value::Nil) => true,
        _ => {
            proof {
                assert(a@ != b@);
            }
            false
        },
    }
}

} // verus!
