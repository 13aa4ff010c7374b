use vstd::prelude::*;

verus! {

/// A value at run time. Arrays, records and functions are shared objects:
/// the value holds the index of the object in the interpreter's store.
/// A `Float` holds the bit pattern of an IEEE-754 double.
#[derive(Debug, Clone)]
pub enum RuntimeValue {
    Int(i64),
    Float(u64),
    Str(String),
    Bool(bool),
    Null,
    Array(usize),
    Record(usize),
    Func(usize),
}

/// The types of the language.
#[derive(Debug)]
pub enum Type {
    Int,
    Float,
    Str,
    Bool,
    Null,
    Array(Box<Type>, usize, usize),
    Record(String),
    Func(Vec<Type>, Box<Type>),
}

/// The mathematical content of a type.
pub enum TypeV {
    Int,
    Float,
    Str,
    Bool,
    Null,
    Array(Box<TypeV>, usize, usize),
    Record(Seq<char>),
    Func(Seq<TypeV>, Box<TypeV>),
}

impl View for Type {
    type V = TypeV;

    open spec fn view(&self) -> TypeV
        decreases self,
    {
        match self {
            Type::Int => TypeV::Int,
            Type::Float => TypeV::Float,
            Type::Str => TypeV::Str,
            Type::Bool => TypeV::Bool,
            Type::Null => TypeV::Null,
            Type::Array(t, s, e) => TypeV::Array(Box::new((**t).view()), *s, *e),
            Type::Record(n) => TypeV::Record(n@),
            Type::Func(ps, r) => TypeV::Func(types_view(ps@), Box::new((**r).view())),
        }
    }
}

/// The contents of a list of types.
pub open spec fn types_view(s: Seq<Type>) -> Seq<TypeV>
    decreases s,
{
    if s.len() == 0 {
        Seq::empty()
    } else {
        types_view(s.subrange(0, s.len() - 1)).push(s[s.len() - 1].view())
    }
}

/// The mathematical content of a run-time value.
pub enum Val {
    Int(i64),
    Float(u64),
    Str(Seq<char>),
    Bool(bool),
    Null,
    Array(usize),
    Record(usize),
    Func(usize),
}

impl View for RuntimeValue {
    type V = Val;

    open spec fn view(&self) -> Val {
        match self {
            RuntimeValue::Int(i) => Val::Int(*i),
            RuntimeValue::Float(b) => Val::Float(*b),
            RuntimeValue::Str(s) => Val::Str(s@),
            RuntimeValue::Bool(b) => Val::Bool(*b),
            RuntimeValue::Null => Val::Null,
            RuntimeValue::Array(a) => Val::Array(*a),
            RuntimeValue::Record(r) => Val::Record(*r),
            RuntimeValue::Func(f) => Val::Func(*f),
        }
    }
}

impl RuntimeValue {
    /// A copy of the value, equal to it.
    pub fn duplicate(&self) -> (r: RuntimeValue)
        ensures
            r == *self,
    {
        match self {
            RuntimeValue::Int(i) => RuntimeValue::Int(*i),
            RuntimeValue::Float(b) => RuntimeValue::Float(*b),
            RuntimeValue::Str(s) => RuntimeValue::Str(s.clone()),
            RuntimeValue::Bool(b) => RuntimeValue::Bool(*b),
            RuntimeValue::Null => RuntimeValue::Null,
            RuntimeValue::Array(a) => RuntimeValue::Array(*a),
            RuntimeValue::Record(r) => RuntimeValue::Record(*r),
            RuntimeValue::Func(f) => RuntimeValue::Func(*f),
        }
    }
}

impl Type {
    /// A copy of the type, equal to it.
    pub fn duplicate(&self) -> (r: Type)
        ensures
            r@ == self@,
        decreases self,
    {
        match self {
            Type::Int => Type::Int,
            Type::Float => Type::Float,
            Type::Str => Type::Str,
            Type::Bool => Type::Bool,
            Type::Null => Type::Null,
            Type::Array(t, s, e) => Type::Array(Box::new((**t).duplicate()), *s, *e),
            Type::Record(n) => Type::Record(n.clone()),
            Type::Func(ps, r) => Type::Func(duplicate_types(ps), Box::new((**r).duplicate())),
        }
    }
}

/// A copy of a list of types, equal to it.
pub fn duplicate_types(v: &Vec<Type>) -> (r: Vec<Type>)
    ensures
        types_view(r@) == types_view(v@),
    decreases v,
{
    let mut r: Vec<Type> = Vec::new();
    let mut i: usize = 0;
    while i < v.len()
        invariant
            i <= v.len(),
            r@.len() == i,
            types_view(r@) == types_view(v@.take(i as int)),
        decreases v.len() - i,
    {
        assert(decreases_to!(v => v@[i as int]));
        let t = v[i].duplicate();
        let ghost old_r = r@;
        r.push(t);
        i += 1;
        assert(r@.subrange(0, r@.len() - 1) =~= old_r);
        assert(v@.take(i as int).subrange(0, i - 1) =~= v@.take(i - 1));
    }
    assert(v@.take(v.len() as int) =~= v@);
    r
}

} // verus!

verus! {

pub proof fn lemma_types_view(s: Seq<Type>)
    ensures
        types_view(s).len() == s.len(),
        forall|i: int| 0 <= i < s.len() ==> types_view(s)[i] == (#[trigger] s[i])@,
    decreases s.len(),
{
    if s.len() > 0 {
        let p = s.subrange(0, s.len() - 1);
        lemma_types_view(p);
        assert(types_view(s) == types_view(p).push(s[s.len() - 1]@));
        assert forall|i: int| 0 <= i < s.len() implies types_view(s)[i] == (#[trigger] s[i])@ by {
            if i < s.len() - 1 {
                assert(p[i] == s[i]);
            }
        }
    }
}

} // verus!
