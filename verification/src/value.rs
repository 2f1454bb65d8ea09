use vstd::prelude::*;

verus! {

/// The mathematical shape of a [`Value`]: what a value holds once every
/// string is read as its sequence of characters.
pub enum Val {
    Null,
    Bool(bool),
    Int(i64),
    Text(Seq<char>),
    List(Seq<Val>),
    Object(Seq<(Seq<char>, Val)>),
}

/// A dynamically typed value, the currency of the execution context: what a
/// unit of work reads from and writes into a run's context.
#[derive(Debug, PartialEq)]
pub enum Value {
    Null,
    Bool(bool),
    Int(i64),
    Text(String),
    List(Vec<Value>),
    Object(Vec<(String, Value)>),
}

/// The mathematical values of a sequence of values, element by element.
pub open spec fn vals_of(s: Seq<Value>) -> Seq<Val>
    decreases s,
{
    if s.len() <= 0 {
        Seq::empty()
    } else {
        vals_of(s.subrange(0, s.len() - 1)).push(s[s.len() - 1].val())
    }
}

/// The mathematical values of a sequence of keyed values, element by element.
pub open spec fn entries_of(s: Seq<(String, Value)>) -> Seq<(Seq<char>, Val)>
    decreases s,
{
    if s.len() <= 0 {
        Seq::empty()
    } else {
        entries_of(s.subrange(0, s.len() - 1)).push(
            (s[s.len() - 1].0@, s[s.len() - 1].1.val()),
        )
    }
}

impl Value {
    /// The mathematical value this dynamically typed value stands for.
    pub open spec fn val(self) -> Val
        decreases self,
        via Value::val_via
    {
        match self {
            Value::Null => Val::Null,
            Value::Bool(b) => Val::Bool(b),
            Value::Int(i) => Val::Int(i),
            Value::Text(s) => Val::Text(s@),
            Value::List(vs) => Val::List(vals_of(vs@)),
            Value::Object(es) => Val::Object(entries_of(es@)),
        }
    }

    #[via_fn]
    proof fn val_via(self) {
        match self {
            Value::List(vs) => {
                assert(decreases_to!(self => self->List_0));
                assert(decreases_to!(self->List_0 => self->List_0@));
            }
            Value::Object(es) => {
                assert(decreases_to!(self => self->Object_0));
                assert(decreases_to!(self->Object_0 => self->Object_0@));
            }
            _ => {}
        }
    }
}

impl View for Value {
    type V = Val;

    open spec fn view(&self) -> Val {
        self.val()
    }
}

/// `vals_of` maps a sequence of values pointwise.
pub proof fn lemma_vals_of(s: Seq<Value>)
    ensures
        vals_of(s).len() == s.len(),
        forall|i: int| 0 <= i < s.len() ==> vals_of(s)[i] == s[i].val(),
    decreases s.len(),
{
    if s.len() > 0 {
        lemma_vals_of(s.subrange(0, s.len() - 1));
        assert forall|i: int| 0 <= i < s.len() implies vals_of(s)[i] == s[i].val() by {
            if i < s.len() - 1 {
                assert(s.subrange(0, s.len() - 1)[i] == s[i]);
            }
        }
    }
}

/// `entries_of` maps a sequence of keyed values pointwise.
pub proof fn lemma_entries_of(s: Seq<(String, Value)>)
    ensures
        entries_of(s).len() == s.len(),
        forall|i: int| 0 <= i < s.len()
            ==> entries_of(s)[i] == (s[i].0@, s[i].1.val()),
    decreases s.len(),
{
    if s.len() > 0 {
        lemma_entries_of(s.subrange(0, s.len() - 1));
        assert forall|i: int| 0 <= i < s.len() implies entries_of(s)[i] == (
            s[i].0@,
            s[i].1.val(),
        ) by {
            if i < s.len() - 1 {
                assert(s.subrange(0, s.len() - 1)[i] == s[i]);
            }
        }
    }
}

impl Value {
    /// An exact copy of the value: the copy has the same view as the
    /// original.
    pub fn duplicate(&self) -> (r: Value)
        ensures
            r@ == self@,
        decreases self,
    {
        match self {
            Value::Null => Value::Null,
            Value::Bool(b) => Value::Bool(*b),
            Value::Int(i) => Value::Int(*i),
            Value::Text(s) => Value::Text(s.clone()),
            Value::List(vs) => {
                let mut out: Vec<Value> = Vec::new();
                let mut i: usize = 0;
                while i < vs.len()
                    invariant
                        i <= vs.len(),
                        out@.len() == i as int,
                        *self == Value::List(*vs),
                        forall|j: int| 0 <= j < i ==> out@[j]@ == vs@[j]@,
                    decreases vs.len() - i,
                {
                    proof {
                        assert(decreases_to!(*self => self->List_0));
                        assert(decreases_to!(self->List_0 => self->List_0@));
                        assert(decreases_to!(self->List_0@ => self->List_0@[i as int]));
                    }
                    let d = vs[i].duplicate();
                    out.push(d);
                    i = i + 1;
                }
                let r = Value::List(out);
                proof {
                    lemma_vals_of(out@);
                    lemma_vals_of(vs@);
                    assert(vals_of(out@) =~= vals_of(vs@));
                }
                r
            }
            Value::Object(es) => {
                let mut out: Vec<(String, Value)> = Vec::new();
                let mut i: usize = 0;
                while i < es.len()
                    invariant
                        i <= es.len(),
                        out@.len() == i as int,
                        *self == Value::Object(*es),
                        forall|j: int| 0 <= j < i
                            ==> out@[j].0@ == es@[j].0@ && out@[j].1@ == es@[j].1@,
                    decreases es.len() - i,
                {
                    proof {
                        assert(decreases_to!(*self => self->Object_0));
                        assert(decreases_to!(self->Object_0 => self->Object_0@));
                        assert(decreases_to!(self->Object_0@ => self->Object_0@[i as int]));
                        assert(decreases_to!(
                            self->Object_0@[i as int] => self->Object_0@[i as int].1
                        ));
                    }
                    let k = es[i].0.clone();
                    let d = es[i].1.duplicate();
                    out.push((k, d));
                    i = i + 1;
                }
                let r = Value::Object(out);
                proof {
                    lemma_entries_of(out@);
                    lemma_entries_of(es@);
                    assert(entries_of(out@) =~= entries_of(es@));
                }
                r
            }
        }
    }
}

} // verus!
