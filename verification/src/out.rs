//! The document the library hands back when it reassembles stored data:
//! a JSON-shaped tree whose scalars keep the type they were read with.

use vstd::prelude::*;
use crate::json::{Json, JsonV};

verus! {

/// A node of a reassembled document.
pub enum Out {
    Bool(bool),
    Int(i64),
    /// A floating-point number, by its IEEE-754 bits.
    Real(u64),
    Str(String),
    /// A value that was parsed back from stored JSON text.
    Json(Json),
    List(Vec<Out>),
    Obj(Vec<OutField>),
}

/// A keyed member of an [`Out::Obj`].
pub struct OutField {
    pub key: String,
    pub value: Out,
}

pub struct OutFieldV {
    pub key: Seq<char>,
    pub value: OutV,
}

/// Mathematical view of an [`Out`].
pub enum OutV {
    Bool(bool),
    Int(i64),
    Real(u64),
    Str(Seq<char>),
    Json(JsonV),
    List(Seq<OutV>),
    Obj(Seq<OutFieldV>),
}

pub open spec fn out_view(o: Out) -> OutV
    decreases o,
{
    match o {
        Out::Bool(b) => OutV::Bool(b),
        Out::Int(i) => OutV::Int(i),
        Out::Real(r) => OutV::Real(r),
        Out::Str(s) => OutV::Str(s@),
        Out::Json(j) => OutV::Json(j@),
        Out::List(v) => OutV::List(
            Seq::new(
                v@.len(),
                |i: int|
                    if 0 <= i < v@.len() {
                        out_view(v@[i])
                    } else {
                        OutV::Bool(false)
                    },
            ),
        ),
        Out::Obj(fs) => OutV::Obj(
            Seq::new(
                fs@.len(),
                |i: int|
                    if 0 <= i < fs@.len() {
                        OutFieldV { key: fs@[i].key@, value: out_view(fs@[i].value) }
                    } else {
                        OutFieldV { key: Seq::empty(), value: OutV::Bool(false) }
                    },
            ),
        ),
    }
}

impl View for Out {
    type V = OutV;

    open spec fn view(&self) -> OutV {
        out_view(*self)
    }
}

impl View for OutField {
    type V = OutFieldV;

    open spec fn view(&self) -> OutFieldV {
        OutFieldV { key: self.key@, value: self.value@ }
    }
}

/// The views of a sequence of nodes.
pub open spec fn out_views(v: Seq<Out>) -> Seq<OutV> {
    Seq::new(v.len(), |i: int| v[i]@)
}

/// The views of a sequence of fields.
pub open spec fn field_views(v: Seq<OutField>) -> Seq<OutFieldV> {
    Seq::new(v.len(), |i: int| v[i]@)
}

/// A list node from a vector of nodes.
pub fn list(v: Vec<Out>) -> (r: Out)
    ensures
        r@ == OutV::List(out_views(v@)),
{
    let r = Out::List(v);
    proof {
        if let OutV::List(a) = r@ {
            assert(a =~= out_views(v@));
        }
    }
    r
}

/// An object node from a vector of fields.
pub fn object(fs: Vec<OutField>) -> (r: Out)
    ensures
        r@ == OutV::Obj(field_views(fs@)),
{
    let r = Out::Obj(fs);
    proof {
        if let OutV::Obj(a) = r@ {
            assert(a =~= field_views(fs@));
        }
    }
    r
}

} // verus!
