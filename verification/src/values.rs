//! Value types and their wire representation.
//!
//! A value type advertises the physical columns that store one value, and a
//! value is encoded as one primitive cell per physical column. Encoding and
//! decoding are mutual inverses on that cell sequence.
use vstd::prelude::*;

use crate::Error;

verus! {

/// A physical column representation in the backing store.
#[derive(Clone, Copy, PartialEq, Eq, Structural, Debug)]
pub enum ColType {
    /// 64-bit integer column.
    BigInt,
    /// Variable-length byte-string column.
    Bytea,
    /// Variable-length text column.
    Varchar,
}

/// One primitive cell: a positional bind parameter or a result-row column.
#[derive(Debug)]
pub enum Prim {
    U64(u64),
    Bytes(Vec<u8>),
    Text(String),
}

/// Mathematical model of a primitive cell.
pub enum PrimV {
    U64(u64),
    Bytes(Seq<u8>),
    Text(Seq<char>),
}

impl View for Prim {
    type V = PrimV;

    open spec fn view(&self) -> PrimV {
        match self {
            Prim::U64(n) => PrimV::U64(*n),
            Prim::Bytes(b) => PrimV::Bytes(b@),
            Prim::Text(t) => PrimV::Text(t@),
        }
    }
}

/// The column kind that stores a given cell.
pub open spec fn prim_col(p: PrimV) -> ColType {
    match p {
        PrimV::U64(_) => ColType::BigInt,
        PrimV::Bytes(_) => ColType::Bytea,
        PrimV::Text(_) => ColType::Varchar,
    }
}

impl Prim {
    /// Copy a cell, preserving its model.
    pub fn dup(&self) -> (r: Prim)
        ensures
            r@ == self@,
    {
        match self {
            Prim::U64(n) => Prim::U64(*n),
            Prim::Bytes(b) => {
                let mut c: Vec<u8> = Vec::new();
                let mut i: usize = 0;
                while i < b.len()
                    invariant
                        i <= b.len(),
                        c@ == b@.subrange(0, i as int),
                    decreases b.len() - i,
                {
                    c.push(b[i]);
                    i = i + 1;
                    proof {
                        assert(c@ =~= b@.subrange(0, i as int));
                    }
                }
                proof {
                    assert(c@ =~= b@);
                }
                Prim::Bytes(c)
            },
            Prim::Text(t) => Prim::Text(t.clone()),
        }
    }

    /// Whether the cell is stored by the given column kind.
    pub fn matches_col(&self, c: ColType) -> (r: bool)
        ensures
            r == (prim_col(self@) == c),
    {
        match self {
            Prim::U64(_) => matches!(c, ColType::BigInt),
            Prim::Bytes(_) => matches!(c, ColType::Bytea),
            Prim::Text(_) => matches!(c, ColType::Varchar),
        }
    }

    /// Cell equality on the wire representation.
    pub fn prim_eq(&self, other: &Prim) -> (r: bool)
        ensures
            r == (self@ == other@),
    {
        match (self, other) {
            (Prim::U64(a), Prim::U64(b)) => *a == *b,
            (Prim::Bytes(a), Prim::Bytes(b)) => {
                if a.len() != b.len() {
                    proof {
                        assert(a@ != b@) by {
                            assert(a@.len() != b@.len());
                        }
                    }
                    false
                } else {
                    let mut i: usize = 0;
                    while i < a.len()
                        invariant
                            i <= a.len(),
                            a@.len() == b@.len(),
                            self@ == PrimV::Bytes(a@),
                            other@ == PrimV::Bytes(b@),
                            forall|j: int| 0 <= j < i ==> a@[j] == b@[j],
                        decreases a.len() - i,
                    {
                        if a[i] != b[i] {
                            proof {
                                assert(a@ != b@) by {
                                    assert(a@[i as int] != b@[i as int]);
                                }
                                assert(self@ == PrimV::Bytes(a@));
                                assert(other@ == PrimV::Bytes(b@));
                            }
                            return false;
                        }
                        i = i + 1;
                    }
                    proof {
                        assert(a@ =~= b@);
                    }
                    true
                }
            },
            (Prim::Text(a), Prim::Text(b)) => *a == *b,
            _ => {
                proof {
                    assert(self@ != other@);
                }
                false
            },
        }
    }
}

/// A value-type descriptor: a unique name and the ordered physical columns
/// that store one value of the type.
pub struct TypeDescriptor {
    pub name: String,
    pub cols: Vec<ColType>,
}

/// Mathematical model of a type descriptor.
#[verifier::ext_equal]
pub struct TypeDescV {
    pub name: Seq<char>,
    pub cols: Seq<ColType>,
}

impl View for TypeDescriptor {
    type V = TypeDescV;

    open spec fn view(&self) -> TypeDescV {
        TypeDescV { name: self.name@, cols: self.cols@ }
    }
}

/// A well-formed descriptor has a non-empty name.
pub open spec fn td_wf(td: TypeDescV) -> bool {
    td.name.len() > 0
}

impl TypeDescriptor {
    /// Copy a descriptor, preserving its model.
    pub fn dup(&self) -> (r: TypeDescriptor)
        ensures
            r@ == self@,
    {
        let mut cols: Vec<ColType> = Vec::new();
        let mut i: usize = 0;
        while i < self.cols.len()
            invariant
                i <= self.cols.len(),
                cols@ == self.cols@.subrange(0, i as int),
            decreases self.cols.len() - i,
        {
            cols.push(self.cols[i]);
            i = i + 1;
            proof {
                assert(cols@ =~= self.cols@.subrange(0, i as int));
            }
        }
        proof {
            assert(cols@ =~= self.cols@);
        }
        let r = TypeDescriptor { name: self.name.clone(), cols };
        proof {
            assert(r@ =~= self@);
        }
        r
    }

    /// Descriptor equality: same name and same physical columns.
    pub fn td_eq(&self, other: &TypeDescriptor) -> (r: bool)
        ensures
            r == (self@ == other@),
    {
        if !(self.name == other.name) {
            proof {
                assert(self@ != other@);
            }
            return false;
        }
        if self.cols.len() != other.cols.len() {
            proof {
                assert(self@.cols.len() != other@.cols.len());
                assert(self@ != other@);
            }
            return false;
        }
        let mut i: usize = 0;
        while i < self.cols.len()
            invariant
                i <= self.cols.len(),
                self.cols@.len() == other.cols@.len(),
                self@.name == other@.name,
                forall|j: int| 0 <= j < i ==> self.cols@[j] == other.cols@[j],
            decreases self.cols.len() - i,
        {
            if !(self.cols[i] == other.cols[i]) {
                proof {
                    assert(self@.cols[i as int] != other@.cols[i as int]);
                    assert(self@ != other@);
                }
                return false;
            }
            i = i + 1;
        }
        proof {
            assert(self@.cols =~= other@.cols);
            assert(self@ =~= other@);
        }
        true
    }
}

/// A typed value: the name of its type and one cell per physical column.
pub struct Value {
    pub ty_name: String,
    pub prims: Vec<Prim>,
}

/// Mathematical model of a value.
#[verifier::ext_equal]
pub struct ValueV {
    pub ty_name: Seq<char>,
    pub prims: Seq<PrimV>,
}

impl View for Value {
    type V = ValueV;

    open spec fn view(&self) -> ValueV {
        ValueV { ty_name: self.ty_name@, prims: self.prims@.map_values(|p: Prim| p@) }
    }
}

/// A value is well-formed for a descriptor when it carries the descriptor's
/// name and one cell of the right kind per physical column.
pub open spec fn value_wf(v: ValueV, td: TypeDescV) -> bool {
    &&& v.ty_name == td.name
    &&& v.prims.len() == td.cols.len()
    &&& forall|i: int| 0 <= i < v.prims.len() ==> prim_col(#[trigger] v.prims[i]) == td.cols[i]
}

/// What `encode` yields: the value's cells, in order.
pub open spec fn encode_v(v: ValueV) -> Seq<PrimV> {
    v.prims
}

impl Value {
    /// Copy a value, preserving its model.
    pub fn dup(&self) -> (r: Value)
        ensures
            r@ == self@,
    {
        let r = Value { ty_name: self.ty_name.clone(), prims: self.encode() };
        proof {
            assert(r@ =~= self@);
        }
        r
    }

    /// Serialize the value into positional bind parameters: its cells in order.
    pub fn encode(&self) -> (r: Vec<Prim>)
        ensures
            r@.map_values(|p: Prim| p@) == encode_v(self@),
    {
        let mut out: Vec<Prim> = Vec::new();
        let mut i: usize = 0;
        while i < self.prims.len()
            invariant
                i <= self.prims.len(),
                out@.len() == i,
                forall|j: int| 0 <= j < i ==> (#[trigger] out@[j])@ == self.prims@[j]@,
            decreases self.prims.len() - i,
        {
            out.push(self.prims[i].dup());
            i = i + 1;
        }
        proof {
            assert(out@.map_values(|p: Prim| p@) =~= encode_v(self@));
        }
        out
    }

    /// Value equality on the encoded (wire) form.
    pub fn value_eq(&self, other: &Value) -> (r: bool)
        ensures
            r == (self@ == other@),
    {
        if !(self.ty_name == other.ty_name) {
            proof {
                assert(self@ != other@);
            }
            return false;
        }
        if self.prims.len() != other.prims.len() {
            proof {
                assert(self@.prims.len() != other@.prims.len());
                assert(self@ != other@);
            }
            return false;
        }
        let mut i: usize = 0;
        while i < self.prims.len()
            invariant
                i <= self.prims.len(),
                self.prims@.len() == other.prims@.len(),
                self@.ty_name == other@.ty_name,
                forall|j: int| 0 <= j < i ==> self@.prims[j] == other@.prims[j],
            decreases self.prims.len() - i,
        {
            if !self.prims[i].prim_eq(&other.prims[i]) {
                proof {
                    assert(self@.prims[i as int] != other@.prims[i as int]);
                    assert(self@ != other@);
                }
                return false;
            }
            i = i + 1;
        }
        proof {
            assert(self@.prims =~= other@.prims);
            assert(self@ =~= other@);
        }
        true
    }
}

/// Whether the cells starting at `pos` hold one value of descriptor `td`.
pub open spec fn decode_ok(td: TypeDescV, cells: Seq<PrimV>, pos: int) -> bool {
    &&& 0 <= pos
    &&& pos + td.cols.len() <= cells.len()
    &&& forall|i: int|
        0 <= i < td.cols.len() ==> prim_col(#[trigger] cells[pos + i]) == td.cols[i]
}

/// The value read from the cells starting at `pos` for descriptor `td`.
pub open spec fn decoded(td: TypeDescV, cells: Seq<PrimV>, pos: int) -> ValueV {
    ValueV { ty_name: td.name, prims: cells.subrange(pos, pos + td.cols.len()) }
}

/// Extract one value of descriptor `td` from a result row, starting at cell
/// `pos`. On success the new cursor position is `pos` plus the number of
/// physical columns of the type.
pub fn decode(td: &TypeDescriptor, cells: &Vec<Prim>, pos: usize) -> (r: Result<
    (Value, usize),
    Error,
>)
    ensures
        decode_ok(td@, cells@.map_values(|p: Prim| p@), pos as int) ==> (r matches Ok(vp)
            && vp.0@ == decoded(td@, cells@.map_values(|p: Prim| p@), pos as int) && vp.1 == pos
            + td@.cols.len()),
        !decode_ok(td@, cells@.map_values(|p: Prim| p@), pos as int) ==> r matches Err(
            Error::DecodeError,
        ),
{
    let ghost cellsv = cells@.map_values(|p: Prim| p@);
    if td.cols.len() > cells.len() || pos > cells.len() - td.cols.len() {
        proof {
            assert(!decode_ok(td@, cellsv, pos as int));
        }
        return Err(Error::DecodeError);
    }
    let mut prims: Vec<Prim> = Vec::new();
    let mut i: usize = 0;
    while i < td.cols.len()
        invariant
            i <= td.cols.len(),
            pos + td.cols.len() <= cells.len(),
            cellsv == cells@.map_values(|p: Prim| p@),
            cellsv.len() == cells@.len(),
            forall|j: int| 0 <= j < i ==> prim_col(#[trigger] cellsv[pos + j]) == td.cols@[j],
            prims@.len() == i,
            forall|j: int| 0 <= j < i ==> (#[trigger] prims@[j])@ == cellsv[pos + j],
        decreases td.cols.len() - i,
    {
        let cell = &cells[pos + i];
        if !cell.matches_col(td.cols[i]) {
            proof {
                assert(prim_col(cellsv[pos + i]) != td.cols@[i as int]);
                assert(!decode_ok(td@, cellsv, pos as int));
            }
            return Err(Error::DecodeError);
        }
        prims.push(cell.dup());
        i = i + 1;
    }
    let v = Value { ty_name: td.name.clone(), prims };
    proof {
        assert(decode_ok(td@, cellsv, pos as int));
        assert(v@ =~= decoded(td@, cellsv, pos as int));
    }
    Ok((v, pos + td.cols.len()))
}

/// Round trip: decoding the encoding of a well-formed value yields the value
/// back, consuming exactly the type's physical columns.
pub proof fn lemma_round_trip(td: TypeDescV, v: ValueV)
    requires
        value_wf(v, td),
    ensures
        decode_ok(td, encode_v(v), 0),
        decoded(td, encode_v(v), 0) == v,
{
    assert(encode_v(v).subrange(0, td.cols.len() as int) =~= v.prims);
    assert(decoded(td, encode_v(v), 0) =~= v);
}

} // verus!
