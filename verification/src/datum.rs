//! The runtime value model: a tagged scalar value (`Datum`), its
//! mathematical counterpart (`DatumV`), and a packed sequence of values
//! (`Row`). Values are owned and immutable once constructed, so results of
//! an evaluation need no scoped allocator.

use vstd::prelude::*;

use crate::order::{lex_cmp_chars, lex_cmp_bytes, cmp_chars_exec, cmp_bytes_exec, Ord3};

verus! {

/// A single tagged runtime SQL value.
#[derive(Debug)]
pub enum Datum {
    False,
    True,
    Int16(i16),
    Int32(i32),
    Int64(i64),
    Str(String),
    Bytes(Vec<u8>),
    /// A placeholder for values scrubbed from a plan; never produced by
    /// evaluation.
    Dummy,
    /// SQL NULL.
    Null,
}

/// The mathematical model of a `Datum`.
#[verifier::ext_equal]
pub enum DatumV {
    False,
    True,
    Int16(i16),
    Int32(i32),
    Int64(i64),
    Str(Seq<char>),
    Bytes(Seq<u8>),
    Dummy,
    Null,
}

impl View for Datum {
    type V = DatumV;

    open spec fn view(&self) -> DatumV {
        match self {
            Datum::False => DatumV::False,
            Datum::True => DatumV::True,
            Datum::Int16(i) => DatumV::Int16(*i),
            Datum::Int32(i) => DatumV::Int32(*i),
            Datum::Int64(i) => DatumV::Int64(*i),
            Datum::Str(s) => DatumV::Str(s@),
            Datum::Bytes(b) => DatumV::Bytes(b@),
            Datum::Dummy => DatumV::Dummy,
            Datum::Null => DatumV::Null,
        }
    }
}

impl DeepView for Datum {
    type V = DatumV;

    open spec fn deep_view(&self) -> DatumV {
        self.view()
    }
}

impl DatumV {
    /// Whether the value is SQL NULL.
    pub open spec fn is_null(self) -> bool {
        self is Null
    }

    /// The position of the variant in the value model's total order.
    pub open spec fn rank(self) -> int {
        match self {
            DatumV::False => 0,
            DatumV::True => 1,
            DatumV::Int16(_) => 2,
            DatumV::Int32(_) => 3,
            DatumV::Int64(_) => 4,
            DatumV::Str(_) => 5,
            DatumV::Bytes(_) => 6,
            DatumV::Dummy => 7,
            DatumV::Null => 8,
        }
    }
}

/// The structural total order on values: variants in declaration order,
/// then payloads, with character and byte payloads ordered lexicographically.
pub open spec fn datum_cmp_spec(a: DatumV, b: DatumV) -> Ord3 {
    if a.rank() < b.rank() {
        Ord3::Less
    } else if b.rank() < a.rank() {
        Ord3::Greater
    } else {
        match (a, b) {
            (DatumV::Int16(x), DatumV::Int16(y)) => cmp_int(x as int, y as int),
            (DatumV::Int32(x), DatumV::Int32(y)) => cmp_int(x as int, y as int),
            (DatumV::Int64(x), DatumV::Int64(y)) => cmp_int(x as int, y as int),
            (DatumV::Str(x), DatumV::Str(y)) => lex_cmp_chars(x, y),
            (DatumV::Bytes(x), DatumV::Bytes(y)) => lex_cmp_bytes(x, y),
            _ => Ord3::Equal,
        }
    }
}

/// Three-way comparison of two integers.
pub open spec fn cmp_int(x: int, y: int) -> Ord3 {
    if x < y {
        Ord3::Less
    } else if y < x {
        Ord3::Greater
    } else {
        Ord3::Equal
    }
}

/// The comparison returns `Equal` exactly on equal values.
pub proof fn lemma_datum_cmp_eq(a: DatumV, b: DatumV)
    ensures
        datum_cmp_spec(a, b) == Ord3::Equal <==> a == b,
{
    if a.rank() == b.rank() {
        match (a, b) {
            (DatumV::Str(x), DatumV::Str(y)) => {
                crate::order::lemma_lex_cmp_chars_eq(x, y);
            }
            (DatumV::Bytes(x), DatumV::Bytes(y)) => {
                crate::order::lemma_lex_cmp_bytes_eq(x, y);
            }
            _ => {}
        }
    }
}

impl Datum {
    /// Whether the value is SQL NULL.
    pub fn is_null(&self) -> (r: bool)
        ensures
            r == self@.is_null(),
    {
        matches!(self, Datum::Null)
    }

    /// An owned copy of the value, equal to the original in the model.
    pub fn duplicate(&self) -> (r: Datum)
        ensures
            r@ == self@,
    {
        match self {
            Datum::False => Datum::False,
            Datum::True => Datum::True,
            Datum::Int16(i) => Datum::Int16(*i),
            Datum::Int32(i) => Datum::Int32(*i),
            Datum::Int64(i) => Datum::Int64(*i),
            Datum::Str(s) => Datum::Str(s.clone()),
            Datum::Bytes(b) => Datum::Bytes(b.clone()),
            Datum::Dummy => Datum::Dummy,
            Datum::Null => Datum::Null,
        }
    }

    /// Three-way comparison in the value model's total order.
    pub fn cmp_datum(&self, other: &Datum) -> (r: Ord3)
        ensures
            r == datum_cmp_spec(self@, other@),
    {
        match (self, other) {
            (Datum::Int16(x), Datum::Int16(y)) => {
                if x < y { Ord3::Less } else if y < x { Ord3::Greater } else { Ord3::Equal }
            }
            (Datum::Int32(x), Datum::Int32(y)) => {
                if x < y { Ord3::Less } else if y < x { Ord3::Greater } else { Ord3::Equal }
            }
            (Datum::Int64(x), Datum::Int64(y)) => {
                if x < y { Ord3::Less } else if y < x { Ord3::Greater } else { Ord3::Equal }
            }
            (Datum::Str(x), Datum::Str(y)) => {
                let xc = chars_of(x.as_str());
                let yc = chars_of(y.as_str());
                cmp_chars_exec(&xc, &yc)
            }
            (Datum::Bytes(x), Datum::Bytes(y)) => cmp_bytes_exec(x, y),
            _ => {
                let ra = self.rank_exec();
                let rb = other.rank_exec();
                if ra < rb { Ord3::Less } else if rb < ra { Ord3::Greater } else { Ord3::Equal }
            }
        }
    }

    /// Whether two values are equal in the model.
    pub fn eq_datum(&self, other: &Datum) -> (r: bool)
        ensures
            r == (self@ == other@),
    {
        proof {
            lemma_datum_cmp_eq(self@, other@);
        }
        matches!(self.cmp_datum(other), Ord3::Equal)
    }

    /// The position of the variant in the value model's total order.
    fn rank_exec(&self) -> (r: u8)
        ensures
            r as int == self@.rank(),
    {
        match self {
            Datum::False => 0,
            Datum::True => 1,
            Datum::Int16(_) => 2,
            Datum::Int32(_) => 3,
            Datum::Int64(_) => 4,
            Datum::Str(_) => 5,
            Datum::Bytes(_) => 6,
            Datum::Dummy => 7,
            Datum::Null => 8,
        }
    }
}

/// The characters of a string, in order.
pub fn chars_of(s: &str) -> (r: Vec<char>)
    ensures
        r@ == s@,
{
    let n = s.unicode_len();
    let mut v: Vec<char> = Vec::new();
    let mut i: usize = 0;
    while i < n
        invariant
            n == s@.len(),
            i <= n,
            v@ =~= s@.take(i as int),
        decreases n - i,
    {
        v.push(s.get_char(i));
        i = i + 1;
    }
    proof {
        assert(v@ =~= s@);
    }
    v
}

/// An owned, packed sequence of values; equality is structural.
#[derive(Debug)]
pub struct Row {
    pub datums: Vec<Datum>,
}

impl View for Row {
    type V = Seq<DatumV>;

    open spec fn view(&self) -> Seq<DatumV> {
        self.datums.deep_view()
    }
}

impl Row {
    /// Packs owned copies of the given values into a row.
    pub fn pack_slice(datums: &Vec<Datum>) -> (r: Row)
        ensures
            r@ == datums.deep_view(),
    {
        let mut v: Vec<Datum> = Vec::new();
        let mut i: usize = 0;
        while i < datums.len()
            invariant
                i <= datums.len(),
                v@.len() == i,
                forall|j: int| 0 <= j < i ==> v@[j]@ == #[trigger] datums@[j]@,
            decreases datums.len() - i,
        {
            v.push(datums[i].duplicate());
            i = i + 1;
        }
        let r = Row { datums: v };
        proof {
            assert(r@ =~= datums.deep_view());
        }
        r
    }

    /// A row holding exactly one value.
    pub fn pack_one(d: Datum) -> (r: Row)
        ensures
            r@ =~= seq![d@],
    {
        Row { datums: vec![d] }
    }

    /// The first value of the row.
    pub fn unpack_first(&self) -> (r: &Datum)
        requires
            self@.len() > 0,
        ensures
            r@ == self@[0],
    {
        &self.datums[0]
    }

    /// How many values the row holds.
    pub fn len(&self) -> (r: usize)
        ensures
            r == self@.len(),
    {
        self.datums.len()
    }

    /// An owned copy of the row, equal to the original in the model.
    pub fn duplicate(&self) -> (r: Row)
        ensures
            r@ == self@,
    {
        Row::pack_slice(&self.datums)
    }
}

} // verus!
