//! Value slots, pairs and the option list.
use vstd::prelude::*;

verus! {

/// A double-precision number, carried as its IEEE-754 bit pattern.
///
/// The marshalling layer only ever copies doubles, so the bit pattern is all
/// it needs to hold.
#[derive(Clone, Copy, PartialEq, Eq, Structural, Debug)]
pub struct Double {
    pub bits: u64,
}

impl Double {
    pub fn from_bits(bits: u64) -> (r: Double)
        ensures
            r.bits == bits,
    {
        Double { bits }
    }

    pub fn to_bits(&self) -> (r: u64)
        ensures
            r == self.bits,
    {
        self.bits
    }
}

/// The kinds of reference-counted resource a handle can denote.
#[derive(Clone, Copy, PartialEq, Eq, Structural, Debug)]
pub enum ResourceKind {
    Image,
    Blob,
    Source,
    Target,
    Interpolate,
}

/// One input value or one output destination.
///
/// Resource handles are numbers into a [`crate::Runtime`]'s resource table;
/// `0` is the null handle. The `Mut*` variants are output destinations: they
/// hold the destination's current contents, which dispatch overwrites (or, for
/// a double array, appends to).
#[derive(Debug)]
pub enum VipsValue {
    Bool(bool),
    Int(i32),
    Uint(u64),
    Double(Double),
    Str(String),
    Resource(ResourceKind, u64),
    IntArray(Vec<i32>),
    DoubleArray(Vec<Double>),
    ImageArray(Vec<u64>),
    MutBool(bool),
    MutInt(i32),
    MutDouble(Double),
    MutStr(String),
    MutImage(u64),
    MutBlob(u64),
    MutDoubleArray(Vec<Double>),
}

/// The mathematical content of a [`VipsValue`].
pub enum Slot {
    Bool(bool),
    Int(i32),
    Uint(u64),
    Double(u64),
    Str(Seq<char>),
    Resource(ResourceKind, u64),
    IntArray(Seq<i32>),
    DoubleArray(Seq<u64>),
    ImageArray(Seq<u64>),
    MutBool(bool),
    MutInt(i32),
    MutDouble(u64),
    MutStr(Seq<char>),
    MutImage(u64),
    MutBlob(u64),
    MutDoubleArray(Seq<u64>),
}

pub open spec fn doubles_view(v: Seq<Double>) -> Seq<u64> {
    v.map_values(|d: Double| d.bits)
}

impl Slot {
    /// A slot is an input exactly when it is a plain value, not a destination.
    pub open spec fn is_input(self) -> bool {
        match self {
            Slot::MutBool(_) | Slot::MutInt(_) | Slot::MutDouble(_) | Slot::MutStr(_)
            | Slot::MutImage(_) | Slot::MutBlob(_) | Slot::MutDoubleArray(_) => false,
            _ => true,
        }
    }
}

impl View for VipsValue {
    type V = Slot;

    open spec fn view(&self) -> Slot {
        match self {
            VipsValue::Bool(b) => Slot::Bool(*b),
            VipsValue::Int(i) => Slot::Int(*i),
            VipsValue::Uint(u) => Slot::Uint(*u),
            VipsValue::Double(d) => Slot::Double(d.bits),
            VipsValue::Str(s) => Slot::Str(s@),
            VipsValue::Resource(k, h) => Slot::Resource(*k, *h),
            VipsValue::IntArray(a) => Slot::IntArray(a@),
            VipsValue::DoubleArray(a) => Slot::DoubleArray(doubles_view(a@)),
            VipsValue::ImageArray(a) => Slot::ImageArray(a@),
            VipsValue::MutBool(b) => Slot::MutBool(*b),
            VipsValue::MutInt(i) => Slot::MutInt(*i),
            VipsValue::MutDouble(d) => Slot::MutDouble(d.bits),
            VipsValue::MutStr(s) => Slot::MutStr(s@),
            VipsValue::MutImage(h) => Slot::MutImage(*h),
            VipsValue::MutBlob(h) => Slot::MutBlob(*h),
            VipsValue::MutDoubleArray(a) => Slot::MutDoubleArray(doubles_view(a@)),
        }
    }
}

impl VipsValue {
    pub fn is_input(&self) -> (r: bool)
        ensures
            r == self@.is_input(),
    {
        match self {
            VipsValue::MutBool(_) | VipsValue::MutInt(_) | VipsValue::MutDouble(_)
            | VipsValue::MutStr(_) | VipsValue::MutImage(_) | VipsValue::MutBlob(_)
            | VipsValue::MutDoubleArray(_) => false,
            _ => true,
        }
    }
}

/// A named value slot inside an option list.
#[derive(Debug)]
pub struct Pair {
    pub name: String,
    pub value: VipsValue,
}

/// The mathematical content of a [`Pair`].
pub struct PairV {
    pub name: Seq<char>,
    pub slot: Slot,
}

pub open spec fn entry(name: Seq<char>, slot: Slot) -> PairV {
    PairV { name, slot }
}

impl View for Pair {
    type V = PairV;

    open spec fn view(&self) -> PairV {
        entry(self.name@, self.value@)
    }
}

impl Pair {
    /// A pair carrying a plain input value.
    pub fn input(name: &str, value: VipsValue) -> (r: Pair)
        requires
            value@.is_input(),
        ensures
            r@ == entry(name@, value@),
            r.is_input(),
    {
        Pair { name: name.to_owned(), value }
    }

    /// A pair carrying an output destination.
    pub fn output(name: &str, value: VipsValue) -> (r: Pair)
        requires
            !value@.is_input(),
        ensures
            r@ == entry(name@, value@),
            !r.is_input(),
    {
        Pair { name: name.to_owned(), value }
    }

    /// Whether this pair is an input; decided by the kind of its slot alone.
    #[verifier::when_used_as_spec(spec_is_input)]
    pub fn is_input(&self) -> (r: bool)
        ensures
            r == self@.slot.is_input(),
    {
        self.value.is_input()
    }

    pub open spec fn spec_is_input(&self) -> bool {
        self@.slot.is_input()
    }

    pub fn name(&self) -> (r: &str)
        ensures
            r@ == self@.name,
    {
        self.name.as_str()
    }

    pub fn value(&self) -> (r: &VipsValue)
        ensures
            r@ == self@.slot,
    {
        &self.value
    }
}

/// An ordered list of named value slots, inputs and outputs mixed.
///
/// Building the list touches no object model; everything is deferred to
/// dispatch. Names are neither checked nor made unique here.
#[derive(Debug)]
pub struct VOption {
    pub options: Vec<Pair>,
}

impl View for VOption {
    type V = Seq<PairV>;

    open spec fn view(&self) -> Seq<PairV> {
        self.options@.map_values(|p: Pair| p@)
    }
}

impl VOption {
    pub fn new() -> (r: VOption)
        ensures
            r@ == Seq::<PairV>::empty(),
    {
        VOption { options: Vec::new() }
    }

    pub fn len(&self) -> (r: usize)
        ensures
            r == self@.len(),
    {
        self.options.len()
    }

    pub fn get(&self, i: usize) -> (r: &Pair)
        requires
            i < self@.len(),
        ensures
            r@ == self@[i as int],
    {
        &self.options[i]
    }

    /// Appends one pair.
    pub fn push_pair(&mut self, name: &str, value: VipsValue)
        ensures
            final(self)@ == old(self)@.push(entry(name@, value@)),
    {
        let pair = Pair { name: name.to_owned(), value };
        self.options.push(pair);
        proof {
            assert(final(self)@ =~= old(self)@.push(entry(name@, value@)));
        }
    }
}

impl Default for VOption {
    fn default() -> (r: VOption)
        ensures
            r@ == Seq::<PairV>::empty(),
    {
        VOption::new()
    }
}

/// An output destination of type `T`, holding the destination's current value.
pub struct Output<T> {
    pub value: T,
}

/// Adds a named value to an option list, by value (`set`) or in place (`add`).
///
/// Plain values become inputs; an [`Output`] becomes an output destination.
pub trait Setter<T>: Sized {
    fn set(self, name: &str, value: T) -> VOption;

    fn add(&mut self, name: &str, value: T);
}

} // verus!
