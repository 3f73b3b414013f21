//! The object model that operations are resolved against: a registry of
//! operation classes with typed, named arguments, a table of reference-counted
//! resources, and an explicit diagnostic channel.
use crate::value::{Double, ResourceKind};
use vstd::prelude::*;

verus! {

/// The declared kind of an operation argument.
#[derive(Clone, Copy, PartialEq, Eq, Structural, Debug)]
pub enum ArgKind {
    Bool,
    Int,
    Uint,
    Double,
    Str,
    /// An enumeration; its values are the positions of its nicks.
    Enum,
    Object(ResourceKind),
    IntArray,
    DoubleArray,
    ImageArray,
}

/// One declared argument of an operation class.
#[derive(Debug)]
pub struct ArgSpec {
    pub name: String,
    pub kind: ArgKind,
    /// The nicks of an enumeration argument, in value order; empty otherwise.
    pub nicks: Vec<String>,
    pub input: bool,
    pub required: bool,
}

pub struct ArgV {
    pub name: Seq<char>,
    pub kind: ArgKind,
    pub nicks: Seq<Seq<char>>,
    pub input: bool,
    pub required: bool,
}

pub open spec fn strings_view(v: Seq<String>) -> Seq<Seq<char>> {
    v.map_values(|s: String| s@)
}

impl View for ArgSpec {
    type V = ArgV;

    open spec fn view(&self) -> ArgV {
        ArgV {
            name: self.name@,
            kind: self.kind,
            nicks: strings_view(self.nicks@),
            input: self.input,
            required: self.required,
        }
    }
}

/// The largest number of nicks an enumeration argument may declare, so that
/// every value fits an `i32`.
pub const MAX_NICKS: usize = 0x7fff_ffff;

impl ArgSpec {
    /// An input argument of a non-enumeration kind.
    pub fn input(name: &str, kind: ArgKind, required: bool) -> (r: ArgSpec)
        ensures
            r@.name == name@,
            r@.kind == kind,
            r@.nicks.len() == 0,
            r@.input,
            r@.required == required,
    {
        ArgSpec { name: name.to_owned(), kind, nicks: Vec::new(), input: true, required }
    }

    /// An output argument.
    pub fn output(name: &str, kind: ArgKind) -> (r: ArgSpec)
        ensures
            r@.name == name@,
            r@.kind == kind,
            r@.nicks.len() == 0,
            !r@.input,
            !r@.required,
    {
        ArgSpec { name: name.to_owned(), kind, nicks: Vec::new(), input: false, required: false }
    }

    /// An enumeration input argument with the given nicks, in value order.
    pub fn enumeration(name: &str, nicks: Vec<String>, required: bool) -> (r: ArgSpec)
        requires
            nicks@.len() <= MAX_NICKS,
        ensures
            r@.name == name@,
            r@.kind == ArgKind::Enum,
            r@.nicks == strings_view(nicks@),
            r@.input,
            r@.required == required,
    {
        ArgSpec { name: name.to_owned(), kind: ArgKind::Enum, nicks, input: true, required }
    }
}

/// What an operation class is for, beyond being called by name.
#[derive(Clone, Copy, PartialEq, Eq, Structural, Debug)]
pub enum Role {
    /// An ordinary operation.
    Operation,
    /// Loads an image from a file with one of its suffixes.
    Load,
    /// Saves an image to a file with one of its suffixes.
    Save,
    /// Saves an image to a target, in the format of one of its suffixes.
    SaveTarget,
    /// Loads an image from a byte buffer that begins with its signature.
    LoadBuffer,
    /// Loads an image from a source whose bytes begin with its signature.
    LoadSource,
}

/// A registered operation: its name, the nickname used in diagnostics and
/// enumeration lookups, its declared arguments, and, for loaders and savers,
/// the filename suffixes (such as `.png`) it handles.
#[derive(Debug)]
pub struct OpClass {
    pub name: String,
    pub nickname: String,
    pub args: Vec<ArgSpec>,
    pub role: Role,
    pub suffixes: Vec<String>,
    pub signature: Vec<u8>,
}

pub struct ClassV {
    pub name: Seq<char>,
    pub nickname: Seq<char>,
    pub args: Seq<ArgV>,
    pub role: Role,
    pub suffixes: Seq<Seq<char>>,
    pub signature: Seq<u8>,
}

impl View for OpClass {
    type V = ClassV;

    open spec fn view(&self) -> ClassV {
        ClassV {
            name: self.name@,
            nickname: self.nickname@,
            args: self.args@.map_values(|a: ArgSpec| a@),
            role: self.role,
            suffixes: strings_view(self.suffixes@),
            signature: self.signature@,
        }
    }
}

impl OpClass {
    pub fn new(name: &str, nickname: &str) -> (r: OpClass)
        ensures
            r@.name == name@,
            r@.nickname == nickname@,
            r@.args.len() == 0,
            r@.role == Role::Operation,
            r@.suffixes.len() == 0,
            r@.signature.len() == 0,
    {
        OpClass {
            name: name.to_owned(),
            nickname: nickname.to_owned(),
            args: Vec::new(),
            role: Role::Operation,
            suffixes: Vec::new(),
            signature: Vec::new(),
        }
    }

    /// Makes this class a loader or saver for one more suffix.
    pub fn handles(self, role: Role, suffix: &str) -> (r: OpClass)
        ensures
            r@ == (ClassV { role, suffixes: self@.suffixes.push(suffix@), ..self@ }),
    {
        let mut r = self;
        r.role = role;
        r.suffixes.push(suffix.to_owned());
        proof {
            assert(r@.suffixes =~= self@.suffixes.push(suffix@));
        }
        r
    }

    /// Makes this class a loader, of role `role`, of bytes that begin with
    /// `signature`.
    pub fn sniffs(self, role: Role, signature: &[u8]) -> (r: OpClass)
        ensures
            r@ == (ClassV { role, signature: signature@, ..self@ }),
    {
        let mut r = self;
        r.role = role;
        r.signature = vstd::slice::slice_to_vec(signature);
        proof {
            assert(r@.suffixes =~= self@.suffixes);
            assert(r@.args =~= self@.args);
        }
        r
    }

    /// Declares one more argument.
    pub fn arg(self, spec: ArgSpec) -> (r: OpClass)
        ensures
            r@.name == self@.name,
            r@.nickname == self@.nickname,
            r@.args == self@.args.push(spec@),
            r@.role == self@.role,
            r@.suffixes == self@.suffixes,
            r@.signature == self@.signature,
    {
        let mut r = self;
        r.args.push(spec);
        proof {
            assert(r@.args =~= self@.args.push(spec@));
        }
        r
    }
}

/// A value held by an operation node's property.
#[derive(Debug)]
pub enum GValue {
    Bool(bool),
    Int(i32),
    Uint(u64),
    Double(Double),
    Str(String),
    Enum(i32),
    Object(ResourceKind, u64),
    IntArray(Vec<i32>),
    DoubleArray(Vec<Double>),
    ImageArray(Vec<u64>),
}

/// The mathematical content of a [`GValue`].
pub enum Prop {
    Bool(bool),
    Int(i32),
    Uint(u64),
    Double(u64),
    Str(Seq<char>),
    Enum(i32),
    Object(ResourceKind, u64),
    IntArray(Seq<i32>),
    DoubleArray(Seq<u64>),
    ImageArray(Seq<u64>),
}

impl View for GValue {
    type V = Prop;

    open spec fn view(&self) -> Prop {
        match self {
            GValue::Bool(b) => Prop::Bool(*b),
            GValue::Int(i) => Prop::Int(*i),
            GValue::Uint(u) => Prop::Uint(*u),
            GValue::Double(d) => Prop::Double(d.bits),
            GValue::Str(s) => Prop::Str(s@),
            GValue::Enum(e) => Prop::Enum(*e),
            GValue::Object(k, h) => Prop::Object(*k, *h),
            GValue::IntArray(a) => Prop::IntArray(a@),
            GValue::DoubleArray(a) => Prop::DoubleArray(crate::value::doubles_view(a@)),
            GValue::ImageArray(a) => Prop::ImageArray(a@),
        }
    }
}

/// Whether a property of kind `kind` accepts `p`: only values of its own kind.
pub open spec fn accepts(kind: ArgKind, p: Prop) -> bool {
    match (kind, p) {
        (ArgKind::Bool, Prop::Bool(_)) => true,
        (ArgKind::Int, Prop::Int(_)) => true,
        (ArgKind::Uint, Prop::Uint(_)) => true,
        (ArgKind::Double, Prop::Double(_)) => true,
        (ArgKind::Str, Prop::Str(_)) => true,
        (ArgKind::Enum, Prop::Enum(_)) => true,
        (ArgKind::Object(k), Prop::Object(k2, _)) => k == k2,
        (ArgKind::IntArray, Prop::IntArray(_)) => true,
        (ArgKind::DoubleArray, Prop::DoubleArray(_)) => true,
        (ArgKind::ImageArray, Prop::ImageArray(_)) => true,
        _ => false,
    }
}

pub fn kind_accepts(kind: ArgKind, p: &GValue) -> (r: bool)
    ensures
        r == accepts(kind, p@),
{
    match (kind, p) {
        (ArgKind::Bool, GValue::Bool(_)) => true,
        (ArgKind::Int, GValue::Int(_)) => true,
        (ArgKind::Uint, GValue::Uint(_)) => true,
        (ArgKind::Double, GValue::Double(_)) => true,
        (ArgKind::Str, GValue::Str(_)) => true,
        (ArgKind::Enum, GValue::Enum(_)) => true,
        (ArgKind::Object(k), GValue::Object(k2, _)) => k == *k2,
        (ArgKind::IntArray, GValue::IntArray(_)) => true,
        (ArgKind::DoubleArray, GValue::DoubleArray(_)) => true,
        (ArgKind::ImageArray, GValue::ImageArray(_)) => true,
        _ => false,
    }
}

/// One entry of the resource table.
#[derive(Clone, Copy, PartialEq, Eq, Structural, Debug)]
pub struct Resource {
    pub kind: ResourceKind,
    pub refs: u64,
}

/// What went wrong in a dispatch.
#[derive(Clone, Copy, PartialEq, Eq, Structural, Debug)]
pub enum ErrorCode {
    /// No operation of that name is registered.
    OperationNotFound,
    /// The option string could not be parsed or applied.
    MalformedOptionString,
    /// A pair names no argument of the operation (recovered).
    PropertyNotFound,
    /// A string did not name a value of an enumeration argument (recovered).
    EnumLookupFailed,
    /// A value's kind does not match its argument's kind (recovered).
    TypeMismatch,
    /// A required input was left unset.
    BuildFailed,
}

/// A diagnostic: what went wrong, and the name it concerns.
#[derive(Debug)]
pub struct Diagnostic {
    pub code: ErrorCode,
    pub subject: String,
}

pub struct DiagV {
    pub code: ErrorCode,
    pub subject: Seq<char>,
}

impl View for Diagnostic {
    type V = DiagV;

    open spec fn view(&self) -> DiagV {
        DiagV { code: self.code, subject: self.subject@ }
    }
}

pub open spec fn diag(code: ErrorCode, subject: Seq<char>) -> DiagV {
    DiagV { code, subject }
}

/// The object model: registered operations, the resource table (handle `h`
/// denotes entry `h - 1`; `0` is null), the last unrecovered error, and the
/// warnings logged for recovered ones.
#[derive(Debug)]
pub struct Runtime {
    pub classes: Vec<OpClass>,
    pub objects: Vec<Resource>,
    pub error: Option<Diagnostic>,
    pub warnings: Vec<Diagnostic>,
}

pub struct RuntimeV {
    pub classes: Seq<ClassV>,
    pub objects: Seq<Resource>,
    pub error: Option<DiagV>,
    pub warnings: Seq<DiagV>,
}

pub open spec fn opt_diag_view(d: Option<Diagnostic>) -> Option<DiagV> {
    match d {
        Some(d) => Some(d@),
        None => None,
    }
}

impl View for Runtime {
    type V = RuntimeV;

    open spec fn view(&self) -> RuntimeV {
        RuntimeV {
            classes: self.classes@.map_values(|c: OpClass| c@),
            objects: self.objects@,
            error: opt_diag_view(self.error),
            warnings: self.warnings@.map_values(|d: Diagnostic| d@),
        }
    }
}

/// The largest number of entries the resource table holds.
pub const MAX_RESOURCES: usize = 0xffff_ffff;

impl RuntimeV {
    /// Every enumeration's values fit an `i32`, and the resource table is
    /// within its bound.
    pub open spec fn wf(self) -> bool {
        &&& self.objects.len() <= MAX_RESOURCES
        &&& forall|c: int, a: int|
            0 <= c < self.classes.len() && 0 <= a < self.classes[c].args.len()
                ==> #[trigger] self.classes[c].args[a].nicks.len() <= MAX_NICKS
    }

    /// The reference count of handle `h`, or `0` if it denotes no entry.
    pub open spec fn refs(self, h: u64) -> u64 {
        if 1 <= h <= self.objects.len() {
            self.objects[h - 1].refs
        } else {
            0
        }
    }
}

/// How many times `h` occurs in `hs`.
pub open spec fn occurrences(hs: Seq<u64>, h: u64) -> nat
    decreases hs.len(),
{
    if hs.len() == 0 {
        0
    } else {
        occurrences(hs.drop_last(), h) + if hs.last() == h {
            1nat
        } else {
            0nat
        }
    }
}

/// `r` raised by `n`, saturating at the largest count.
pub open spec fn bump(r: u64, n: nat) -> u64 {
    if r + n <= u64::MAX {
        (r + n) as u64
    } else {
        u64::MAX
    }
}

/// The table after taking one reference per occurrence of a handle in `hs`;
/// occurrences of null or unknown handles take none.
pub open spec fn add_refs(objs: Seq<Resource>, hs: Seq<u64>) -> Seq<Resource> {
    Seq::new(
        objs.len(),
        |j: int| Resource { kind: objs[j].kind, refs: bump(objs[j].refs, occurrences(hs, (j + 1) as u64)) },
    )
}

/// The table after allocating one resource of kind `k`, held once.
pub open spec fn allocated(objs: Seq<Resource>, k: ResourceKind) -> Seq<Resource> {
    if objs.len() < MAX_RESOURCES {
        objs.push(Resource { kind: k, refs: 1 })
    } else {
        objs
    }
}

/// The table after one reference on handle `h` is dropped; null, unknown and
/// unreferenced handles are left alone.
pub open spec fn released(objs: Seq<Resource>, h: u64) -> Seq<Resource> {
    if 1 <= h <= objs.len() && objs[h - 1].refs > 0 {
        objs.update(h - 1, Resource { kind: objs[h - 1].kind, refs: (objs[h - 1].refs - 1) as u64 })
    } else {
        objs
    }
}

/// The handle that allocating in `objs` hands out; null if the table is full.
pub open spec fn next_handle(objs: Seq<Resource>) -> u64 {
    if objs.len() < MAX_RESOURCES {
        (objs.len() + 1) as u64
    } else {
        0
    }
}

impl Runtime {
    pub fn new() -> (r: Runtime)
        ensures
            r@.classes.len() == 0,
            r@.objects.len() == 0,
            r@.error.is_none(),
            r@.warnings.len() == 0,
            r@.wf(),
    {
        Runtime { classes: Vec::new(), objects: Vec::new(), error: None, warnings: Vec::new() }
    }

    /// Registers an operation class; lookups find the first class of a name.
    pub fn register(&mut self, class: OpClass)
        requires
            old(self)@.wf(),
            forall|a: int|
                0 <= a < class@.args.len() ==> #[trigger] class@.args[a].nicks.len() <= MAX_NICKS,
        ensures
            final(self)@ == (RuntimeV { classes: old(self)@.classes.push(class@), ..old(self)@ }),
            final(self)@.wf(),
    {
        let ghost c = class@;
        self.classes.push(class);
        proof {
            assert(self@.classes =~= old(self)@.classes.push(c));
            assert(self@.warnings =~= old(self)@.warnings);
        }
    }

    /// Allocates a resource of kind `k`, held once by the caller; returns its
    /// handle, or null when the table is full.
    pub fn new_resource(&mut self, k: ResourceKind) -> (h: u64)
        requires
            old(self)@.wf(),
        ensures
            h == next_handle(old(self)@.objects),
            final(self)@ == (RuntimeV { objects: allocated(old(self)@.objects, k), ..old(self)@ }),
            final(self)@.wf(),
    {
        let h = allocate(&mut self.objects, k);
        proof {
            assert(self@.classes =~= old(self)@.classes);
            assert(self@.warnings =~= old(self)@.warnings);
        }
        h
    }

    /// Drops one reference on handle `h`, as an owner does once when it is
    /// done with it; null, unknown and unreferenced handles are left alone.
    pub fn release(&mut self, h: u64)
        ensures
            final(self)@ == (RuntimeV { objects: released(old(self)@.objects, h), ..old(self)@ }),
    {
        let n = self.objects.len();
        if 1 <= h && h <= n as u64 {
            let idx = (h - 1) as usize;
            let o = self.objects[idx];
            if o.refs > 0 {
                self.objects.set(idx, Resource { kind: o.kind, refs: o.refs - 1 });
            }
        }
        proof {
            assert(self@.classes =~= old(self)@.classes);
            assert(self@.warnings =~= old(self)@.warnings);
        }
    }

    /// The reference count of handle `h`; `0` for null or unknown handles.
    pub fn refs(&self, h: u64) -> (r: u64)
        ensures
            r == self@.refs(h),
    {
        if 1 <= h && h <= self.objects.len() as u64 {
            self.objects[(h - 1) as usize].refs
        } else {
            0
        }
    }

    /// Whether the runtime is well formed; see [`RuntimeV::wf`].
    pub fn well_formed(&self) -> (r: bool)
        ensures
            r == self@.wf(),
    {
        if self.objects.len() > MAX_RESOURCES {
            return false;
        }
        let ghost cs = self@.classes;
        let mut c: usize = 0;
        while c < self.classes.len()
            invariant
                c <= self.classes@.len(),
                cs == self@.classes,
                forall|ci: int, a: int|
                    0 <= ci < c && 0 <= a < cs[ci].args.len() ==> #[trigger] cs[ci].args[a].nicks.len()
                        <= MAX_NICKS,
            decreases self.classes@.len() - c,
        {
            let args = &self.classes[c].args;
            assert(cs[c as int] == self.classes@[c as int]@);
            let mut a: usize = 0;
            while a < args.len()
                invariant
                    c < self.classes@.len(),
                    args == &self.classes@[c as int].args,
                    cs == self@.classes,
                    cs[c as int] == self.classes@[c as int]@,
                    a <= args@.len(),
                    forall|ai: int| 0 <= ai < a ==> #[trigger] cs[c as int].args[ai].nicks.len() <= MAX_NICKS,
                    forall|ci: int, ai: int|
                        0 <= ci < c && 0 <= ai < cs[ci].args.len() ==> #[trigger] cs[ci].args[ai].nicks.len()
                            <= MAX_NICKS,
                decreases args@.len() - a,
            {
                assert(cs[c as int].args[a as int] == args@[a as int]@);
                if args[a].nicks.len() > MAX_NICKS {
                    assert(cs[c as int].args[a as int].nicks.len() > MAX_NICKS);
                    assert(!self@.wf());
                    return false;
                }
                a = a + 1;
            }
            c = c + 1;
        }
        true
    }

    /// The last unrecovered error, if any.
    pub fn last_error(&self) -> (r: Option<ErrorCode>)
        ensures
            r == match self@.error {
                Some(d) => Some(d.code),
                None => None,
            },
    {
        match &self.error {
            Some(d) => Some(d.code),
            None => None,
        }
    }

    /// The number of warnings logged for recovered errors.
    pub fn warning_count(&self) -> (r: usize)
        ensures
            r == self@.warnings.len(),
    {
        self.warnings.len()
    }
}

pub proof fn lemma_occurrences_concat(a: Seq<u64>, b: Seq<u64>, h: u64)
    ensures
        occurrences(a + b, h) == occurrences(a, h) + occurrences(b, h),
    decreases b.len(),
{
    if b.len() == 0 {
        assert(a + b =~= a);
    } else {
        assert((a + b).drop_last() =~= a + b.drop_last());
        lemma_occurrences_concat(a, b.drop_last(), h);
    }
}

pub proof fn lemma_add_refs_compose(o: Seq<Resource>, a: Seq<u64>, b: Seq<u64>)
    ensures
        add_refs(add_refs(o, a), b) == add_refs(o, a + b),
{
    assert forall|j: int| 0 <= j < o.len() implies #[trigger] add_refs(add_refs(o, a), b)[j] == add_refs(
        o,
        a + b,
    )[j] by {
        lemma_occurrences_concat(a, b, (j + 1) as u64);
    }
    assert(add_refs(add_refs(o, a), b) =~= add_refs(o, a + b));
}

/// The table after dropping one reference on every entry from position `k`
/// on: the references a node held on the resources it allocated.
pub open spec fn release_from(objs: Seq<Resource>, k: int) -> Seq<Resource> {
    Seq::new(
        objs.len(),
        |j: int|
            if j >= k && objs[j].refs > 0 {
                Resource { kind: objs[j].kind, refs: (objs[j].refs - 1) as u64 }
            } else {
                objs[j]
            },
    )
}

/// Drops one reference on every entry from position `k` on.
pub fn release_tail(objects: &mut Vec<Resource>, k: usize)
    ensures
        final(objects)@ == release_from(old(objects)@, k as int),
{
    let ghost objs0 = objects@;
    let n = objects.len();
    let mut j: usize = k;
    while j < n
        invariant
            n == objs0.len(),
            objects@.len() == n,
            k <= j || j == k,
            forall|i: int| 0 <= i < n && (i < k || i >= j) ==> objects@[i] == objs0[i],
            forall|i: int| k <= i < j && i < n ==> objects@[i] == release_from(objs0, k as int)[i],
        decreases n - j,
    {
        let o = objects[j];
        if o.refs > 0 {
            objects.set(j, Resource { kind: o.kind, refs: o.refs - 1 });
        }
        j = j + 1;
    }
    proof {
        assert(objects@ =~= release_from(objs0, k as int));
    }
}

/// Takes one reference on every handle in `hs`, in order.
pub fn take_refs(objects: &mut Vec<Resource>, hs: &Vec<u64>)
    ensures
        final(objects)@ == add_refs(old(objects)@, hs@),
{
    let ghost objs0 = objects@;
    let mut i: usize = 0;
    proof {
        assert(objs0 =~= add_refs(objs0, hs@.subrange(0, 0)));
    }
    while i < hs.len()
        invariant
            i <= hs@.len(),
            objects@ == add_refs(objs0, hs@.subrange(0, i as int)),
            objs0 == old(objects)@,
        decreases hs@.len() - i,
    {
        let h = hs[i];
        let ghost before = hs@.subrange(0, i as int);
        let ghost after = hs@.subrange(0, i + 1);
        proof {
            assert(after.drop_last() =~= before);
            assert(after.last() == h);
            assert forall|j: int| 0 <= j < objs0.len() implies #[trigger] occurrences(after, (j + 1) as u64)
                == occurrences(before, (j + 1) as u64) + if h == (j + 1) as u64 {
                1nat
            } else {
                0nat
            } by {}
        }
        let ghost cur = objects@;
        let n = objects.len();
        if 1 <= h && h <= n as u64 {
            let idx = (h - 1) as usize;
            let o = objects[idx];
            let refs = if o.refs < u64::MAX {
                o.refs + 1
            } else {
                o.refs
            };
            objects.set(idx, Resource { kind: o.kind, refs });
        }
        i = i + 1;
        proof {
            let target = add_refs(objs0, after);
            assert(objects@.len() == target.len());
            assert forall|j: int| 0 <= j < target.len() implies objects@[j] == target[j] by {
                let b = occurrences(before, (j + 1) as u64);
                assert(cur[j].refs == bump(objs0[j].refs, b));
                assert(target[j].refs == bump(objs0[j].refs, occurrences(after, (j + 1) as u64)));
                if h == (j + 1) as u64 {
                    assert(objects@[j].refs == if cur[j].refs < u64::MAX { (cur[j].refs + 1) as u64 } else { cur[j].refs });
                } else {
                    assert(objects@[j] == cur[j]);
                }
            }
            assert(objects@ =~= target);
        }
    }
    proof {
        assert(hs@.subrange(0, i as int) =~= hs@);
    }
}

/// Allocates a resource of kind `k` held once; returns its handle, or null
/// when the table is full.
pub fn allocate(objects: &mut Vec<Resource>, k: ResourceKind) -> (h: u64)
    requires
        old(objects)@.len() <= MAX_RESOURCES,
    ensures
        h == next_handle(old(objects)@),
        final(objects)@ == allocated(old(objects)@, k),
{
    if objects.len() < MAX_RESOURCES {
        objects.push(Resource { kind: k, refs: 1 });
        objects.len() as u64
    } else {
        0
    }
}

} // verus!
