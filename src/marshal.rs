//! The property marshaller: turns value slots into property values and back.
use crate::lookup::{arg_names, find_arg, find_string, first_index, lemma_first_index_found};
use crate::runtime::{accepts, kind_accepts, ArgKind, ArgSpec, ArgV, ErrorCode, GValue, Prop};
use crate::value::{Double, ResourceKind, Slot, VipsValue};
use vstd::prelude::*;
use vstd::string::*;

verus! {

/// The length of the longest prefix of `s` free of NUL characters.
pub open spec fn nul_pos(s: Seq<char>) -> nat
    decreases s.len(),
{
    if s.len() == 0 || s[0] == '\0' {
        0
    } else {
        1 + nul_pos(s.drop_first())
    }
}

/// What survives of `s` in a NUL-terminated encoding: everything before its
/// first NUL character.
pub open spec fn c_string(s: Seq<char>) -> Seq<char> {
    s.subrange(0, nul_pos(s) as int)
}

pub open spec fn nul_free(s: Seq<char>) -> bool {
    forall|i: int| 0 <= i < s.len() ==> s[i] != '\0'
}

proof fn lemma_nul_pos(s: Seq<char>, i: int)
    requires
        0 <= i <= s.len(),
        forall|j: int| 0 <= j < i ==> s[j] != '\0',
        i == s.len() || s[i] == '\0',
    ensures
        nul_pos(s) == i,
    decreases i,
{
    if i > 0 {
        assert forall|j: int| 0 <= j < i - 1 implies s.drop_first()[j] != '\0' by {
            assert(s.drop_first()[j] == s[j + 1]);
        }
        if i - 1 < s.drop_first().len() {
            assert(s.drop_first()[i - 1] == s[i]);
        }
        lemma_nul_pos(s.drop_first(), i - 1);
    }
}

/// A string free of NUL characters survives the encoding unchanged.
pub proof fn lemma_c_string_nul_free(s: Seq<char>)
    requires
        nul_free(s),
    ensures
        c_string(s) == s,
{
    lemma_nul_pos(s, s.len() as int);
    assert(s.subrange(0, s.len() as int) =~= s);
}

/// Encodes `s` as a NUL-terminated string would carry it.
pub fn to_c_string(s: &String) -> (r: String)
    ensures
        r@ == c_string(s@),
{
    let n = s.unicode_len();
    let mut i: usize = 0;
    while i < n && s.get_char(i) != '\0'
        invariant
            n == s@.len(),
            i <= n,
            forall|j: int| 0 <= j < i ==> s@[j] != '\0',
        decreases n - i,
    {
        i = i + 1;
    }
    proof {
        lemma_nul_pos(s@, i as int);
    }
    s.as_str().substring_char(0, i).to_owned()
}

/// The property value an input slot is marshalled into.
pub open spec fn prop_of(s: Slot) -> Prop {
    match s {
        Slot::Bool(b) => Prop::Bool(b),
        Slot::Int(i) => Prop::Int(i),
        Slot::Uint(u) => Prop::Uint(u),
        Slot::Double(d) => Prop::Double(d),
        Slot::Str(t) => Prop::Str(c_string(t)),
        Slot::Resource(k, h) => Prop::Object(k, h),
        Slot::IntArray(a) => Prop::IntArray(a),
        Slot::DoubleArray(a) => Prop::DoubleArray(a),
        Slot::ImageArray(a) => Prop::ImageArray(a),
        // Output destinations are never marshalled in.
        _ => Prop::Bool(false),
    }
}

pub fn to_gvalue(v: &VipsValue) -> (r: GValue)
    requires
        v@.is_input(),
    ensures
        r@ == prop_of(v@),
{
    match v {
        VipsValue::Bool(b) => GValue::Bool(*b),
        VipsValue::Int(i) => GValue::Int(*i),
        VipsValue::Uint(u) => GValue::Uint(*u),
        VipsValue::Double(d) => GValue::Double(*d),
        VipsValue::Str(s) => GValue::Str(to_c_string(s)),
        VipsValue::Resource(k, h) => GValue::Object(*k, *h),
        VipsValue::IntArray(a) => GValue::IntArray(a.clone()),
        VipsValue::DoubleArray(a) => GValue::DoubleArray(a.clone()),
        VipsValue::ImageArray(a) => GValue::ImageArray(a.clone()),
        _ => GValue::Bool(false),
    }
}

/// Where pushing a slot lands: a property and the value it is set to, or the
/// recovered error that leaves every property as it was.
pub enum Assign {
    To(int, Prop),
    Skip(ErrorCode),
}

/// Resolves a push of input `slot` under `name` against arguments `args`.
///
/// A string pushed onto an enumeration argument is looked up among its nicks
/// and assigned as the matching value.
pub open spec fn push_target(args: Seq<ArgV>, name: Seq<char>, slot: Slot) -> Assign {
    match first_index(arg_names(args), name) {
        None => Assign::Skip(ErrorCode::PropertyNotFound),
        Some(i) => {
            let p = prop_of(slot);
            match p {
                Prop::Str(s) if args[i].kind == ArgKind::Enum => match first_index(
                    args[i].nicks,
                    s,
                ) {
                    None => Assign::Skip(ErrorCode::EnumLookupFailed),
                    Some(v) => Assign::To(i, Prop::Enum(v as i32)),
                },
                _ => if accepts(args[i].kind, p) {
                    Assign::To(i, p)
                } else {
                    Assign::Skip(ErrorCode::TypeMismatch)
                },
            }
        },
    }
}

pub open spec fn args_view(args: Seq<ArgSpec>) -> Seq<ArgV> {
    args.map_values(|a: ArgSpec| a@)
}

pub open spec fn nicks_bounded(args: Seq<ArgV>) -> bool {
    forall|a: int| 0 <= a < args.len() ==> #[trigger] args[a].nicks.len() <= crate::runtime::MAX_NICKS
}

/// Resolves one push; see [`push_target`].
pub fn target(args: &Vec<ArgSpec>, name: &String, v: &VipsValue) -> (r: Result<
    (usize, GValue),
    ErrorCode,
>)
    requires
        v@.is_input(),
        nicks_bounded(args_view(args@)),
    ensures
        match (r, push_target(args_view(args@), name@, v@)) {
            (Ok((i, g)), Assign::To(j, p)) => i == j && g@ == p,
            (Err(e), Assign::Skip(c)) => e == c,
            _ => false,
        },
{
    let ghost av = args_view(args@);
    match find_arg(args, name) {
        None => Err(ErrorCode::PropertyNotFound),
        Some(i) => {
            proof {
                lemma_first_index_found(arg_names(av), name@);
            }
            assert(av[i as int] == args@[i as int]@);
            let g = to_gvalue(v);
            let kind = args[i].kind;
            match g {
                GValue::Str(s) if kind == ArgKind::Enum => match find_string(&args[i].nicks, &s) {
                    None => Err(ErrorCode::EnumLookupFailed),
                    Some(k) => {
                        assert(av[i as int].nicks.len() <= crate::runtime::MAX_NICKS);
                        Ok((i, GValue::Enum(k as i32)))
                    },
                },
                _ => if kind_accepts(kind, &g) {
                    Ok((i, g))
                } else {
                    Err(ErrorCode::TypeMismatch)
                },
            }
        },
    }
}

/// The value an output destination holds after reading property value `p`
/// (`None`: the property was never set). A property of another kind reads
/// as the destination kind's zero; a double array is appended to.
pub open spec fn extract(d: Slot, p: Option<Prop>) -> Slot {
    match d {
        Slot::MutBool(_) => Slot::MutBool(
            match p {
                Some(Prop::Bool(b)) => b,
                _ => false,
            },
        ),
        Slot::MutInt(_) => Slot::MutInt(
            match p {
                Some(Prop::Int(i)) => i,
                Some(Prop::Enum(i)) => i,
                _ => 0,
            },
        ),
        Slot::MutDouble(_) => Slot::MutDouble(
            match p {
                Some(Prop::Double(x)) => x,
                _ => 0,
            },
        ),
        Slot::MutStr(_) => Slot::MutStr(
            match p {
                Some(Prop::Str(s)) => s,
                _ => Seq::empty(),
            },
        ),
        Slot::MutImage(_) => Slot::MutImage(
            match p {
                Some(Prop::Object(ResourceKind::Image, h)) => h,
                _ => 0,
            },
        ),
        Slot::MutBlob(_) => Slot::MutBlob(
            match p {
                Some(Prop::Object(ResourceKind::Blob, h)) => h,
                _ => 0,
            },
        ),
        Slot::MutDoubleArray(a) => Slot::MutDoubleArray(
            match p {
                Some(Prop::DoubleArray(b)) => a + b,
                _ => a,
            },
        ),
        _ => d,
    }
}

pub open spec fn opt_prop(p: Option<GValue>) -> Option<Prop> {
    match p {
        Some(g) => Some(g@),
        None => None,
    }
}

fn append_doubles(dest: &mut Vec<Double>, src: &Vec<Double>)
    ensures
        crate::value::doubles_view(final(dest)@) == crate::value::doubles_view(old(dest)@)
            + crate::value::doubles_view(src@),
{
    let mut i: usize = 0;
    while i < src.len()
        invariant
            i <= src@.len(),
            dest@ == old(dest)@ + src@.subrange(0, i as int),
        decreases src@.len() - i,
    {
        dest.push(src[i]);
        i = i + 1;
        proof {
            assert(dest@ =~= old(dest)@ + src@.subrange(0, i as int));
        }
    }
    proof {
        assert(src@.subrange(0, i as int) =~= src@);
        assert(crate::value::doubles_view(dest@) =~= crate::value::doubles_view(old(dest)@)
            + crate::value::doubles_view(src@));
    }
}

/// Reads property value `p` into output destination `d`; see [`extract`].
pub fn read_into(d: &mut VipsValue, p: &Option<GValue>)
    ensures
        final(d)@ == extract(old(d)@, opt_prop(*p)),
{
    match d {
        VipsValue::MutBool(out) => {
            *out = match p {
                Some(GValue::Bool(b)) => *b,
                _ => false,
            };
        },
        VipsValue::MutInt(out) => {
            *out = match p {
                Some(GValue::Int(i)) => *i,
                Some(GValue::Enum(i)) => *i,
                _ => 0,
            };
        },
        VipsValue::MutDouble(out) => {
            *out = match p {
                Some(GValue::Double(x)) => *x,
                _ => Double { bits: 0 },
            };
        },
        VipsValue::MutStr(out) => {
            *out = match p {
                Some(GValue::Str(s)) => s.clone(),
                _ => String::new(),
            };
        },
        VipsValue::MutImage(out) => {
            *out = match p {
                Some(GValue::Object(ResourceKind::Image, h)) => *h,
                _ => 0,
            };
        },
        VipsValue::MutBlob(out) => {
            *out = match p {
                Some(GValue::Object(ResourceKind::Blob, h)) => *h,
                _ => 0,
            };
        },
        VipsValue::MutDoubleArray(out) => {
            match p {
                Some(GValue::DoubleArray(b)) => append_doubles(out, b),
                _ => {},
            }
        },
        _ => {},
    }
}

} // verus!
