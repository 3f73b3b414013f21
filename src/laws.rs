//! Laws relating pushes, pulls and whole dispatches.
use crate::dispatch::{
    array_handles, configured, fill_outputs, invoke, missing_required, pull_takes, pulled, push_all,
    push_one, recovered, taken, unset_props,
};
use crate::lookup::{arg_names, class_names, first_index, lemma_first_index_found};
use crate::marshal::{lemma_c_string_nul_free, nul_free, prop_of, push_target, Assign};
use crate::options::{assignments_update, segment_update, unbracketed};
use crate::runtime::{add_refs, bump, lemma_add_refs_compose, occurrences, ArgKind, ArgV, ErrorCode, Prop, Resource, RuntimeV};
use crate::value::{entry, PairV, Slot};
use vstd::prelude::*;

verus! {

/// The argument kind that holds a value of input slot `x` unchanged, for the
/// kinds that have an output destination of their own.
pub open spec fn round_trip_kind(x: Slot) -> Option<ArgKind> {
    match x {
        Slot::Bool(_) => Some(ArgKind::Bool),
        Slot::Int(_) => Some(ArgKind::Int),
        Slot::Double(_) => Some(ArgKind::Double),
        Slot::Str(_) => Some(ArgKind::Str),
        _ => None,
    }
}

/// What destination `d` holds after reading back scalar `x`, if `d` is a
/// destination of `x`'s kind.
pub open spec fn read_back(x: Slot, d: Slot) -> Option<Slot> {
    match (x, d) {
        (Slot::Bool(b), Slot::MutBool(_)) => Some(Slot::MutBool(b)),
        (Slot::Int(i), Slot::MutInt(_)) => Some(Slot::MutInt(i)),
        (Slot::Double(v), Slot::MutDouble(_)) => Some(Slot::MutDouble(v)),
        (Slot::Str(s), Slot::MutStr(_)) => Some(Slot::MutStr(s)),
        _ => None,
    }
}

/// Pushing a boolean, integer, double or (NUL-free) string onto an argument
/// of its own kind, then pulling the same name into a destination of that
/// kind, gives the value back.
pub proof fn law_scalar_round_trip(
    args: Seq<ArgV>,
    props: Seq<Option<Prop>>,
    rt: RuntimeV,
    name: Seq<char>,
    x: Slot,
    d: Slot,
)
    requires
        props.len() == args.len(),
        read_back(x, d).is_some(),
        match first_index(arg_names(args), name) {
            Some(i) => Some(args[i].kind) == round_trip_kind(x),
            None => false,
        },
        forall|s: Seq<char>| x == Slot::Str(s) ==> nul_free(s),
    ensures
        pulled(args, push_one(args, props, rt, entry(name, x)).0, entry(name, d)) == entry(
            name,
            read_back(x, d).unwrap(),
        ),
{
    lemma_first_index_found(arg_names(args), name);
    if let Slot::Str(s) = x {
        lemma_c_string_nul_free(s);
    }
}

/// Pushing an unsigned 64-bit integer onto an argument of that kind stores
/// exactly that integer.
pub proof fn law_uint_stored(args: Seq<ArgV>, props: Seq<Option<Prop>>, rt: RuntimeV, name: Seq<char>, u: u64)
    requires
        props.len() == args.len(),
        match first_index(arg_names(args), name) {
            Some(i) => args[i].kind == ArgKind::Uint,
            None => false,
        },
    ensures
        push_one(args, props, rt, entry(name, Slot::Uint(u))).0 == props.update(
            first_index(arg_names(args), name).unwrap(),
            Some(Prop::Uint(u)),
        ),
{
}

/// Pushing double array `a` onto a double-array argument, then pulling the
/// same name into a double-array destination holding `e`, leaves `e`
/// followed by `a` there: the destination only grows.
pub proof fn law_double_array_round_trip(
    args: Seq<ArgV>,
    props: Seq<Option<Prop>>,
    rt: RuntimeV,
    name: Seq<char>,
    a: Seq<u64>,
    e: Seq<u64>,
)
    requires
        props.len() == args.len(),
        match first_index(arg_names(args), name) {
            Some(i) => args[i].kind == ArgKind::DoubleArray,
            None => false,
        },
    ensures
        pulled(
            args,
            push_one(args, props, rt, entry(name, Slot::DoubleArray(a))).0,
            entry(name, Slot::MutDoubleArray(e)),
        ) == entry(name, Slot::MutDoubleArray(e + a)),
{
    lemma_first_index_found(arg_names(args), name);
}

/// A string pushed onto an enumeration argument is assigned as the value of
/// the first nick it equals; a string that is no nick leaves every property
/// as it was, logs a warning and clears the error.
pub proof fn law_enum_nick(args: Seq<ArgV>, props: Seq<Option<Prop>>, rt: RuntimeV, name: Seq<char>, s: Seq<char>)
    requires
        props.len() == args.len(),
        nul_free(s),
        match first_index(arg_names(args), name) {
            Some(i) => args[i].kind == ArgKind::Enum,
            None => false,
        },
    ensures
        ({
            let i = first_index(arg_names(args), name).unwrap();
            let (pushed, rt1) = push_one(args, props, rt, entry(name, Slot::Str(s)));
            match first_index(args[i].nicks, s) {
                Some(v) => pushed == props.update(i, Some(Prop::Enum(v as i32))) && rt1 == rt,
                None => pushed == props && rt1 == recovered(rt, ErrorCode::EnumLookupFailed, name),
            }
        }),
{
    lemma_c_string_nul_free(s);
    assert(add_refs(rt.objects, Seq::empty()) =~= rt.objects);
}

/// Whether pushing pair `p` assigns a property of an operation with
/// arguments `args`.
pub open spec fn assigns(args: Seq<ArgV>, p: PairV) -> bool {
    p.slot.is_input() && push_target(args, p.name, p.slot) is To
}

/// Whether pair `p` is inert for an operation with arguments `args`: an
/// input that assigns nothing (it names no argument, no nick, or has the
/// wrong kind), or any pair naming no argument.
pub open spec fn inert(args: Seq<ArgV>, p: PairV) -> bool {
    (p.slot.is_input() && !assigns(args, p)) || first_index(arg_names(args), p.name).is_none()
}

/// Inserting an inert pair anywhere in the list leaves every property the
/// pushes assign, and every reference count, as without it: an argument it
/// aimed at keeps its default.
pub proof fn law_inert_pair_keeps_properties(
    args: Seq<ArgV>,
    props: Seq<Option<Prop>>,
    rt: RuntimeV,
    pairs: Seq<PairV>,
    k: int,
    extra: PairV,
)
    requires
        0 <= k <= pairs.len(),
        inert(args, extra),
    ensures
        push_all(args, props, rt, pairs.insert(k, extra)).0 == push_all(args, props, rt, pairs).0,
        push_all(args, props, rt, pairs.insert(k, extra)).1.objects == push_all(args, props, rt, pairs).1.objects,
    decreases pairs.len(),
{
    let with = pairs.insert(k, extra);
    if k == pairs.len() {
        assert(with.drop_last() =~= pairs);
        assert(with.last() == extra);
    } else {
        assert(with.drop_last() =~= pairs.drop_last().insert(k, extra));
        assert(with.last() == pairs.last());
        law_inert_pair_keeps_properties(args, props, rt, pairs.drop_last(), k, extra);
    }
}

proof fn lemma_inert_takes(args: Seq<ArgV>, props: Seq<Option<Prop>>, pairs: Seq<PairV>, k: int, extra: PairV)
    requires
        0 <= k <= pairs.len(),
        inert(args, extra),
    ensures
        pull_takes(args, props, pairs.insert(k, extra)) == pull_takes(args, props, pairs),
    decreases pairs.len(),
{
    let with = pairs.insert(k, extra);
    assert(taken(args, props, extra) =~= Seq::<u64>::empty());
    if k == pairs.len() {
        assert(with.drop_last() =~= pairs);
        assert(with.last() == extra);
        assert(pull_takes(args, props, pairs) + Seq::<u64>::empty() =~= pull_takes(args, props, pairs));
    } else {
        assert(with.drop_last() =~= pairs.drop_last().insert(k, extra));
        assert(with.last() == pairs.last());
        lemma_inert_takes(args, props, pairs.drop_last(), k, extra);
    }
}

/// Inserting an inert pair anywhere in the list (a pair naming no argument,
/// or a string naming no nick of an enumeration argument) never decides a
/// dispatch: the status and every reference count are as without it, every
/// other pair receives the same value, and the inserted pair is left as it
/// was.
pub proof fn law_inert_pair_keeps_outcome(
    rt: RuntimeV,
    op: Seq<char>,
    s: Seq<char>,
    pairs: Seq<PairV>,
    k: int,
    extra: PairV,
)
    requires
        0 <= k <= pairs.len(),
        match first_index(class_names(rt.classes), op) {
            Some(c) => inert(rt.classes[c].args, extra),
            None => true,
        },
    ensures
        invoke(rt, op, s, pairs.insert(k, extra)).status == invoke(rt, op, s, pairs).status,
        invoke(rt, op, s, pairs.insert(k, extra)).rt.objects == invoke(rt, op, s, pairs).rt.objects,
        invoke(rt, op, s, pairs.insert(k, extra)).pairs == invoke(rt, op, s, pairs).pairs.insert(k, extra),
{
    match first_index(class_names(rt.classes), op) {
        None => {},
        Some(c) => {
            let args = rt.classes[c].args;
            match configured(args, s) {
                None => {},
                Some(start) => {
                    law_inert_pair_keeps_properties(args, start, rt, pairs, k, extra);
                    let (pushed, rt1) = push_all(args, start, rt, pairs);
                    let built = fill_outputs(args, pushed, rt1.objects, args.len()).0;
                    lemma_inert_takes(args, built, pairs, k, extra);
                    assert(pulled(args, built, extra) == extra);
                    assert(pairs.insert(k, extra).map_values(|p: PairV| pulled(args, built, p))
                        =~= pairs.map_values(|p: PairV| pulled(args, built, p)).insert(k, extra));
                },
            }
        },
    }
}

/// A pair naming no argument of the operation, inserted anywhere, does not
/// change whether a dispatch succeeds.
pub proof fn law_unknown_property_keeps_status(
    rt: RuntimeV,
    op: Seq<char>,
    s: Seq<char>,
    pairs: Seq<PairV>,
    k: int,
    extra: PairV,
)
    requires
        0 <= k <= pairs.len(),
        match first_index(class_names(rt.classes), op) {
            Some(c) => first_index(arg_names(rt.classes[c].args), extra.name).is_none(),
            None => true,
        },
    ensures
        invoke(rt, op, s, pairs.insert(k, extra)).status == invoke(rt, op, s, pairs).status,
{
    law_inert_pair_keeps_outcome(rt, op, s, pairs, k, extra);
}

/// A dispatch succeeds exactly when the operation is known, its option
/// string is well formed, and once the pairs are pushed every required input
/// is set.
pub proof fn law_status_iff_required(rt: RuntimeV, op: Seq<char>, s: Seq<char>, pairs: Seq<PairV>)
    ensures
        (invoke(rt, op, s, pairs).status == 0) <==> match first_index(class_names(rt.classes), op) {
            Some(c) => match configured(rt.classes[c].args, s) {
                Some(start) => missing_required(
                    rt.classes[c].args,
                    push_all(rt.classes[c].args, start, rt, pairs).0,
                ).is_none(),
                None => false,
            },
            None => false,
        },
{
}

/// Dispatching an unknown operation fails, allocates nothing and leaves
/// every pair and reference count as it was.
pub proof fn law_unknown_operation(rt: RuntimeV, op: Seq<char>, s: Seq<char>, pairs: Seq<PairV>)
    requires
        first_index(class_names(rt.classes), op).is_none(),
    ensures
        invoke(rt, op, s, pairs).status != 0,
        invoke(rt, op, s, pairs).rt.objects == rt.objects,
        invoke(rt, op, s, pairs).rt.classes == rt.classes,
        invoke(rt, op, s, pairs).pairs == pairs,
{
}

/// The handles of every image array in `pairs` that is stored, in list order.
pub open spec fn stored_array_handles(args: Seq<ArgV>, pairs: Seq<PairV>) -> Seq<u64>
    decreases pairs.len(),
{
    if pairs.len() == 0 {
        Seq::empty()
    } else {
        stored_array_handles(args, pairs.drop_last()) + if assigns(args, pairs.last()) {
            array_handles(pairs.last().slot)
        } else {
            Seq::empty()
        }
    }
}

proof fn lemma_push_all_objects(args: Seq<ArgV>, props: Seq<Option<Prop>>, rt: RuntimeV, pairs: Seq<PairV>)
    ensures
        push_all(args, props, rt, pairs).1.objects == add_refs(rt.objects, stored_array_handles(args, pairs)),
    decreases pairs.len(),
{
    if pairs.len() == 0 {
        assert(add_refs(rt.objects, Seq::empty()) =~= rt.objects);
    } else {
        lemma_push_all_objects(args, props, rt, pairs.drop_last());
        let prev = stored_array_handles(args, pairs.drop_last());
        if assigns(args, pairs.last()) {
            lemma_add_refs_compose(rt.objects, prev, array_handles(pairs.last().slot));
        } else {
            assert(prev + Seq::empty() =~= prev);
        }
    }
}

proof fn lemma_fill_outputs_keeps(args: Seq<ArgV>, props: Seq<Option<Prop>>, objs: Seq<Resource>, n: nat)
    requires
        n <= args.len(),
    ensures
        fill_outputs(args, props, objs, n).1.len() >= objs.len(),
        forall|j: int| 0 <= j < objs.len() ==> fill_outputs(args, props, objs, n).1[j] == objs[j],
        forall|j: int|
            objs.len() <= j < fill_outputs(args, props, objs, n).1.len() ==> fill_outputs(
                args,
                props,
                objs,
                n,
            ).1[j].refs == 1,
    decreases n,
{
    if n > 0 {
        lemma_fill_outputs_keeps(args, props, objs, (n - 1) as nat);
    }
}

/// Whether a dispatch gets as far as pushing inputs: the operation is known
/// and its option string is well formed.
pub open spec fn reaches_inputs(rt: RuntimeV, op: Seq<char>, s: Seq<char>) -> bool {
    match first_index(class_names(rt.classes), op) {
        Some(c) => configured(rt.classes[c].args, s).is_some(),
        None => false,
    }
}

/// The handles of the image arrays a dispatch stores.
pub open spec fn dispatch_stored(rt: RuntimeV, op: Seq<char>, s: Seq<char>, pairs: Seq<PairV>) -> Seq<u64> {
    match first_index(class_names(rt.classes), op) {
        Some(c) => if configured(rt.classes[c].args, s).is_some() {
            stored_array_handles(rt.classes[c].args, pairs)
        } else {
            Seq::empty()
        },
        None => Seq::empty(),
    }
}

/// The handles the output destinations of a dispatch collect; none unless it
/// succeeds.
pub open spec fn dispatch_takes(rt: RuntimeV, op: Seq<char>, s: Seq<char>, pairs: Seq<PairV>) -> Seq<u64> {
    match first_index(class_names(rt.classes), op) {
        Some(c) => {
            let args = rt.classes[c].args;
            match configured(args, s) {
                Some(start) => {
                    let (pushed, rt1) = push_all(args, start, rt, pairs);
                    if missing_required(args, pushed).is_none() {
                        pull_takes(args, fill_outputs(args, pushed, rt1.objects, args.len()).0, pairs)
                    } else {
                        Seq::empty()
                    }
                },
                None => Seq::empty(),
            }
        },
        None => Seq::empty(),
    }
}

/// After a dispatch, a resource that existed before holds one more reference
/// per element of a stored image array that names it, and one more per
/// output destination that collects it; nothing else changes its count. In
/// particular a singly assigned input handle ends with its count unchanged.
pub proof fn law_reference_counts(rt: RuntimeV, op: Seq<char>, s: Seq<char>, pairs: Seq<PairV>, h: u64)
    requires
        1 <= h <= rt.objects.len(),
        rt.refs(h) + occurrences(dispatch_stored(rt, op, s, pairs), h) + occurrences(
            dispatch_takes(rt, op, s, pairs),
            h,
        ) <= u64::MAX,
    ensures
        invoke(rt, op, s, pairs).rt.refs(h) == rt.refs(h) + occurrences(dispatch_stored(rt, op, s, pairs), h)
            + occurrences(dispatch_takes(rt, op, s, pairs), h),
{
    assert(occurrences(Seq::<u64>::empty(), h) == 0);
    match first_index(class_names(rt.classes), op) {
        None => {},
        Some(c) => {
            lemma_first_index_found(class_names(rt.classes), op);
            let args = rt.classes[c].args;
            match configured(args, s) {
                None => {},
                Some(start) => {
                    lemma_push_all_objects(args, start, rt, pairs);
                    let (pushed, rt1) = push_all(args, start, rt, pairs);
                    let occ = occurrences(stored_array_handles(args, pairs), h);
                    assert(rt1.objects.len() == rt.objects.len());
                    assert(rt1.objects[h - 1].refs == bump(rt.objects[h - 1].refs, occ));
                    if missing_required(args, pushed).is_none() {
                        lemma_fill_outputs_keeps(args, pushed, rt1.objects, args.len());
                        let (built, objs2) = fill_outputs(args, pushed, rt1.objects, args.len());
                        assert(objs2[h - 1] == rt1.objects[h - 1]);
                        let t = occurrences(pull_takes(args, built, pairs), h);
                        assert(add_refs(objs2, pull_takes(args, built, pairs))[h - 1].refs == bump(
                            objs2[h - 1].refs,
                            t,
                        ));
                    }
                },
            }
        },
    }
}

/// Every resource a dispatch allocates ends up held once by each output
/// destination that collects it, and by nothing else: the node's own
/// reference is dropped when it is released, so an output nobody collects
/// ends with no reference.
pub proof fn law_new_resources_owned(rt: RuntimeV, op: Seq<char>, s: Seq<char>, pairs: Seq<PairV>, h: u64)
    requires
        rt.objects.len() < h <= invoke(rt, op, s, pairs).rt.objects.len(),
        1 + occurrences(dispatch_takes(rt, op, s, pairs), h) <= u64::MAX,
    ensures
        invoke(rt, op, s, pairs).rt.refs(h) == occurrences(dispatch_takes(rt, op, s, pairs), h),
{
    match first_index(class_names(rt.classes), op) {
        None => {},
        Some(c) => {
            lemma_first_index_found(class_names(rt.classes), op);
            let args = rt.classes[c].args;
            match configured(args, s) {
                None => {},
                Some(start) => {
                    lemma_push_all_objects(args, start, rt, pairs);
                    let (pushed, rt1) = push_all(args, start, rt, pairs);
                    if missing_required(args, pushed).is_none() {
                        lemma_fill_outputs_keeps(args, pushed, rt1.objects, args.len());
                        let (built, objs2) = fill_outputs(args, pushed, rt1.objects, args.len());
                        let t = occurrences(pull_takes(args, built, pairs), h);
                        assert(objs2[h - 1].refs == 1);
                        assert(add_refs(objs2, pull_takes(args, built, pairs))[h - 1].refs == bump(1, t));
                    }
                },
            }
        },
    }
}

/// What destination `d` holds after a dispatch that pushes `x` and pulls the
/// same name into `d`, where `d` is a destination of `x`'s kind: the scalar
/// itself, or, for a double array, the destination followed by the array.
pub open spec fn round_trip(x: Slot, d: Slot) -> Option<Slot> {
    match (x, d) {
        (Slot::DoubleArray(a), Slot::MutDoubleArray(e)) => Some(Slot::MutDoubleArray(e + a)),
        _ => read_back(x, d),
    }
}

/// The argument kind that `x` round-trips through.
pub open spec fn round_trip_arg(x: Slot) -> Option<ArgKind> {
    match x {
        Slot::DoubleArray(_) => Some(ArgKind::DoubleArray),
        _ => round_trip_kind(x),
    }
}

proof fn lemma_assignments_len(args: Seq<ArgV>, props: Seq<Option<Prop>>, s: Seq<char>)
    requires
        props.len() == args.len(),
    ensures
        match assignments_update(args, props, s) {
            Some(p) => p.len() == props.len(),
            None => true,
        },
    decreases s.len(),
{
    lemma_first_index_found(s, ',');
    match first_index(s, ',') {
        None => lemma_segment_len(args, props, s),
        Some(k) => {
            lemma_segment_len(args, props, s.subrange(0, k));
            match segment_update(args, props, s.subrange(0, k)) {
                None => {},
                Some(p) => lemma_assignments_len(args, p, s.subrange(k + 1, s.len() as int)),
            }
        },
    }
}

proof fn lemma_segment_len(args: Seq<ArgV>, props: Seq<Option<Prop>>, seg: Seq<char>)
    requires
        props.len() == args.len(),
    ensures
        match segment_update(args, props, seg) {
            Some(p) => p.len() == props.len(),
            None => true,
        },
{
    if seg.len() > 0 {
        let name = match first_index(seg, '=') {
            None => seg,
            Some(k) => seg.subrange(0, k),
        };
        lemma_first_index_found(arg_names(args), name);
    }
}

proof fn lemma_fill_outputs_props(args: Seq<ArgV>, props: Seq<Option<Prop>>, objs: Seq<Resource>, n: nat, i: int)
    requires
        n <= args.len(),
        props.len() == args.len(),
        0 <= i < args.len(),
        !(args[i].kind is Object),
    ensures
        fill_outputs(args, props, objs, n).0.len() == props.len(),
        fill_outputs(args, props, objs, n).0[i] == props[i],
    decreases n,
{
    if n > 0 {
        lemma_fill_outputs_props(args, props, objs, (n - 1) as nat, i);
    }
}

/// A dispatch that pushes `x` under `name` and then pulls `name` into a
/// destination `d` of the same kind, and succeeds, hands `x` back in `d`
/// (a double array appended to what `d` held).
pub proof fn law_dispatch_round_trip(
    rt: RuntimeV,
    op: Seq<char>,
    s: Seq<char>,
    name: Seq<char>,
    x: Slot,
    d: Slot,
)
    requires
        round_trip(x, d).is_some(),
        match first_index(class_names(rt.classes), op) {
            Some(c) => match first_index(arg_names(rt.classes[c].args), name) {
                Some(i) => Some(rt.classes[c].args[i].kind) == round_trip_arg(x),
                None => false,
            },
            None => false,
        },
        forall|t: Seq<char>| x == Slot::Str(t) ==> nul_free(t),
    ensures
        ({
            let o = invoke(rt, op, s, seq![entry(name, x), entry(name, d)]);
            o.status == 0 ==> o.pairs[1] == entry(name, round_trip(x, d).unwrap())
        }),
{
    let pairs = seq![entry(name, x), entry(name, d)];
    lemma_first_index_found(class_names(rt.classes), op);
    let c = first_index(class_names(rt.classes), op).unwrap();
    let args = rt.classes[c].args;
    lemma_first_index_found(arg_names(args), name);
    let i = first_index(arg_names(args), name).unwrap();
    if let Slot::Str(t) = x {
        lemma_c_string_nul_free(t);
    }
    match configured(args, s) {
        None => {},
        Some(start) => {
            if s.len() > 0 {
                lemma_assignments_len(args, unset_props(args.len()), unbracketed(s));
            }
            assert(start.len() == args.len());
            assert(pairs.drop_last() =~= seq![entry(name, x)]);
            assert(seq![entry(name, x)].drop_last() =~= Seq::<PairV>::empty());
            let one = seq![entry(name, x)];
            assert(push_all(args, start, rt, Seq::<PairV>::empty()) == (start, rt));
            assert(push_all(args, start, rt, one) == push_one(args, start, rt, entry(name, x)));
            assert(push_target(args, name, x) == Assign::To(i, prop_of(x)));
            let (pa, ra) = push_one(args, start, rt, entry(name, x));
            assert(pa == start.update(i, Some(prop_of(x))));
            assert(push_all(args, start, rt, pairs) == push_one(args, pa, ra, entry(name, d)));
            let (pushed, rt1) = push_all(args, start, rt, pairs);
            assert(pushed == pa);
            assert(pushed[i] == Some(prop_of(x)));
            if missing_required(args, pushed).is_none() {
                lemma_fill_outputs_props(args, pushed, rt1.objects, args.len(), i);
            }
        },
    }
}

/// A dispatch that fails hands back no outputs: every pair is as it was.
pub proof fn law_failure_leaves_pairs(rt: RuntimeV, op: Seq<char>, s: Seq<char>, pairs: Seq<PairV>)
    ensures
        invoke(rt, op, s, pairs).status != 0 ==> invoke(rt, op, s, pairs).pairs == pairs,
{
}

/// A dispatch keeps the list's length, order and names, and never changes
/// an input; only output destinations receive values.
pub proof fn law_inputs_unchanged(rt: RuntimeV, op: Seq<char>, s: Seq<char>, pairs: Seq<PairV>)
    ensures
        invoke(rt, op, s, pairs).pairs.len() == pairs.len(),
        forall|j: int|
            0 <= j < pairs.len() ==> (#[trigger] invoke(rt, op, s, pairs).pairs[j]).name == pairs[j].name
                && (pairs[j].slot.is_input() ==> invoke(rt, op, s, pairs).pairs[j] == pairs[j]),
{
}

/// Whether pair `p` assigns argument `i`.
pub open spec fn supplies(args: Seq<ArgV>, p: PairV, i: int) -> bool {
    p.slot.is_input() && match push_target(args, p.name, p.slot) {
        Assign::To(j, _) => j == i,
        Assign::Skip(_) => false,
    }
}

proof fn lemma_push_all_sets(args: Seq<ArgV>, props: Seq<Option<Prop>>, rt: RuntimeV, pairs: Seq<PairV>)
    requires
        props.len() == args.len(),
    ensures
        push_all(args, props, rt, pairs).0.len() == props.len(),
        forall|i: int|
            0 <= i < props.len() && (props[i].is_some() || exists|j: int|
                0 <= j < pairs.len() && supplies(args, pairs[j], i)) ==> (#[trigger] push_all(
                args,
                props,
                rt,
                pairs,
            ).0[i]).is_some(),
    decreases pairs.len(),
{
    if pairs.len() > 0 {
        let prev = pairs.drop_last();
        lemma_push_all_sets(args, props, rt, prev);
        let (p, r) = push_all(args, props, rt, prev);
        let last = pairs.last();
        if last.slot.is_input() {
            lemma_first_index_found(arg_names(args), last.name);
        }
        assert forall|i: int|
            0 <= i < props.len() && (props[i].is_some() || exists|j: int|
                0 <= j < pairs.len() && supplies(args, pairs[j], i)) implies (#[trigger] push_all(
            args,
            props,
            rt,
            pairs,
        ).0[i]).is_some() by {
            if !props[i].is_some() {
                let j = choose|j: int| 0 <= j < pairs.len() && supplies(args, pairs[j], i);
                if j < pairs.len() - 1 {
                    assert(prev[j] == pairs[j]);
                }
            }
        }
    }
}

/// A dispatch of a known operation with a well-formed option string, in
/// which every required input is assigned by some input pair, succeeds.
pub proof fn law_supplied_inputs_succeed(rt: RuntimeV, op: Seq<char>, s: Seq<char>, pairs: Seq<PairV>)
    requires
        match first_index(class_names(rt.classes), op) {
            Some(c) => {
                let args = rt.classes[c].args;
                &&& configured(args, s).is_some()
                &&& forall|i: int|
                    0 <= i < args.len() && args[i].input && args[i].required ==> exists|j: int|
                        0 <= j < pairs.len() && #[trigger] supplies(args, pairs[j], i)
            },
            None => false,
        },
    ensures
        invoke(rt, op, s, pairs).status == 0,
{
    lemma_first_index_found(class_names(rt.classes), op);
    let c = first_index(class_names(rt.classes), op).unwrap();
    let args = rt.classes[c].args;
    let start = configured(args, s).unwrap();
    if s.len() > 0 {
        lemma_assignments_len(args, unset_props(args.len()), unbracketed(s));
    }
    lemma_push_all_sets(args, start, rt, pairs);
    let pushed = push_all(args, start, rt, pairs).0;
    let flags = Seq::new(args.len(), |i: int| crate::dispatch::unset_required(args, pushed, i));
    lemma_first_index_found(flags, true);
    if let Some(i) = first_index(flags, true) {
        assert(flags[i]);
        assert(pushed[i].is_some());
    }
}

/// A dispatch never gives a count to the null handle or to a handle beyond
/// the resource table, and never shrinks the table.
pub proof fn law_unknown_handles(rt: RuntimeV, op: Seq<char>, s: Seq<char>, pairs: Seq<PairV>, h: u64)
    requires
        h == 0 || h > invoke(rt, op, s, pairs).rt.objects.len(),
    ensures
        invoke(rt, op, s, pairs).rt.refs(h) == 0,
        invoke(rt, op, s, pairs).rt.objects.len() >= rt.objects.len(),
{
    match first_index(class_names(rt.classes), op) {
        None => {},
        Some(c) => {
            lemma_first_index_found(class_names(rt.classes), op);
            let args = rt.classes[c].args;
            match configured(args, s) {
                None => {},
                Some(start) => {
                    lemma_push_all_objects(args, start, rt, pairs);
                    let (pushed, rt1) = push_all(args, start, rt, pairs);
                    lemma_fill_outputs_keeps(args, pushed, rt1.objects, args.len());
                },
            }
        },
    }
}

} // verus!
