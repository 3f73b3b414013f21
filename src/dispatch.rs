//! The dispatcher: resolves an operation, applies the option string, pushes
//! inputs, builds, and pulls outputs back into the option list.
use crate::lookup::{arg_names, class_names, find_arg, find_class, first_index, lemma_first_index, lemma_first_index_found};
use crate::marshal::{args_view, extract, nicks_bounded, push_target, read_into, target, Assign};
use crate::options::{apply_options, options_update, props_view};
use crate::runtime::{
    add_refs, allocate, allocated, lemma_add_refs_compose, release_from, release_tail, diag, next_handle, take_refs, ArgKind, ArgSpec, ArgV, DiagV,
    Diagnostic, ErrorCode, GValue, Prop, Runtime, RuntimeV, MAX_RESOURCES,
};
use crate::value::{entry, PairV, Slot, VOption, VipsValue};
use vstd::prelude::*;

verus! {

/// `rt` with an unrecovered error recorded.
pub open spec fn failed(rt: RuntimeV, code: ErrorCode, subject: Seq<char>) -> RuntimeV {
    RuntimeV { error: Some(diag(code, subject)), ..rt }
}

/// `rt` after a recovered error: a warning is logged and the error cleared.
pub open spec fn recovered(rt: RuntimeV, code: ErrorCode, subject: Seq<char>) -> RuntimeV {
    RuntimeV { warnings: rt.warnings.push(diag(code, subject)), error: None, ..rt }
}

/// The handles an input slot takes an explicit reference on: those of an
/// image array.
pub open spec fn array_handles(s: Slot) -> Seq<u64> {
    match s {
        Slot::ImageArray(hs) => hs,
        _ => Seq::empty(),
    }
}

/// Pushing one pair: outputs are passed over; an input is assigned or
/// recovered from. An image array that is stored takes one reference per
/// element.
pub open spec fn push_one(args: Seq<ArgV>, props: Seq<Option<Prop>>, rt: RuntimeV, p: PairV) -> (
    Seq<Option<Prop>>,
    RuntimeV,
) {
    if !p.slot.is_input() {
        (props, rt)
    } else {
        match push_target(args, p.name, p.slot) {
            Assign::To(i, v) => (
                props.update(i, Some(v)),
                RuntimeV { objects: add_refs(rt.objects, array_handles(p.slot)), ..rt },
            ),
            Assign::Skip(code) => (props, recovered(rt, code, p.name)),
        }
    }
}

/// Pushing every pair in list order.
pub open spec fn push_all(args: Seq<ArgV>, props: Seq<Option<Prop>>, rt: RuntimeV, pairs: Seq<PairV>) -> (
    Seq<Option<Prop>>,
    RuntimeV,
)
    decreases pairs.len(),
{
    if pairs.len() == 0 {
        (props, rt)
    } else {
        let (p, r) = push_all(args, props, rt, pairs.drop_last());
        push_one(args, p, r, pairs.last())
    }
}

/// Whether argument `i` is a required input left unset.
pub open spec fn unset_required(args: Seq<ArgV>, props: Seq<Option<Prop>>, i: int) -> bool {
    args[i].input && args[i].required && props[i].is_none()
}

/// The first required input left unset, which fails the build.
pub open spec fn missing_required(args: Seq<ArgV>, props: Seq<Option<Prop>>) -> Option<int> {
    first_index(Seq::new(args.len(), |i: int| unset_required(args, props, i)), true)
}

/// Building fills the first `n` arguments' resource outputs, in order, each
/// with a newly allocated resource whose one reference the node holds until
/// it is released.
pub open spec fn fill_outputs(args: Seq<ArgV>, props: Seq<Option<Prop>>, objs: Seq<crate::runtime::Resource>, n: nat) -> (
    Seq<Option<Prop>>,
    Seq<crate::runtime::Resource>,
)
    decreases n,
{
    if n == 0 {
        (props, objs)
    } else {
        let (p, o) = fill_outputs(args, props, objs, (n - 1) as nat);
        let a = args[n - 1];
        match a.kind {
            ArgKind::Object(k) if !a.input => (
                p.update(n - 1, Some(Prop::Object(k, next_handle(o)))),
                allocated(o, k),
            ),
            _ => (p, o),
        }
    }
}

/// What pulling leaves in one pair: an output naming an argument receives
/// that property's value; every other pair is left as it was.
pub open spec fn pulled(args: Seq<ArgV>, props: Seq<Option<Prop>>, p: PairV) -> PairV {
    if p.slot.is_input() {
        p
    } else {
        match first_index(arg_names(args), p.name) {
            None => p,
            Some(i) => entry(p.name, extract(p.slot, props[i])),
        }
    }
}

/// The warnings pulling logs: one per output naming no argument, in order.
pub open spec fn pull_misses(args: Seq<ArgV>, pairs: Seq<PairV>) -> Seq<DiagV>
    decreases pairs.len(),
{
    if pairs.len() == 0 {
        Seq::empty()
    } else {
        let p = pairs.last();
        pull_misses(args, pairs.drop_last()) + if !p.slot.is_input() && first_index(
            arg_names(args),
            p.name,
        ).is_none() {
            seq![diag(ErrorCode::PropertyNotFound, p.name)]
        } else {
            Seq::empty()
        }
    }
}

/// The resource handle an output pair collects from the properties, if it
/// collects one: each collecting destination takes a reference of its own.
pub open spec fn taken(args: Seq<ArgV>, props: Seq<Option<Prop>>, p: PairV) -> Seq<u64> {
    if p.slot.is_input() {
        Seq::empty()
    } else {
        match first_index(arg_names(args), p.name) {
            None => Seq::empty(),
            Some(i) => match extract(p.slot, props[i]) {
                Slot::MutImage(h) => if h != 0 {
                    seq![h]
                } else {
                    Seq::empty()
                },
                Slot::MutBlob(h) => if h != 0 {
                    seq![h]
                } else {
                    Seq::empty()
                },
                _ => Seq::empty(),
            },
        }
    }
}

/// The handles the output pairs collect, in list order.
pub open spec fn pull_takes(args: Seq<ArgV>, props: Seq<Option<Prop>>, pairs: Seq<PairV>) -> Seq<u64>
    decreases pairs.len(),
{
    if pairs.len() == 0 {
        Seq::empty()
    } else {
        pull_takes(args, props, pairs.drop_last()) + taken(args, props, pairs.last())
    }
}

/// The object model after pulling: a reference per collected handle, and a
/// warning per output naming no argument.
pub open spec fn pull_rt(args: Seq<ArgV>, props: Seq<Option<Prop>>, rt: RuntimeV, pairs: Seq<PairV>) -> RuntimeV {
    let misses = pull_misses(args, pairs);
    RuntimeV {
        objects: add_refs(rt.objects, pull_takes(args, props, pairs)),
        warnings: rt.warnings + misses,
        error: if misses.len() > 0 {
            None
        } else {
            rt.error
        },
        ..rt
    }
}

/// The result of a dispatch: status (`0` success), the object model after
/// it, and the option list after it.
pub struct Outcome {
    pub status: i32,
    pub rt: RuntimeV,
    pub pairs: Seq<PairV>,
}

pub open spec fn unset_props(n: nat) -> Seq<Option<Prop>> {
    Seq::new(n, |i: int| None)
}

/// The properties a fresh node of an operation with arguments `args` has once
/// option string `s` is applied (nothing to apply when `s` is empty).
pub open spec fn configured(args: Seq<ArgV>, s: Seq<char>) -> Option<Seq<Option<Prop>>> {
    if s.len() == 0 {
        Some(unset_props(args.len()))
    } else {
        options_update(args, unset_props(args.len()), s)
    }
}

/// One dispatch of operation `op` with option string `s` and pairs `pairs`.
pub open spec fn invoke(rt: RuntimeV, op: Seq<char>, s: Seq<char>, pairs: Seq<PairV>) -> Outcome {
    match first_index(class_names(rt.classes), op) {
        None => Outcome { status: 1, rt: failed(rt, ErrorCode::OperationNotFound, op), pairs },
        Some(c) => {
            let args = rt.classes[c].args;
            match configured(args, s) {
                None => Outcome {
                    status: 1,
                    rt: failed(rt, ErrorCode::MalformedOptionString, s),
                    pairs,
                },
                Some(start) => {
                    let (pushed, rt1) = push_all(args, start, rt, pairs);
                    match missing_required(args, pushed) {
                        Some(i) => Outcome {
                            status: 1,
                            rt: failed(rt1, ErrorCode::BuildFailed, args[i].name),
                            pairs,
                        },
                        None => {
                            let (built, objs2) = fill_outputs(args, pushed, rt1.objects, args.len());
                            let rt2 = RuntimeV { objects: objs2, ..rt1 };
                            let rt3 = pull_rt(args, built, rt2, pairs);
                            Outcome {
                                status: 0,
                                rt: RuntimeV {
                                    objects: release_from(rt3.objects, rt1.objects.len() as int),
                                    ..rt3
                                },
                                pairs: pairs.map_values(|p: PairV| pulled(args, built, p)),
                            }
                        },
                    }
                },
            }
        },
    }
}

proof fn lemma_push_target_index(args: Seq<ArgV>, name: Seq<char>, slot: Slot)
    ensures
        match push_target(args, name, slot) {
            Assign::To(i, _) => 0 <= i < args.len(),
            Assign::Skip(_) => true,
        },
{
    lemma_first_index_found(arg_names(args), name);
}

fn unset_vec(n: usize) -> (r: Vec<Option<GValue>>)
    ensures
        r@.len() == n,
        props_view(r@) == unset_props(n as nat),
{
    let mut r: Vec<Option<GValue>> = Vec::new();
    let mut i: usize = 0;
    while i < n
        invariant
            i <= n,
            r@.len() == i,
            forall|j: int| 0 <= j < i ==> r@[j].is_none(),
        decreases n - i,
    {
        r.push(None);
        i = i + 1;
    }
    proof {
        assert(props_view(r@) =~= unset_props(n as nat));
    }
    r
}

fn first_missing(args: &Vec<ArgSpec>, props: &Vec<Option<GValue>>) -> (r: Option<usize>)
    requires
        props@.len() == args@.len(),
    ensures
        match r {
            Some(i) => i < args@.len() && missing_required(args_view(args@), props_view(props@))
                == Some(i as int),
            None => missing_required(args_view(args@), props_view(props@)).is_none(),
        },
{
    let ghost av = args_view(args@);
    let ghost pv = props_view(props@);
    let ghost flags = Seq::new(av.len(), |i: int| unset_required(av, pv, i));
    let mut i: usize = 0;
    while i < args.len()
        invariant
            i <= args@.len(),
            props@.len() == args@.len(),
            av == args_view(args@),
            pv == props_view(props@),
            flags == Seq::new(av.len(), |i: int| unset_required(av, pv, i)),
            forall|j: int| 0 <= j < i ==> flags[j] != true,
        decreases args@.len() - i,
    {
        assert(av[i as int] == args@[i as int]@);
        if args[i].input && args[i].required && props[i].is_none() {
            proof {
                lemma_first_index(flags, true, i as int);
            }
            return Some(i);
        }
        i = i + 1;
    }
    proof {
        lemma_first_index(flags, true, i as int);
    }
    None
}

fn fill(args: &Vec<ArgSpec>, props: &mut Vec<Option<GValue>>, objects: &mut Vec<crate::runtime::Resource>)
    requires
        old(props)@.len() == args@.len(),
        old(objects)@.len() <= MAX_RESOURCES,
    ensures
        final(props)@.len() == args@.len(),
        final(objects)@.len() <= MAX_RESOURCES,
        (props_view(final(props)@), final(objects)@) == fill_outputs(
            args_view(args@),
            props_view(old(props)@),
            old(objects)@,
            args@.len() as nat,
        ),
{
    let ghost av = args_view(args@);
    let ghost start = props_view(props@);
    let ghost o0 = objects@;
    let mut i: usize = 0;
    while i < args.len()
        invariant
            i <= args@.len(),
            props@.len() == args@.len(),
            objects@.len() <= MAX_RESOURCES,
            av == args_view(args@),
            (props_view(props@), objects@) == fill_outputs(av, start, o0, i as nat),
        decreases args@.len() - i,
    {
        assert(av[i as int] == args@[i as int]@);
        let a = &args[i];
        match a.kind {
            ArgKind::Object(k) => {
                if !a.input {
                    let h = allocate(objects, k);
                    props.set(i, Some(GValue::Object(k, h)));
                    proof {
                        let (p, o) = fill_outputs(av, start, o0, i as nat);
                        assert(props_view(props@) =~= p.update(i as int, Some(Prop::Object(k, h))));
                    }
                }
            },
            _ => {},
        }
        i = i + 1;
    }
}

/// Runs operation `operation` with the pairs of `option` and no option
/// string; see [`call_option_string`].
pub fn call(rt: &mut Runtime, operation: &str, option: &mut VOption) -> (status: i32)
    requires
        old(rt)@.wf(),
    ensures
        final(rt)@.wf(),
        ({
            let o = invoke(old(rt)@, operation@, Seq::empty(), old(option)@);
            &&& status == o.status
            &&& final(rt)@ == o.rt
            &&& final(option)@ == o.pairs
        }),
{
    proof {
        reveal_strlit("");
    }
    call_option_string(rt, operation, "", option)
}

/// Runs operation `operation` with option string `option_string` and the
/// pairs of `option`, writing outputs back into `option`.
///
/// Returns `0` on success and `1` when the operation is unknown, the option
/// string is malformed, or a required input is unset. A pair naming no
/// argument, a string naming no value of an enumeration argument, or a value
/// of the wrong kind is recovered from: a warning is logged and the pair has
/// no effect.
pub fn call_option_string(rt: &mut Runtime, operation: &str, option_string: &str, option: &mut VOption) -> (status: i32)
    requires
        old(rt)@.wf(),
    ensures
        final(rt)@.wf(),
        ({
            let o = invoke(old(rt)@, operation@, option_string@, old(option)@);
            &&& status == o.status
            &&& final(rt)@ == o.rt
            &&& final(option)@ == o.pairs
        }),
{
    let ghost rt0 = rt@;
    let ghost pairs0 = option@;
    // Resolve the operation; nothing is allocated when it is unknown.
    let c = match find_class(&rt.classes, operation) {
        None => {
            rt.error = Some(Diagnostic { code: ErrorCode::OperationNotFound, subject: operation.to_owned() });
            proof {
                assert(rt@.classes =~= rt0.classes);
                assert(rt@.warnings =~= rt0.warnings);
            }
            return 1;
        },
        Some(c) => c,
    };
    proof {
        lemma_first_index_found(class_names(rt0.classes), operation@);
    }
    let ghost av = rt0.classes[c as int].args;
    assert(av == args_view(rt.classes@[c as int].args@));
    assert(nicks_bounded(av));
    let args = &rt.classes[c].args;
    assert(rt@.objects.len() <= MAX_RESOURCES);
    // A fresh node: every property unset, then the option string applied.
    let mut props = unset_vec(args.len());
    if option_string.unicode_len() > 0 {
        if !apply_options(args, &mut props, option_string) {
            rt.error = Some(Diagnostic { code: ErrorCode::MalformedOptionString, subject: option_string.to_owned() });
            proof {
                assert(rt@.classes =~= rt0.classes);
                assert(rt@.warnings =~= rt0.warnings);
            }
            return 1;
        }
    }
    let ghost start = props_view(props@);
    assert(configured(av, option_string@) == Some(start));
    // Push every input in list order.
    let n = option.options.len();
    let mut i: usize = 0;
    while i < n
        invariant
            n == option@.len(),
            i <= n,
            option@ == pairs0,
            props@.len() == av.len(),
            av == args_view(args@),
            nicks_bounded(av),
            c < rt.classes@.len(),
            args == &rt.classes@[c as int].args,
            rt.classes == old(rt).classes,
            rt@.wf(),
            (props_view(props@), rt@) == push_all(av, start, rt0, pairs0.subrange(0, i as int)),
        decreases n - i,
    {
        let ghost before = pairs0.subrange(0, i as int);
        let ghost prev_rt = rt@;
        let ghost prev_props = props_view(props@);
        proof {
            assert(pairs0.subrange(0, i + 1).drop_last() =~= before);
            assert(pairs0.subrange(0, i + 1).last() == pairs0[i as int]);
        }
        let pair = &option.options[i];
        assert(pair@ == pairs0[i as int]);
        if pair.is_input() {
            proof {
                lemma_push_target_index(av, pair@.name, pair@.slot);
            }
            match target(args, &pair.name, &pair.value) {
                Ok((k, g)) => {
                    props.set(k, Some(g));
                    // A stored image array keeps a reference on each element.
                    match &pair.value {
                        VipsValue::ImageArray(hs) => take_refs(&mut rt.objects, hs),
                        _ => {},
                    }
                    proof {
                        assert(props_view(props@) =~= prev_props.update(k as int, Some(g@)));
                        assert(rt@.objects =~= add_refs(prev_rt.objects, array_handles(pair@.slot)));
                        assert(rt@ == (RuntimeV { objects: add_refs(prev_rt.objects, array_handles(pair@.slot)), ..prev_rt }));
                    }
                },
                Err(code) => {
                    rt.warnings.push(Diagnostic { code, subject: pair.name.clone() });
                    rt.error = None;
                    proof {
                        assert(rt@.warnings =~= prev_rt.warnings.push(diag(code, pair@.name)));
                        assert(rt@ == recovered(prev_rt, code, pair@.name));
                    }
                },
            }
        }
        i = i + 1;
    }
    assert(pairs0.subrange(0, n as int) =~= pairs0);
    let ghost pushed = props_view(props@);
    let ghost rt1 = rt@;
    // Build: every required input must be set; resource outputs are allocated.
    match first_missing(args, &props) {
        Some(k) => {
            rt.error = Some(Diagnostic { code: ErrorCode::BuildFailed, subject: args[k].name.clone() });
            proof {
                assert(av[k as int] == args@[k as int]@);
                assert(rt@.classes =~= rt1.classes);
                assert(rt@.warnings =~= rt1.warnings);
                assert(rt@ == failed(rt1, ErrorCode::BuildFailed, av[k as int].name));
            }
            return 1;
        },
        None => {},
    }
    let held_from = rt.objects.len();
    fill(args, &mut props, &mut rt.objects);
    let ghost built = props_view(props@);
    let ghost rt2 = rt@;
    assert(rt2 == (RuntimeV { objects: fill_outputs(av, pushed, rt1.objects, av.len()).1, ..rt1 }));
    proof {
        assert(pairs0.subrange(0, 0) =~= Seq::<PairV>::empty());
        assert(rt2.warnings + Seq::<DiagV>::empty() =~= rt2.warnings);
        assert(add_refs(rt2.objects, Seq::empty()) =~= rt2.objects);
    }
    // Pull every output in list order.
    let mut i: usize = 0;
    while i < n
        invariant
            n == option@.len(),
            i <= n,
            av == args_view(args@),
            props@.len() == av.len(),
            built == props_view(props@),
            pairs0.len() == n,
            c < rt.classes@.len(),
            args == &rt.classes@[c as int].args,
            rt.classes == old(rt).classes,
            rt@.wf(),
            forall|j: int| 0 <= j < i ==> option@[j] == pulled(av, built, pairs0[j]),
            forall|j: int| i <= j < n ==> option@[j] == pairs0[j],
            rt@ == pull_rt(av, built, rt2, pairs0.subrange(0, i as int)),
        decreases n - i,
    {
        let ghost prev_rt = rt@;
        let ghost prev_opt = option@;
        let ghost pr = pairs0[i as int];
        proof {
            assert(pairs0.subrange(0, i + 1).drop_last() =~= pairs0.subrange(0, i as int));
            assert(pairs0.subrange(0, i + 1).last() == pr);
        }
        assert(option@[i as int] == pr);
        if !option.options[i].is_input() {
            match find_arg(args, &option.options[i].name) {
                None => {
                    rt.warnings.push(Diagnostic { code: ErrorCode::PropertyNotFound, subject: option.options[i].name.clone() });
                    rt.error = None;
                    proof {
                        assert(rt@.warnings =~= prev_rt.warnings.push(diag(ErrorCode::PropertyNotFound, pr.name)));
                        assert(rt@.warnings =~= rt2.warnings + pull_misses(av, pairs0.subrange(0, i + 1)));
                        assert(pull_takes(av, built, pairs0.subrange(0, i + 1)) =~= pull_takes(av, built, pairs0.subrange(0, i as int)));
                        assert(rt@ == pull_rt(av, built, rt2, pairs0.subrange(0, i + 1)));
                        assert(option@[i as int] == pulled(av, built, pr));
                    }
                },
                Some(k) => {
                    proof {
                        lemma_first_index_found(arg_names(av), pr.name);
                    }
                    read_into(&mut option.options[i].value, &props[k]);
                    // A destination that collects a resource owns a reference to it.
                    let h = match &option.options[i].value {
                        VipsValue::MutImage(h) => *h,
                        VipsValue::MutBlob(h) => *h,
                        _ => 0,
                    };
                    let hs: Vec<u64> = if h != 0 {
                        vec![h]
                    } else {
                        Vec::new()
                    };
                    assert(hs@ =~= taken(av, built, pr));
                    take_refs(&mut rt.objects, &hs);
                    proof {
                        let before = pull_takes(av, built, pairs0.subrange(0, i as int));
                        lemma_add_refs_compose(rt2.objects, before, hs@);
                        assert(pull_takes(av, built, pairs0.subrange(0, i + 1)) == before + hs@);
                        assert(option@[i as int] == pulled(av, built, pr));
                        assert(pull_misses(av, pairs0.subrange(0, i + 1)) =~= pull_misses(av, pairs0.subrange(0, i as int)));
                        assert(rt@.warnings =~= prev_rt.warnings);
                        assert(rt@ == pull_rt(av, built, rt2, pairs0.subrange(0, i + 1)));
                    }
                },
            }
        } else {
            proof {
                assert(pull_misses(av, pairs0.subrange(0, i + 1)) =~= pull_misses(av, pairs0.subrange(0, i as int)));
                assert(pull_takes(av, built, pairs0.subrange(0, i + 1)) =~= pull_takes(av, built, pairs0.subrange(0, i as int)));
                assert(option@[i as int] == pulled(av, built, pr));
            }
        }
        assert(forall|j: int| 0 <= j < i ==> option@[j] == prev_opt[j]);
        assert(option@[i as int] == pulled(av, built, pairs0[i as int]));
        i = i + 1;
        assert forall|j: int| 0 <= j < i implies option@[j] == pulled(av, built, pairs0[j]) by {
            if j < i - 1 {
                assert(option@[j] == prev_opt[j]);
            }
        }
    }
    proof {
        assert(pairs0.subrange(0, n as int) =~= pairs0);
        assert(option@ =~= pairs0.map_values(|p: PairV| pulled(av, built, p)));
    }
    // Release the node: it drops its reference on every resource it allocated.
    release_tail(&mut rt.objects, held_from);
    proof {
        assert(rt@.classes =~= old(rt)@.classes);
        assert(rt@.warnings =~= pull_rt(av, built, rt2, pairs0).warnings);
    }
    0
}

} // verus!
