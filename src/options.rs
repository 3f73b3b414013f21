//! The compact option string: `name=value` assignments separated by commas,
//! optionally wrapped in square brackets. A bare `name` sets a boolean
//! argument. Only boolean, integer, string and enumeration arguments can be
//! assigned this way.
use crate::lookup::{arg_names, find_arg, find_string, first_index, lemma_first_index, lemma_first_index_found};
use crate::marshal::{args_view, nicks_bounded, opt_prop};
use crate::runtime::{ArgKind, ArgSpec, ArgV, GValue, Prop};
use vstd::prelude::*;
use vstd::string::*;

verus! {

pub open spec fn is_digit(c: char) -> bool {
    '0' <= c <= '9'
}

pub open spec fn all_digits(s: Seq<char>) -> bool {
    forall|i: int| 0 <= i < s.len() ==> is_digit(#[trigger] s[i])
}

/// The number that a string of decimal digits spells.
pub open spec fn digits_value(s: Seq<char>) -> int
    decreases s.len(),
{
    if s.len() == 0 {
        0
    } else {
        10 * digits_value(s.drop_last()) + (s.last() as int - '0' as int)
    }
}

/// A decimal `i32`, with an optional leading minus sign.
pub open spec fn parse_i32(s: Seq<char>) -> Option<i32> {
    if s.len() > 0 && s[0] == '-' {
        let t = s.drop_first();
        if t.len() > 0 && all_digits(t) && digits_value(t) <= 0x8000_0000 {
            Some((0 - digits_value(t)) as i32)
        } else {
            None
        }
    } else if s.len() > 0 && all_digits(s) && digits_value(s) <= 0x7fff_ffff {
        Some(digits_value(s) as i32)
    } else {
        None
    }
}

proof fn lemma_digits_prefix(s: Seq<char>, k: int)
    requires
        all_digits(s),
        0 <= k <= s.len(),
    ensures
        0 <= digits_value(s.subrange(0, k)) <= digits_value(s),
    decreases s.len(),
{
    if k < s.len() {
        assert(all_digits(s.drop_last()));
        assert(s.drop_last().subrange(0, k) =~= s.subrange(0, k));
        lemma_digits_prefix(s.drop_last(), k);
        assert(is_digit(s[s.len() - 1]));
    } else {
        assert(s.subrange(0, k) =~= s);
        if s.len() > 0 {
            lemma_digits_prefix(s.drop_last(), s.len() - 1);
            assert(s.drop_last().subrange(0, s.len() - 1) =~= s.drop_last());
            assert(is_digit(s[s.len() - 1]));
        }
    }
}

/// The value of the digits of `s` from `from` on, when there is at least one,
/// all are digits, and the value is at most `2^31`.
fn digits_from(s: &str, from: usize) -> (r: Option<u64>)
    requires
        from <= s@.len(),
    ensures
        ({
            let t = s@.subrange(from as int, s@.len() as int);
            match r {
                Some(v) => t.len() > 0 && all_digits(t) && v == digits_value(t) && v <= 0x8000_0000,
                None => !(t.len() > 0 && all_digits(t) && digits_value(t) <= 0x8000_0000),
            }
        }),
{
    let ghost t = s@.subrange(from as int, s@.len() as int);
    let n = s.unicode_len();
    if from == n {
        return None;
    }
    let mut acc: u64 = 0;
    let mut i: usize = from;
    proof {
        assert(s@.subrange(from as int, from as int) =~= Seq::<char>::empty());
    }
    while i < n
        invariant
            n == s@.len(),
            from <= i <= n,
            t == s@.subrange(from as int, n as int),
            all_digits(s@.subrange(from as int, i as int)),
            acc == digits_value(s@.subrange(from as int, i as int)),
            acc <= 0x8000_0000,
        decreases n - i,
    {
        let c = s.get_char(i);
        let ghost pre = s@.subrange(from as int, i as int);
        let ghost next = s@.subrange(from as int, i + 1);
        proof {
            assert(next.drop_last() =~= pre);
            assert(next.last() == c);
        }
        if !('0' <= c && c <= '9') {
            proof {
                assert(t[i - from] == c);
            }
            return None;
        }
        let d = (c as u32 - '0' as u32) as u64;
        acc = acc * 10 + d;
        proof {
            assert forall|j: int| 0 <= j < next.len() implies is_digit(#[trigger] next[j]) by {
                if j < pre.len() {
                    assert(next[j] == pre[j]);
                }
            }
        }
        if acc > 0x8000_0000 {
            proof {
                if t.len() > 0 && all_digits(t) {
                    assert(t.subrange(0, i + 1 - from) =~= next);
                    lemma_digits_prefix(t, i + 1 - from);
                }
            }
            return None;
        }
        i = i + 1;
    }
    proof {
        assert(s@.subrange(from as int, i as int) =~= t);
    }
    Some(acc)
}

/// Parses a decimal `i32`; see [`parse_i32`].
pub fn parse_int(s: &str) -> (r: Option<i32>)
    ensures
        r == parse_i32(s@),
{
    let n = s.unicode_len();
    if n > 0 && s.get_char(0) == '-' {
        proof {
            assert(s@.subrange(1, s@.len() as int) =~= s@.drop_first());
        }
        match digits_from(s, 1) {
            Some(v) => Some((0 - v as i64) as i32),
            None => None,
        }
    } else {
        proof {
            assert(s@.subrange(0, s@.len() as int) =~= s@);
        }
        match digits_from(s, 0) {
            Some(v) => if v <= 0x7fff_ffff {
                Some(v as i32)
            } else {
                None
            },
            None => None,
        }
    }
}

/// The first position of `c` in `s`.
pub fn find_char(s: &str, c: char) -> (r: Option<usize>)
    ensures
        match r {
            Some(i) => first_index(s@, c) == Some(i as int),
            None => first_index(s@, c).is_none(),
        },
{
    let n = s.unicode_len();
    let mut i: usize = 0;
    while i < n
        invariant
            n == s@.len(),
            i <= n,
            forall|j: int| 0 <= j < i ==> s@[j] != c,
        decreases n - i,
    {
        if s.get_char(i) == c {
            proof {
                lemma_first_index(s@, c, i as int);
            }
            return Some(i);
        }
        i = i + 1;
    }
    proof {
        lemma_first_index(s@, c, i as int);
    }
    None
}

pub open spec fn word_true(w: Seq<char>) -> bool {
    w == seq!['t', 'r', 'u', 'e'] || w == seq!['1']
}

pub open spec fn word_false(w: Seq<char>) -> bool {
    w == seq!['f', 'a', 'l', 's', 'e'] || w == seq!['0']
}

fn is_true_word(w: &str) -> (r: bool)
    ensures
        r == word_true(w@),
{
    let n = w.unicode_len();
    if n == 1 {
        let r = w.get_char(0) == '1';
        proof {
            if !r {
                assert(w@[0] != seq!['1'][0]);
            } else {
                assert(w@ =~= seq!['1']);
            }
        }
        r
    } else if n == 4 {
        let r = w.get_char(0) == 't' && w.get_char(1) == 'r' && w.get_char(2) == 'u' && w.get_char(3)
            == 'e';
        proof {
            if r {
                assert(w@ =~= seq!['t', 'r', 'u', 'e']);
            } else {
                if w@ == seq!['t', 'r', 'u', 'e'] {
                    assert(w@[0] == 't' && w@[1] == 'r' && w@[2] == 'u' && w@[3] == 'e');
                }
            }
        }
        r
    } else {
        false
    }
}

fn is_false_word(w: &str) -> (r: bool)
    ensures
        r == word_false(w@),
{
    let n = w.unicode_len();
    if n == 1 {
        let r = w.get_char(0) == '0';
        proof {
            if !r {
                assert(w@[0] != seq!['0'][0]);
            } else {
                assert(w@ =~= seq!['0']);
            }
        }
        r
    } else if n == 5 {
        let r = w.get_char(0) == 'f' && w.get_char(1) == 'a' && w.get_char(2) == 'l' && w.get_char(3)
            == 's' && w.get_char(4) == 'e';
        proof {
            if r {
                assert(w@ =~= seq!['f', 'a', 'l', 's', 'e']);
            } else {
                if w@ == seq!['f', 'a', 'l', 's', 'e'] {
                    assert(w@[0] == 'f' && w@[1] == 'a' && w@[2] == 'l' && w@[3] == 's' && w@[4]
                        == 'e');
                }
            }
        }
        r
    } else {
        false
    }
}

/// The property value that assigning text `v` (`None`: a bare name) to
/// argument `a` gives, if any.
pub open spec fn option_prop(a: ArgV, v: Option<Seq<char>>) -> Option<Prop> {
    match (a.kind, v) {
        (ArgKind::Bool, None) => Some(Prop::Bool(true)),
        (ArgKind::Bool, Some(w)) => if word_true(w) {
            Some(Prop::Bool(true))
        } else if word_false(w) {
            Some(Prop::Bool(false))
        } else {
            None
        },
        (ArgKind::Int, Some(w)) => match parse_i32(w) {
            Some(i) => Some(Prop::Int(i)),
            None => None,
        },
        (ArgKind::Str, Some(w)) => Some(Prop::Str(w)),
        (ArgKind::Enum, Some(w)) => match first_index(a.nicks, w) {
            Some(k) => Some(Prop::Enum(k as i32)),
            None => None,
        },
        _ => None,
    }
}

pub open spec fn props_view(props: Seq<Option<GValue>>) -> Seq<Option<Prop>> {
    props.map_values(|p: Option<GValue>| opt_prop(p))
}

/// The properties after applying one assignment, or `None` if it is malformed.
/// An empty assignment changes nothing.
pub open spec fn segment_update(args: Seq<ArgV>, props: Seq<Option<Prop>>, seg: Seq<char>) -> Option<
    Seq<Option<Prop>>,
> {
    if seg.len() == 0 {
        Some(props)
    } else {
        let (name, value) = match first_index(seg, '=') {
            None => (seg, None),
            Some(k) => (seg.subrange(0, k), Some(seg.subrange(k + 1, seg.len() as int))),
        };
        match first_index(arg_names(args), name) {
            None => None,
            Some(i) => match option_prop(args[i], value) {
                None => None,
                Some(p) => Some(props.update(i, Some(p))),
            },
        }
    }
}

/// The properties after applying every comma-separated assignment of `s` in
/// order, or `None` if one is malformed.
pub open spec fn assignments_update(args: Seq<ArgV>, props: Seq<Option<Prop>>, s: Seq<char>) -> Option<
    Seq<Option<Prop>>,
>
    decreases s.len(),
{
    match first_index(s, ',') {
        None => segment_update(args, props, s),
        Some(k) => {
            if 0 <= k < s.len() {
                match segment_update(args, props, s.subrange(0, k)) {
                    None => None,
                    Some(p) => assignments_update(args, p, s.subrange(k + 1, s.len() as int)),
                }
            } else {
                None
            }
        },
    }
}

/// `s` without one pair of enclosing square brackets, if it has them.
pub open spec fn unbracketed(s: Seq<char>) -> Seq<char> {
    if s.len() >= 2 && s[0] == '[' && s[s.len() - 1] == ']' {
        s.subrange(1, s.len() - 1)
    } else {
        s
    }
}

/// The properties after applying option string `s`, or `None` if it is
/// malformed.
pub open spec fn options_update(args: Seq<ArgV>, props: Seq<Option<Prop>>, s: Seq<char>) -> Option<
    Seq<Option<Prop>>,
> {
    assignments_update(args, props, unbracketed(s))
}

fn option_value(a: &ArgSpec, v: Option<&str>) -> (r: Option<GValue>)
    requires
        a@.nicks.len() <= crate::runtime::MAX_NICKS,
    ensures
        match (r, option_prop(a@, match v { Some(w) => Some(w@), None => None })) {
            (Some(g), Some(p)) => g@ == p,
            (None, None) => true,
            _ => false,
        },
{
    match (a.kind, v) {
        (ArgKind::Bool, None) => Some(GValue::Bool(true)),
        (ArgKind::Bool, Some(w)) => if is_true_word(w) {
            Some(GValue::Bool(true))
        } else if is_false_word(w) {
            Some(GValue::Bool(false))
        } else {
            None
        },
        (ArgKind::Int, Some(w)) => match parse_int(w) {
            Some(i) => Some(GValue::Int(i)),
            None => None,
        },
        (ArgKind::Str, Some(w)) => Some(GValue::Str(w.to_owned())),
        (ArgKind::Enum, Some(w)) => {
            let word = w.to_owned();
            match find_string(&a.nicks, &word) {
                Some(k) => Some(GValue::Enum(k as i32)),
                None => None,
            }
        },
        _ => None,
    }
}

fn apply_segment(args: &Vec<ArgSpec>, props: &mut Vec<Option<GValue>>, seg: &str) -> (r: bool)
    requires
        old(props)@.len() == args@.len(),
        nicks_bounded(args_view(args@)),
    ensures
        final(props)@.len() == args@.len(),
        match segment_update(args_view(args@), props_view(old(props)@), seg@) {
            Some(p) => r && props_view(final(props)@) == p,
            None => !r,
        },
{
    let ghost av = args_view(args@);
    let n = seg.unicode_len();
    if n == 0 {
        return true;
    }
    let (name, value) = match find_char(seg, '=') {
        None => (seg, None),
        Some(k) => {
            proof {
                lemma_first_index_found(seg@, '=');
            }
            (seg.substring_char(0, k), Some(seg.substring_char(k + 1, n)))
        },
    };
    let name = name.to_owned();
    match find_arg(args, &name) {
        None => false,
        Some(i) => {
            proof {
                lemma_first_index_found(arg_names(av), name@);
            }
            assert(av[i as int] == args@[i as int]@);
            match option_value(&args[i], value) {
                None => false,
                Some(g) => {
                    props.set(i, Some(g));
                    proof {
                        assert(props_view(props@) =~= props_view(old(props)@).update(
                            i as int,
                            Some(g@),
                        ));
                    }
                    true
                },
            }
        },
    }
}

fn apply_assignments(args: &Vec<ArgSpec>, props: &mut Vec<Option<GValue>>, s: &str) -> (r: bool)
    requires
        old(props)@.len() == args@.len(),
        nicks_bounded(args_view(args@)),
    ensures
        final(props)@.len() == args@.len(),
        match assignments_update(args_view(args@), props_view(old(props)@), s@) {
            Some(p) => r && props_view(final(props)@) == p,
            None => !r,
        },
    decreases s@.len(),
{
    match find_char(s, ',') {
        None => apply_segment(args, props, s),
        Some(k) => {
            proof {
                lemma_first_index_found(s@, ',');
            }
            let n = s.unicode_len();
            let head = s.substring_char(0, k);
            if !apply_segment(args, props, head) {
                return false;
            }
            let rest = s.substring_char(k + 1, n);
            apply_assignments(args, props, rest)
        },
    }
}

/// Applies option string `s` to the properties; see [`options_update`].
/// Returns whether it was well formed; when it was not, `props` may be
/// partly assigned.
pub fn apply_options(args: &Vec<ArgSpec>, props: &mut Vec<Option<GValue>>, s: &str) -> (r: bool)
    requires
        old(props)@.len() == args@.len(),
        nicks_bounded(args_view(args@)),
    ensures
        final(props)@.len() == args@.len(),
        match options_update(args_view(args@), props_view(old(props)@), s@) {
            Some(p) => r && props_view(final(props)@) == p,
            None => !r,
        },
{
    let n = s.unicode_len();
    if n >= 2 && s.get_char(0) == '[' && s.get_char(n - 1) == ']' {
        apply_assignments(args, props, s.substring_char(1, n - 1))
    } else {
        apply_assignments(args, props, s)
    }
}

} // verus!
