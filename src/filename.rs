//! Filenames with trailing options (`photo.jpg[Q=90]`), suffixes, the loader
//! or saver that handles a suffix, and the loader that claims a buffer or source by its leading bytes.
use crate::lookup::{first_index, lemma_first_index};
use crate::runtime::{ClassV, OpClass, Role};
use vstd::prelude::*;
use vstd::string::*;

verus! {

/// The position of the last of `s` equal to `x`.
pub open spec fn last_index<A>(s: Seq<A>, x: A) -> Option<int>
    decreases s.len(),
{
    if s.len() == 0 {
        None
    } else if s.last() == x {
        Some(s.len() - 1)
    } else {
        last_index(s.drop_last(), x)
    }
}

proof fn lemma_last_index<A>(s: Seq<A>, x: A, i: int)
    requires
        0 <= i <= s.len(),
        forall|j: int| i <= j < s.len() ==> s[j] != x,
    ensures
        last_index(s, x) == last_index(s.subrange(0, i), x),
    decreases s.len() - i,
{
    if i < s.len() {
        assert(s.drop_last().subrange(0, i) =~= s.subrange(0, i));
        lemma_last_index(s.drop_last(), x, i);
    } else {
        assert(s.subrange(0, i) =~= s);
    }
}

fn find_last(s: &str, x: char) -> (r: Option<usize>)
    ensures
        match r {
            Some(i) => last_index(s@, x) == Some(i as int),
            None => last_index(s@, x).is_none(),
        },
{
    let n = s.unicode_len();
    let mut i: usize = n;
    while i > 0
        invariant
            n == s@.len(),
            i <= n,
            forall|j: int| i <= j < n ==> s@[j] != x,
        decreases i,
    {
        if s.get_char(i - 1) == x {
            proof {
                lemma_last_index(s@, x, i as int);
                assert(s@.subrange(0, i as int).last() == x);
            }
            return Some(i - 1);
        }
        i = i - 1;
    }
    proof {
        lemma_last_index(s@, x, 0);
    }
    None
}

/// Where the trailing `[...]` options of a filename begin, if it has them.
pub open spec fn options_start(s: Seq<char>) -> Option<int> {
    if s.len() > 0 && s.last() == ']' {
        last_index(s, '[')
    } else {
        None
    }
}

/// The filename without its trailing options.
pub open spec fn filename_part(s: Seq<char>) -> Seq<char> {
    match options_start(s) {
        Some(k) => s.subrange(0, k),
        None => s,
    }
}

/// The trailing options of a filename, brackets included; empty if none.
pub open spec fn options_part(s: Seq<char>) -> Seq<char> {
    match options_start(s) {
        Some(k) => s.subrange(k, s.len() as int),
        None => Seq::empty(),
    }
}

/// The suffix of a filename: from its last `.` on; empty if it has none.
pub open spec fn file_suffix(s: Seq<char>) -> Seq<char> {
    match last_index(s, '.') {
        Some(k) => s.subrange(k, s.len() as int),
        None => Seq::empty(),
    }
}

proof fn lemma_last_index_bound<A>(s: Seq<A>, x: A)
    ensures
        match last_index(s, x) {
            Some(k) => 0 <= k < s.len(),
            None => true,
        },
    decreases s.len(),
{
    if s.len() > 0 {
        lemma_last_index_bound(s.drop_last(), x);
    }
}

/// Splits a filename into the name and its trailing options.
pub fn split_filename(s: &str) -> (r: (String, String))
    ensures
        r.0@ == filename_part(s@),
        r.1@ == options_part(s@),
{
    let n = s.unicode_len();
    if n > 0 && s.get_char(n - 1) == ']' {
        match find_last(s, '[') {
            Some(k) => {
                proof {
                    lemma_last_index_bound(s@, '[');
                }
                (s.substring_char(0, k).to_owned(), s.substring_char(k, n).to_owned())
            },
            None => (s.to_owned(), String::new()),
        }
    } else {
        (s.to_owned(), String::new())
    }
}

/// The suffix of a filename; see [`file_suffix`].
pub fn suffix_of(s: &str) -> (r: String)
    ensures
        r@ == file_suffix(s@),
{
    match find_last(s, '.') {
        Some(k) => {
            proof {
                lemma_last_index_bound(s@, '.');
            }
            let n = s.unicode_len();
            s.substring_char(k, n).to_owned()
        },
        None => String::new(),
    }
}

/// Whether class `c` has role `role` and handles suffix `suf` exactly.
pub open spec fn handles_suffix(c: ClassV, role: Role, suf: Seq<char>) -> bool {
    c.role == role && first_index(c.suffixes, suf).is_some()
}

/// The first class with role `role` that handles the suffix of `name`.
pub open spec fn find_for(classes: Seq<ClassV>, role: Role, name: Seq<char>) -> Option<int> {
    first_index(Seq::new(classes.len(), |i: int| handles_suffix(classes[i], role, file_suffix(name))), true)
}

/// Finds the first class with role `role` that handles the suffix of `name`.
pub fn find_handler(classes: &Vec<OpClass>, role: Role, name: &str) -> (r: Option<usize>)
    ensures
        match r {
            Some(i) => i < classes@.len() && find_for(classes@.map_values(|c: OpClass| c@), role, name@)
                == Some(i as int),
            None => find_for(classes@.map_values(|c: OpClass| c@), role, name@).is_none(),
        },
{
    let ghost cv = classes@.map_values(|c: OpClass| c@);
    let suf = suffix_of(name);
    let ghost flags = Seq::new(cv.len(), |i: int| handles_suffix(cv[i], role, file_suffix(name@)));
    let mut i: usize = 0;
    while i < classes.len()
        invariant
            i <= classes@.len(),
            cv == classes@.map_values(|c: OpClass| c@),
            suf@ == file_suffix(name@),
            flags == Seq::new(cv.len(), |i: int| handles_suffix(cv[i], role, file_suffix(name@))),
            forall|j: int| 0 <= j < i ==> flags[j] != true,
        decreases classes@.len() - i,
    {
        assert(cv[i as int] == classes@[i as int]@);
        if classes[i].role == role && crate::lookup::find_string(&classes[i].suffixes, &suf).is_some() {
            proof {
                lemma_first_index(flags, true, i as int);
            }
            return Some(i);
        }
        i = i + 1;
    }
    proof {
        lemma_first_index(flags, true, i as int);
    }
    None
}

/// Whether `buf` begins with `sig`.
pub open spec fn is_prefix(sig: Seq<u8>, buf: Seq<u8>) -> bool {
    sig.len() <= buf.len() && buf.subrange(0, sig.len() as int) == sig
}

/// The first class of role `role` whose signature `buf` begins with.
pub open spec fn claimant(classes: Seq<ClassV>, role: Role, buf: Seq<u8>) -> Option<int> {
    first_index(
        Seq::new(classes.len(), |i: int| classes[i].role == role && is_prefix(classes[i].signature, buf)),
        true,
    )
}

fn starts_with(buf: &[u8], sig: &Vec<u8>) -> (r: bool)
    ensures
        r == is_prefix(sig@, buf@),
{
    if sig.len() > buf.len() {
        return false;
    }
    let mut i: usize = 0;
    while i < sig.len()
        invariant
            sig@.len() <= buf@.len(),
            i <= sig@.len(),
            forall|j: int| 0 <= j < i ==> buf@[j] == sig@[j],
        decreases sig@.len() - i,
    {
        if buf[i] != sig[i] {
            proof {
                if is_prefix(sig@, buf@) {
                    assert(buf@.subrange(0, sig@.len() as int)[i as int] == buf@[i as int]);
                }
            }
            return false;
        }
        i = i + 1;
    }
    proof {
        assert(buf@.subrange(0, sig@.len() as int) =~= sig@);
    }
    true
}

/// Finds the first class of role `role` whose signature `buf` begins with.
pub fn find_claimant(classes: &Vec<OpClass>, role: Role, buf: &[u8]) -> (r: Option<usize>)
    ensures
        match r {
            Some(i) => i < classes@.len() && claimant(classes@.map_values(|c: OpClass| c@), role, buf@)
                == Some(i as int),
            None => claimant(classes@.map_values(|c: OpClass| c@), role, buf@).is_none(),
        },
{
    let ghost cv = classes@.map_values(|c: OpClass| c@);
    let ghost flags = Seq::new(
        cv.len(),
        |i: int| cv[i].role == role && is_prefix(cv[i].signature, buf@),
    );
    let mut i: usize = 0;
    while i < classes.len()
        invariant
            i <= classes@.len(),
            cv == classes@.map_values(|c: OpClass| c@),
            flags == Seq::new(
                cv.len(),
                |i: int| cv[i].role == role && is_prefix(cv[i].signature, buf@),
            ),
            forall|j: int| 0 <= j < i ==> flags[j] != true,
        decreases classes@.len() - i,
    {
        assert(cv[i as int] == classes@[i as int]@);
        if classes[i].role == role && starts_with(buf, &classes[i].signature) {
            proof {
                lemma_first_index(flags, true, i as int);
            }
            return Some(i);
        }
        i = i + 1;
    }
    proof {
        lemma_first_index(flags, true, i as int);
    }
    None
}

} // verus!
