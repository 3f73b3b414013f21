//! Lookup by name: the first entry whose name matches.
use crate::runtime::{ArgSpec, ArgV, ClassV, OpClass, strings_view};
use vstd::prelude::*;

verus! {

/// The position of the first of `names` equal to `name`.
pub open spec fn first_index<A>(names: Seq<A>, name: A) -> Option<int>
    decreases names.len(),
{
    if names.len() == 0 {
        None
    } else if names[0] == name {
        Some(0)
    } else {
        match first_index(names.drop_first(), name) {
            Some(i) => Some(i + 1),
            None => None,
        }
    }
}

pub open spec fn class_names(cs: Seq<ClassV>) -> Seq<Seq<char>> {
    cs.map_values(|c: ClassV| c.name)
}

pub open spec fn arg_names(args: Seq<ArgV>) -> Seq<Seq<char>> {
    args.map_values(|a: ArgV| a.name)
}

/// A scan that found no match before `i` decides `first_index`.
pub proof fn lemma_first_index<A>(names: Seq<A>, name: A, i: int)
    requires
        0 <= i <= names.len(),
        forall|j: int| 0 <= j < i ==> names[j] != name,
    ensures
        i < names.len() && names[i] == name ==> first_index(names, name) == Some(i),
        i == names.len() ==> first_index(names, name).is_none(),
    decreases i,
{
    if i > 0 {
        assert forall|j: int| 0 <= j < i - 1 implies names.drop_first()[j] != name by {
            assert(names.drop_first()[j] == names[j + 1]);
        }
        lemma_first_index(names.drop_first(), name, i - 1);
    }
}

/// What `first_index` returns is the first match.
pub proof fn lemma_first_index_found<A>(names: Seq<A>, name: A)
    ensures
        match first_index(names, name) {
            Some(i) => 0 <= i < names.len() && names[i] == name && forall|j: int|
                0 <= j < i ==> names[j] != name,
            None => forall|j: int| 0 <= j < names.len() ==> names[j] != name,
        },
    decreases names.len(),
{
    if names.len() > 0 {
        lemma_first_index_found(names.drop_first(), name);
        if names[0] != name {
            match first_index(names.drop_first(), name) {
                Some(i) => {
                    assert forall|j: int| 0 <= j < i + 1 implies names[j] != name by {
                        if j > 0 {
                            assert(names[j] == names.drop_first()[j - 1]);
                        }
                    }
                },
                None => {
                    assert forall|j: int| 0 <= j < names.len() implies names[j] != name by {
                        if j > 0 {
                            assert(names[j] == names.drop_first()[j - 1]);
                        }
                    }
                },
            }
        }
    }
}

pub fn find_class(classes: &Vec<OpClass>, name: &str) -> (r: Option<usize>)
    ensures
        match r {
            Some(i) => first_index(class_names(classes@.map_values(|c: OpClass| c@)), name@)
                == Some(i as int),
            None => first_index(class_names(classes@.map_values(|c: OpClass| c@)), name@).is_none(),
        },
{
    let ghost names = class_names(classes@.map_values(|c: OpClass| c@));
    let wanted = name.to_owned();
    let mut i: usize = 0;
    while i < classes.len()
        invariant
            i <= classes@.len(),
            wanted@ == name@,
            names.len() == classes@.len(),
            names == class_names(classes@.map_values(|c: OpClass| c@)),
            forall|j: int| 0 <= j < i ==> names[j] != name@,
        decreases classes@.len() - i,
    {
        assert(names[i as int] == classes@[i as int].name@);
        if classes[i].name == wanted {
            proof {
                lemma_first_index(names, name@, i as int);
            }
            return Some(i);
        }
        i = i + 1;
    }
    proof {
        lemma_first_index(names, name@, i as int);
    }
    None
}

pub fn find_arg(args: &Vec<ArgSpec>, name: &String) -> (r: Option<usize>)
    ensures
        match r {
            Some(i) => first_index(arg_names(args@.map_values(|a: ArgSpec| a@)), name@)
                == Some(i as int),
            None => first_index(arg_names(args@.map_values(|a: ArgSpec| a@)), name@).is_none(),
        },
{
    let ghost names = arg_names(args@.map_values(|a: ArgSpec| a@));
    let mut i: usize = 0;
    while i < args.len()
        invariant
            i <= args@.len(),
            names.len() == args@.len(),
            names == arg_names(args@.map_values(|a: ArgSpec| a@)),
            forall|j: int| 0 <= j < i ==> names[j] != name@,
        decreases args@.len() - i,
    {
        assert(names[i as int] == args@[i as int].name@);
        if args[i].name == *name {
            proof {
                lemma_first_index(names, name@, i as int);
            }
            return Some(i);
        }
        i = i + 1;
    }
    proof {
        lemma_first_index(names, name@, i as int);
    }
    None
}

pub fn find_string(nicks: &Vec<String>, nick: &String) -> (r: Option<usize>)
    ensures
        match r {
            Some(i) => first_index(strings_view(nicks@), nick@) == Some(i as int),
            None => first_index(strings_view(nicks@), nick@).is_none(),
        },
{
    let ghost names = strings_view(nicks@);
    let mut i: usize = 0;
    while i < nicks.len()
        invariant
            i <= nicks@.len(),
            names.len() == nicks@.len(),
            names == strings_view(nicks@),
            forall|j: int| 0 <= j < i ==> names[j] != nick@,
        decreases nicks@.len() - i,
    {
        assert(names[i as int] == nicks@[i as int]@);
        if nicks[i] == *nick {
            proof {
                lemma_first_index(names, nick@, i as int);
            }
            return Some(i);
        }
        i = i + 1;
    }
    proof {
        lemma_first_index(names, nick@, i as int);
    }
    None
}

} // verus!
