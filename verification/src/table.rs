//! Lists of names and tables of named entries: how a name is looked up, and
//! what it means for names to be distinct, plain, or the same as others.

use vstd::prelude::*;

verus! {

/// The position at which `name` first occurs in `names`, if it occurs at all.
pub open spec fn first_index(names: Seq<Seq<char>>, name: Seq<char>) -> Option<int>
    decreases names.len(),
{
    if names.len() == 0 {
        None
    } else {
        match first_index(names.drop_last(), name) {
            Some(i) => Some(i),
            None => if names.last() == name {
                Some(names.len() - 1)
            } else {
                None
            },
        }
    }
}

/// No name occurs twice.
pub open spec fn distinct(names: Seq<Seq<char>>) -> bool {
    forall|i: int, j: int| 0 <= i < j < names.len() ==> names[i] != names[j]
}

/// The name holds no underscore. The names that a source text can write are
/// plain; the names that the lowering makes up are not.
pub open spec fn plain(name: Seq<char>) -> bool {
    forall|i: int| 0 <= i < name.len() ==> name[i] != '_'
}

/// Every name of the list is plain.
pub open spec fn all_plain(names: Seq<Seq<char>>) -> bool {
    forall|i: int| 0 <= i < names.len() ==> plain(#[trigger] names[i])
}

/// Every name of either list is a name of the other.
pub open spec fn same_names(a: Seq<Seq<char>>, b: Seq<Seq<char>>) -> bool {
    &&& forall|i: int| 0 <= i < a.len() ==> first_index(b, #[trigger] a[i]) is Some
    &&& forall|j: int| 0 <= j < b.len() ==> first_index(a, #[trigger] b[j]) is Some
}

/// The names under which the entries of a table are filed, in order.
pub open spec fn keys<T>(table: Seq<(Seq<char>, T)>) -> Seq<Seq<char>> {
    Seq::new(table.len(), |i: int| table[i].0)
}

/// The entry filed under `name`: the first one, should there be several.
pub open spec fn lookup<T>(table: Seq<(Seq<char>, T)>, name: Seq<char>) -> Option<T> {
    match first_index(keys(table), name) {
        Some(i) => Some(table[i].1),
        None => None,
    }
}

/// `first_index` returns the least position that holds the name, and `None`
/// exactly when no position holds it.
pub proof fn lemma_first_index(names: Seq<Seq<char>>, name: Seq<char>)
    ensures
        match first_index(names, name) {
            Some(i) => 0 <= i < names.len() && names[i] == name && forall|j: int|
                0 <= j < i ==> names[j] != name,
            None => forall|j: int| 0 <= j < names.len() ==> names[j] != name,
        },
    decreases names.len(),
{
    if names.len() > 0 {
        let init = names.drop_last();
        lemma_first_index(init, name);
        assert(forall|j: int| 0 <= j < init.len() ==> init[j] == names[j]);
    }
}

/// Where the names are distinct, a name is found at the one position that holds it.
pub proof fn lemma_first_index_at(names: Seq<Seq<char>>, i: int)
    requires
        0 <= i < names.len(),
        distinct(names),
    ensures
        first_index(names, names[i]) == Some(i),
{
    lemma_first_index(names, names[i]);
}

/// A position that holds the name, with no earlier one that does, is the one found.
pub proof fn lemma_first_index_is(names: Seq<Seq<char>>, name: Seq<char>, i: int)
    requires
        0 <= i < names.len(),
        names[i] == name,
        forall|j: int| 0 <= j < i ==> names[j] != name,
    ensures
        first_index(names, name) == Some(i),
{
    lemma_first_index(names, name);
}

/// A name that is not in a list of distinct names can join it.
pub proof fn lemma_distinct_push(names: Seq<Seq<char>>, name: Seq<char>)
    requires
        distinct(names),
        first_index(names, name) is None,
    ensures
        distinct(names.push(name)),
{
    lemma_first_index(names, name);
}

/// Looks a name up in a list of names.
pub fn find_name(names: &Vec<String>, name: &String) -> (r: Option<usize>)
    ensures
        match r {
            Some(i) => i < names.len() && names[i as int]@ == name@ && first_index(
                names.deep_view(),
                name@,
            ) == Some(i as int),
            None => first_index(names.deep_view(), name@) is None,
        },
{
    let mut i: usize = 0;
    while i < names.len()
        invariant
            i <= names.len(),
            forall|j: int| 0 <= j < i ==> names.deep_view()[j] != name@,
        decreases names.len() - i,
    {
        if names[i] == *name {
            proof {
                lemma_first_index_is(names.deep_view(), name@, i as int);
            }
            return Some(i);
        }
        i += 1;
    }
    proof {
        lemma_first_index(names.deep_view(), name@);
    }
    None
}

/// Looks a name up in a table of named entries.
pub fn find_entry<T: DeepView>(table: &Vec<(String, T)>, name: &String) -> (r: Option<usize>)
    ensures
        match r {
            Some(i) => i < table.len() && table[i as int].0@ == name@ && first_index(
                keys(table.deep_view()),
                name@,
            ) == Some(i as int) && lookup(table.deep_view(), name@) == Some(
                table[i as int].1.deep_view(),
            ),
            None => first_index(keys(table.deep_view()), name@) is None && lookup(
                table.deep_view(),
                name@,
            ) is None,
        },
{
    let mut i: usize = 0;
    while i < table.len()
        invariant
            i <= table.len(),
            forall|j: int| 0 <= j < i ==> keys(table.deep_view())[j] != name@,
        decreases table.len() - i,
    {
        if table[i].0 == *name {
            proof {
                lemma_first_index_is(keys(table.deep_view()), name@, i as int);
            }
            return Some(i);
        }
        i += 1;
    }
    proof {
        lemma_first_index(keys(table.deep_view()), name@);
    }
    None
}

/// The names of a table's entries, copied out in order.
pub fn entry_names<T: DeepView>(table: &Vec<(String, T)>) -> (r: Vec<String>)
    ensures
        r.deep_view() == keys(table.deep_view()),
{
    let mut r: Vec<String> = Vec::new();
    let mut i: usize = 0;
    while i < table.len()
        invariant
            i <= table.len(),
            r.len() == i,
            forall|j: int| 0 <= j < i ==> r[j]@ == table[j].0@,
        decreases table.len() - i,
    {
        r.push(table[i].0.clone());
        i += 1;
    }
    assert(r.deep_view() =~= keys(table.deep_view()));
    r
}

/// Whether every name of `a` is a name of `b`.
pub fn all_found(a: &Vec<String>, b: &Vec<String>) -> (r: bool)
    ensures
        r == (forall|i: int|
            0 <= i < a.len() ==> first_index(b.deep_view(), #[trigger] a.deep_view()[i]) is Some),
{
    let mut i: usize = 0;
    while i < a.len()
        invariant
            i <= a.len(),
            forall|j: int|
                0 <= j < i ==> first_index(b.deep_view(), #[trigger] a.deep_view()[j]) is Some,
        decreases a.len() - i,
    {
        if find_name(b, &a[i]).is_none() {
            assert(first_index(b.deep_view(), a.deep_view()[i as int]) is None);
            return false;
        }
        i += 1;
    }
    true
}

/// Whether two lists hold the same names.
pub fn same_names_in(a: &Vec<String>, b: &Vec<String>) -> (r: bool)
    ensures
        r == same_names(a.deep_view(), b.deep_view()),
{
    all_found(a, b) && all_found(b, a)
}

/// A copy of a list of names.
pub fn clone_names(names: &Vec<String>) -> (r: Vec<String>)
    ensures
        r.deep_view() == names.deep_view(),
{
    let mut r: Vec<String> = Vec::new();
    let mut i: usize = 0;
    while i < names.len()
        invariant
            i <= names.len(),
            r.len() == i,
            forall|j: int| 0 <= j < i ==> r[j]@ == names[j]@,
        decreases names.len() - i,
    {
        r.push(names[i].clone());
        i += 1;
    }
    assert(r.deep_view() =~= names.deep_view());
    r
}

} // verus!
