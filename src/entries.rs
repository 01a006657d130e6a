//! Lookups in lists of named entries, and the nullable marker.
use vstd::prelude::*;

use crate::merge_spec::{has_nullable, nullable_key};
use crate::model::{key_index, keys_of, lemma_key_index_bounds, lemma_key_index_prefix, remove_extension, set_extension};
use crate::schema::{view_extensions, ExtensionValue};

verus! {

/// The name of the extension that marks a node as nullable.
pub const NULLABLE: &'static str = "nullable";

/// The names of an executable list of named entries.
pub open spec fn names_of<T>(s: Seq<(String, T)>) -> Seq<Seq<char>> {
    s.map_values(|p: (String, T)| p.0@)
}

pub proof fn lemma_nullable_literal()
    ensures
        NULLABLE@ == nullable_key(),
{
    reveal_strlit("nullable");
    assert(NULLABLE@ =~= nullable_key());
}

pub proof fn lemma_extension_names(e: Vec<(String, ExtensionValue)>)
    ensures
        keys_of(view_extensions(e)) == names_of(e@),
{
    assert(keys_of(view_extensions(e)) =~= names_of(e@));
}

/// The position of the first entry named `k`.
pub fn find_key<T>(v: &Vec<(String, T)>, k: &String) -> (r: Option<usize>)
    ensures
        match r {
            Some(i) => key_index(names_of(v@), k@) == i,
            None => key_index(names_of(v@), k@) == -1,
        },
{
    let ghost names = names_of(v@);
    let mut i: usize = 0;
    while i < v.len()
        invariant
            i <= v@.len(),
            names == names_of(v@),
            key_index(names.take(i as int), k@) == -1,
        decreases v@.len() - i,
    {
        assert(names.take(i + 1 as int).drop_last() =~= names.take(i as int));
        if v[i].0 == *k {
            proof {
                assert(key_index(names.take(i + 1 as int), k@) == i);
                lemma_key_index_prefix(names, k@, i + 1 as int);
            }
            return Some(i);
        }
        i += 1;
    }
    assert(names.take(i as int) =~= names);
    None
}

/// Sets the nullable marker of these extensions to true.
pub fn set_nullable(e: &mut Vec<(String, ExtensionValue)>)
    ensures
        view_extensions(*final(e)) == set_extension(view_extensions(*old(e)), nullable_key(), ExtensionValue::Bool(true)),
{
    proof {
        lemma_nullable_literal();
        lemma_extension_names(*e);
    }
    let key = NULLABLE.to_owned();
    match find_key(e, &key) {
        Some(i) => {
            proof { lemma_key_index_bounds(names_of(e@), key@); }
            e.set(i, (key, ExtensionValue::Bool(true)));
        },
        None => {
            e.push((key, ExtensionValue::Bool(true)));
        },
    }
    assert(view_extensions(*e) =~= set_extension(view_extensions(*old(e)), nullable_key(), ExtensionValue::Bool(true)));
}

/// Takes the nullable marker out of these extensions where it is set to true,
/// and says whether it was.
pub fn take_nullable(e: &mut Vec<(String, ExtensionValue)>) -> (r: bool)
    ensures
        r == has_nullable(view_extensions(*old(e))),
        view_extensions(*final(e)) == if r {
            remove_extension(view_extensions(*old(e)), nullable_key())
        } else {
            view_extensions(*old(e))
        },
{
    proof {
        lemma_nullable_literal();
        lemma_extension_names(*e);
    }
    let key = NULLABLE.to_owned();
    match find_key(e, &key) {
        Some(i) => {
            proof { lemma_key_index_bounds(names_of(e@), key@); }
            let is_true = match &e[i].1 {
                ExtensionValue::Bool(b) => *b,
                ExtensionValue::Other(_) => false,
            };
            if is_true {
                e.remove(i);
                assert(view_extensions(*e) =~= remove_extension(view_extensions(*old(e)), nullable_key()));
            }
            is_true
        },
        None => false,
    }
}

} // verus!
