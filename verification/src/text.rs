//! Text helpers shared by the modules: conversion between strings and
//! character vectors, comparison, concatenation and path joining.

use vstd::prelude::*;
use vstd::std_specs::iter::IteratorSpec;

verus! {

/// `String::push` appends exactly the given character to the text.
pub assume_specification[ std::string::String::push ](s: &mut std::string::String, c: char)
    ensures
        final(s)@ == old(s)@.push(c),
;

/// The characters of `s`, in order.
pub fn chars_of(s: &str) -> (result: Vec<char>)
    ensures
        result@ == s@,
{
    let mut result: Vec<char> = Vec::new();
    let mut it = s.chars();
    loop
        invariant
            it.obeys_prophetic_iter_laws(),
            it.decrease() is Some,
            result@ + it.remaining() == s@,
        decreases it.decrease()->0,
    {
        let ghost before = it;
        match it.next() {
            Some(c) => {
                proof {
                    assert(before.remaining() == seq![c] + it.remaining());
                    assert(result@.push(c) + it.remaining() == result@ + before.remaining());
                }
                result.push(c);
            },
            None => {
                proof {
                    assert(it.remaining().len() == 0);
                    assert(result@ + it.remaining() == result@);
                }
                return result;
            },
        }
    }
}

/// The string made of the characters `chars[from..to]`.
pub fn string_of(chars: &Vec<char>, from: usize, to: usize) -> (result: String)
    requires
        from <= to <= chars.len(),
    ensures
        result@ == chars@.subrange(from as int, to as int),
{
    let mut result = String::new();
    let mut i: usize = from;
    while i < to
        invariant
            from <= i <= to <= chars.len(),
            result@ == chars@.subrange(from as int, i as int),
        decreases to - i,
    {
        result.push(chars[i]);
        i += 1;
        proof {
            assert(chars@.subrange(from as int, i as int) == chars@.subrange(
                from as int,
                i - 1,
            ).push(chars@[i - 1]));
        }
    }
    result
}

/// The views of a sequence of strings.
pub open spec fn string_views(strings: Seq<String>) -> Seq<Seq<char>> {
    strings.map_values(|s: String| s@)
}

/// The views of a sequence of texts.
pub open spec fn str_views(strings: Seq<&str>) -> Seq<Seq<char>> {
    strings.map_values(|s: &str| s@)
}

/// Whether two texts hold the same characters.
pub fn str_eq(a: &str, b: &str) -> (result: bool)
    ensures
        result == (a@ == b@),
{
    let left = String::from_str(a);
    let right = String::from_str(b);
    left == right
}

/// Whether `chars` begins with `prefix`.
pub fn starts_with(chars: &Vec<char>, prefix: &Vec<char>) -> (result: bool)
    ensures
        result == prefix@.is_prefix_of(chars@),
{
    if prefix.len() > chars.len() {
        return false;
    }
    let mut i: usize = 0;
    while i < prefix.len()
        invariant
            i <= prefix.len() <= chars.len(),
            forall|k: int| 0 <= k < i ==> chars@[k] == prefix@[k],
        decreases prefix.len() - i,
    {
        if chars[i] != prefix[i] {
            return false;
        }
        i += 1;
    }
    proof {
        assert(chars@.subrange(0, prefix@.len() as int) =~= prefix@);
    }
    true
}

/// A path made of `base` and `child`: `child` alone where `base` is empty
/// or `child` starts at the root, else `base`, one separator unless `base`
/// already ends with it, and `child`.
pub open spec fn join_path_spec(base: Seq<char>, child: Seq<char>, sep: char) -> Seq<char> {
    if base.len() == 0 || (child.len() > 0 && child[0] == sep) {
        child
    } else if base.last() == sep {
        base + child
    } else {
        base.push(sep) + child
    }
}

/// Joins two path components with the separator `sep`.
pub fn join_path(base: &str, child: &str, sep: char) -> (result: String)
    ensures
        result@ == join_path_spec(base@, child@, sep),
{
    let base_chars = chars_of(base);
    let child_chars = chars_of(child);
    if base_chars.len() == 0 || (child_chars.len() > 0 && child_chars[0] == sep) {
        String::from_str(child)
    } else if base_chars[base_chars.len() - 1] == sep {
        String::from_str(base).concat(child)
    } else {
        let mut result = String::from_str(base);
        result.push(sep);
        result.append(child);
        result
    }
}

} // verus!
