//! Lists of names without repetition, used as sets.
use vstd::prelude::*;

use crate::ast::function::names_view;
use crate::text::{chars_equal, string_chars, string_from_chars};

verus! {

/// A copy of a name.
pub fn copy_name(s: &String) -> (r: String)
    ensures
        r@ == s@,
{
    string_from_chars(&string_chars(s))
}

/// Whether `name` is one of the names of `set`.
pub fn has_name(set: &Vec<String>, name: &String) -> (r: bool)
    ensures
        r == names_view(set@).contains(name@),
{
    let ghost sv = names_view(set@);
    let n = string_chars(name);
    let mut i: usize = 0;
    while i < set.len()
        invariant
            i <= set.len(),
            sv == names_view(set@),
            n@ == name@,
            forall|k: int| 0 <= k < i ==> sv[k] != name@,
        decreases set.len() - i,
    {
        if chars_equal(&string_chars(&set[i]), &n) {
            assert(sv[i as int] == name@);
            return true;
        }
        i = i + 1;
    }
    false
}

/// A name that is not in a list without repetition can be added to it
/// without making a repetition.
proof fn lemma_push_fresh(s: Seq<Seq<char>>, x: Seq<char>)
    requires
        s.no_duplicates(),
        !s.contains(x),
    ensures
        s.push(x).no_duplicates(),
{
    let t = s.push(x);
    assert forall|i: int, j: int| 0 <= i < t.len() && 0 <= j < t.len() && i != j implies t[i] != t[j] by {
        if i == s.len() {
            assert(s[j] == t[j]);
        } else if j == s.len() {
            assert(s[i] == t[i]);
        }
    }
}

/// An element of a list without repetition is not among those before it.
proof fn lemma_not_before(s: Seq<Seq<char>>, i: int)
    requires
        s.no_duplicates(),
        0 <= i < s.len(),
    ensures
        !s.take(i).contains(s[i]),
{
    if s.take(i).contains(s[i]) {
        let j = choose|j: int| 0 <= j < i && s.take(i)[j] == s[i];
        assert(s[j] == s[i]);
    }
}

/// Adds `name` to `set`, unless it is there already.
pub fn insert_name(set: &mut Vec<String>, name: &String)
    requires
        names_view(old(set)@).no_duplicates(),
    ensures
        names_view(final(set)@).no_duplicates(),
        names_view(final(set)@).to_set() == names_view(old(set)@).to_set().insert(name@),
{
    let ghost before = names_view(set@);
    if !has_name(set, name) {
        set.push(copy_name(name));
        assert(names_view(set@) =~= before.push(name@));
        proof {
            lemma_push_fresh(before, name@);
            before.lemma_push_to_set_commute(name@);
        }
    } else {
        assert(before.to_set().contains(name@));
        assert(before.to_set().insert(name@) =~= before.to_set());
    }
}

/// Removes `name` from `set`.
pub fn remove_name(set: &mut Vec<String>, name: &String)
    requires
        names_view(old(set)@).no_duplicates(),
    ensures
        names_view(final(set)@).no_duplicates(),
        names_view(final(set)@).to_set() == names_view(old(set)@).to_set().remove(name@),
{
    let ghost before = names_view(set@);
    let n = string_chars(name);
    let mut kept: Vec<String> = Vec::new();
    let mut i: usize = 0;
    assert(names_view(kept@) =~= seq![]);
    while i < set.len()
        invariant
            i <= set.len(),
            before == names_view(set@),
            before.no_duplicates(),
            n@ == name@,
            names_view(kept@).no_duplicates(),
            forall|x: Seq<char>|
                #[trigger] names_view(kept@).contains(x) <==> (before.take(i as int).contains(x) && x
                    != name@),
        decreases set.len() - i,
    {
        assert(before.take(i + 1) =~= before.take(i as int).push(before[i as int]));
        proof {
            lemma_not_before(before, i as int);
        }
        let ghost k0 = names_view(kept@);
        let ghost t = before.take(i as int);
        let ghost b = before[i as int];
        if !chars_equal(&string_chars(&set[i]), &n) {
            kept.push(copy_name(&set[i]));
            assert(names_view(kept@) =~= k0.push(b));
            proof {
                lemma_push_fresh(k0, b);
            }
            assert forall|x: Seq<char>| #[trigger] names_view(kept@).contains(x) <==> (t.push(b).contains(x) && x != name@) by {
                vstd::seq_lib::lemma_seq_contains_after_push(k0, b, x);
                vstd::seq_lib::lemma_seq_contains_after_push(t, b, x);
            }
        } else {
            assert forall|x: Seq<char>| #[trigger] names_view(kept@).contains(x) <==> (t.push(b).contains(x) && x != name@) by {
                vstd::seq_lib::lemma_seq_contains_after_push(t, b, x);
            }
        }
        i = i + 1;
    }
    assert(before.take(set.len() as int) =~= before);
    *set = kept;
    assert(names_view(set@).to_set() =~= before.to_set().remove(name@));
}

/// A copy of a list of names.
pub fn copy_names(v: &Vec<String>) -> (r: Vec<String>)
    ensures
        names_view(r@) == names_view(v@),
{
    let mut r: Vec<String> = Vec::new();
    let mut i: usize = 0;
    while i < v.len()
        invariant
            i <= v.len(),
            names_view(r@) == names_view(v@).take(i as int),
        decreases v.len() - i,
    {
        let ghost prev = r@;
        r.push(copy_name(&v[i]));
        assert(names_view(r@) =~= names_view(prev).push(v@[i as int]@));
        assert(names_view(v@).take(i + 1) =~= names_view(v@).take(i as int).push(v@[i as int]@));
        i = i + 1;
    }
    assert(names_view(v@).take(v.len() as int) =~= names_view(v@));
    r
}

} // verus!
