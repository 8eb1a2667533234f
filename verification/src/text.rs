//! Text: comparing and joining strings, and what structured values say as plain
//! sequences.

use vstd::prelude::*;
use vstd::string::StringExecFns;

verus! {

/// The views of the elements of `s`, in their order.
pub open spec fn views<T: View>(s: Seq<T>) -> Seq<T::V> {
    Seq::new(s.len(), |i: int| s[i]@)
}

/// The view of what `o` holds, if it holds anything.
pub open spec fn view_of<T: View>(o: Option<T>) -> Option<T::V> {
    match o {
        Some(t) => Some(t@),
        None => None,
    }
}

/// The character `c`, as a small letter where it is a capital letter of ASCII.
pub open spec fn ascii_lower(c: char) -> char {
    if 'A' <= c <= 'Z' {
        ((c as u32 + 32) as u32) as char
    } else {
        c
    }
}

/// Whether `a` and `b` are the same text up to the case of the letters of ASCII.
pub open spec fn same_but_for_ascii_case(a: Seq<char>, b: Seq<char>) -> bool {
    &&& a.len() == b.len()
    &&& forall|i: int| 0 <= i < a.len() ==> ascii_lower(#[trigger] a[i]) == ascii_lower(b[i])
}

/// `str::eq_ignore_ascii_case` of the standard library: whether two strings match
/// when the capital letters A to Z count as the small letters a to z and every
/// other character counts as itself.
pub assume_specification[ str::eq_ignore_ascii_case ](a: &str, b: &str) -> (r: bool)
    ensures
        r == same_but_for_ascii_case(a@, b@),
;

/// Whether two strings that may be missing are both missing or hold the same text.
pub fn same_text(a: &Option<String>, b: &Option<String>) -> (r: bool)
    ensures
        r == (view_of(*a) == view_of(*b)),
{
    match (a, b) {
        (Some(x), Some(y)) => *x == *y,
        (None, None) => true,
        _ => false,
    }
}

/// Whether `text` is one of `list`.
pub fn contains_text(list: &Vec<String>, text: &String) -> (r: bool)
    ensures
        r == views(list@).contains(text@),
{
    let mut i: usize = 0;
    while i < list.len()
        invariant
            i <= list.len(),
            forall|j: int| 0 <= j < i ==> #[trigger] views(list@)[j] != text@,
        decreases list.len() - i,
    {
        if list[i] == *text {
            assert(views(list@)[i as int] == text@);
            return true;
        }
        i = i + 1;
    }
    false
}

/// A copy of `list`.
pub fn copied_texts(list: &Vec<String>) -> (r: Vec<String>)
    ensures
        views(r@) == views(list@),
{
    let r: Vec<String> = list.clone();
    assert(views(r@) =~= views(list@));
    r
}

/// `a` followed by `b`.
pub fn followed_by(a: &str, b: &str) -> (r: String)
    ensures
        r@ == a@ + b@,
{
    let mut r: String = a.to_owned();
    r.append(b);
    r
}

/// `a` followed by `b` and `c`.
pub fn joined(a: &str, b: &str, c: &str) -> (r: String)
    ensures
        r@ == a@ + b@ + c@,
{
    let mut r: String = followed_by(a, b);
    r.append(c);
    r
}

/// The views of a list are the views of its elements, one for each, in their order.
pub proof fn views_are_of_each_element<T: View>(s: Seq<T>, i: int)
    ensures
        views(s).len() == s.len(),
        0 <= i < s.len() ==> views(s)[i] == s[i]@,
{
}

/// The view of something that may be missing is missing exactly where it is.
pub proof fn view_is_missing_where_the_value_is<T: View>(o: Option<T>)
    ensures
        o is None <==> view_of(o) is None,
        o matches Some(t) ==> view_of(o) == Some(t@),
{
}

/// Case does not matter in ASCII, and nothing else is overlooked: texts that agree up to
/// case are equally long, and where they differ one has the capital of the other's letter.
pub proof fn only_case_is_overlooked(a: &str, b: &str, r: bool)
    requires
        call_ensures(str::eq_ignore_ascii_case, (a, b), r),
    ensures
        a@ == b@ ==> r,
        r ==> a@.len() == b@.len(),
        r ==> forall|i: int|
            0 <= i < a@.len() && #[trigger] a@[i] != b@[i] ==> {
                ||| 'A' <= a@[i] <= 'Z' && b@[i] as int == a@[i] as int + 32
                ||| 'A' <= b@[i] <= 'Z' && a@[i] as int == b@[i] as int + 32
            },
{
}

/// A list contains a text exactly where one of its elements is that text.
pub proof fn contained_texts_are_elements(list: &Vec<String>, text: &String, r: bool)
    requires
        call_ensures(contains_text, (list, text), r),
    ensures
        r <==> exists|i: int| 0 <= i < list@.len() && (#[trigger] list@[i])@ == text@,
{
    if r {
        let i = choose|i: int| 0 <= i < views(list@).len() && views(list@)[i] == text@;
        assert(list@[i]@ == text@);
    }
    if exists|i: int| 0 <= i < list@.len() && (#[trigger] list@[i])@ == text@ {
        let i = choose|i: int| 0 <= i < list@.len() && (#[trigger] list@[i])@ == text@;
        assert(views(list@)[i] == text@);
    }
}

} // verus!
