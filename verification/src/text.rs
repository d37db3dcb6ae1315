use vstd::prelude::*;

verus! {

/// The characters of each string of a list.
pub open spec fn texts(list: Seq<String>) -> Seq<Seq<char>> {
    list.map_values(|s: String| s@)
}

/// Whether two strings hold the same characters.
pub fn same_text(a: &String, b: &String) -> (same: bool)
    ensures
        same == (a@ == b@),
{
    *a == *b
}

/// Number of characters of a string.
pub fn char_count(s: &String) -> (n: usize)
    ensures
        n == s@.len(),
{
    s.as_str().unicode_len()
}

/// Whether `wanted` occurs in `list`.
pub fn contains_text(list: &Vec<String>, wanted: &String) -> (found: bool)
    ensures
        found == texts(list@).contains(wanted@),
{
    let mut i: usize = 0;
    while i < list.len()
        invariant
            i <= list.len(),
            forall|j: int| 0 <= j < i ==> texts(list@)[j] != wanted@,
        decreases list.len() - i,
    {
        if same_text(&list[i], wanted) {
            assert(texts(list@)[i as int] == wanted@);
            return true;
        }
        i += 1;
    }
    false
}

/// A copy of a list of strings.
pub fn clone_texts(list: &Vec<String>) -> (copy: Vec<String>)
    ensures
        copy@ == list@,
{
    let mut copy: Vec<String> = Vec::new();
    let mut i: usize = 0;
    while i < list.len()
        invariant
            i <= list.len(),
            copy@ == list@.subrange(0, i as int),
        decreases list.len() - i,
    {
        copy.push(list[i].clone());
        assert(copy@ == list@.subrange(0, i + 1));
        i += 1;
    }
    assert(list@.subrange(0, list@.len() as int) == list@);
    copy
}

} // verus!
