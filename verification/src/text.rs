//! Small operations on texts, stated over their characters.

use vstd::prelude::*;
use vstd::string::*;

verus! {

/// The characters of each text of a list, in order.
pub open spec fn texts(list: Seq<String>) -> Seq<Seq<char>> {
    Seq::new(list.len(), |i: int| list[i]@)
}

/// Whether two texts hold the same characters.
pub fn same_text(a: &str, b: &str) -> (r: bool)
    ensures
        r == (a@ == b@),
{
    let left = a.to_owned();
    let right = b.to_owned();
    left == right
}

/// A fresh copy of a text.
pub fn copy_text(text: &str) -> (r: String)
    ensures
        r@ == text@,
{
    text.to_owned()
}

/// A fresh copy of a list of texts.
pub fn copy_texts(list: &Vec<String>) -> (r: Vec<String>)
    ensures
        texts(r@) == texts(list@),
{
    let mut out: Vec<String> = Vec::new();
    let mut i: usize = 0;
    while i < list.len()
        invariant
            i <= list.len(),
            out.len() == i,
            forall|k: int| 0 <= k < i ==> out[k]@ == list[k]@,
        decreases list.len() - i,
    {
        out.push(list[i].clone());
        i = i + 1;
    }
    out
}

/// The greatest position at which a text occurs in a list, if it occurs.
pub open spec fn last_index(list: Seq<Seq<char>>, text: Seq<char>) -> Option<int>
    decreases list.len(),
{
    if list.len() == 0 {
        None
    } else if list.last() == text {
        Some(list.len() - 1)
    } else {
        last_index(list.drop_last(), text)
    }
}

/// What [`last_index`] finds: the text stands at the position found and
/// nowhere after it, and where nothing is found the text is not in the list.
pub proof fn lemma_last_index(list: Seq<Seq<char>>, text: Seq<char>)
    ensures
        match last_index(list, text) {
            Some(i) => {
                &&& 0 <= i < list.len()
                &&& list[i] == text
                &&& forall|j: int| i < j < list.len() ==> list[j] != text
            },
            None => forall|j: int| 0 <= j < list.len() ==> list[j] != text,
        },
    decreases list.len(),
{
    if list.len() > 0 && list.last() != text {
        let front = list.drop_last();
        lemma_last_index(front, text);
        assert(forall|j: int| 0 <= j < front.len() ==> front[j] == list[j]);
    }
}

/// Whether no text stands at two positions of a list.
pub open spec fn distinct(list: Seq<Seq<char>>) -> bool {
    forall|i: int, j: int| 0 <= i < j < list.len() ==> list[i] != list[j]
}

/// The path of an entry of a directory: the directory, a slash, the entry.
pub open spec fn join_spec(dir: Seq<char>, leaf: Seq<char>) -> Seq<char> {
    dir + seq!['/'] + leaf
}

/// The path of an entry of a directory.
pub fn join(dir: &str, leaf: &str) -> (r: String)
    ensures
        r@ == join_spec(dir@, leaf@),
{
    proof {
        reveal_strlit("/");
    }
    let mut out = dir.to_owned();
    out.append("/");
    out.append(leaf);
    out
}

} // verus!
