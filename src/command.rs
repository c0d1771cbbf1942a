//! External commands as plain values: the program and its arguments, which the
//! caller runs and whose exit status it reports back.
use vstd::prelude::*;

verus! {

pub struct CommandLine {
    pub program: String,
    pub args: Vec<String>,
    /// Environment variables set for the command, as name and value.
    pub env: Vec<(String, String)>,
}

pub open spec fn views(v: Seq<String>) -> Seq<Seq<char>> {
    v.map_values(|s: String| s@)
}

pub open spec fn str_views(v: Seq<&str>) -> Seq<Seq<char>> {
    v.map_values(|s: &str| s@)
}

/// Owned copies of `words`.
pub fn owned(words: &Vec<&str>) -> (r: Vec<String>)
    ensures
        views(r@) == str_views(words@),
{
    let mut r: Vec<String> = Vec::new();
    let mut i: usize = 0;
    while i < words.len()
        invariant
            i <= words@.len(),
            r@.len() == i,
            forall|j: int| 0 <= j < i ==> #[trigger] r@[j]@ == words@[j]@,
        decreases words@.len() - i,
    {
        r.push(String::from_str(words[i]));
        i += 1;
    }
    assert(views(r@) =~= str_views(words@));
    r
}

} // verus!
