//! What the library hands to the program around it: the image format of an
//! output file.

use vstd::prelude::*;
use crate::text::to_chars;

verus! {

/// The image formats that a drawing can be saved in.
#[derive(Debug, PartialEq, Eq, Clone, Copy, Structural)]
pub enum ImageFormat {
    Svg,
    Png,
}

impl ImageFormat {
    /// The format that a file extension names: exactly `svg` or `png`.
    pub fn from_extension(ext: &str) -> (r: Option<ImageFormat>)
        ensures
            r == (if ext@ == seq!['s', 'v', 'g'] {
                Some(ImageFormat::Svg)
            } else if ext@ == seq!['p', 'n', 'g'] {
                Some(ImageFormat::Png)
            } else {
                None
            }),
    {
        let c = to_chars(ext);
        if same(&c, &vec!['s', 'v', 'g']) {
            Some(ImageFormat::Svg)
        } else if same(&c, &vec!['p', 'n', 'g']) {
            Some(ImageFormat::Png)
        } else {
            None
        }
    }
}

fn same(a: &Vec<char>, b: &Vec<char>) -> (r: bool)
    ensures
        r == (a@ == b@),
{
    if a.len() != b.len() {
        return false;
    }
    let mut i: usize = 0;
    while i < a.len()
        invariant
            a.len() == b.len(),
            i <= a.len(),
            forall|j: int| 0 <= j < i ==> a@[j] == b@[j],
        decreases a.len() - i,
    {
        if a[i] != b[i] {
            return false;
        }
        i += 1;
    }
    assert(a@ =~= b@);
    true
}

} // verus!
