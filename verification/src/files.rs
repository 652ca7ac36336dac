//! Which files are containers, going by the extension of their names.

use vstd::prelude::*;
use vstd::string::StrSliceExecFns;

verus! {

/// `extension` spells `ncm`, in upper or lower case or a mix of both.
pub open spec fn spells_ncm(extension: Seq<char>) -> bool {
    &&& extension.len() == 3
    &&& (extension[0] == 'n' || extension[0] == 'N')
    &&& (extension[1] == 'c' || extension[1] == 'C')
    &&& (extension[2] == 'm' || extension[2] == 'M')
}

/// Tells whether a file with this extension (given without the dot) is
/// taken for a container.
pub fn is_ncm_extension(extension: &str) -> (yes: bool)
    ensures
        yes == spells_ncm(extension@),
{
    if extension.unicode_len() != 3 {
        return false;
    }
    let first = extension.get_char(0);
    let second = extension.get_char(1);
    let third = extension.get_char(2);
    (first == 'n' || first == 'N') && (second == 'c' || second == 'C') && (third == 'm' || third
        == 'M')
}

} // verus!
