//! Command-line flags of the `tee` utility.

use vstd::prelude::*;
use crate::text::equals;

verus! {

/// Whether an argument asks to append rather than truncate.
pub open spec fn is_append_flag(arg: Seq<char>) -> bool {
    arg == seq!['-', 'a'] || arg == seq!['-', '-', 'a', 'p', 'p', 'e', 'n', 'd']
}

/// Takes the first `-a` or `--append` out of `args`; returns whether there
/// was one. The other arguments keep their order.
pub fn should_append(args: &mut Vec<String>) -> (r: bool)
    ensures
        r == exists|i: int| 0 <= i < old(args)@.len() && is_append_flag(#[trigger] old(args)@[i]@),
        r ==> exists|i: int|
            0 <= i < old(args)@.len() && is_append_flag(#[trigger] old(args)@[i]@) && (forall|j: int|
                0 <= j < i ==> !is_append_flag(#[trigger] old(args)@[j]@)) && final(args)@ == old(
                args,
            )@.remove(i),
        !r ==> final(args)@ == old(args)@,
{
    let mut i: usize = 0;
    while i != args.len()
        invariant
            args@ == old(args)@,
            i <= args@.len(),
            forall|j: int| 0 <= j < i ==> !is_append_flag(#[trigger] args@[j]@),
        decreases args@.len() - i,
    {
        proof {
            reveal_strlit("-a");
            reveal_strlit("--append");
            assert("-a"@ =~= seq!['-', 'a']);
            assert("--append"@ =~= seq!['-', '-', 'a', 'p', 'p', 'e', 'n', 'd']);
        }
        if equals(args[i].as_str(), "-a") || equals(args[i].as_str(), "--append") {
            assert(is_append_flag(old(args)@[i as int]@));
            args.remove(i);
            return true;
        } else {
            i += 1;
        }
    }
    false
}

} // verus!
