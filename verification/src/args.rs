//! Looking things up in the arguments of a command line: the value that
//! follows an option, whether an option is there, and the command.

use vstd::prelude::*;

verus! {

/// Whether `arg` is the option, in its long or in its short form.
pub open spec fn is_option(arg: Seq<char>, long: Seq<char>, short: Seq<char>) -> bool {
    arg == long || arg == short
}

/// Whether `i` is the place of the first argument that is the option.
pub open spec fn is_first_option(args: Seq<String>, long: Seq<char>, short: Seq<char>, i: int) -> bool {
    &&& 0 <= i < args.len()
    &&& is_option(args[i]@, long, short)
    &&& forall|j: int| 0 <= j < i ==> !is_option(#[trigger] args[j]@, long, short)
}

/// The argument that follows the first occurrence of the option, or `None`
/// where the option is not there or nothing follows it.
pub fn arg_value(args: &Vec<String>, long: &str, short: &str) -> (r: Option<String>)
    ensures
        match r {
            Some(value) => exists|i: int|
                is_first_option(args@, long@, short@, i) && i + 1 < args.len() && value
                    == args[i + 1],
            None => forall|i: int|
                is_first_option(args@, long@, short@, i) ==> i + 1 == args.len(),
        },
{
    let long_form = long.to_owned();
    let short_form = short.to_owned();
    let mut i: usize = 0;
    while i < args.len()
        invariant
            i <= args.len(),
            long_form@ == long@,
            short_form@ == short@,
            forall|j: int| 0 <= j < i ==> !is_option(#[trigger] args[j]@, long@, short@),
        decreases args.len() - i,
    {
        if args[i] == long_form || args[i] == short_form {
            assert(is_first_option(args@, long@, short@, i as int));
            assert forall|k: int| is_first_option(args@, long@, short@, k) implies k == i by {
                if k < i {
                    assert(!is_option(args[k]@, long@, short@));
                } else if k > i {
                    assert(!is_option(args[i as int]@, long@, short@));
                }
            }
            if i + 1 < args.len() {
                return Some(args[i + 1].clone());
            } else {
                return None;
            }
        }
        i = i + 1;
    }
    None
}

/// Whether the option is among the arguments.
pub fn exist_arg(args: &Vec<String>, long: &str, short: &str) -> (r: bool)
    ensures
        r == exists|i: int| 0 <= i < args.len() && is_option(#[trigger] args[i]@, long@, short@),
{
    let long_form = long.to_owned();
    let short_form = short.to_owned();
    let mut i: usize = 0;
    while i < args.len()
        invariant
            i <= args.len(),
            long_form@ == long@,
            short_form@ == short@,
            forall|j: int| 0 <= j < i ==> !is_option(#[trigger] args[j]@, long@, short@),
        decreases args.len() - i,
    {
        if args[i] == long_form || args[i] == short_form {
            assert(is_option(args[i as int]@, long@, short@));
            return true;
        }
        i = i + 1;
    }
    false
}

/// The command: the argument that follows the name of the program.
pub fn command(args: &Vec<String>) -> (r: Option<String>)
    ensures
        r == if args.len() > 1 {
            Some(args[1])
        } else {
            None
        },
{
    if args.len() > 1 {
        Some(args[1].clone())
    } else {
        None
    }
}

} // verus!
