use vstd::prelude::*;

verus! {

/// Builds the argument vector for one repository tool invocation: the
/// subcommand first, then its arguments in order.  Running the tool is
/// the surrounding program's concern.
pub fn git_args<'a>(command: &'a str, args: Vec<&'a str>) -> (r: Vec<&'a str>)
    ensures
        r@ == seq![command] + args@,
{
    let mut git_args: Vec<&'a str> = Vec::new();
    git_args.push(command);
    proof {
        assert(git_args@ =~= seq![command] + args@.take(0));
    }
    let mut i: usize = 0;
    while i < args.len()
        invariant
            i <= args@.len(),
            git_args@ == seq![command] + args@.take(i as int),
        decreases args@.len() - i,
    {
        git_args.push(args[i]);
        proof {
            assert(git_args@ =~= seq![command] + args@.take(i + 1));
        }
        i += 1;
    }
    proof {
        assert(args@.take(args@.len() as int) =~= args@);
    }
    git_args
}

} // verus!
