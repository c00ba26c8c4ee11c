use vstd::prelude::*;
use vstd::string::*;
use crate::args::tokens;

verus! {

/// The global flags, each set on its own.
#[derive(Clone, Copy, PartialEq, Eq, Structural, Debug, Default)]
pub struct RunmanyOptions {
    pub help: bool,
    pub version: bool,
    pub no_color: bool,
}

/// The options that an options group asks for: a flag is set when any of
/// its spellings stands anywhere in the group. Other tokens are ignored.
pub open spec fn options_of(a: Seq<Seq<char>>) -> RunmanyOptions {
    RunmanyOptions {
        help: a.contains("-h"@) || a.contains("--help"@),
        version: a.contains("-v"@) || a.contains("--version"@),
        no_color: a.contains("--no-color"@),
    }
}

/// Whether `token` is one of the arguments.
fn contains_token(args: &Vec<String>, token: &str) -> (r: bool)
    ensures
        r == tokens(args@).contains(token@),
{
    let t = String::from_str(token);
    let mut i: usize = 0;
    while i < args.len()
        invariant
            0 <= i <= args.len(),
            t@ == token@,
            forall|j: int| 0 <= j < i ==> args@[j]@ != token@,
        decreases args.len() - i,
    {
        if args[i] == t {
            assert(tokens(args@)[i as int] == token@);
            return true;
        }
        i = i + 1;
    }
    proof {
        if tokens(args@).contains(token@) {
            let j = choose|j: int| 0 <= j < tokens(args@).len() && tokens(args@)[j] == token@;
            assert(args@[j]@ == token@);
        }
    }
    false
}

/// Reads the global flags out of the options group.
pub fn runmany_args_to_options(args: &Vec<String>) -> (r: RunmanyOptions)
    ensures
        r == options_of(tokens(args@)),
{
    let help = contains_token(args, "-h") || contains_token(args, "--help");
    let version = contains_token(args, "-v") || contains_token(args, "--version");
    let no_color = contains_token(args, "--no-color");
    RunmanyOptions { help, version, no_color }
}

/// Options do not depend on the order or the position of the tokens: two
/// groups that hold the same tokens give the same options.
pub proof fn lemma_options_ignore_order(a: Seq<Seq<char>>, b: Seq<Seq<char>>)
    requires
        forall|t: Seq<char>| a.contains(t) <==> b.contains(t),
    ensures
        options_of(a) == options_of(b),
{
}

/// A group in which no token is a known flag gives all-false options.
pub proof fn lemma_unknown_tokens_ignored(a: Seq<Seq<char>>)
    requires
        !a.contains("-h"@),
        !a.contains("--help"@),
        !a.contains("-v"@),
        !a.contains("--version"@),
        !a.contains("--no-color"@),
    ensures
        options_of(a) == (RunmanyOptions { help: false, version: false, no_color: false }),
{
}

} // verus!
