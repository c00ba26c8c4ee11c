use vstd::prelude::*;
use vstd::string::*;
use crate::args::{groups, parse_args, segments, tokens};
use crate::options::{options_of, runmany_args_to_options, RunmanyOptions};
use crate::printer::Printer;
use crate::text::{decimal, decimal_text, join_words, joined, signed_decimal, signed_decimal_text};

verus! {

/// The number of colours that the command slots cycle through.
pub const PALETTE_SIZE: usize = 5;

/// The colour names, by position in the palette.
pub open spec fn palette(i: nat) -> Seq<char> {
    if i == 0 {
        "green"@
    } else if i == 1 {
        "yellow"@
    } else if i == 2 {
        "blue"@
    } else if i == 3 {
        "magenta"@
    } else {
        "cyan"@
    }
}

/// The label of a command slot (counted from 1): `[slot]`.
pub open spec fn slot_label(slot: nat) -> Seq<char> {
    seq!['['] + decimal(slot) + seq![']']
}

/// The colour name for the command at `index` (counted from 0).
pub fn palette_color(index: usize) -> (r: String)
    ensures
        r@ == palette((index % PALETTE_SIZE) as nat),
{
    let i = index % PALETTE_SIZE;
    if i == 0 {
        String::from_str("green")
    } else if i == 1 {
        String::from_str("yellow")
    } else if i == 2 {
        String::from_str("blue")
    } else if i == 3 {
        String::from_str("magenta")
    } else {
        String::from_str("cyan")
    }
}

/// The printer for the command at `index` (counted from 0), writing after
/// `writer`: labelled with its slot and coloured from the palette, or plain,
/// with no label and no colour, where colour is suppressed.
pub fn slot_printer(index: usize, options: &RunmanyOptions, writer: String) -> (r: Printer)
    requires
        index < usize::MAX,
    ensures
        r.writer@ == writer@,
        options.no_color ==> r.prefix@ == Seq::<char>::empty() && r.color is None,
        !options.no_color ==> r.prefix@ == slot_label(index as nat + 1) && r.color is Some
            && r.color.unwrap()@ == palette((index % PALETTE_SIZE) as nat),
{
    let printer = Printer::new(writer);
    if options.no_color {
        printer
    } else {
        let digits = decimal_text(index as u64 + 1);
        proof {
            reveal_strlit("[");
            reveal_strlit("]");
        }
        let label = String::from_str("[").concat(digits.as_str()).concat("]");
        assert(label@ =~= slot_label(index as nat + 1));
        printer.set_color(palette_color(index)).set_prefix(label)
    }
}

/// The line that announces a command: `Spawning command: "<words>"`.
pub open spec fn announcement_line(command: Seq<Seq<char>>) -> Seq<char> {
    "Spawning command: \""@ + joined(command) + "\""@
}

/// The line that reports how a command ended.
pub open spec fn status_line(success: bool, code: Option<i32>) -> Seq<char> {
    if success {
        "Command finished successfully"@
    } else {
        "Command exited with status: "@ + match code {
            Some(c) => signed_decimal(c as int),
            None => "unknown"@,
        }
    }
}

/// Announces a command, with its words joined by single spaces.
pub fn announcement(command: &Vec<String>) -> (r: String)
    ensures
        r@ == announcement_line(tokens(command@)),
{
    let words = join_words(command);
    String::from_str("Spawning command: \"").concat(words.as_str()).concat("\"")
}

/// Reports how a command ended: successfully, or with its exit code, or
/// with `unknown` where it gave none.
pub fn status_report(success: bool, code: Option<i32>) -> (r: String)
    ensures
        r@ == status_line(success, code),
{
    if success {
        String::from_str("Command finished successfully")
    } else {
        let tail = match code {
            Some(c) => signed_decimal_text(c),
            None => String::from_str("unknown"),
        };
        String::from_str("Command exited with status: ").concat(tail.as_str())
    }
}

/// What a run does with its arguments.
pub enum RunPlan {
    Help,
    Version,
    Run(Vec<Vec<String>>, RunmanyOptions),
}

/// Decides what to do with the arguments (the program's own name taken
/// out): print the usage when there are none or help is asked for, else
/// print the version when it is asked for, else run the command groups
/// with the options of the options group.
pub fn plan_run(args: Vec<String>) -> (r: RunPlan)
    ensures
        args@.len() == 0 ==> r is Help,
        args@.len() > 0 ==> ({
            let s = segments(tokens(args@));
            let o = options_of(s[0]);
            &&& o.help ==> r is Help
            &&& !o.help && o.version ==> r is Version
            &&& !o.help && !o.version ==> (r matches RunPlan::Run(commands, options) && groups(commands@)
                == s.drop_first() && options == o)
        }),
{
    if args.len() == 0 {
        return RunPlan::Help;
    }
    let ghost s = segments(tokens(args@));
    let mut parsed = parse_args(args);
    assert(groups(parsed@).len() == parsed@.len());
    assert(s.len() >= 1);
    let ghost all = parsed@;
    let options_group = parsed.remove(0);
    let options = runmany_args_to_options(&options_group);
    assert(groups(all)[0] == tokens(all[0]@));
    assert(tokens(options_group@) == s[0]);
    if options.help {
        RunPlan::Help
    } else if options.version {
        RunPlan::Version
    } else {
        assert(groups(parsed@) =~= s.drop_first());
        RunPlan::Run(parsed, options)
    }
}

/// The version line: `v<version>`.
pub fn version_text(version: &str) -> (r: String)
    ensures
        r@ == "v"@ + version@,
{
    String::from_str("v").concat(version)
}

/// The usage text, one line break after each line.
pub open spec fn help_lines(version: Seq<char>) -> Seq<char> {
    "runmany - v"@ + version + "\n"@
        + "Easily run multiple long-running commands in parallel.\n"@
        + "\n"@
        + "Usage: runmany [RUNMANY FLAGS] [:: <COMMAND>] [:: <COMMAND>] [:: <COMMAND>]\n"@
        + "Example: runmany :: npm build:watch :: npm serve\n"@
        + "\n"@
        + "Flags:\n"@
        + "  -h, --help - print help\n"@
        + "  -v, --version - print version\n"@
        + "  --no-color - do not color command output\n"@
}

/// The usage text for the given version.
pub fn help_text(version: &str) -> (r: String)
    ensures
        r@ == help_lines(version@),
{
    let mut r = String::from_str("runmany - v");
    r.append(version);
    r.append("\n");
    r.append("Easily run multiple long-running commands in parallel.\n");
    r.append("\n");
    r.append("Usage: runmany [RUNMANY FLAGS] [:: <COMMAND>] [:: <COMMAND>] [:: <COMMAND>]\n");
    r.append("Example: runmany :: npm build:watch :: npm serve\n");
    r.append("\n");
    r.append("Flags:\n");
    r.append("  -h, --help - print help\n");
    r.append("  -v, --version - print version\n");
    r.append("  --no-color - do not color command output\n");
    r
}

} // verus!
