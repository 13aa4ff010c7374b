//! The decisions of the command line: which option an argument names, what
//! the arguments ask for, and the text of the help message.
use vstd::prelude::*;
use vstd::string::StringExecFns;
use crate::text::{str_chars, string_from_chars};

verus! {

/// A command-line option: its short and long spelling and what it does.
#[derive(Debug)]
pub struct ArgOption {
    pub short: String,
    pub long: String,
    pub description: Option<String>,
}

/// The options the interpreter knows, in the order they are listed.
pub enum OptionKind {
    Help,
    Version,
    Debug,
}

/// What the command line asks for.
#[derive(Debug)]
pub enum CliAction {
    /// Print the help message.
    Help,
    /// Print the version.
    Version,
    /// Report an argument that names no option.
    Invalid(String),
    /// Report that more than one file was named.
    MultipleFiles,
    /// Run the file named, or read lines interactively where none is.
    Run { file_path: Option<String>, debug: bool },
}

/// The content of a command-line decision.
pub enum CliActionV {
    Help,
    Version,
    Invalid(Seq<char>),
    MultipleFiles,
    Run { file_path: Option<Seq<char>>, debug: bool },
}

impl View for CliAction {
    type V = CliActionV;

    open spec fn view(&self) -> CliActionV {
        match self {
            CliAction::Help => CliActionV::Help,
            CliAction::Version => CliActionV::Version,
            CliAction::Invalid(a) => CliActionV::Invalid(a@),
            CliAction::MultipleFiles => CliActionV::MultipleFiles,
            CliAction::Run { file_path, debug } => CliActionV::Run {
                file_path: match file_path {
                    Some(p) => Some(p@),
                    None => None,
                },
                debug: *debug,
            },
        }
    }
}

/// The option an argument spells, by its short or its long form.
pub open spec fn option_named(a: Seq<char>) -> Option<OptionKind> {
    if a == "-h"@ || a == "--help"@ {
        Some(OptionKind::Help)
    } else if a == "-v"@ || a == "--version"@ {
        Some(OptionKind::Version)
    } else if a == "-d"@ || a == "--debug"@ {
        Some(OptionKind::Debug)
    } else {
        None
    }
}

/// What the arguments `args[i..]` ask for, after a file `file` and the debug
/// switch `debug` were read: an argument that starts with `-` is an option,
/// any other names the file to run.
pub open spec fn decide(args: Seq<Seq<char>>, i: int, file: Option<Seq<char>>, debug: bool) -> CliActionV
    decreases args.len() - i,
{
    if i < 0 || i >= args.len() {
        CliActionV::Run { file_path: file, debug }
    } else {
        let a = args[i];
        if a.len() > 0 && a[0] == '-' {
            match option_named(a) {
                Some(OptionKind::Help) => CliActionV::Help,
                Some(OptionKind::Version) => CliActionV::Version,
                Some(OptionKind::Debug) => decide(args, i + 1, file, true),
                None => CliActionV::Invalid(a),
            }
        } else if file is None {
            decide(args, i + 1, Some(a), debug)
        } else {
            CliActionV::MultipleFiles
        }
    }
}

/// Whether an argument names a file: it is not empty and does not start
/// with `-`.
pub open spec fn is_file_arg(a: Seq<char>) -> bool {
    a.len() > 0 && a[0] != '-'
}

/// What the command line decides, argument by argument: no argument runs the
/// interactive mode; one file name runs that file; `-d` or `--debug`, before
/// or after it, switches on the debug mode; a second file name is refused;
/// `-h` and `-v` (or `--help` and `--version`) ask for the help and the
/// version whatever follows; an argument that starts with `-` and names no
/// option is reported as it is.
pub proof fn law_command_line(f: Seq<char>, g: Seq<char>, x: Seq<char>, rest: Seq<Seq<char>>)
    requires
        is_file_arg(f),
        is_file_arg(g),
        x.len() > 0 && x[0] == '-' && option_named(x) is None,
    ensures
        decide(Seq::empty(), 0, None, false) == (CliActionV::Run { file_path: None, debug: false }),
        decide(seq![f], 0, None, false) == (CliActionV::Run { file_path: Some(f), debug: false }),
        decide(seq!["--debug"@, f], 0, None, false) == (CliActionV::Run { file_path: Some(f), debug: true }),
        decide(seq![f, "-d"@], 0, None, false) == (CliActionV::Run { file_path: Some(f), debug: true }),
        decide(seq![f, g], 0, None, false) == CliActionV::MultipleFiles,
        decide(seq!["-h"@] + rest, 0, None, false) == CliActionV::Help,
        decide(seq!["--help"@] + rest, 0, None, false) == CliActionV::Help,
        decide(seq!["-v"@] + rest, 0, None, false) == CliActionV::Version,
        decide(seq!["--version"@] + rest, 0, None, false) == CliActionV::Version,
        decide(seq![x] + rest, 0, None, false) == CliActionV::Invalid(x),
{
    reveal_strlit("-h");
    reveal_strlit("--help");
    reveal_strlit("-v");
    reveal_strlit("--version");
    reveal_strlit("-d");
    reveal_strlit("--debug");
    assert((seq!["-h"@] + rest)[0] == "-h"@);
    assert((seq!["--help"@] + rest)[0] == "--help"@);
    assert((seq!["-v"@] + rest)[0] == "-v"@);
    assert((seq!["--version"@] + rest)[0] == "--version"@);
    assert((seq![x] + rest)[0] == x);
    assert(f != "-h"@ && f != "--help"@ && f != "-v"@ && f != "--version"@ && f != "-d"@ && f != "--debug"@);
    assert(decide(seq![f], 1, Some(f), false) == (CliActionV::Run { file_path: Some(f), debug: false }));
    let dbg = seq!["--debug"@, f];
    assert(dbg[0] == "--debug"@ && dbg[1] == f);
    assert(decide(dbg, 2, Some(f), true) == (CliActionV::Run { file_path: Some(f), debug: true }));
    assert(decide(dbg, 1, None, true) == decide(dbg, 2, Some(f), true));
    assert("-d"@ != "-h"@ && "-d"@ != "--help"@ && "-d"@ != "-v"@ && "-d"@ != "--version"@) by {
        assert("-d"@[1] != "-h"@[1] && "-d"@[1] != "--help"@[1] && "-d"@[1] != "-v"@[1]);
        assert("-d"@.len() != "--version"@.len());
    }
    assert(option_named("-d"@) == Some(OptionKind::Debug));
    let fg = seq![f, g];
    assert(fg[0] == f && fg[1] == g);
    assert(decide(fg, 1, Some(f), false) == CliActionV::MultipleFiles);
    let fd = seq![f, "-d"@];
    assert(fd[0] == f && fd[1] == "-d"@);
    assert(decide(fd, 2, Some(f), true) == (CliActionV::Run { file_path: Some(f), debug: true }));
    assert(decide(fd, 1, Some(f), false) == decide(fd, 2, Some(f), true));
}

/// The texts of a list of arguments.
pub open spec fn args_view(args: Seq<String>) -> Seq<Seq<char>> {
    args.map_values(|a: String| a@)
}

/// The options the interpreter knows, each with its description.
pub fn arg_options() -> (r: Vec<ArgOption>)
    ensures
        r@.len() == 3,
        r@[0].short@ == "-h"@ && r@[0].long@ == "--help"@,
        r@[0].description matches Some(d) && d@ == "Show this help message"@,
        r@[1].short@ == "-v"@ && r@[1].long@ == "--version"@,
        r@[1].description matches Some(d) && d@ == "Show version information"@,
        r@[2].short@ == "-d"@ && r@[2].long@ == "--debug"@,
        r@[2].description matches Some(d) && d@ == "Enable debug mode"@,
{
    let mut r: Vec<ArgOption> = Vec::new();
    r.push(ArgOption {
        short: String::from_str("-h"),
        long: String::from_str("--help"),
        description: Some(String::from_str("Show this help message")),
    });
    r.push(ArgOption {
        short: String::from_str("-v"),
        long: String::from_str("--version"),
        description: Some(String::from_str("Show version information")),
    });
    r.push(ArgOption {
        short: String::from_str("-d"),
        long: String::from_str("--debug"),
        description: Some(String::from_str("Enable debug mode")),
    });
    r
}

/// Which option an argument names.
fn find_option(a: &String) -> (r: Option<OptionKind>)
    ensures
        r == option_named(a@),
{
    let h = String::from_str("-h");
    let help = String::from_str("--help");
    let v = String::from_str("-v");
    let version = String::from_str("--version");
    let d = String::from_str("-d");
    let debug = String::from_str("--debug");
    if *a == h || *a == help {
        Some(OptionKind::Help)
    } else if *a == v || *a == version {
        Some(OptionKind::Version)
    } else if *a == d || *a == debug {
        Some(OptionKind::Debug)
    } else {
        None
    }
}

/// What the command line asks for; `args[0]` is the program's name.
pub fn parse_args(args: &Vec<String>) -> (r: CliAction)
    requires
        args@.len() >= 1,
    ensures
        r@ == decide(args_view(args@), 1, None, false),
{
    let ghost av = args_view(args@);
    let mut file_path: Option<String> = None;
    let mut debug = false;
    let mut i: usize = 1;
    while i < args.len()
        invariant
            1 <= i <= args@.len(),
            av == args_view(args@),
            decide(av, i as int, match file_path {
                Some(p) => Some(p@),
                None => None,
            }, debug) == decide(av, 1, None, false),
        decreases args.len() - i,
    {
        let arg = &args[i];
        assert(av[i as int] == arg@);
        let chars = str_chars(arg.as_str());
        if chars.len() > 0 && chars[0] == '-' {
            match find_option(arg) {
                Some(OptionKind::Help) => {
                    return CliAction::Help;
                },
                Some(OptionKind::Version) => {
                    return CliAction::Version;
                },
                Some(OptionKind::Debug) => {
                    debug = true;
                },
                None => {
                    return CliAction::Invalid(arg.clone());
                },
            }
        } else if file_path.is_none() {
            file_path = Some(arg.clone());
        } else {
            return CliAction::MultipleFiles;
        }
        i += 1;
    }
    CliAction::Run { file_path, debug }
}

/// `s` followed by spaces up to `width` characters, as `{:<width}` writes it.
pub open spec fn padded(s: Seq<char>, width: nat) -> Seq<char> {
    if s.len() >= width {
        s
    } else {
        s + Seq::new((width - s.len()) as nat, |i: int| ' ')
    }
}

/// Padding keeps the text at the start, is as long as the text or the width,
/// whichever is longer, and adds only spaces.
pub proof fn law_padding(s: Seq<char>, width: nat)
    ensures
        padded(s, width).len() == if s.len() >= width {
            s.len()
        } else {
            width
        },
        padded(s, width).subrange(0, s.len() as int) == s,
        forall|k: int| s.len() <= k < padded(s, width).len() ==> #[trigger] padded(s, width)[k] == ' ',
{
    assert(padded(s, width).subrange(0, s.len() as int) =~= s);
}

/// `s` followed by spaces up to `width` characters.
fn pad_right(s: &String, width: usize) -> (r: String)
    ensures
        r@ == padded(s@, width as nat),
{
    let mut v = str_chars(s.as_str());
    let ghost base = v@;
    if v.len() >= width {
        return s.clone();
    }
    while v.len() < width
        invariant
            base.len() <= v@.len() <= width,
            v@ == base + Seq::new((v@.len() - base.len()) as nat, |i: int| ' '),
        decreases width - v.len(),
    {
        let ghost before = v@;
        v.push(' ');
        assert(v@ =~= base + Seq::new((v@.len() - base.len()) as nat, |i: int| ' '));
    }
    string_from_chars(&v)
}

/// The line of the help message for an option: two spaces, `short, long`
/// padded to twenty characters, and the description after a space where
/// there is one.
pub open spec fn option_line(short: Seq<char>, long: Seq<char>, description: Option<Seq<char>>) -> Seq<char> {
    let names = short + ", "@ + long;
    match description {
        Some(d) => "  "@ + padded(names, 20) + " "@ + d,
        None => "  "@ + padded(names, 20),
    }
}

/// The help message's line for each option, in order.
pub fn option_lines(options: &Vec<ArgOption>) -> (r: Vec<String>)
    ensures
        r@.len() == options@.len(),
        forall|i: int| 0 <= i < options@.len() ==> (#[trigger] r@[i])@ == option_line(
            options@[i].short@,
            options@[i].long@,
            match options@[i].description {
                Some(d) => Some(d@),
                None => None,
            },
        ),
{
    let mut r: Vec<String> = Vec::new();
    let mut i: usize = 0;
    while i < options.len()
        invariant
            i <= options@.len(),
            r@.len() == i,
            forall|j: int| 0 <= j < i ==> (#[trigger] r@[j])@ == option_line(
                options@[j].short@,
                options@[j].long@,
                match options@[j].description {
                    Some(d) => Some(d@),
                    None => None,
                },
            ),
        decreases options.len() - i,
    {
        let opt = &options[i];
        let names = opt.short.clone().concat(", ").concat(opt.long.as_str());
        let line = match &opt.description {
            Some(d) => String::from_str("  ").concat(pad_right(&names, 20).as_str()).concat(" ").concat(d.as_str()),
            None => String::from_str("  ").concat(pad_right(&names, 20).as_str()),
        };
        r.push(line);
        i += 1;
    }
    r
}

} // verus!
