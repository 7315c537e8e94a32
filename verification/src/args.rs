//! Reading the command line.
//!
//! Each argument is looked at on its own. One that does not begin with a
//! hyphen, or is a single character, names a file. The others are options: a
//! switch turns its flag on, a request for help or an unknown option ends the
//! reading at once.

use crate::flags::Flags;
use vstd::prelude::*;
use vstd::string::StrSliceExecFns;

verus! {

/// What one argument of the command line is.
#[derive(Clone, Copy, Debug, PartialEq, Eq, Structural)]
pub enum ArgKind {
    /// The name of a file to read.
    File,
    /// The switch for line numbers.
    Number,
    /// The switch for squeezing empty lines.
    SqueezeBlank,
    /// The switch for the pause after each byte.
    Delay,
    /// The switch for the report on each chunk.
    Verbose,
    /// A request for the usage text.
    Help,
    /// An option that is not known.
    Invalid,
}

/// What the command line asks for.
#[derive(Clone, Debug, PartialEq, Eq)]
pub enum Invocation {
    /// Copy the files, in this order, under these flags; with no file, copy
    /// standard input.
    Run { flags: Flags, files: Vec<String> },
    /// Show the usage text and do nothing else.
    Help,
    /// Report this option as unknown and do nothing else.
    InvalidOption { option: String },
}

/// An `Invocation` with its texts as sequences of characters.
pub ghost enum InvocationView {
    Run { flags: Flags, files: Seq<Seq<char>> },
    Help,
    InvalidOption { option: Seq<char> },
}

impl View for Invocation {
    type V = InvocationView;

    open spec fn view(&self) -> InvocationView {
        match self {
            Invocation::Run { flags, files } => InvocationView::Run {
                flags: *flags,
                files: texts(files@),
            },
            Invocation::Help => InvocationView::Help,
            Invocation::InvalidOption { option } => InvocationView::InvalidOption {
                option: option@,
            },
        }
    }
}

/// The characters of each string of a list.
pub open spec fn texts(list: Seq<String>) -> Seq<Seq<char>> {
    list.map_values(|text: String| text@)
}

/// The argument names a file: it is at most one character long or does not
/// begin with a hyphen.
pub open spec fn is_file_name(arg: Seq<char>) -> bool {
    arg.len() <= 1 || arg[0] != '-'
}

/// What the argument `arg` is.
pub open spec fn classify(arg: Seq<char>) -> ArgKind {
    if is_file_name(arg) {
        ArgKind::File
    } else if arg == "-n"@ || arg == "--number"@ {
        ArgKind::Number
    } else if arg == "-s"@ || arg == "--squeeze-blank"@ {
        ArgKind::SqueezeBlank
    } else if arg == "-d"@ || arg == "--delay"@ {
        ArgKind::Delay
    } else if arg == "-v"@ || arg == "--verbose"@ {
        ArgKind::Verbose
    } else if arg == "-h"@ || arg == "-?"@ || arg == "--help"@ {
        ArgKind::Help
    } else {
        ArgKind::Invalid
    }
}

/// What the reading has come to once `arg` is taken in after `so_far`.
pub open spec fn taken(so_far: InvocationView, arg: Seq<char>) -> InvocationView {
    match so_far {
        InvocationView::Run { flags, files } => match classify(arg) {
            ArgKind::File => InvocationView::Run { flags, files: files.push(arg) },
            ArgKind::Number => InvocationView::Run {
                flags: Flags { number: true, ..flags },
                files,
            },
            ArgKind::SqueezeBlank => InvocationView::Run {
                flags: Flags { squeeze_blank: true, ..flags },
                files,
            },
            ArgKind::Delay => InvocationView::Run { flags: Flags { delay: true, ..flags }, files },
            ArgKind::Verbose => InvocationView::Run {
                flags: Flags { verbose: true, ..flags },
                files,
            },
            ArgKind::Help => InvocationView::Help,
            ArgKind::Invalid => InvocationView::InvalidOption { option: arg },
        },
        stopped => stopped,
    }
}

/// What the first `n` arguments ask for.
pub open spec fn parsed_to(args: Seq<Seq<char>>, n: int) -> InvocationView
    decreases n,
{
    if n <= 0 {
        InvocationView::Run {
            flags: Flags { number: false, squeeze_blank: false, delay: false, verbose: false },
            files: Seq::empty(),
        }
    } else {
        taken(parsed_to(args, n - 1), args[n - 1])
    }
}

/// What the command line `args` asks for.
pub open spec fn parsed(args: Seq<Seq<char>>) -> InvocationView {
    parsed_to(args, args.len() as int)
}

/// Once the reading has stopped, further arguments change nothing.
pub proof fn lemma_stop_is_final(args: Seq<Seq<char>>, m: int, n: int)
    requires
        0 <= m <= n,
        !(parsed_to(args, m) is Run),
    ensures
        parsed_to(args, n) == parsed_to(args, m),
    decreases n,
{
    if m < n {
        lemma_stop_is_final(args, m, n - 1);
    }
}

/// Tells whether two texts are the same.
fn same_text(a: &str, b: &str) -> (same: bool)
    ensures
        same == (a@ == b@),
{
    let len: usize = a.unicode_len();
    if len != b.unicode_len() {
        return false;
    }
    let mut i: usize = 0;
    while i < len
        invariant
            i <= len,
            len == a@.len(),
            len == b@.len(),
            forall|k: int| 0 <= k < i ==> a@[k] == b@[k],
        decreases len - i,
    {
        if a.get_char(i) != b.get_char(i) {
            return false;
        }
        i = i + 1;
    }
    proof {
        assert(a@ =~= b@);
    }
    true
}

/// Tells what one argument is.
pub fn classify_arg(arg: &str) -> (kind: ArgKind)
    ensures
        kind == classify(arg@),
{
    if arg.unicode_len() <= 1 || arg.get_char(0) != '-' {
        ArgKind::File
    } else if same_text(arg, "-n") || same_text(arg, "--number") {
        ArgKind::Number
    } else if same_text(arg, "-s") || same_text(arg, "--squeeze-blank") {
        ArgKind::SqueezeBlank
    } else if same_text(arg, "-d") || same_text(arg, "--delay") {
        ArgKind::Delay
    } else if same_text(arg, "-v") || same_text(arg, "--verbose") {
        ArgKind::Verbose
    } else if same_text(arg, "-h") || same_text(arg, "-?") || same_text(arg, "--help") {
        ArgKind::Help
    } else {
        ArgKind::Invalid
    }
}

/// Reads the command line, without the program's name: the flags and the
/// files in their order, or the request for help or the unknown option at
/// which the reading stopped.
pub fn parse_args(args: &Vec<String>) -> (invocation: Invocation)
    ensures
        invocation@ == parsed(texts(args@)),
{
    let ghost all = texts(args@);
    let mut flags = Flags::none();
    let mut files: Vec<String> = Vec::new();
    let mut i: usize = 0;
    proof {
        assert(texts(files@) =~= Seq::empty());
    }
    while i < args.len()
        invariant
            i <= args.len(),
            all == texts(args@),
            parsed_to(all, i as int) == (InvocationView::Run { flags, files: texts(files@) }),
        decreases args.len() - i,
    {
        let arg: &String = &args[i];
        assert(all[i as int] == arg@);
        let ghost before = files@;
        match classify_arg(arg.as_str()) {
            ArgKind::File => {
                files.push(arg.clone());
                assert(texts(files@) =~= texts(before).push(arg@));
            },
            ArgKind::Number => {
                flags.number = true;
            },
            ArgKind::SqueezeBlank => {
                flags.squeeze_blank = true;
            },
            ArgKind::Delay => {
                flags.delay = true;
            },
            ArgKind::Verbose => {
                flags.verbose = true;
            },
            ArgKind::Help => {
                proof {
                    lemma_stop_is_final(all, i as int + 1, all.len() as int);
                }
                return Invocation::Help;
            },
            ArgKind::Invalid => {
                proof {
                    lemma_stop_is_final(all, i as int + 1, all.len() as int);
                }
                return Invocation::InvalidOption { option: arg.clone() };
            },
        }
        i = i + 1;
    }
    Invocation::Run { flags, files }
}

} // verus!
