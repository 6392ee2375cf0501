//! The command line: which mode to run, with which options.
use vstd::prelude::*;
use crate::text::{
    lowercase, split_at_commas, split_commas, str_eq, str_starts_with, string_views, to_lowercase,
    trim, trimmed,
};

verus! {

/// What is wrong with a command line.
pub enum CliError {
    MissingArguments,
    MissingPidfileValue,
    MissingExcludeValue,
    UnknownOption(String),
    UnexpectedArgument(String),
    ConflictingModes,
    MissingOutput,
}

/// The mode to run and its options.
pub enum Mode {
    /// Manage one output.
    Monitor { output: String, pidfile: Option<String> },
    /// Give focus back when launched windows close.
    FocusBack { excludes: Vec<String>, pidfile: Option<String> },
}

/// The outcome of reading the command line.
pub enum ParsedArgs {
    /// Help was asked for.
    Help,
    /// The command line is wrong.
    Invalid(CliError),
    /// Run this mode.
    Run(Mode),
}

/// The mathematical value of a `CliError`.
pub enum CliErrorView {
    MissingArguments,
    MissingPidfileValue,
    MissingExcludeValue,
    UnknownOption(Seq<char>),
    UnexpectedArgument(Seq<char>),
    ConflictingModes,
    MissingOutput,
}

/// The mathematical value of a `ParsedArgs`.
pub enum ArgsView {
    Help,
    Invalid(CliErrorView),
    Monitor { output: Seq<char>, pidfile: Option<Seq<char>> },
    FocusBack { excludes: Seq<Seq<char>>, pidfile: Option<Seq<char>> },
}

/// The view of an optional string.
pub open spec fn opt_view(s: Option<String>) -> Option<Seq<char>> {
    match s {
        Some(x) => Some(x@),
        None => None,
    }
}

impl View for CliError {
    type V = CliErrorView;

    open spec fn view(&self) -> CliErrorView {
        match self {
            CliError::MissingArguments => CliErrorView::MissingArguments,
            CliError::MissingPidfileValue => CliErrorView::MissingPidfileValue,
            CliError::MissingExcludeValue => CliErrorView::MissingExcludeValue,
            CliError::UnknownOption(a) => CliErrorView::UnknownOption(a@),
            CliError::UnexpectedArgument(a) => CliErrorView::UnexpectedArgument(a@),
            CliError::ConflictingModes => CliErrorView::ConflictingModes,
            CliError::MissingOutput => CliErrorView::MissingOutput,
        }
    }
}

impl View for ParsedArgs {
    type V = ArgsView;

    open spec fn view(&self) -> ArgsView {
        match self {
            ParsedArgs::Help => ArgsView::Help,
            ParsedArgs::Invalid(e) => ArgsView::Invalid(e@),
            ParsedArgs::Run(Mode::Monitor { output, pidfile }) => ArgsView::Monitor {
                output: output@,
                pidfile: opt_view(*pidfile),
            },
            ParsedArgs::Run(Mode::FocusBack { excludes, pidfile }) => ArgsView::FocusBack {
                excludes: string_views(excludes@),
                pidfile: opt_view(*pidfile),
            },
        }
    }
}

/// What has been read so far.
pub struct ScanState {
    pub focus_back: bool,
    pub output: Option<Seq<char>>,
    pub pidfile: Option<Seq<char>>,
    pub excludes: Seq<Seq<char>>,
}

/// Each piece trimmed and lower-cased.
pub open spec fn lowered_items(pieces: Seq<Seq<char>>) -> Seq<Seq<char>> {
    pieces.map_values(|p: Seq<char>| lowercase(trimmed(p)))
}

/// The items that are not empty, in order.
pub open spec fn non_empty(items: Seq<Seq<char>>) -> Seq<Seq<char>>
    decreases items.len(),
{
    if items.len() == 0 {
        Seq::empty()
    } else {
        let init = non_empty(items.drop_last());
        if items.last().len() > 0 {
            init.push(items.last())
        } else {
            init
        }
    }
}

/// The app ids of an `--exclude` value: its comma-separated items,
/// trimmed and lower-cased, empty ones left out.
pub open spec fn exclude_items(value: Seq<char>) -> Seq<Seq<char>> {
    non_empty(lowered_items(split_commas(value)))
}

/// The argument begins with `-`.
pub open spec fn is_option(a: Seq<char>) -> bool {
    "-"@.len() <= a.len() && a.subrange(0, "-"@.len() as int) == "-"@
}

/// The outcome once every argument was read.
pub open spec fn finish_scan(st: ScanState) -> ArgsView {
    if st.focus_back {
        if st.output is Some {
            ArgsView::Invalid(CliErrorView::ConflictingModes)
        } else {
            ArgsView::FocusBack { excludes: st.excludes, pidfile: st.pidfile }
        }
    } else {
        match st.output {
            Some(o) => ArgsView::Monitor { output: o, pidfile: st.pidfile },
            None => ArgsView::Invalid(CliErrorView::MissingOutput),
        }
    }
}

/// Reads the arguments from position `i` on, from the state `st`.
pub open spec fn scan(args: Seq<Seq<char>>, i: nat, st: ScanState) -> ArgsView
    decreases args.len() - i,
{
    if i >= args.len() {
        finish_scan(st)
    } else {
        let a = args[i as int];
        if a == "-h"@ || a == "--help"@ {
            ArgsView::Help
        } else if a == "--focus-back"@ {
            scan(args, i + 1, ScanState { focus_back: true, ..st })
        } else if a == "--pidfile"@ {
            if i + 1 >= args.len() {
                ArgsView::Invalid(CliErrorView::MissingPidfileValue)
            } else {
                scan(args, i + 2, ScanState { pidfile: Some(args[i + 1int]), ..st })
            }
        } else if a == "--exclude"@ {
            if i + 1 >= args.len() {
                ArgsView::Invalid(CliErrorView::MissingExcludeValue)
            } else {
                scan(args, i + 2, ScanState { excludes: st.excludes + exclude_items(args[i + 1int]), ..st })
            }
        } else if is_option(a) {
            ArgsView::Invalid(CliErrorView::UnknownOption(a))
        } else if st.output is Some {
            ArgsView::Invalid(CliErrorView::UnexpectedArgument(a))
        } else {
            scan(args, i + 1, ScanState { output: Some(a), ..st })
        }
    }
}

/// What a command line (without the program name) asks for.
pub open spec fn parse_args_spec(args: Seq<Seq<char>>) -> ArgsView {
    if args.len() == 0 {
        ArgsView::Invalid(CliErrorView::MissingArguments)
    } else {
        scan(args, 0, ScanState { focus_back: false, output: None, pidfile: None, excludes: Seq::empty() })
    }
}

/// Leaves out the empty items, keeping the order of the others.
pub fn drop_empty(items: Vec<String>) -> (r: Vec<String>)
    ensures
        string_views(r@) == non_empty(string_views(items@)),
{
    let ghost iv = string_views(items@);
    let mut out: Vec<String> = Vec::new();
    let mut i: usize = 0;
    let n = items.len();
    assert(string_views(out@) =~= non_empty(iv.take(0)));
    while i < n
        invariant
            i <= n,
            n == items.len(),
            iv == string_views(items@),
            string_views(out@) == non_empty(iv.take(i as int)),
        decreases n - i,
    {
        assert(iv.take(i + 1).drop_last() =~= iv.take(i as int));
        assert(iv.take(i + 1).last() == items@[i as int]@);
        if items[i].as_str().unicode_len() > 0 {
            let ghost before = string_views(out@);
            out.push(items[i].clone());
            assert(string_views(out@) =~= before.push(items@[i as int]@));
        }
        i = i + 1;
    }
    assert(iv.take(n as int) =~= iv);
    out
}

/// The app ids of an `--exclude` value (see `exclude_items`).
pub fn parse_excludes(value: &str) -> (r: Vec<String>)
    ensures
        string_views(r@) == exclude_items(value@),
{
    let pieces = split_at_commas(value);
    let ghost pv = string_views(pieces@);
    let mut lowered: Vec<String> = Vec::new();
    let mut i: usize = 0;
    while i < pieces.len()
        invariant
            i <= pieces.len(),
            pv == string_views(pieces@),
            pv == split_commas(value@),
            string_views(lowered@) == lowered_items(pv.take(i as int)),
        decreases pieces.len() - i,
    {
        let ghost before = string_views(lowered@);
        let item = to_lowercase(trim(pieces[i].as_str()));
        assert(item@ == lowercase(trimmed(pv[i as int])));
        lowered.push(item);
        assert(string_views(lowered@) =~= before.push(item@));
        assert(lowered_items(pv.take(i + 1)) =~= lowered_items(pv.take(i as int)).push(item@));
        i = i + 1;
    }
    assert(pv.take(pieces.len() as int) =~= pv);
    drop_empty(lowered)
}

/// Reads the command line (without the program name; see
/// `parse_args_spec`).
pub fn parse_args(args: &Vec<String>) -> (r: ParsedArgs)
    ensures
        r@ == parse_args_spec(string_views(args@)),
{
    let ghost av = string_views(args@);
    if args.len() == 0 {
        return ParsedArgs::Invalid(CliError::MissingArguments);
    }
    let mut focus_back = false;
    let mut output: Option<String> = None;
    let mut pidfile: Option<String> = None;
    let mut excludes: Vec<String> = Vec::new();
    let mut i: usize = 0;
    assert(string_views(excludes@) =~= Seq::<Seq<char>>::empty());
    while i < args.len()
        invariant
            av == string_views(args@),
            args.len() > 0,
            parse_args_spec(av) == scan(
                av,
                i as nat,
                ScanState {
                    focus_back,
                    output: opt_view(output),
                    pidfile: opt_view(pidfile),
                    excludes: string_views(excludes@),
                },
            ),
        decreases args.len() - i,
    {
        let a = args[i].as_str();
        assert(av[i as int] == a@);
        if str_eq(a, "-h") || str_eq(a, "--help") {
            return ParsedArgs::Help;
        } else if str_eq(a, "--focus-back") {
            focus_back = true;
            i = i + 1;
        } else if str_eq(a, "--pidfile") {
            if i + 1 >= args.len() {
                return ParsedArgs::Invalid(CliError::MissingPidfileValue);
            }
            pidfile = Some(args[i + 1].clone());
            i = i + 2;
        } else if str_eq(a, "--exclude") {
            if i + 1 >= args.len() {
                return ParsedArgs::Invalid(CliError::MissingExcludeValue);
            }
            let items = parse_excludes(args[i + 1].as_str());
            let ghost before = string_views(excludes@);
            let mut items = items;
            let ghost added = string_views(items@);
            excludes.append(&mut items);
            assert(string_views(excludes@) =~= before + added);
            i = i + 2;
        } else if str_starts_with(a, "-") {
            return ParsedArgs::Invalid(CliError::UnknownOption(args[i].clone()));
        } else if output.is_some() {
            return ParsedArgs::Invalid(CliError::UnexpectedArgument(args[i].clone()));
        } else {
            output = Some(args[i].clone());
            i = i + 1;
        }
    }
    if focus_back {
        if output.is_some() {
            return ParsedArgs::Invalid(CliError::ConflictingModes);
        }
        ParsedArgs::Run(Mode::FocusBack { excludes, pidfile })
    } else {
        match output {
            Some(o) => ParsedArgs::Run(Mode::Monitor { output: o, pidfile }),
            None => ParsedArgs::Invalid(CliError::MissingOutput),
        }
    }
}

/// The text that explains a command-line error.
pub open spec fn message_text(e: CliErrorView) -> Seq<char> {
    match e {
        CliErrorView::MissingArguments => "missing arguments"@,
        CliErrorView::MissingPidfileValue => "--pidfile requires a value"@,
        CliErrorView::MissingExcludeValue => "--exclude requires a value"@,
        CliErrorView::UnknownOption(a) => "unknown option '"@ + a + "'"@,
        CliErrorView::UnexpectedArgument(a) => "unexpected argument '"@ + a + "'"@,
        CliErrorView::ConflictingModes => "--focus-back and <OUTPUT> are mutually exclusive"@,
        CliErrorView::MissingOutput => "missing required argument <OUTPUT>"@,
    }
}

impl CliError {
    /// The text that explains the error.
    pub fn message(&self) -> (r: String)
        ensures
            r@ == message_text(self@),
    {
        match self {
            CliError::MissingArguments => String::from_str("missing arguments"),
            CliError::MissingPidfileValue => String::from_str("--pidfile requires a value"),
            CliError::MissingExcludeValue => String::from_str("--exclude requires a value"),
            CliError::UnknownOption(a) => {
                let mut s = String::from_str("unknown option '");
                s.append(a.as_str());
                s.append("'");
                s
            },
            CliError::UnexpectedArgument(a) => {
                let mut s = String::from_str("unexpected argument '");
                s.append(a.as_str());
                s.append("'");
                s
            },
            CliError::ConflictingModes => String::from_str("--focus-back and <OUTPUT> are mutually exclusive"),
            CliError::MissingOutput => String::from_str("missing required argument <OUTPUT>"),
        }
    }
}

} // verus!
