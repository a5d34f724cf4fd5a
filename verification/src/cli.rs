use vstd::prelude::*;
use std::path::PathBuf;
use crate::ops::string_views;
use crate::text::same_text;

verus! {

/// A path of the file system, carried through as it is.
#[verifier::external_type_specification]
#[verifier::external_body]
pub struct ExPathBuf(PathBuf);

/// What the program was started with: the directory it runs in, and its
/// command-line arguments, split into plain arguments and flags.
pub struct App {
    pub current_dir: PathBuf,
    pub args: Vec<String>,
    pub flags: Vec<String>,
}

/// The commands of the program.
#[derive(Debug, Clone, Copy, PartialEq, Eq, Structural)]
pub enum AppCommand {
    /// Compile a file.
    Unknown,
    /// Show the help text.
    Help,
}

/// Whether a command-line argument is a flag: it starts with `-`.
pub open spec fn is_flag(argument: Seq<char>) -> bool {
    argument.len() > 0 && argument[0] == '-'
}

/// The arguments among `arguments` that are flags (`flag` true) or that are
/// not (`flag` false), in order.
pub open spec fn arguments_of_kind(arguments: Seq<Seq<char>>, flag: bool) -> Seq<Seq<char>>
    decreases arguments.len(),
{
    if arguments.len() == 0 {
        Seq::empty()
    } else {
        let before = arguments_of_kind(arguments.drop_last(), flag);
        if is_flag(arguments.last()) == flag {
            before.push(arguments.last())
        } else {
            before
        }
    }
}

/// The words of a command line that follow the name of the program.
pub open spec fn after_name(line: Seq<Seq<char>>) -> Seq<Seq<char>> {
    if line.len() >= 1 {
        line.skip(1)
    } else {
        Seq::empty()
    }
}

/// Whether `text` is one of `wanted`.
pub open spec fn is_among(text: Seq<char>, wanted: Seq<&str>) -> bool {
    exists|j: int| 0 <= j < wanted.len() && text == (#[trigger] wanted[j])@
}

/// The flags among `flags` that are among `accepted` (`keep` true) or that
/// are not (`keep` false), in order.
pub open spec fn flags_selected(flags: Seq<Seq<char>>, accepted: Seq<&str>, keep: bool) -> Seq<
    Seq<char>,
>
    decreases flags.len(),
{
    if flags.len() == 0 {
        Seq::empty()
    } else {
        let before = flags_selected(flags.drop_last(), accepted, keep);
        if is_among(flags.last(), accepted) == keep {
            before.push(flags.last())
        } else {
            before
        }
    }
}

/// The command that a word names: `compile` names the compilation.
pub open spec fn command_named(word: Seq<char>) -> Option<AppCommand> {
    if word == "compile"@ {
        Some(AppCommand::Unknown)
    } else {
        None
    }
}

/// The command that a command line asks for, the name of the program being
/// its first word: the help where nothing follows the name, else what the
/// second word names.
pub open spec fn command_of(line: Seq<Seq<char>>) -> Option<AppCommand> {
    if line.len() == 1 {
        Some(AppCommand::Help)
    } else if line.len() >= 2 {
        command_named(line[1])
    } else {
        None
    }
}

/// Whether a command-line argument is a flag.
fn starts_with_dash(argument: &str) -> (r: bool)
    ensures
        r == is_flag(argument@),
{
    argument.unicode_len() > 0 && argument.get_char(0) == '-'
}

/// Whether `text` is one of `wanted`.
fn among(text: &str, wanted: &[&str]) -> (r: bool)
    ensures
        r == is_among(text@, wanted@),
{
    let mut j: usize = 0;
    while j < wanted.len()
        invariant
            j <= wanted@.len(),
            forall|k: int| 0 <= k < j ==> text@ != (#[trigger] wanted@[k])@,
        decreases wanted@.len() - j,
    {
        if same_text(text, wanted[j]) {
            return true;
        }
        j = j + 1;
    }
    false
}

impl App {
    /// The arguments that follow the name of the program in `line`, split
    /// into flags, which start with `-`, and plain arguments.
    pub fn from_arguments(current_dir: PathBuf, line: Vec<String>) -> (app: App)
        ensures
            app.current_dir == current_dir,
            string_views(app.args@) == arguments_of_kind(after_name(string_views(line@)), false),
            string_views(app.flags@) == arguments_of_kind(after_name(string_views(line@)), true),
    {
        let ghost given = after_name(string_views(line@));
        let mut args: Vec<String> = Vec::new();
        let mut flags: Vec<String> = Vec::new();
        assert(string_views(args@) =~= Seq::empty());
        assert(string_views(flags@) =~= Seq::empty());
        if line.len() == 0 {
            return App { current_dir, args, flags };
        }
        let mut i: usize = 1;
        assert(given.take(0) =~= Seq::empty());
        while i < line.len()
            invariant
                1 <= i <= line@.len(),
                given == string_views(line@).skip(1),
                string_views(args@) == arguments_of_kind(given.take(i - 1), false),
                string_views(flags@) == arguments_of_kind(given.take(i - 1), true),
            decreases line@.len() - i,
        {
            let argument = line[i].clone();
            proof {
                assert(given.take(i as int).drop_last() =~= given.take(i - 1));
                assert(given.take(i as int).last() == argument@);
            }
            if starts_with_dash(argument.as_str()) {
                assert(string_views(flags@.push(argument)) =~= string_views(flags@).push(
                    argument@,
                ));
                flags.push(argument);
            } else {
                assert(string_views(args@.push(argument)) =~= string_views(args@).push(argument@));
                args.push(argument);
            }
            i = i + 1;
        }
        assert(given.take(i - 1) =~= given);
        App { current_dir, args, flags }
    }

    /// Whether one of the flags of the command line is among `flags`.
    pub fn has_flag(&self, flags: &[&str]) -> (found: bool)
        ensures
            found == exists|i: int|
                0 <= i < self.flags@.len() && is_among((#[trigger] self.flags@[i])@, flags@),
    {
        let mut i: usize = 0;
        while i < self.flags.len()
            invariant
                i <= self.flags@.len(),
                forall|k: int| 0 <= k < i ==> !is_among((#[trigger] self.flags@[k])@, flags@),
            decreases self.flags@.len() - i,
        {
            if among(self.flags[i].as_str(), flags) {
                return true;
            }
            i = i + 1;
        }
        false
    }

    /// The flags of the command line that are among `accepted` (`keep`
    /// true) or that are not (`keep` false), in order.
    fn select_flags(&self, accepted: &[&str], keep: bool) -> (selected: Vec<String>)
        ensures
            string_views(selected@) == flags_selected(string_views(self.flags@), accepted@, keep),
    {
        let ghost all = string_views(self.flags@);
        let mut selected: Vec<String> = Vec::new();
        let mut i: usize = 0;
        assert(string_views(selected@) =~= Seq::empty());
        assert(all.take(0) =~= Seq::empty());
        while i < self.flags.len()
            invariant
                i <= self.flags@.len(),
                all == string_views(self.flags@),
                string_views(selected@) == flags_selected(all.take(i as int), accepted@, keep),
            decreases self.flags@.len() - i,
        {
            let flag = self.flags[i].clone();
            proof {
                assert(all.take(i + 1).drop_last() =~= all.take(i as int));
                assert(all.take(i + 1).last() == flag@);
            }
            if among(flag.as_str(), accepted) == keep {
                assert(string_views(selected@.push(flag)) =~= string_views(selected@).push(flag@));
                selected.push(flag);
            }
            i = i + 1;
        }
        assert(all.take(i as int) =~= all);
        selected
    }

    /// The flags of the command line that are among `accepted_flags_arg`,
    /// in order.
    pub fn filter_flag(&self, accepted_flags_arg: &[&str]) -> (accepted: Vec<String>)
        ensures
            string_views(accepted@) == flags_selected(
                string_views(self.flags@),
                accepted_flags_arg@,
                true,
            ),
    {
        self.select_flags(accepted_flags_arg, true)
    }

    /// The flags of the command line that are not among
    /// `accepted_flags_arg`, in order.
    pub fn rejected_flags(&self, accepted_flags_arg: &[&str]) -> (rejected: Vec<String>)
        ensures
            string_views(rejected@) == flags_selected(
                string_views(self.flags@),
                accepted_flags_arg@,
                false,
            ),
    {
        self.select_flags(accepted_flags_arg, false)
    }
}

impl AppCommand {
    /// The command that `word` names.
    pub fn named(word: &str) -> (command: Option<AppCommand>)
        ensures
            command == command_named(word@),
    {
        if same_text(word, "compile") {
            Some(AppCommand::Unknown)
        } else {
            None
        }
    }

    /// The command that the command line `line` asks for, the name of the
    /// program being its first word.
    pub fn of_arguments(line: &Vec<String>) -> (command: Option<AppCommand>)
        ensures
            command == command_of(string_views(line@)),
    {
        if line.len() == 1 {
            Some(AppCommand::Help)
        } else if line.len() >= 2 {
            AppCommand::named(line[1].as_str())
        } else {
            None
        }
    }
}

} // verus!
