//! Command-line arguments.

use crate::text;
use vstd::prelude::*;

verus! {

/// What `daapstt realtime` is asked for.
#[derive(Debug, Clone, Copy, PartialEq, Eq)]
pub enum RealtimeCommand {
    On,
    Off,
    Status,
}

/// What the program is asked for.
#[derive(Debug, Clone, PartialEq, Eq)]
pub enum Command {
    /// Run the daemon.
    Daemon,
    /// Manage keyterms interactively.
    Keyterms,
    ListKeyterms,
    AddKeyterm(String),
    RemoveKeyterm(String),
    Realtime(RealtimeCommand),
}

/// Why the arguments were refused.
#[derive(Debug, Clone, PartialEq, Eq)]
pub enum CommandError {
    Unknown(String),
    InvalidKeyterms,
    InvalidRealtime,
}

/// What a [`Command`] says.
#[verifier::ext_equal]
pub enum CommandView {
    Daemon,
    Keyterms,
    ListKeyterms,
    AddKeyterm(Seq<char>),
    RemoveKeyterm(Seq<char>),
    Realtime(RealtimeCommand),
    Unknown(Seq<char>),
    InvalidKeyterms,
    InvalidRealtime,
}

/// How the program is used.
pub open spec fn usage_text() -> Seq<char> {
    "Usage:\n  daapstt                 Start the voice daemon\n  daapstt keyterms        Manage keyterms interactively\n  daapstt keyterms list\n  daapstt keyterms add <term>\n  daapstt keyterms remove <term>\n  daapstt realtime on|off|status"@
}

/// How the program is used.
pub fn usage() -> (res: &'static str)
    ensures
        res@ == usage_text(),
{
    "Usage:\n  daapstt                 Start the voice daemon\n  daapstt keyterms        Manage keyterms interactively\n  daapstt keyterms list\n  daapstt keyterms add <term>\n  daapstt keyterms remove <term>\n  daapstt realtime on|off|status"
}

impl CommandError {
    /// What is reported to the user.
    pub open spec fn text(self) -> Seq<char> {
        match self {
            CommandError::Unknown(command) => "unknown command: "@ + command@ + "\n\n"@
                + usage_text(),
            CommandError::InvalidKeyterms => "invalid keyterms command\n\n"@ + usage_text(),
            CommandError::InvalidRealtime => "invalid realtime command\n\n"@ + usage_text(),
        }
    }

    /// What is reported to the user.
    pub fn message(&self) -> (res: String)
        ensures
            res@ == self.text(),
    {
        let mut res = match self {
            CommandError::Unknown(command) => {
                let mut res = "unknown command: ".to_owned();
                res.append(command.as_str());
                res.append("\n\n");
                res
            },
            CommandError::InvalidKeyterms => "invalid keyterms command\n\n".to_owned(),
            CommandError::InvalidRealtime => "invalid realtime command\n\n".to_owned(),
        };
        res.append(usage());
        res
    }
}

/// What the arguments of `daapstt realtime` ask for: exactly one of three words.
pub open spec fn realtime_command(args: Seq<Seq<char>>) -> Option<RealtimeCommand> {
    if args == seq!["on"@] {
        Some(RealtimeCommand::On)
    } else if args == seq!["off"@] {
        Some(RealtimeCommand::Off)
    } else if args == seq!["status"@] {
        Some(RealtimeCommand::Status)
    } else {
        None
    }
}

/// What the arguments of `daapstt keyterms` ask for.
pub open spec fn keyterms_command(args: Seq<Seq<char>>) -> CommandView {
    if args.len() == 0 {
        CommandView::Keyterms
    } else if args == seq!["list"@] {
        CommandView::ListKeyterms
    } else if args.len() == 2 && args[0] == "add"@ {
        CommandView::AddKeyterm(args[1])
    } else if args.len() == 2 && args[0] == "remove"@ {
        CommandView::RemoveKeyterm(args[1])
    } else {
        CommandView::InvalidKeyterms
    }
}

/// What the arguments of the program ask for.
pub open spec fn command(args: Seq<Seq<char>>) -> CommandView {
    if args.len() == 0 {
        CommandView::Daemon
    } else if args[0] == "keyterms"@ {
        keyterms_command(args.skip(1))
    } else if args[0] == "realtime"@ {
        match realtime_command(args.skip(1)) {
            Some(command) => CommandView::Realtime(command),
            None => CommandView::InvalidRealtime,
        }
    } else {
        CommandView::Unknown(args[0])
    }
}

/// What came of reading the arguments.
pub open spec fn read_as(res: Result<Command, CommandError>) -> CommandView {
    match res {
        Ok(Command::Daemon) => CommandView::Daemon,
        Ok(Command::Keyterms) => CommandView::Keyterms,
        Ok(Command::ListKeyterms) => CommandView::ListKeyterms,
        Ok(Command::AddKeyterm(term)) => CommandView::AddKeyterm(term@),
        Ok(Command::RemoveKeyterm(term)) => CommandView::RemoveKeyterm(term@),
        Ok(Command::Realtime(command)) => CommandView::Realtime(command),
        Err(CommandError::Unknown(name)) => CommandView::Unknown(name@),
        Err(CommandError::InvalidKeyterms) => CommandView::InvalidKeyterms,
        Err(CommandError::InvalidRealtime) => CommandView::InvalidRealtime,
    }
}

/// Reads the arguments of `daapstt realtime`.
pub fn parse_realtime_command(args: &[String]) -> (res: Result<RealtimeCommand, CommandError>)
    ensures
        match res {
            Ok(command) => realtime_command(text::views(args@)) == Some(command),
            Err(error) => error is InvalidRealtime && realtime_command(text::views(args@)) is None,
        },
{
    let ghost all = text::views(args@);
    if args.len() != 1 {
        assert(all.len() != 1);
        assert(seq!["on"@].len() == 1 && seq!["off"@].len() == 1 && seq!["status"@].len() == 1);
        return Err(CommandError::InvalidRealtime);
    }
    assert(all == seq![args@[0]@]);
    assert(all[0] == args@[0]@);
    let action = args[0].as_str();
    if text::same_text(action, "on") {
        return Ok(RealtimeCommand::On);
    }
    assert(seq!["on"@][0] == "on"@);
    if text::same_text(action, "off") {
        return Ok(RealtimeCommand::Off);
    }
    assert(seq!["off"@][0] == "off"@);
    if text::same_text(action, "status") {
        return Ok(RealtimeCommand::Status);
    }
    assert(seq!["status"@][0] == "status"@);
    Err(CommandError::InvalidRealtime)
}

fn parse_keyterms_command(args: &[String]) -> (res: Result<Command, CommandError>)
    ensures
        read_as(res) == keyterms_command(text::views(args@)),
{
    let ghost all = text::views(args@);
    if args.len() == 0 {
        return Ok(Command::Keyterms);
    }
    assert(all[0] == args@[0]@);
    let subcommand = args[0].as_str();
    if args.len() == 1 {
        assert(all == seq![args@[0]@]);
        if text::same_text(subcommand, "list") {
            return Ok(Command::ListKeyterms);
        }
        assert(seq!["list"@][0] == "list"@);
        return Err(CommandError::InvalidKeyterms);
    }
    assert(all != seq!["list"@]) by {
        assert(seq!["list"@].len() == 1);
    }
    if args.len() == 2 {
        assert(all[1] == args@[1]@);
        if text::same_text(subcommand, "add") {
            return Ok(Command::AddKeyterm(args[1].clone()));
        }
        if text::same_text(subcommand, "remove") {
            return Ok(Command::RemoveKeyterm(args[1].clone()));
        }
    }
    Err(CommandError::InvalidKeyterms)
}

/// Reads the arguments of the program.
pub fn run_command(args: &Vec<String>) -> (res: Result<Command, CommandError>)
    ensures
        read_as(res) == command(text::views(args@)),
{
    let ghost all = text::views(args@);
    if args.len() == 0 {
        return Ok(Command::Daemon);
    }
    assert(all[0] == args@[0]@);
    let rest = vstd::slice::slice_subrange(args.as_slice(), 1, args.len());
    assert(text::views(rest@) == all.skip(1));
    let name = args[0].as_str();
    if text::same_text(name, "keyterms") {
        parse_keyterms_command(rest)
    } else if text::same_text(name, "realtime") {
        match parse_realtime_command(rest) {
            Ok(command) => Ok(Command::Realtime(command)),
            Err(error) => Err(error),
        }
    } else {
        Err(CommandError::Unknown(args[0].clone()))
    }
}

proof fn lemma_words_differ()
    ensures
        "on"@ != "off"@,
        "on"@ != "status"@,
        "off"@ != "status"@,
        "list"@ != "add"@,
        "list"@ != "remove"@,
        "add"@ != "remove"@,
        "keyterms"@ != "realtime"@,
{
    reveal_strlit("on");
    reveal_strlit("off");
    reveal_strlit("status");
    reveal_strlit("list");
    reveal_strlit("add");
    reveal_strlit("remove");
    reveal_strlit("keyterms");
    reveal_strlit("realtime");
    assert("keyterms"@[0] == 'k');
    assert("realtime"@[0] == 'r');
    assert("on"@.len() == 2);
    assert("off"@.len() == 3);
    assert("status"@.len() == 6);
    assert("list"@.len() == 4);
    assert("add"@.len() == 3);
    assert("remove"@.len() == 6);
}

/// What is understood: no argument at all runs the daemon; `realtime` takes one of
/// three words; and `keyterms` takes none, `list`, or `add` or `remove` with any
/// keyterm, whatever that is.
pub proof fn law_what_is_understood(term: Seq<char>)
    ensures
        command(Seq::empty()) == CommandView::Daemon,
        command(seq!["realtime"@, "on"@]) == CommandView::Realtime(RealtimeCommand::On),
        command(seq!["realtime"@, "off"@]) == CommandView::Realtime(RealtimeCommand::Off),
        command(seq!["realtime"@, "status"@]) == CommandView::Realtime(RealtimeCommand::Status),
        command(seq!["keyterms"@]) == CommandView::Keyterms,
        command(seq!["keyterms"@, "list"@]) == CommandView::ListKeyterms,
        command(seq!["keyterms"@, "add"@, term]) == CommandView::AddKeyterm(term),
        command(seq!["keyterms"@, "remove"@, term]) == CommandView::RemoveKeyterm(term),
{
    lemma_words_differ();
    assert(seq!["realtime"@, "on"@].skip(1) == seq!["on"@]);
    assert(seq!["realtime"@, "off"@].skip(1) == seq!["off"@]);
    assert(seq!["realtime"@, "status"@].skip(1) == seq!["status"@]);
    assert(seq!["on"@][0] == "on"@);
    assert(seq!["off"@][0] == "off"@);
    assert(seq!["status"@][0] == "status"@);
    assert(seq!["keyterms"@].skip(1) == Seq::<Seq<char>>::empty());
    assert(seq!["keyterms"@, "list"@].skip(1) == seq!["list"@]);
    assert(seq!["keyterms"@, "add"@, term].skip(1) == seq!["add"@, term]);
    assert(seq!["keyterms"@, "remove"@, term].skip(1) == seq!["remove"@, term]);
    assert(seq!["add"@, term] != seq!["list"@]) by {
        assert(seq!["add"@, term].len() != seq!["list"@].len());
    }
    assert(seq!["remove"@, term] != seq!["list"@]) by {
        assert(seq!["remove"@, term].len() != seq!["list"@].len());
    }
}

/// What is refused: any other first word by its name, and after `realtime` and
/// `keyterms` anything else.
pub proof fn law_what_is_refused(name: Seq<char>, args: Seq<Seq<char>>)
    ensures
        name != "keyterms"@ && name != "realtime"@ ==> command(seq![name] + args)
            == CommandView::Unknown(name),
        args.len() != 1 || args[0] != "on"@ && args[0] != "off"@ && args[0] != "status"@
            ==> command(seq!["realtime"@] + args) == CommandView::InvalidRealtime,
        args.len() > 2 || args.len() == 2 && args[0] != "add"@ && args[0] != "remove"@
            || args.len() == 1 && args[0] != "list"@ ==> command(seq!["keyterms"@] + args)
            == CommandView::InvalidKeyterms,
{
    lemma_words_differ();
    assert((seq![name] + args)[0] == name);
    assert((seq!["realtime"@] + args)[0] == "realtime"@);
    assert((seq!["keyterms"@] + args)[0] == "keyterms"@);
    assert((seq!["realtime"@] + args).skip(1) == args);
    assert((seq!["keyterms"@] + args).skip(1) == args);
    assert(seq!["on"@][0] == "on"@);
    assert(seq!["off"@][0] == "off"@);
    assert(seq!["status"@][0] == "status"@);
    assert(seq!["list"@][0] == "list"@);
}

/// Whatever is refused, the user is told why, with the word that was not understood
/// where there is one, and how the program is used.
pub proof fn law_refusals_explain_themselves(name: String)
    ensures
        CommandError::Unknown(name).text() == "unknown command: "@ + name@ + seq!['\n', '\n']
            + usage_text(),
        CommandError::InvalidKeyterms.text() == "invalid keyterms command\n\n"@ + usage_text(),
        CommandError::InvalidRealtime.text() == "invalid realtime command\n\n"@ + usage_text(),
{
    reveal_strlit("\n\n");
    assert("\n\n"@ == seq!['\n', '\n']);
}

} // verus!
