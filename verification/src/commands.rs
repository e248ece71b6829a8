//! The bot's commands: who may run them and what each one answers.

use vstd::prelude::*;
use vstd::string::StringExecFns;

use crate::latex::LatexError;
use crate::messages::{cut_on_boundary, has_prefix, split_command, split_point};
use crate::permissions::{permission_level, verify_owner, verify_user, CommandPermission};
use crate::structures::{
    sender_power_level, spec_sender_power, CheckResult, CommandFailed, CommandStruct, GroupStruct,
    Handler,
};

verus! {

/// The commands of the bot.
#[derive(Debug, Clone, Copy, PartialEq, Eq, Structural)]
pub enum BotCommand {
    Ping,
    Math,
    Tex,
    Halt,
}

/// The permission checks that a command runs before its body.
#[derive(Debug, Clone, Copy, PartialEq, Eq, Structural)]
pub enum Check {
    /// The sender must be at least an ordinary user.
    VerifyUser,
    /// The sender must be at least an administrator.
    VerifyOwner,
}

/// What the bot does in answer to a command.
pub enum CommandAction {
    /// Send this text to the room.
    SendText(String),
    /// Typeset this LaTeX code and answer with the image.
    RenderLatex(String),
    /// Send this text to the room, then stop the bot.
    SendTextAndExit(String),
}

/// A command's answer, by its texts.
pub enum ActionView {
    SendText(Seq<char>),
    RenderLatex(Seq<char>),
    SendTextAndExit(Seq<char>),
}

impl CommandAction {
    /// The answer, by its texts.
    pub open spec fn view(&self) -> ActionView {
        match self {
            CommandAction::SendText(s) => ActionView::SendText(s@),
            CommandAction::RenderLatex(s) => ActionView::RenderLatex(s@),
            CommandAction::SendTextAndExit(s) => ActionView::SendTextAndExit(s@),
        }
    }
}

/// The text that answers `ping`.
pub open spec fn pong_text() -> Seq<char> {
    "\u{1f3d3} pong \u{1f3d3}"@
}

/// The text that answers `halt`.
pub open spec fn bye_text() -> Seq<char> {
    "Bye! \u{1f44b}"@
}

/// The text that answers a command that does not exist.
pub open spec fn unknown_text() -> Seq<char> {
    "Unknown command! \u{26a0}\u{fe0f}"@
}

/// The LaTeX code that `math` typesets for `data`.
pub open spec fn math_source(data: Seq<char>) -> Seq<char> {
    "$\\displaystyle\n"@ + data + "$"@
}

/// Answers with a pong.
pub fn ping(_data: &str) -> (a: CommandAction)
    ensures
        a@ == ActionView::SendText(pong_text()),
{
    CommandAction::SendText(String::from_str("\u{1f3d3} pong \u{1f3d3}"))
}

/// Typesets `data` as displayed math.
pub fn math(data: &str) -> (a: CommandAction)
    ensures
        a@ == ActionView::RenderLatex(math_source(data@)),
{
    let source = String::from_str("$\\displaystyle\n");
    let source = source.concat(data);
    CommandAction::RenderLatex(source.concat("$"))
}

/// Typesets `data` as it is.
pub fn tex(data: &str) -> (a: CommandAction)
    ensures
        a@ == ActionView::RenderLatex(data@),
{
    CommandAction::RenderLatex(String::from_str(data))
}

/// Says goodbye and stops the bot.
pub fn halt(_data: &str) -> (a: CommandAction)
    ensures
        a@ == ActionView::SendTextAndExit(bye_text()),
{
    CommandAction::SendTextAndExit(String::from_str("Bye! \u{1f44b}"))
}

/// Answers a message that names no known command.
pub fn unknown(_data: &str) -> (a: CommandAction)
    ensures
        a@ == ActionView::SendText(unknown_text()),
{
    CommandAction::SendText(String::from_str("Unknown command! \u{26a0}\u{fe0f}"))
}

/// The answer to a rendering job.
pub enum LatexReply {
    /// Send the image, with this body text.
    Image { body: String, png: Vec<u8> },
    /// Send this text.
    Text(String),
}

/// The body text that goes with a rendered image.
pub open spec fn image_body_text() -> Seq<char> {
    "LaTeX image"@
}

/// The text that answers code that did not typeset.
pub open spec fn invalid_syntax_text() -> Seq<char> {
    "Invalid syntax!"@
}

/// Answers a rendering job: the image when there is one, a complaint about
/// the syntax otherwise.
pub fn latex_handling(result: Result<Vec<u8>, LatexError>) -> (reply: LatexReply)
    ensures
        match result {
            Ok(image) => reply matches LatexReply::Image { body, png } && body@
                == image_body_text() && png@ == image@,
            Err(_) => reply matches LatexReply::Text(t) && t@ == invalid_syntax_text(),
        },
{
    match result {
        Ok(image) => LatexReply::Image { body: String::from_str("LaTeX image"), png: image },
        Err(_) => LatexReply::Text(String::from_str("Invalid syntax!")),
    }
}

/// The checks that `cmd` runs, in order.
pub open spec fn spec_checks(cmd: BotCommand) -> Seq<Check> {
    match cmd {
        BotCommand::Halt => seq![Check::VerifyOwner],
        _ => seq![Check::VerifyUser],
    }
}

/// Whether a sender with power level `power` passes `check`.
pub open spec fn check_passes(check: Check, power: int) -> bool {
    match check {
        Check::VerifyUser => power >= permission_level(CommandPermission::USER),
        Check::VerifyOwner => power >= permission_level(CommandPermission::ADMIN),
    }
}

/// Whether a sender with power level `power` passes every check of `cmd`.
pub open spec fn checks_pass(cmd: BotCommand, power: int) -> bool {
    forall|i: int| 0 <= i < spec_checks(cmd).len() ==> check_passes(#[trigger] spec_checks(cmd)[i], power)
}

/// The power level of a sender: that of the room member, or the lowest
/// level when the sender is not a member.
pub open spec fn sender_power(member_power: Option<i64>) -> int {
    spec_sender_power(member_power) as int
}

/// What `cmd` answers to `data` once its checks have passed.
pub open spec fn command_answer(cmd: BotCommand, data: Seq<char>) -> ActionView {
    match cmd {
        BotCommand::Ping => ActionView::SendText(pong_text()),
        BotCommand::Math => ActionView::RenderLatex(math_source(data)),
        BotCommand::Tex => ActionView::RenderLatex(data),
        BotCommand::Halt => ActionView::SendTextAndExit(bye_text()),
    }
}

impl Check {
    /// Runs the check for a sender with power level `power`.
    pub fn run(&self, power: i64) -> (r: CheckResult)
        ensures
            r is Ok <==> check_passes(*self, power as int),
    {
        match self {
            Check::VerifyUser => verify_user(power),
            Check::VerifyOwner => verify_owner(power),
        }
    }
}

impl BotCommand {
    /// The checks that the command runs, in order.
    pub fn checks(&self) -> (r: Vec<Check>)
        ensures
            r@ == spec_checks(*self),
    {
        match self {
            BotCommand::Halt => vec![Check::VerifyOwner],
            _ => vec![Check::VerifyUser],
        }
    }

    /// The command's name in chat.
    pub fn name(&self) -> (r: &'static str)
        ensures
            r@ == spec_command_name(*self),
    {
        match self {
            BotCommand::Ping => "ping",
            BotCommand::Math => "math",
            BotCommand::Tex => "tex",
            BotCommand::Halt => "halt",
        }
    }
}

/// The command's name in chat.
pub open spec fn spec_command_name(cmd: BotCommand) -> Seq<char> {
    match cmd {
        BotCommand::Ping => "ping"@,
        BotCommand::Math => "math"@,
        BotCommand::Tex => "tex"@,
        BotCommand::Halt => "halt"@,
    }
}

/// Runs a command for a sender: its checks first, in order, with the
/// sender's power level (the lowest level when the sender is not a room
/// member); a failed check stops the command, otherwise the command answers
/// `data`.
pub fn execute(cmd: BotCommand, member_power: Option<i64>, data: &str) -> (r: Result<
    CommandAction,
    CommandFailed,
>)
    ensures
        r is Ok <==> checks_pass(cmd, sender_power(member_power)),
        r matches Err(e) ==> e == CommandFailed::CHECK,
        r matches Ok(a) ==> a@ == command_answer(cmd, data@),
{
    let power: i64 = sender_power_level(member_power);
    let checks = cmd.checks();
    let n = checks.len();
    let mut i: usize = 0;
    while i < n
        invariant
            checks@ == spec_checks(cmd),
            n == checks.len(),
            i <= n,
            power as int == sender_power(member_power),
            forall|j: int| 0 <= j < i ==> check_passes(#[trigger] spec_checks(cmd)[j], power as int),
        decreases n - i,
    {
        if checks[i].run(power).is_err() {
            return Err(CommandFailed::CHECK);
        }
        i = i + 1;
    }
    let action = match cmd {
        BotCommand::Ping => ping(data),
        BotCommand::Math => math(data),
        BotCommand::Tex => tex(data),
        BotCommand::Halt => halt(data),
    };
    Ok(action)
}

/// The commands of the bot's command group.
#[allow(non_camel_case_types)]
pub struct fancy;

/// The description of `cmd` in the command group.
pub open spec fn spec_command_description(cmd: BotCommand) -> Seq<char> {
    match cmd {
        BotCommand::Ping => "Replies with pong."@,
        BotCommand::Math => "Replies with with an image containing the typeset latex math code or an error message."@,
        BotCommand::Tex => "Replies with with an image containing the typeset latex code or an error message."@,
        BotCommand::Halt => "Shuts the bot down."@,
    }
}

/// The registry entry of `cmd`: named after it, running it, described.
pub open spec fn is_entry_of(c: CommandStruct<BotCommand>, cmd: BotCommand) -> bool {
    &&& c.fun == cmd
    &&& c.name@ == spec_command_name(cmd)
    &&& c.description@ == spec_command_description(cmd)
}

/// The registry entry of `cmd`.
fn command_struct(cmd: BotCommand) -> (c: CommandStruct<BotCommand>)
    ensures
        is_entry_of(c, cmd),
{
    let description = match cmd {
        BotCommand::Ping => "Replies with pong.",
        BotCommand::Math => "Replies with with an image containing the typeset latex math code or an error message.",
        BotCommand::Tex => "Replies with with an image containing the typeset latex code or an error message.",
        BotCommand::Halt => "Shuts the bot down.",
    };
    CommandStruct {
        fun: cmd,
        name: String::from_str(cmd.name()),
        description: String::from_str(description),
    }
}

impl fancy {
    /// The command group: `ping`, `math`, `tex` and `halt`, registered under
    /// their names, with the size four and an empty description.
    pub fn group() -> (g: GroupStruct<BotCommand>)
        ensures
            g.commands.wf(),
            g.commands.size() == 4,
            g.description@ == Seq::<char>::empty(),
            g.commands.commands().dom() == set![
                spec_command_name(BotCommand::Ping),
                spec_command_name(BotCommand::Math),
                spec_command_name(BotCommand::Tex),
                spec_command_name(BotCommand::Halt),
            ],
            forall|cmd: BotCommand| #[trigger]
                is_entry_of(g.commands.commands()[spec_command_name(cmd)], cmd),
    {
        let ping_entry = command_struct(BotCommand::Ping);
        let math_entry = command_struct(BotCommand::Math);
        let tex_entry = command_struct(BotCommand::Tex);
        let halt_entry = command_struct(BotCommand::Halt);
        let ghost entries = (ping_entry, math_entry, tex_entry, halt_entry);
        let mut handler: Handler<BotCommand> = Handler::new(4);
        handler.insert(String::from_str(BotCommand::Ping.name()), ping_entry);
        handler.insert(String::from_str(BotCommand::Math.name()), math_entry);
        handler.insert(String::from_str(BotCommand::Tex.name()), tex_entry);
        handler.insert(String::from_str(BotCommand::Halt.name()), halt_entry);
        proof {
            reveal_strlit("ping");
            reveal_strlit("math");
            reveal_strlit("tex");
            reveal_strlit("halt");
            let p = spec_command_name(BotCommand::Ping);
            let m = spec_command_name(BotCommand::Math);
            let t = spec_command_name(BotCommand::Tex);
            let h = spec_command_name(BotCommand::Halt);
            assert(p[0] != m[0] && p[0] != t[0] && p[0] != h[0]);
            assert(m[0] != t[0] && m[0] != h[0] && t[0] != h[0]);
            assert(p != m && p != t && p != h && m != t && m != h && t != h);
            let map = handler.commands();
            assert(map[p] == entries.0);
            assert(map[m] == entries.1);
            assert(map[t] == entries.2);
            assert(map[h] == entries.3);
            assert(map.dom() =~= set![p, m, t, h]);
            assert forall|cmd: BotCommand| #[trigger]
                is_entry_of(map[spec_command_name(cmd)], cmd) by {
                match cmd {
                    BotCommand::Ping => {},
                    BotCommand::Math => {},
                    BotCommand::Tex => {},
                    BotCommand::Halt => {},
                }
            }
        }
        GroupStruct { commands: handler, description: String::new() }
    }
}

/// Where a message addressed to the bot leads.
pub enum Route {
    /// Run this command on this text (what follows the command's name).
    Run(BotCommand, String),
    /// No command has this name; the text follows the name.
    Unknown(String),
}

/// The command name and the text that follow `prefix` in `body`, cut as
/// `split_command` does with the group's size as the longest name.
pub open spec fn spec_message_parts(body: Seq<char>, prefix: Seq<char>, max: nat) -> (
    Seq<char>,
    Seq<char>,
) {
    let msg = body.skip(prefix.len() as int);
    let p = split_point(msg, max, 0);
    (msg.take(p), msg.skip(p))
}

/// Routes a chat message: messages that do not start with `prefix` are
/// ignored (`None`); otherwise the command named after the prefix is looked
/// up in the group, and runs on the rest of the message, or the message is
/// answered as naming an unknown command.
pub fn route_message(body: &str, prefix: &str, group: &GroupStruct<BotCommand>) -> (r: Option<Route>)
    requires
        group.commands.wf(),
        has_prefix(body@, prefix@) ==> cut_on_boundary(
            body@.skip(prefix@.len() as int),
            group.commands.size() as nat,
        ),
    ensures
        r is Some <==> has_prefix(body@, prefix@),
        r matches Some(route) ==> {
            let (name, rest) = spec_message_parts(body@, prefix@, group.commands.size() as nat);
            let commands = group.commands.commands();
            match route {
                Route::Run(cmd, data) => commands.dom().contains(name) && commands[name].fun
                    == cmd && data@ == rest,
                Route::Unknown(data) => !commands.dom().contains(name) && data@ == rest,
            }
        },
{
    let max_len = group.commands.get_size();
    match split_command(body, prefix, max_len) {
        None => None,
        Some((name, rest)) => match group.commands.get_command(name) {
            Some(c) => Some(Route::Run(c.fun, String::from_str(rest))),
            None => Some(Route::Unknown(String::from_str(rest))),
        },
    }
}

/// Who may run a command: nobody outside the room; ordinary users and above
/// for `ping`, `math` and `tex`; administrators and above for `halt`.
pub proof fn lemma_command_access(cmd: BotCommand, member_power: Option<i64>)
    ensures
        member_power is None ==> !checks_pass(cmd, sender_power(member_power)),
        cmd != BotCommand::Halt ==> (checks_pass(cmd, sender_power(member_power))
            <==> sender_power(member_power) >= 0),
        cmd == BotCommand::Halt ==> (checks_pass(cmd, sender_power(member_power))
            <==> sender_power(member_power) >= 100),
{
    assert(spec_checks(cmd).len() == 1);
    assert(check_passes(spec_checks(cmd)[0], sender_power(member_power)) ==> checks_pass(
        cmd,
        sender_power(member_power),
    ));
}

/// What each command answers once its checks have passed, character by
/// character: `ping` sends the pong text, `math` typesets the user's code
/// unchanged between `$\displaystyle` and a newline before it and `$` after
/// it, `tex` typesets the user's code as it is, and `halt` says bye; only
/// `halt` stops the bot, and only `math` and `tex` typeset.
pub proof fn lemma_command_answers(cmd: BotCommand, data: Seq<char>)
    ensures
        command_answer(BotCommand::Ping, data) == ActionView::SendText(
            seq!['\u{1f3d3}', ' ', 'p', 'o', 'n', 'g', ' ', '\u{1f3d3}'],
        ),
        command_answer(BotCommand::Math, data) == ActionView::RenderLatex(
            seq!['$', '\\', 'd', 'i', 's', 'p', 'l', 'a', 'y', 's', 't', 'y', 'l', 'e', '\n']
                + data + seq!['$'],
        ),
        command_answer(BotCommand::Tex, data) == ActionView::RenderLatex(data),
        command_answer(BotCommand::Halt, data) == ActionView::SendTextAndExit(
            seq!['B', 'y', 'e', '!', ' ', '\u{1f44b}'],
        ),
        (command_answer(cmd, data) is SendTextAndExit) <==> cmd == BotCommand::Halt,
        (command_answer(cmd, data) is RenderLatex) <==> (cmd == BotCommand::Math || cmd
            == BotCommand::Tex),
        unknown_text() == seq![
            'U', 'n', 'k', 'n', 'o', 'w', 'n', ' ', 'c', 'o', 'm', 'm', 'a', 'n', 'd', '!', ' ',
            '\u{26a0}', '\u{fe0f}',
        ],
{
    reveal_strlit("\u{1f3d3} pong \u{1f3d3}");
    reveal_strlit("$\\displaystyle\n");
    reveal_strlit("$");
    reveal_strlit("Bye! \u{1f44b}");
    reveal_strlit("Unknown command! \u{26a0}\u{fe0f}");
    assert(pong_text() =~= seq!['\u{1f3d3}', ' ', 'p', 'o', 'n', 'g', ' ', '\u{1f3d3}']);
    assert(math_source(data) =~= seq![
        '$',
        '\\',
        'd',
        'i',
        's',
        'p',
        'l',
        'a',
        'y',
        's',
        't',
        'y',
        'l',
        'e',
        '\n',
    ] + data + seq!['$']);
    assert(bye_text() =~= seq!['B', 'y', 'e', '!', ' ', '\u{1f44b}']);
    assert(unknown_text() =~= seq![
        'U',
        'n',
        'k',
        'n',
        'o',
        'w',
        'n',
        ' ',
        'c',
        'o',
        'm',
        'm',
        'a',
        'n',
        'd',
        '!',
        ' ',
        '\u{26a0}',
        '\u{fe0f}',
    ]);
}

/// The math source keeps the user's code unchanged: fifteen characters of
/// template before it, one `$` after it, and the code itself in between.
pub proof fn lemma_math_source_keeps_code(data: Seq<char>)
    ensures
        math_source(data).len() == data.len() + 16,
        math_source(data).subrange(15, 15 + data.len() as int) == data,
        math_source(data).take(15) == seq![
            '$',
            '\\',
            'd',
            'i',
            's',
            'p',
            'l',
            'a',
            'y',
            's',
            't',
            'y',
            'l',
            'e',
            '\n',
        ],
        math_source(data).last() == '$',
{
    lemma_command_answers(BotCommand::Math, data);
    let t = seq!['$', '\\', 'd', 'i', 's', 'p', 'l', 'a', 'y', 's', 't', 'y', 'l', 'e', '\n'];
    assert(math_source(data) == t + data + seq!['$']);
    assert((t + data + seq!['$']).subrange(15, 15 + data.len() as int) =~= data);
    assert((t + data + seq!['$']).take(15) =~= t);
}

} // verus!
