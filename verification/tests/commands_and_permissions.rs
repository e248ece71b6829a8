use latex_bot::commands::{
    execute, fancy, halt, latex_handling, math, ping, route_message, tex, unknown, BotCommand,
    Check, CommandAction, LatexReply, Route,
};
use latex_bot::latex::LatexError;
use latex_bot::permissions::{verify_owner, verify_user, CommandPermission};
use latex_bot::structures::{CheckFailed, CommandFailed};

fn text_of(a: &CommandAction) -> (&'static str, String) {
    match a {
        CommandAction::SendText(s) => ("send", s.clone()),
        CommandAction::RenderLatex(s) => ("render", s.clone()),
        CommandAction::SendTextAndExit(s) => ("exit", s.clone()),
    }
}

#[test]
fn permission_levels() {
    assert_eq!(CommandPermission::OWNER.level(), i64::MAX);
    assert_eq!(CommandPermission::ADMIN.level(), 100);
    assert_eq!(CommandPermission::MODERATOR.level(), 50);
    assert_eq!(CommandPermission::USER.level(), 0);
    assert_eq!(CommandPermission::NONE.level(), i64::MIN);
}

#[test]
fn permission_dominance() {
    assert!(CommandPermission::OWNER.dominates(CommandPermission::ADMIN));
    assert!(CommandPermission::ADMIN.dominates(CommandPermission::ADMIN));
    assert!(!CommandPermission::USER.dominates(CommandPermission::MODERATOR));
    assert!(CommandPermission::USER.dominates(CommandPermission::NONE));
    assert!(!CommandPermission::NONE.dominates(CommandPermission::USER));
}

#[test]
fn user_and_owner_checks() {
    assert_eq!(verify_user(0), Ok(()));
    assert_eq!(verify_user(-1), Err(CheckFailed));
    assert_eq!(verify_user(i64::MIN), Err(CheckFailed));
    assert_eq!(verify_owner(100), Ok(()));
    assert_eq!(verify_owner(99), Err(CheckFailed));
    assert_eq!(verify_owner(50), Err(CheckFailed));
    assert_eq!(Check::VerifyUser.run(5), Ok(()));
    assert_eq!(Check::VerifyOwner.run(5), Err(CheckFailed));
}

#[test]
fn command_answers() {
    assert_eq!(text_of(&ping(" x")), ("send", "🏓 pong 🏓".to_string()));
    assert_eq!(text_of(&math(" x^2")), ("render", "$\\displaystyle\n x^2$".to_string()));
    assert_eq!(text_of(&tex(" \\LaTeX")), ("render", " \\LaTeX".to_string()));
    assert_eq!(text_of(&halt("")), ("exit", "Bye! 👋".to_string()));
    assert_eq!(text_of(&unknown("abc")), ("send", "Unknown command! ⚠️".to_string()));
}

#[test]
fn execute_runs_checks_first() {
    let a = execute(BotCommand::Math, Some(0), " 1+1").unwrap();
    assert_eq!(text_of(&a), ("render", "$\\displaystyle\n 1+1$".to_string()));
    assert_eq!(execute(BotCommand::Ping, Some(-5), "").err(), Some(CommandFailed::CHECK));
    assert_eq!(execute(BotCommand::Ping, None, "").err(), Some(CommandFailed::CHECK));
    assert_eq!(execute(BotCommand::Halt, Some(50), "").err(), Some(CommandFailed::CHECK));
    let a = execute(BotCommand::Halt, Some(100), "").unwrap();
    assert_eq!(text_of(&a), ("exit", "Bye! 👋".to_string()));
    let a = execute(BotCommand::Tex, Some(i64::MAX), "x").unwrap();
    assert_eq!(text_of(&a), ("render", "x".to_string()));
}

#[test]
fn checks_of_commands() {
    assert_eq!(BotCommand::Ping.checks(), vec![Check::VerifyUser]);
    assert_eq!(BotCommand::Math.checks(), vec![Check::VerifyUser]);
    assert_eq!(BotCommand::Tex.checks(), vec![Check::VerifyUser]);
    assert_eq!(BotCommand::Halt.checks(), vec![Check::VerifyOwner]);
    assert_eq!(BotCommand::Halt.name(), "halt");
}

#[test]
fn latex_replies() {
    match latex_handling(Ok(vec![1, 2, 3])) {
        LatexReply::Image { body, png } => {
            assert_eq!(body, "LaTeX image");
            assert_eq!(png, vec![1, 2, 3]);
        }
        LatexReply::Text(_) => panic!("expected an image"),
    }
    match latex_handling(Err(LatexError { message: "bad".to_string() })) {
        LatexReply::Text(t) => assert_eq!(t, "Invalid syntax!"),
        LatexReply::Image { .. } => panic!("expected a text"),
    }
}

#[test]
fn fancy_group_lists_four_commands() {
    let g = fancy::group();
    assert_eq!(g.commands.get_size(), 4);
    assert_eq!(g.description, "");
    for (name, cmd) in [
        ("ping", BotCommand::Ping),
        ("math", BotCommand::Math),
        ("tex", BotCommand::Tex),
        ("halt", BotCommand::Halt),
    ] {
        let c = g.commands.get_command(name).unwrap();
        assert_eq!(c.fun, cmd);
        assert_eq!(c.name, name);
    }
    assert_eq!(g.commands.get_command("halt").unwrap().description, "Shuts the bot down.");
    assert!(g.commands.get_command("pong").is_none());
}

fn route(body: &str) -> Option<(Option<BotCommand>, String)> {
    let g = fancy::group();
    route_message(body, "!", &g).map(|r| match r {
        Route::Run(cmd, data) => (Some(cmd), data),
        Route::Unknown(data) => (None, data),
    })
}

#[test]
fn routing_messages() {
    assert_eq!(route("hello"), None);
    assert_eq!(route("!tex x^2"), Some((Some(BotCommand::Tex), " x^2".to_string())));
    assert_eq!(route("!ping"), Some((Some(BotCommand::Ping), "".to_string())));
    assert_eq!(route("!pingpong"), Some((Some(BotCommand::Ping), "pong".to_string())));
    assert_eq!(route("!foo bar"), Some((None, " bar".to_string())));
    assert_eq!(route("!"), Some((None, "".to_string())));
    assert_eq!(route("!halt now"), Some((Some(BotCommand::Halt), " now".to_string())));
}
