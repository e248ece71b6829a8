use latex_bot::latex::{
    latex_document, latex_step, latex_tex_png, LatexError, LatexEvent, LatexJob, TEMPLATE_END,
    TEMPLATE_START,
};
use latex_bot::structures::{CommandStruct, Handler};

#[test]
fn document_wraps_the_code() {
    let doc = latex_document("x^2");
    assert!(doc.starts_with("\\documentclass[preview]{standalone}\n"));
    assert!(doc.contains("\\usepackage{amsmath}"));
    assert!(doc.contains("\\begin{document}{\\color{white}\n        x^2\n        }\\end{document}"));
    assert_eq!(doc, format!("{}x^2{}", TEMPLATE_START, TEMPLATE_END));
}

#[test]
fn rendering_steps() {
    match latex_tex_png("a") {
        LatexJob::Typeset(doc) => assert_eq!(doc, latex_document("a")),
        _ => panic!("expected the typesetting step"),
    }
    match latex_step(LatexEvent::Typeset(Ok(Some(vec![37, 80, 68, 70])))) {
        LatexJob::Convert(pdf) => assert_eq!(pdf, vec![37, 80, 68, 70]),
        _ => panic!("expected the conversion step"),
    }
    match latex_step(LatexEvent::Typeset(Ok(None))) {
        LatexJob::Convert(pdf) => assert!(pdf.is_empty()),
        _ => panic!("expected the conversion step"),
    }
    match latex_step(LatexEvent::Typeset(Err(LatexError { message: "undefined control sequence".to_string() }))) {
        LatexJob::Finished(Err(e)) => assert_eq!(e.message, "undefined control sequence"),
        _ => panic!("expected a failed job"),
    }
    match latex_step(LatexEvent::Converted(vec![137, 80, 78, 71])) {
        LatexJob::Finished(Ok(png)) => assert_eq!(png, vec![137, 80, 78, 71]),
        _ => panic!("expected a finished job"),
    }
}

fn cmd(fun: u32, name: &str, description: &str) -> CommandStruct<u32> {
    CommandStruct { fun, name: name.to_string(), description: description.to_string() }
}

#[test]
fn new_vec_keeps_commands() {
    let v = CommandStruct::new_vec(vec![cmd(1, "a", "first"), cmd(2, "b", "second")]);
    assert_eq!(v.len(), 2);
    assert_eq!((v[0].fun, v[0].name.as_str(), v[0].description.as_str()), (1, "a", "first"));
    assert_eq!((v[1].fun, v[1].name.as_str(), v[1].description.as_str()), (2, "b", "second"));
    assert!(CommandStruct::<u32>::new_vec(vec![]).is_empty());
}

#[test]
fn handler_insert_and_get() {
    let mut h: Handler<u32> = Handler::new(7);
    assert_eq!(h.get_size(), 7);
    assert!(h.get_command("a").is_none());
    h.insert("a".to_string(), cmd(1, "a", "x"));
    h.insert("b".to_string(), cmd(2, "b", "y"));
    assert_eq!(h.get_command("a").unwrap().fun, 1);
    assert_eq!(h.get_command("b").unwrap().fun, 2);
    h.insert("a".to_string(), cmd(3, "a2", "z"));
    assert_eq!(h.get_command("a").unwrap().fun, 3);
    assert_eq!(h.get_command("a").unwrap().name, "a2");
    assert_eq!(h.get_command("b").unwrap().fun, 2);
    assert!(h.get_command("c").is_none());
    assert_eq!(h.get_size(), 7);
}

use latex_bot::structures::{run_checks, sender_power_level, CheckFailed, CheckResult, CommandFailed};
use latex_bot::permissions::{verify_owner, verify_user};
use std::cell::RefCell;
use std::rc::Rc;

type Log = Rc<RefCell<Vec<&'static str>>>;

fn logged(log: &Log, name: &'static str, min: i64) -> Box<dyn Fn(i64) -> CheckResult> {
    let log = log.clone();
    Box::new(move |p| {
        log.borrow_mut().push(name);
        if p < min { Err(CheckFailed) } else { Ok(()) }
    })
}

fn taken(log: &Log) -> Vec<&'static str> {
    std::mem::take(&mut *log.borrow_mut())
}

#[test]
fn sender_power() {
    assert_eq!(sender_power_level(Some(42)), 42);
    assert_eq!(sender_power_level(None), i64::MIN);
}

#[test]
fn checks_run_in_order_and_stop_at_first_refusal() {
    let log: Log = Rc::new(RefCell::new(Vec::new()));
    let checks = vec![logged(&log, "user", 0), logged(&log, "admin", 100)];
    assert_eq!(run_checks(&checks, 100).0, Ok(()));
    assert_eq!(taken(&log), vec!["user", "admin"]);
    assert_eq!(run_checks(&checks, 50).0, Err(CommandFailed::CHECK));
    assert_eq!(taken(&log), vec!["user", "admin"]);
    assert_eq!(run_checks(&checks, -1).0, Err(CommandFailed::CHECK));
    assert_eq!(taken(&log), vec!["user"]);
    let reversed = vec![logged(&log, "admin", 100), logged(&log, "user", 0)];
    assert_eq!(run_checks(&reversed, sender_power_level(None)).0, Err(CommandFailed::CHECK));
    assert_eq!(taken(&log), vec!["admin"]);
    let none: Vec<Box<dyn Fn(i64) -> CheckResult>> = vec![];
    assert_eq!(run_checks(&none, i64::MIN).0, Ok(()));
    assert!(taken(&log).is_empty());
}

#[test]
fn checks_take_plain_functions() {
    let checks: Vec<fn(i64) -> CheckResult> = vec![verify_user, verify_owner];
    assert_eq!(run_checks(&checks, 100).0, Ok(()));
    assert_eq!(run_checks(&checks, 99).0, Err(CommandFailed::CHECK));
}
