use shigure_parser::log::{usize_to_string, Hint, Loc, Logger, Message, MessageLevel};

#[test]
fn test() {
    let path = "/home/user/example/src/a.shi".to_string();
    let input = "let a = 1\nlet main = println(\"main\")\nconst b = 1".to_string();
    let logger = Logger::new(&path, &input);
    let r1 = logger.render(&Message {
        level: MessageLevel::Info,
        pos: 21,
        title: "Unresolved symbol".into(),
        hints: vec![],
    });
    let expected1 = String::from("\u{1b}[1;34minfo\u{1b}[0m: Unresolved symbol\n")
        + "-->  /home/user/example/src/a.shi:2:12\n"
        + "2 | let main = println(\"main\")\n"
        + &" ".repeat(15)
        + "^\n";
    assert_eq!(r1, expected1);
    let r2 = logger.render(&Message {
        level: MessageLevel::Warning,
        pos: 0,
        title: "Unresolved symbol".into(),
        hints: vec![],
    });
    let expected2 = String::from("\u{1b}[1;33mwarning\u{1b}[0m: Unresolved symbol\n")
        + "-->  /home/user/example/src/a.shi:1:1\n"
        + "1 | let a = 1\n"
        + &" ".repeat(4)
        + "^\n";
    assert_eq!(r2, expected2);
    let r3 = logger.render(&Message {
        level: MessageLevel::Error,
        pos: 48,
        title: "Unresolved symbol".into(),
        hints: vec![],
    });
    let expected3 = String::from("\u{1b}[1;31merror\u{1b}[0m: Unresolved symbol\n")
        + "-->  /home/user/example/src/a.shi:3:12\n"
        + "3 | const b = 1\n"
        + &" ".repeat(15)
        + "^\n";
    assert_eq!(r3, expected3);
}

#[test]
fn line_and_column_lookup() {
    let path = "p".to_string();
    let input = "ab\ncd\n\nef".to_string();
    let logger = Logger::new(&path, &input);
    // Line starts: 0, 3, 6, 7.
    assert_eq!(logger.pos_to_line(0), 1);
    assert_eq!(logger.pos_to_line(2), 1);
    assert_eq!(logger.pos_to_line(3), 2);
    assert_eq!(logger.pos_to_line(5), 2);
    assert_eq!(logger.pos_to_line(6), 3);
    assert_eq!(logger.pos_to_line(7), 4);
    assert_eq!(logger.pos_to_line(8), 4);
    assert_eq!(logger.line_snippet(1), "ab");
    assert_eq!(logger.line_snippet(2), "cd");
    assert_eq!(logger.line_snippet(3), "");
    assert_eq!(logger.line_snippet(4), "ef");
}

#[test]
fn decimal_rendering() {
    assert_eq!(usize_to_string(0), "0");
    assert_eq!(usize_to_string(7), "7");
    assert_eq!(usize_to_string(10), "10");
    assert_eq!(usize_to_string(123), "123");
    assert_eq!(usize_to_string(4096), "4096");
}

#[test]
fn message_fields_carry_through() {
    let hint = Hint {
        level: MessageLevel::Info,
        loc: Loc { start: 1, end: 2 },
        message: "see here".to_string(),
    };
    let msg = Message {
        level: MessageLevel::Error,
        pos: 5,
        title: "t".to_string(),
        hints: vec![hint],
    };
    assert_eq!(msg.hints.len(), 1);
    assert_eq!(msg.hints[0].loc, Loc { start: 1, end: 2 });
}
