use std::io::{BufRead, Cursor};
use std::sync::mpsc;
use text_rain::bridge::{on_read, Heard};

/// Runs the listener over `input` until its end and returns what arrives at
/// the other end of the channel, and whether the channel was closed after it.
fn listen(input: &str) -> (Vec<String>, bool) {
    let (tx, rx) = mpsc::channel::<String>();
    let mut source = Cursor::new(input.as_bytes().to_vec());
    loop {
        let mut line = String::new();
        let n = source.read_line(&mut line).unwrap();
        match on_read(n, &line) {
            Heard::Closed => break,
            Heard::Blank => {}
            Heard::Text(text) => tx.send(text).unwrap(),
        }
    }
    drop(tx);
    let mut got = Vec::new();
    loop {
        match rx.recv() {
            Ok(text) => got.push(text),
            Err(_) => return (got, true),
        }
    }
}

#[test]
fn hello_then_end_of_input_forwards_hello_once() {
    assert_eq!(listen("hello\n"), (vec!["hello".to_string()], true));
}

#[test]
fn last_line_without_terminator_is_forwarded_whole() {
    assert_eq!(listen("hello"), (vec!["hello".to_string()], true));
    assert_eq!(listen("a\nb"), (vec!["a".to_string(), "b".to_string()], true));
}

#[test]
fn empty_line_is_never_forwarded() {
    assert_eq!(listen("\n"), (Vec::new(), true));
    assert_eq!(listen("\n\nx\n\n"), (vec!["x".to_string()], true));
    assert_eq!(listen(""), (Vec::new(), true));
}

#[test]
fn read_of_no_bytes_closes() {
    assert_eq!(on_read(0, ""), Heard::Closed);
    assert_eq!(on_read(0, "ignored\n"), Heard::Closed);
}

#[test]
fn read_of_a_bare_terminator_is_blank() {
    assert_eq!(on_read(1, "\n"), Heard::Blank);
    assert_eq!(on_read(1, ""), Heard::Blank);
}

#[test]
fn read_strips_one_terminator_only() {
    assert_eq!(on_read(6, "hello\n"), Heard::Text("hello".to_string()));
    assert_eq!(on_read(2, "\n\n"), Heard::Text("\n".to_string()));
    assert_eq!(on_read(3, "a\r\n"), Heard::Text("a\r".to_string()));
    assert_eq!(on_read(1, "a"), Heard::Text("a".to_string()));
    assert_eq!(on_read(5, "né→\n"), Heard::Text("né→".to_string()));
}
