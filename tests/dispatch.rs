use skyline_communicate::dispatch::{on_receive, tokenize, Receiver};
use std::cell::RefCell;

#[test]
fn tokenize_collapses_whitespace() {
    assert_eq!(tokenize("  run   --flag  x "), vec!["run", "--flag", "x"]);
}

#[test]
fn tokenize_edge_cases() {
    assert!(tokenize("").is_empty());
    assert!(tokenize(" \t\n\r\x0c ").is_empty());
    assert_eq!(tokenize("one"), vec!["one"]);
    assert_eq!(tokenize("a\tb\nc\rd\x0ce"), vec!["a", "b", "c", "d", "e"]);
    assert_eq!(tokenize("héllo  wörld ✓"), vec!["héllo", "wörld", "✓"]);
}

#[test]
fn deliver_tokenized() {
    let seen: RefCell<Vec<Vec<String>>> = RefCell::new(Vec::new());
    let r: Receiver<_, fn(String)> = Receiver::CLIStyle(|a: Vec<String>| seen.borrow_mut().push(a));
    r.deliver(String::from(" go  north "));
    assert_eq!(seen.borrow().clone(), vec![vec![String::from("go"), String::from("north")]]);
}

#[test]
fn deliver_raw() {
    let seen: RefCell<Vec<String>> = RefCell::new(Vec::new());
    let r: Receiver<fn(Vec<String>), _> = Receiver::Normal(|m: String| seen.borrow_mut().push(m));
    r.deliver(String::from(" go  north "));
    assert_eq!(seen.borrow().clone(), vec![String::from(" go  north ")]);
}

#[test]
fn default_handler_does_nothing() {
    let r: Receiver<fn(Vec<String>), fn(String)> = Receiver::CLIStyle(on_receive);
    r.deliver(String::from("anything at all"));
}
