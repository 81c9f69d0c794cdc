//! Handing a received message to the registered handler, either whole or
//! split into whitespace-separated arguments.

use vstd::prelude::*;
use vstd::string::*;

verus! {

/// The handler that receives each decoded message, in one of two shapes.
/// A program registers plain functions: `Receiver<fn(Vec<String>), fn(String)>`.
#[derive(Clone, Copy)]
pub enum Receiver<A, N> {
    /// Receives the message split into arguments (see [`tokenize`]).
    CLIStyle(A),
    /// Receives the message as it came.
    Normal(N),
}

/// The handler in place before any other is registered: it does nothing.
pub fn on_receive(args: Vec<String>) {
}

impl<A: Fn(Vec<String>), N: Fn(String)> Receiver<A, N> {
    /// Whether the handler takes every message of its shape.
    pub open spec fn total(&self) -> bool {
        match self {
            Receiver::CLIStyle(f) => forall|a: Vec<String>| #[trigger] f.requires((a,)),
            Receiver::Normal(f) => forall|m: String| #[trigger] f.requires((m,)),
        }
    }

    /// Hands `message` to the handler, in the handler's shape: the argument
    /// handler gets the message's tokens, the plain one the message itself.
    pub fn deliver(&self, message: String)
        requires
            self.total(),
        ensures
            match self {
                Receiver::CLIStyle(f) => exists|a: Vec<String>|
                    a@.map_values(|t: String| t@) == tokens(message@) && #[trigger] f.ensures(
                        (a,),
                        (),
                    ),
                Receiver::Normal(f) => f.ensures((message,), ()),
            },
    {
        match self {
            Receiver::CLIStyle(f) => {
                let args = tokenize(message.as_str());
                let ghost handed = args;
                f(args);
                assert(handed@.map_values(|t: String| t@) == tokens(message@));
            },
            Receiver::Normal(f) => {
                let ghost handed = message;
                f(message);
                assert(handed == message);
            },
        }
    }
}

/// Whether `c` is ASCII whitespace: space, tab, line feed, form feed or
/// carriage return.
pub open spec fn is_ascii_ws(c: char) -> bool {
    c == ' ' || c == '\t' || c == '\n' || c == '\x0C' || c == '\r'
}

/// Length of the run of non-whitespace characters that opens `s`.
pub open spec fn word_len(s: Seq<char>) -> nat
    decreases s.len(),
{
    if s.len() == 0 || is_ascii_ws(s[0]) {
        0
    } else {
        1 + word_len(s.drop_first())
    }
}

/// The maximal runs of non-whitespace characters of `s`, left to right.
pub open spec fn tokens(s: Seq<char>) -> Seq<Seq<char>>
    decreases s.len() via tokens_decreases
{
    if s.len() == 0 {
        seq![]
    } else if is_ascii_ws(s[0]) {
        tokens(s.drop_first())
    } else {
        let k = word_len(s);
        seq![s.take(k as int)] + tokens(s.skip(k as int))
    }
}

#[via_fn]
proof fn tokens_decreases(s: Seq<char>) {
    lemma_word_len_bound(s);
}

proof fn lemma_word_len_bound(s: Seq<char>)
    ensures
        word_len(s) <= s.len(),
        s.len() > 0 && !is_ascii_ws(s[0]) ==> word_len(s) > 0,
    decreases s.len(),
{
    if s.len() > 0 && !is_ascii_ws(s[0]) {
        lemma_word_len_bound(s.drop_first());
    }
}

fn is_ws_char(c: char) -> (r: bool)
    ensures
        r == is_ascii_ws(c),
{
    c == ' ' || c == '\t' || c == '\n' || c == '\x0C' || c == '\r'
}

/// The message split on ASCII whitespace, with no empty pieces.
pub fn tokenize(s: &str) -> (r: Vec<String>)
    ensures
        r@.map_values(|t: String| t@) == tokens(s@),
{
    let n = s.unicode_len();
    let ghost full = s@;
    let mut out: Vec<String> = Vec::new();
    let mut i: usize = 0;
    assert(full.skip(0) == full);
    assert(out@.map_values(|t: String| t@) + tokens(full) == tokens(full));
    while i < n
        invariant
            n == full.len(),
            full == s@,
            0 <= i <= n,
            tokens(full) == out@.map_values(|t: String| t@) + tokens(full.skip(i as int)),
        decreases n - i,
    {
        let c = s.get_char(i);
        if is_ws_char(c) {
            assert(full.skip(i as int).drop_first() == full.skip(i + 1));
            i = i + 1;
        } else {
            let mut j: usize = i + 1;
            proof {
                assert(full.skip(i as int).drop_first() == full.skip(i + 1));
            }
            while j < n && !is_ws_char(s.get_char(j))
                invariant
                    n == full.len(),
                    full == s@,
                    i < j <= n,
                    word_len(full.skip(i as int)) == (j - i) + word_len(full.skip(j as int)),
                decreases n - j,
            {
                assert(full.skip(j as int).drop_first() == full.skip(j + 1));
                j = j + 1;
            }
            let ghost k = word_len(full.skip(i as int));
            assert(k == j - i);
            let piece = s.substring_char(i, j);
            let word = String::from_str(piece);
            let ghost before = out@.map_values(|t: String| t@);
            out.push(word);
            assert(out@.map_values(|t: String| t@) == before.push(full.subrange(i as int, j as int)));
            assert(full.skip(i as int).take(k as int) == full.subrange(i as int, j as int));
            assert(full.skip(i as int).skip(k as int) == full.skip(j as int));
            i = j;
        }
    }
    assert(full.skip(n as int) == Seq::<char>::empty());
    assert(out@.map_values(|t: String| t@) + tokens(full.skip(n as int)) == out@.map_values(|t: String| t@));
    out
}

} // verus!
