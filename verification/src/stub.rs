//! Command line of the echo child that stands in for an ACP agent: it echoes
//! stdin, or plays a minimal ACP agent. Flags are read left to right, a later
//! flag overriding an earlier one; a missing or unparsable number keeps the
//! flag's default; unknown words are handed back to be reported.

use vstd::prelude::*;
use vstd::string::*;

use crate::admin::{all_digits, digits_value, lemma_digits_value_prefix};
use crate::text::str_eq;

verus! {

broadcast use vstd::string::group_string_axioms;

/// The echo child's options.
#[derive(Debug, Clone, PartialEq, Eq)]
pub struct StubArgs {
    /// Write one line to stderr at start.
    pub say_stderr: bool,
    /// Print the working directory at start.
    pub print_cwd: bool,
    /// Emit `session/update` lines in the background.
    pub emit_enabled: bool,
    /// How many updates (0 = without end).
    pub emit_updates: u64,
    /// Milliseconds between updates.
    pub emit_ms: u64,
    /// The updates' session id.
    pub session: String,
    /// Play a minimal ACP agent.
    pub acp_agent: bool,
    /// Chunks per prompt turn.
    pub acp_chunks: u64,
    /// Prefix of the chunk texts.
    pub acp_text: String,
    /// Delay before answering a prompt.
    pub prompt_hold_ms: u64,
    /// Kind of the permission request sent before each turn, if any.
    pub acp_perm_kind: Option<String>,
}

/// Abstract options.
pub struct StubView {
    pub say_stderr: bool,
    pub print_cwd: bool,
    pub emit_enabled: bool,
    pub emit_updates: u64,
    pub emit_ms: u64,
    pub session: Seq<char>,
    pub acp_agent: bool,
    pub acp_chunks: u64,
    pub acp_text: Seq<char>,
    pub prompt_hold_ms: u64,
    pub acp_perm_kind: Option<Seq<char>>,
}

impl View for StubArgs {
    type V = StubView;

    open spec fn view(&self) -> StubView {
        StubView {
            say_stderr: self.say_stderr,
            print_cwd: self.print_cwd,
            emit_enabled: self.emit_enabled,
            emit_updates: self.emit_updates,
            emit_ms: self.emit_ms,
            session: self.session@,
            acp_agent: self.acp_agent,
            acp_chunks: self.acp_chunks,
            acp_text: self.acp_text@,
            prompt_hold_ms: self.prompt_hold_ms,
            acp_perm_kind: match &self.acp_perm_kind {
                Some(k) => Some(k@),
                None => None,
            },
        }
    }
}

/// The options without flags.
pub open spec fn default_stub() -> StubView {
    StubView {
        say_stderr: false,
        print_cwd: false,
        emit_enabled: false,
        emit_updates: 0,
        emit_ms: 50,
        session: "s1"@,
        acp_agent: false,
        acp_chunks: 1,
        acp_text: "echo"@,
        prompt_hold_ms: 0,
        acp_perm_kind: None,
    }
}

/// `u64::from_str` on a text: optional `+`, then at least one digit, and a
/// value that fits.
pub open spec fn parse_u64_spec(s: Seq<char>) -> Option<u64> {
    let d = if s.len() > 0 && s[0] == '+' { s.drop_first() } else { s };
    if d.len() > 0 && all_digits(d) && digits_value(d) <= u64::MAX {
        Some(digits_value(d) as u64)
    } else {
        None
    }
}

/// The number at position `i`, or `default` when it is missing or does not
/// parse.
pub open spec fn num_at(raw: Seq<Seq<char>>, i: int, default: u64) -> u64 {
    if 0 <= i < raw.len() {
        match parse_u64_spec(raw[i]) {
            Some(v) => v,
            None => default,
        }
    } else {
        default
    }
}

/// The options that the words from position `i` on give, starting from
/// `a`, and the words that were not understood.
pub open spec fn stub_from(raw: Seq<Seq<char>>, i: int, a: StubView) -> (StubView, Seq<Seq<char>>)
    decreases raw.len() + 3 - i,
{
    if i < 0 || i >= raw.len() {
        (a, Seq::empty())
    } else {
        let w = raw[i];
        if w == "--say-stderr"@ {
            stub_from(raw, i + 1, StubView { say_stderr: true, ..a })
        } else if w == "--print-cwd"@ {
            stub_from(raw, i + 1, StubView { print_cwd: true, ..a })
        } else if w == "--emit-updates"@ {
            stub_from(
                raw,
                i + 3,
                StubView { emit_enabled: true, emit_updates: num_at(raw, i + 1, 0), emit_ms: num_at(raw, i + 2, 50), ..a },
            )
        } else if w == "--session"@ {
            stub_from(raw, i + 2, if i + 1 < raw.len() { StubView { session: raw[i + 1], ..a } } else { a })
        } else if w == "--acp-agent"@ {
            stub_from(raw, i + 1, StubView { acp_agent: true, ..a })
        } else if w == "--acp-chunks"@ {
            stub_from(raw, i + 2, StubView { acp_chunks: num_at(raw, i + 1, 1), ..a })
        } else if w == "--acp-text"@ {
            stub_from(raw, i + 2, if i + 1 < raw.len() { StubView { acp_text: raw[i + 1], ..a } } else { a })
        } else if w == "--prompt-hold"@ {
            stub_from(raw, i + 2, StubView { prompt_hold_ms: num_at(raw, i + 1, 0), ..a })
        } else if w == "--acp-perm"@ {
            stub_from(
                raw,
                i + 2,
                StubView {
                    acp_perm_kind: if i + 1 < raw.len() {
                        Some(raw[i + 1])
                    } else {
                        None
                    },
                    ..a
                },
            )
        } else {
            let rest = stub_from(raw, i + 1, a);
            (rest.0, seq![w] + rest.1)
        }
    }
}

/// The texts of the words.
pub open spec fn words_view(raw: Seq<String>) -> Seq<Seq<char>> {
    raw.map_values(|s: String| s@)
}

proof fn lemma_stub_past_end(raw: Seq<Seq<char>>, i: int, a: StubView)
    requires
        i >= raw.len(),
    ensures
        stub_from(raw, i, a) == (a, Seq::<Seq<char>>::empty()),
{
}

fn parse_u64(s: &str) -> (r: Option<u64>)
    ensures
        r == parse_u64_spec(s@),
{
    let n = s.unicode_len();
    let start: usize = if n > 0 && s.get_char(0) == '+' { 1 } else { 0 };
    let ghost d = if s@.len() > 0 && s@[0] == '+' { s@.drop_first() } else { s@ };
    assert(d =~= s@.skip(start as int));
    if start >= n {
        return None;
    }
    let mut value: u64 = 0;
    let mut i: usize = start;
    assert(d.take(0) =~= Seq::<char>::empty());
    while i < n
        invariant
            n == s@.len(),
            start < n,
            start <= i <= n,
            d == s@.skip(start as int),
            d == (if s@.len() > 0 && s@[0] == '+' { s@.drop_first() } else { s@ }),
            all_digits(d.take(i - start)),
            value == digits_value(d.take(i - start)),
        decreases n - i,
    {
        let c = s.get_char(i);
        assert(d[i - start] == c);
        assert(d.take(i - start + 1).drop_last() =~= d.take(i - start));
        if !('0' <= c && c <= '9') {
            assert(!all_digits(d)) by {
                assert(!('0' <= d[i - start] && d[i - start] <= '9'));
            }
            return None;
        }
        let digit = (c as u32 - '0' as u32) as u64;
        if value > (u64::MAX - digit) / 10 {
            proof {
                assert(digits_value(d.take(i - start + 1)) == value * 10 + digit);
                assert(value * 10 + digit > u64::MAX) by (nonlinear_arith)
                    requires
                        value > (u64::MAX - digit) / 10,
                        digit <= 9,
                ;
                if all_digits(d) {
                    lemma_digits_value_prefix(d, i - start + 1);
                }
            }
            return None;
        }
        assert(value * 10 + digit <= u64::MAX) by (nonlinear_arith)
            requires
                value <= (u64::MAX - digit) / 10,
                digit <= 9,
        ;
        value = value * 10 + digit;
        assert(all_digits(d.take(i - start + 1)));
        i = i + 1;
    }
    assert(d.take(n - start) =~= d);
    Some(value)
}

fn num_at_exec(raw: &Vec<String>, i: usize, default: u64) -> (r: u64)
    ensures
        r == num_at(words_view(raw@), i as int, default),
{
    if i < raw.len() {
        match parse_u64(raw[i].as_str()) {
            Some(v) => v,
            None => default,
        }
    } else {
        default
    }
}

/// Reads the echo child's arguments (the program name left out): the
/// options, and the words that were not understood, in order.
pub fn parse_stub_args(raw: &Vec<String>) -> (r: (StubArgs, Vec<String>))
    ensures
        (r.0@, words_view(r.1@)) == stub_from(words_view(raw@), 0, default_stub()),
{
    proof {
        reveal_strlit("--say-stderr");
        reveal_strlit("--print-cwd");
        reveal_strlit("--emit-updates");
        reveal_strlit("--session");
        reveal_strlit("--acp-agent");
        reveal_strlit("--acp-chunks");
        reveal_strlit("--acp-text");
        reveal_strlit("--prompt-hold");
        reveal_strlit("--acp-perm");
        reveal_strlit("s1");
        reveal_strlit("echo");
    }
    let ghost w = words_view(raw@);
    let mut args = StubArgs {
        say_stderr: false,
        print_cwd: false,
        emit_enabled: false,
        emit_updates: 0,
        emit_ms: 50,
        session: "s1".to_owned(),
        acp_agent: false,
        acp_chunks: 1,
        acp_text: "echo".to_owned(),
        prompt_hold_ms: 0,
        acp_perm_kind: None,
    };
    let mut ignored: Vec<String> = Vec::new();
    let n = raw.len();
    let mut i: usize = 0;
    assert(args@ == default_stub());
    assert(words_view(ignored@) =~= Seq::<Seq<char>>::empty());
    while i < n
        invariant
            n == raw@.len(),
            w == words_view(raw@),
            i <= n,
            stub_from(w, 0, default_stub()).0 == stub_from(w, i as int, args@).0,
            stub_from(w, 0, default_stub()).1 == words_view(ignored@) + stub_from(w, i as int, args@).1,
        decreases n - i,
    {
        let word = raw[i].as_str();
        assert(w[i as int] == word@);
        let ghost before = args@;
        let next: usize;
        if str_eq(word, "--say-stderr") {
            args.say_stderr = true;
            next = i + 1;
        } else if str_eq(word, "--print-cwd") {
            args.print_cwd = true;
            next = i + 1;
        } else if str_eq(word, "--emit-updates") {
            args.emit_enabled = true;
            args.emit_updates = num_at_exec(raw, i + 1, 0);
            args.emit_ms = if i + 1 < n { num_at_exec(raw, i + 2, 50) } else { 50 };
            next = if n - i >= 3 { i + 3 } else { n };
            proof {
                if i + 3 > n {
                    lemma_stub_past_end(w, i + 3, args@);
                    lemma_stub_past_end(w, n as int, args@);
                }
            }
        } else if str_eq(word, "--session") {
            if i + 1 < n {
                args.session = raw[i + 1].clone();
            }
            next = if n - i >= 2 { i + 2 } else { n };
            proof {
                if i + 2 > n {
                    lemma_stub_past_end(w, i + 2, args@);
                    lemma_stub_past_end(w, n as int, args@);
                }
            }
        } else if str_eq(word, "--acp-agent") {
            args.acp_agent = true;
            next = i + 1;
        } else if str_eq(word, "--acp-chunks") {
            args.acp_chunks = num_at_exec(raw, i + 1, 1);
            next = if n - i >= 2 { i + 2 } else { n };
            proof {
                if i + 2 > n {
                    lemma_stub_past_end(w, i + 2, args@);
                    lemma_stub_past_end(w, n as int, args@);
                }
            }
        } else if str_eq(word, "--acp-text") {
            if i + 1 < n {
                args.acp_text = raw[i + 1].clone();
            }
            next = if n - i >= 2 { i + 2 } else { n };
            proof {
                if i + 2 > n {
                    lemma_stub_past_end(w, i + 2, args@);
                    lemma_stub_past_end(w, n as int, args@);
                }
            }
        } else if str_eq(word, "--prompt-hold") {
            args.prompt_hold_ms = num_at_exec(raw, i + 1, 0);
            next = if n - i >= 2 { i + 2 } else { n };
            proof {
                if i + 2 > n {
                    lemma_stub_past_end(w, i + 2, args@);
                    lemma_stub_past_end(w, n as int, args@);
                }
            }
        } else if str_eq(word, "--acp-perm") {
            args.acp_perm_kind = if i + 1 < n { Some(raw[i + 1].clone()) } else { None };
            next = if n - i >= 2 { i + 2 } else { n };
            proof {
                if i + 2 > n {
                    lemma_stub_past_end(w, i + 2, args@);
                    lemma_stub_past_end(w, n as int, args@);
                }
            }
        } else {
            let ghost ig = words_view(ignored@);
            ignored.push(raw[i].clone());
            assert(words_view(ignored@) =~= ig.push(word@));
            assert(ig.push(word@) + stub_from(w, i + 1, args@).1 =~= ig + (seq![word@] + stub_from(w, i + 1, args@).1));
            next = i + 1;
        }
        i = next;
    }
    (args, ignored)
}

} // verus!
