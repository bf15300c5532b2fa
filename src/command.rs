use vstd::prelude::*;

use crate::format::ServerToDevice;

verus! {

/// Why a command line was not understood.
#[derive(Clone, Copy, Debug, PartialEq, Eq, Structural)]
pub enum ParseError {
    /// No command starts with this word.
    CommandNotFound,
    /// The command is known but its arguments are not valid.
    InvalidArgs,
}

/// Tells the device to switch one of its leds on or off.
#[derive(Clone, Copy, Debug, PartialEq, Eq, Structural)]
pub struct LedStatus {
    pub led_no: u8,
    pub on: bool,
}

/// Asks the device to say hello back.
#[derive(Clone, Copy, Debug, PartialEq, Eq, Structural)]
pub struct SayHello;

/// A command that was understood.
#[derive(Clone, Copy, Debug, PartialEq, Eq, Structural)]
pub enum ParsedCommand {
    LedStatus(LedStatus),
    SayHello(SayHello),
}

/// A command for the device: it knows the message that carries it.
pub trait Command {
    spec fn message_spec(&self) -> ServerToDevice;

    fn build_message(&self) -> (m: ServerToDevice)
        ensures
            m == self.message_spec(),
    ;
}

/// The pieces of `s` between single spaces, as `str::split(' ')` yields them:
/// two spaces in a row give an empty piece, and there is always at least one.
pub open spec fn split_spaces(s: Seq<char>) -> Seq<Seq<char>>
    decreases s.len(),
{
    if s.len() == 0 {
        seq![Seq::empty()]
    } else {
        let prev = split_spaces(s.drop_last());
        if s.last() == ' ' {
            prev.push(Seq::empty())
        } else {
            prev.update(prev.len() - 1, prev.last().push(s.last()))
        }
    }
}

pub open spec fn is_digit(c: char) -> bool {
    '0' <= c <= '9'
}

/// The value of a string of decimal digits.
pub open spec fn digits_value(s: Seq<char>) -> nat
    decreases s.len(),
{
    if s.len() == 0 {
        0
    } else {
        digits_value(s.drop_last()) * 10 + (s.last() as nat - '0' as nat) as nat
    }
}

/// `s` without its leading `+`, if it has one.
pub open spec fn unsigned_part(s: Seq<char>) -> Seq<char> {
    if s.len() > 0 && s[0] == '+' {
        s.drop_first()
    } else {
        s
    }
}

pub open spec fn all_digits(s: Seq<char>) -> bool {
    forall|i: int| 0 <= i < s.len() ==> is_digit(#[trigger] s[i])
}

/// What `str::parse::<u8>` gives: an optional `+` followed by at least one
/// decimal digit, whose value fits in a `u8`.
pub open spec fn parse_u8_spec(s: Seq<char>) -> Option<u8> {
    let digits = unsigned_part(s);
    if digits.len() > 0 && all_digits(digits) && digits_value(digits) <= u8::MAX {
        Some(digits_value(digits) as u8)
    } else {
        None
    }
}

/// `on` and `off`.
pub open spec fn switch_spec(s: Seq<char>) -> Option<bool> {
    if s == seq!['o', 'n'] {
        Some(true)
    } else if s == seq!['o', 'f', 'f'] {
        Some(false)
    } else {
        None
    }
}

/// `led <1..=4> <on|off>`; further words are ignored.
pub open spec fn led_status_spec(words: Seq<Seq<char>>) -> Result<ParsedCommand, ParseError> {
    if words.len() == 0 || words[0] != seq!['l', 'e', 'd'] {
        Err(ParseError::CommandNotFound)
    } else if words.len() >= 3 && parse_u8_spec(words[1]) is Some && 1 <= parse_u8_spec(
        words[1],
    )->Some_0 <= 4 && switch_spec(words[2]) is Some {
        Ok(
            ParsedCommand::LedStatus(
                LedStatus { led_no: parse_u8_spec(words[1])->Some_0, on: switch_spec(words[2])->Some_0 },
            ),
        )
    } else {
        Err(ParseError::InvalidArgs)
    }
}

/// `hello`; further words are ignored.
pub open spec fn say_hello_spec(words: Seq<Seq<char>>) -> Result<ParsedCommand, ParseError> {
    if words.len() > 0 && words[0] == seq!['h', 'e', 'l', 'l', 'o'] {
        Ok(ParsedCommand::SayHello(SayHello))
    } else {
        Err(ParseError::CommandNotFound)
    }
}

/// Each command is tried in turn while the previous one does not recognise the
/// first word; invalid arguments of a recognised command end the search.
pub open spec fn command_spec(words: Seq<Seq<char>>) -> Result<ParsedCommand, ParseError> {
    match led_status_spec(words) {
        Err(ParseError::CommandNotFound) => say_hello_spec(words),
        r => r,
    }
}

pub open spec fn word_views(words: Seq<Vec<char>>) -> Seq<Seq<char>> {
    words.map_values(|w: Vec<char>| w@)
}

fn chars_of(s: &str) -> (r: Vec<char>)
    ensures
        r@ == s@,
{
    let mut r: Vec<char> = Vec::new();
    for c in it: s.chars()
        invariant
            r@ == it.seq().subrange(0, it.index() as int),
    {
        r.push(c);
    }
    r
}

/// Splits `s` at every space.
pub fn split_words(s: &Vec<char>) -> (words: Vec<Vec<char>>)
    ensures
        word_views(words@) == split_spaces(s@),
{
    let mut words: Vec<Vec<char>> = Vec::new();
    let mut current: Vec<char> = Vec::new();
    let mut i: usize = 0;
    assert(s@.subrange(0, 0) =~= Seq::<char>::empty());
    assert(word_views(words@).push(current@) =~= seq![Seq::<char>::empty()]);
    while i < s.len()
        invariant
            i <= s.len(),
            word_views(words@).push(current@) == split_spaces(s@.subrange(0, i as int)),
        decreases s.len() - i,
    {
        let c = s[i];
        let ghost prefix = s@.subrange(0, i as int);
        let ghost next = s@.subrange(0, i + 1);
        assert(next.drop_last() =~= prefix);
        assert(next.last() == c);
        let ghost before = word_views(words@);
        let ghost cur = current@;
        if c == ' ' {
            let mut done: Vec<char> = Vec::new();
            std::mem::swap(&mut done, &mut current);
            words.push(done);
            assert(word_views(words@) =~= before.push(cur));
            assert(word_views(words@).push(current@) =~= before.push(cur).push(Seq::empty()));
        } else {
            current.push(c);
            assert(word_views(words@).push(current@) =~= before.push(cur).update(
                before.len() as int,
                cur.push(c),
            ));
        }
        i = i + 1;
    }
    assert(s@.subrange(0, s@.len() as int) =~= s@);
    words.push(current);
    assert(word_views(words@) =~= word_views(words@.drop_last()).push(words@.last()@));
    words
}

/// Parses a decimal `u8` as `str::parse::<u8>` does.
pub fn parse_u8(s: &Vec<char>) -> (r: Option<u8>)
    ensures
        r == parse_u8_spec(s@),
{
    let start: usize = if s.len() > 0 && s[0] == '+' {
        1
    } else {
        0
    };
    let ghost digits = unsigned_part(s@);
    assert(digits =~= s@.subrange(start as int, s@.len() as int));
    if start >= s.len() {
        return None;
    }
    let mut value: u32 = 0;
    let mut i: usize = start;
    while i < s.len()
        invariant
            start <= i <= s.len(),
            start < s.len(),
            digits =~= s@.subrange(start as int, s@.len() as int),
            digits == unsigned_part(s@),
            forall|k: int| start <= k < i ==> is_digit(#[trigger] s@[k]),
            value as nat == digits_value(s@.subrange(start as int, i as int)),
            value <= u8::MAX,
        decreases s.len() - i,
    {
        let c = s[i];
        let ghost before = s@.subrange(start as int, i as int);
        assert(s@.subrange(start as int, i + 1).drop_last() =~= before);
        if !('0' <= c && c <= '9') {
            assert(digits[i - start] == c);
            assert(!is_digit(digits[i - start]));
            assert(!all_digits(digits));
            assert(parse_u8_spec(s@) is None);
            return None;
        }
        let d = (c as u32) - ('0' as u32);
        let next = value * 10 + d;
        assert(next as nat == digits_value(s@.subrange(start as int, i + 1)));
        if next > 255 {
            proof {
                if all_digits(digits) {
                    lemma_digits_prefix_grows(digits, i + 1 - start);
                    assert(digits.subrange(0, i + 1 - start) =~= s@.subrange(start as int, i + 1));
                    assert(digits_value(digits) > u8::MAX);
                }
                assert(parse_u8_spec(s@) is None);
            }
            return None;
        }
        value = next;
        i = i + 1;
    }
    assert(s@.subrange(start as int, s@.len() as int) =~= digits);
    Some(value as u8)
}

/// The value of a string of digits is at least the value of any prefix of it.
proof fn lemma_digits_prefix_grows(s: Seq<char>, n: int)
    requires
        0 <= n <= s.len(),
        forall|i: int| 0 <= i < s.len() ==> is_digit(#[trigger] s[i]),
    ensures
        digits_value(s) >= digits_value(s.subrange(0, n)),
    decreases s.len() - n,
{
    if n < s.len() {
        lemma_digits_prefix_grows(s, n + 1);
        assert(s.subrange(0, n + 1).drop_last() =~= s.subrange(0, n));
    } else {
        assert(s.subrange(0, n) =~= s);
    }
}

fn word_eq(w: &Vec<char>, expected: &[char]) -> (r: bool)
    ensures
        r == (w@ == expected@),
{
    if w.len() != expected.len() {
        return false;
    }
    let mut i: usize = 0;
    while i < w.len()
        invariant
            i <= w.len(),
            w@.len() == expected@.len(),
            forall|k: int| 0 <= k < i ==> w@[k] == expected@[k],
        decreases w.len() - i,
    {
        if w[i] != expected[i] {
            return false;
        }
        i = i + 1;
    }
    assert(w@ =~= expected@);
    true
}

fn parse_switch(w: &Vec<char>) -> (r: Option<bool>)
    ensures
        r == switch_spec(w@),
{
    let on = ['o', 'n'];
    let off = ['o', 'f', 'f'];
    assert(on@ =~= seq!['o', 'n']);
    assert(off@ =~= seq!['o', 'f', 'f']);
    if word_eq(w, &on) {
        Some(true)
    } else if word_eq(w, &off) {
        Some(false)
    } else {
        None
    }
}

impl LedStatus {
    /// Parses `led <1..=4> <on|off>` from the words of a command line.
    pub fn parse(chunks: &[Vec<char>]) -> (r: Result<ParsedCommand, ParseError>)
        ensures
            r == led_status_spec(word_views(chunks@)),
    {
        let ghost words = word_views(chunks@);
        if chunks.len() == 0 {
            return Err(ParseError::CommandNotFound);
        }
        assert(words[0] == chunks@[0]@);
        let is_led = word_eq(&chunks[0], &['l', 'e', 'd']);
        assert(['l', 'e', 'd']@ =~= seq!['l', 'e', 'd']);
        if !is_led {
            return Err(ParseError::CommandNotFound);
        }
        if chunks.len() < 3 {
            return Err(ParseError::InvalidArgs);
        }
        assert(words[1] == chunks@[1]@);
        assert(words[2] == chunks@[2]@);
        let arg1 = parse_u8(&chunks[1]);
        let arg2 = parse_switch(&chunks[2]);
        match (arg1, arg2) {
            (Some(led_no), Some(on)) => {
                if 1 <= led_no && led_no <= 4 {
                    Ok(ParsedCommand::LedStatus(LedStatus { led_no, on }))
                } else {
                    Err(ParseError::InvalidArgs)
                }
            },
            _ => Err(ParseError::InvalidArgs),
        }
    }
}

impl Command for LedStatus {
    open spec fn message_spec(&self) -> ServerToDevice {
        ServerToDevice {
            set_led_status: Some((self.led_no, self.on)),
            send_acc_data: false,
            say_hello: false,
        }
    }

    fn build_message(&self) -> (m: ServerToDevice) {
        ServerToDevice {
            set_led_status: Some((self.led_no, self.on)),
            send_acc_data: false,
            say_hello: false,
        }
    }
}

impl SayHello {
    /// Parses `hello` from the words of a command line.
    pub fn parse(chunks: &[Vec<char>]) -> (r: Result<ParsedCommand, ParseError>)
        ensures
            r == say_hello_spec(word_views(chunks@)),
    {
        if chunks.len() == 0 {
            return Err(ParseError::CommandNotFound);
        }
        assert(word_views(chunks@)[0] == chunks@[0]@);
        let is_hello = word_eq(&chunks[0], &['h', 'e', 'l', 'l', 'o']);
        assert(['h', 'e', 'l', 'l', 'o']@ =~= seq!['h', 'e', 'l', 'l', 'o']);
        if is_hello {
            Ok(ParsedCommand::SayHello(SayHello))
        } else {
            Err(ParseError::CommandNotFound)
        }
    }
}

impl Command for SayHello {
    open spec fn message_spec(&self) -> ServerToDevice {
        ServerToDevice { set_led_status: None, send_acc_data: false, say_hello: true }
    }

    fn build_message(&self) -> (m: ServerToDevice) {
        ServerToDevice { set_led_status: None, send_acc_data: false, say_hello: true }
    }
}

impl Command for ParsedCommand {
    open spec fn message_spec(&self) -> ServerToDevice {
        match self {
            ParsedCommand::LedStatus(c) => c.message_spec(),
            ParsedCommand::SayHello(c) => c.message_spec(),
        }
    }

    fn build_message(&self) -> (m: ServerToDevice) {
        match self {
            ParsedCommand::LedStatus(c) => c.build_message(),
            ParsedCommand::SayHello(c) => c.build_message(),
        }
    }
}

/// Turns a line typed by the user into a command for the device.
pub struct CommandParser;

impl CommandParser {
    /// Splits `cmd` at single spaces and tries each known command in turn.
    pub fn parse(cmd: &str) -> (r: Result<ParsedCommand, ParseError>)
        ensures
            r == command_spec(split_spaces(cmd@)),
    {
        let chars = chars_of(cmd);
        let words = split_words(&chars);
        match LedStatus::parse(words.as_slice()) {
            Err(ParseError::CommandNotFound) => SayHello::parse(words.as_slice()),
            r => r,
        }
    }
}

} // verus!
