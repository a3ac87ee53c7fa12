//! Zero-copy IRC line parser.
//!
//! Accepts both raw bytes and `&str`. Strips a single optional `\r\n` or `\n`
//! terminator. Handles IRCv3 message tags, an optional `:source` prefix, a
//! textual or 3-digit numeric command, and space-separated parameters with an
//! optional `:trailing`.
//!
//! The parser does not enforce length bounds: callers that care check the
//! length of the line themselves.

use crate::ircd::message::{Command, CommandView, Message, MessageView, ParseError, Tags};
use crate::text;
use vstd::prelude::*;
use vstd::string::*;

verus! {

/// A line without its terminator: one `\r\n` or one `\n` at the end.
pub open spec fn unterminated(line: Seq<char>) -> Seq<char> {
    let n = line.len();
    if n >= 2 && line[n - 2] == '\r' && line[n - 1] == '\n' {
        line.take(n - 2)
    } else if n >= 1 && line[n - 1] == '\n' {
        line.take(n - 1)
    } else {
        line
    }
}

/// The segment that `marker` opens at the start of `s`, up to the first space,
/// and what follows the run of spaces behind it. `(None, s)` when `s` does not
/// start with `marker`; `None` when the segment has no space after it.
pub open spec fn segment(s: Seq<char>, marker: char) -> Option<(Option<Seq<char>>, Seq<char>)> {
    match text::strip_prefix_char(s, marker) {
        None => Some((None, s)),
        Some(body) => match text::split_once_at(body, ' ') {
            None => None,
            Some((seg, rest)) => Some((Some(seg), text::trim_start_char(rest, ' '))),
        },
    }
}

/// The first word of `s`, and what follows the run of spaces behind it.
pub open spec fn first_word(s: Seq<char>) -> (Seq<char>, Seq<char>) {
    match text::split_once_at(s, ' ') {
        Some((w, rest)) => (w, text::trim_start_char(rest, ' ')),
        None => (s, Seq::empty()),
    }
}

/// The command that a word stands for: three digits are a numeric.
pub open spec fn command_of(w: Seq<char>) -> CommandView {
    if w.len() == 3 && text::is_digit(w[0]) && text::is_digit(w[1]) && text::is_digit(w[2]) {
        CommandView::Numeric(
            (100 * text::digit_value(w[0]) + 10 * text::digit_value(w[1]) + text::digit_value(w[2])) as u16,
        )
    } else {
        CommandView::Word(w)
    }
}

/// The parameters in `s`: words separated by spaces, up to a word that starts
/// with a colon, which takes in the rest of the line.
pub open spec fn params_of(s: Seq<char>) -> Seq<Seq<char>>
    decreases s.len(),
{
    if s.len() == 0 {
        Seq::empty()
    } else if s[0] == ':' {
        seq![s.skip(1)]
    } else {
        match text::split_once_at(s, ' ') {
            Some((p, rest)) => {
                proof {
                    text::lemma_position(s, ' ');
                    text::lemma_run_length(rest, ' ');
                }
                (if p.len() == 0 {
                    Seq::empty()
                } else {
                    seq![p]
                }) + params_of(text::trim_start_char(rest, ' '))
            },
            None => seq![s],
        }
    }
}

/// What a line says, or why it says nothing.
pub open spec fn parsed(line: Seq<char>) -> Result<MessageView, ParseError> {
    let body = unterminated(line);
    if body.len() == 0 {
        Err(ParseError::Empty)
    } else {
        match segment(body, '@') {
            None => Err(ParseError::TagsTruncated),
            Some((tags, after_tags)) => match segment(after_tags, ':') {
                None => Err(ParseError::SourceTruncated),
                Some((source, rest)) => {
                    let (word, tail) = first_word(rest);
                    if word.len() == 0 {
                        Err(ParseError::MissingCommand)
                    } else {
                        Ok(
                            MessageView {
                                tags: match tags {
                                    Some(t) => t,
                                    None => Seq::empty(),
                                },
                                source,
                                command: command_of(word),
                                params: params_of(tail),
                            },
                        )
                    }
                },
            },
        }
    }
}

/// A line that parses has a command: a textual one is not empty.
pub proof fn parsed_command_is_not_empty(line: Seq<char>)
    ensures
        parsed(line) matches Ok(m) ==> (m.command matches CommandView::Word(w) ==> w.len() > 0),
{
}

/// The line terminator is optional: a line that ends in neither CR nor LF says
/// the same with `\n` or `\r\n` behind it.
pub proof fn terminator_is_optional(line: Seq<char>)
    requires
        line.len() > 0 ==> line.last() != '\r' && line.last() != '\n',
    ensures
        parsed(line.push('\n')) == parsed(line),
        parsed(line.push('\r').push('\n')) == parsed(line),
{
    assert(unterminated(line.push('\n')) =~= line);
    assert(unterminated(line.push('\r').push('\n')) =~= line);
}

/// Parse an IRC line from raw bytes. Fails with `NotUtf8` exactly on bytes that
/// are not UTF-8; otherwise the result is that of the decoded text.
pub fn parse<'a>(input: &'a [u8]) -> (r: Result<Message<'a>, ParseError>)
    ensures
        !vstd::utf8::valid_utf8(input@) ==> r == Err::<Message<'a>, ParseError>(ParseError::NotUtf8),
        vstd::utf8::valid_utf8(input@) ==> match r {
            Ok(m) => parsed(vstd::utf8::decode_utf8(input@)) == Ok::<MessageView, ParseError>(m@),
            Err(e) => parsed(vstd::utf8::decode_utf8(input@)) == Err::<MessageView, ParseError>(e),
        },
{
    match text::utf8_str(input) {
        None => Err(ParseError::NotUtf8),
        Some(line) => parse_str(line),
    }
}

/// Parse an IRC line from a `&str`.
pub fn parse_str<'a>(line: &'a str) -> (r: Result<Message<'a>, ParseError>)
    ensures
        match r {
            Ok(m) => parsed(line@) == Ok::<MessageView, ParseError>(m@),
            Err(e) => parsed(line@) == Err::<MessageView, ParseError>(e),
        },
{
    let line = strip_line_terminator(line);
    if line.is_empty() {
        return Err(ParseError::Empty);
    }
    let mut rest = line;

    let mut tags = Tags::new("");
    proof {
        reveal_strlit("");
        assert(tags@ =~= Seq::<char>::empty());
    }
    if let Some(after_at) = text::strip_char(rest, '@') {
        match split_first_space(after_at) {
            None => {
                return Err(ParseError::TagsTruncated);
            },
            Some((tags_str, after_space)) => {
                rest = trim_leading_spaces(after_space);
                tags = Tags::new(tags_str);
            },
        }
    }
    let ghost after_tags = rest@;

    let mut source: Option<&'a str> = None;
    if let Some(after_colon) = text::strip_char(rest, ':') {
        match split_first_space(after_colon) {
            None => {
                return Err(ParseError::SourceTruncated);
            },
            Some((source_str, after_space)) => {
                rest = trim_leading_spaces(after_space);
                source = Some(source_str);
            },
        }
    }
    proof {
        text::lemma_position(rest@, ' ');
    }
    if rest.is_empty() {
        return Err(ParseError::MissingCommand);
    }
    let (cmd_str, params_part) = match split_first_space(rest) {
        Some((c, p)) => (c, trim_leading_spaces(p)),
        None => (rest, ""),
    };
    proof {
        assert(params_part@ =~= first_word(rest@).1);
    }
    match parse_command(cmd_str) {
        Err(e) => Err(e),
        Ok(command) => {
            let params = parse_params(params_part);
            Ok(Message { tags, source, command, params })
        },
    }
}

/// The line without one `\r\n` or `\n` at its end.
pub(crate) fn strip_line_terminator<'a>(line: &'a str) -> (r: &'a str)
    ensures
        r@ == unterminated(line@),
{
    let n = line.unicode_len();
    if n >= 2 && line.get_char(n - 2) == '\r' && line.get_char(n - 1) == '\n' {
        let r = line.substring_char(0, n - 2);
        assert(r@ =~= line@.take(n - 2));
        r
    } else if n >= 1 && line.get_char(n - 1) == '\n' {
        let r = line.substring_char(0, n - 1);
        assert(r@ =~= line@.take(n - 1));
        r
    } else {
        line
    }
}

/// What stands before and after the first space.
fn split_first_space<'a>(s: &'a str) -> (r: Option<(&'a str, &'a str)>)
    ensures
        r is Some == text::split_once_at(s@, ' ') is Some,
        r matches Some(p) ==> text::split_once_at(s@, ' ') == Some((p.0@, p.1@)),
{
    text::split_once(s, ' ')
}

/// `s` without the spaces it starts with.
fn trim_leading_spaces<'a>(s: &'a str) -> (r: &'a str)
    ensures
        r@ == text::trim_start_char(s@, ' '),
{
    text::trim_start(s, ' ')
}

/// The command that `s` stands for; `MissingCommand` for the empty string.
fn parse_command<'a>(s: &'a str) -> (r: Result<Command<'a>, ParseError>)
    ensures
        match r {
            Ok(c) => s@.len() > 0 && c@ == command_of(s@),
            Err(e) => s@.len() == 0 && e == ParseError::MissingCommand,
        },
{
    if s.is_empty() {
        return Err(ParseError::MissingCommand);
    }
    let cs = text::chars_of(s);
    if cs.len() == 3 {
        let (a, b, c) = (cs[0], cs[1], cs[2]);
        if '0' <= a && a <= '9' && '0' <= b && b <= '9' && '0' <= c && c <= '9' {
            let n: u16 = 100 * (a as u16 - 48) + 10 * (b as u16 - 48) + (c as u16 - 48);
            return Ok(Command::Numeric(n));
        }
    }
    Ok(Command::Word(s))
}

/// The parameters in `input`.
fn parse_params<'a>(input: &'a str) -> (r: Vec<&'a str>)
    ensures
        text::str_views(r@) == params_of(input@),
{
    let mut params: Vec<&'a str> = Vec::new();
    let mut rest = input;
    let ghost whole = params_of(input@);
    assert(text::str_views(params@) + params_of(rest@) =~= whole);
    while !rest.is_empty()
        invariant
            whole == text::str_views(params@) + params_of(rest@),
            whole == params_of(input@),
        decreases rest@.len(),
    {
        let ghost before = params@;
        if let Some(trailing) = text::strip_char(rest, ':') {
            params.push(trailing);
            assert(text::str_views(params@) =~= text::str_views(before).push(trailing@));
            assert(text::str_views(params@) =~= whole);
            return params;
        }
        proof {
            text::lemma_position(rest@, ' ');
        }
        match split_first_space(rest) {
            Some((param, after)) => {
                let ghost here = rest@;
                proof {
                    text::lemma_run_length(after@, ' ');
                }
                if !param.is_empty() {
                    params.push(param);
                    assert(text::str_views(params@) =~= text::str_views(before).push(param@));
                }
                rest = trim_leading_spaces(after);
                assert(whole =~= text::str_views(params@) + params_of(rest@));
            },
            None => {
                params.push(rest);
                assert(text::str_views(params@) =~= text::str_views(before).push(rest@));
                assert(text::str_views(params@) =~= whole);
                return params;
            },
        }
    }
    assert(text::str_views(params@) =~= whole);
    params
}

} // verus!
