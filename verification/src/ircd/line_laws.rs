//! Lines are read as they are written, and written as they are to be read.

use crate::encoding;
use crate::ircd::message;
use crate::ircd::message::{Command, CommandView, MessageView, ParseError};
use crate::ircd::message_laws;
use crate::ircd::parser;
use crate::ircd::rate_limit;
use crate::ircd::rate_limit::{BucketState, Grant, RateLimiter};
use crate::ircd::sasl;
use crate::ircd::sasl::SaslMechanism;
use crate::text;
use vstd::prelude::*;
use vstd::utf8;

verus! {

// ----- words --------------------------------------------------------------------

/// Whether a text can stand between two spaces as a parameter: it is not empty, has no
/// space in it, and does not start with a colon.
pub open spec fn is_middle(s: Seq<char>) -> bool {
    s.len() > 0 && !s.contains(' ') && s[0] != ':'
}

proof fn lemma_no_leading_space(s: Seq<char>)
    requires
        s.len() == 0 || s[0] != ' ',
    ensures
        text::trim_start_char(s, ' ') == s,
{
    assert(text::run_length(s, ' ') == 0);
    assert(s.skip(0) =~= s);
}

/// Parameters are read in order: each up to the next space, and one behind a colon to the
/// end of the line, spaces and all.
pub proof fn parameters_are_read_in_order(p: Seq<char>, rest: Seq<char>)
    requires
        is_middle(p),
        rest.len() > 0 ==> rest[0] != ' ',
    ensures
        parser::params_of(Seq::empty()).len() == 0,
        parser::params_of(p) == seq![p],
        parser::params_of(seq![':'] + rest) == seq![rest],
        parser::params_of(p.push(' ') + rest) == seq![p] + parser::params_of(rest),
{
    text::lemma_position(p, ' ');
    assert((seq![':'] + rest).skip(1) =~= rest);
    message_laws::lemma_split_at(p, rest, ' ');
    lemma_no_leading_space(rest);
    let s = p.push(' ') + rest;
    assert(s[0] == p[0]);
}

/// How many spaces stand between two words does not matter.
pub proof fn runs_of_spaces_count_once(p: Seq<char>, rest: Seq<char>)
    requires
        is_middle(p),
    ensures
        parser::params_of(p.push(' ').push(' ') + rest) == parser::params_of(p.push(' ') + rest),
{
    let a = p.push(' ') + rest;
    let b = p.push(' ').push(' ') + rest;
    let r2 = seq![' '] + rest;
    assert(b =~= p.push(' ') + r2);
    message_laws::lemma_split_at(p, rest, ' ');
    message_laws::lemma_split_at(p, r2, ' ');
    assert(r2.drop_first() =~= rest);
    assert(text::run_length(r2, ' ') == 1 + text::run_length(rest, ' '));
    text::lemma_run_length(rest, ' ');
    assert(text::trim_start_char(r2, ' ') =~= text::trim_start_char(rest, ' '));
    assert(a[0] == p[0] && b[0] == p[0]);
}

/// Three digits are a numeric, with the value that they spell; anything else is a word.
pub proof fn three_digits_are_a_numeric(w: Seq<char>)
    ensures
        ({
            let numeric = w.len() == 3 && '0' <= w[0] <= '9' && '0' <= w[1] <= '9' && '0' <= w[2]
                <= '9';
            &&& numeric ==> (parser::command_of(w) matches CommandView::Numeric(n) && n == 100 * (
            w[0] as int - '0' as int) + 10 * (w[1] as int - '0' as int) + (w[2] as int
                - '0' as int))
            &&& !numeric ==> parser::command_of(w) == CommandView::Word(w)
        }),
{
}

// ----- lines --------------------------------------------------------------------

/// Whether a text does not end like a line.
pub open spec fn unended(s: Seq<char>) -> bool {
    s.len() > 0 ==> s.last() != '\n'
}

/// A line without tags and source is its command, up to the first space, and its
/// parameters.
pub proof fn line_is_command_and_parameters(w: Seq<char>, rest: Seq<char>)
    requires
        w.len() > 0,
        !w.contains(' '),
        w[0] != '@',
        w[0] != ':',
        unended(w),
        unended(rest),
        rest.len() > 0 ==> rest[0] != ' ',
    ensures
        parser::parsed(w.push(' ') + rest) matches Ok(m) && m.command == parser::command_of(w)
            && m.params == parser::params_of(rest) && m.source is None && m.tags.len() == 0,
        parser::parsed(w) matches Ok(m) && m.command == parser::command_of(w) && m.params.len() == 0
            && m.source is None && m.tags.len() == 0,
{
    let line = w.push(' ') + rest;
    assert(line.last() != '\n') by {
        if rest.len() > 0 {
            assert(line.last() == rest.last());
        }
    }
    assert(line[0] == w[0]);
    message_laws::lemma_split_at(w, rest, ' ');
    lemma_no_leading_space(rest);
    text::lemma_position(w, ' ');
}

/// A source stands in front of the command, behind a colon, up to the first space; the
/// rest of the line is read as without it.
pub proof fn source_stands_in_front(source: Seq<char>, rest: Seq<char>)
    requires
        !source.contains(' '),
        rest.len() > 0,
        rest[0] != ' ',
        rest[0] != '@',
        rest[0] != ':',
        unended(rest),
    ensures
        ({
            let line = seq![':'] + source.push(' ') + rest;
            match (parser::parsed(line), parser::parsed(rest)) {
                (Ok(m), Ok(n)) => m == (MessageView { source: Some(source), ..n }),
                (Err(e), Err(f)) => e == f,
                _ => false,
            }
        }),
{
    let line = seq![':'] + source.push(' ') + rest;
    assert(line.last() == rest.last());
    assert(line.skip(1) =~= source.push(' ') + rest);
    message_laws::lemma_split_at(source, rest, ' ');
    lemma_no_leading_space(rest);
}

/// Tags stand in front of the rest of the line, behind an at sign, up to the first space;
/// the rest is read as without them.
pub proof fn tags_stand_in_front(tags: Seq<char>, rest: Seq<char>)
    requires
        !tags.contains(' '),
        rest.len() > 0,
        rest[0] != ' ',
        rest[0] != '@',
        unended(rest),
    ensures
        ({
            let line = seq!['@'] + tags.push(' ') + rest;
            match (parser::parsed(line), parser::parsed(rest)) {
                (Ok(m), Ok(n)) => m == (MessageView { tags, ..n }),
                (Err(e), Err(f)) => e == f,
                _ => false,
            }
        }),
{
    let line = seq!['@'] + tags.push(' ') + rest;
    assert(line.last() == rest.last());
    assert(line.skip(1) =~= tags.push(' ') + rest);
    message_laws::lemma_split_at(tags, rest, ' ');
    lemma_no_leading_space(rest);
}

/// A line that breaks off says where: before anything, in its tags, in its source, or
/// before its command.
pub proof fn broken_lines_are_refused(tags: Seq<char>, source: Seq<char>)
    requires
        !tags.contains(' '),
        !source.contains(' '),
        unended(tags),
        unended(source),
    ensures
        parser::parsed(Seq::empty()) == Err::<MessageView, ParseError>(ParseError::Empty),
        parser::parsed(seq!['@'] + tags) == Err::<MessageView, ParseError>(
            ParseError::TagsTruncated,
        ),
        parser::parsed(seq![':'] + source) == Err::<MessageView, ParseError>(
            ParseError::SourceTruncated,
        ),
        parser::parsed(seq![':'] + source.push(' ')) == Err::<MessageView, ParseError>(
            ParseError::MissingCommand,
        ),
{
    let a = seq!['@'] + tags;
    let b = seq![':'] + source;
    let c = seq![':'] + source.push(' ');
    assert(a.skip(1) =~= tags);
    assert(b.skip(1) =~= source);
    assert(c.skip(1) =~= source.push(' ') + Seq::<char>::empty());
    if tags.len() > 0 {
        assert(a.last() == tags.last());
    }
    if source.len() > 0 {
        assert(b.last() == source.last());
    }
    assert(c.last() == ' ');
    text::lemma_position(tags, ' ');
    text::lemma_position(source, ' ');
    message_laws::lemma_split_at(source, Seq::empty(), ' ');
    lemma_no_leading_space(Seq::empty());
    text::lemma_position(Seq::empty(), ' ');
}

/// A command is written as it is read: a word as it is, a numeric with at least three
/// digits.
pub proof fn commands_are_written_as_read(c: &Command<'_>, s: String)
    requires
        call_ensures(Command::to_string, (c,), s),
    ensures
        c@ matches CommandView::Word(w) ==> s@ == w,
        c@ matches CommandView::Numeric(n) ==> (n < 1000 ==> parser::command_of(s@) == c@),
{
    if let CommandView::Numeric(n) = c@ {
        if n < 1000 {
            reveal_with_fuel(text::decimal, 3);
            let s0 = s@;
            assert(s0.len() == 3);
        }
    }
}

// ----- tags ---------------------------------------------------------------------

/// The tags of a block are its entries between semicolons, in order; empty ones are passed
/// over.
pub proof fn tags_stand_between_semicolons(entry: Seq<char>, rest: Seq<char>)
    requires
        !entry.contains(';'),
    ensures
        entry.len() == 0 ==> message::tags_of(entry.push(';') + rest) == message::tags_of(rest),
        entry.len() > 0 ==> message::tags_of(entry.push(';') + rest) == seq![message::tag_of(entry)]
            + message::tags_of(rest),
        entry.len() > 0 ==> message::tags_of(entry) == seq![message::tag_of(entry)],
        entry.len() == 0 ==> message::tags_of(entry).len() == 0,
{
    let s = entry.push(';') + rest;
    text::lemma_position(entry, ';');
    message_laws::lemma_split_at(entry, rest, ';');
    text::lemma_position(s, ';');
    let i = text::position(s, ';');
    assert(s.take(i) == entry && s.skip(i + 1) == rest) by {
        assert(text::split_once_at(s, ';') == Some((entry, rest)));
    }
    let ps = text::pieces(s, ';');
    assert(ps == seq![entry] + text::pieces(rest, ';'));
    assert(ps.drop_first() =~= text::pieces(rest, ';'));
    let a = message::tags_of(s);
    let one = text::pieces(entry, ';');
    assert(one == seq![entry]);
    assert(one.drop_first() =~= Seq::<Seq<char>>::empty());
    reveal_with_fuel(text::nonempty, 2);
    if entry.len() > 0 {
        assert(a =~= seq![message::tag_of(entry)] + message::tags_of(rest));
        assert(message::tags_of(entry) =~= seq![message::tag_of(entry)]);
    } else {
        assert(a =~= message::tags_of(rest));
    }
}

/// A tag is a key, or a key and a value with an equals sign between them; the value may
/// have more of them.
pub proof fn tag_is_key_and_value(key: Seq<char>, value: Seq<char>)
    requires
        !key.contains('='),
    ensures
        message::tag_of(key) == (key, None::<Seq<char>>),
        message::tag_of(key.push('=') + value) == (key, Some(value)),
{
    text::lemma_position(key, '=');
    message_laws::lemma_split_at(key, value, '=');
}

/// The first tag with a key is found, and no other.
pub proof fn first_tag_with_a_key_is_found(
    t: message::TagView,
    rest: Seq<message::TagView>,
    key: Seq<char>,
)
    ensures
        message::tag_lookup(Seq::empty(), key) is None,
        t.0 == key ==> message::tag_lookup(seq![t] + rest, key) == Some(t.1),
        t.0 != key ==> message::tag_lookup(seq![t] + rest, key) == message::tag_lookup(rest, key),
{
    assert((seq![t] + rest).drop_first() =~= rest);
}

/// A tag value is read from left to right: `\\:` is a semicolon, `\\s` a space, `\\r` and
/// `\\n` the ends of a line, any other character behind a backslash is itself, and so is
/// every character without one. A backslash at the end is nothing.
pub proof fn escapes_stand_for_characters(c: char, rest: Seq<char>)
    ensures
        message::decoded(Seq::empty()).len() == 0,
        message::decoded(seq!['\\']).len() == 0,
        c != '\\' ==> message::decoded(seq![c] + rest) == seq![c] + message::decoded(rest),
        message::decoded(seq!['\\', ':'] + rest) == seq![';'] + message::decoded(rest),
        message::decoded(seq!['\\', 's'] + rest) == seq![' '] + message::decoded(rest),
        message::decoded(seq!['\\', 'r'] + rest) == seq!['\r'] + message::decoded(rest),
        message::decoded(seq!['\\', 'n'] + rest) == seq!['\n'] + message::decoded(rest),
        message::decoded(seq!['\\', '\\'] + rest) == seq!['\\'] + message::decoded(rest),
        c != ':' && c != 's' && c != 'r' && c != 'n' ==> message::decoded(seq!['\\', c] + rest)
            == seq![c] + message::decoded(rest),
{
    assert((seq![c] + rest).skip(1) =~= rest);
    lemma_escape(':', rest);
    lemma_escape('s', rest);
    lemma_escape('r', rest);
    lemma_escape('n', rest);
    lemma_escape('\\', rest);
    lemma_escape(c, rest);
}

proof fn lemma_escape(c: char, rest: Seq<char>)
    ensures
        message::decoded(seq!['\\', c] + rest) == seq![message::unescape(c)] + message::decoded(
            rest,
        ),
{
    assert((seq!['\\', c] + rest).skip(2) =~= rest);
}

// ----- SASL ---------------------------------------------------------------------

/// PLAIN sends the identity, the username and the password, with a zero byte between
/// them; EXTERNAL sends the identity.
pub proof fn credentials_are_sent_in_order(m: &SaslMechanism, v: Vec<u8>, s: String)
    requires
        call_ensures(SaslMechanism::raw_payload, (m,), v),
        call_ensures(sasl::authenticate_start, (m,), s),
    ensures
        *m matches SaslMechanism::Plain { authzid, username, password } ==> {
            let a = utf8::encode_utf8(authzid@);
            let u = utf8::encode_utf8(username@);
            let p = utf8::encode_utf8(password@);
            &&& s@ == "AUTHENTICATE "@ + "PLAIN"@
            &&& v@.len() == a.len() + u.len() + p.len() + 2
            &&& v@.take(a.len() as int) == a
            &&& v@[a.len() as int] == 0
            &&& v@.subrange(a.len() as int + 1, a.len() as int + 1 + u.len()) == u
            &&& v@[a.len() as int + 1 + u.len()] == 0
            &&& v@.skip(a.len() as int + u.len() + 2) == p
        },
        *m matches SaslMechanism::External { authzid } ==> v@ == utf8::encode_utf8(authzid@) && s@
            == "AUTHENTICATE "@ + "EXTERNAL"@,
{
    if let SaslMechanism::Plain { authzid, username, password } = *m {
        let a = utf8::encode_utf8(authzid@);
        let u = utf8::encode_utf8(username@);
        let p = utf8::encode_utf8(password@);
        assert(v@.take(a.len() as int) =~= a);
        assert(v@.subrange(a.len() as int + 1, a.len() as int + 1 + u.len()) =~= u);
        assert(v@.skip(a.len() as int + u.len() + 2) =~= p);
    }
}

proof fn lemma_payload_line(raw: Seq<u8>, i: int)
    requires
        0 <= i <= raw.len() / 400,
    ensures
        ({
            let lines = sasl::payload_lines(raw);
            let from = 400 * i;
            let to = if from + 400 < raw.len() {
                from + 400
            } else {
                raw.len() as int
            };
            &&& lines.len() == raw.len() / 400 + 1
            &&& from < to ==> lines[i] == "AUTHENTICATE "@ + encoding::base64_standard(
                raw.subrange(from, to),
            )
            &&& from >= to ==> lines[i] == "AUTHENTICATE +"@
        }),
    decreases raw.len(),
{
    if raw.len() >= 400 {
        let rest = raw.skip(400);
        let lines = sasl::payload_lines(raw);
        assert(lines == seq![
            "AUTHENTICATE "@ + encoding::base64_standard(raw.take(400)),
        ] + sasl::payload_lines(rest));
        if i > 0 {
            lemma_payload_line(rest, i - 1);
            assert(lines[i] == sasl::payload_lines(rest)[i - 1]);
            let from = 400 * (i - 1);
            let to = if from + 400 < rest.len() {
                from + 400
            } else {
                rest.len() as int
            };
            if from < to {
                assert(rest.subrange(from, to) =~= raw.subrange(from + 400, to + 400));
            }
        } else {
            lemma_payload_line(rest, 0);
            assert(raw.subrange(0, 400) =~= raw.take(400));
        }
    } else {
        assert(raw.subrange(0, raw.len() as int) =~= raw);
    }
}

/// A payload is sent four hundred bytes to a line, in base64; the last line carries the
/// rest, or a plus sign where nothing is left.
pub proof fn payload_goes_out_in_lines(raw: &Vec<u8>, lines: Vec<String>, i: int)
    requires
        call_ensures(sasl::authenticate_chunks, (raw,), lines),
        0 <= i < lines@.len(),
    ensures
        lines@.len() == raw@.len() / 400 + 1,
        ({
            let from = 400 * i;
            let to = if from + 400 < raw@.len() {
                from + 400
            } else {
                raw@.len() as int
            };
            &&& from < to ==> lines@[i]@ == "AUTHENTICATE "@ + encoding::base64_standard(
                raw@.subrange(from, to),
            )
            &&& from >= to ==> lines@[i]@ == "AUTHENTICATE +"@
        }),
{
    lemma_payload_line(raw@, 0);
    assert(text::views(lines@).len() == raw@.len() / 400 + 1);
    lemma_payload_line(raw@, i);
    assert(lines@[i]@ == text::views(lines@)[i]);
}

// ----- writing at a rate --------------------------------------------------------

/// A new bucket is full.
pub proof fn new_bucket_is_full(capacity: u64, rate: u64, now: u128, r: RateLimiter)
    requires
        call_ensures(RateLimiter::new, (capacity, rate, now), r),
    ensures
        r@.capacity == capacity && r@.available == capacity,
        r@.rate == rate && r@.last_refill == now,
{
}

/// A bucket hands out what it holds once it was refilled: exactly what is asked for, or
/// nothing.
pub proof fn bucket_hands_out_what_it_holds(
    r: &mut RateLimiter,
    n: u64,
    now: u128,
    granted: bool,
)
    requires
        call_ensures(RateLimiter::try_consume, (r, n, now), granted),
    ensures
        ({
            let full = rate_limit::refilled(old(r)@, now as int);
            &&& granted <==> n <= full.available
            &&& granted ==> final(r)@.available == full.available - n
            &&& !granted ==> final(r)@.available == full.available
            &&& final(r)@.last_refill == full.last_refill
            &&& final(r)@.capacity == old(r)@.capacity && final(r)@.rate == old(r)@.rate
        }),
{
}

/// Whoever waits is granted what is asked for, but no more than the bucket can hold; the
/// others are told how long to wait, and take nothing.
pub proof fn waiting_is_granted_or_told(r: &mut RateLimiter, n: u64, now: u128, g: Grant)
    requires
        call_ensures(RateLimiter::wait_for, (r, n, now), g),
    ensures
        ({
            let full = rate_limit::refilled(old(r)@, now as int);
            let wanted = if n <= full.capacity {
                n as int
            } else {
                full.capacity
            };
            &&& g == Grant::Granted <==> wanted <= full.available
            &&& g == Grant::Granted ==> final(r)@.available == full.available - wanted
            &&& g != Grant::Granted ==> final(r)@ == full
            &&& g matches Grant::Wait(ms) ==> ms >= 10 && (0 <= full.rate && (wanted
                - full.available) * 1000 <= u64::MAX ==> {
                let rate = if full.rate == 0 {
                    1
                } else {
                    full.rate
                };
                let missing = (wanted - full.available) * 1000;
                ms * rate >= missing && (ms > 10 ==> (ms - 1) * rate < missing)
            })
        }),
{
    if let Grant::Wait(ms) = g {
        let full = rate_limit::refilled(old(r)@, now as int);
        let missing = rate_limit::need(full, n as int) - full.available;
        let rate = if full.rate == 0 {
            1
        } else {
            full.rate
        };
        if 0 <= full.rate && missing * 1000 <= u64::MAX {
            let m = missing * 1000;
            let up = (m + rate - 1) / rate;
            assert(up * rate >= m && (up - 1) * rate < m) by (nonlinear_arith)
                requires
                    up == (m + rate - 1) / rate,
                    rate > 0,
            ;
            assert(ms * rate >= m) by (nonlinear_arith)
                requires
                    up * rate >= m,
                    ms >= up,
                    rate > 0,
            ;
        }
    }
}

/// Tokens come in at the rate of the bucket: in a whole number of milliseconds, as many as
/// the rate gives in whole tokens, up to the capacity, and no more. Without a rate, or
/// when no time has passed, none come in.
pub proof fn tokens_come_in_at_the_rate(s: BucketState, ms: int)
    requires
        0 <= s.available <= s.capacity,
        0 <= s.rate,
        0 <= ms <= u64::MAX,
        ms * s.rate <= u64::MAX,
    ensures
        ({
            let t = rate_limit::refilled(s, s.last_refill + ms * 1_000_000);
            let earned = ms * s.rate / 1000;
            &&& t.available == (if s.available + earned <= s.capacity {
                s.available + earned
            } else {
                s.capacity
            })
            &&& t.capacity == s.capacity && t.rate == s.rate
            &&& s.last_refill <= t.last_refill <= s.last_refill + ms * 1_000_000
            &&& s.rate > 0 ==> (t.last_refill - s.last_refill) * s.rate <= earned * 1_000_000_000
                < (t.last_refill - s.last_refill + 1_000_000) * s.rate
        }),
{
    let now = s.last_refill + ms * 1_000_000;
    assert(ms * s.rate >= 0) by (nonlinear_arith)
        requires
            ms >= 0,
            s.rate >= 0,
    ;
    if ms == 0 {
        assert(ms * s.rate == 0);
    }
    assert(rate_limit::elapsed_ms(s, now) == ms);
    let earned = ms * s.rate / 1000;
    assert(rate_limit::earned(s, now) == earned);
    rate_limit::refill_is_bounded(s, now);
    if s.rate == 0 {
        assert(ms * s.rate == 0);
    } else if earned > 0 {
        let t = rate_limit::refilled(s, now);
        let k = earned * 1000 / s.rate;
        let rate = s.rate;
        assert(k * rate <= earned * 1000 < (k + 1) * rate) by (nonlinear_arith)
            requires
                k == earned * 1000 / rate,
                rate > 0,
                earned >= 0,
        ;
        assert((k * 1_000_000) * rate == (k * rate) * 1_000_000) by (nonlinear_arith);
        assert((k * 1_000_000 + 1_000_000) * rate == ((k + 1) * rate) * 1_000_000)
            by (nonlinear_arith);
    } else {
        assert((s.last_refill - s.last_refill) * s.rate == 0);
    }
}

/// A clock that goes back brings no tokens and takes none.
pub proof fn clock_going_back_changes_nothing(s: BucketState, now: int)
    requires
        now <= s.last_refill,
    ensures
        rate_limit::refilled(s, now) == s,
{
    assert(rate_limit::elapsed_ms(s, now) * s.rate == 0) by (nonlinear_arith)
        requires
            rate_limit::elapsed_ms(s, now) == 0,
    ;
}

} // verus!
