//! Parsed IRC message representation.
//!
//! [`Message`] borrows directly from the input line; nothing is allocated per
//! message except the list of parameters.

use crate::text;
use std::borrow::Cow;
use vstd::prelude::*;
use vstd::string::*;

verus! {

/// A parsed IRC message.
///
/// Lifetime `'a` is the lifetime of the input line.
#[derive(Debug, Clone, PartialEq, Eq)]
pub struct Message<'a> {
    /// IRCv3 message tags. Empty if the line had no `@tags ` prefix.
    pub tags: Tags<'a>,
    /// The raw source string, e.g. `"nick!user@host"` or `"server.example"`.
    /// `None` if the line had no `:source ` prefix.
    pub source: Option<&'a str>,
    /// Either a textual command (`PRIVMSG`, `JOIN`) or a 3-digit numeric reply.
    pub command: Command<'a>,
    /// Ordered parameters. The trailing `:param with spaces` (if any) is the
    /// last element, without its leading colon.
    pub params: Vec<&'a str>,
}

/// What a [`Message`] says, as plain values.
pub struct MessageView {
    pub tags: Seq<char>,
    pub source: Option<Seq<char>>,
    pub command: CommandView,
    pub params: Seq<Seq<char>>,
}

/// What a [`Command`] is.
pub enum CommandView {
    Word(Seq<char>),
    Numeric(u16),
}

impl<'a> View for Message<'a> {
    type V = MessageView;

    open spec fn view(&self) -> MessageView {
        MessageView {
            tags: self.tags@,
            source: text::opt_str_view(self.source),
            command: self.command@,
            params: text::str_views(self.params@),
        }
    }
}

impl MessageView {
    /// Whether the command is the word `cmd`, up to ASCII case.
    pub open spec fn is_command(self, cmd: Seq<char>) -> bool {
        match self.command {
            CommandView::Word(w) => text::lower(w) == text::lower(cmd),
            CommandView::Numeric(_) => false,
        }
    }

    /// The parameter at `idx`.
    pub open spec fn param(self, idx: int) -> Option<Seq<char>> {
        if 0 <= idx < self.params.len() {
            Some(self.params[idx])
        } else {
            None
        }
    }

    /// The parameter at `idx`, or the empty text.
    pub open spec fn param_or_empty(self, idx: int) -> Seq<char> {
        if 0 <= idx < self.params.len() {
            self.params[idx]
        } else {
            Seq::empty()
        }
    }

    /// The source, or the empty text.
    pub open spec fn source_or_empty(self) -> Seq<char> {
        match self.source {
            Some(s) => s,
            None => Seq::empty(),
        }
    }
}

impl<'a> Message<'a> {
    /// Case-insensitive command match on a textual command. Always `false` for
    /// numeric commands.
    #[must_use]
    pub fn is_command(&self, cmd: &str) -> (r: bool)
        ensures
            r == self@.is_command(cmd@),
    {
        match self.command {
            Command::Word(w) => text::eq_ignore_case(w, cmd),
            Command::Numeric(_) => false,
        }
    }

    /// Numeric command match.
    #[must_use]
    pub fn is_numeric(&self, n: u16) -> (r: bool)
        ensures
            r == (self@.command == CommandView::Numeric(n)),
    {
        match self.command {
            Command::Word(_) => false,
            Command::Numeric(m) => m == n,
        }
    }

    /// Parameter at index, or `None`.
    #[must_use]
    pub fn param(&self, idx: usize) -> (r: Option<&'a str>)
        ensures
            text::opt_str_view(r) == self@.param(idx as int),
    {
        if idx < self.params.len() {
            Some(self.params[idx])
        } else {
            None
        }
    }

    /// Parameter at index, or the empty string.
    pub fn param_or_empty(&self, idx: usize) -> (r: &'a str)
        ensures
            r@ == self@.param_or_empty(idx as int),
    {
        if idx < self.params.len() {
            self.params[idx]
        } else {
            let e = "";
            proof {
                reveal_strlit("");
            }
            assert(e@ =~= Seq::<char>::empty());
            e
        }
    }

    /// The source, or the empty string.
    pub fn source_or_empty(&self) -> (r: &'a str)
        ensures
            r@ == self@.source_or_empty(),
    {
        match self.source {
            Some(s) => s,
            None => {
                let e = "";
                proof {
                    reveal_strlit("");
                }
                assert(e@ =~= Seq::<char>::empty());
                e
            },
        }
    }
}

/// Either a textual command word or a 3-digit numeric reply code.
#[derive(Debug, Clone, Copy, PartialEq, Eq)]
pub enum Command<'a> {
    /// Textual command, e.g. `PRIVMSG`, `JOIN`, `CAP`, `AUTHENTICATE`.
    Word(&'a str),
    /// Numeric reply, e.g. 001 RPL_WELCOME, 353 RPL_NAMREPLY.
    Numeric(u16),
}

impl<'a> View for Command<'a> {
    type V = CommandView;

    open spec fn view(&self) -> CommandView {
        match *self {
            Command::Word(w) => CommandView::Word(w@),
            Command::Numeric(n) => CommandView::Numeric(n),
        }
    }
}

/// A number in decimal, padded with zeros to three digits.
pub open spec fn padded_decimal(n: nat) -> Seq<char> {
    if n < 10 {
        seq!['0', '0'] + text::decimal(n)
    } else if n < 100 {
        seq!['0'] + text::decimal(n)
    } else {
        text::decimal(n)
    }
}

impl<'a> Command<'a> {
    /// The command as it stands on the wire: the word itself, or the number
    /// padded with zeros to three digits.
    pub fn to_string(&self) -> (r: String)
        ensures
            r@ == match self@ {
                CommandView::Word(w) => w,
                CommandView::Numeric(n) => padded_decimal(n as nat),
            },
    {
        match *self {
            Command::Word(w) => text::owned(w),
            Command::Numeric(n) => {
                let mut s = String::new();
                if n < 10 {
                    s.push('0');
                    s.push('0');
                } else if n < 100 {
                    s.push('0');
                }
                let ghost pad = s@;
                s.append(text::decimal_string(n as u64).as_str());
                assert(s@ =~= padded_decimal(n as nat));
                s
            },
        }
    }
}

/// IRCv3 message tags: the raw `key=value;key2;key3=value3` block.
#[derive(Debug, Clone, Copy, PartialEq, Eq)]
pub struct Tags<'a> {
    raw: &'a str,
}

impl<'a> View for Tags<'a> {
    type V = Seq<char>;

    closed spec fn view(&self) -> Seq<char> {
        self.raw@
    }
}

impl<'a> Default for Tags<'a> {
    /// No tags.
    fn default() -> (t: Self)
        ensures
            t@.len() == 0,
    {
        proof {
            reveal_strlit("");
        }
        Tags { raw: "" }
    }
}

/// A tag: its key, and its value if it has one.
pub type TagView = (Seq<char>, Option<Seq<char>>);

/// The tag that one `key` or `key=value` entry stands for.
pub open spec fn tag_of(entry: Seq<char>) -> TagView {
    match text::split_once_at(entry, '=') {
        Some((k, v)) => (k, Some(v)),
        None => (entry, None),
    }
}

/// The tags of a raw block: its non-empty entries between semicolons.
pub open spec fn tags_of(raw: Seq<char>) -> Seq<TagView> {
    let entries = text::nonempty(text::pieces(raw, ';'));
    Seq::new(entries.len(), |i: int| tag_of(entries[i]))
}

/// The value of the first tag named `key`: `None` without such a tag, and
/// `Some(None)` for a tag without a value.
pub open spec fn tag_lookup(tags: Seq<TagView>, key: Seq<char>) -> Option<Option<Seq<char>>>
    decreases tags.len(),
{
    if tags.len() == 0 {
        None
    } else if tags[0].0 == key {
        Some(tags[0].1)
    } else {
        tag_lookup(tags.drop_first(), key)
    }
}

/// The view of one tag as the iterator hands it out.
pub open spec fn tag_view(t: (&str, Option<&str>)) -> TagView {
    (t.0@, text::opt_str_view(t.1))
}

impl<'a> Tags<'a> {
    /// Tags held in the raw block `raw`.
    pub fn new(raw: &'a str) -> (t: Self)
        ensures
            t@ == raw@,
    {
        Tags { raw }
    }

    /// Underlying raw `key=value;key2;key3=value3` string.
    #[must_use]
    pub fn raw(&self) -> (r: &'a str)
        ensures
            r@ == self@,
    {
        self.raw
    }

    /// Whether there is no tag block.
    #[must_use]
    pub fn is_empty(&self) -> (b: bool)
        ensures
            b == (self@.len() == 0),
    {
        self.raw.is_empty()
    }

    /// Iterate the `(key, value)` pairs. A bare `key` (no `=`) yields
    /// `(key, None)`. Values are handed out undecoded: for their escapes see
    /// [`decode_tag_value`].
    #[must_use]
    pub fn iter(&self) -> (it: TagsIter<'a>)
        ensures
            it@ == tags_of(self@),
    {
        TagsIter { rest: self.raw }
    }

    /// Look up a tag by key:
    /// - `None` if the key is absent
    /// - `Some(None)` if the key is present with no value (`key`)
    /// - `Some(Some(v))` if the key is present with a value (`key=v`)
    #[must_use]
    pub fn raw_get(&self, key: &str) -> (r: Option<Option<&'a str>>)
        ensures
            r is Some == tag_lookup(tags_of(self@), key@) is Some,
            r matches Some(v) ==> tag_lookup(tags_of(self@), key@) == Some(text::opt_str_view(v)),
    {
        let mut it = self.iter();
        loop
            invariant
                tag_lookup(tags_of(self@), key@) == tag_lookup(it@, key@),
            decreases it@.len(),
        {
            match it.next() {
                None => {
                    return None;
                },
                Some((k, v)) => {
                    if text::str_eq(k, key) {
                        return Some(v);
                    }
                },
            }
        }
    }
}

/// Iterator over the (key, optional value) pairs of a [`Tags`] block. Its view
/// is the pairs still to come.
#[derive(Debug, Clone)]
pub struct TagsIter<'a> {
    rest: &'a str,
}

impl<'a> View for TagsIter<'a> {
    type V = Seq<TagView>;

    closed spec fn view(&self) -> Seq<TagView> {
        tags_of(self.rest@)
    }
}

impl<'a> TagsIter<'a> {
    /// The next pair, or `None` at the end.
    pub fn next(&mut self) -> (r: Option<(&'a str, Option<&'a str>)>)
        ensures
            r is None == (old(self)@.len() == 0),
            r matches Some(t) ==> tag_view(t) == old(self)@[0] && final(self)@
                == old(self)@.drop_first(),
            r is None ==> final(self)@.len() == 0,
    {
        let ghost all = self@;
        loop
            invariant
                self@ == all,
                all == old(self)@,
            decreases self.rest@.len(),
        {
            if self.rest.is_empty() {
                proof {
                    text::lemma_position(self.rest@, ';');
                    reveal_with_fuel(text::nonempty, 2);
                    assert(text::pieces(self.rest@, ';').drop_first() =~= Seq::empty());
                }
                return None;
            }
            let ghost before = self.rest@;
            proof {
                text::lemma_position(before, ';');
                reveal_with_fuel(text::nonempty, 2);
            }
            let (kv, after) = match text::split_once(self.rest, ';') {
                Some((kv, after)) => (kv, after),
                None => (self.rest, ""),
            };
            proof {
                reveal_strlit("");
                let ps = text::pieces(before, ';');
                assert(ps[0] == kv@);
                if text::position(before, ';') < before.len() {
                    assert(ps.drop_first() =~= text::pieces(after@, ';'));
                    assert(text::nonempty(ps.drop_first()) == text::nonempty(text::pieces(after@, ';')));
                } else {
                    assert(after@ =~= Seq::<char>::empty());
                    text::lemma_position(after@, ';');
                    assert(text::pieces(after@, ';') =~= seq![after@]);
                    assert(text::pieces(after@, ';').drop_first() =~= Seq::empty());
                    assert(ps.drop_first() =~= Seq::empty());
                    assert(text::nonempty(ps.drop_first()) == text::nonempty(text::pieces(after@, ';')));
                }
            }
            self.rest = after;
            if kv.is_empty() {
                assert(self@ =~= all);
                continue;
            }
            let entry = match text::split_once(kv, '=') {
                Some((k, v)) => (k, Some(v)),
                None => (kv, None),
            };
            proof {
                assert(tag_view(entry) == tag_of(kv@));
                assert(all[0] == tag_of(kv@));
                assert(self@ =~= all.drop_first());
            }
            return Some(entry);
        }
    }

    /// All the pairs still to come.
    pub fn collect(self) -> (v: Vec<(&'a str, Option<&'a str>)>)
        ensures
            v@.len() == self@.len(),
            forall|i: int| 0 <= i < v@.len() ==> tag_view(#[trigger] v@[i]) == self@[i],
    {
        let mut it = self;
        let mut v: Vec<(&'a str, Option<&'a str>)> = Vec::new();
        loop
            invariant
                v@.len() + it@.len() == self@.len(),
                it@ == self@.skip(v@.len() as int),
                forall|i: int| 0 <= i < v@.len() ==> tag_view(#[trigger] v@[i]) == self@[i],
            decreases it@.len(),
        {
            match it.next() {
                None => {
                    return v;
                },
                Some(t) => {
                    v.push(t);
                    assert(it@ =~= self@.skip(v@.len() as int));
                },
            }
        }
    }
}

/// The character that an escaped character stands for.
pub open spec fn unescape(c: char) -> char {
    if c == ':' {
        ';'
    } else if c == 's' {
        ' '
    } else if c == 'r' {
        '\r'
    } else if c == 'n' {
        '\n'
    } else {
        c
    }
}

/// A tag value with its escapes resolved; a lone backslash at the end is
/// dropped.
pub open spec fn decoded(value: Seq<char>) -> Seq<char>
    decreases value.len(),
{
    if value.len() == 0 {
        Seq::empty()
    } else if value[0] != '\\' {
        seq![value[0]] + decoded(value.skip(1))
    } else if value.len() == 1 {
        Seq::empty()
    } else {
        seq![unescape(value[1])] + decoded(value.skip(2))
    }
}

/// A value without a backslash decodes to itself.
pub proof fn decoded_without_escapes(value: Seq<char>)
    requires
        !value.contains('\\'),
    ensures
        decoded(value) == value,
    decreases value.len(),
{
    if value.len() > 0 {
        assert(value.contains(value[0]));
        let t = value.skip(1);
        assert forall|i: int| 0 <= i < t.len() implies t[i] != '\\' by {
            assert(t[i] == value[i + 1]);
            assert(value.contains(value[i + 1]));
        }
        decoded_without_escapes(t);
        assert(decoded(value) =~= value);
    } else {
        assert(decoded(value) =~= value);
    }
}

/// Decode IRCv3 message-tag value escapes:
/// `\:` is `;`, `\s` a space, `\\` a backslash, `\r` CR, `\n` LF. Any other
/// escaped character stands for itself, and a lone `\` at the end is dropped.
/// Returns the original slice if no escapes are present.
#[must_use]
pub fn decode_tag_value<'a>(value: &'a str) -> (r: Cow<'a, str>)
    ensures
        r@ == decoded(value@),
        r is Borrowed == !value@.contains('\\'),
{
    let cs = text::chars_of(value);
    let mut first: usize = 0;
    while first < cs.len() && cs[first] != '\\'
        invariant
            cs@ == value@,
            first <= cs.len(),
            forall|j: int| 0 <= j < first ==> cs@[j] != '\\',
        decreases cs.len() - first,
    {
        first = first + 1;
    }
    if first == cs.len() {
        proof {
            decoded_without_escapes(value@);
        }
        return Cow::Borrowed(value);
    }
    assert(value@[first as int] == '\\');
    let mut out = String::new();
    let mut i: usize = 0;
    assert(value@.skip(0) =~= value@);
    assert(out@ + decoded(value@) =~= decoded(value@));
    while i < cs.len()
        invariant
            cs@ == value@,
            i <= cs.len(),
            out@ + decoded(value@.skip(i as int)) == decoded(value@),
        decreases cs.len() - i,
    {
        let ghost rest = value@.skip(i as int);
        let ghost before = out@;
        if cs[i] != '\\' {
            out.push(cs[i]);
            i = i + 1;
            proof {
                assert(rest.skip(1) =~= value@.skip(i as int));
                assert(out@ + decoded(value@.skip(i as int)) =~= before + decoded(rest));
            }
        } else if i + 1 == cs.len() {
            i = i + 1;
            proof {
                assert(decoded(value@.skip(i as int)) =~= Seq::<char>::empty());
                assert(decoded(rest) =~= Seq::<char>::empty());
            }
        } else {
            let c = cs[i + 1];
            let u = if c == ':' {
                ';'
            } else if c == 's' {
                ' '
            } else if c == 'r' {
                '\r'
            } else if c == 'n' {
                '\n'
            } else {
                c
            };
            out.push(u);
            i = i + 2;
            proof {
                assert(rest.skip(2) =~= value@.skip(i as int));
                assert(out@ + decoded(value@.skip(i as int)) =~= before + decoded(rest));
            }
        }
    }
    assert(out@ =~= decoded(value@));
    Cow::Owned(out)
}

/// Errors produced by the line parser.
#[derive(Debug, Clone, Copy, PartialEq, Eq, Structural)]
pub enum ParseError {
    /// Empty line (after stripping the line terminator).
    Empty,
    /// Input bytes were not valid UTF-8.
    NotUtf8,
    /// `@tags` segment with no following space-delimited command.
    TagsTruncated,
    /// `:source` segment with no following space-delimited command.
    SourceTruncated,
    /// Tags and/or source were present but no command followed.
    MissingCommand,
}

} // verus!
