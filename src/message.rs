use vstd::prelude::*;

use crate::text::{
    chars_of, find_char, find_from, lemma_find_from, push_seq, starts_with, starts_with_at,
    string_of, string_of_range, sub_vec,
};

verus! {

/// Why a protocol line could not be read.
#[derive(Debug, Clone, Copy, PartialEq, Eq)]
pub enum ParseError {
    /// A line starts a tag block with `@` but no space ends it.
    MissingTagEnd,
    /// No space follows the prefix.
    MissingPrefixEnd,
    /// The prefix does not start with `:`, or its host lies past its end.
    InvalidPrefix,
    /// The command text is shorter than three characters.
    InvalidCommand,
}

/// One `name=value` entry of a line's tag block.
#[derive(Debug, Clone, PartialEq)]
pub struct Tag {
    pub name: String,
    pub value: Option<String>,
}

/// What a `Tag` holds, with text as sequences of characters.
pub struct TagView {
    pub name: Seq<char>,
    pub value: Option<Seq<char>>,
}

/// The origin of a line: a bare host, or a nick and the host after `nick.`.
#[derive(Debug, Clone, PartialEq)]
pub struct Prefix {
    pub nick: Option<String>,
    pub host: String,
}

/// What a `Prefix` holds, with text as sequences of characters.
pub struct PrefixView {
    pub nick: Option<Seq<char>>,
    pub host: Seq<char>,
}

/// The kinds of command the grammar knows, and a three-character reply code.
#[derive(Debug, Clone, PartialEq, Eq, Hash)]
pub enum CommandType {
    JOIN,
    NICK,
    PART,
    PASS,
    PING,
    PONG,
    PRIVMSG,
    CLEARCHAT,
    CLEARMSG,
    GLOBALUSERSTATE,
    HOSTTARGET,
    NOTICE,
    RECONNECT,
    ROOMSTATE,
    USERNOTICE,
    USERSTATE,
    WHISPER,
    CAPREQ,
    CAPACK,
    CAPNAK,
    NUMERIC(String),
}

/// What a `CommandType` holds, with text as sequences of characters.
pub enum CommandTypeView {
    JOIN,
    NICK,
    PART,
    PASS,
    PING,
    PONG,
    PRIVMSG,
    CLEARCHAT,
    CLEARMSG,
    GLOBALUSERSTATE,
    HOSTTARGET,
    NOTICE,
    RECONNECT,
    ROOMSTATE,
    USERNOTICE,
    USERSTATE,
    WHISPER,
    CAPREQ,
    CAPACK,
    CAPNAK,
    NUMERIC(Seq<char>),
}

/// A command kind and whatever text follows its word.
#[derive(Debug, Clone, PartialEq)]
pub struct Command {
    pub command_type: CommandType,
    pub content: Option<String>,
}

/// What a `Command` holds, with text as sequences of characters.
pub struct CommandView {
    pub command_type: CommandTypeView,
    pub content: Option<Seq<char>>,
}

/// One protocol line: its tags, its prefix and its command.
#[derive(Debug, Clone, PartialEq)]
pub struct Message {
    pub tags: Vec<Tag>,
    pub prefix: Prefix,
    pub command: Command,
}

/// What a `Message` holds, with text as sequences of characters.
pub struct MessageView {
    pub tags: Seq<TagView>,
    pub prefix: PrefixView,
    pub command: CommandView,
}

/// An optional string, viewed.
pub open spec fn opt_view(o: Option<String>) -> Option<Seq<char>> {
    match o {
        Some(s) => Some(s@),
        None => None,
    }
}

impl View for Tag {
    type V = TagView;

    open spec fn view(&self) -> TagView {
        TagView { name: self.name@, value: opt_view(self.value) }
    }
}

impl View for Prefix {
    type V = PrefixView;

    open spec fn view(&self) -> PrefixView {
        PrefixView { nick: opt_view(self.nick), host: self.host@ }
    }
}

impl View for CommandType {
    type V = CommandTypeView;

    open spec fn view(&self) -> CommandTypeView {
        match self {
            CommandType::JOIN => CommandTypeView::JOIN,
            CommandType::NICK => CommandTypeView::NICK,
            CommandType::PART => CommandTypeView::PART,
            CommandType::PASS => CommandTypeView::PASS,
            CommandType::PING => CommandTypeView::PING,
            CommandType::PONG => CommandTypeView::PONG,
            CommandType::PRIVMSG => CommandTypeView::PRIVMSG,
            CommandType::CLEARCHAT => CommandTypeView::CLEARCHAT,
            CommandType::CLEARMSG => CommandTypeView::CLEARMSG,
            CommandType::GLOBALUSERSTATE => CommandTypeView::GLOBALUSERSTATE,
            CommandType::HOSTTARGET => CommandTypeView::HOSTTARGET,
            CommandType::NOTICE => CommandTypeView::NOTICE,
            CommandType::RECONNECT => CommandTypeView::RECONNECT,
            CommandType::ROOMSTATE => CommandTypeView::ROOMSTATE,
            CommandType::USERNOTICE => CommandTypeView::USERNOTICE,
            CommandType::USERSTATE => CommandTypeView::USERSTATE,
            CommandType::WHISPER => CommandTypeView::WHISPER,
            CommandType::CAPREQ => CommandTypeView::CAPREQ,
            CommandType::CAPACK => CommandTypeView::CAPACK,
            CommandType::CAPNAK => CommandTypeView::CAPNAK,
            CommandType::NUMERIC(code) => CommandTypeView::NUMERIC(code@),
        }
    }
}

impl View for Command {
    type V = CommandView;

    open spec fn view(&self) -> CommandView {
        CommandView { command_type: self.command_type@, content: opt_view(self.content) }
    }
}

/// A list of tags, viewed.
pub open spec fn tags_view(tags: Seq<Tag>) -> Seq<TagView> {
    tags.map_values(|t: Tag| t@)
}

impl View for Message {
    type V = MessageView;

    open spec fn view(&self) -> MessageView {
        MessageView { tags: tags_view(self.tags@), prefix: self.prefix@, command: self.command@ }
    }
}

// ---------------------------------------------------------------------------
// The grammar, read.

/// `None` for empty text, the text itself otherwise.
pub open spec fn non_empty(s: Seq<char>) -> Option<Seq<char>> {
    if s.len() == 0 {
        None
    } else {
        Some(s)
    }
}

/// A tag splits at its first `=`; a missing or empty value is absent.
pub open spec fn parse_tag(s: Seq<char>) -> TagView {
    match find_from(s, '=', 0) {
        Some(i) => TagView { name: s.subrange(0, i), value: non_empty(s.subrange(i + 1, s.len() as int)) },
        None => TagView { name: s, value: None },
    }
}

/// The tags of the `;`-separated list `b[pos..]`.
pub open spec fn parse_tags_from(b: Seq<char>, pos: int) -> Seq<TagView>
    decreases b.len() - pos,
{
    match find_from(b, ';', pos) {
        Some(i) => if pos <= i < b.len() {
            seq![parse_tag(b.subrange(pos, i))] + parse_tags_from(b, i + 1)
        } else {
            seq![]
        },
        None => seq![parse_tag(b.subrange(pos, b.len() as int))],
    }
}

/// A prefix: `:host`, or `:nick!...@...` whose host starts `nick.len() + 2`
/// characters after the `@`.
///
/// Known fragile edge case: a prefix with an `@` but no `!` is not refused;
/// its nick falls back to the empty text between `:` and index 1, so the host
/// then starts two characters after the `@`.
pub open spec fn parse_prefix(s: Seq<char>) -> Result<PrefixView, ParseError> {
    if s.len() == 0 || s[0] != ':' {
        Err(ParseError::InvalidPrefix)
    } else {
        match find_from(s, '@', 0) {
            None => Ok(PrefixView { nick: None, host: s.subrange(1, s.len() as int) }),
            Some(at) => {
                let bang = match find_from(s, '!', 0) {
                    Some(b) => b,
                    None => 1,
                };
                let start = at + bang - 1 + 2;
                if start > s.len() {
                    Err(ParseError::InvalidPrefix)
                } else {
                    Ok(PrefixView { nick: Some(s.subrange(1, bang)), host: s.subrange(start, s.len() as int) })
                }
            },
        }
    }
}

/// The kind of command that a command text starts with.
pub open spec fn classify(s: Seq<char>) -> CommandTypeView {
    if starts_with(s, seq!['J', 'O', 'I', 'N']) {
        CommandTypeView::JOIN
    } else if starts_with(s, seq!['N', 'I', 'C', 'K']) {
        CommandTypeView::NICK
    } else if starts_with(s, seq!['P', 'A', 'R', 'T']) {
        CommandTypeView::PART
    } else if starts_with(s, seq!['P', 'A', 'S', 'S']) {
        CommandTypeView::PASS
    } else if starts_with(s, seq!['P', 'I', 'N', 'G']) {
        CommandTypeView::PING
    } else if starts_with(s, seq!['P', 'O', 'N', 'G']) {
        CommandTypeView::PONG
    } else if starts_with(s, seq!['P', 'R', 'I', 'V']) {
        CommandTypeView::PRIVMSG
    } else if starts_with(s, seq!['C', 'L', 'E', 'A']) {
        if starts_with(s, seq!['C', 'L', 'E', 'A', 'R', 'M', 'S', 'G']) {
            CommandTypeView::CLEARMSG
        } else {
            CommandTypeView::CLEARCHAT
        }
    } else if starts_with(s, seq!['G', 'L', 'O', 'B']) {
        CommandTypeView::GLOBALUSERSTATE
    } else if starts_with(s, seq!['H', 'O', 'S', 'T']) {
        CommandTypeView::HOSTTARGET
    } else if starts_with(s, seq!['N', 'O', 'T', 'I']) {
        CommandTypeView::NOTICE
    } else if starts_with(s, seq!['R', 'E', 'C', 'O']) {
        CommandTypeView::RECONNECT
    } else if starts_with(s, seq!['R', 'O', 'O', 'M']) {
        CommandTypeView::ROOMSTATE
    } else if starts_with(s, seq!['U', 'S', 'E', 'R']) {
        if starts_with(s, seq!['U', 'S', 'E', 'R', 'S', 'T', 'A', 'T', 'E']) {
            CommandTypeView::USERSTATE
        } else {
            CommandTypeView::USERNOTICE
        }
    } else if starts_with(s, seq!['W', 'H', 'I', 'S']) {
        CommandTypeView::WHISPER
    } else if starts_with(s, seq!['C', 'A', 'P', ' ']) {
        if starts_with(s, seq!['C', 'A', 'P', ' ', 'R', 'E', 'Q']) {
            CommandTypeView::CAPREQ
        } else if starts_with(s, seq!['C', 'A', 'P', ' ', '*', ' ', 'A']) {
            CommandTypeView::CAPACK
        } else {
            CommandTypeView::CAPNAK
        }
    } else {
        CommandTypeView::NUMERIC(s.subrange(0, 3))
    }
}

/// How far content lies into a capability reply: the length of `CAP * ACK `
/// (and of `CAP * NAK `).
pub const CAP_REPLY_PREFIX_LEN: usize = 10;

/// How far content lies into a capability request: the length of `CAP REQ `.
pub const CAP_REQUEST_PREFIX_LEN: usize = 8;

/// Where the content of a command text starts.
pub open spec fn content_start(s: Seq<char>) -> int {
    if starts_with(s, seq!['C', 'A', 'P', ' ', '*']) {
        if s.len() < CAP_REPLY_PREFIX_LEN { s.len() as int } else { CAP_REPLY_PREFIX_LEN as int }
    } else if starts_with(s, seq!['C', 'A', 'P', ' ', 'R']) {
        if s.len() < CAP_REQUEST_PREFIX_LEN { s.len() as int } else { CAP_REQUEST_PREFIX_LEN as int }
    } else {
        match find_from(s, ' ', 0) {
            Some(i) => i + 1,
            None => s.len() as int,
        }
    }
}

/// A command text: its kind, and the rest after its word.
pub open spec fn parse_command(s: Seq<char>) -> Result<CommandView, ParseError> {
    if s.len() < 3 {
        Err(ParseError::InvalidCommand)
    } else {
        Ok(CommandView { command_type: classify(s), content: non_empty(s.subrange(content_start(s), s.len() as int)) })
    }
}

/// The tag block of a line, if any, and where the rest begins.
pub open spec fn tags_part(s: Seq<char>) -> Result<(Seq<TagView>, int), ParseError> {
    if s.len() > 0 && s[0] == '@' {
        match find_from(s, ' ', 0) {
            Some(sp) => Ok((parse_tags_from(s.subrange(1, sp), 0), sp + 1)),
            None => Err(ParseError::MissingTagEnd),
        }
    } else {
        Ok((seq![], 0))
    }
}

/// The prefix that starts at `pos`, and where the command begins.
pub open spec fn prefix_part(s: Seq<char>, pos: int) -> Result<(PrefixView, int), ParseError> {
    match find_from(s, ' ', pos) {
        Some(sp) => match parse_prefix(s.subrange(pos, sp)) {
            Ok(p) => Ok((p, sp + 1)),
            Err(e) => Err(e),
        },
        None => Err(ParseError::MissingPrefixEnd),
    }
}

/// A whole line, without its line terminator.
pub open spec fn parse_message(s: Seq<char>) -> Result<MessageView, ParseError> {
    match tags_part(s) {
        Err(e) => Err(e),
        Ok((tags, pos)) => match prefix_part(s, pos) {
            Err(e) => Err(e),
            Ok((prefix, cpos)) => match parse_command(s.subrange(cpos, s.len() as int)) {
                Err(e) => Err(e),
                Ok(command) => Ok(MessageView { tags, prefix, command }),
            },
        },
    }
}

// ---------------------------------------------------------------------------
// The grammar, written.

/// The text held, or empty text.
pub open spec fn or_empty(o: Option<Seq<char>>) -> Seq<char> {
    match o {
        Some(s) => s,
        None => seq![],
    }
}

/// `name=value`.
pub open spec fn render_tag(t: TagView) -> Seq<char> {
    t.name + seq!['='] + or_empty(t.value)
}

/// Tags joined by `;`.
pub open spec fn render_tags(ts: Seq<TagView>) -> Seq<char>
    decreases ts.len(),
{
    if ts.len() == 0 {
        seq![]
    } else if ts.len() == 1 {
        render_tag(ts[0])
    } else {
        render_tags(ts.drop_last()) + seq![';'] + render_tag(ts.last())
    }
}

/// `:nick!nick@nick.host`, or `:host`.
pub open spec fn render_prefix(p: PrefixView) -> Seq<char> {
    match p.nick {
        Some(n) => seq![':'] + n + seq!['!'] + n + seq!['@'] + n + seq!['.'] + p.host,
        None => seq![':'] + p.host,
    }
}

/// The word that a command kind is written as.
pub open spec fn token(t: CommandTypeView) -> Seq<char> {
    match t {
        CommandTypeView::JOIN => seq!['J', 'O', 'I', 'N'],
        CommandTypeView::NICK => seq!['N', 'I', 'C', 'K'],
        CommandTypeView::PART => seq!['P', 'A', 'R', 'T'],
        CommandTypeView::PASS => seq!['P', 'A', 'S', 'S'],
        CommandTypeView::PING => seq!['P', 'I', 'N', 'G'],
        CommandTypeView::PONG => seq!['P', 'O', 'N', 'G'],
        CommandTypeView::PRIVMSG => seq!['P', 'R', 'I', 'V', 'M', 'S', 'G'],
        CommandTypeView::CLEARCHAT => seq!['C', 'L', 'E', 'A', 'R', 'C', 'H', 'A', 'T'],
        CommandTypeView::CLEARMSG => seq!['C', 'L', 'E', 'A', 'R', 'M', 'S', 'G'],
        CommandTypeView::GLOBALUSERSTATE => seq!['G', 'L', 'O', 'B', 'A', 'L', 'U', 'S', 'E', 'R', 'S', 'T', 'A', 'T', 'E'],
        CommandTypeView::HOSTTARGET => seq!['H', 'O', 'S', 'T', 'T', 'A', 'R', 'G', 'E', 'T'],
        CommandTypeView::NOTICE => seq!['N', 'O', 'T', 'I', 'C', 'E'],
        CommandTypeView::RECONNECT => seq!['R', 'E', 'C', 'O', 'N', 'N', 'E', 'C', 'T'],
        CommandTypeView::ROOMSTATE => seq!['R', 'O', 'O', 'M', 'S', 'T', 'A', 'T', 'E'],
        CommandTypeView::USERNOTICE => seq!['U', 'S', 'E', 'R', 'N', 'O', 'T', 'I', 'C', 'E'],
        CommandTypeView::USERSTATE => seq!['U', 'S', 'E', 'R', 'S', 'T', 'A', 'T', 'E'],
        CommandTypeView::WHISPER => seq!['W', 'H', 'I', 'S', 'P', 'E', 'R'],
        CommandTypeView::CAPREQ => seq!['C', 'A', 'P', ' ', 'R', 'E', 'Q'],
        CommandTypeView::CAPACK => seq!['C', 'A', 'P', ' ', '*', ' ', 'A', 'C', 'K'],
        CommandTypeView::CAPNAK => seq!['C', 'A', 'P', ' ', '*', ' ', 'N', 'A', 'K'],
        CommandTypeView::NUMERIC(code) => code,
    }
}

/// The kind's word, a space, and the content.
pub open spec fn render_command(c: CommandView) -> Seq<char> {
    token(c.command_type) + seq![' '] + or_empty(c.content)
}

/// A line without its terminator.
pub open spec fn render_line(m: MessageView) -> Seq<char> {
    (if m.tags.len() == 0 {
        seq![]
    } else {
        seq!['@'] + render_tags(m.tags) + seq![' ']
    }) + render_prefix(m.prefix) + seq![' '] + render_command(m.command)
}

/// A line with its CRLF terminator.
pub open spec fn render_message(m: MessageView) -> Seq<char> {
    render_line(m) + seq!['\r', '\n']
}

/// The characters of each fixed word of the grammar.
pub proof fn lemma_literals()
    ensures
        "CAP "@ == seq!['C', 'A', 'P', ' '],
        "CAP *"@ == seq!['C', 'A', 'P', ' ', '*'],
        "CAP * A"@ == seq!['C', 'A', 'P', ' ', '*', ' ', 'A'],
        "CAP * ACK"@ == seq!['C', 'A', 'P', ' ', '*', ' ', 'A', 'C', 'K'],
        "CAP * NAK"@ == seq!['C', 'A', 'P', ' ', '*', ' ', 'N', 'A', 'K'],
        "CAP R"@ == seq!['C', 'A', 'P', ' ', 'R'],
        "CAP REQ"@ == seq!['C', 'A', 'P', ' ', 'R', 'E', 'Q'],
        "CLEA"@ == seq!['C', 'L', 'E', 'A'],
        "CLEARCHAT"@ == seq!['C', 'L', 'E', 'A', 'R', 'C', 'H', 'A', 'T'],
        "CLEARMSG"@ == seq!['C', 'L', 'E', 'A', 'R', 'M', 'S', 'G'],
        "GLOB"@ == seq!['G', 'L', 'O', 'B'],
        "GLOBALUSERSTATE"@ == seq!['G', 'L', 'O', 'B', 'A', 'L', 'U', 'S', 'E', 'R', 'S', 'T', 'A', 'T', 'E'],
        "HOST"@ == seq!['H', 'O', 'S', 'T'],
        "HOSTTARGET"@ == seq!['H', 'O', 'S', 'T', 'T', 'A', 'R', 'G', 'E', 'T'],
        "JOIN"@ == seq!['J', 'O', 'I', 'N'],
        "NICK"@ == seq!['N', 'I', 'C', 'K'],
        "NOTI"@ == seq!['N', 'O', 'T', 'I'],
        "NOTICE"@ == seq!['N', 'O', 'T', 'I', 'C', 'E'],
        "PART"@ == seq!['P', 'A', 'R', 'T'],
        "PASS"@ == seq!['P', 'A', 'S', 'S'],
        "PING"@ == seq!['P', 'I', 'N', 'G'],
        "PONG"@ == seq!['P', 'O', 'N', 'G'],
        "PRIV"@ == seq!['P', 'R', 'I', 'V'],
        "PRIVMSG"@ == seq!['P', 'R', 'I', 'V', 'M', 'S', 'G'],
        "RECO"@ == seq!['R', 'E', 'C', 'O'],
        "RECONNECT"@ == seq!['R', 'E', 'C', 'O', 'N', 'N', 'E', 'C', 'T'],
        "ROOM"@ == seq!['R', 'O', 'O', 'M'],
        "ROOMSTATE"@ == seq!['R', 'O', 'O', 'M', 'S', 'T', 'A', 'T', 'E'],
        "USER"@ == seq!['U', 'S', 'E', 'R'],
        "USERNOTICE"@ == seq!['U', 'S', 'E', 'R', 'N', 'O', 'T', 'I', 'C', 'E'],
        "USERSTATE"@ == seq!['U', 'S', 'E', 'R', 'S', 'T', 'A', 'T', 'E'],
        "WHIS"@ == seq!['W', 'H', 'I', 'S'],
        "WHISPER"@ == seq!['W', 'H', 'I', 'S', 'P', 'E', 'R'],
{
    reveal_strlit("CAP ");
    assert("CAP "@ =~= seq!['C', 'A', 'P', ' ']);
    reveal_strlit("CAP *");
    assert("CAP *"@ =~= seq!['C', 'A', 'P', ' ', '*']);
    reveal_strlit("CAP * A");
    assert("CAP * A"@ =~= seq!['C', 'A', 'P', ' ', '*', ' ', 'A']);
    reveal_strlit("CAP * ACK");
    assert("CAP * ACK"@ =~= seq!['C', 'A', 'P', ' ', '*', ' ', 'A', 'C', 'K']);
    reveal_strlit("CAP * NAK");
    assert("CAP * NAK"@ =~= seq!['C', 'A', 'P', ' ', '*', ' ', 'N', 'A', 'K']);
    reveal_strlit("CAP R");
    assert("CAP R"@ =~= seq!['C', 'A', 'P', ' ', 'R']);
    reveal_strlit("CAP REQ");
    assert("CAP REQ"@ =~= seq!['C', 'A', 'P', ' ', 'R', 'E', 'Q']);
    reveal_strlit("CLEA");
    assert("CLEA"@ =~= seq!['C', 'L', 'E', 'A']);
    reveal_strlit("CLEARCHAT");
    assert("CLEARCHAT"@ =~= seq!['C', 'L', 'E', 'A', 'R', 'C', 'H', 'A', 'T']);
    reveal_strlit("CLEARMSG");
    assert("CLEARMSG"@ =~= seq!['C', 'L', 'E', 'A', 'R', 'M', 'S', 'G']);
    reveal_strlit("GLOB");
    assert("GLOB"@ =~= seq!['G', 'L', 'O', 'B']);
    reveal_strlit("GLOBALUSERSTATE");
    assert("GLOBALUSERSTATE"@ =~= seq!['G', 'L', 'O', 'B', 'A', 'L', 'U', 'S', 'E', 'R', 'S', 'T', 'A', 'T', 'E']);
    reveal_strlit("HOST");
    assert("HOST"@ =~= seq!['H', 'O', 'S', 'T']);
    reveal_strlit("HOSTTARGET");
    assert("HOSTTARGET"@ =~= seq!['H', 'O', 'S', 'T', 'T', 'A', 'R', 'G', 'E', 'T']);
    reveal_strlit("JOIN");
    assert("JOIN"@ =~= seq!['J', 'O', 'I', 'N']);
    reveal_strlit("NICK");
    assert("NICK"@ =~= seq!['N', 'I', 'C', 'K']);
    reveal_strlit("NOTI");
    assert("NOTI"@ =~= seq!['N', 'O', 'T', 'I']);
    reveal_strlit("NOTICE");
    assert("NOTICE"@ =~= seq!['N', 'O', 'T', 'I', 'C', 'E']);
    reveal_strlit("PART");
    assert("PART"@ =~= seq!['P', 'A', 'R', 'T']);
    reveal_strlit("PASS");
    assert("PASS"@ =~= seq!['P', 'A', 'S', 'S']);
    reveal_strlit("PING");
    assert("PING"@ =~= seq!['P', 'I', 'N', 'G']);
    reveal_strlit("PONG");
    assert("PONG"@ =~= seq!['P', 'O', 'N', 'G']);
    reveal_strlit("PRIV");
    assert("PRIV"@ =~= seq!['P', 'R', 'I', 'V']);
    reveal_strlit("PRIVMSG");
    assert("PRIVMSG"@ =~= seq!['P', 'R', 'I', 'V', 'M', 'S', 'G']);
    reveal_strlit("RECO");
    assert("RECO"@ =~= seq!['R', 'E', 'C', 'O']);
    reveal_strlit("RECONNECT");
    assert("RECONNECT"@ =~= seq!['R', 'E', 'C', 'O', 'N', 'N', 'E', 'C', 'T']);
    reveal_strlit("ROOM");
    assert("ROOM"@ =~= seq!['R', 'O', 'O', 'M']);
    reveal_strlit("ROOMSTATE");
    assert("ROOMSTATE"@ =~= seq!['R', 'O', 'O', 'M', 'S', 'T', 'A', 'T', 'E']);
    reveal_strlit("USER");
    assert("USER"@ =~= seq!['U', 'S', 'E', 'R']);
    reveal_strlit("USERNOTICE");
    assert("USERNOTICE"@ =~= seq!['U', 'S', 'E', 'R', 'N', 'O', 'T', 'I', 'C', 'E']);
    reveal_strlit("USERSTATE");
    assert("USERSTATE"@ =~= seq!['U', 'S', 'E', 'R', 'S', 'T', 'A', 'T', 'E']);
    reveal_strlit("WHIS");
    assert("WHIS"@ =~= seq!['W', 'H', 'I', 'S']);
    reveal_strlit("WHISPER");
    assert("WHISPER"@ =~= seq!['W', 'H', 'I', 'S', 'P', 'E', 'R']);
}

// ---------------------------------------------------------------------------
// Reading and writing, executable.

/// The text `cs[from..to]`, or `None` where it is empty.
fn non_empty_string(cs: &Vec<char>, from: usize, to: usize) -> (r: Option<String>)
    requires
        from <= to <= cs@.len(),
    ensures
        opt_view(r) == non_empty(cs@.subrange(from as int, to as int)),
{
    if from == to {
        None
    } else {
        Some(string_of_range(cs, from, to))
    }
}

/// Appends a string's characters.
fn push_string(out: &mut Vec<char>, s: &String)
    ensures
        final(out)@ == old(out)@ + s@,
{
    push_seq(out, s.as_str());
}

/// Appends one character.
fn push_one(out: &mut Vec<char>, c: char)
    ensures
        final(out)@ == old(out)@ + seq![c],
{
    out.push(c);
    assert(out@ =~= old(out)@ + seq![c]);
}

impl Tag {
    /// Reads one tag: the name up to the first `=`, the value after it.
    pub fn from_string(tag_string: &str) -> (r: Tag)
        ensures
            r@ == parse_tag(tag_string@),
    {
        let cs = chars_of(tag_string);
        Self::from_chars(&cs)
    }

    fn from_chars(cs: &Vec<char>) -> (r: Tag)
        ensures
            r@ == parse_tag(cs@),
    {
        match find_char(cs, '=', 0) {
            Some(i) => {
                proof {
                    lemma_find_from(cs@, '=', 0);
                }
                let n = cs.len();
                Tag { name: string_of_range(cs, 0, i), value: non_empty_string(cs, i + 1, n) }
            },
            None => Tag { name: string_of(cs), value: None },
        }
    }

    fn write_to(&self, out: &mut Vec<char>)
        ensures
            final(out)@ == old(out)@ + render_tag(self@),
    {
        push_string(out, &self.name);
        push_one(out, '=');
        match &self.value {
            Some(v) => push_string(out, v),
            None => {},
        }
        assert(out@ =~= old(out)@ + render_tag(self@));
    }

    /// `name=value`, with nothing after `=` where the value is absent.
    pub fn to_string(&self) -> (r: String)
        ensures
            r@ == render_tag(self@),
    {
        let mut out: Vec<char> = Vec::new();
        self.write_to(&mut out);
        assert(out@ =~= render_tag(self@));
        string_of(&out)
    }
}

impl Prefix {
    /// Reads a prefix, `:host` or `:nick!nick@nick.host`.
    pub fn from_string(prefix_string: &str) -> (r: Result<Prefix, ParseError>)
        ensures
            match r {
                Ok(p) => parse_prefix(prefix_string@) == Ok::<PrefixView, ParseError>(p@),
                Err(e) => parse_prefix(prefix_string@) == Err::<PrefixView, ParseError>(e),
            },
    {
        let cs = chars_of(prefix_string);
        Self::from_chars(&cs)
    }

    fn from_chars(cs: &Vec<char>) -> (r: Result<Prefix, ParseError>)
        ensures
            match r {
                Ok(p) => parse_prefix(cs@) == Ok::<PrefixView, ParseError>(p@),
                Err(e) => parse_prefix(cs@) == Err::<PrefixView, ParseError>(e),
            },
    {
        if cs.len() == 0 || cs[0] != ':' {
            return Err(ParseError::InvalidPrefix);
        }
        proof {
            lemma_find_from(cs@, '@', 0);
            lemma_find_from(cs@, '!', 0);
        }
        match find_char(cs, '@', 0) {
            None => Ok(Prefix { nick: None, host: string_of_range(cs, 1, cs.len()) }),
            Some(at) => {
                let bang = match find_char(cs, '!', 0) {
                    Some(b) => b,
                    None => 1,
                };
                let n = cs.len();
                // The host starts `nick.len() + 2` characters after the `@`,
                // past `@nick.`; here `nick.len() + 2 == bang + 1`.
                if bang > n - at - 1 {
                    Err(ParseError::InvalidPrefix)
                } else {
                    let nick = string_of_range(cs, 1, bang);
                    let host = string_of_range(cs, at + 1 + bang, n);
                    Ok(Prefix { nick: Some(nick), host })
                }
            },
        }
    }

    fn write_to(&self, out: &mut Vec<char>)
        ensures
            final(out)@ == old(out)@ + render_prefix(self@),
    {
        push_one(out, ':');
        match &self.nick {
            Some(n) => {
                push_string(out, n);
                push_one(out, '!');
                push_string(out, n);
                push_one(out, '@');
                push_string(out, n);
                push_one(out, '.');
            },
            None => {},
        }
        push_string(out, &self.host);
        assert(out@ =~= old(out)@ + render_prefix(self@));
    }

    /// `:nick!nick@nick.host` where there is a nick, else `:host`.
    pub fn to_string(&self) -> (r: String)
        ensures
            r@ == render_prefix(self@),
    {
        let mut out: Vec<char> = Vec::new();
        self.write_to(&mut out);
        assert(out@ =~= render_prefix(self@));
        string_of(&out)
    }
}

impl CommandType {
    /// Classifies a command text by its first characters.
    pub fn from_string(command_string: &str) -> (r: CommandType)
        requires
            command_string@.len() >= 3,
        ensures
            r@ == classify(command_string@),
    {
        let cs = chars_of(command_string);
        Self::from_chars(&cs)
    }

    fn from_chars(cs: &Vec<char>) -> (r: CommandType)
        requires
            cs@.len() >= 3,
        ensures
            r@ == classify(cs@),
    {
        proof {
            lemma_literals();
        }
        assert(cs@.subrange(0, cs@.len() as int) =~= cs@);
        if starts_with_at(cs, 0, "JOIN") {
            CommandType::JOIN
        } else if starts_with_at(cs, 0, "NICK") {
            CommandType::NICK
        } else if starts_with_at(cs, 0, "PART") {
            CommandType::PART
        } else if starts_with_at(cs, 0, "PASS") {
            CommandType::PASS
        } else if starts_with_at(cs, 0, "PING") {
            CommandType::PING
        } else if starts_with_at(cs, 0, "PONG") {
            CommandType::PONG
        } else if starts_with_at(cs, 0, "PRIV") {
            CommandType::PRIVMSG
        } else if starts_with_at(cs, 0, "CLEA") {
            if starts_with_at(cs, 0, "CLEARMSG") {
                CommandType::CLEARMSG
            } else {
                CommandType::CLEARCHAT
            }
        } else if starts_with_at(cs, 0, "GLOB") {
            CommandType::GLOBALUSERSTATE
        } else if starts_with_at(cs, 0, "HOST") {
            CommandType::HOSTTARGET
        } else if starts_with_at(cs, 0, "NOTI") {
            CommandType::NOTICE
        } else if starts_with_at(cs, 0, "RECO") {
            CommandType::RECONNECT
        } else if starts_with_at(cs, 0, "ROOM") {
            CommandType::ROOMSTATE
        } else if starts_with_at(cs, 0, "USER") {
            if starts_with_at(cs, 0, "USERSTATE") {
                CommandType::USERSTATE
            } else {
                CommandType::USERNOTICE
            }
        } else if starts_with_at(cs, 0, "WHIS") {
            CommandType::WHISPER
        } else if starts_with_at(cs, 0, "CAP ") {
            if starts_with_at(cs, 0, "CAP REQ") {
                CommandType::CAPREQ
            } else if starts_with_at(cs, 0, "CAP * A") {
                CommandType::CAPACK
            } else {
                CommandType::CAPNAK
            }
        } else {
            CommandType::NUMERIC(string_of_range(cs, 0, 3))
        }
    }

    /// The word this kind is written as.
    pub fn as_str(&self) -> (r: &str)
        ensures
            r@ == token(self@),
    {
        proof {
            lemma_literals();
        }
        match self {
            CommandType::JOIN => "JOIN",
            CommandType::NICK => "NICK",
            CommandType::PART => "PART",
            CommandType::PASS => "PASS",
            CommandType::PING => "PING",
            CommandType::PONG => "PONG",
            CommandType::PRIVMSG => "PRIVMSG",
            CommandType::CLEARCHAT => "CLEARCHAT",
            CommandType::CLEARMSG => "CLEARMSG",
            CommandType::GLOBALUSERSTATE => "GLOBALUSERSTATE",
            CommandType::HOSTTARGET => "HOSTTARGET",
            CommandType::NOTICE => "NOTICE",
            CommandType::RECONNECT => "RECONNECT",
            CommandType::ROOMSTATE => "ROOMSTATE",
            CommandType::USERNOTICE => "USERNOTICE",
            CommandType::USERSTATE => "USERSTATE",
            CommandType::WHISPER => "WHISPER",
            CommandType::CAPREQ => "CAP REQ",
            CommandType::CAPACK => "CAP * ACK",
            CommandType::CAPNAK => "CAP * NAK",
            CommandType::NUMERIC(code) => code.as_str(),
        }
    }

    /// The word this kind is written as, as an owned string.
    pub fn to_string(&self) -> (r: String)
        ensures
            r@ == token(self@),
    {
        let cs = chars_of(self.as_str());
        string_of(&cs)
    }
}

impl Command {
    /// Reads a command text: its kind and the content after its word.
    pub fn from_string(command_string: &str) -> (r: Result<Command, ParseError>)
        ensures
            match r {
                Ok(c) => parse_command(command_string@) == Ok::<CommandView, ParseError>(c@),
                Err(e) => parse_command(command_string@) == Err::<CommandView, ParseError>(e),
            },
    {
        let cs = chars_of(command_string);
        Self::from_chars(&cs)
    }

    fn from_chars(cs: &Vec<char>) -> (r: Result<Command, ParseError>)
        ensures
            match r {
                Ok(c) => parse_command(cs@) == Ok::<CommandView, ParseError>(c@),
                Err(e) => parse_command(cs@) == Err::<CommandView, ParseError>(e),
            },
    {
        if cs.len() < 3 {
            return Err(ParseError::InvalidCommand);
        }
        proof {
            lemma_literals();
            lemma_find_from(cs@, ' ', 0);
        }
        assert(cs@.subrange(0, cs@.len() as int) =~= cs@);
        let command_type = CommandType::from_chars(cs);
        let start: usize = if starts_with_at(cs, 0, "CAP *") {
            if cs.len() < CAP_REPLY_PREFIX_LEN { cs.len() } else { CAP_REPLY_PREFIX_LEN }
        } else if starts_with_at(cs, 0, "CAP R") {
            if cs.len() < CAP_REQUEST_PREFIX_LEN { cs.len() } else { CAP_REQUEST_PREFIX_LEN }
        } else {
            match find_char(cs, ' ', 0) {
                Some(i) => i + 1,
                None => cs.len(),
            }
        };
        let content = non_empty_string(cs, start, cs.len());
        Ok(Command { command_type, content })
    }

    fn write_to(&self, out: &mut Vec<char>)
        ensures
            final(out)@ == old(out)@ + render_command(self@),
    {
        push_seq(out, self.command_type.as_str());
        push_one(out, ' ');
        match &self.content {
            Some(c) => push_string(out, c),
            None => {},
        }
        assert(out@ =~= old(out)@ + render_command(self@));
    }

    /// The kind's word, a space, and the content.
    pub fn to_string(&self) -> (r: String)
        ensures
            r@ == render_command(self@),
    {
        let mut out: Vec<char> = Vec::new();
        self.write_to(&mut out);
        assert(out@ =~= render_command(self@));
        string_of(&out)
    }
}

impl Message {
    /// Reads one protocol line, given without its line terminator.
    pub fn from_string(message: String) -> (r: Result<Message, ParseError>)
        ensures
            match r {
                Ok(m) => parse_message(message@) == Ok::<MessageView, ParseError>(m@),
                Err(e) => parse_message(message@) == Err::<MessageView, ParseError>(e),
            },
    {
        let cs = chars_of(message.as_str());
        Self::from_chars(&cs)
    }

    /// Reads one protocol line given as characters.
    pub fn from_chars(cs: &Vec<char>) -> (r: Result<Message, ParseError>)
        ensures
            match r {
                Ok(m) => parse_message(cs@) == Ok::<MessageView, ParseError>(m@),
                Err(e) => parse_message(cs@) == Err::<MessageView, ParseError>(e),
            },
    {
        let (tags, pos) = match Self::parse_tags(cs) {
            Ok(t) => t,
            Err(e) => return Err(e),
        };
        let (prefix, cpos) = match Self::parse_prefix(cs, pos) {
            Ok(p) => p,
            Err(e) => return Err(e),
        };
        match Self::parse_command(cs, cpos) {
            Ok(command) => Ok(Message { tags, prefix, command }),
            Err(e) => Err(e),
        }
    }

    /// The tag block, if the line has one, and where the rest begins.
    fn parse_tags(cs: &Vec<char>) -> (r: Result<(Vec<Tag>, usize), ParseError>)
        ensures
            match r {
                Ok((tags, pos)) => tags_part(cs@) == Ok::<(Seq<TagView>, int), ParseError>(
                    (tags_view(tags@), pos as int),
                ) && pos <= cs@.len(),
                Err(e) => tags_part(cs@) == Err::<(Seq<TagView>, int), ParseError>(e),
            },
    {
        if cs.len() == 0 || cs[0] != '@' {
            assert(tags_view(Seq::<Tag>::empty()) =~= Seq::<TagView>::empty());
            return Ok((Vec::new(), 0));
        }
        proof {
            lemma_find_from(cs@, ' ', 0);
        }
        let sp = match find_char(cs, ' ', 0) {
            Some(sp) => sp,
            None => return Err(ParseError::MissingTagEnd),
        };
        let len = cs.len();
        let b = sub_vec(cs, 1, sp);
        let mut tags: Vec<Tag> = Vec::new();
        let mut pos: usize = 0;
        assert(tags_view(tags@) + parse_tags_from(b@, 0) =~= parse_tags_from(b@, 0));
        loop
            invariant
                pos <= b@.len(),
                1 <= sp < len,
                len == cs@.len(),
                cs@.len() > 0 && cs@[0] == '@',
                find_from(cs@, ' ', 0) == Some(sp as int),
                b@ == cs@.subrange(1, sp as int),
                tags_view(tags@) + parse_tags_from(b@, pos as int) == parse_tags_from(b@, 0),
            decreases b@.len() - pos,
        {
            proof {
                lemma_find_from(b@, ';', pos as int);
            }
            let ghost before = tags@;
            let n = b.len();
            match find_char(&b, ';', pos) {
                Some(i) => {
                    let t = Tag::from_chars(&sub_vec(&b, pos, i));
                    tags.push(t);
                    assert(tags_view(tags@) =~= tags_view(before).push(t@));
                    assert(tags_view(tags@) + parse_tags_from(b@, i + 1) =~= tags_view(before)
                        + parse_tags_from(b@, pos as int));
                    pos = i + 1;
                },
                None => {
                    let t = Tag::from_chars(&sub_vec(&b, pos, n));
                    tags.push(t);
                    assert(tags_view(tags@) =~= tags_view(before).push(t@));
                    assert(tags_view(tags@) =~= tags_view(before) + parse_tags_from(
                        b@,
                        pos as int,
                    ));
                    return Ok((tags, sp + 1));
                },
            }
        }
    }

    /// The prefix that starts at `pos`, and where the command begins.
    fn parse_prefix(cs: &Vec<char>, pos: usize) -> (r: Result<(Prefix, usize), ParseError>)
        requires
            pos <= cs@.len(),
        ensures
            match r {
                Ok((p, cpos)) => prefix_part(cs@, pos as int) == Ok::<(PrefixView, int), ParseError>(
                    (p@, cpos as int),
                ) && cpos <= cs@.len(),
                Err(e) => prefix_part(cs@, pos as int) == Err::<(PrefixView, int), ParseError>(e),
            },
    {
        proof {
            lemma_find_from(cs@, ' ', pos as int);
        }
        let sp = match find_char(cs, ' ', pos) {
            Some(sp) => sp,
            None => return Err(ParseError::MissingPrefixEnd),
        };
        let len = cs.len();
        match Prefix::from_chars(&sub_vec(cs, pos, sp)) {
            Ok(p) => Ok((p, sp + 1)),
            Err(e) => Err(e),
        }
    }

    /// The command that fills the line from `pos` on.
    fn parse_command(cs: &Vec<char>, pos: usize) -> (r: Result<Command, ParseError>)
        requires
            pos <= cs@.len(),
        ensures
            match r {
                Ok(c) => parse_command(cs@.subrange(pos as int, cs@.len() as int)) == Ok::<
                    CommandView,
                    ParseError,
                >(c@),
                Err(e) => parse_command(cs@.subrange(pos as int, cs@.len() as int)) == Err::<
                    CommandView,
                    ParseError,
                >(e),
            },
    {
        let n = cs.len();
        Command::from_chars(&sub_vec(cs, pos, n))
    }

    /// Appends the tags joined by `;`.
    fn write_tags(tags: &Vec<Tag>, out: &mut Vec<char>)
        ensures
            final(out)@ == old(out)@ + render_tags(tags_view(tags@)),
    {
        let mut i: usize = 0;
        let n = tags.len();
        while i < n
            invariant
                n == tags@.len(),
                i <= tags@.len(),
                out@ == old(out)@ + render_tags(tags_view(tags@.subrange(0, i as int))),
            decreases tags@.len() - i,
        {
            let ghost mid = out@;
            if i > 0 {
                push_one(out, ';');
            }
            tags[i].write_to(out);
            proof {
                let pre = tags_view(tags@.subrange(0, i as int));
                let cur = tags_view(tags@.subrange(0, i + 1));
                assert(cur.drop_last() =~= pre);
                assert(cur.last() == tags@[i as int]@);
                if i == 0 {
                    assert(pre =~= Seq::<TagView>::empty());
                }
            }
            i = i + 1;
        }
        assert(tags@.subrange(0, tags@.len() as int) =~= tags@);
    }

    /// The line written back: tag block, prefix, command and CRLF.
    pub fn to_string(&self) -> (r: String)
        ensures
            r@ == render_message(self@),
    {
        let mut out: Vec<char> = Vec::new();
        if self.tags.len() > 0 {
            push_one(&mut out, '@');
            Self::write_tags(&self.tags, &mut out);
            push_one(&mut out, ' ');
        }
        self.prefix.write_to(&mut out);
        push_one(&mut out, ' ');
        self.command.write_to(&mut out);
        push_one(&mut out, '\r');
        push_one(&mut out, '\n');
        assert(out@ =~= render_message(self@));
        string_of(&out)
    }
}

} // verus!
