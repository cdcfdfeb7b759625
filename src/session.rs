use vstd::prelude::*;

use crate::config::AuthConfig;
use crate::message::{Message, MessageView, ParseError, parse_message};
use crate::text::{chars_of, push_seq, starts_with, starts_with_at, string_of, sub_vec};

verus! {

/// The character the service injects out of band into frames.
pub open spec fn is_placeholder(c: char) -> bool {
    c == '\u{e0000}'
}

/// `s` with every placeholder character removed.
pub open spec fn strip_placeholders(s: Seq<char>) -> Seq<char>
    decreases s.len(),
{
    if s.len() == 0 {
        seq![]
    } else if is_placeholder(s.last()) {
        strip_placeholders(s.drop_last())
    } else {
        strip_placeholders(s.drop_last()).push(s.last())
    }
}

/// Unicode's `White_Space` characters.
pub open spec fn is_white_space(c: char) -> bool {
    let u = c as u32;
    (0x9 <= u && u <= 0xd) || u == 0x20 || u == 0x85 || u == 0xa0 || u == 0x1680 || (0x2000 <= u
        && u <= 0x200a) || u == 0x2028 || u == 0x2029 || u == 0x202f || u == 0x205f || u == 0x3000
}

/// `s` without white space at its start.
pub open spec fn trim_front(s: Seq<char>) -> Seq<char>
    decreases s.len(),
{
    if s.len() > 0 && is_white_space(s[0]) {
        trim_front(s.drop_first())
    } else {
        s
    }
}

/// `s` without white space at its end.
pub open spec fn trim_back(s: Seq<char>) -> Seq<char>
    decreases s.len(),
{
    if s.len() > 0 && is_white_space(s.last()) {
        trim_back(s.drop_last())
    } else {
        s
    }
}

/// `s` without white space at either end.
pub open spec fn trim(s: Seq<char>) -> Seq<char> {
    trim_back(trim_front(s))
}

/// Where the line that starts at `pos` ends: at the next CRLF, or at the end.
pub open spec fn line_end(s: Seq<char>, pos: int) -> int
    decreases s.len() - pos,
{
    if pos < 0 || pos + 1 >= s.len() {
        s.len() as int
    } else if s[pos] == '\r' && s[pos + 1] == '\n' {
        pos
    } else {
        line_end(s, pos + 1)
    }
}

/// What the session does about one line of an inbound frame.
#[derive(Debug)]
pub enum FrameAction {
    /// Send this frame back to the server.
    Reply(String),
    /// Hand this message to the handler.
    Dispatch(Message),
    /// The line could not be read.
    Malformed(ParseError),
}

/// What a `FrameAction` holds, with text as sequences of characters.
pub enum FrameActionView {
    Reply(Seq<char>),
    Dispatch(MessageView),
    Malformed(ParseError),
}

impl View for FrameAction {
    type V = FrameActionView;

    open spec fn view(&self) -> FrameActionView {
        match self {
            FrameAction::Reply(s) => FrameActionView::Reply(s@),
            FrameAction::Dispatch(m) => FrameActionView::Dispatch(m@),
            FrameAction::Malformed(e) => FrameActionView::Malformed(*e),
        }
    }
}

/// A list of actions, viewed.
pub open spec fn actions_view(a: Seq<FrameAction>) -> Seq<FrameActionView> {
    a.map_values(|x: FrameAction| x@)
}

/// The frame that answers a keepalive probe.
pub open spec fn pong() -> Seq<char> {
    "PONG :tmi.twitch.tv"@
}

/// What a line that is neither empty nor a probe becomes.
pub open spec fn line_action(line: Seq<char>) -> FrameActionView {
    match parse_message(line) {
        Ok(m) => FrameActionView::Dispatch(m),
        Err(e) => FrameActionView::Malformed(e),
    }
}

/// The actions for the lines of `s` from `pos` on, in order. An empty line
/// ends the frame; a keepalive probe is answered, and where
/// `probe_ends_frame` holds it ends the frame too.
pub open spec fn frame_actions(s: Seq<char>, pos: int, probe_ends_frame: bool) -> Seq<
    FrameActionView,
>
    decreases s.len() - pos,
{
    if pos < 0 || pos > s.len() {
        seq![]
    } else {
        let end = line_end(s, pos);
        let line = trim(s.subrange(pos, end));
        if line.len() == 0 {
            seq![]
        } else if starts_with(line, "PING"@) {
            if !probe_ends_frame && pos <= end && end + 2 <= s.len() {
                seq![FrameActionView::Reply(pong())] + frame_actions(s, end + 2, probe_ends_frame)
            } else {
                seq![FrameActionView::Reply(pong())]
            }
        } else if pos <= end && end + 2 <= s.len() {
            seq![line_action(line)] + frame_actions(s, end + 2, probe_ends_frame)
        } else {
            seq![line_action(line)]
        }
    }
}

/// The four frames that open a session, in the order they are sent.
pub open spec fn handshake(c: AuthConfig) -> Seq<Seq<char>> {
    seq![
        "CAP REQ :"@ + c.capabilities@,
        "PASS "@ + c.token@,
        "NICK "@ + c.username@,
        "JOIN "@ + c.broadcaster@,
    ]
}

/// The frame that leaves the channel.
pub open spec fn part_frame(c: AuthConfig) -> Seq<char> {
    "PART "@ + c.broadcaster@
}

/// Where a session stands.
#[derive(Debug, Clone, Copy, PartialEq, Eq)]
pub enum SessionState {
    /// The transport is not open yet.
    Connecting,
    /// The handshake went out; lines are exchanged.
    Joined,
    /// The session was closed.
    Closed,
}

/// The decisions of one connection: what to send when the transport opens,
/// what to do with each inbound frame, and what to send when it closes.
pub struct Session {
    pub config: AuthConfig,
    pub state: SessionState,
    /// Whether a keepalive probe also drops the lines after it in its frame.
    pub probe_ends_frame: bool,
}

/// A list of strings, viewed.
pub open spec fn strings_view(v: Seq<String>) -> Seq<Seq<char>> {
    v.map_values(|s: String| s@)
}

/// `head` followed by `tail`, as a string.
fn concat(head: &str, tail: &String) -> (r: String)
    ensures
        r@ == head@ + tail@,
{
    let mut out: Vec<char> = Vec::new();
    push_seq(&mut out, head);
    push_seq(&mut out, tail.as_str());
    assert(out@ =~= head@ + tail@);
    string_of(&out)
}

fn is_white_space_char(c: char) -> (r: bool)
    ensures
        r == is_white_space(c),
{
    let u = c as u32;
    (0x9 <= u && u <= 0xd) || u == 0x20 || u == 0x85 || u == 0xa0 || u == 0x1680 || (0x2000 <= u
        && u <= 0x200a) || u == 0x2028 || u == 0x2029 || u == 0x202f || u == 0x205f || u == 0x3000
}

/// `cs` without its placeholder characters.
fn remove_placeholders(cs: &Vec<char>) -> (r: Vec<char>)
    ensures
        r@ == strip_placeholders(cs@),
{
    let mut r: Vec<char> = Vec::new();
    let mut i: usize = 0;
    let n = cs.len();
    while i < n
        invariant
            n == cs@.len(),
            i <= n,
            r@ == strip_placeholders(cs@.subrange(0, i as int)),
        decreases n - i,
    {
        let c = cs[i];
        assert(cs@.subrange(0, i + 1).drop_last() =~= cs@.subrange(0, i as int));
        if c != '\u{e0000}' {
            r.push(c);
        }
        i = i + 1;
    }
    assert(cs@.subrange(0, n as int) =~= cs@);
    r
}

/// The end of the line that starts at `pos`.
fn find_line_end(cs: &Vec<char>, pos: usize) -> (r: usize)
    requires
        pos <= cs@.len(),
    ensures
        r as int == line_end(cs@, pos as int),
        pos <= r <= cs@.len(),
        r < cs@.len() ==> r + 2 <= cs@.len(),
{
    let n = cs.len();
    let mut j: usize = pos;
    while n - j >= 2
        invariant
            n == cs@.len(),
            pos <= j <= n,
            line_end(cs@, j as int) == line_end(cs@, pos as int),
        decreases n - j,
    {
        if cs[j] == '\r' && cs[j + 1] == '\n' {
            return j;
        }
        j = j + 1;
    }
    n
}

/// The bounds of `cs[from..to]` once white space is cut from both ends.
fn trim_bounds(cs: &Vec<char>, from: usize, to: usize) -> (r: (usize, usize))
    requires
        from <= to <= cs@.len(),
    ensures
        from <= r.0 <= r.1 <= to,
        cs@.subrange(r.0 as int, r.1 as int) == trim(cs@.subrange(from as int, to as int)),
{
    let mut lo: usize = from;
    while lo < to && is_white_space_char(cs[lo])
        invariant
            from <= lo <= to <= cs@.len(),
            trim_front(cs@.subrange(from as int, to as int)) == trim_front(
                cs@.subrange(lo as int, to as int),
            ),
        decreases to - lo,
    {
        assert(cs@.subrange(lo as int, to as int).drop_first() =~= cs@.subrange(lo + 1, to as int));
        lo = lo + 1;
    }
    let mut hi: usize = to;
    while hi > lo && is_white_space_char(cs[hi - 1])
        invariant
            from <= lo <= hi <= to <= cs@.len(),
            trim_front(cs@.subrange(from as int, to as int)) == cs@.subrange(lo as int, to as int),
            trim_back(cs@.subrange(lo as int, to as int)) == trim_back(
                cs@.subrange(lo as int, hi as int),
            ),
        decreases hi - lo,
    {
        assert(cs@.subrange(lo as int, hi as int).drop_last() =~= cs@.subrange(lo as int, hi - 1));
        hi = hi - 1;
    }
    (lo, hi)
}

impl Session {
    /// A session that has not opened its transport yet; a keepalive probe
    /// ends the frame it comes in.
    pub fn new(config: AuthConfig) -> (r: Session)
        ensures
            r.config == config,
            r.state == SessionState::Connecting,
            r.probe_ends_frame,
    {
        Session { config, state: SessionState::Connecting, probe_ends_frame: true }
    }

    /// The transport opened: the capability request, the token, the nick and
    /// the join, in that order, one frame each. The session is then joined.
    pub fn on_open(&mut self) -> (r: Vec<String>)
        ensures
            strings_view(r@) == handshake(old(self).config),
            final(self).config == old(self).config,
            final(self).probe_ends_frame == old(self).probe_ends_frame,
            final(self).state == SessionState::Joined,
    {
        let mut frames: Vec<String> = Vec::new();
        frames.push(concat("CAP REQ :", &self.config.capabilities));
        frames.push(concat("PASS ", &self.config.token));
        frames.push(concat("NICK ", &self.config.username));
        frames.push(concat("JOIN ", &self.config.broadcaster));
        self.state = SessionState::Joined;
        assert(strings_view(frames@) =~= handshake(self.config));
        frames
    }

    /// The session closes: unless it was closed already, it leaves its
    /// channel with one last, best-effort frame. The session is then closed.
    pub fn on_close(&mut self) -> (r: Option<String>)
        ensures
            old(self).state != SessionState::Closed ==> (r matches Some(f) && f@ == part_frame(
                old(self).config,
            )),
            old(self).state == SessionState::Closed ==> r is None,
            final(self).config == old(self).config,
            final(self).probe_ends_frame == old(self).probe_ends_frame,
            final(self).state == SessionState::Closed,
    {
        let r = match self.state {
            SessionState::Closed => None,
            _ => Some(concat("PART ", &self.config.broadcaster)),
        };
        self.state = SessionState::Closed;
        r
    }

    /// What to do about one inbound frame: placeholders are dropped, the
    /// frame is cut at each CRLF, and each trimmed line in turn is answered,
    /// read or ends the frame.
    pub fn on_frame(&self, frame: &str) -> (r: Vec<FrameAction>)
        ensures
            actions_view(r@) == frame_actions(
                strip_placeholders(frame@),
                0,
                self.probe_ends_frame,
            ),
    {
        let raw = chars_of(frame);
        let cs = remove_placeholders(&raw);
        let ghost s = cs@;
        let ends = self.probe_ends_frame;
        let n = cs.len();
        let mut actions: Vec<FrameAction> = Vec::new();
        let mut pos: usize = 0;
        loop
            invariant
                n == cs@.len(),
                s == cs@,
                s == strip_placeholders(frame@),
                ends == self.probe_ends_frame,
                pos <= n,
                actions_view(actions@) + frame_actions(s, pos as int, ends) == frame_actions(s, 0, ends),
            decreases n - pos,
        {
            let ghost before = actions@;
            let end = find_line_end(&cs, pos);
            let (lo, hi) = trim_bounds(&cs, pos, end);
            if lo == hi {
                assert(actions_view(actions@) =~= frame_actions(s, 0, ends));
                return actions;
            }
            let line = sub_vec(&cs, lo, hi);
            assert(line@.subrange(0, line@.len() as int) =~= line@);
            let is_probe = starts_with_at(&line, 0, "PING");
            let action = if is_probe {
                FrameAction::Reply(chars_to_pong())
            } else {
                match Message::from_chars(&line) {
                    Ok(m) => FrameAction::Dispatch(m),
                    Err(e) => FrameAction::Malformed(e),
                }
            };
            actions.push(action);
            assert(actions_view(actions@) =~= actions_view(before).push(action@));
            if end == n || (is_probe && ends) {
                assert(actions_view(actions@) =~= actions_view(before) + frame_actions(
                    s,
                    pos as int,
                    ends,
                ));
                return actions;
            }
            assert(actions_view(actions@) + frame_actions(s, end + 2, ends) =~= actions_view(before)
                + frame_actions(s, pos as int, ends));
            pos = end + 2;
        }
    }
}

/// The keepalive answer, as a string.
fn chars_to_pong() -> (r: String)
    ensures
        r@ == pong(),
{
    let mut out: Vec<char> = Vec::new();
    push_seq(&mut out, "PONG :tmi.twitch.tv");
    assert(out@ =~= pong());
    string_of(&out)
}

} // verus!
