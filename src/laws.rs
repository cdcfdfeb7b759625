use vstd::prelude::*;

use crate::message::{
    classify, content_start, or_empty, parse_command, parse_message, parse_prefix,
    parse_tag, parse_tags_from, prefix_part, render_command, render_line, render_message,
    render_prefix, render_tag, render_tags, tags_part, token, CommandTypeView, CommandView,
    MessageView, ParseError, PrefixView, TagView,
};
use crate::session::{
    frame_actions, line_action, line_end, pong, trim, trim_front, FrameActionView,
};
use crate::text::{find_from, lemma_find_from, lemma_find_from_first, lemma_find_from_none, starts_with};

verus! {

/// `c` does not occur in `s`.
pub open spec fn lacks(s: Seq<char>, c: char) -> bool {
    forall|i: int| 0 <= i < s.len() ==> s[i] != c
}

/// An ASCII digit.
pub open spec fn is_digit(c: char) -> bool {
    '0' <= c && c <= '9'
}

/// A tag that the grammar writes and reads back unchanged: its name holds
/// no `=`, `;` or space, and a value is non-empty and holds no `;` or space.
pub open spec fn tag_ok(t: TagView) -> bool {
    &&& lacks(t.name, '=')
    &&& lacks(t.name, ';')
    &&& lacks(t.name, ' ')
    &&& (t.value matches Some(v) ==> v.len() > 0 && lacks(v, ';') && lacks(v, ' '))
}

/// A prefix that reads back unchanged: no space anywhere; a nick holds no
/// `!` or `@`; a bare host holds no `@`.
pub open spec fn prefix_ok(p: PrefixView) -> bool {
    &&& lacks(p.host, ' ')
    &&& match p.nick {
        Some(n) => lacks(n, '!') && lacks(n, '@') && lacks(n, ' '),
        None => lacks(p.host, '@'),
    }
}

/// A command that reads back unchanged: a reply code is three digits, and
/// content, where present, is not empty.
pub open spec fn command_ok(c: CommandView) -> bool {
    &&& (c.command_type matches CommandTypeView::NUMERIC(code) ==> code.len() == 3 && forall|
        i: int,
    | 0 <= i < 3 ==> is_digit(code[i]))
    &&& (c.content matches Some(x) ==> x.len() > 0)
}

/// A message in the grammar's supported subset.
pub open spec fn message_ok(m: MessageView) -> bool {
    &&& forall|i: int| 0 <= i < m.tags.len() ==> tag_ok(#[trigger] m.tags[i])
    &&& prefix_ok(m.prefix)
    &&& command_ok(m.command)
}

/// Each kind's word, followed by a space, is classified as that kind.
#[verifier::spinoff_prover]
#[verifier::rlimit(100)]
proof fn lemma_classify_token(t: CommandTypeView, x: Seq<char>)
    requires
        t matches CommandTypeView::NUMERIC(code) ==> code.len() == 3 && forall|i: int|
            0 <= i < 3 ==> is_digit(code[i]),
    ensures
        classify(token(t) + seq![' '] + x) == t,
{
    let s = token(t) + seq![' '] + x;
    match t {
        CommandTypeView::JOIN => assert(classify(s) == CommandTypeView::JOIN),
        CommandTypeView::NICK => assert(classify(s) == CommandTypeView::NICK),
        CommandTypeView::PART => assert(classify(s) == CommandTypeView::PART),
        CommandTypeView::PASS => assert(classify(s) == CommandTypeView::PASS),
        CommandTypeView::PING => assert(classify(s) == CommandTypeView::PING),
        CommandTypeView::PONG => assert(classify(s) == CommandTypeView::PONG),
        CommandTypeView::PRIVMSG => assert(classify(s) == CommandTypeView::PRIVMSG),
        CommandTypeView::CLEARCHAT => assert(classify(s) == CommandTypeView::CLEARCHAT),
        CommandTypeView::CLEARMSG => assert(classify(s) == CommandTypeView::CLEARMSG),
        CommandTypeView::GLOBALUSERSTATE => assert(classify(s) == CommandTypeView::GLOBALUSERSTATE),
        CommandTypeView::HOSTTARGET => assert(classify(s) == CommandTypeView::HOSTTARGET),
        CommandTypeView::NOTICE => assert(classify(s) == CommandTypeView::NOTICE),
        CommandTypeView::RECONNECT => assert(classify(s) == CommandTypeView::RECONNECT),
        CommandTypeView::ROOMSTATE => assert(classify(s) == CommandTypeView::ROOMSTATE),
        CommandTypeView::USERNOTICE => assert(classify(s) == CommandTypeView::USERNOTICE),
        CommandTypeView::USERSTATE => assert(classify(s) == CommandTypeView::USERSTATE),
        CommandTypeView::WHISPER => assert(classify(s) == CommandTypeView::WHISPER),
        CommandTypeView::CAPREQ => assert(classify(s) == CommandTypeView::CAPREQ),
        CommandTypeView::CAPACK => assert(classify(s) == CommandTypeView::CAPACK),
        CommandTypeView::CAPNAK => assert(classify(s) == CommandTypeView::CAPNAK),
        CommandTypeView::NUMERIC(code) => {
            assert(s.subrange(0, 3) =~= code);
        },
    }
}

proof fn lemma_command_round_trip(c: CommandView)
    requires
        command_ok(c),
    ensures
        parse_command(render_command(c)) == Ok::<CommandView, ParseError>(c),
{
    let t = token(c.command_type);
    let rest = or_empty(c.content);
    let s = render_command(c);
    assert(s == t + seq![' '] + rest);
    lemma_classify_token(c.command_type, rest);
    assert(forall|j: int| 0 <= j < t.len() ==> s[j] == t[j]);
    match c.command_type {
        CommandTypeView::CAPREQ => {},
        CommandTypeView::CAPACK => {},
        CommandTypeView::CAPNAK => {},
        _ => {
            assert(forall|j: int| 0 <= j < t.len() ==> t[j] != ' ');
            lemma_find_from_first(s, ' ', 0, t.len() as int);
        },
    }
    assert(content_start(s) == t.len() + 1);
    assert(s.subrange(t.len() as int + 1, s.len() as int) =~= rest);
}

proof fn lemma_tag_round_trip(t: TagView)
    requires
        tag_ok(t),
    ensures
        parse_tag(render_tag(t)) == t,
        lacks(render_tag(t), ';'),
        lacks(render_tag(t), ' '),
{
    let s = render_tag(t);
    let k = t.name.len() as int;
    assert(s[k] == '=');
    lemma_find_from_first(s, '=', 0, k);
    assert(s.subrange(0, k) =~= t.name);
    assert(s.subrange(k + 1, s.len() as int) =~= or_empty(t.value));
}

/// Finding from `pos` in `a` and in a longer text that starts with `a`.
proof fn lemma_find_in_prefix(a: Seq<char>, s: Seq<char>, c: char, pos: int)
    requires
        0 <= pos <= a.len() <= s.len(),
        forall|i: int| 0 <= i < a.len() ==> s[i] == a[i],
    ensures
        find_from(a, c, pos) matches Some(i) ==> find_from(s, c, pos) == Some(i),
        find_from(a, c, pos) is None ==> find_from(s, c, pos) == find_from(s, c, a.len() as int),
    decreases a.len() - pos,
{
    if pos < a.len() && a[pos] != c {
        lemma_find_in_prefix(a, s, c, pos + 1);
    }
}

/// Reading `a;b` from `pos` reads `a` from `pos`, then `b`.
proof fn lemma_tags_split_last(a: Seq<char>, b: Seq<char>, pos: int)
    requires
        0 <= pos <= a.len(),
        lacks(b, ';'),
    ensures
        parse_tags_from(a + seq![';'] + b, pos) == parse_tags_from(a, pos) + seq![parse_tag(b)],
    decreases a.len() - pos,
{
    let s = a + seq![';'] + b;
    lemma_find_in_prefix(a, s, ';', pos);
    lemma_find_from(a, ';', pos);
    let n = a.len() as int;
    assert(s[n] == ';');
    lemma_find_from_first(s, ';', n, n);
    assert(forall|j: int| n + 1 <= j < s.len() ==> s[j] == b[j - n - 1]);
    lemma_find_from_none(s, ';', n + 1);
    assert(s.subrange(n + 1, s.len() as int) =~= b);
    match find_from(a, ';', pos) {
        Some(i) => {
            lemma_tags_split_last(a, b, i + 1);
            assert(s.subrange(pos, i) =~= a.subrange(pos, i));
            assert(parse_tags_from(s, pos) =~= parse_tags_from(a, pos) + seq![parse_tag(b)]);
        },
        None => {
            assert(parse_tags_from(s, n + 1) == seq![parse_tag(b)]);
            assert(s.subrange(pos, n) =~= a.subrange(pos, n));
            assert(parse_tags_from(s, pos) =~= parse_tags_from(a, pos) + seq![parse_tag(b)]);
        },
    }
}

proof fn lemma_tags_round_trip(ts: Seq<TagView>)
    requires
        ts.len() > 0,
        forall|i: int| 0 <= i < ts.len() ==> tag_ok(#[trigger] ts[i]),
    ensures
        parse_tags_from(render_tags(ts), 0) == ts,
        lacks(render_tags(ts), ' '),
    decreases ts.len(),
{
    if ts.len() == 1 {
        let r = render_tag(ts[0]);
        lemma_tag_round_trip(ts[0]);
        lemma_find_from_none(r, ';', 0);
        assert(r.subrange(0, r.len() as int) =~= r);
        assert(parse_tags_from(r, 0) =~= ts);
    } else {
        let init = ts.drop_last();
        assert(forall|i: int| 0 <= i < init.len() ==> init[i] == ts[i]);
        lemma_tags_round_trip(init);
        lemma_tag_round_trip(ts.last());
        lemma_tags_split_last(render_tags(init), render_tag(ts.last()), 0);
        assert(parse_tags_from(render_tags(ts), 0) =~= ts);
    }
}

proof fn lemma_prefix_round_trip(p: PrefixView)
    requires
        prefix_ok(p),
    ensures
        parse_prefix(render_prefix(p)) == Ok::<PrefixView, ParseError>(p),
        lacks(render_prefix(p), ' '),
{
    let s = render_prefix(p);
    match p.nick {
        None => {
            assert(forall|j: int| 1 <= j < s.len() ==> s[j] == p.host[j - 1]);
            lemma_find_from_none(s, '@', 0);
            assert(s.subrange(1, s.len() as int) =~= p.host);
        },
        Some(n) => {
            let k = n.len() as int;
            assert(forall|j: int| 1 <= j < 1 + k ==> s[j] == n[j - 1]);
            assert(forall|j: int| 2 + k <= j < 2 + 2 * k ==> s[j] == n[j - 2 - k]);
            assert(forall|j: int| 3 + 2 * k <= j < 3 + 3 * k ==> s[j] == n[j - 3 - 2 * k]);
            assert(forall|j: int| 4 + 3 * k <= j < s.len() ==> s[j] == p.host[j - 4 - 3 * k]);
            assert(s[1 + k] == '!');
            assert(s[2 + 2 * k] == '@');
            lemma_find_from_first(s, '!', 0, 1 + k);
            lemma_find_from_first(s, '@', 0, 2 + 2 * k);
            assert(s.subrange(1, 1 + k) =~= n);
            assert(s.subrange(4 + 3 * k, s.len() as int) =~= p.host);
        },
    }
}

/// Round trip: a message in the supported subset, written as a line, reads
/// back as the same message; so reading any such line and writing the
/// result gives the line back, with its CRLF terminator.
pub proof fn lemma_round_trip(m: MessageView)
    requires
        message_ok(m),
    ensures
        parse_message(render_line(m)) == Ok::<MessageView, ParseError>(m),
        render_message(m) == render_line(m) + seq!['\r', '\n'],
{
    let s = render_line(m);
    let tb = if m.tags.len() == 0 {
        Seq::<char>::empty()
    } else {
        seq!['@'] + render_tags(m.tags) + seq![' ']
    };
    let pr = render_prefix(m.prefix);
    let cm = render_command(m.command);
    assert(s == tb + pr + seq![' '] + cm);
    lemma_prefix_round_trip(m.prefix);
    lemma_command_round_trip(m.command);
    let t = tb.len() as int;
    let q = pr.len() as int;
    // The tag block.
    if m.tags.len() == 0 {
        assert(pr[0] == ':');
        assert(s =~= pr + seq![' '] + cm);
        assert(s[0] == ':');
        assert(m.tags =~= Seq::<TagView>::empty());
        assert(tags_part(s) == Ok::<(Seq<TagView>, int), ParseError>((m.tags, 0)));
    } else {
        let r = render_tags(m.tags);
        let rl = r.len() as int;
        lemma_tags_round_trip(m.tags);
        assert(forall|j: int| 1 <= j < 1 + rl ==> s[j] == r[j - 1]);
        assert(s[1 + rl] == ' ');
        lemma_find_from_first(s, ' ', 0, 1 + rl);
        assert(s.subrange(1, 1 + rl) =~= r);
        assert(tags_part(s) == Ok::<(Seq<TagView>, int), ParseError>((m.tags, t)));
    }
    // The prefix.
    assert(forall|j: int| t <= j < t + q ==> s[j] == pr[j - t]);
    assert(s[t + q] == ' ');
    lemma_find_from_first(s, ' ', t, t + q);
    assert(s.subrange(t, t + q) =~= pr);
    assert(prefix_part(s, t) == Ok::<(PrefixView, int), ParseError>((m.prefix, t + q + 1)));
    // The command.
    assert(s.subrange(t + q + 1, s.len() as int) =~= cm);
}

/// An `=` with nothing after it reads as an absent value, and the tag is
/// written back as the same text, however often this is repeated.
pub proof fn lemma_empty_value_normalizes(name: Seq<char>)
    requires
        lacks(name, '='),
    ensures
        parse_tag(name + seq!['=']) == (TagView { name, value: None }),
        render_tag(parse_tag(name + seq!['='])) == name + seq!['='],
{
    let s = name + seq!['='];
    let k = name.len() as int;
    lemma_find_from_first(s, '=', 0, k);
    assert(s.subrange(0, k) =~= name);
    assert(s.subrange(k + 1, s.len() as int) =~= Seq::<char>::empty());
    assert(render_tag(TagView { name, value: None }) =~= s);
}

/// Whether a command text starts with one of the words the classifier knows.
pub open spec fn starts_with_known_word(s: Seq<char>) -> bool {
    ||| starts_with(s, seq!['J', 'O', 'I', 'N'])
    ||| starts_with(s, seq!['N', 'I', 'C', 'K'])
    ||| starts_with(s, seq!['P', 'A', 'R', 'T'])
    ||| starts_with(s, seq!['P', 'A', 'S', 'S'])
    ||| starts_with(s, seq!['P', 'I', 'N', 'G'])
    ||| starts_with(s, seq!['P', 'O', 'N', 'G'])
    ||| starts_with(s, seq!['P', 'R', 'I', 'V'])
    ||| starts_with(s, seq!['C', 'L', 'E', 'A'])
    ||| starts_with(s, seq!['G', 'L', 'O', 'B'])
    ||| starts_with(s, seq!['H', 'O', 'S', 'T'])
    ||| starts_with(s, seq!['N', 'O', 'T', 'I'])
    ||| starts_with(s, seq!['R', 'E', 'C', 'O'])
    ||| starts_with(s, seq!['R', 'O', 'O', 'M'])
    ||| starts_with(s, seq!['U', 'S', 'E', 'R'])
    ||| starts_with(s, seq!['W', 'H', 'I', 'S'])
    ||| starts_with(s, seq!['C', 'A', 'P', ' '])
}

/// Classification is total: a text that starts with a known word gets a
/// named kind, and any other text of three or more characters gets the
/// reply-code kind holding its first three characters.
pub proof fn lemma_classification_total(s: Seq<char>)
    requires
        s.len() >= 3,
    ensures
        starts_with_known_word(s) ==> !(classify(s) is NUMERIC),
        !starts_with_known_word(s) ==> classify(s) == CommandTypeView::NUMERIC(s.subrange(0, 3)),
{
}

/// Where no CRLF starts in `s[pos..k]` and one starts at `k`, the line that
/// starts at `pos` ends at `k`.
proof fn lemma_line_end_at(s: Seq<char>, pos: int, k: int)
    requires
        0 <= pos <= k,
        k + 1 < s.len(),
        s[k] == '\r' && s[k + 1] == '\n',
        forall|j: int| pos <= j < k ==> s[j] != '\r',
    ensures
        line_end(s, pos) == k,
    decreases k - pos,
{
    if pos < k {
        lemma_line_end_at(s, pos + 1, k);
    }
}

/// Where probes end frames, a frame whose first line is a keepalive probe
/// is answered with exactly one reply, and nothing after the probe is read.
pub proof fn lemma_probe_ends_frame(s: Seq<char>)
    requires
        starts_with(trim(s.subrange(0, line_end(s, 0))), "PING"@),
    ensures
        frame_actions(s, 0, true) == seq![FrameActionView::Reply(pong())],
{
    reveal_strlit("PING");
}

/// Lines, each followed by CRLF, as one frame.
pub open spec fn crlf_joined(lines: Seq<Seq<char>>) -> Seq<char>
    decreases lines.len(),
{
    if lines.len() == 0 {
        seq![]
    } else {
        lines[0] + seq!['\r', '\n'] + crlf_joined(lines.drop_first())
    }
}

/// A line that a frame hands on as it is: not empty, free of CR, already
/// trimmed, and no keepalive probe.
pub open spec fn plain_line(l: Seq<char>) -> bool {
    &&& l.len() > 0
    &&& lacks(l, '\r')
    &&& trim(l) == l
    &&& !starts_with(l, "PING"@)
}

proof fn lemma_batched_from(p: Seq<char>, lines: Seq<Seq<char>>, probe_ends_frame: bool)
    requires
        forall|i: int| 0 <= i < lines.len() ==> plain_line(#[trigger] lines[i]),
    ensures
        frame_actions(p + crlf_joined(lines), p.len() as int, probe_ends_frame) == lines.map_values(
            |l: Seq<char>| line_action(l),
        ),
    decreases lines.len(),
{
    let s = p + crlf_joined(lines);
    let k = p.len() as int;
    if lines.len() == 0 {
        assert(s =~= p);
        let e = s.len() as int;
        assert(line_end(s, e) == e);
        assert(s.subrange(e, e) =~= Seq::<char>::empty());
        assert(trim_front(Seq::<char>::empty()) == Seq::<char>::empty());
        assert(trim(Seq::<char>::empty()) == Seq::<char>::empty());
        assert(lines.map_values(|l: Seq<char>| line_action(l)) =~= Seq::<FrameActionView>::empty());
    } else {
        let a = lines[0];
        let rest = lines.drop_first();
        let n = a.len() as int;
        assert(plain_line(a));
        assert(forall|i: int| 0 <= i < rest.len() ==> rest[i] == lines[i + 1]);
        let q = p + a + seq!['\r', '\n'];
        assert(s =~= q + crlf_joined(rest));
        assert(forall|j: int| k <= j < k + n ==> s[j] == a[j - k]);
        assert(s[k + n] == '\r' && s[k + n + 1] == '\n');
        lemma_line_end_at(s, k, k + n);
        assert(s.subrange(k, k + n) =~= a);
        lemma_batched_from(q, rest, probe_ends_frame);
        assert(q.len() == k + n + 2);
        assert(lines.map_values(|l: Seq<char>| line_action(l)) =~= seq![line_action(a)]
            + rest.map_values(|l: Seq<char>| line_action(l)));
    }
}

/// A frame of lines joined and ended by CRLF, none of them empty or a
/// probe, hands on every line, in arrival order, each exactly once.
pub proof fn lemma_batched_dispatch(lines: Seq<Seq<char>>, probe_ends_frame: bool)
    requires
        forall|i: int| 0 <= i < lines.len() ==> plain_line(#[trigger] lines[i]),
    ensures
        frame_actions(crlf_joined(lines), 0, probe_ends_frame) == lines.map_values(
            |l: Seq<char>| line_action(l),
        ),
{
    lemma_batched_from(Seq::<char>::empty(), lines, probe_ends_frame);
    assert(Seq::<char>::empty() + crlf_joined(lines) =~= crlf_joined(lines));
}

} // verus!
