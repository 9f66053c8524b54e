//! One protocol line: optional tag block, optional source prefix, command
//! line, optional trailing payload.

use vstd::prelude::*;
use crate::clearmsg_tag::{clearmsg_error, ClearMsgTags};
use crate::privmsg_tag::{privmsg_error, privmsg_fields, PrivMsgTags};
use crate::tags::Tags;
use crate::text::{
    chars_of, find_char, find_from, lemma_split_first_piece, lowercase_of, same_text, split_on,
    split_range, string_of, strings_view, to_lowercase, trim, trim_range,
};

verus! {

/// Who sent a line: `nick` is empty for the server itself.
pub struct ChatSource {
    pub nick: String,
    pub host: String,
}

/// The verbs the pipeline tells apart; any other verb is `UNKNOWN`.
#[derive(Debug, Clone, Copy, PartialEq, Eq, Structural)]
pub enum IRCCommandType {
    PING,
    PRIVMSG,
    CLEARMSG,
    JOIN,
    UNKNOWN,
}

/// The verb of a line with its space-separated parameters.
pub struct IRCCommand {
    pub command: IRCCommandType,
    pub params: Vec<String>,
}

/// A chat command carried in the trailing payload (`!verb arg ...`).
pub struct ChatCommand {
    pub command: String,
    pub params: Vec<String>,
}

/// One decoded protocol line; `params` is the trailing payload.
pub struct ParsedMessage {
    pub tags: Option<Tags>,
    pub source: ChatSource,
    pub command: IRCCommand,
    pub params: Option<String>,
    pub chat_command: Option<ChatCommand>,
}

/// A line that cannot be split into its sections.
#[derive(Debug, Clone, Copy, PartialEq, Eq, Structural)]
pub enum ParseError {
    /// The tag block or the source prefix has no closing space.
    Malformed,
}

/// The mathematical content of a parsed line.
pub struct MessageView {
    pub tags: Option<Map<Seq<char>, Seq<char>>>,
    pub nick: Seq<char>,
    pub host: Seq<char>,
    pub command: IRCCommandType,
    pub params: Seq<Seq<char>>,
    pub trailing: Option<Seq<char>>,
    pub chat_command: Option<(Seq<char>, Seq<Seq<char>>)>,
}

impl ChatCommand {
    pub open spec fn view(&self) -> (Seq<char>, Seq<Seq<char>>) {
        (self.command@, strings_view(self.params@))
    }
}

impl ParsedMessage {
    /// The chat-message tags of this line, when it has a tag block that decodes.
    pub fn privmsg_tags(&self) -> (r: Option<PrivMsgTags>)
        ensures
            match self.tags {
                None => r is None,
                Some(t) => match r {
                    Some(p) => privmsg_error(t@) is None && p.view() == privmsg_fields(t@),
                    None => privmsg_error(t@) is Some,
                },
            },
    {
        match &self.tags {
            Some(t) => match crate::privmsg_tag::parse(t) {
                Ok(x) => Some(x),
                Err(_) => None,
            },
            None => None,
        }
    }

    /// The deletion tags of this line, when it has a tag block that decodes.
    pub fn clearmsg_tags(&self) -> (r: Option<ClearMsgTags>)
        ensures
            match self.tags {
                None => r is None,
                Some(t) => match r {
                    Some(c) => clearmsg_error(t@) is None && c.decodes(t@),
                    None => clearmsg_error(t@) is Some,
                },
            },
    {
        match &self.tags {
            Some(t) => match crate::clearmsg_tag::parse(t) {
                Ok(x) => Some(x),
                Err(_) => None,
            },
            None => None,
        }
    }

    pub open spec fn view(&self) -> MessageView {
        MessageView {
            tags: match self.tags {
                Some(t) => Some(t@),
                None => None,
            },
            nick: self.source.nick@,
            host: self.source.host@,
            command: self.command.command,
            params: strings_view(self.command.params@),
            trailing: match self.params {
                Some(p) => Some(p@),
                None => None,
            },
            chat_command: match self.chat_command {
                Some(c) => Some(c.view()),
                None => None,
            },
        }
    }
}

/// Key of one `key=value` tag: the text before the first `=`.
pub open spec fn tag_key(piece: Seq<char>) -> Seq<char> {
    match find_from(piece, '=', 0) {
        Some(i) => piece.take(i),
        None => piece,
    }
}

/// Value of one `key=value` tag: the text after the first `=` (empty without one).
pub open spec fn tag_value(piece: Seq<char>) -> Seq<char> {
    match find_from(piece, '=', 0) {
        Some(i) => piece.skip(i + 1),
        None => Seq::<char>::empty(),
    }
}

/// The mapping made by inserting the tags in order: a later key overwrites.
pub open spec fn tag_map(pieces: Seq<Seq<char>>) -> Map<Seq<char>, Seq<char>>
    decreases pieces.len(),
{
    if pieces.len() == 0 {
        Map::empty()
    } else {
        tag_map(pieces.drop_last()).insert(tag_key(pieces.last()), tag_value(pieces.last()))
    }
}

/// `(nick, host)` of a source prefix: `nick!host`, or a bare host.
pub open spec fn source_of(prefix: Seq<char>) -> (Seq<char>, Seq<char>) {
    let parts = split_on(prefix, '!');
    if parts.len() == 2 {
        (parts[0], parts[1])
    } else {
        (Seq::<char>::empty(), parts[0])
    }
}

/// The verb classification, case-sensitive.
pub open spec fn command_type_of(verb: Seq<char>) -> IRCCommandType {
    if verb == "PING"@ {
        IRCCommandType::PING
    } else if verb == "PRIVMSG"@ {
        IRCCommandType::PRIVMSG
    } else if verb == "JOIN"@ {
        IRCCommandType::JOIN
    } else if verb == "CLEARMSG"@ {
        IRCCommandType::CLEARMSG
    } else {
        IRCCommandType::UNKNOWN
    }
}

/// Verb and parameters of a command line.
pub open spec fn command_of(text: Seq<char>) -> (IRCCommandType, Seq<Seq<char>>) {
    let parts = split_on(text, ' ');
    (command_type_of(parts[0]), parts.skip(1))
}

/// The chat command of a trailing payload that starts with `!`: the first
/// word without its leading `!`, lower-cased, and the remaining words.
pub open spec fn chat_command_of(trailing: Seq<char>) -> Option<(Seq<char>, Seq<Seq<char>>)> {
    if trailing.len() > 0 && trailing[0] == '!' {
        let parts = split_on(trailing, ' ');
        Some((lowercase_of(parts[0].skip(1)), parts.skip(1)))
    } else {
        None
    }
}

/// The tag block of `line`, if any, and where the rest starts; `None` when
/// the block has no closing space.
pub open spec fn tag_section(line: Seq<char>) -> Option<(Option<Map<Seq<char>, Seq<char>>>, int)> {
    if line.len() > 0 && line[0] == '@' {
        match find_from(line, ' ', 1) {
            Some(e) => Some((Some(tag_map(split_on(line.subrange(1, e), ';'))), e + 1)),
            None => None,
        }
    } else {
        Some((None, 0))
    }
}

/// The source prefix starting at `i`, if any, and where the rest starts;
/// `None` when the prefix has no closing space.
pub open spec fn source_section(line: Seq<char>, i: int) -> Option<(Seq<char>, Seq<char>, int)> {
    if 0 <= i < line.len() && line[i] == ':' {
        match find_from(line, ' ', i + 1) {
            Some(e) => Some((source_of(line.subrange(i + 1, e)).0, source_of(line.subrange(i + 1, e)).1, e + 1)),
            None => None,
        }
    } else {
        Some((Seq::<char>::empty(), Seq::<char>::empty(), i))
    }
}

/// Where the command line that starts at `i` ends: the first `:` or the end.
pub open spec fn command_end(line: Seq<char>, i: int) -> int {
    match find_from(line, ':', i) {
        Some(e) => e,
        None => line.len() as int,
    }
}

/// The trailing payload after the command line that starts at `i`.
pub open spec fn trailing_of(line: Seq<char>, i: int) -> Option<Seq<char>> {
    let end = command_end(line, i);
    if end < line.len() {
        Some(line.subrange(end + 1, line.len() as int))
    } else {
        None
    }
}

/// The decoded line, or `None` for a malformed one.
pub open spec fn parse_line(line: Seq<char>) -> Option<MessageView> {
    match tag_section(line) {
        None => None,
        Some((tags, i1)) => match source_section(line, i1) {
            None => None,
            Some((nick, host, i2)) => {
                let cmd = command_of(trim(line.subrange(i2, command_end(line, i2))));
                let trailing = trailing_of(line, i2);
                Some(
                    MessageView {
                        tags,
                        nick,
                        host,
                        command: cmd.0,
                        params: cmd.1,
                        trailing,
                        chat_command: match trailing {
                            Some(t) => chat_command_of(t),
                            None => None,
                        },
                    },
                )
            },
        },
    }
}

/// The `key=value` pieces of the tag block of a line that has one.
pub open spec fn tag_pieces(line: Seq<char>) -> Seq<Seq<char>> {
    split_on(line.subrange(1, find_from(line, ' ', 1)->Some_0), ';')
}

proof fn lemma_tag_map_last(ps: Seq<Seq<char>>, i: int)
    requires
        0 <= i < ps.len(),
        forall|j: int| i < j < ps.len() ==> tag_key(#[trigger] ps[j]) != tag_key(ps[i]),
    ensures
        tag_map(ps).contains_key(tag_key(ps[i])),
        tag_map(ps)[tag_key(ps[i])] == tag_value(ps[i]),
    decreases ps.len(),
{
    if i < ps.len() - 1 {
        let pre = ps.drop_last();
        assert forall|j: int| i < j < pre.len() implies tag_key(#[trigger] pre[j]) != tag_key(pre[i]) by {
            assert(pre[j] == ps[j]);
        }
        lemma_tag_map_last(pre, i);
        assert(tag_key(ps.last()) != tag_key(ps[i]));
    }
}

proof fn lemma_tag_map_keys(ps: Seq<Seq<char>>, k: Seq<char>)
    ensures
        tag_map(ps).contains_key(k) <==> exists|j: int| 0 <= j < ps.len() && tag_key(#[trigger] ps[j]) == k,
    decreases ps.len(),
{
    if ps.len() > 0 {
        let pre = ps.drop_last();
        lemma_tag_map_keys(pre, k);
        if tag_map(ps).contains_key(k) && tag_key(ps.last()) != k {
            let j = choose|j: int| 0 <= j < pre.len() && tag_key(#[trigger] pre[j]) == k;
            assert(ps[j] == pre[j]);
        }
        if exists|j: int| 0 <= j < ps.len() && tag_key(#[trigger] ps[j]) == k {
            let j = choose|j: int| 0 <= j < ps.len() && tag_key(#[trigger] ps[j]) == k;
            if j < pre.len() {
                assert(pre[j] == ps[j]);
            }
        }
    }
}

/// In a well-formed line with a tag block, the tag mapping holds exactly the
/// keys of the block, and a key that repeats has the value of its last
/// occurrence.
pub proof fn tags_keep_last_value(line: Seq<char>, i: int, k: Seq<char>)
    requires
        line.len() > 0 && line[0] == '@',
        parse_line(line) is Some,
        0 <= i < tag_pieces(line).len(),
        forall|j: int|
            i < j < tag_pieces(line).len() ==> tag_key(#[trigger] tag_pieces(line)[j]) != tag_key(
                tag_pieces(line)[i],
            ),
    ensures
        parse_line(line)->Some_0.tags matches Some(t) && t.contains_key(tag_key(tag_pieces(line)[i]))
            && t[tag_key(tag_pieces(line)[i])] == tag_value(tag_pieces(line)[i]),
        parse_line(line)->Some_0.tags matches Some(t) && (t.contains_key(k) <==> exists|j: int|
            0 <= j < tag_pieces(line).len() && tag_key(#[trigger] tag_pieces(line)[j]) == k),
{
    lemma_tag_map_last(tag_pieces(line), i);
    lemma_tag_map_keys(tag_pieces(line), k);
}

/// Decodes one protocol line.
pub fn parse(msg: &str) -> (r: Result<ParsedMessage, ParseError>)
    ensures
        match r {
            Ok(m) => parse_line(msg@) == Some(m@),
            Err(_) => parse_line(msg@) is None,
        },
{
    let v = chars_of(msg);
    let n = v.len();
    let mut idx: usize = 0;
    let mut tags: Option<Tags> = None;
    if n > 0 && v[0] == '@' {
        let end = match find_char(&v, ' ', 1) {
            Some(e) => e,
            None => return Err(ParseError::Malformed),
        };
        tags = Some(parse_tag_block(&v, 1, end));
        idx = end + 1;
    }
    let mut source = ChatSource { nick: String::new(), host: String::new() };
    if idx < n && v[idx] == ':' {
        let end = match find_char(&v, ' ', idx + 1) {
            Some(e) => e,
            None => return Err(ParseError::Malformed),
        };
        let prefix = string_of(&v, idx + 1, end);
        source = parse_source(prefix.as_str());
        idx = end + 1;
    }
    let end = match find_char(&v, ':', idx) {
        Some(e) => e,
        None => n,
    };
    let bounds = trim_range(&v, idx, end);
    let command_text = string_of(&v, bounds.0, bounds.1);
    let command = parse_command(command_text.as_str());
    let mut params: Option<String> = None;
    let mut chat_command: Option<ChatCommand> = None;
    if end != n {
        let trailing = string_of(&v, end + 1, n);
        chat_command = parse_params(trailing.as_str());
        params = Some(trailing);
    }
    let r = ParsedMessage { tags, source, command, params, chat_command };
    proof {
        assert(r@ =~= parse_line(msg@)->Some_0);
    }
    Ok(r)
}

/// The tags of `v[from..to]`, a `;`-separated list of `key=value`.
fn parse_tag_block(v: &Vec<char>, from: usize, to: usize) -> (r: Tags)
    requires
        from <= to <= v@.len(),
    ensures
        r@ == tag_map(split_on(v@.subrange(from as int, to as int), ';')),
{
    let pieces = split_range(v, from, to, ';');
    let ghost ps = strings_view(pieces@);
    let mut tags = Tags::new();
    let mut j: usize = 0;
    assert(ps.take(0) =~= Seq::<Seq<char>>::empty());
    while j < pieces.len()
        invariant
            j <= pieces@.len(),
            ps == strings_view(pieces@),
            ps == split_on(v@.subrange(from as int, to as int), ';'),
            tags@ == tag_map(ps.take(j as int)),
        decreases pieces.len() - j,
    {
        let kv = split_tag(&pieces[j]);
        tags.insert(kv.0, kv.1);
        assert(ps.take(j + 1).drop_last() =~= ps.take(j as int));
        j = j + 1;
    }
    assert(ps.take(j as int) =~= ps);
    tags
}

/// One `key=value` tag split at its first `=`.
fn split_tag(piece: &String) -> (r: (String, String))
    ensures
        r.0@ == tag_key(piece@),
        r.1@ == tag_value(piece@),
{
    let v = chars_of(piece.as_str());
    match find_char(&v, '=', 0) {
        Some(i) => {
            let n = v.len();
            (string_of(&v, 0, i), string_of(&v, i + 1, n))
        },
        None => {
            assert(v@.subrange(0, v@.len() as int) =~= v@);
            (string_of(&v, 0, v.len()), String::new())
        },
    }
}

/// Classifies a command line and collects its parameters.
pub fn parse_command(command: &str) -> (r: IRCCommand)
    ensures
        (r.command, strings_view(r.params@)) == command_of(command@),
{
    let v = chars_of(command);
    let mut parts = split_range(&v, 0, v.len(), ' ');
    assert(v@.subrange(0, v@.len() as int) =~= command@);
    let ghost all = strings_view(parts@);
    let verb = parts.remove(0);
    assert(strings_view(parts@) =~= all.skip(1));
    let kind = if same_text(&verb, "PING") {
        IRCCommandType::PING
    } else if same_text(&verb, "PRIVMSG") {
        IRCCommandType::PRIVMSG
    } else if same_text(&verb, "JOIN") {
        IRCCommandType::JOIN
    } else if same_text(&verb, "CLEARMSG") {
        IRCCommandType::CLEARMSG
    } else {
        IRCCommandType::UNKNOWN
    };
    IRCCommand { command: kind, params: parts }
}

/// The chat command of a trailing payload, when it starts with `!`.
pub fn parse_params(params: &str) -> (r: Option<ChatCommand>)
    ensures
        match r {
            Some(c) => chat_command_of(params@) == Some(c.view()),
            None => chat_command_of(params@) is None,
        },
{
    let v = chars_of(params);
    if v.len() == 0 || v[0] != '!' {
        return None;
    }
    let mut parts = split_range(&v, 0, v.len(), ' ');
    assert(v@.subrange(0, v@.len() as int) =~= params@);
    let ghost all = strings_view(parts@);
    let first = parts.remove(0);
    assert(strings_view(parts@) =~= all.skip(1));
    proof {
        lemma_split_first_piece(params@, ' ');
    }
    let fv = chars_of(first.as_str());
    let bare = string_of(&fv, 1, fv.len());
    assert(fv@.subrange(1, fv@.len() as int) =~= fv@.skip(1));
    let command = to_lowercase(bare.as_str());
    Some(ChatCommand { command, params: parts })
}

/// Splits a source prefix into nick and host.
pub fn parse_source(prefix: &str) -> (r: ChatSource)
    ensures
        (r.nick@, r.host@) == source_of(prefix@),
{
    let v = chars_of(prefix);
    let mut parts = split_range(&v, 0, v.len(), '!');
    assert(v@.subrange(0, v@.len() as int) =~= prefix@);
    if parts.len() == 2 {
        let host = parts.remove(1);
        let nick = parts.remove(0);
        ChatSource { nick, host }
    } else {
        let host = parts.remove(0);
        ChatSource { nick: String::new(), host }
    }
}

} // verus!
