//! Outbound control lines and the splitting of inbound frames into lines.

use vstd::prelude::*;
use crate::pipeline::join_on;
use crate::text::{chars_of, push_text, string_of, strings_view};

verus! {

/// The reply to a server PING.
pub open spec fn pong_line() -> Seq<char> {
    "PONG :tmi.twitch.tv"@
}

/// The capability request sent before authenticating.
pub open spec fn capability_line() -> Seq<char> {
    "CAP REQ :twitch.tv/tags twitch.tv/commands twitch.tv/membership"@
}

/// The channels of a JOIN line, each with its `#`.
pub open spec fn hashed(channels: Seq<Seq<char>>) -> Seq<Seq<char>> {
    channels.map_values(|c: Seq<char>| "#"@ + c)
}

/// `s` split at every `\r\n`, left to right.
pub open spec fn crlf_lines(s: Seq<char>) -> Seq<Seq<char>>
    decreases s.len(),
{
    if s.len() == 0 {
        seq![Seq::<char>::empty()]
    } else if s.len() >= 2 && s[0] == '\r' && s[1] == '\n' {
        seq![Seq::<char>::empty()] + crlf_lines(s.skip(2))
    } else {
        let rest = crlf_lines(s.skip(1));
        rest.update(0, seq![s[0]] + rest[0])
    }
}

/// `p` put in front of the first line of `lines`.
pub open spec fn prepend(p: Seq<char>, lines: Seq<Seq<char>>) -> Seq<Seq<char>> {
    lines.update(0, p + lines[0])
}

/// The non-empty lines of a frame.
pub open spec fn frame_lines(s: Seq<char>) -> Seq<Seq<char>> {
    crlf_lines(s).filter(|l: Seq<char>| l.len() > 0)
}

proof fn lemma_crlf_lines_nonempty(s: Seq<char>)
    ensures
        crlf_lines(s).len() >= 1,
    decreases s.len(),
{
    if s.len() >= 2 && s[0] == '\r' && s[1] == '\n' {
        lemma_crlf_lines_nonempty(s.skip(2));
    } else if s.len() > 0 {
        lemma_crlf_lines_nonempty(s.skip(1));
    }
}

/// A string holding `lit`.
fn text_of(lit: &str) -> (r: String)
    ensures
        r@ == lit@,
{
    let mut r = String::new();
    push_text(&mut r, lit);
    assert(r@ =~= lit@);
    r
}

/// The reply to a server PING.
pub fn pong_message() -> (r: String)
    ensures
        r@ == pong_line(),
{
    text_of("PONG :tmi.twitch.tv")
}

/// The lines that authenticate a connection: the capability request, the
/// token and the nick.
pub fn auth_message(token: &str, nick: &str) -> (r: Vec<String>)
    ensures
        strings_view(r@) == seq![capability_line(), "PASS oauth:"@ + token@, "NICK "@ + nick@],
{
    let cap = text_of("CAP REQ :twitch.tv/tags twitch.tv/commands twitch.tv/membership");
    let mut pass = text_of("PASS oauth:");
    push_text(&mut pass, token);
    let mut nick_line = text_of("NICK ");
    push_text(&mut nick_line, nick);
    let mut r: Vec<String> = Vec::new();
    r.push(cap);
    r.push(pass);
    r.push(nick_line);
    assert(strings_view(r@) =~= seq![capability_line(), "PASS oauth:"@ + token@, "NICK "@ + nick@]);
    r
}

/// The line that joins `channels`: `JOIN #a,#b,...`.
pub fn join_channels_message(channels: &Vec<String>) -> (r: String)
    ensures
        r@ == "JOIN "@ + join_on(hashed(strings_view(channels@)), ','),
{
    let mut r = text_of("JOIN ");
    let ghost hs = hashed(strings_view(channels@));
    let mut i: usize = 0;
    proof {
        reveal_strlit(",");
        reveal_strlit("#");
        assert(hs.take(0) =~= Seq::<Seq<char>>::empty());
        assert(r@ =~= "JOIN "@ + join_on(hs.take(0), ','));
    }
    while i < channels.len()
        invariant
            i <= channels@.len(),
            hs == hashed(strings_view(channels@)),
            r@ == "JOIN "@ + join_on(hs.take(i as int), ','),
        decreases channels.len() - i,
    {
        proof {
            reveal_strlit(",");
            reveal_strlit("#");
        }
        assert(hs.take(i + 1).drop_last() =~= hs.take(i as int));
        let ghost before = r@;
        if i > 0 {
            push_text(&mut r, ",");
        }
        push_text(&mut r, "#");
        push_text(&mut r, channels[i].as_str());
        if i > 0 {
            assert(r@ =~= "JOIN "@ + join_on(hs.take(i + 1), ','));
        } else {
            assert(hs.take(1) =~= seq![hs[0]]);
            assert(r@ =~= "JOIN "@ + join_on(hs.take(i + 1), ','));
        }
        i = i + 1;
    }
    assert(hs.take(i as int) =~= hs);
    r
}

/// The non-empty `\r\n`-separated lines of a frame, in order.
pub fn split_frame(frame: &str) -> (r: Vec<String>)
    ensures
        strings_view(r@) == frame_lines(frame@),
{
    let v = chars_of(frame);
    let n = v.len();
    let ghost s = v@;
    let mut all: Vec<String> = Vec::new();
    let mut start: usize = 0;
    let mut i: usize = 0;
    proof {
        lemma_crlf_lines_nonempty(s);
        assert(s.skip(0) =~= s);
        assert(prepend(Seq::<char>::empty(), crlf_lines(s)) =~= crlf_lines(s));
    }
    while i < n
        invariant
            n == v@.len(),
            s == v@,
            s == frame@,
            start <= i <= n,
            crlf_lines(s) == strings_view(all@) + prepend(s.subrange(start as int, i as int), crlf_lines(s.skip(i as int))),
        decreases n - i,
    {
        let ghost rest = s.skip(i as int);
        proof {
            lemma_crlf_lines_nonempty(rest);
        }
        if i + 1 < n && v[i] == '\r' && v[i + 1] == '\n' {
            assert(rest.skip(2) =~= s.skip(i + 2));
            proof {
                lemma_crlf_lines_nonempty(s.skip(i + 2));
            }
            let line = string_of(&v, start, i);
            let ghost old_all = all@;
            all.push(line);
            assert(strings_view(all@) =~= strings_view(old_all).push(line@));
            i = i + 2;
            start = i;
            assert(s.subrange(start as int, i as int) =~= Seq::<char>::empty());
            assert(prepend(Seq::<char>::empty(), crlf_lines(s.skip(i as int))) =~= crlf_lines(s.skip(i as int)));
            assert(crlf_lines(s) =~= strings_view(all@) + prepend(s.subrange(start as int, i as int), crlf_lines(s.skip(i as int))));
        } else {
            assert(rest.skip(1) =~= s.skip(i + 1));
            proof {
                lemma_crlf_lines_nonempty(s.skip(i + 1));
            }
            assert(s.subrange(start as int, i + 1) =~= s.subrange(start as int, i as int) + seq![s[i as int]]);
            assert(rest[0] == s[i as int]);
            assert(rest.len() >= 2 ==> rest[1] == s[i + 1]);
            let ghost tail = crlf_lines(s.skip(i + 1));
            assert(crlf_lines(rest) == tail.update(0, seq![s[i as int]] + tail[0]));
            assert(s.subrange(start as int, i as int) + (seq![s[i as int]] + tail[0]) =~= s.subrange(
                start as int,
                i + 1,
            ) + tail[0]);
            assert(prepend(s.subrange(start as int, i as int), crlf_lines(rest)) =~= prepend(
                s.subrange(start as int, i + 1),
                crlf_lines(s.skip(i + 1)),
            ));
            i = i + 1;
        }
    }
    let last = string_of(&v, start, n);
    let ghost old_all = all@;
    all.push(last);
    proof {
        assert(s.skip(n as int) =~= Seq::<char>::empty());
        assert(crlf_lines(s.skip(n as int)) == seq![Seq::<char>::empty()]);
        assert(strings_view(all@) =~= strings_view(old_all).push(last@));
        assert(s.subrange(start as int, n as int) + Seq::<char>::empty() =~= s.subrange(start as int, n as int));
        assert(crlf_lines(s) =~= strings_view(all@));
    }
    keep_nonempty(all)
}

/// The strings of `lines` that are not empty, in order.
fn keep_nonempty(lines: Vec<String>) -> (r: Vec<String>)
    ensures
        strings_view(r@) == strings_view(lines@).filter(|l: Seq<char>| l.len() > 0),
{
    let ghost ls = strings_view(lines@);
    let mut out: Vec<String> = Vec::new();
    let mut i: usize = 0;
    for line in it: lines
        invariant
            ls == strings_view(it.seq()),
            strings_view(out@) == ls.take(it.index() as int).filter(|l: Seq<char>| l.len() > 0),
    {
        let ghost k = it.index() as int;
        proof {
            reveal(Seq::filter);
            assert(ls.take(k + 1).drop_last() =~= ls.take(k));
            assert(ls[k] == line@);
        }
        let ghost old_out = out@;
        if !line.as_str().is_empty() {
            out.push(line);
            assert(strings_view(out@) =~= strings_view(old_out).push(ls[k]));
        }
    }
    proof {
        assert(ls.take(ls.len() as int) =~= ls);
    }
    out
}

} // verus!
