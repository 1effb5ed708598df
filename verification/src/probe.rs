//! What the health probe makes of the server's answer.

use crate::text::{chars_of, same_text, text_of};
use vstd::prelude::*;

verus! {

/// The text a run of bytes stands for when it is read as UTF-8, with a replacement character
/// for what is not.
pub uninterp spec fn lossy_text_of(bytes: Seq<u8>) -> Seq<char>;

/// Calls `String::from_utf8_lossy`. The result depends on the bytes alone.
#[verifier::external_body]
fn lossy_text(bytes: &Vec<u8>) -> (text: String)
    ensures
        text@ == lossy_text_of(bytes@),
{
    String::from_utf8_lossy(bytes).into_owned()
}

/// Whether a character has Unicode's `White_Space` property.
pub open spec fn is_white_space(c: char) -> bool {
    ||| '\u{9}' <= c <= '\u{d}'
    ||| c == '\u{20}' || c == '\u{85}' || c == '\u{a0}' || c == '\u{1680}'
    ||| '\u{2000}' <= c <= '\u{200a}'
    ||| c == '\u{2028}' || c == '\u{2029}' || c == '\u{202f}' || c == '\u{205f}' || c == '\u{3000}'
}

/// A text without the white space at its end.
pub open spec fn trimmed_end(text: Seq<char>) -> Seq<char>
    decreases text.len(),
{
    if text.len() > 0 && is_white_space(text.last()) {
        trimmed_end(text.drop_last())
    } else {
        text
    }
}

/// A text up to its first space.
pub open spec fn before_space(text: Seq<char>) -> Seq<char> {
    if text.contains(' ') {
        text.take(text.index_of_first(' ')->0)
    } else {
        text
    }
}

/// A text from behind its first space; nothing when there is none.
pub open spec fn after_space(text: Seq<char>) -> Seq<char> {
    if text.contains(' ') {
        text.skip(text.index_of_first(' ')->0 + 1)
    } else {
        Seq::empty()
    }
}

/// A run of bytes up to its first line feed.
pub open spec fn first_line(bytes: Seq<u8>) -> Seq<u8> {
    if bytes.contains(10) {
        bytes.take(bytes.index_of_first(10)->0)
    } else {
        bytes
    }
}

/// Whether a status line says that all is well: version 1 of HTTP, and the code for that.
pub open spec fn is_healthy(status_line: Seq<char>) -> bool {
    &&& "HTTP/1."@.is_prefix_of(before_space(status_line))
    &&& before_space(after_space(status_line)) == "200"@
}

/// What the probe says of a status line, the white space at its end aside.
pub open spec fn verdict_on(status_line: Seq<char>) -> Result<(), Seq<char>> {
    if is_healthy(status_line) {
        Ok(())
    } else if status_line.len() == 0 {
        Err("the server accepted the connection and said nothing"@)
    } else {
        Err("unhealthy: "@ + status_line)
    }
}

/// `r` is a verdict, with its words as a string.
pub open spec fn says(r: Result<(), String>, verdict: Result<(), Seq<char>>) -> bool {
    match (r, verdict) {
        (Ok(_), Ok(_)) => true,
        (Err(words), Err(expected)) => words@ == expected,
        _ => false,
    }
}

/// Takes the white space off the end of a text.
fn trim_end(chars: &mut Vec<char>)
    ensures
        final(chars)@ == trimmed_end(old(chars)@),
{
    let ghost whole = chars@;
    while chars.len() > 0 && white_space(chars[chars.len() - 1])
        invariant
            trimmed_end(chars@) == trimmed_end(whole),
        decreases chars@.len(),
    {
        chars.pop();
    }
}

/// Whether a character has Unicode's `White_Space` property.
fn white_space(c: char) -> (r: bool)
    ensures
        r == is_white_space(c),
{
    (c >= '\u{9}' && c <= '\u{d}') || c == '\u{20}' || c == '\u{85}' || c == '\u{a0}' || c == '\u{1680}' || (c
        >= '\u{2000}' && c <= '\u{200a}') || c == '\u{2028}' || c == '\u{2029}' || c == '\u{202f}' || c == '\u{205f}'
        || c == '\u{3000}'
}

/// Splits a text at its first space. The space itself is in neither part.
fn split_at_space(chars: &Vec<char>) -> (r: (String, String))
    ensures
        r.0@ == before_space(chars@),
        r.1@ == after_space(chars@),
{
    let mut i: usize = 0;
    while i < chars.len() && chars[i] != ' '
        invariant
            i <= chars@.len(),
            forall|k: int| 0 <= k < i ==> chars@[k] != ' ',
        decreases chars@.len() - i,
    {
        i = i + 1;
    }
    if i < chars.len() {
        proof {
            assert(chars@[i as int] == ' ');
            lemma_first_index(chars@, ' ', i as int);
        }
        (text_of(chars, 0, i), text_of(chars, i + 1, chars.len()))
    } else {
        (text_of(chars, 0, i), String::new())
    }
}

/// An element that none before it equals is where the first of its kind stands.
proof fn lemma_first_index<A>(s: Seq<A>, x: A, i: int)
    requires
        0 <= i < s.len(),
        s[i] == x,
        forall|k: int| 0 <= k < i ==> s[k] != x,
    ensures
        s.contains(x),
        s.index_of_first(x) == Some(i),
{
    s.index_of_first_ensures(x);
}

/// Whether a text starts with another.
fn starts_with(text: &Vec<char>, start: &Vec<char>) -> (r: bool)
    ensures
        r == start@.is_prefix_of(text@),
{
    if start.len() > text.len() {
        return false;
    }
    for i in 0..start.len()
        invariant
            start@.len() <= text@.len(),
            forall|k: int| 0 <= k < i ==> start@[k] == text@[k],
    {
        if start[i] != text[i] {
            return false;
        }
    }
    assert(start@ =~= text@.subrange(0, start@.len() as int));
    true
}

/// What the probe says of a status line.
pub fn verdict(status_line: &str) -> (r: Result<(), String>)
    ensures
        says(r, verdict_on(trimmed_end(status_line@))),
{
    let mut chars = chars_of(status_line);
    trim_end(&mut chars);
    let (version, rest) = split_at_space(&chars);
    let (code, _) = split_at_space(&chars_of(rest.as_str()));
    if starts_with(&chars_of(version.as_str()), &chars_of("HTTP/1.")) && same_text(code.as_str(), "200") {
        Ok(())
    } else if chars.len() == 0 {
        Err("the server accepted the connection and said nothing".to_owned())
    } else {
        let mut words = "unhealthy: ".to_owned();
        assert(chars@.subrange(0, chars@.len() as int) == chars@);
        words.append(text_of(&chars, 0, chars.len()).as_str());
        Err(words)
    }
}

/// What the probe says of the bytes the server answered with.
pub fn verdict_of_response(response: &Vec<u8>) -> (r: Result<(), String>)
    ensures
        says(r, verdict_on(trimmed_end(lossy_text_of(first_line(response@))))),
{
    let mut line: Vec<u8> = Vec::new();
    let mut i: usize = 0;
    while i < response.len() && response[i] != 10
        invariant
            i <= response@.len(),
            line@ == response@.take(i as int),
            forall|k: int| 0 <= k < i ==> response@[k] != 10,
        decreases response@.len() - i,
    {
        line.push(response[i]);
        i = i + 1;
    }
    proof {
        if i < response@.len() {
            lemma_first_index(response@, 10u8, i as int);
        } else {
            assert(response@.take(i as int) == response@);
        }
    }
    verdict(lossy_text(&line).as_str())
}

/// A status line is healthy when it names a version 1 of HTTP and then, behind one space, 200,
/// and ends there or goes on behind another space.
pub proof fn a_healthy_status_line(minor: Seq<char>, tail: Seq<char>)
    requires
        !minor.contains(' '),
        tail.len() == 0 || tail[0] == ' ',
    ensures
        is_healthy("HTTP/1."@ + minor + " 200"@ + tail),
        verdict_on("HTTP/1."@ + minor + " 200"@ + tail) is Ok,
{
    reveal_strlit("HTTP/1.");
    reveal_strlit(" 200");
    reveal_strlit("200");
    let version = "HTTP/1."@ + minor;
    let line = version + " 200"@ + tail;
    assert forall|i: int| 0 <= i < version.len() implies version[i] != ' ' by {
        if i >= 7 {
            assert(version[i] == minor[i - 7]);
            assert(minor.contains(minor[i - 7]));
        }
    }
    assert(line[version.len() as int] == ' ');
    lemma_first_index(line, ' ', version.len() as int);
    assert(before_space(line) =~= version);
    let rest = "200"@ + tail;
    assert(after_space(line) =~= rest);
    if tail.len() == 0 {
        assert(rest =~= "200"@);
        assert(!rest.contains(' '));
    } else {
        assert(rest[3] == ' ');
        lemma_first_index(rest, ' ', 3);
        assert(rest.take(3) =~= "200"@);
    }
    assert("HTTP/1."@ =~= version.subrange(0, 7));
}

/// Whatever is healthy starts that way.
pub proof fn only_such_a_line_is_healthy(line: Seq<char>)
    requires
        is_healthy(line),
    ensures
        exists|minor: Seq<char>, tail: Seq<char>|
            {
                &&& !minor.contains(' ')
                &&& tail.len() == 0 || tail[0] == ' '
                &&& line == #[trigger] ("HTTP/1."@ + minor + " 200"@ + tail)
            },
{
    reveal_strlit("HTTP/1.");
    reveal_strlit(" 200");
    reveal_strlit("200");
    let version = before_space(line);
    let rest = after_space(line);
    line.index_of_first_ensures(' ');
    rest.index_of_first_ensures(' ');
    if !line.contains(' ') {
        assert(rest.len() == 0);
        assert(before_space(rest).len() == 0);
    }
    let minor = version.skip(7);
    let tail = rest.skip(3);
    assert(before_space(rest) == "200"@);
    assert("HTTP/1."@.len() <= version.len());
    assert(version =~= "HTTP/1."@ + minor);
    assert(rest =~= "200"@ + tail);
    assert(line =~= version + seq![' '] + rest);
    assert(!minor.contains(' ')) by {
        if minor.contains(' ') {
            let k = minor.index_of(' ');
            assert(line[k + 7] == ' ');
        }
    }
    if tail.len() > 0 {
        assert(rest.contains(' '));
        assert(rest[3] == ' ');
    }
    assert(line =~= "HTTP/1."@ + minor + " 200"@ + tail);
}

/// An unhealthy line is quoted; an empty one is told apart.
pub proof fn what_is_said_of_an_unhealthy_line(line: Seq<char>)
    requires
        !is_healthy(line),
    ensures
        line.len() > 0 ==> verdict_on(line) == Err::<(), Seq<char>>("unhealthy: "@ + line),
        line.len() == 0 ==> verdict_on(line) == Err::<(), Seq<char>>(
            "the server accepted the connection and said nothing"@,
        ),
{
}

/// Only white space is taken off the end, and all of it.
pub proof fn only_white_space_is_taken_off(text: Seq<char>)
    ensures
        trimmed_end(text).len() <= text.len(),
        trimmed_end(text) == text.take(trimmed_end(text).len() as int),
        forall|i: int| trimmed_end(text).len() <= i < text.len() ==> is_white_space(#[trigger] text[i]),
        trimmed_end(text).len() > 0 ==> !is_white_space(trimmed_end(text).last()),
    decreases text.len(),
{
    if text.len() > 0 && is_white_space(text.last()) {
        only_white_space_is_taken_off(text.drop_last());
        let kept = trimmed_end(text.drop_last());
        assert(text.drop_last().take(kept.len() as int) =~= text.take(kept.len() as int));
        assert forall|i: int| kept.len() <= i < text.len() implies is_white_space(#[trigger] text[i]) by {
            if i < text.len() - 1 {
                assert(text.drop_last()[i] == text[i]);
            }
        }
    } else {
        assert(text.take(text.len() as int) =~= text);
    }
}

/// The first line of an answer is what comes before its first line feed.
pub proof fn the_first_line_ends_at_a_line_feed(line: Seq<u8>, rest: Seq<u8>)
    requires
        forall|i: int| 0 <= i < line.len() ==> (#[trigger] line[i]) != 10,
    ensures
        first_line(line + seq![10u8] + rest) == line,
        first_line(line) == line,
{
    let all = line + seq![10u8] + rest;
    assert(all[line.len() as int] == 10);
    lemma_first_index(all, 10u8, line.len() as int);
    assert(all.take(line.len() as int) =~= line);
}

/// White space is what Unicode says it is: tabs and line breaks, the space, and the others of
/// that property.
pub proof fn what_white_space_is(c: char)
    ensures
        is_white_space(c) <==> {
            let n = c as u32;
            ||| 9 <= n <= 13
            ||| n == 32
            ||| n == 0x85
            ||| n == 0xa0
            ||| n == 0x1680
            ||| 0x2000 <= n <= 0x200a
            ||| n == 0x2028
            ||| n == 0x2029
            ||| n == 0x202f
            ||| n == 0x205f
            ||| n == 0x3000
        },
{
}

} // verus!
