//! Decoder for the NUL-delimited porcelain status stream.
//!
//! A stream is a run of records. A record is one character for the index
//! state, one for the tree state, one space, the path, and a NUL; after a
//! rename a second path and NUL follow. Decoding fails at a state that is
//! not of its alphabet and at a path that no NUL ends, and then hands out
//! nothing.

use vstd::prelude::*;
use vstd::utf8::encode_utf8;
use super::{is_index_state, is_tree_state, Status, StatusView, views};
use crate::text::{before, split_first};

verus! {

/// Ends every path of the stream.
pub const TERMINATOR: char = '\u{0}';

/// Number of characters of `s` before its first terminator; the length of
/// `s` if it has none.
pub open spec fn token_len(s: Seq<char>) -> int
    decreases s.len(),
{
    if s.len() == 0 || s[0] == TERMINATOR {
        0
    } else {
        1 + token_len(s.drop_first())
    }
}

/// `token_len` is the one position that ends a terminator-free prefix.
pub proof fn lemma_token_len(s: Seq<char>, k: int)
    requires
        0 <= k <= s.len(),
        forall|j: int| 0 <= j < k ==> s[j] != TERMINATOR,
        k < s.len() ==> s[k] == TERMINATOR,
    ensures
        token_len(s) == k,
    decreases s.len(),
{
    if s.len() == 0 || s[0] == TERMINATOR {
    } else {
        let t = s.drop_first();
        assert forall|j: int| 0 <= j < k - 1 implies t[j] != TERMINATOR by {
            assert(t[j] == s[j + 1]);
        }
        lemma_token_len(t, k - 1);
    }
}

/// What `token_len` finds: no terminator before it, and one at it unless
/// the sequence has none at all.
pub proof fn lemma_token_len_bounds(s: Seq<char>)
    ensures
        0 <= token_len(s) <= s.len(),
        forall|j: int| 0 <= j < token_len(s) ==> s[j] != TERMINATOR,
        token_len(s) < s.len() ==> s[token_len(s)] == TERMINATOR,
        token_len(s) == s.len() <==> !s.contains(TERMINATOR),
    decreases s.len(),
{
    if s.len() == 0 || s[0] == TERMINATOR {
    } else {
        let t = s.drop_first();
        lemma_token_len_bounds(t);
        assert forall|j: int| 0 <= j < token_len(s) implies s[j] != TERMINATOR by {
            if j > 0 {
                assert(s[j] == t[j - 1]);
            }
        }
        if token_len(s) < s.len() {
            assert(s[token_len(s)] == t[token_len(t)]);
        }
    }
    if token_len(s) < s.len() {
        assert(s.contains(TERMINATOR));
    } else if s.contains(TERMINATOR) {
        let j = choose|j: int| 0 <= j < s.len() && s[j] == TERMINATOR;
        assert(s[j] == TERMINATOR);
    }
}

/// Takes the first character of `s` if `charset` holds it, and hands it out
/// with what follows it.
pub fn parse_utf8_char<'a>(s: &'a str, charset: &'static str) -> (r: Option<(char, &'a str)>)
    ensures
        r is Some <==> s@.len() > 0 && charset@.contains(s@[0]),
        match r {
            Some((c, rest)) => c == s@[0] && rest@ == s@.skip(1),
            None => true,
        },
{
    match split_first(s) {
        None => None,
        Some((c, rest)) => {
            let mut set: &str = charset;
            let ghost mut k: int = 0;
            assert(set@ =~= charset@.skip(0));
            loop
                invariant
                    0 <= k <= charset@.len(),
                    set@ == charset@.skip(k),
                    forall|j: int| 0 <= j < k ==> charset@[j] != c,
                    s@.len() > 0,
                    c == s@[0],
                    rest@ == s@.skip(1),
                decreases set@.len(),
            {
                match split_first(set) {
                    None => {
                        return None;
                    },
                    Some((x, tail)) => {
                        assert(x == charset@[k]);
                        if x == c {
                            return Some((c, rest));
                        }
                        proof {
                            assert(tail@ =~= charset@.skip(k + 1));
                            k = k + 1;
                        }
                        set = tail;
                    },
                }
            }
        },
    }
}

/// Splits `stream` at its first terminator into the token before it and the
/// rest after it. Fails when `stream` holds no terminator.
pub fn parse_c_string<'a>(stream: &'a str) -> (r: Result<(&'a str, Option<&'a str>), &'a str>)
    ensures
        r is Ok <==> stream@.contains(TERMINATOR),
        match r {
            Ok((token, rest)) => {
                &&& !token@.contains(TERMINATOR)
                &&& rest is Some
                &&& stream@ == token@ + seq![TERMINATOR] + rest->0@
                &&& token@ == stream@.take(token_len(stream@))
                &&& rest->0@ == stream@.skip(token_len(stream@) + 1)
            },
            Err(e) => e@.len() == 0,
        },
{
    let mut cursor: &str = stream;
    let ghost mut k: int = 0;
    assert(cursor@ =~= stream@.skip(0));
    loop
        invariant
            0 <= k <= stream@.len(),
            cursor@ == stream@.skip(k),
            forall|j: int| 0 <= j < k ==> stream@[j] != TERMINATOR,
        decreases cursor@.len(),
    {
        match split_first(cursor) {
            None => {
                proof {
                    lemma_token_len(stream@, k);
                    lemma_token_len_bounds(stream@);
                    reveal_strlit("");
                }
                return Err("");
            },
            Some((c, rest)) => {
                assert(c == stream@[k]);
                if c == TERMINATOR {
                    let token = before(stream, cursor);
                    proof {
                        lemma_token_len(stream@, k);
                        lemma_token_len_bounds(stream@);
                        assert(rest@ =~= stream@.skip(k + 1));
                        assert(stream@ =~= token@ + seq![TERMINATOR] + rest@);
                    }
                    return Ok((token, Some(rest)));
                }
                proof {
                    assert(rest@ =~= stream@.skip(k + 1));
                    k = k + 1;
                }
                cursor = rest;
            },
        }
    }
}

/// Reads the index state into `status`.
pub fn parse_index<'a>(s: &'a str, status: &mut Status) -> (r: Result<Option<&'a str>, &'a str>)
    ensures
        r is Ok <==> s@.len() > 0 && is_index_state(s@[0]),
        match r {
            Ok(rest) => {
                &&& rest is Some
                &&& rest->0@ == s@.skip(1)
                &&& final(status)@ == (StatusView { index_state: s@[0], ..old(status)@ })
            },
            Err(e) => e@.len() == 0 && final(status)@ == old(status)@,
        },
{
    proof {
        reveal_strlit("MADRU? ");
        reveal_strlit("");
        let set = "MADRU? "@;
        assert(set[0] == 'M' && set[1] == 'A' && set[2] == 'D' && set[3] == 'R' && set[4] == 'U'
            && set[5] == '?' && set[6] == ' ');
    }
    match parse_utf8_char(s, "MADRU? ") {
        Some((c, cs)) => {
            status.index_state = c;
            Ok(Some(cs))
        },
        None => Err(""),
    }
}

/// Reads the tree state into `status`.
pub fn parse_tree<'a>(s: &'a str, status: &mut Status) -> (r: Result<Option<&'a str>, &'a str>)
    ensures
        r is Ok <==> s@.len() > 0 && is_tree_state(s@[0]),
        match r {
            Ok(rest) => {
                &&& rest is Some
                &&& rest->0@ == s@.skip(1)
                &&& final(status)@ == (StatusView { tree_state: s@[0], ..old(status)@ })
            },
            Err(e) => e@.len() == 0 && final(status)@ == old(status)@,
        },
{
    proof {
        reveal_strlit("MADU ");
        reveal_strlit("");
        let set = "MADU "@;
        assert(set[0] == 'M' && set[1] == 'A' && set[2] == 'D' && set[3] == 'U' && set[4] == ' ');
    }
    match parse_utf8_char(s, "MADU ") {
        Some((c, cs)) => {
            status.tree_state = c;
            Ok(Some(cs))
        },
        None => Err(""),
    }
}

/// The path in the token that follows the two states: the token without
/// the space that separates it from them.
pub open spec fn path_of(token: Seq<char>) -> Seq<char> {
    if token.len() > 0 && token[0] == ' ' {
        token.skip(1)
    } else {
        token
    }
}

/// Reads the path into `status`: the token up to the terminator, without
/// the separating space before it.
pub fn parse_from<'a>(s: &'a str, status: &mut Status) -> (r: Result<Option<&'a str>, &'a str>)
    ensures
        r is Ok <==> s@.contains(TERMINATOR),
        match r {
            Ok(rest) => {
                &&& rest is Some
                &&& rest->0@ == s@.skip(token_len(s@) + 1)
                &&& final(status)@ == (StatusView {
                    from_path: path_of(s@.take(token_len(s@))),
                    ..old(status)@
                })
            },
            Err(e) => e@.len() == 0 && final(status)@ == old(status)@,
        },
{
    match parse_c_string(s) {
        Ok((file, rest)) => {
            let path = match split_first(file) {
                Some((' ', path)) => path,
                _ => file,
            };
            status.from_path = path.to_owned();
            Ok(rest)
        },
        Err(_) => {
            proof {
                reveal_strlit("");
            }
            Err("")
        },
    }
}

/// Reads the destination path into `status` if the record is a rename;
/// otherwise consumes nothing.
pub fn parse_to<'a>(s: &'a str, status: &mut Status) -> (r: Result<Option<&'a str>, &'a str>)
    ensures
        r is Ok <==> old(status).index_state != 'R' || s@.contains(TERMINATOR),
        match r {
            Ok(rest) => {
                &&& rest is Some
                &&& old(status).index_state == 'R' ==> {
                    &&& rest->0@ == s@.skip(token_len(s@) + 1)
                    &&& final(status)@ == (StatusView {
                        to_path: Some(s@.take(token_len(s@))),
                        ..old(status)@
                    })
                }
                &&& old(status).index_state != 'R' ==> {
                    &&& rest->0@ == s@
                    &&& final(status)@ == old(status)@
                }
            },
            Err(e) => e@.len() == 0 && final(status)@ == old(status)@,
        },
{
    if status.index_state == 'R' {
        match parse_c_string(s) {
            Ok((file, rest)) => {
                status.to_path = Some(file.to_owned());
                Ok(rest)
            },
            Err(_) => {
                proof {
                    reveal_strlit("");
                }
                Err("")
            },
        }
    } else {
        Ok(Some(s))
    }
}

/// The stream could not be decoded; no part of it is handed out.
#[derive(Debug, Clone, Copy, PartialEq, Eq)]
pub struct ParseError;

/// The first record of `s` and what follows it, if `s` opens with a record.
pub open spec fn spec_parse_record(s: Seq<char>) -> Option<(StatusView, Seq<char>)> {
    if s.len() < 2 || !is_index_state(s[0]) || !is_tree_state(s[1]) || !s.skip(2).contains(
        TERMINATOR,
    ) {
        None
    } else {
        let path = s.skip(2);
        let tail = path.skip(token_len(path) + 1);
        let from_path = path_of(path.take(token_len(path)));
        if s[0] != 'R' {
            Some(
                (
                    StatusView { index_state: s[0], tree_state: s[1], from_path, to_path: None },
                    tail,
                ),
            )
        } else if tail.contains(TERMINATOR) {
            Some(
                (
                    StatusView {
                        index_state: s[0],
                        tree_state: s[1],
                        from_path,
                        to_path: Some(tail.take(token_len(tail))),
                    },
                    tail.skip(token_len(tail) + 1),
                ),
            )
        } else {
            None
        }
    }
}

/// Whether at most one byte of the stream is left: the end of the stream.
pub open spec fn at_end(s: Seq<char>) -> bool {
    encode_utf8(s).len() <= 1
}

/// `done` followed by the records of `tail`, if there is a `tail`.
pub open spec fn prepend(done: Seq<StatusView>, tail: Option<Seq<StatusView>>) -> Option<
    Seq<StatusView>,
> {
    match tail {
        Some(entries) => Some(done + entries),
        None => None,
    }
}

/// The records of the stream `s` in order, or `None` if any part of it is
/// no record. (A record is shorter than the stream it is taken from, so the
/// guard that ends the recursion turns no record away.)
pub open spec fn spec_parse(s: Seq<char>) -> Option<Seq<StatusView>>
    decreases s.len(),
{
    if at_end(s) {
        Some(Seq::empty())
    } else {
        match spec_parse_record(s) {
            Some((entry, rest)) if rest.len() < s.len() => prepend(seq![entry], spec_parse(rest)),
            _ => None,
        }
    }
}

/// A record leaves less of the stream than it found.
pub proof fn lemma_record_consumes(s: Seq<char>)
    ensures
        match spec_parse_record(s) {
            Some((entry, rest)) => rest.len() + 3 <= s.len(),
            None => true,
        },
{
    if spec_parse_record(s) is Some {
        let path = s.skip(2);
        lemma_token_len_bounds(path);
        let tail = path.skip(token_len(path) + 1);
        lemma_token_len_bounds(tail);
    }
}

/// Decodes a whole status stream. Either every record is handed out, in the
/// order of the stream, or none is. Decoding fails at a state that is not
/// of its alphabet and at a path that no NUL ends. At most one byte may be
/// left behind the last record.
pub fn parse(sstr: &str) -> (r: Result<Vec<Status>, ParseError>)
    ensures
        match r {
            Ok(entries) => {
                &&& spec_parse(sstr@) == Some(views(entries@))
                &&& forall|i: int| 0 <= i < entries@.len() ==> encodable((#[trigger] entries@[i])@)
            },
            Err(_) => spec_parse(sstr@) is None,
        },
{
    let mut entries: Vec<Status> = Vec::new();
    let mut rest: &str = sstr;
    assert(views(entries@) =~= Seq::empty());
    assert(Seq::<StatusView>::empty() + spec_parse(rest@)->0 =~= spec_parse(rest@)->0);
    while rest.as_bytes().len() > 1
        invariant
            spec_parse(sstr@) == prepend(views(entries@), spec_parse(rest@)),
            forall|i: int| 0 <= i < entries@.len() ==> encodable((#[trigger] entries@[i])@),
        decreases rest@.len(),
    {
        let ghost before = rest@;
        let ghost done = views(entries@);
        proof {
            lemma_record_consumes(before);
            lemma_record_is_encodable(before);
        }
        let mut status = Status::blank();
        rest = match parse_index(rest, &mut status) {
            Ok(Some(r)) => r,
            _ => { return Err(ParseError); },
        };
        rest = match parse_tree(rest, &mut status) {
            Ok(Some(r)) => r,
            _ => { return Err(ParseError); },
        };
        assert(rest@ =~= before.skip(2));
        rest = match parse_from(rest, &mut status) {
            Ok(Some(r)) => r,
            _ => { return Err(ParseError); },
        };
        rest = match parse_to(rest, &mut status) {
            Ok(Some(r)) => r,
            _ => { return Err(ParseError); },
        };
        proof {
            let (entry, tail) = spec_parse_record(before)->0;
            assert(status@ == entry);
            assert(rest@ == tail);
        }
        entries.push(status);
        proof {
            assert(views(entries@) =~= done + seq![status@]);
            if spec_parse(rest@) is Some {
                let more = spec_parse(rest@)->0;
                assert(done + (seq![status@] + more) =~= (done + seq![status@]) + more);
            }
        }
    }
    proof {
        assert(views(entries@) + Seq::<StatusView>::empty() =~= views(entries@));
    }
    Ok(entries)
}

/// The text of one record in the stream.
pub open spec fn encode_record(entry: StatusView) -> Seq<char> {
    seq![entry.index_state, entry.tree_state, ' '] + entry.from_path + seq![TERMINATOR] + match entry.to_path {
        Some(to) => to + seq![TERMINATOR],
        None => Seq::empty(),
    }
}

/// The stream that holds the given records, one after the other.
pub open spec fn encode(entries: Seq<StatusView>) -> Seq<char>
    decreases entries.len(),
{
    if entries.len() == 0 {
        Seq::empty()
    } else {
        encode_record(entries[0]) + encode(entries.drop_first())
    }
}

/// What a record must meet for the stream to hold it: it is well-formed,
/// and its paths are free of the terminator.
pub open spec fn encodable(entry: StatusView) -> bool {
    &&& entry.wf()
    &&& !entry.from_path.contains(TERMINATOR)
    &&& entry.to_path is Some ==> !entry.to_path->0.contains(TERMINATOR)
}

/// A text of two or more characters takes more than one byte.
pub proof fn lemma_two_chars_not_at_end(s: Seq<char>)
    requires
        s.len() >= 2,
    ensures
        !at_end(s),
{
    let t = s.drop_first();
    assert(encode_utf8(s) == vstd::utf8::encode_scalar(s[0] as u32) + encode_utf8(t));
    assert(encode_utf8(t) == vstd::utf8::encode_scalar(t[0] as u32) + encode_utf8(
        t.drop_first(),
    ));
}

/// A record followed by anything decodes to that record and leaves what
/// followed.
pub proof fn lemma_record_round_trip(entry: StatusView, tail: Seq<char>)
    requires
        encodable(entry),
    ensures
        spec_parse_record(encode_record(entry) + tail) == Some((entry, tail)),
{
    let s = encode_record(entry) + tail;
    let path = s.skip(2);
    let n = entry.from_path.len() as int;
    assert(s[0] == entry.index_state && s[1] == entry.tree_state);
    assert(path[0] == ' ');
    assert forall|j: int| 0 <= j < n + 1 implies path[j] != TERMINATOR by {
        if j > 0 {
            assert(path[j] == entry.from_path[j - 1]);
        }
    }
    assert(path[n + 1] == TERMINATOR);
    lemma_token_len(path, n + 1);
    assert(path_of(path.take(n + 1)) =~= entry.from_path);
    let after = path.skip(n + 2);
    match entry.to_path {
        Some(to) => {
            let m = to.len() as int;
            assert forall|j: int| 0 <= j < m implies after[j] != TERMINATOR by {
                assert(after[j] == to[j]);
            }
            assert(after[m] == TERMINATOR);
            lemma_token_len(after, m);
            assert(after.take(m) =~= to);
            assert(after.skip(m + 1) =~= tail);
        },
        None => {
            assert(after =~= tail);
        },
    }
}

/// Every stream made of records decodes to exactly those records, in their
/// order.
pub proof fn lemma_parse_encoded(entries: Seq<StatusView>)
    requires
        forall|i: int| 0 <= i < entries.len() ==> encodable(#[trigger] entries[i]),
    ensures
        spec_parse(encode(entries)) == Some(entries),
    decreases entries.len(),
{
    if entries.len() == 0 {
        assert(encode_utf8(Seq::<char>::empty()).len() == 0);
    } else {
        let first = entries[0];
        let others = entries.drop_first();
        let tail = encode(others);
        let s = encode(entries);
        assert(encodable(first));
        assert forall|i: int| 0 <= i < others.len() implies encodable(#[trigger] others[i]) by {
            assert(others[i] == entries[i + 1]);
        }
        lemma_parse_encoded(others);
        lemma_record_round_trip(first, tail);
        lemma_two_chars_not_at_end(s);
        lemma_record_consumes(s);
        assert(seq![first] + others =~= entries);
    }
}

/// What decodes are records that a stream can hold: well-formed, with
/// paths free of the terminator.
pub proof fn lemma_record_is_encodable(s: Seq<char>)
    ensures
        match spec_parse_record(s) {
            Some((entry, rest)) => encodable(entry),
            None => true,
        },
{
    if spec_parse_record(s) is Some {
        let (entry, rest) = spec_parse_record(s)->0;
        let path = s.skip(2);
        let n = token_len(path);
        lemma_token_len_bounds(path);
        let tail = path.skip(n + 1);
        lemma_token_len_bounds(tail);
        assert forall|j: int| 0 <= j < entry.from_path.len() implies entry.from_path[j]
            != TERMINATOR by {
            if path[0] == ' ' {
                assert(entry.from_path[j] == path[j + 1]);
            } else {
                assert(entry.from_path[j] == path[j]);
            }
        }
        match entry.to_path {
            Some(to) => {
                assert forall|j: int| 0 <= j < to.len() implies to[j] != TERMINATOR by {
                    assert(to[j] == tail[j]);
                }
            },
            None => {},
        }
    }
}

/// Every record that a stream decodes to is one that a stream can hold.
pub proof fn lemma_parsed_is_encodable(s: Seq<char>)
    requires
        spec_parse(s) is Some,
    ensures
        forall|i: int| 0 <= i < spec_parse(s)->0.len() ==> encodable(#[trigger] spec_parse(s)->0[i]),
    decreases s.len(),
{
    let entries = spec_parse(s)->0;
    if !at_end(s) {
        let (entry, rest) = spec_parse_record(s)->0;
        let others = spec_parse(rest)->0;
        lemma_record_is_encodable(s);
        lemma_parsed_is_encodable(rest);
        assert(entries == seq![entry] + others);
        assert forall|i: int| 0 <= i < entries.len() implies encodable(#[trigger] entries[i]) by {
            if i > 0 {
                assert(entries[i] == others[i - 1]);
            }
        }
    }
}

} // verus!
