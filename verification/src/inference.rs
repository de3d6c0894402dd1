//! Aggregation of the inference service's streamed response: the body is
//! a sequence of newline-delimited JSON chunks; the fragments of the
//! decodable, non-terminator chunks are concatenated in arrival order and
//! the result is left-trimmed. Lines that fail to decode are dropped.

use vstd::prelude::*;
use crate::text::{
    find_char, lemma_find_char_at, lemma_find_char_bounds, trim_start, trim_start_spec,
};

verus! {

/// One decoded unit of the inference service's streaming protocol: the
/// incremental text fragment and the end-of-stream flag.
struct Chunk {
    response: String,
    done: bool,
}

/// What decoding one body line yields: the line's "response" string and
/// "done" boolean when the line is a JSON object carrying both, nothing
/// otherwise. A function of the line's characters alone.
pub uninterp spec fn chunk_of(line: Seq<char>) -> Option<(Seq<char>, bool)>;

/// Relies on serde_json::from_str and serde_json::Value::{get, as_str,
/// as_bool}: decodes `line` as a JSON object and reads its "response"
/// string and "done" boolean; yields nothing when the line is not such an
/// object. The result depends on the line's characters alone.
#[verifier::external_body]
fn decode_chunk(line: &str) -> (r: Option<Chunk>)
    ensures
        match chunk_of(line@) {
            Some(p) => r matches Some(c) && c.response@ == p.0 && c.done == p.1,
            None => r is None,
        },
{
    let v: serde_json::Value = match serde_json::from_str(line) {
        Ok(v) => v,
        Err(_) => return None,
    };
    let response = v.get("response")?.as_str()?.to_owned();
    let done = v.get("done")?.as_bool()?;
    Some(Chunk { response, done })
}

/// The text a single body line contributes to the reply: its fragment if
/// it decodes and is not the terminator, nothing otherwise.
pub open spec fn chunk_text(line: Seq<char>) -> Seq<char> {
    match chunk_of(line) {
        Some(p) => if !p.1 {
            p.0
        } else {
            Seq::<char>::empty()
        },
        None => Seq::<char>::empty(),
    }
}

/// The concatenation, in arrival order, of the fragments the lines
/// contribute.
pub open spec fn aggregated(lines: Seq<Seq<char>>) -> Seq<char>
    decreases lines.len(),
{
    if lines.len() == 0 {
        Seq::<char>::empty()
    } else {
        chunk_text(lines[0]) + aggregated(lines.drop_first())
    }
}

/// The body split at every newline, as `str::split('\n')` yields it: one
/// part more than there are newlines, empty parts kept.
pub open spec fn split_lines(s: Seq<char>) -> Seq<Seq<char>>
    decreases s.len(),
    via split_lines_decreases
{
    let i = find_char(s, '\n');
    if i == s.len() {
        seq![s]
    } else {
        seq![s.take(i)] + split_lines(s.skip(i + 1))
    }
}

#[via_fn]
proof fn split_lines_decreases(s: Seq<char>) {
    lemma_find_char_bounds(s, '\n');
}

/// Aggregation peels one leading line off: the line's own contribution,
/// then the rest.
pub proof fn lemma_aggregated_cons(x: Seq<char>, rest: Seq<Seq<char>>)
    ensures
        aggregated(seq![x] + rest) == chunk_text(x) + aggregated(rest),
{
    let l = seq![x] + rest;
    assert(l[0] == x);
    assert(l.drop_first() =~= rest);
}

/// A newline joins the lines of its two sides: splitting `a + '\n' + b`
/// yields the lines of `a` followed by the lines of `b`.
pub proof fn lemma_split_lines_append(a: Seq<char>, b: Seq<char>)
    ensures
        split_lines(a + seq!['\n'] + b) == split_lines(a) + split_lines(b),
    decreases a.len(),
{
    let whole = a + seq!['\n'] + b;
    let i = find_char(a, '\n');
    lemma_find_char_bounds(a, '\n');
    assert forall|k: int| 0 <= k < i implies whole[k] != '\n' by {
        assert(whole[k] == a[k]);
    }
    if i == a.len() {
        assert(whole[i] == '\n');
        lemma_find_char_at(whole, '\n', i);
        assert(whole.take(i) =~= a);
        assert(whole.skip(i + 1) =~= b);
        assert(split_lines(a) =~= seq![a]);
        assert(seq![whole.take(i)] + split_lines(whole.skip(i + 1)) =~= split_lines(a)
            + split_lines(b));
    } else {
        assert(whole[i] == a[i]);
        lemma_find_char_at(whole, '\n', i);
        assert(whole.take(i) =~= a.take(i));
        assert(whole.skip(i + 1) =~= a.skip(i + 1) + seq!['\n'] + b);
        lemma_split_lines_append(a.skip(i + 1), b);
        assert(seq![a.take(i)] + (split_lines(a.skip(i + 1)) + split_lines(b)) =~= (seq![
            a.take(i),
        ] + split_lines(a.skip(i + 1))) + split_lines(b));
    }
}

/// A line that does not decode contributes nothing: inserting it anywhere
/// among the body's lines leaves the aggregated text unchanged.
pub proof fn lemma_malformed_line_ignored(lines: Seq<Seq<char>>, i: int, bad: Seq<char>)
    requires
        0 <= i <= lines.len(),
        chunk_of(bad) is None,
    ensures
        aggregated(lines.insert(i, bad)) == aggregated(lines),
    decreases i,
{
    if i == 0 {
        assert(lines.insert(0, bad) =~= seq![bad] + lines);
        lemma_aggregated_cons(bad, lines);
        assert(chunk_text(bad) + aggregated(lines) =~= aggregated(lines));
    } else {
        lemma_malformed_line_ignored(lines.drop_first(), i - 1, bad);
        let l = lines.insert(i, bad);
        assert(l[0] == lines[0]);
        assert(l.drop_first() =~= lines.drop_first().insert(i - 1, bad));
    }
}

/// Inserting a malformed line — one that does not decode — anywhere in
/// the streamed body, together with the newline that delimits it, leaves
/// the aggregated text exactly what it was without that line.
pub proof fn lemma_malformed_insertion_in_body(pre: Seq<char>, bad: Seq<char>, post: Seq<char>)
    requires
        chunk_of(bad) is None,
        forall|k: int| 0 <= k < bad.len() ==> bad[k] != '\n',
    ensures
        aggregated(split_lines(pre + seq!['\n'] + bad + seq!['\n'] + post)) == aggregated(
            split_lines(pre + seq!['\n'] + post),
        ),
{
    let whole = pre + seq!['\n'] + bad + seq!['\n'] + post;
    assert(whole =~= pre + seq!['\n'] + (bad + seq!['\n'] + post));
    lemma_split_lines_append(pre, bad + seq!['\n'] + post);
    lemma_split_lines_append(bad, post);
    lemma_find_char_at(bad, '\n', bad.len() as int);
    assert(split_lines(bad) =~= seq![bad]);
    lemma_split_lines_append(pre, post);
    let lines = split_lines(pre) + split_lines(post);
    lemma_malformed_line_ignored(lines, split_lines(pre).len() as int, bad);
    assert(lines.insert(split_lines(pre).len() as int, bad) =~= split_lines(pre) + (seq![bad]
        + split_lines(post)));
}

/// Reassembles a streamed response body into the reply text: every line
/// that decodes as a non-terminator chunk appends its fragment, in
/// arrival order; the rest are dropped; the result is left-trimmed.
pub fn aggregate_response(body: &str) -> (r: String)
    ensures
        r@ == trim_start_spec(aggregated(split_lines(body@))),
{
    let n = body.unicode_len();
    let mut acc = String::new();
    let mut pos: usize = 0;
    proof {
        assert(body@.skip(0) =~= body@);
        assert(Seq::<char>::empty() + aggregated(split_lines(body@)) =~= aggregated(
            split_lines(body@),
        ));
    }
    loop
        invariant
            0 <= pos <= n,
            n == body@.len(),
            aggregated(split_lines(body@)) == acc@ + aggregated(
                split_lines(body@.skip(pos as int)),
            ),
        decreases n - pos,
    {
        let mut j: usize = pos;
        while j < n && body.get_char(j) != '\n'
            invariant
                pos <= j <= n,
                n == body@.len(),
                forall|k: int| pos <= k < j ==> body@[k] != '\n',
            decreases n - j,
        {
            j = j + 1;
        }
        let ghost suf = body@.skip(pos as int);
        proof {
            assert forall|k: int| 0 <= k < j - pos implies suf[k] != '\n' by {
                assert(suf[k] == body@[k + pos]);
            }
            if j < n {
                assert(suf[j - pos] == body@[j as int]);
            }
            lemma_find_char_at(suf, '\n', j - pos);
        }
        let line = body.substring_char(pos, j);
        proof {
            assert(line@ =~= suf.take(j - pos));
        }
        let ghost acc0 = acc@;
        match decode_chunk(line) {
            Some(c) => {
                if !c.done {
                    acc.append(c.response.as_str());
                } else {
                    proof {
                        assert(acc@ =~= acc0 + chunk_text(line@));
                    }
                }
            },
            None => {
                proof {
                    assert(acc@ =~= acc0 + chunk_text(line@));
                }
            },
        }
        if j == n {
            proof {
                assert(line@ =~= suf);
                assert(split_lines(suf) == seq![suf]);
                assert(seq![suf].drop_first() =~= Seq::<Seq<char>>::empty());
                assert(aggregated(Seq::<Seq<char>>::empty()) =~= Seq::<char>::empty());
                assert(chunk_text(suf) + Seq::<char>::empty() =~= chunk_text(suf));
                assert(aggregated(seq![suf]) =~= chunk_text(suf));
            }
            return trim_start(acc.as_str());
        }
        proof {
            assert(split_lines(suf) == seq![suf.take(j - pos)] + split_lines(suf.skip(j - pos + 1)));
            lemma_aggregated_cons(suf.take(j - pos), split_lines(suf.skip(j - pos + 1)));
            assert(suf.skip(j - pos + 1) =~= body@.skip(j as int + 1));
        }
        pos = j + 1;
    }
}

} // verus!
