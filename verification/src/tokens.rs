//! Token handling: splitting wordlist text into tokens and drawing random
//! phrases from them.

use vstd::prelude::*;

verus! {

/// Index of the first line feed at or after `from`, if any.
pub open spec fn first_newline(s: Seq<char>, from: int) -> Option<int>
    decreases s.len() - from,
{
    if from < 0 || from >= s.len() {
        None
    } else if s[from] == '\n' {
        Some(from)
    } else {
        first_newline(s, from + 1)
    }
}

/// A line with a carriage return left over from a `\r\n` ending removed.
pub open spec fn strip_return(line: Seq<char>) -> Seq<char> {
    if line.len() > 0 && line.last() == '\r' {
        line.drop_last()
    } else {
        line
    }
}

/// The lines of `s`: split at each line feed, with a carriage return
/// immediately before a line feed stripped, and no empty final line when
/// the text ends in a line ending. A final segment without a line ending
/// is taken as it stands.
pub open spec fn spec_lines(s: Seq<char>) -> Seq<Seq<char>>
    decreases s.len(),
{
    if s.len() == 0 {
        Seq::empty()
    } else {
        match first_newline(s, 0) {
            Some(i) => if 0 <= i < s.len() {
                seq![strip_return(s.take(i))] + spec_lines(s.skip(i + 1))
            } else {
                seq![s]
            },
            None => seq![s],
        }
    }
}

/// The given parts joined with a single space between consecutive ones.
pub open spec fn spec_join_spaced(parts: Seq<Seq<char>>) -> Seq<char>
    decreases parts.len(),
{
    if parts.len() == 0 {
        Seq::empty()
    } else if parts.len() == 1 {
        parts[0]
    } else {
        spec_join_spaced(parts.drop_last()) + seq![' '] + parts.last()
    }
}

/// With no line feed in `from .. i` and one at `i`, the scan finds `i`.
proof fn lemma_first_newline_at(s: Seq<char>, from: int, i: int)
    requires
        0 <= from <= i < s.len(),
        forall|j: int| from <= j < i ==> s[j] != '\n',
        s[i] == '\n',
    ensures
        first_newline(s, from) == Some(i),
    decreases i - from,
{
    if from < i {
        lemma_first_newline_at(s, from + 1, i);
    }
}

/// With no line feed at or after `from`, the scan finds nothing.
proof fn lemma_first_newline_none(s: Seq<char>, from: int)
    requires
        0 <= from,
        forall|j: int| from <= j < s.len() ==> s[j] != '\n',
    ensures
        first_newline(s, from) is None,
    decreases s.len() - from,
{
    if from < s.len() {
        lemma_first_newline_none(s, from + 1);
    }
}

/// Shifting the scan start commutes with skipping a prefix without
/// line feeds: splitting the suffix from `start` unfolds one line at the
/// next line feed.
proof fn lemma_lines_unfold(s: Seq<char>, start: int, i: int)
    requires
        0 <= start <= i < s.len(),
        forall|j: int| start <= j < i ==> s[j] != '\n',
        s[i] == '\n',
    ensures
        spec_lines(s.skip(start)) == seq![strip_return(s.subrange(start, i))] + spec_lines(
            s.skip(i + 1),
        ),
{
    let suffix = s.skip(start);
    assert forall|j: int| 0 <= j < i - start implies suffix[j] != '\n' by {
        assert(suffix[j] == s[j + start]);
    }
    assert(suffix[i - start] == '\n');
    lemma_first_newline_at(suffix, 0, i - start);
    assert(suffix.take(i - start) =~= s.subrange(start, i));
    assert(suffix.skip(i - start + 1) =~= s.skip(i + 1));
}

/// Splits wordlist text into a vector of its lines.
pub fn str_to_tokens(src: &str) -> (tokens: Vec<&str>)
    ensures
        tokens.deep_view() == spec_lines(src@),
{
    let n = src.unicode_len();
    let mut tokens: Vec<&str> = Vec::new();
    let mut start: usize = 0;
    let mut i: usize = 0;
    proof {
        assert(src@.skip(0) =~= src@);
        assert(tokens.deep_view() =~= Seq::<Seq<char>>::empty());
        assert(tokens.deep_view() + spec_lines(src@) =~= spec_lines(src@));
    }
    while i < n
        invariant
            n == src@.len(),
            0 <= start <= i <= n,
            forall|j: int| start <= j < i ==> src@[j] != '\n',
            spec_lines(src@) == tokens.deep_view() + spec_lines(src@.skip(start as int)),
        decreases n - i,
    {
        if src.get_char(i) == '\n' {
            let end = if i > start && src.get_char(i - 1) == '\r' {
                i - 1
            } else {
                i
            };
            let line = src.substring_char(start, end);
            let ghost tv = tokens.deep_view();
            proof {
                lemma_lines_unfold(src@, start as int, i as int);
                assert(line@ =~= strip_return(src@.subrange(start as int, i as int)));
            }
            tokens.push(line);
            proof {
                assert(tokens.deep_view() =~= tv.push(line@));
                assert(spec_lines(src@) =~= tokens.deep_view() + spec_lines(
                    src@.skip(i + 1 as int),
                ));
            }
            start = i + 1;
        }
        i += 1;
    }
    if start < n {
        let line = src.substring_char(start, n);
        let ghost tv = tokens.deep_view();
        proof {
            let suffix = src@.skip(start as int);
            assert forall|j: int| 0 <= j < suffix.len() implies suffix[j] != '\n' by {
                assert(suffix[j] == src@[j + start]);
            }
            lemma_first_newline_none(suffix, 0);
            assert(line@ =~= suffix);
            assert(spec_lines(suffix) == seq![suffix]);
        }
        tokens.push(line);
        proof {
            assert(tokens.deep_view() =~= tv.push(line@));
            assert(tokens.deep_view() =~= tv + seq![line@]);
        }
    } else {
        proof {
            assert(src@.skip(start as int) =~= Seq::<char>::empty());
            assert(tokens.deep_view() + spec_lines(Seq::<char>::empty()) =~= tokens.deep_view());
        }
    }
    tokens
}

/// Relies on `rand::random_range`: a value drawn uniformly from the given
/// range, here `0 .. bound`, so the result is below the bound.
#[verifier::external_body]
fn pick_index(bound: usize) -> (r: usize)
    requires
        bound > 0,
    ensures
        r < bound,
{
    rand::random_range(0..bound)
}

/// Builds a random phrase of `n` tokens, separated by single spaces: each
/// token is drawn from `tokens` with a fresh random index, so all that is
/// promised of the result is its shape.
pub fn tokens_to_phrase(n: usize, tokens: &Vec<&str>) -> (phrase: String)
    requires
        tokens.len() > 0,
    ensures
        exists|parts: Seq<Seq<char>>|
            {
                &&& parts.len() == n
                &&& (forall|i: int|
                    0 <= i < n ==> exists|j: int|
                        0 <= j < tokens@.len() && #[trigger] parts[i] == tokens@[j]@)
                &&& phrase@ == spec_join_spaced(parts)
            },
{
    let mut phrase = String::new();
    let ghost mut parts: Seq<Seq<char>> = Seq::empty();
    let mut k: usize = 0;
    while k < n
        invariant
            0 <= k <= n,
            tokens.len() > 0,
            parts.len() == k,
            forall|i: int|
                0 <= i < k ==> exists|j: int|
                    0 <= j < tokens@.len() && #[trigger] parts[i] == tokens@[j]@,
            phrase@ == spec_join_spaced(parts),
        decreases n - k,
    {
        let j = pick_index(tokens.len());
        let token = tokens[j];
        if k > 0 {
            phrase.append(" ");
        }
        phrase.append(token);
        proof {
            let prev = parts;
            parts = parts.push(token@);
            reveal_strlit(" ");
            assert(" "@ =~= seq![' ']);
            assert(parts.drop_last() =~= prev);
            assert(parts[k as int] == tokens@[j as int]@);
            if k == 0 {
                assert(spec_join_spaced(prev) =~= Seq::<char>::empty());
                assert(phrase@ =~= spec_join_spaced(parts));
            } else {
                assert(spec_join_spaced(parts) == spec_join_spaced(prev) + seq![' ']
                    + token@);
                assert(phrase@ =~= spec_join_spaced(parts));
            }
        }
        k += 1;
    }
    phrase
}

} // verus!
