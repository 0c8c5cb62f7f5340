//! Splitting a response into its lines of text.
//!
//! A line ends at a line feed; a carriage return just before the line feed
//! belongs to the line end. What follows the last line feed is a line too,
//! unless it is empty. Each line must be UTF-8.

use vstd::prelude::*;
use vstd::slice::{slice_subrange, slice_to_vec};
use vstd::utf8::{decode_utf8, valid_utf8};

verus! {

/// Number of bytes before the first line feed of `bytes`; the length of
/// `bytes` if it holds none.
pub open spec fn line_length(bytes: Seq<u8>) -> int
    decreases bytes.len(),
{
    if bytes.len() == 0 || bytes[0] == 10u8 {
        0
    } else {
        1 + line_length(bytes.drop_first())
    }
}

/// `line` without a carriage return at its end.
pub open spec fn without_return(line: Seq<u8>) -> Seq<u8> {
    if line.len() > 0 && line.last() == 13u8 {
        line.drop_last()
    } else {
        line
    }
}

/// The lines of `bytes`, as bytes, without their line ends.
pub open spec fn split_lines(bytes: Seq<u8>) -> Seq<Seq<u8>>
    decreases bytes.len(),
{
    if bytes.len() == 0 {
        Seq::empty()
    } else {
        let k = line_length(bytes);
        if k < 0 || k >= bytes.len() {
            seq![bytes]
        } else {
            seq![without_return(bytes.take(k))] + split_lines(bytes.skip(k + 1))
        }
    }
}

/// The first `n` of `lines` as text, or the number of the first among them
/// that is not UTF-8, counted from 0.
pub open spec fn decoded_prefix(lines: Seq<Seq<u8>>, n: int) -> Result<Seq<Seq<char>>, int>
    decreases n,
{
    if n <= 0 {
        Ok(Seq::empty())
    } else {
        match decoded_prefix(lines, n - 1) {
            Err(i) => Err(i),
            Ok(done) => if valid_utf8(lines[n - 1]) {
                Ok(done.push(decode_utf8(lines[n - 1])))
            } else {
                Err(n - 1)
            },
        }
    }
}

/// The lines of `bytes` as text, or the number of the first line that is not
/// UTF-8, counted from 0.
pub open spec fn decoded_lines(bytes: Seq<u8>) -> Result<Seq<Seq<char>>, int> {
    decoded_prefix(split_lines(bytes), split_lines(bytes).len() as int)
}

/// The lines `lines` as texts.
pub open spec fn line_views(lines: Seq<String>) -> Seq<Seq<char>> {
    Seq::new(lines.len(), |i: int| lines[i]@)
}

/// Lines that are decoded are all UTF-8, and each text is what its line
/// encodes.
pub proof fn lemma_each_line_decoded(lines: Seq<Seq<u8>>, n: int)
    requires
        0 <= n <= lines.len(),
        decoded_prefix(lines, n) is Ok,
    ensures
        decoded_prefix(lines, n)->Ok_0.len() == n,
        forall|i: int|
            0 <= i < n ==> valid_utf8(#[trigger] lines[i]) && decoded_prefix(lines, n)->Ok_0[i]
                == decode_utf8(lines[i]),
    decreases n,
{
    if n > 0 {
        lemma_each_line_decoded(lines, n - 1);
        let before = decoded_prefix(lines, n - 1)->Ok_0;
        let texts = decoded_prefix(lines, n)->Ok_0;
        assert forall|i: int| 0 <= i < n implies valid_utf8(#[trigger] lines[i]) && texts[i]
            == decode_utf8(lines[i]) by {
            if i < n - 1 {
                assert(texts[i] == before[i]);
            }
        }
    }
}

/// The place of the first line feed is the length of the line.
proof fn lemma_line_length_is(bytes: Seq<u8>, k: int)
    requires
        0 <= k <= bytes.len(),
        forall|i: int| 0 <= i < k ==> bytes[i] != 10u8,
        k == bytes.len() || bytes[k] == 10u8,
    ensures
        line_length(bytes) == k,
    decreases bytes.len(),
{
    if k > 0 {
        let rest = bytes.drop_first();
        assert forall|i: int| 0 <= i < k - 1 implies rest[i] != 10u8 by {
            assert(rest[i] == bytes[i + 1]);
        }
        lemma_line_length_is(rest, k - 1);
    }
}

/// Once a line has failed, the lines after it change nothing.
proof fn lemma_decoded_failure_stays(lines: Seq<Seq<u8>>, n: int, m: int)
    requires
        n <= m,
        decoded_prefix(lines, n) is Err,
    ensures
        decoded_prefix(lines, m) == decoded_prefix(lines, n),
    decreases m - n,
{
    if n < m {
        lemma_decoded_failure_stays(lines, n, m - 1);
    }
}

/// What the first lines give does not depend on the lines after them.
proof fn lemma_decoded_prefix_of_longer(a: Seq<Seq<u8>>, b: Seq<Seq<u8>>, n: int)
    requires
        0 <= n <= a.len(),
    ensures
        decoded_prefix(a + b, n) == decoded_prefix(a, n),
    decreases n,
{
    if n > 0 {
        lemma_decoded_prefix_of_longer(a, b, n - 1);
        assert((a + b)[n - 1] == a[n - 1]);
    }
}

/// The end of the line that starts at `start`: the place of the next line
/// feed, or the end of `bytes`.
fn line_end(bytes: &[u8], start: usize) -> (end: usize)
    requires
        start <= bytes@.len(),
    ensures
        start <= end <= bytes@.len(),
        end - start == line_length(bytes@.skip(start as int)),
{
    let mut end: usize = start;
    while end < bytes.len() && bytes[end] != 10u8
        invariant
            start <= end <= bytes@.len(),
            forall|i: int| start <= i < end ==> bytes@[i] != 10u8,
        decreases bytes.len() - end,
    {
        end += 1;
    }
    proof {
        let tail = bytes@.skip(start as int);
        assert forall|i: int| 0 <= i < end - start implies tail[i] != 10u8 by {
            assert(tail[i] == bytes@[start + i]);
        }
        lemma_line_length_is(tail, end - start);
    }
    end
}

/// The lines of `bytes` as text. Fails with the number of the first line
/// that is not UTF-8, counted from 0.
pub fn read_lines(bytes: &[u8]) -> (r: Result<Vec<String>, usize>)
    ensures
        match r {
            Ok(lines) => decoded_lines(bytes@) == Ok::<Seq<Seq<char>>, int>(line_views(lines@)),
            Err(i) => decoded_lines(bytes@) == Err::<Seq<Seq<char>>, int>(i as int),
        },
{
    let n: usize = bytes.len();
    let mut out: Vec<String> = Vec::new();
    let mut start: usize = 0;
    let ghost mut raw: Seq<Seq<u8>> = Seq::empty();
    proof {
        assert(bytes@.skip(0) =~= bytes@);
        assert(raw + split_lines(bytes@) =~= split_lines(bytes@));
        assert(line_views(out@) =~= Seq::<Seq<char>>::empty());
    }
    while start < n
        invariant
            start <= n == bytes@.len(),
            split_lines(bytes@) == raw + split_lines(bytes@.skip(start as int)),
            raw.len() == out@.len(),
            decoded_prefix(raw, raw.len() as int) == Ok::<Seq<Seq<char>>, int>(line_views(out@)),
        decreases n - start,
    {
        let ghost tail = bytes@.skip(start as int);
        let end = line_end(bytes, start);
        let stop: usize = if end < n && end > start && bytes[end - 1] == 13u8 {
            end - 1
        } else {
            end
        };
        let next: usize = if end < n {
            end + 1
        } else {
            n
        };
        let line = slice_to_vec(slice_subrange(bytes, start, stop));
        let ghost before = raw;
        let ghost texts = line_views(out@);
        proof {
            let k = line_length(tail);
            assert(tail.take(k) =~= bytes@.subrange(start as int, end as int));
            if end < n {
                assert(tail.skip(k + 1) =~= bytes@.skip(next as int));
                if end > start {
                    assert(tail.take(k).last() == bytes@[end - 1]);
                }
                assert(line@ =~= without_return(tail.take(k)));
            } else {
                assert(tail.take(k) =~= tail);
                assert(line@ =~= tail);
                assert(bytes@.skip(n as int) =~= Seq::<u8>::empty());
                assert(split_lines(bytes@.skip(n as int)) =~= Seq::<Seq<u8>>::empty());
            }
            raw = raw.push(line@);
            assert(split_lines(tail) =~= seq![line@] + split_lines(bytes@.skip(next as int)));
            assert(split_lines(bytes@) =~= raw + split_lines(bytes@.skip(next as int)));
            lemma_decoded_prefix_of_longer(before, seq![line@], before.len() as int);
            assert(before + seq![line@] =~= raw);
        }
        match String::from_utf8(line) {
            Ok(text) => {
                out.push(text);
                proof {
                    assert(line_views(out@) =~= texts.push(text@));
                }
            },
            Err(_) => {
                proof {
                    let all = split_lines(bytes@);
                    lemma_decoded_prefix_of_longer(
                        raw,
                        split_lines(bytes@.skip(next as int)),
                        raw.len() as int,
                    );
                    lemma_decoded_failure_stays(all, raw.len() as int, all.len() as int);
                }
                return Err(out.len());
            },
        }
        start = next;
    }
    proof {
        assert(bytes@.skip(n as int) =~= Seq::<u8>::empty());
        assert(raw + Seq::<Seq<u8>>::empty() =~= raw);
    }
    Ok(out)
}

} // verus!
