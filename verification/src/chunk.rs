//! Splitting a document into bounded-size chunks.
//!
//! A document is cut on line boundaries only: lines are accumulated greedily
//! into a chunk until adding the next line would push the chunk past the byte
//! budget. A single line larger than the budget becomes a chunk of its own.
//! The contract pins the result exactly: joining the chunks with newlines
//! restores the document, every chunk is within budget unless it is one
//! oversized line, and no chunk could have absorbed the first line of its
//! successor.

use vstd::prelude::*;
use vstd::utf8::encode_utf8;

verus! {

/// The character sequences of a vector of strings.
pub open spec fn views_of(v: Seq<String>) -> Seq<Seq<char>> {
    v.map_values(|s: String| s@)
}

/// The UTF-8 byte length of a character sequence.
pub open spec fn byte_len(s: Seq<char>) -> nat {
    encode_utf8(s).len()
}

/// The text the given lines (or chunks) reassemble to, with a newline
/// between consecutive elements.
pub open spec fn join_lines(lines: Seq<Seq<char>>) -> Seq<char>
    decreases lines.len(),
{
    if lines.len() == 0 {
        Seq::empty()
    } else if lines.len() == 1 {
        lines[0]
    } else {
        lines[0] + seq!['\n'] + join_lines(lines.drop_first())
    }
}

/// Appending an element to a join adds a newline and the element.
pub proof fn lemma_join_push(l: Seq<Seq<char>>, x: Seq<char>)
    ensures
        join_lines(l.push(x)) == if l.len() == 0 {
            x
        } else {
            join_lines(l) + seq!['\n'] + x
        },
    decreases l.len(),
{
    if l.len() == 0 {
        assert(l.push(x).len() == 1);
        assert(l.push(x)[0] == x);
    } else if l.len() == 1 {
        assert(l.push(x)[0] == l[0]);
        assert(l.push(x).drop_first() =~= seq![x]);
        assert(join_lines(seq![x]) == x);
    } else {
        assert(l.push(x).drop_first() =~= l.drop_first().push(x));
        lemma_join_push(l.drop_first(), x);
        assert(l.push(x)[0] == l[0]);
        assert(join_lines(l.push(x)) == l[0] + seq!['\n'] + (join_lines(l.drop_first()) + seq![
            '\n',
        ] + x));
        assert(l[0] + seq!['\n'] + (join_lines(l.drop_first()) + seq!['\n'] + x) =~= (l[0] + seq![
            '\n',
        ] + join_lines(l.drop_first())) + seq!['\n'] + x);
    }
}

/// The first line of a text: everything before the first newline.
pub open spec fn first_line_of(s: Seq<char>) -> Seq<char>
    decreases s.len(),
{
    if s.len() == 0 {
        s
    } else if s[0] == '\n' {
        Seq::empty()
    } else {
        seq![s[0]] + first_line_of(s.drop_first())
    }
}

/// A text without newlines is its own first line.
pub proof fn lemma_first_line_whole(a: Seq<char>)
    requires
        !a.contains('\n'),
    ensures
        first_line_of(a) == a,
    decreases a.len(),
{
    if a.len() == 0 {
    } else {
        assert(a[0] != '\n');
        assert(!a.drop_first().contains('\n')) by {
            if a.drop_first().contains('\n') {
                let i = choose|i: int|
                    0 <= i < a.drop_first().len() && a.drop_first()[i] == '\n';
                assert(a[i + 1] == '\n');
            }
        }
        lemma_first_line_whole(a.drop_first());
        assert(seq![a[0]] + a.drop_first() =~= a);
    }
}

/// The first line of a newline-free prefix followed by a newline is that
/// prefix, whatever follows.
pub proof fn lemma_first_line_prefix(a: Seq<char>, b: Seq<char>)
    requires
        !a.contains('\n'),
    ensures
        first_line_of(a + seq!['\n'] + b) == a,
    decreases a.len(),
{
    let s = a + seq!['\n'] + b;
    if a.len() == 0 {
        assert(s[0] == '\n');
        assert(first_line_of(s) =~= a);
    } else {
        assert(s[0] == a[0]);
        assert(a[0] != '\n');
        assert(!a.drop_first().contains('\n')) by {
            if a.drop_first().contains('\n') {
                let i = choose|i: int|
                    0 <= i < a.drop_first().len() && a.drop_first()[i] == '\n';
                assert(a[i + 1] == '\n');
            }
        }
        lemma_first_line_prefix(a.drop_first(), b);
        assert(s.drop_first() =~= a.drop_first() + seq!['\n'] + b);
        assert(first_line_of(s) == seq![a[0]] + a.drop_first());
        assert(seq![a[0]] + a.drop_first() =~= a);
    }
}

/// Once a text holds a newline, what is appended after it cannot change its
/// first line.
pub proof fn lemma_first_line_stable(a: Seq<char>, b: Seq<char>)
    requires
        a.contains('\n'),
    ensures
        first_line_of(a + b) == first_line_of(a),
    decreases a.len(),
{
    let s = a + b;
    if a[0] == '\n' {
        assert(s[0] == '\n');
    } else {
        assert(s[0] == a[0]);
        assert(a.drop_first().contains('\n')) by {
            let i = choose|i: int| 0 <= i < a.len() && a[i] == '\n';
            assert(a.drop_first()[i - 1] == '\n');
        }
        lemma_first_line_stable(a.drop_first(), b);
        assert(s.drop_first() =~= a.drop_first() + b);
    }
}

/// Split a text into its lines.
///
/// Joining the returned lines with newlines restores the text, and no line
/// holds a newline. A text without newlines is one line; a trailing newline
/// yields a final empty line.
pub fn split_into_lines(text: &str) -> (r: Vec<String>)
    ensures
        r@.len() >= 1,
        join_lines(views_of(r@)) == text@,
        forall|i: int| 0 <= i < r@.len() ==> !(#[trigger] r@[i])@.contains('\n'),
{
    let n = text.unicode_len();
    let mut lines: Vec<String> = Vec::new();
    let mut start: usize = 0;
    let mut i: usize = 0;
    proof {
        assert(text@.subrange(0, 0) =~= Seq::<char>::empty());
        assert(views_of(lines@).push(text@.subrange(0, 0)) =~= seq![
            Seq::<char>::empty(),
        ]);
        assert(text@.take(0) =~= Seq::<char>::empty());
    }
    while i < n
        invariant
            start <= i <= n,
            n == text@.len(),
            join_lines(views_of(lines@).push(text@.subrange(start as int, i as int))) == text@.take(
                i as int,
            ),
            forall|k: int| 0 <= k < lines@.len() ==> !(#[trigger] lines@[k])@.contains('\n'),
            !text@.subrange(start as int, i as int).contains('\n'),
        decreases n - i,
    {
        let ghost part = text@.subrange(start as int, i as int);
        let c = text.get_char(i);
        if c == '\n' {
            let line = String::from_str(text.substring_char(start, i));
            proof {
                lemma_join_push(views_of(lines@).push(part), Seq::<char>::empty());
                lemma_join_push(views_of(lines@), part);
                assert(views_of(lines@.push(line)) =~= views_of(lines@).push(part));
                assert(text@.subrange(i as int + 1, i as int + 1) =~= Seq::<char>::empty());
                assert(text@.take(i as int) + seq!['\n'] + Seq::<char>::empty() =~= text@.take(
                    i as int + 1,
                ));
                assert(join_lines(views_of(lines@).push(part).push(Seq::<char>::empty()))
                    == join_lines(views_of(lines@).push(part)) + seq!['\n']
                    + Seq::<char>::empty());
            }
            lines.push(line);
            start = i + 1;
        } else {
            proof {
                let ext = text@.subrange(start as int, i as int + 1);
                assert(ext =~= part.push(text@[i as int]));
                lemma_join_push(views_of(lines@), part);
                lemma_join_push(views_of(lines@), ext);
                if views_of(lines@).len() == 0 {
                    assert(join_lines(views_of(lines@).push(ext)) == ext);
                    assert(ext =~= text@.take(i as int).push(text@[i as int]));
                } else {
                    assert(join_lines(views_of(lines@)) + seq!['\n'] + ext =~= (join_lines(
                        views_of(lines@),
                    ) + seq!['\n'] + part).push(text@[i as int]));
                }
                assert(text@.take(i as int).push(text@[i as int]) =~= text@.take(i as int + 1));
                assert(!ext.contains('\n')) by {
                    if ext.contains('\n') {
                        let j = choose|j: int| 0 <= j < ext.len() && ext[j] == '\n';
                        if j < part.len() {
                            assert(part[j] == '\n');
                        } else {
                            assert(ext[j] == text@[i as int]);
                        }
                    }
                }
            }
        }
        i += 1;
    }
    let last = String::from_str(text.substring_char(start, n));
    proof {
        assert(views_of(lines@.push(last)) =~= views_of(lines@).push(
            text@.subrange(start as int, n as int),
        ));
        assert(text@.take(n as int) =~= text@);
    }
    lines.push(last);
    lines
}

/// Greedily merge lines into chunks within the byte budget.
///
/// The chunks join back to the joined lines; every chunk fits the budget or
/// is a single oversized line; and no chunk could also have taken the first
/// line of the chunk after it.
pub fn merge_lines(lines: &Vec<String>, budget: usize) -> (r: Vec<String>)
    requires
        lines@.len() >= 1,
        forall|i: int| 0 <= i < lines@.len() ==> !(#[trigger] lines@[i])@.contains('\n'),
    ensures
        r@.len() >= 1,
        join_lines(views_of(r@)) == join_lines(views_of(lines@)),
        forall|i: int|
            0 <= i < r@.len() ==> byte_len((#[trigger] r@[i])@) <= budget || !r@[i]@.contains(
                '\n',
            ),
        forall|i: int|
            0 <= i < r@.len() - 1 ==> byte_len(
                (#[trigger] r@[i])@ + seq!['\n'] + first_line_of(r@[i + 1]@),
            ) > budget,
{
    let mut out: Vec<String> = Vec::new();
    let mut cur: String = lines[0].clone();
    let mut k: usize = 1;
    proof {
        assert(views_of(lines@).take(1) =~= seq![lines@[0]@]);
        assert(join_lines(views_of(out@).push(cur@)) == join_lines(views_of(lines@).take(1)));
        lemma_first_line_whole(cur@);
    }
    while k < lines.len()
        invariant
            1 <= k <= lines@.len(),
            forall|i: int| 0 <= i < lines@.len() ==> !(#[trigger] lines@[i])@.contains('\n'),
            join_lines(views_of(out@).push(cur@)) == join_lines(views_of(lines@).take(k as int)),
            byte_len(cur@) <= budget || !cur@.contains('\n'),
            forall|i: int|
                0 <= i < out@.len() ==> byte_len((#[trigger] out@[i])@) <= budget
                    || !out@[i]@.contains('\n'),
            forall|i: int|
                0 <= i < out@.len() - 1 ==> byte_len(
                    (#[trigger] out@[i])@ + seq!['\n'] + first_line_of(out@[i + 1]@),
                ) > budget,
            out@.len() > 0 ==> byte_len(
                out@[out@.len() - 1]@ + seq!['\n'] + first_line_of(cur@),
            ) > budget,
        decreases lines@.len() - k,
    {
        let mut cand = cur.clone();
        cand.append("\n");
        cand.append(lines[k].as_str());
        proof {
            reveal_strlit("\n");
            assert("\n"@ =~= seq!['\n']);
            assert(cand@ =~= cur@ + seq!['\n'] + lines@[k as int]@);
            assert(views_of(lines@).take(k as int + 1) =~= views_of(lines@).take(
                k as int,
            ).push(lines@[k as int]@));
            lemma_join_push(views_of(lines@).take(k as int), lines@[k as int]@);
        }
        if cand.as_str().as_bytes().len() <= budget {
            proof {
                lemma_join_push(views_of(out@), cur@);
                lemma_join_push(views_of(out@), cand@);
                if views_of(out@).len() == 0 {
                } else {
                    assert(join_lines(views_of(out@)) + seq!['\n'] + cand@ =~= (join_lines(
                        views_of(out@),
                    ) + seq!['\n'] + cur@) + seq!['\n'] + lines@[k as int]@);
                }
                assert(join_lines(views_of(lines@).take(k as int + 1)) == join_lines(
                    views_of(lines@).take(k as int),
                ) + seq!['\n'] + lines@[k as int]@);
                assert(byte_len(cand@) <= budget);
                if cur@.contains('\n') {
                    lemma_first_line_stable(cur@, seq!['\n'] + lines@[k as int]@);
                    assert(cur@ + (seq!['\n'] + lines@[k as int]@) =~= cand@);
                } else {
                    lemma_first_line_whole(cur@);
                    lemma_first_line_prefix(cur@, lines@[k as int]@);
                }
                assert(first_line_of(cand@) == first_line_of(cur@));
            }
            cur = cand;
        } else {
            proof {
                lemma_join_push(views_of(out@), cur@);
                lemma_join_push(views_of(out@).push(cur@), lines@[k as int]@);
                assert(views_of(out@.push(cur)) =~= views_of(out@).push(cur@));
                lemma_first_line_whole(lines@[k as int]@);
                assert(!lines@[k as int]@.contains('\n'));
                assert(byte_len(cand@) > budget);
                assert(forall|i: int|
                    0 <= i < out@.len() ==> (#[trigger] out@.push(cur)[i]) == out@[i]);
                assert(out@.push(cur)[out@.len() as int] == cur);
            }
            out.push(cur);
            cur = lines[k].clone();
        }
        k += 1;
    }
    proof {
        assert(views_of(lines@).take(lines@.len() as int) =~= views_of(lines@));
        assert(views_of(out@.push(cur)) =~= views_of(out@).push(cur@));
        assert(forall|i: int| 0 <= i < out@.len() ==> (#[trigger] out@.push(cur)[i]) == out@[i]);
    }
    out.push(cur);
    out
}

/// Split a document into greedy line-based chunks within a byte budget.
///
/// Joining the chunks with newlines restores the document exactly; each
/// chunk's UTF-8 length is within the budget unless the chunk is a single
/// oversized line; and each chunk was closed only because the first line of
/// the next chunk did not fit.
pub fn chunk_text(text: &str, budget: usize) -> (r: Vec<String>)
    ensures
        r@.len() >= 1,
        join_lines(views_of(r@)) == text@,
        forall|i: int|
            0 <= i < r@.len() ==> byte_len((#[trigger] r@[i])@) <= budget || !r@[i]@.contains(
                '\n',
            ),
        forall|i: int|
            0 <= i < r@.len() - 1 ==> byte_len(
                (#[trigger] r@[i])@ + seq!['\n'] + first_line_of(r@[i + 1]@),
            ) > budget,
{
    let lines = split_into_lines(text);
    merge_lines(&lines, budget)
}

} // verus!
