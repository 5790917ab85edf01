//! Chunking: a text is split into words at white space, and the words are
//! grouped into overlapping windows of a fixed size.

use vstd::prelude::*;
use vstd::arithmetic::div_mod::{
    lemma_div_is_ordered, lemma_fundamental_div_mod, lemma_fundamental_div_mod_converse,
    lemma_mod_bound,
};
use crate::text::{join, lemma_join_push, push_joined, views};

verus! {

/// Whether `c` is white space in the sense of `char::is_whitespace`, that is,
/// whether it has the Unicode property `White_Space`.
pub uninterp spec fn char_is_whitespace(c: char) -> bool;

/// What `char::is_whitespace` answers: whether the character has the Unicode
/// property `White_Space`. The answer depends on the character alone.
pub assume_specification[ char::is_whitespace ](c: char) -> (b: bool)
    ensures
        b == char_is_whitespace(c),
;

/// For each character of `text`, whether it is white space.
pub open spec fn blanks(text: Seq<char>) -> Seq<bool> {
    Seq::new(text.len(), |i: int| char_is_whitespace(text[i]))
}

/// Whether the character at `i` is marked as a separator. A character without
/// a mark is none.
pub open spec fn blank_at(marks: Seq<bool>, i: int) -> bool {
    0 <= i < marks.len() && marks[i]
}

/// The words among the first `n` characters of `text`: the maximal runs of
/// characters that are not marked as separators, in order. A run that reaches
/// the end of the `n` characters counts as a word.
pub open spec fn words_upto(text: Seq<char>, marks: Seq<bool>, n: nat) -> Seq<Seq<char>>
    decreases n,
{
    if n == 0 {
        Seq::empty()
    } else {
        let before = words_upto(text, marks, (n - 1) as nat);
        let c = text[n - 1];
        if blank_at(marks, n - 1) {
            before
        } else if n >= 2 && !blank_at(marks, n - 2) {
            before.drop_last().push(before.last().push(c))
        } else {
            before.push(seq![c])
        }
    }
}

/// The words of `text` under the given marks.
pub open spec fn words_marked(text: Seq<char>, marks: Seq<bool>) -> Seq<Seq<char>> {
    words_upto(text, marks, text.len())
}

/// The words of `text`: its maximal runs of characters that are not white
/// space.
pub open spec fn words(text: Seq<char>) -> Seq<Seq<char>> {
    words_marked(text, blanks(text))
}

/// The number of words by which a window advances: the size less the overlap,
/// and one where that would not be positive.
pub open spec fn stride(size: nat, overlap: nat) -> nat {
    if size > overlap {
        (size - overlap) as nat
    } else {
        1
    }
}

/// The number of windows over `n` words: one for no words, else as many as
/// there are window starts below `n`.
pub open spec fn window_count(n: nat, size: nat, overlap: nat) -> nat {
    if n == 0 {
        1
    } else {
        ((n - 1) / (stride(size, overlap) as int) + 1) as nat
    }
}

/// The index of the first word of window `i`.
pub open spec fn window_start(i: nat, size: nat, overlap: nat) -> nat {
    i * stride(size, overlap)
}

/// The index after the last word of window `i` over `n` words: `size` words
/// after its start, or `n` where the words end first.
pub open spec fn window_end(i: nat, n: nat, size: nat, overlap: nat) -> nat {
    if window_start(i, size, overlap) + size <= n {
        window_start(i, size, overlap) + size
    } else {
        n
    }
}

/// The words of window `i`.
pub open spec fn window(words: Seq<Seq<char>>, i: nat, size: nat, overlap: nat) -> Seq<Seq<char>> {
    words.subrange(
        window_start(i, size, overlap) as int,
        window_end(i, words.len(), size, overlap) as int,
    )
}

/// The chunks of a list of words: each window's words joined by single
/// spaces. No words give one empty chunk.
pub open spec fn chunks_of(words: Seq<Seq<char>>, size: nat, overlap: nat) -> Seq<Seq<char>> {
    Seq::new(
        window_count(words.len(), size, overlap),
        |i: int| join(window(words, i as nat, size, overlap), seq![' ']),
    )
}

/// The chunks of a text.
pub open spec fn chunked(text: Seq<char>, size: nat, overlap: nat) -> Seq<Seq<char>> {
    chunks_of(words(text), size, overlap)
}

/// The number of windows that the covering rule asks for where the overlap is
/// below the size: one, and one more for each stride, whole or begun, by which
/// `n` words exceed one window.
pub open spec fn covering_count(n: nat, size: nat, overlap: nat) -> nat {
    let excess = if n > size {
        n - size
    } else {
        0
    };
    ((excess + (size - overlap) - 1) / (size - overlap) + 1) as nat
}

/// Whether the last window over `n` words holds a word that the window before
/// it does not hold; true also where there is one window only.
pub open spec fn last_window_adds(n: nat, size: nat, overlap: nat) -> bool {
    n <= stride(size, overlap) || (n > size && (n - 1) % (stride(size, overlap) as int) >= overlap)
}

/// Whether every word has a character and none has white space.
pub open spec fn are_words(found: Seq<Seq<char>>) -> bool {
    forall|j: int|
        0 <= j < found.len() ==> (#[trigger] found[j]).len() > 0 && forall|k: int|
            0 <= k < found[j].len() ==> !char_is_whitespace(#[trigger] found[j][k])
}

/// Among the first `n` characters of a text no word is empty and none holds
/// white space; and where the last of these characters is no white space,
/// there is a word.
pub proof fn lemma_words_upto_are_words(text: Seq<char>, n: nat)
    requires
        n <= text.len(),
    ensures
        are_words(words_upto(text, blanks(text), n)),
        n >= 1 && !blank_at(blanks(text), n - 1) ==> words_upto(text, blanks(text), n).len() > 0,
    decreases n,
{
    let marks = blanks(text);
    if n > 0 {
        lemma_words_upto_are_words(text, (n - 1) as nat);
        let before = words_upto(text, marks, (n - 1) as nat);
        let now = words_upto(text, marks, n);
        let c = text[n - 1];
        if blank_at(marks, n - 1) {
        } else if n >= 2 && !blank_at(marks, n - 2) {
            let grown = before.last().push(c);
            assert(now == before.drop_last().push(grown));
            assert forall|j: int| 0 <= j < now.len() implies (#[trigger] now[j]).len() > 0
                && forall|k: int|
                0 <= k < now[j].len() ==> !char_is_whitespace(#[trigger] now[j][k]) by {
                if j < now.len() - 1 {
                    assert(now[j] == before[j]);
                } else {
                    assert(now[j] == grown);
                    assert forall|k: int| 0 <= k < grown.len() implies !char_is_whitespace(
                        #[trigger] grown[k],
                    ) by {
                        if k < grown.len() - 1 {
                            assert(grown[k] == before.last()[k]);
                        }
                    }
                }
            }
        } else {
            assert(now == before.push(seq![c]));
            assert forall|j: int| 0 <= j < now.len() implies (#[trigger] now[j]).len() > 0
                && forall|k: int|
                0 <= k < now[j].len() ==> !char_is_whitespace(#[trigger] now[j][k]) by {
                if j < now.len() - 1 {
                    assert(now[j] == before[j]);
                }
            }
        }
    }
}

/// No word of a text is empty, and none holds white space.
pub proof fn lemma_words_are_words(text: Seq<char>)
    ensures
        are_words(words(text)),
{
    lemma_words_upto_are_words(text, text.len());
}

/// The characters of `text` that are not white space, in order.
pub open spec fn solid(text: Seq<char>) -> Seq<char> {
    text.filter(|c: char| !char_is_whitespace(c))
}

/// The words among the first `n` characters of a text, placed end to end,
/// are those characters without the white space.
pub proof fn lemma_words_upto_hold_the_text(text: Seq<char>, n: nat)
    requires
        n <= text.len(),
    ensures
        join(words_upto(text, blanks(text), n), Seq::empty()) == solid(text.take(n as int)),
    decreases n,
{
    reveal(Seq::filter);
    let marks = blanks(text);
    let nothing = Seq::<char>::empty();
    if n == 0 {
        assert(text.take(0) =~= Seq::<char>::empty());
        assert(solid(text.take(0)) =~= Seq::<char>::empty());
    } else {
        lemma_words_upto_hold_the_text(text, (n - 1) as nat);
        lemma_words_upto_are_words(text, (n - 1) as nat);
        let before = words_upto(text, marks, (n - 1) as nat);
        let c = text[n - 1];
        assert(text.take(n as int).drop_last() =~= text.take(n - 1));
        assert(text.take(n as int).last() == c);
        if blank_at(marks, n - 1) {
        } else if n >= 2 && !blank_at(marks, n - 2) {
            let front = before.drop_last();
            let last = before.last();
            assert(before =~= front.push(last));
            lemma_join_push(front, nothing, last);
            lemma_join_push(front, nothing, last.push(c));
            assert(join(front.push(last.push(c)), nothing) =~= join(before, nothing).push(c));
        } else {
            lemma_join_push(before, nothing, seq![c]);
            assert(join(before.push(seq![c]), nothing) =~= join(before, nothing).push(c));
        }
    }
}

/// The words of a text, placed end to end, are the text without its white
/// space: splitting loses no other character and changes no order.
pub proof fn lemma_words_hold_the_text(text: Seq<char>)
    ensures
        join(words(text), Seq::empty()) == solid(text),
{
    lemma_words_upto_hold_the_text(text, text.len());
    assert(text.take(text.len() as int) =~= text);
}

/// There is always at least one window.
pub proof fn lemma_window_count_positive(n: nat, size: nat, overlap: nat)
    ensures
        window_count(n, size, overlap) >= 1,
{
    if n > 0 {
        let step = stride(size, overlap) as int;
        assert((n - 1) / step >= 0) by (nonlinear_arith)
            requires
                n - 1 >= 0,
                step > 0,
        ;
    }
}

/// The first window starts at the first word, each later one a stride after
/// the one before, and every window starts below the number of words.
pub proof fn lemma_window_starts(n: nat, size: nat, overlap: nat, i: nat)
    requires
        n > 0,
        i < window_count(n, size, overlap),
    ensures
        window_start(0, size, overlap) == 0,
        window_start(i + 1, size, overlap) == window_start(i, size, overlap) + stride(
            size,
            overlap,
        ),
        window_start(i, size, overlap) < n,
        i + 1 == window_count(n, size, overlap) <==> window_start(i, size, overlap) + stride(
            size,
            overlap,
        ) >= n,
{
    let step = stride(size, overlap) as int;
    let q = (n - 1) / step;
    lemma_fundamental_div_mod(n - 1, step);
    lemma_mod_bound(n - 1, step);
    assert((i + 1) * step == i * step + step) by (nonlinear_arith);
    assert(i * step <= q * step) by (nonlinear_arith)
        requires
            i <= q,
            step > 0,
    ;
    assert(step * q == q * step) by (nonlinear_arith);
    if i < q {
        assert((i + 1) * step <= q * step) by (nonlinear_arith)
            requires
                i + 1 <= q,
                step > 0,
        ;
    }
}

/// A window lies within the words and holds at most `size` of them. Where
/// the size is at least one and there are words, no window is empty.
pub proof fn lemma_window_bounds(n: nat, size: nat, overlap: nat, i: nat)
    requires
        i < window_count(n, size, overlap),
    ensures
        window_start(i, size, overlap) <= window_end(i, n, size, overlap) <= n,
        window_end(i, n, size, overlap) - window_start(i, size, overlap) <= size,
        size >= 1 && n >= 1 ==> window_end(i, n, size, overlap) > window_start(i, size, overlap),
{
    if n > 0 {
        lemma_window_starts(n, size, overlap, i);
    } else {
        assert(window_start(0, size, overlap) == 0) by (nonlinear_arith);
    }
}

/// Every word lies in a window, where a window holds at least one word: the
/// window of index `w / stride` holds word `w`.
pub proof fn lemma_windows_cover(n: nat, size: nat, overlap: nat, w: nat)
    requires
        size >= 1,
        w < n,
    ensures
        ({
            let i = (w / stride(size, overlap)) as nat;
            &&& i < window_count(n, size, overlap)
            &&& window_start(i, size, overlap) <= w < window_end(i, n, size, overlap)
        }),
{
    let step = stride(size, overlap) as int;
    lemma_fundamental_div_mod(w as int, step);
    lemma_mod_bound(w as int, step);
    lemma_div_is_ordered(w as int, n - 1, step);
    let q = (w as int) / step;
    assert(step * q == q * step) by (nonlinear_arith);
    assert(0 <= q) by (nonlinear_arith)
        requires
            0 <= w,
            step > 0,
            q == (w as int) / step,
    ;
}

/// Two neighbouring windows share exactly `overlap` words where the first of
/// them is full, and fewer where the words end before it is.
pub proof fn lemma_neighbours_overlap(n: nat, size: nat, overlap: nat, i: nat)
    requires
        overlap < size,
        i + 1 < window_count(n, size, overlap),
    ensures
        window_start(i, size, overlap) + size <= n ==> window_end(i, n, size, overlap)
            - window_start(i + 1, size, overlap) == overlap,
        window_start(i, size, overlap) + size > n ==> 0 < window_end(i, n, size, overlap)
            - window_start(i + 1, size, overlap) < overlap,
{
    lemma_window_starts(n, size, overlap, i);
    lemma_window_starts(n, size, overlap, i + 1);
}

/// Where the overlap is below the size and the last window adds a word, the
/// number of windows is the covering count.
pub proof fn lemma_count_is_covering_count(n: nat, size: nat, overlap: nat)
    requires
        overlap < size,
        last_window_adds(n, size, overlap),
    ensures
        window_count(n, size, overlap) == covering_count(n, size, overlap),
{
    let step = (size - overlap) as int;
    if n > size {
        let q = (n - 1) / step;
        let r = (n - 1) % step;
        lemma_fundamental_div_mod(n - 1, step);
        lemma_mod_bound(n - 1, step);
        assert(step * q == q * step) by (nonlinear_arith);
        lemma_fundamental_div_mod_converse(n - 1 - overlap, step, q, r - overlap);
        assert((n - size) + step - 1 == n - 1 - overlap);
    } else {
        assert((step - 1) / step == 0) by (nonlinear_arith)
            requires
                step > 0,
        ;
        if n > 0 {
            assert((n - 1) / step == 0) by (nonlinear_arith)
                requires
                    0 <= n - 1 < step,
            ;
        }
    }
}

/// Where the overlap is below the size and the last window adds no word,
/// there are more windows than the covering count.
pub proof fn lemma_count_exceeds_covering_count(n: nat, size: nat, overlap: nat)
    requires
        overlap < size,
        !last_window_adds(n, size, overlap),
    ensures
        window_count(n, size, overlap) > covering_count(n, size, overlap),
{
    let step = (size - overlap) as int;
    let q = (n - 1) / step;
    lemma_fundamental_div_mod(n - 1, step);
    lemma_mod_bound(n - 1, step);
    assert(step * q == q * step) by (nonlinear_arith);
    if n > size {
        let x = n - 1 - overlap;
        assert((n - size) + step - 1 == x);
        assert(x < q * step);
        assert(x / step < q) by (nonlinear_arith)
            requires
                x < q * step,
                step > 0,
        ;
    } else {
        assert((step - 1) / step == 0) by (nonlinear_arith)
            requires
                step > 0,
        ;
        assert(q >= 1) by (nonlinear_arith)
            requires
                n - 1 >= step,
                step > 0,
                q == (n - 1) / step,
        ;
    }
}

/// For each character of `text`, whether it is white space.
pub fn whitespace_marks(text: &str) -> (marks: Vec<bool>)
    ensures
        marks@ == blanks(text@),
{
    let mut marks: Vec<bool> = Vec::new();
    for c in it: text.chars()
        invariant
            it.seq() == text@,
            marks@ == blanks(text@.take(it.index() as int)),
    {
        marks.push(c.is_whitespace());
        assert(marks@ =~= blanks(text@.take(it.index() + 1)));
    }
    assert(text@.take(text@.len() as int) =~= text@);
    marks
}

/// The words of `text`, where `marks` tells for each character whether it
/// separates words. A character without a mark separates none.
pub fn split_marked(text: &str, marks: &Vec<bool>) -> (found: Vec<String>)
    ensures
        views(found@) == words_marked(text@, marks@),
{
    let mut found: Vec<String> = Vec::new();
    let mut word = String::new();
    let mut in_word = false;
    let mut at: usize = 0;
    assert(views(found@) =~= Seq::empty());
    for c in it: text.chars()
        invariant
            it.seq() == text@,
            at <= marks.len(),
            at == it.index() || (at == marks.len() && at < it.index()),
            in_word == (it.index() >= 1 && !blank_at(marks@, it.index() - 1)),
            words_upto(text@, marks@, it.index() as nat) == if in_word {
                views(found@).push(word@)
            } else {
                views(found@)
            },
    {
        let ghost n = it.index();
        let ghost before = views(found@);
        let blank = at < marks.len() && marks[at];
        assert(blank == blank_at(marks@, n));
        assert(c == text@[n]);
        if at < marks.len() {
            at = at + 1;
        }
        if blank {
            if in_word {
                let ghost w = word@;
                found.push(word);
                word = String::new();
                assert(views(found@) =~= before.push(w));
            }
            in_word = false;
        } else if in_word {
            let ghost w = word@;
            word.push(c);
            assert(before.push(w).drop_last() =~= before);
        } else {
            word = String::new();
            word.push(c);
            assert(word@ =~= seq![c]);
            in_word = true;
        }
    }
    if in_word {
        let ghost before = views(found@);
        let ghost w = word@;
        found.push(word);
        assert(views(found@) =~= before.push(w));
    }
    found
}

/// The words of `text`: its maximal runs of characters that are not white
/// space.
pub fn split_whitespace(text: &str) -> (found: Vec<String>)
    ensures
        views(found@) == words(text@),
{
    let marks = whitespace_marks(text);
    split_marked(text, &marks)
}

/// The number of words by which a window advances.
pub fn stride_of(size: usize, overlap: usize) -> (step: usize)
    ensures
        step == stride(size as nat, overlap as nat),
        step >= 1,
{
    if size > overlap {
        size - overlap
    } else {
        1
    }
}

/// The chunks of a list of words: windows of `size` words, each starting
/// `size - overlap` words after the one before (one word after it where the
/// overlap is not below the size), until a start reaches the number of words;
/// the last windows end with the words. Each window's words are joined by
/// single spaces. No words give one empty chunk.
pub fn chunk_words(words: &Vec<String>, size: usize, overlap: usize) -> (chunks: Vec<String>)
    ensures
        views(chunks@) == chunks_of(views(words@), size as nat, overlap as nat),
        chunks.len() == window_count(words.len() as nat, size as nat, overlap as nat),
        chunks.len() >= 1,
{
    proof {
        lemma_window_count_positive(words.len() as nat, size as nat, overlap as nat);
    }
    let n = words.len();
    let step = stride_of(size, overlap);
    let ghost all = views(words@);
    let ghost goal = chunks_of(all, size as nat, overlap as nat);
    let mut chunks: Vec<String> = Vec::new();
    if n == 0 {
        chunks.push(String::new());
        proof {
            assert(window_start(0, size as nat, overlap as nat) == 0) by (nonlinear_arith);
            assert(window(all, 0, size as nat, overlap as nat) =~= Seq::empty());
            assert(goal.len() == 1);
            assert(goal[0] =~= Seq::<char>::empty());
            assert(views(chunks@) =~= goal);
        }
        assert(views(chunks@).len() == chunks.len());
        return chunks;
    }
    let mut start: usize = 0;
    let mut more = true;
    proof {
        assert(window_start(0, size as nat, overlap as nat) == 0) by (nonlinear_arith);
        assert(views(chunks@) =~= goal.take(0));
    }
    while more
        invariant
            n == words.len(),
            n > 0,
            all == views(words@),
            goal == chunks_of(all, size as nat, overlap as nat),
            step == stride(size as nat, overlap as nat),
            chunks.len() <= window_count(n as nat, size as nat, overlap as nat),
            more == (chunks.len() < window_count(n as nat, size as nat, overlap as nat)),
            more ==> start == window_start(chunks.len() as nat, size as nat, overlap as nat),
            views(chunks@) == goal.take(chunks.len() as int),
        decreases window_count(n as nat, size as nat, overlap as nat) - chunks.len(),
    {
        let ghost i = chunks.len() as nat;
        proof {
            lemma_window_starts(n as nat, size as nat, overlap as nat, i);
        }
        let end = if size <= n - start {
            start + size
        } else {
            n
        };
        assert(end == window_end(i, n as nat, size as nat, overlap as nat));
        let mut chunk = String::new();
        push_joined(&mut chunk, words, start, end, " ");
        proof {
            reveal_strlit(" ");
            assert(" "@ =~= seq![' ']);
            assert(chunk@ =~= join(window(all, i, size as nat, overlap as nat), seq![' ']));
            assert(chunk@ == goal[i as int]);
        }
        chunks.push(chunk);
        assert(views(chunks@) =~= goal.take(i as int + 1));
        if step >= n - start {
            more = false;
        } else {
            start = start + step;
        }
    }
    assert(goal.take(goal.len() as int) =~= goal);
    assert(views(chunks@).len() == chunks.len());
    chunks
}

/// The chunks of a text: its words, grouped by [`chunk_words`].
pub fn chunk_text(text: &str, size: usize, overlap: usize) -> (chunks: Vec<String>)
    ensures
        views(chunks@) == chunked(text@, size as nat, overlap as nat),
        chunks.len() == window_count(words(text@).len(), size as nat, overlap as nat),
        chunks.len() >= 1,
{
    let found = split_whitespace(text);
    assert(views(found@).len() == found.len());
    chunk_words(&found, size, overlap)
}

} // verus!
