use vstd::prelude::*;
use crate::lemmas::lemma_page_start;

verus! {

/// Number of words on a full page.
pub const WORDS_PER_PAGE: usize = 300;

/// The characters that separate words: those with the Unicode `White_Space` property.
pub open spec fn is_space(c: char) -> bool {
    let u = c as u32;
    (0x09 <= u && u <= 0x0d) || u == 0x20 || u == 0x85 || u == 0xa0 || u == 0x1680
        || (0x2000 <= u && u <= 0x200a) || u == 0x2028 || u == 0x2029 || u == 0x202f
        || u == 0x205f || u == 0x3000
}

/// The words of `s`: its maximal runs of non-space characters, in order.
pub open spec fn words(s: Seq<char>) -> Seq<Seq<char>>
    decreases s.len(),
{
    if s.len() == 0 {
        seq![]
    } else {
        let prev = words(s.drop_last());
        let c = s.last();
        if is_space(c) {
            prev
        } else if s.len() >= 2 && !is_space(s[s.len() - 2]) {
            prev.update(prev.len() - 1, prev.last().push(c))
        } else {
            prev.push(seq![c])
        }
    }
}

/// The words `ws` joined by single spaces.
pub open spec fn join_words(ws: Seq<Seq<char>>) -> Seq<char>
    decreases ws.len(),
{
    if ws.len() == 0 {
        seq![]
    } else if ws.len() == 1 {
        ws[0]
    } else {
        join_words(ws.drop_last()) + seq![' '] + ws.last()
    }
}

/// How many pages of `size` words hold `n` words.
pub open spec fn page_count(n: nat, size: nat) -> nat {
    if size == 0 {
        0
    } else {
        (n / size) + if n % size == 0 { 0nat } else { 1nat }
    }
}

/// The words that go on page `i`: the `i`-th group of `size`, or the remainder.
pub open spec fn page_words(ws: Seq<Seq<char>>, size: nat, i: int) -> Seq<Seq<char>> {
    let start = i * size;
    let end = if start + size <= ws.len() { start + size } else { ws.len() as int };
    ws.subrange(start, end)
}

/// The pages of text `s` with `size` words each, the last one holding the remainder.
pub open spec fn pages(s: Seq<char>, size: nat) -> Seq<Seq<char>> {
    let ws = words(s);
    Seq::new(page_count(ws.len(), size), |i: int| join_words(page_words(ws, size, i)))
}

/// A word as `words` yields it: not empty, and without space.
pub open spec fn is_word(w: Seq<char>) -> bool {
    w.len() > 0 && forall|k: int| 0 <= k < w.len() ==> !is_space(#[trigger] w[k])
}

/// Tells whether `c` separates words.
pub fn is_space_char(c: char) -> (r: bool)
    ensures
        r == is_space(c),
{
    let u = c as u32;
    (0x09 <= u && u <= 0x0d) || u == 0x20 || u == 0x85 || u == 0xa0 || u == 0x1680
        || (0x2000 <= u && u <= 0x200a) || u == 0x2028 || u == 0x2029 || u == 0x202f
        || u == 0x205f || u == 0x3000
}

/// Relies on `String::push`: appends one character.
pub assume_specification[ String::push ](s: &mut String, ch: char)
    ensures
        final(s)@ == old(s)@.push(ch),
;

/// Splits `text` into its words.
pub fn split_words(text: &str) -> (r: Vec<String>)
    ensures
        r@.map_values(|w: String| w@) == words(text@),
{
    let mut out: Vec<String> = Vec::new();
    let mut cur = String::new();
    let mut in_word: bool = false;
    let ghost s = text@;
    for c in it: text.chars()
        invariant
            it.seq() == s,
            in_word == (cur@.len() > 0),
            in_word <==> (it.index() > 0 && !is_space(s[it.index() - 1])),
            words(s.take(it.index() as int)) == if in_word {
                out@.map_values(|w: String| w@).push(cur@)
            } else {
                out@.map_values(|w: String| w@)
            },
    {
        let ghost i = it.index() as int;
        let ghost old_out = out@;
        let ghost old_cur = cur@;
        proof {
            assert(s.take(i + 1).drop_last() =~= s.take(i));
            assert(s.take(i + 1).last() == c);
        }
        if is_space_char(c) {
            if in_word {
                out.push(cur);
                cur = String::new();
                in_word = false;
                assert(out@.map_values(|w: String| w@) =~= old_out.map_values(|w: String| w@).push(
                    old_cur,
                ));
            }
        } else {
            let was_in_word = in_word;
            cur.push(c);
            in_word = true;
            if was_in_word {
                assert(s.take(i + 1)[i - 1] == s[i - 1]);
                assert(old_out.map_values(|w: String| w@).push(old_cur).update(
                    old_out.len() as int,
                    old_cur.push(c),
                ) =~= old_out.map_values(|w: String| w@).push(cur@));
            } else {
                assert(cur@ =~= seq![c]);
            }
        }
    }
    let ghost old_out = out@;
    if in_word {
        out.push(cur);
        assert(out@.map_values(|w: String| w@) =~= old_out.map_values(|w: String| w@).push(cur@));
    }
    proof {
        assert(s.take(s.len() as int) =~= s);
    }
    out
}

/// Splits `text` into pages of `size` words each, the last page holding the
/// remainder; each page is its words joined by single spaces.
pub fn paginate(text: &str, size: usize) -> (r: Vec<String>)
    requires
        size > 0,
    ensures
        r@.map_values(|p: String| p@) == pages(text@, size as nat),
{
    let ws = split_words(text);
    let ghost wv = ws@.map_values(|w: String| w@);
    let n = ws.len();
    let rest: usize = if n % size == 0 { 0 } else { 1 };
    assert(n % size != 0 ==> n / size < n) by (nonlinear_arith)
        requires
            size > 0,
    ;
    let count = n / size + rest;
    let mut out: Vec<String> = Vec::new();
    for j in 0..count
        invariant
            n == ws.len(),
            wv == words(text@),
            wv == ws@.map_values(|w: String| w@),
            size > 0,
            count == page_count(n as nat, size as nat),
            out.len() == j,
            forall|q: int|
                0 <= q < j ==> #[trigger] out@[q]@ == join_words(page_words(wv, size as nat, q)),
    {
        proof {
            lemma_page_start(n as nat, size as nat, j as nat);
        }
        let start = j * size;
        let end = if n - start > size { start + size } else { n };
        let mut page = ws[start].clone();
        proof {
            assert(wv.subrange(start as int, start + 1) =~= seq![wv[start as int]]);
        }
        for k in start + 1..end
            invariant
                n == ws.len(),
                wv == ws@.map_values(|w: String| w@),
                start < end <= n,
                page@ == join_words(wv.subrange(start as int, k as int)),
        {
            assert(wv.subrange(start as int, k + 1).drop_last() =~= wv.subrange(start as int, k as int));
            page.push(' ');
            page.append(ws[k].as_str());
        }
        assert(page_words(wv, size as nat, j as int) =~= wv.subrange(start as int, end as int));
        out.push(page);
    }
    assert(out@.map_values(|p: String| p@) =~= pages(text@, size as nat));
    out
}

/// Splits `text` into pages of the standard size.
pub fn split_into_pages(text: &str) -> (r: Vec<String>)
    ensures
        r@.map_values(|p: String| p@) == pages(text@, WORDS_PER_PAGE as nat),
{
    paginate(text, WORDS_PER_PAGE)
}

} // verus!
