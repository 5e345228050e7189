use vstd::prelude::*;
use crate::paginate::{is_space, is_word, join_words, page_count, page_words, pages, words};

verus! {

/// Text that ends in a non-space character has at least one word.
proof fn lemma_words_nonempty(s: Seq<char>)
    requires
        s.len() > 0,
        !is_space(s.last()),
    ensures
        words(s).len() > 0,
    decreases s.len(),
{
    if s.len() >= 2 && !is_space(s[s.len() - 2]) {
        assert(s.drop_last().last() == s[s.len() - 2]);
        lemma_words_nonempty(s.drop_last());
    }
}

/// Every word that `words` yields is non-empty and free of space.
proof fn lemma_words_are_words(s: Seq<char>)
    ensures
        forall|k: int| 0 <= k < words(s).len() ==> is_word(#[trigger] words(s)[k]),
    decreases s.len(),
{
    if s.len() > 0 {
        lemma_words_are_words(s.drop_last());
        let prev = words(s.drop_last());
        let c = s.last();
        if !is_space(c) && s.len() >= 2 && !is_space(s[s.len() - 2]) {
            assert(s.drop_last().last() == s[s.len() - 2]);
            lemma_words_nonempty(s.drop_last());
            let w = prev.last().push(c);
            assert(is_word(prev[prev.len() - 1]));
            assert forall|k: int| 0 <= k < w.len() implies !is_space(#[trigger] w[k]) by {
                if k < w.len() - 1 {
                    assert(w[k] == prev.last()[k]);
                }
            }
        } else if !is_space(c) {
            assert(is_word(seq![c]));
        }
    }
}

/// Text made of one word has that word alone.
proof fn lemma_words_of_word(w: Seq<char>)
    requires
        is_word(w),
    ensures
        words(w) == seq![w],
    decreases w.len(),
{
    assert(!is_space(w[w.len() - 1]));
    if w.len() == 1 {
        assert(w.drop_last() =~= Seq::<char>::empty());
        assert(words(w.drop_last()) =~= Seq::<Seq<char>>::empty());
        assert(seq![w.last()] =~= w);
        assert(Seq::<Seq<char>>::empty().push(seq![w.last()]) =~= seq![w]);
    } else {
        let d = w.drop_last();
        assert(is_word(d)) by {
            assert forall|k: int| 0 <= k < d.len() implies !is_space(#[trigger] d[k]) by {
                assert(d[k] == w[k]);
            }
        }
        lemma_words_of_word(d);
        assert(!is_space(w[w.len() - 2]));
        assert(d.push(w.last()) =~= w);
        assert(seq![d].update(0, d.push(w.last())) =~= seq![w]);
    }
}

/// A single space between two texts separates their words.
proof fn lemma_words_split(a: Seq<char>, b: Seq<char>)
    ensures
        words(a + seq![' '] + b) == words(a) + words(b),
    decreases b.len(),
{
    let t = a + seq![' '] + b;
    if b.len() == 0 {
        assert(t.drop_last() =~= a);
        assert(words(a) + words(b) =~= words(a));
    } else {
        let b1 = b.drop_last();
        let c = b.last();
        assert(t.drop_last() =~= a + seq![' '] + b1);
        lemma_words_split(a, b1);
        let wa = words(a);
        let wb1 = words(b1);
        if is_space(c) {
        } else if b.len() >= 2 && !is_space(b[b.len() - 2]) {
            assert(t[t.len() - 2] == b[b.len() - 2]);
            assert(b1.last() == b[b.len() - 2]);
            lemma_words_nonempty(b1);
            assert((wa + wb1).update(wa.len() + wb1.len() - 1, wb1.last().push(c)) =~= wa
                + wb1.update(wb1.len() - 1, wb1.last().push(c)));
        } else {
            if b.len() >= 2 {
                assert(t[t.len() - 2] == b[b.len() - 2]);
            } else {
                assert(t[t.len() - 2] == ' ');
            }
            assert((wa + wb1).push(seq![c]) =~= wa + wb1.push(seq![c]));
        }
    }
}

/// Joining words by single spaces and splitting the result gives the words back.
proof fn lemma_words_of_join(ws: Seq<Seq<char>>)
    requires
        forall|k: int| 0 <= k < ws.len() ==> is_word(#[trigger] ws[k]),
    ensures
        words(join_words(ws)) == ws,
    decreases ws.len(),
{
    if ws.len() == 0 {
        assert(words(Seq::<char>::empty()) =~= ws);
    } else if ws.len() == 1 {
        lemma_words_of_word(ws[0]);
        assert(seq![ws[0]] =~= ws);
    } else {
        let d = ws.drop_last();
        lemma_words_of_join(d);
        lemma_words_split(join_words(d), ws.last());
        lemma_words_of_word(ws.last());
        assert(d + seq![ws.last()] =~= ws);
    }
}

/// Joining two non-empty lists of words is joining their joins by a space.
proof fn lemma_join_concat(a: Seq<Seq<char>>, b: Seq<Seq<char>>)
    requires
        a.len() > 0,
        b.len() > 0,
    ensures
        join_words(a + b) == join_words(a) + seq![' '] + join_words(b),
    decreases b.len(),
{
    assert((a + b).drop_last() =~= a + b.drop_last());
    assert((a + b).last() == b.last());
    if b.len() == 1 {
        assert(a + b.drop_last() =~= a);
    } else {
        lemma_join_concat(a, b.drop_last());
        assert(join_words(a) + seq![' '] + join_words(b.drop_last()) + seq![' '] + b.last()
            =~= join_words(a) + seq![' '] + (join_words(b.drop_last()) + seq![' '] + b.last()));
    }
}

proof fn lemma_page_count_covers(n: nat, size: nat)
    requires
        size > 0,
    ensures
        page_count(n, size) * size >= n,
        page_count(n, size) == 0 <==> n == 0,
{
    let q = n / size;
    let r = n % size;
    assert(n == q * size + r && r < size) by (nonlinear_arith)
        requires
            size > 0,
            q == n / size,
            r == n % size,
    ;
    if r != 0 {
        assert((q + 1) * size == q * size + size) by (nonlinear_arith);
    }
    if q > 0 {
        assert(q * size >= size) by (nonlinear_arith)
            requires
                q > 0,
        ;
    }
}

/// The first word of each page lies inside the text.
pub(crate) proof fn lemma_page_start(n: nat, size: nat, j: nat)
    requires
        size > 0,
        j < page_count(n, size),
    ensures
        j * size < n,
{
    let q = n / size;
    let r = n % size;
    assert(n == q * size + r) by (nonlinear_arith)
        requires
            size > 0,
            q == n / size,
            r == n % size,
    ;
    if r == 0 {
        assert(j * size < q * size) by (nonlinear_arith)
            requires
                j < q,
                size > 0,
        ;
    } else {
        assert(j * size <= q * size) by (nonlinear_arith)
            requires
                j <= q,
                size > 0,
        ;
    }
}

/// The first `m` pages, joined, are the words up to the end of page `m - 1`, joined.
proof fn lemma_join_page_prefix(ws: Seq<Seq<char>>, size: nat, ps: Seq<Seq<char>>, m: nat)
    requires
        size > 0,
        ps == Seq::new(page_count(ws.len(), size), |i: int| join_words(page_words(ws, size, i))),
        1 <= m <= ps.len(),
    ensures
        join_words(ps.take(m as int)) == join_words(
            ws.take(if m * size <= ws.len() { (m * size) as int } else { ws.len() as int }),
        ),
    decreases m,
{
    let n = ws.len();
    if m == 1 {
        assert(ps.take(1) =~= seq![ps[0]]);
        assert(0 * size == 0 && 1 * size == size) by (nonlinear_arith);
        assert(page_words(ws, size, 0) =~= ws.take(if size <= n { size as int } else { n as int }));
    } else {
        let k = (m - 1) as nat;
        lemma_join_page_prefix(ws, size, ps, k);
        lemma_page_start(n, size, k);
        assert(k * size >= 1) by (nonlinear_arith)
            requires
                k >= 1,
                size >= 1,
        ;
        assert(m * size == k * size + size) by (nonlinear_arith)
            requires
                m == k + 1,
        ;
        let end = if m * size <= n { (m * size) as int } else { n as int };
        let x = ws.take((k * size) as int);
        let y = page_words(ws, size, k as int);
        assert(y =~= ws.subrange((k * size) as int, end));
        lemma_join_concat(x, y);
        assert(x + y =~= ws.take(end));
        assert(ps.take(m as int).drop_last() =~= ps.take(k as int));
    }
}

/// Joining all pages by single spaces gives back the words of the text, in order.
pub proof fn lemma_pages_keep_words(s: Seq<char>, size: nat)
    requires
        size > 0,
    ensures
        words(join_words(pages(s, size))) == words(s),
{
    let ws = words(s);
    let ps = pages(s, size);
    lemma_page_count_covers(ws.len(), size);
    lemma_words_are_words(s);
    if ws.len() > 0 {
        lemma_join_page_prefix(ws, size, ps, ps.len());
        assert(ps.take(ps.len() as int) =~= ps);
        assert(ws.take(ws.len() as int) =~= ws);
        lemma_words_of_join(ws);
    } else {
        assert(words(Seq::<char>::empty()) =~= ws);
    }
}

/// Every page but the last holds exactly `size` words; the last holds from one to `size`.
pub proof fn lemma_page_sizes(s: Seq<char>, size: nat)
    requires
        size > 0,
    ensures
        forall|i: int|
            0 <= i < pages(s, size).len() - 1 ==> #[trigger] words(pages(s, size)[i]).len() == size,
        pages(s, size).len() > 0 ==> 1 <= words(pages(s, size).last()).len() <= size,
{
    let ws = words(s);
    let ps = pages(s, size);
    lemma_words_are_words(s);
    assert forall|i: int| 0 <= i < ps.len() implies #[trigger] words(ps[i]) == page_words(
        ws,
        size,
        i,
    ) by {
        let pw = page_words(ws, size, i);
        lemma_page_start(ws.len(), size, i as nat);
        assert forall|k: int| 0 <= k < pw.len() implies is_word(#[trigger] pw[k]) by {
            assert(pw[k] == ws[i * size + k]);
        }
        lemma_words_of_join(pw);
    }
    assert forall|i: int| 0 <= i < ps.len() - 1 implies #[trigger] words(ps[i]).len()
        == size by {
        lemma_page_start(ws.len(), size, (i + 1) as nat);
        assert((i + 1) * size == i * size + size) by (nonlinear_arith);
    }
    if ps.len() > 0 {
        let l = ps.len() - 1;
        assert(words(ps[l]) == page_words(ws, size, l));
        lemma_page_start(ws.len(), size, l as nat);
    }
}

/// Text without a word, empty or all space, has no pages, and text with a word has some.
pub proof fn lemma_blank_text_has_no_pages(s: Seq<char>, size: nat)
    requires
        size > 0,
    ensures
        (forall|k: int| 0 <= k < s.len() ==> is_space(#[trigger] s[k])) ==> pages(s, size).len()
            == 0,
        pages(s, size).len() == 0 <==> words(s).len() == 0,
{
    lemma_page_count_covers(words(s).len(), size);
    if forall|k: int| 0 <= k < s.len() ==> is_space(#[trigger] s[k]) {
        lemma_blank_has_no_words(s);
    }
}

proof fn lemma_blank_has_no_words(s: Seq<char>)
    requires
        forall|k: int| 0 <= k < s.len() ==> is_space(#[trigger] s[k]),
    ensures
        words(s).len() == 0,
    decreases s.len(),
{
    if s.len() > 0 {
        let d = s.drop_last();
        assert forall|k: int| 0 <= k < d.len() implies is_space(#[trigger] d[k]) by {
            assert(d[k] == s[k]);
        }
        lemma_blank_has_no_words(d);
        assert(is_space(s[s.len() - 1]));
    }
}

} // verus!
