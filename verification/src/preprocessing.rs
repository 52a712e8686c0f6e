//! Normalisation of text before it is compared: lower case, one space
//! between words, nothing around them.

use vstd::prelude::*;
use crate::text::{
    chars_of, char_is_whitespace, lemma_join_shape, is_white_space, join_with_spaces, lemma_join_edges,
    lemma_join_extend_last, lemma_join_push, lemma_words_are_words, lowercase, push_char,
    trim_end_white_space, trim_start_white_space, trim_white_space, trimmed, to_lowercase, words,
};

verus! {

/// The normal form of `s`: its words joined by single spaces.
pub open spec fn normalized(s: Seq<char>) -> Seq<char> {
    join_with_spaces(words(s))
}

/// What `preprocess` returns for `input`.
pub open spec fn preprocessed(input: Seq<char>) -> Seq<char> {
    normalized(lowercase(input))
}

/// The text built while scanning `p` from the left: every run of whitespace
/// in `p` becomes one space, every other character is kept.
spec fn collapsed(p: Seq<char>) -> Seq<char> {
    let lead = if p.len() > 0 && is_white_space(p[0]) {
        seq![' ']
    } else {
        Seq::empty()
    };
    let trail = if p.len() > 0 && is_white_space(p.last()) && words(p).len() > 0 {
        seq![' ']
    } else {
        Seq::empty()
    };
    lead + join_with_spaces(words(p)) + trail
}

proof fn lemma_collapsed_step(p: Seq<char>, c: char)
    ensures
        collapsed(p.push(c)) == (if is_white_space(c) {
            if p.len() > 0 && is_white_space(p.last()) {
                collapsed(p)
            } else {
                collapsed(p).push(' ')
            }
        } else {
            collapsed(p).push(c)
        }),
{
    let q = p.push(c);
    assert(q.drop_last() =~= p);
    assert(q.last() == c);
    let ws = words(p);
    lemma_words_are_words(p);
    if p.len() > 0 {
        assert(q[0] == p[0]);
    }
    let lead: Seq<char> = if p.len() > 0 && is_white_space(p[0]) {
        seq![' ']
    } else {
        Seq::empty()
    };
    if is_white_space(c) {
        assert(words(q) == ws);
        if p.len() > 0 && is_white_space(p.last()) {
        } else if p.len() == 0 {
            assert(collapsed(q) =~= seq![' ']);
            assert(collapsed(p) =~= Seq::<char>::empty());
        } else {
            assert(ws.len() > 0);
            assert(collapsed(q) =~= lead + join_with_spaces(ws) + seq![' ']);
            assert(collapsed(p) =~= lead + join_with_spaces(ws));
        }
    } else if p.len() > 0 && !is_white_space(p.last()) {
        assert(ws.len() > 0);
        assert(words(q) == ws.drop_last().push(ws.last().push(c)));
        lemma_join_extend_last(ws, c);
        assert(collapsed(p) =~= lead + join_with_spaces(ws));
        assert(collapsed(q) =~= lead + join_with_spaces(ws).push(c));
    } else {
        assert(words(q) == ws.push(seq![c]));
        lemma_join_push(ws, seq![c]);
        if ws.len() > 0 {
            assert(collapsed(p) =~= lead + join_with_spaces(ws) + seq![' ']);
            assert(collapsed(q) =~= lead + (join_with_spaces(ws) + seq![' '] + seq![c]));
        } else {
            assert(collapsed(p) =~= lead);
            assert(collapsed(q) =~= lead + seq![c]);
        }
    }
}

proof fn lemma_trim_framed(j: Seq<char>, lead: Seq<char>, trail: Seq<char>)
    requires
        lead == Seq::<char>::empty() || lead == seq![' '],
        trail == Seq::<char>::empty() || trail == seq![' '],
        j.len() == 0 ==> trail.len() == 0,
        j.len() > 0 ==> !is_white_space(j[0]) && !is_white_space(j.last()),
    ensures
        trimmed(lead + j + trail) == j,
{
    let s = lead + j + trail;
    let after_start = j + trail;
    if lead.len() > 0 {
        assert(s.drop_first() =~= after_start);
        assert(is_white_space(s[0]));
    } else {
        assert(s =~= after_start);
    }
    if j.len() == 0 {
        assert(after_start =~= Seq::<char>::empty());
        assert(trim_start_white_space(after_start) == after_start);
        assert(trim_start_white_space(s) == after_start);
    } else {
        assert(after_start[0] == j[0]);
        assert(trim_start_white_space(after_start) == after_start);
        assert(trim_start_white_space(s) == after_start);
        if trail.len() > 0 {
            assert(after_start.drop_last() =~= j);
            assert(is_white_space(after_start.last()));
        } else {
            assert(after_start =~= j);
        }
        assert(trim_end_white_space(j) == j);
    }
}

/// The characters of `s` that are not whitespace, in order.
pub open spec fn visible_chars(s: Seq<char>) -> Seq<char> {
    s.filter(|c: char| !is_white_space(c))
}

/// The normal form has no whitespace at either end, and every whitespace
/// character in it is a single space between two characters that are not
/// whitespace.
pub proof fn lemma_normalized_shape(s: Seq<char>)
    ensures
        normalized(s).len() > 0 ==> !is_white_space(normalized(s)[0]) && !is_white_space(
            normalized(s).last(),
        ),
        forall|i: int|
            0 <= i < normalized(s).len() && is_white_space(#[trigger] normalized(s)[i]) ==> {
                &&& normalized(s)[i] == ' '
                &&& 0 < i < normalized(s).len() - 1
                &&& !is_white_space(normalized(s)[i - 1])
                &&& !is_white_space(normalized(s)[i + 1])
            },
        trimmed(normalized(s)) == normalized(s),
{
    lemma_words_are_words(s);
    lemma_join_shape(words(s));
    let n = normalized(s);
    if words(s).len() > 0 {
        lemma_join_edges(words(s));
    } else {
        assert(n.len() == 0);
    }
    lemma_trim_framed(n, Seq::empty(), Seq::empty());
    assert(Seq::<char>::empty() + n + Seq::<char>::empty() =~= n);
}

/// Normalising twice gives what normalising once gave.
pub proof fn lemma_normalized_idempotent(s: Seq<char>)
    ensures
        normalized(normalized(s)) == normalized(s),
{
    lemma_words_are_words(s);
    lemma_join_shape(words(s));
}

/// The normal form keeps every character that is not whitespace, in order,
/// and adds none.
pub proof fn lemma_normalized_keeps_visible_chars(s: Seq<char>)
    ensures
        visible_chars(normalized(s)) == visible_chars(s),
    decreases s.len(),
{
    reveal(Seq::filter);
    let pred = |c: char| !is_white_space(c);
    if s.len() > 0 {
        let p = s.drop_last();
        let c = s.last();
        lemma_normalized_keeps_visible_chars(p);
        lemma_words_are_words(p);
        let ws = words(p);
        let jp = join_with_spaces(ws);
        assert(s.filter(pred) == (if pred(c) { p.filter(pred).push(c) } else { p.filter(pred) }));
        if is_white_space(c) {
        } else if p.len() > 0 && !is_white_space(p.last()) {
            lemma_join_extend_last(ws, c);
            assert(jp.push(c).drop_last() =~= jp);
            assert(jp.push(c).filter(pred) == jp.filter(pred).push(c));
        } else {
            lemma_join_push(ws, seq![c]);
            assert(seq![c].drop_last() =~= Seq::<char>::empty());
            assert(seq![c].filter(pred) == Seq::<char>::empty().filter(pred).push(c));
            assert(Seq::<char>::empty().filter(pred) == Seq::<char>::empty());
            if ws.len() > 0 {
                assert(seq![' '].drop_last() =~= Seq::<char>::empty());
                assert(seq![' '].filter(pred) == Seq::<char>::empty().filter(pred));
                Seq::filter_distributes_over_add(jp + seq![' '], seq![c], pred);
                Seq::filter_distributes_over_add(jp, seq![' '], pred);
                assert(p.filter(pred) + Seq::<char>::empty() + seq![c] =~= p.filter(pred).push(c));
            } else {
                assert(jp =~= Seq::<char>::empty());
                assert(p.filter(pred) =~= Seq::<char>::empty());
                assert(p.filter(pred).push(c) =~= seq![c]);
            }
        }
    } else {
        assert(words(s) =~= Seq::<Seq<char>>::empty());
    }
}

proof fn lemma_words_across_space(t: Seq<char>, b: Seq<char>)
    ensures
        words(t.push(' ') + b) == words(t) + words(b),
    decreases b.len(),
{
    let tp = t.push(' ');
    assert(is_white_space(' '));
    if b.len() == 0 {
        assert(tp + b =~= tp);
        assert(tp.drop_last() =~= t);
        assert(words(b) =~= Seq::<Seq<char>>::empty());
        assert(words(t) + words(b) =~= words(t));
    } else {
        let front = b.drop_last();
        let c = b.last();
        lemma_words_across_space(t, front);
        let s = tp + b;
        assert(s.drop_last() =~= tp + front);
        assert(s.last() == c);
        let w = words(tp + front);
        if is_white_space(c) {
        } else if front.len() > 0 && !is_white_space(front.last()) {
            assert((tp + front).last() == front.last());
            lemma_words_are_words(front);
            let wf = words(front);
            assert(wf.len() > 0);
            assert(w.drop_last() =~= words(t) + wf.drop_last());
            assert(w.last() == wf.last());
            assert(words(t) + wf.drop_last().push(wf.last().push(c)) =~= (words(t) + wf.drop_last()).push(
                wf.last().push(c),
            ));
        } else {
            if front.len() > 0 {
                assert((tp + front).last() == front.last());
            } else {
                assert(tp + front =~= tp);
            }
            assert(words(t) + words(front).push(seq![c]) =~= (words(t) + words(front)).push(seq![c]));
        }
    }
}

proof fn lemma_join_concat(x: Seq<Seq<char>>, y: Seq<Seq<char>>)
    requires
        x.len() > 0,
        y.len() > 0,
    ensures
        join_with_spaces(x + y) == join_with_spaces(x) + seq![' '] + join_with_spaces(y),
    decreases y.len(),
{
    if y.len() == 1 {
        assert(x + y =~= x.push(y[0]));
        lemma_join_push(x, y[0]);
    } else {
        let front = y.drop_last();
        lemma_join_concat(x, front);
        assert(x + y =~= (x + front).push(y.last()));
        lemma_join_push(x + front, y.last());
        lemma_join_push(front, y.last());
        assert(front.push(y.last()) =~= y);
        assert(join_with_spaces(x) + seq![' '] + join_with_spaces(front) + seq![' '] + y.last()
            =~= join_with_spaces(x) + seq![' '] + (join_with_spaces(front) + seq![' '] + y.last()));
    }
}

/// Normalising two texts joined by a space gives their normal forms joined by
/// a space, when each has at least one word.
pub proof fn lemma_normalized_join(a: Seq<char>, b: Seq<char>)
    requires
        words(a).len() > 0,
        words(b).len() > 0,
    ensures
        normalized(a + seq![' '] + b) == normalized(a) + seq![' '] + normalized(b),
{
    assert(a + seq![' '] + b =~= a.push(' ') + b);
    lemma_words_across_space(a, b);
    lemma_join_concat(words(a), words(b));
}

/// Preprocessing two texts joined by a space gives their preprocessed forms
/// joined by a space, when neither preprocesses to nothing and lower-casing
/// treats the space as a boundary.
pub proof fn lemma_preprocess_join(a: Seq<char>, b: Seq<char>)
    requires
        preprocessed(a).len() > 0,
        preprocessed(b).len() > 0,
        lowercase(a + seq![' '] + b) == lowercase(a) + seq![' '] + lowercase(b),
    ensures
        preprocessed(a + seq![' '] + b) == preprocessed(a) + seq![' '] + preprocessed(b),
{
    let la = lowercase(a);
    let lb = lowercase(b);
    if words(la).len() == 0 {
        assert(preprocessed(a).len() == 0);
    }
    if words(lb).len() == 0 {
        assert(preprocessed(b).len() == 0);
    }
    lemma_normalized_join(la, lb);
}

/// Preprocessing text that is already preprocessed changes nothing, as long
/// as lower-casing leaves that text as it is.
pub proof fn lemma_preprocess_idempotent(s: Seq<char>)
    requires
        lowercase(preprocessed(s)) == preprocessed(s),
    ensures
        preprocessed(preprocessed(s)) == preprocessed(s),
{
    lemma_normalized_idempotent(lowercase(s));
}

/// Normalises `input` for comparison: lower-cases it, turns every run of
/// whitespace into a single space and drops whitespace at both ends.
pub fn preprocess(input: &str) -> (result: String)
    ensures
        result@ == preprocessed(input@),
{
    let lower = to_lowercase(input);
    let chars = chars_of(lower.as_str());
    let mut collapsed_text = String::new();
    let mut prev_is_space = false;
    let mut i: usize = 0;
    while i < chars.len()
        invariant
            i <= chars.len(),
            chars@ == lowercase(input@),
            collapsed_text@ == collapsed(chars@.take(i as int)),
            prev_is_space == (i > 0 && is_white_space(chars@[i - 1])),
        decreases chars.len() - i,
    {
        let ch = chars[i];
        proof {
            let p = chars@.take(i as int);
            assert(chars@.take(i + 1) =~= p.push(ch));
            if i > 0 {
                assert(p.last() == chars@[i - 1]);
            }
            lemma_collapsed_step(p, ch);
        }
        if char_is_whitespace(ch) {
            if !prev_is_space {
                push_char(&mut collapsed_text, ' ');
                prev_is_space = true;
            }
        } else {
            push_char(&mut collapsed_text, ch);
            prev_is_space = false;
        }
        i = i + 1;
    }
    proof {
        let s = chars@;
        assert(s.take(s.len() as int) =~= s);
        let ws = words(s);
        lemma_words_are_words(s);
        if ws.len() > 0 {
            lemma_join_edges(ws);
        }
        let lead: Seq<char> = if s.len() > 0 && is_white_space(s[0]) {
            seq![' ']
        } else {
            Seq::empty()
        };
        let trail: Seq<char> = if s.len() > 0 && is_white_space(s.last()) && ws.len() > 0 {
            seq![' ']
        } else {
            Seq::empty()
        };
        lemma_trim_framed(join_with_spaces(ws), lead, trail);
    }
    let trimmed_text = trim_white_space(collapsed_text.as_str());
    trimmed_text.to_string()
}

} // verus!
