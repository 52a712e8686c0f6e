//! Characters, words and the few standard-library string operations the
//! library relies on, each with the contract that the rest of the crate uses.

use vstd::prelude::*;
use vstd::string::StringExecFns;

verus! {

/// The Unicode `White_Space` property (PropList.txt): the characters
/// U+0009..U+000D, U+0020, U+0085, U+00A0, U+1680, U+2000..U+200A,
/// U+2028, U+2029, U+202F, U+205F and U+3000.
pub open spec fn is_white_space(c: char) -> bool {
    let u = c as u32;
    ||| 0x09 <= u <= 0x0D
    ||| u == 0x20
    ||| u == 0x85
    ||| u == 0xA0
    ||| u == 0x1680
    ||| 0x2000 <= u <= 0x200A
    ||| u == 0x2028
    ||| u == 0x2029
    ||| u == 0x202F
    ||| u == 0x205F
    ||| u == 0x3000
}

/// `char::is_whitespace`, which the standard library documents as the
/// Unicode `White_Space` property; the contract spells that property out.
#[verifier::external_body]
pub(crate) fn char_is_whitespace(c: char) -> (r: bool)
    ensures
        r == is_white_space(c),
{
    c.is_whitespace()
}

/// The characters of `s`, in order.
pub fn chars_of(s: &str) -> (v: Vec<char>)
    ensures
        v@ == s@,
{
    let mut v: Vec<char> = Vec::new();
    for c in it: s.chars()
        invariant
            v@ == it.seq().take(it.index() as int),
    {
        v.push(c);
    }
    v
}


/// A word: a non-empty run of characters none of which is whitespace.
pub open spec fn is_word(w: Seq<char>) -> bool {
    &&& w.len() > 0
    &&& forall|j: int| 0 <= j < w.len() ==> !is_white_space(#[trigger] w[j])
}

/// Every element of `ws` is a word.
pub open spec fn all_words(ws: Seq<Seq<char>>) -> bool {
    forall|i: int| 0 <= i < ws.len() ==> is_word(#[trigger] ws[i])
}

/// The words of `s`: its maximal runs of non-whitespace characters, in
/// order. A character that is not whitespace either extends the word that the
/// character before it belongs to or starts a new word.
pub open spec fn words(s: Seq<char>) -> Seq<Seq<char>>
    decreases s.len(),
{
    if s.len() == 0 {
        Seq::empty()
    } else {
        let prefix = s.drop_last();
        let c = s.last();
        let ws = words(prefix);
        if is_white_space(c) {
            ws
        } else if prefix.len() > 0 && !is_white_space(prefix.last()) {
            ws.drop_last().push(ws.last().push(c))
        } else {
            ws.push(seq![c])
        }
    }
}

/// The elements of `ws` written one after another, a single space between
/// neighbours.
pub open spec fn join_with_spaces(ws: Seq<Seq<char>>) -> Seq<char>
    decreases ws.len(),
{
    if ws.len() == 0 {
        Seq::empty()
    } else if ws.len() == 1 {
        ws[0]
    } else {
        join_with_spaces(ws.drop_last()) + seq![' '] + ws.last()
    }
}

/// `s` without its leading whitespace.
pub open spec fn trim_start_white_space(s: Seq<char>) -> Seq<char>
    decreases s.len(),
{
    if s.len() > 0 && is_white_space(s[0]) {
        trim_start_white_space(s.drop_first())
    } else {
        s
    }
}

/// `s` without its trailing whitespace.
pub open spec fn trim_end_white_space(s: Seq<char>) -> Seq<char>
    decreases s.len(),
{
    if s.len() > 0 && is_white_space(s.last()) {
        trim_end_white_space(s.drop_last())
    } else {
        s
    }
}

/// `s` without its leading and trailing whitespace.
pub open spec fn trimmed(s: Seq<char>) -> Seq<char> {
    trim_end_white_space(trim_start_white_space(s))
}

/// Adding one more element to a joined sequence adds a space and the element.
pub proof fn lemma_join_push(ws: Seq<Seq<char>>, x: Seq<char>)
    ensures
        join_with_spaces(ws.push(x)) == (if ws.len() == 0 {
            x
        } else {
            join_with_spaces(ws) + seq![' '] + x
        }),
{
    assert(ws.push(x).drop_last() =~= ws);
    if ws.len() == 0 {
        assert(ws.push(x)[0] == x);
    }
}

/// Growing the last element of a non-empty sequence grows its join by the same character.
pub proof fn lemma_join_extend_last(ws: Seq<Seq<char>>, c: char)
    requires
        ws.len() > 0,
    ensures
        join_with_spaces(ws.drop_last().push(ws.last().push(c))) == join_with_spaces(ws).push(c),
{
    let front = ws.drop_last();
    lemma_join_push(front, ws.last().push(c));
    if front.len() > 0 {
        assert(join_with_spaces(front) + seq![' '] + ws.last().push(c) =~= (join_with_spaces(front)
            + seq![' '] + ws.last()).push(c));
    }
}

/// The words of a string are words, and a string that ends in a character
/// other than whitespace has at least one.
pub proof fn lemma_words_are_words(s: Seq<char>)
    ensures
        all_words(words(s)),
        s.len() > 0 && !is_white_space(s.last()) ==> words(s).len() > 0,
    decreases s.len(),
{
    if s.len() > 0 {
        let prefix = s.drop_last();
        lemma_words_are_words(prefix);
        let ws = words(prefix);
        let c = s.last();
        if !is_white_space(c) {
            if prefix.len() > 0 && !is_white_space(prefix.last()) {
                let grown = ws.last().push(c);
                assert(is_word(ws[ws.len() - 1]));
                assert(is_word(grown));
                let r = ws.drop_last().push(grown);
                assert forall|i: int| 0 <= i < r.len() implies is_word(#[trigger] r[i]) by {
                    if i < r.len() - 1 {
                        assert(r[i] == ws[i]);
                    }
                }
            } else {
                let r = ws.push(seq![c]);
                assert(is_word(seq![c]));
                assert forall|i: int| 0 <= i < r.len() implies is_word(#[trigger] r[i]) by {
                    if i < r.len() - 1 {
                        assert(r[i] == ws[i]);
                    }
                }
            }
        }
    }
}

/// Joining words gives a sequence that neither starts nor ends with whitespace.
pub proof fn lemma_join_edges(ws: Seq<Seq<char>>)
    requires
        all_words(ws),
        ws.len() > 0,
    ensures
        join_with_spaces(ws).len() > 0,
        join_with_spaces(ws)[0] == ws[0][0],
        join_with_spaces(ws).last() == ws.last().last(),
        !is_white_space(join_with_spaces(ws)[0]),
        !is_white_space(join_with_spaces(ws).last()),
    decreases ws.len(),
{
    assert(is_word(ws[0]));
    assert(is_word(ws[ws.len() - 1]));
    if ws.len() > 1 {
        let front = ws.drop_last();
        assert forall|i: int| 0 <= i < front.len() implies is_word(#[trigger] front[i]) by {
            assert(front[i] == ws[i]);
        }
        lemma_join_edges(front);
        assert(front[0] == ws[0]);
    }
}

proof fn lemma_words_append_word(t: Seq<char>, w: Seq<char>)
    requires
        is_word(w),
        t.len() == 0 || is_white_space(t.last()),
    ensures
        words(t + w) == words(t).push(w),
    decreases w.len(),
{
    let front = w.drop_last();
    let c = w.last();
    assert((t + w).drop_last() =~= t + front);
    assert((t + w).last() == c);
    assert(!is_white_space(c));
    if front.len() == 0 {
        assert(t + front =~= t);
        assert(w =~= seq![c]);
    } else {
        assert(is_word(front)) by {
            assert forall|j: int| 0 <= j < front.len() implies !is_white_space(#[trigger] front[j]) by {
                assert(front[j] == w[j]);
            }
        }
        lemma_words_append_word(t, front);
        assert((t + front).last() == front.last());
        assert(front.last() == w[w.len() - 2]);
        assert(words(t).push(front).drop_last() =~= words(t));
        assert(front.push(c) =~= w);
    }
}

/// Splitting words that were joined with single spaces gives back the
/// words; the only whitespace in such a join is a single space between two
/// characters that are not whitespace.
pub proof fn lemma_join_shape(ws: Seq<Seq<char>>)
    requires
        all_words(ws),
    ensures
        words(join_with_spaces(ws)) == ws,
        forall|i: int|
            0 <= i < join_with_spaces(ws).len() && is_white_space(#[trigger] join_with_spaces(ws)[i])
                ==> {
                &&& join_with_spaces(ws)[i] == ' '
                &&& 0 < i < join_with_spaces(ws).len() - 1
                &&& !is_white_space(join_with_spaces(ws)[i - 1])
                &&& !is_white_space(join_with_spaces(ws)[i + 1])
            },
    decreases ws.len(),
{
    if ws.len() == 0 {
        assert(words(Seq::<char>::empty()) =~= Seq::<Seq<char>>::empty());
    } else {
        let front = ws.drop_last();
        let w = ws.last();
        assert(is_word(ws[ws.len() - 1]));
        assert(all_words(front)) by {
            assert forall|i: int| 0 <= i < front.len() implies is_word(#[trigger] front[i]) by {
                assert(front[i] == ws[i]);
            }
        }
        lemma_join_shape(front);
        let jf = join_with_spaces(front);
        let j = join_with_spaces(ws);
        if front.len() == 0 {
            assert(j == w);
            lemma_words_append_word(Seq::<char>::empty(), w);
            assert(Seq::<char>::empty() + w =~= w);
            assert(front.push(w) =~= ws);
        } else {
            lemma_join_edges(front);
            let t = jf.push(' ');
            assert(t.drop_last() =~= jf);
            assert(words(t) == words(jf));
            lemma_words_append_word(t, w);
            assert(j =~= t + w);
            assert(front.push(w) =~= ws);
            assert forall|i: int| 0 <= i < j.len() && is_white_space(#[trigger] j[i]) implies {
                &&& j[i] == ' '
                &&& 0 < i < j.len() - 1
                &&& !is_white_space(j[i - 1])
                &&& !is_white_space(j[i + 1])
            } by {
                if i < jf.len() {
                    assert(j[i] == jf[i]);
                    if i + 1 < jf.len() {
                        assert(j[i + 1] == jf[i + 1]);
                    }
                    assert(j[i - 1] == jf[i - 1]);
                } else if i == jf.len() {
                    assert(j[i - 1] == jf.last());
                    assert(j[i + 1] == w[0]);
                } else {
                    assert(j[i] == w[i - jf.len() - 1]);
                }
            }
        }
    }
}

/// The character sequences that a sequence of strings holds.
pub open spec fn string_views(v: Seq<String>) -> Seq<Seq<char>> {
    v.map_values(|s: String| s@)
}

/// Splits `text` into its words, as `str::split_whitespace` does.
pub fn split_words(text: &str) -> (r: Vec<String>)
    ensures
        string_views(r@) == words(text@),
{
    let chars = chars_of(text);
    let mut done: Vec<String> = Vec::new();
    let mut current = String::new();
    let mut in_word = false;
    let mut i: usize = 0;
    while i < chars.len()
        invariant
            i <= chars.len(),
            chars@ == text@,
            in_word == (i > 0 && !is_white_space(chars@[i - 1])),
            in_word ==> words(chars@.take(i as int)) == string_views(done@).push(current@),
            !in_word ==> words(chars@.take(i as int)) == string_views(done@),
            !in_word ==> current@ == Seq::<char>::empty(),
        decreases chars.len() - i,
    {
        let ch = chars[i];
        let ghost p = chars@.take(i as int);
        let ghost before = string_views(done@);
        proof {
            assert(chars@.take(i + 1).drop_last() =~= p);
            assert(chars@.take(i + 1).last() == ch);
            if i > 0 {
                assert(p.last() == chars@[i - 1]);
            }
        }
        if char_is_whitespace(ch) {
            if in_word {
                let ghost word = current@;
                done.push(current);
                current = String::new();
                in_word = false;
                assert(string_views(done@) =~= before.push(word));
            }
        } else {
            if in_word {
                proof {
                    let ws = before.push(current@);
                    assert(ws.drop_last() =~= before);
                }
                push_char(&mut current, ch);
                assert(words(chars@.take(i + 1)) =~= before.push(current@));
            } else {
                push_char(&mut current, ch);
                assert(current@ =~= seq![ch]);
                in_word = true;
            }
        }
        i = i + 1;
    }
    assert(chars@.take(chars.len() as int) =~= chars@);
    if in_word {
        let ghost word = current@;
        let ghost before = string_views(done@);
        done.push(current);
        assert(string_views(done@) =~= before.push(word));
    }
    done
}

/// `words[start..end]` written with a single space between neighbours.
pub fn join_range(words: &Vec<String>, start: usize, end: usize) -> (r: String)
    requires
        start <= end <= words.len(),
    ensures
        r@ == join_with_spaces(string_views(words@).subrange(start as int, end as int)),
{
    let mut r = String::new();
    let mut k = start;
    while k < end
        invariant
            start <= k <= end <= words.len(),
            r@ == join_with_spaces(string_views(words@).subrange(start as int, k as int)),
        decreases end - k,
    {
        let ghost views = string_views(words@);
        proof {
            assert(views.subrange(start as int, k + 1) =~= views.subrange(start as int, k as int).push(
                views[k as int],
            ));
            lemma_join_push(views.subrange(start as int, k as int), views[k as int]);
            reveal_strlit(" ");
            assert(views[k as int] == words@[k as int]@);
            if k == start {
                assert(views.subrange(start as int, k as int).len() == 0);
            }
        }
        if k > start {
            r.append(" ");
        }
        r.append(words[k].as_str());
        assert(r@ =~= join_with_spaces(views.subrange(start as int, k + 1)));
        k = k + 1;
    }
    r
}

/// What `str::to_lowercase` makes of a string: the Unicode lowercase mapping,
/// applied with the context rules that the standard library implements.
pub uninterp spec fn lowercase(s: Seq<char>) -> Seq<char>;

/// `str::to_lowercase`. Its result follows Unicode's case tables, which take
/// pages to state, and depends on the string alone, so the contract names it.
#[verifier::external_body]
pub(crate) fn to_lowercase(s: &str) -> (r: String)
    ensures
        r@ == lowercase(s@),
{
    s.to_lowercase()
}

/// `String::push`: appends one character.
#[verifier::external_body]
pub(crate) fn push_char(s: &mut String, c: char)
    ensures
        final(s)@ == old(s)@.push(c),
{
    s.push(c)
}

/// `str::trim`: the documented result is the slice without leading and
/// trailing `White_Space` characters.
#[verifier::external_body]
pub(crate) fn trim_white_space(s: &str) -> (r: &str)
    ensures
        r@ == trimmed(s@),
{
    s.trim()
}

} // verus!
