//! How a text splits into words (maximal alphanumeric runs) and the
//! characters between them, and what rewriting each word leaves unchanged.
use vstd::prelude::*;
use crate::unicode::is_alphanumeric_char;

verus! {

/// Every character of `s` is alphanumeric.
pub open spec fn all_alphanumeric(s: Seq<char>) -> bool {
    forall|i: int| 0 <= i < s.len() ==> #[trigger] is_alphanumeric_char(s[i])
}

/// No character of `s` is alphanumeric.
pub open spec fn none_alphanumeric(s: Seq<char>) -> bool {
    forall|i: int| 0 <= i < s.len() ==> !#[trigger] is_alphanumeric_char(s[i])
}

/// Where the trailing alphanumeric run of `s` starts (`s.len()` when `s` is
/// empty or ends in a character that is not alphanumeric).
pub open spec fn word_start(s: Seq<char>) -> nat
    decreases s.len(),
{
    if s.len() == 0 || !is_alphanumeric_char(s.last()) {
        s.len()
    } else {
        word_start(s.drop_last())
    }
}

/// `s` with each maximal alphanumeric run `w` replaced by `f(w)`, every other
/// character kept in place.
pub open spec fn rewrite_words(f: spec_fn(Seq<char>) -> Seq<char>, s: Seq<char>) -> Seq<char>
    decreases s.len(),
{
    if s.len() == 0 {
        Seq::empty()
    } else if !is_alphanumeric_char(s.last()) {
        rewrite_words(f, s.drop_last()).push(s.last())
    } else {
        let k = word_start(s);
        proof {
            lemma_word_start(s);
        }
        rewrite_words(f, s.take(k as int)) + f(s.skip(k as int))
    }
}

/// The trailing run starts inside `s`, consists of alphanumeric characters,
/// and is not empty when `s` ends in one.
pub proof fn lemma_word_start(s: Seq<char>)
    ensures
        word_start(s) <= s.len(),
        all_alphanumeric(s.skip(word_start(s) as int)),
        word_start(s) > 0 ==> !is_alphanumeric_char(s[word_start(s) - 1]),
        s.len() > 0 && is_alphanumeric_char(s.last()) ==> word_start(s) < s.len(),
    decreases s.len(),
{
    if s.len() > 0 && is_alphanumeric_char(s.last()) {
        lemma_word_start(s.drop_last());
        let k = word_start(s.drop_last());
        assert forall|i: int| 0 <= i < s.skip(k as int).len() implies #[trigger] is_alphanumeric_char(
            s.skip(k as int)[i],
        ) by {
            if k + i < s.len() - 1 {
                assert(s.skip(k as int)[i] == s.drop_last().skip(k as int)[i]);
            }
        }
    } else {
        assert(s.skip(s.len() as int).len() == 0);
    }
}

/// Appending characters to `x` moves the trailing run to the appended part,
/// unless the appended part is all alphanumeric.
pub proof fn lemma_word_start_concat(x: Seq<char>, y: Seq<char>)
    ensures
        word_start(x + y) == if word_start(y) == 0 {
            word_start(x)
        } else {
            x.len() + word_start(y)
        },
    decreases y.len(),
{
    if y.len() == 0 {
        assert(x + y =~= x);
    } else {
        assert((x + y).drop_last() =~= x + y.drop_last());
        assert((x + y).last() == y.last());
        if is_alphanumeric_char(y.last()) {
            lemma_word_start_concat(x, y.drop_last());
        }
    }
}

/// A run of alphanumeric characters is its own trailing run.
pub proof fn lemma_all_alphanumeric_word_start(w: Seq<char>)
    requires
        all_alphanumeric(w),
    ensures
        word_start(w) == 0,
    decreases w.len(),
{
    if w.len() > 0 {
        assert(is_alphanumeric_char(w[w.len() - 1]));
        assert forall|i: int| 0 <= i < w.drop_last().len() implies #[trigger] is_alphanumeric_char(
            w.drop_last()[i],
        ) by {
            assert(w.drop_last()[i] == w[i]);
        }
        lemma_all_alphanumeric_word_start(w.drop_last());
    }
}

/// A whole word that follows a word boundary is rewritten on its own.
pub proof fn lemma_rewrite_append_word(f: spec_fn(Seq<char>) -> Seq<char>, x: Seq<char>, w: Seq<char>)
    requires
        word_start(x) == x.len(),
        w.len() > 0,
        all_alphanumeric(w),
    ensures
        rewrite_words(f, x + w) == rewrite_words(f, x) + f(w),
{
    lemma_all_alphanumeric_word_start(w);
    lemma_word_start_concat(x, w);
    let s = x + w;
    assert(s.last() == w.last());
    assert(is_alphanumeric_char(w[w.len() - 1]));
    assert(s.take(x.len() as int) =~= x);
    assert(s.skip(x.len() as int) =~= w);
}

/// A character that is not alphanumeric is kept where it stands.
pub proof fn lemma_rewrite_append_separator(f: spec_fn(Seq<char>) -> Seq<char>, x: Seq<char>, c: char)
    requires
        !is_alphanumeric_char(c),
    ensures
        rewrite_words(f, x.push(c)) == rewrite_words(f, x).push(c),
        word_start(x.push(c)) == x.push(c).len(),
{
    assert(x.push(c).drop_last() =~= x);
}

/// Rewriting is compatible with splitting at a character that is not
/// alphanumeric: both sides are rewritten on their own and the character
/// stays between them.
pub proof fn lemma_rewrite_split(
    f: spec_fn(Seq<char>) -> Seq<char>,
    a: Seq<char>,
    c: char,
    b: Seq<char>,
)
    requires
        !is_alphanumeric_char(c),
    ensures
        rewrite_words(f, a.push(c) + b) == rewrite_words(f, a).push(c) + rewrite_words(f, b),
    decreases b.len(),
{
    let x = a.push(c) + b;
    lemma_rewrite_append_separator(f, a, c);
    if b.len() == 0 {
        assert(x =~= a.push(c));
        assert(rewrite_words(f, a).push(c) + Seq::<char>::empty() =~= rewrite_words(f, a).push(
            c,
        ));
    } else if !is_alphanumeric_char(b.last()) {
        assert(x.drop_last() =~= a.push(c) + b.drop_last());
        assert(x.last() == b.last());
        lemma_rewrite_split(f, a, c, b.drop_last());
        assert(rewrite_words(f, a).push(c) + rewrite_words(f, b.drop_last()).push(b.last())
            =~= (rewrite_words(f, a).push(c) + rewrite_words(f, b.drop_last())).push(b.last()));
    } else {
        lemma_word_start(b);
        lemma_word_start(x);
        lemma_word_start_concat(a.push(c), b);
        let kb = word_start(b);
        let k = word_start(x);
        assert(x.last() == b.last());
        assert(k == a.len() + 1 + kb);
        assert(x.take(k as int) =~= a.push(c) + b.take(kb as int));
        assert(x.skip(k as int) =~= b.skip(kb as int));
        lemma_rewrite_split(f, a, c, b.take(kb as int));
        assert(rewrite_words(f, a).push(c) + rewrite_words(f, b.take(kb as int)) + f(
            b.skip(kb as int),
        ) =~= rewrite_words(f, a).push(c) + (rewrite_words(f, b.take(kb as int)) + f(
            b.skip(kb as int),
        )));
    }
}

/// A text without alphanumeric characters is left as it is.
pub proof fn lemma_rewrite_no_words(f: spec_fn(Seq<char>) -> Seq<char>, s: Seq<char>)
    requires
        none_alphanumeric(s),
    ensures
        rewrite_words(f, s) == s,
    decreases s.len(),
{
    if s.len() > 0 {
        assert(!is_alphanumeric_char(s[s.len() - 1]));
        assert forall|i: int| 0 <= i < s.drop_last().len() implies !#[trigger] is_alphanumeric_char(
            s.drop_last()[i],
        ) by {
            assert(s.drop_last()[i] == s[i]);
        }
        lemma_rewrite_no_words(f, s.drop_last());
        assert(s.drop_last().push(s.last()) =~= s);
    }
}

/// A text that is a single word is rewritten as that word.
pub proof fn lemma_rewrite_single_word(f: spec_fn(Seq<char>) -> Seq<char>, w: Seq<char>)
    requires
        w.len() > 0,
        all_alphanumeric(w),
    ensures
        rewrite_words(f, w) == f(w),
{
    let e = Seq::<char>::empty();
    lemma_rewrite_append_word(f, e, w);
    assert(e + w =~= w);
    assert(e + f(w) =~= f(w));
}

} // verus!
