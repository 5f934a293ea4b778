//! Identifier case conversion for the renamer: splitting a name into words
//! at separators, lower-to-upper, letter-to-digit and acronym boundaries,
//! and joining the words back in `snake_case` or `PascalCase`.

use vstd::prelude::*;

use crate::chars::{
    exec_is_ascii_digit, exec_is_ascii_lower, exec_is_ascii_upper, exec_is_sep_char,
    exec_lower_char, exec_upper_char, is_ascii_digit, is_ascii_lower, is_ascii_upper, is_sep_char,
    lower_char, push_char, upper_char,
};

verus! {

/// A transition between a letter and a digit, in either direction.
pub open spec fn digit_boundary(a: char, b: char) -> bool {
    (is_ascii_digit(a) && (is_ascii_lower(b) || is_ascii_upper(b))) || ((is_ascii_lower(a)
        || is_ascii_upper(a)) && is_ascii_digit(b))
}

/// Whether a word ends after the first character of `s`: the next
/// character is a separator, a lower-to-upper or letter-digit transition
/// follows, or an acronym ends (two uppers, then a lower).
pub open spec fn break_after_first(s: Seq<char>) -> bool {
    ||| is_sep_char(s[1])
    ||| (is_ascii_lower(s[0]) && is_ascii_upper(s[1]))
    ||| digit_boundary(s[0], s[1])
    ||| (is_ascii_upper(s[0]) && is_ascii_upper(s[1]) && s.len() > 2 && is_ascii_lower(s[2]))
}

/// Length of the leading word of a non-empty sequence: characters up to
/// the next word boundary.
pub open spec fn word_break(s: Seq<char>) -> int
    decreases s.len(),
{
    if s.len() <= 1 {
        s.len() as int
    } else if break_after_first(s) {
        1
    } else {
        1 + word_break(s.drop_first())
    }
}

pub proof fn lemma_word_break_bounds(s: Seq<char>)
    requires
        s.len() > 0,
    ensures
        1 <= word_break(s) <= s.len(),
    decreases s.len(),
{
    if s.len() > 1 && !break_after_first(s) {
        lemma_word_break_bounds(s.drop_first());
    }
}

/// The words of a name: maximal runs between word boundaries; separators
/// themselves are dropped.
pub open spec fn words_of(s: Seq<char>) -> Seq<Seq<char>>
    decreases s.len(),
    via words_of_decreases
{
    if s.len() == 0 {
        Seq::empty()
    } else if is_sep_char(s[0]) {
        words_of(s.drop_first())
    } else {
        seq![s.take(word_break(s))] + words_of(s.skip(word_break(s)))
    }
}

#[via_fn]
proof fn words_of_decreases(s: Seq<char>) {
    if s.len() > 0 && !is_sep_char(s[0]) {
        lemma_word_break_bounds(s);
    }
}

/// Each character ASCII-lower-cased.
pub open spec fn lower_seq(s: Seq<char>) -> Seq<char> {
    Seq::new(s.len(), |i: int| lower_char(s[i]))
}

/// A capitalized word: first character upper-cased, the rest lower-cased.
pub open spec fn cap_word(w: Seq<char>) -> Seq<char>
    recommends
        w.len() > 0,
{
    seq![upper_char(w[0])] + lower_seq(w.drop_first())
}

/// Words joined with underscores, each lower-cased.
pub open spec fn join_snake(ws: Seq<Seq<char>>) -> Seq<char>
    decreases ws.len(),
{
    if ws.len() == 0 {
        Seq::empty()
    } else if ws.len() == 1 {
        lower_seq(ws[0])
    } else {
        lower_seq(ws[0]) + seq!['_'] + join_snake(ws.drop_first())
    }
}

/// Words joined directly, each capitalized.
pub open spec fn join_pascal(ws: Seq<Seq<char>>) -> Seq<char>
    decreases ws.len(),
{
    if ws.len() == 0 {
        Seq::empty()
    } else {
        cap_word(ws[0]) + join_pascal(ws.drop_first())
    }
}

/// The `snake_case` form of a name.
pub open spec fn snake_of(s: Seq<char>) -> Seq<char> {
    join_snake(words_of(s))
}

/// The `PascalCase` form of a name.
pub open spec fn pascal_of(s: Seq<char>) -> Seq<char> {
    join_pascal(words_of(s))
}

fn exec_word_break(s: &str) -> (k: usize)
    requires
        s@.len() > 0,
    ensures
        k as int == word_break(s@),
        1 <= k <= s@.len(),
    decreases s@.len(),
{
    let n = s.unicode_len();
    if n == 1 {
        1
    } else {
        let c0 = s.get_char(0);
        let c1 = s.get_char(1);
        let acronym_end: bool = if n > 2 {
            exec_is_ascii_upper(c0) && exec_is_ascii_upper(c1) && exec_is_ascii_lower(
                s.get_char(2),
            )
        } else {
            false
        };
        let digit_edge = (exec_is_ascii_digit(c0) && (exec_is_ascii_lower(c1)
            || exec_is_ascii_upper(c1))) || ((exec_is_ascii_lower(c0) || exec_is_ascii_upper(c0))
            && exec_is_ascii_digit(c1));
        if exec_is_sep_char(c1) || (exec_is_ascii_lower(c0) && exec_is_ascii_upper(c1))
            || digit_edge || acronym_end {
            1
        } else {
            let rest = s.substring_char(1, n);
            proof {
                assert(rest@ =~= s@.drop_first());
            }
            1 + exec_word_break(rest)
        }
    }
}

fn lower_str(s: &str) -> (r: String)
    ensures
        r@ == lower_seq(s@),
{
    let n = s.unicode_len();
    let mut out = String::new();
    let mut i: usize = 0;
    while i < n
        invariant
            n == s@.len(),
            i <= n,
            out@.len() == i,
            forall|j: int| 0 <= j < i ==> out@[j] == lower_char(s@[j]),
        decreases n - i,
    {
        push_char(&mut out, exec_lower_char(s.get_char(i)));
        i = i + 1;
    }
    proof {
        assert(out@ =~= lower_seq(s@));
    }
    out
}

fn cap_str(s: &str) -> (r: String)
    requires
        s@.len() > 0,
    ensures
        r@ == cap_word(s@),
{
    let n = s.unicode_len();
    let mut out = String::new();
    push_char(&mut out, exec_upper_char(s.get_char(0)));
    let mut i: usize = 1;
    while i < n
        invariant
            n == s@.len(),
            0 < n,
            1 <= i <= n,
            out@.len() == i,
            out@[0] == upper_char(s@[0]),
            forall|j: int| 1 <= j < i ==> out@[j] == lower_char(s@[j]),
        decreases n - i,
    {
        push_char(&mut out, exec_lower_char(s.get_char(i)));
        i = i + 1;
    }
    proof {
        assert(out@ =~= cap_word(s@));
    }
    out
}

/// Converts a name to `snake_case`.
pub fn to_snake(s: &str) -> (r: String)
    ensures
        r@ == snake_of(s@),
    decreases s@.len(),
{
    let n = s.unicode_len();
    if n == 0 {
        return String::new();
    }
    if exec_is_sep_char(s.get_char(0)) {
        let rest = s.substring_char(1, n);
        proof {
            assert(rest@ =~= s@.drop_first());
        }
        return to_snake(rest);
    }
    let k = exec_word_break(s);
    let w = s.substring_char(0, k);
    let rest = s.substring_char(k, n);
    proof {
        assert(w@ =~= s@.take(word_break(s@)));
        assert(rest@ =~= s@.skip(word_break(s@)));
    }
    let lw = lower_str(w);
    let rs = to_snake(rest);
    let ghost ws = words_of(s@);
    proof {
        assert(ws == seq![s@.take(word_break(s@))] + words_of(s@.skip(word_break(s@))));
        assert(ws.drop_first() =~= words_of(rest@));
        assert(ws[0] == w@);
    }
    if rs.as_str().is_empty() {
        proof {
            lemma_words_nonempty(rest@);
            if words_of(rest@).len() > 0 {
                lemma_join_snake_first_len(words_of(rest@));
            }
            assert(ws.len() == 1);
        }
        lw
    } else {
        proof {
            assert(words_of(rest@).len() > 0);
            assert(ws.len() > 1);
        }
        let mut out = lw;
        out.append("_");
        out.append(rs.as_str());
        proof {
            reveal_strlit("_");
            assert("_"@ =~= seq!['_']);
            assert(out@ == lower_seq(ws[0]) + seq!['_'] + join_snake(ws.drop_first()));
        }
        out
    }
}

/// Converts a name to `PascalCase`.
pub fn to_pascal(s: &str) -> (r: String)
    ensures
        r@ == pascal_of(s@),
    decreases s@.len(),
{
    let n = s.unicode_len();
    if n == 0 {
        return String::new();
    }
    if exec_is_sep_char(s.get_char(0)) {
        let rest = s.substring_char(1, n);
        proof {
            assert(rest@ =~= s@.drop_first());
        }
        return to_pascal(rest);
    }
    let k = exec_word_break(s);
    let w = s.substring_char(0, k);
    let rest = s.substring_char(k, n);
    proof {
        assert(w@ =~= s@.take(word_break(s@)));
        assert(rest@ =~= s@.skip(word_break(s@)));
        lemma_word_break_bounds(s@);
    }
    let cw = cap_str(w);
    let rs = to_pascal(rest);
    let ghost ws = words_of(s@);
    proof {
        assert(ws == seq![s@.take(word_break(s@))] + words_of(s@.skip(word_break(s@))));
        assert(ws.drop_first() =~= words_of(rest@));
        assert(ws[0] == w@);
    }
    let out = cw.concat(rs.as_str());
    proof {
        assert(out@ == cap_word(ws[0]) + join_pascal(ws.drop_first()));
    }
    out
}

/// A word as it appears inside a `snake_case` result: non-empty, with no
/// separators, no upper-case letters, and no letter-digit transition.
pub open spec fn snake_word(w: Seq<char>) -> bool {
    &&& w.len() > 0
    &&& forall|i: int| 0 <= i < w.len() ==> !is_sep_char(#[trigger] w[i]) && !is_ascii_upper(w[i])
    &&& forall|i: int| 0 <= i < w.len() - 1 ==> !#[trigger] digit_boundary(w[i], w[i + 1])
}

/// Every word produced by [`words_of`] is non-empty, separator-free, and
/// free of letter-digit transitions.
pub proof fn lemma_words_nonempty(s: Seq<char>)
    ensures
        forall|i: int|
            0 <= i < words_of(s).len() ==> (#[trigger] words_of(s)[i]).len() > 0 && (forall|
                j: int,
            | 0 <= j < words_of(s)[i].len() ==> !is_sep_char(#[trigger] words_of(s)[i][j])) && (
            forall|j: int|
                0 <= j < words_of(s)[i].len() - 1 ==> !#[trigger] digit_boundary(
                    words_of(s)[i][j],
                    words_of(s)[i][j + 1],
                )),
    decreases s.len(),
{
    if s.len() == 0 {
    } else if is_sep_char(s[0]) {
        lemma_words_nonempty(s.drop_first());
        assert(words_of(s) == words_of(s.drop_first()));
    } else {
        lemma_word_break_bounds(s);
        let k = word_break(s);
        lemma_word_interior(s);
        lemma_words_nonempty(s.skip(k));
        assert forall|i: int| 0 <= i < words_of(s).len() implies (#[trigger] words_of(s)[i]).len()
            > 0 && (forall|j: int|
            0 <= j < words_of(s)[i].len() ==> !is_sep_char(#[trigger] words_of(s)[i][j])) && (
        forall|j: int|
            0 <= j < words_of(s)[i].len() - 1 ==> !#[trigger] digit_boundary(
                words_of(s)[i][j],
                words_of(s)[i][j + 1],
            )) by {
            if i == 0 {
                assert(words_of(s)[0] == s.take(k));
                assert forall|j: int| 0 <= j < s.take(k).len() implies !is_sep_char(
                    #[trigger] s.take(k)[j],
                ) by {
                    assert(s.take(k)[j] == s[j]);
                }
                assert forall|j: int| 0 <= j < s.take(k).len() - 1 implies !#[trigger] digit_boundary(
                    s.take(k)[j],
                    s.take(k)[j + 1],
                ) by {
                    assert(s.take(k)[j] == s[j]);
                    assert(s.take(k)[j + 1] == s[j + 1]);
                }
            } else {
                assert(words_of(s)[i] == words_of(s.skip(k))[i - 1]);
            }
        }
    }
}

/// No separator stands strictly inside the leading word, and no
/// letter-digit transition stands between its characters.
proof fn lemma_word_interior(s: Seq<char>)
    requires
        s.len() > 0,
        !is_sep_char(s[0]),
    ensures
        forall|j: int| 0 <= j < word_break(s) ==> !is_sep_char(#[trigger] s[j]),
        forall|j: int| 0 <= j < word_break(s) - 1 ==> !#[trigger] digit_boundary(s[j], s[j + 1]),
    decreases s.len(),
{
    lemma_word_break_bounds(s);
    if s.len() > 1 && !break_after_first(s) {
        lemma_word_interior(s.drop_first());
        lemma_word_break_bounds(s.drop_first());
        assert forall|j: int| 0 <= j < word_break(s) implies !is_sep_char(#[trigger] s[j]) by {
            if j > 0 {
                assert(s.drop_first()[j - 1] == s[j]);
            }
        }
        assert forall|j: int| 0 <= j < word_break(s) - 1 implies !#[trigger] digit_boundary(
            s[j],
            s[j + 1],
        ) by {
            if j > 0 {
                assert(s.drop_first()[j - 1] == s[j]);
                assert(s.drop_first()[j] == s[j + 1]);
            }
        }
    }
}

/// A non-empty word list joins to a non-empty string.
proof fn lemma_join_snake_first_len(ws: Seq<Seq<char>>)
    requires
        ws.len() > 0,
        ws[0].len() > 0,
    ensures
        join_snake(ws).len() > 0,
{
}

/// Lower-casing is idempotent character-wise.
proof fn lemma_lower_seq_fixpoint(w: Seq<char>)
    requires
        forall|i: int| 0 <= i < w.len() ==> !is_ascii_upper(#[trigger] w[i]),
    ensures
        lower_seq(w) == w,
{
    assert forall|i: int| 0 <= i < w.len() implies lower_seq(w)[i] == w[i] by {
        assert(!is_ascii_upper(w[i]));
    }
    assert(lower_seq(w) =~= w);
}

/// Lower-casing keeps each character's letter and digit classes.
proof fn lemma_lower_char_classes(c: char)
    ensures
        is_ascii_digit(lower_char(c)) == is_ascii_digit(c),
        (is_ascii_lower(lower_char(c)) || is_ascii_upper(lower_char(c))) == (is_ascii_lower(c)
            || is_ascii_upper(c)),
{
}

/// Lower-casing a boundary-free, separator-free word yields a snake word.
proof fn lemma_lower_seq_snake_word(w: Seq<char>)
    requires
        w.len() > 0,
        forall|i: int| 0 <= i < w.len() ==> !is_sep_char(#[trigger] w[i]),
        forall|i: int| 0 <= i < w.len() - 1 ==> !#[trigger] digit_boundary(w[i], w[i + 1]),
    ensures
        snake_word(lower_seq(w)),
{
    assert forall|i: int| 0 <= i < lower_seq(w).len() implies !is_sep_char(
        #[trigger] lower_seq(w)[i],
    ) && !is_ascii_upper(lower_seq(w)[i]) by {
        assert(!is_sep_char(w[i]));
        assert(lower_seq(w)[i] == lower_char(w[i]));
    }
    assert forall|i: int| 0 <= i < lower_seq(w).len() - 1 implies !#[trigger] digit_boundary(
        lower_seq(w)[i],
        lower_seq(w)[i + 1],
    ) by {
        lemma_lower_char_classes(w[i]);
        lemma_lower_char_classes(w[i + 1]);
        assert(lower_seq(w)[i] == lower_char(w[i]));
        assert(lower_seq(w)[i + 1] == lower_char(w[i + 1]));
        assert(!digit_boundary(w[i], w[i + 1]));
    }
}

/// A snake word is read back whole: its word break is its length.
proof fn lemma_word_break_whole(s: Seq<char>, k: int)
    requires
        s.len() > 0,
        k >= 1,
        k <= s.len(),
        forall|i: int| 0 <= i < k ==> !is_sep_char(#[trigger] s[i]) && !is_ascii_upper(s[i]),
        forall|i: int| 0 <= i < k - 1 ==> !#[trigger] digit_boundary(s[i], s[i + 1]),
        k < s.len() ==> is_sep_char(s[k]),
    ensures
        word_break(s) == k,
    decreases s.len(),
{
    if k == 1 {
        if s.len() > 1 {
            assert(is_sep_char(s[1]));
            assert(break_after_first(s));
        }
    } else {
        let i0: int = 0;
        assert(!digit_boundary(s[i0], s[i0 + 1]));
        assert(!digit_boundary(s[0], s[1]));
        assert(!is_ascii_upper(s[0]));
        assert(!break_after_first(s));
        let t = s.drop_first();
        assert forall|i: int| 0 <= i < k - 1 implies !is_sep_char(#[trigger] t[i])
            && !is_ascii_upper(t[i]) by {
            assert(t[i] == s[i + 1]);
        }
        assert forall|i: int| 0 <= i < k - 2 implies !#[trigger] digit_boundary(t[i], t[i + 1]) by {
            assert(t[i] == s[i + 1]);
            assert(t[i + 1] == s[i + 2]);
        }
        if k - 1 < t.len() {
            assert(t[k - 1] == s[k]);
        }
        lemma_word_break_whole(t, k - 1);
    }
}

/// Joining snake words and splitting again yields the same word list.
proof fn lemma_words_of_join(ws: Seq<Seq<char>>)
    requires
        forall|i: int| 0 <= i < ws.len() ==> snake_word(#[trigger] ws[i]),
    ensures
        words_of(join_snake(ws)) == ws,
    decreases ws.len(),
{
    if ws.len() == 0 {
        assert(words_of(join_snake(ws)) =~= ws);
    } else if ws.len() == 1 {
        let w = ws[0];
        lemma_lower_seq_fixpoint(w);
        assert(join_snake(ws) == w);
        lemma_word_break_whole(w, w.len() as int);
        assert(words_of(w) == seq![w.take(w.len() as int)] + words_of(w.skip(w.len() as int)));
        assert(w.take(w.len() as int) =~= w);
        assert(w.skip(w.len() as int) =~= Seq::<char>::empty());
        assert(words_of(w) =~= ws);
    } else {
        let w = ws[0];
        let rest = ws.drop_first();
        lemma_lower_seq_fixpoint(w);
        let s = join_snake(ws);
        assert(s == w + seq!['_'] + join_snake(rest));
        assert forall|i: int| 0 <= i < rest.len() implies snake_word(#[trigger] rest[i]) by {
            assert(rest[i] == ws[i + 1]);
        }
        lemma_words_of_join(rest);
        assert(s.len() > 0 && !is_sep_char(s[0]));
        assert forall|i: int| 0 <= i < w.len() implies !is_sep_char(#[trigger] s[i])
            && !is_ascii_upper(s[i]) by {
            assert(s[i] == w[i]);
        }
        assert forall|i: int| 0 <= i < w.len() - 1 implies !#[trigger] digit_boundary(
            s[i],
            s[i + 1],
        ) by {
            assert(s[i] == w[i]);
            assert(s[i + 1] == w[i + 1]);
        }
        assert(s[w.len() as int] == '_');
        lemma_word_break_whole(s, w.len() as int);
        assert(s.take(w.len() as int) =~= w);
        let tail = s.skip(w.len() as int);
        assert(tail[0] == '_');
        assert(tail.drop_first() =~= join_snake(rest));
        assert(words_of(tail) == words_of(tail.drop_first()));
        assert(words_of(s) == seq![w] + words_of(join_snake(rest)));
        assert(words_of(s) =~= ws);
    }
}

/// The word list with each word lower-cased.
pub open spec fn join_snake_words(ws: Seq<Seq<char>>) -> Seq<Seq<char>> {
    Seq::new(ws.len(), |i: int| lower_seq(ws[i]))
}

/// Converting a name to `snake_case` twice gives the same result as
/// converting it once.
pub proof fn lemma_snake_idempotent(s: Seq<char>)
    ensures
        snake_of(snake_of(s)) == snake_of(s),
{
    let ws = words_of(s);
    lemma_words_nonempty(s);
    let lws = join_snake_words(ws);
    assert forall|i: int| 0 <= i < lws.len() implies snake_word(#[trigger] lws[i]) by {
        lemma_lower_seq_snake_word(ws[i]);
    }
    lemma_join_snake_eq_lowered(ws);
    lemma_words_of_join(lws);
    assert(words_of(snake_of(s)) == lws);
    assert(snake_of(snake_of(s)) == join_snake(lws));
}

/// Joining a word list equals joining the list of its lower-cased words.
proof fn lemma_join_snake_eq_lowered(ws: Seq<Seq<char>>)
    ensures
        join_snake(join_snake_words(ws)) == join_snake(ws),
    decreases ws.len(),
{
    let lws = join_snake_words(ws);
    if ws.len() == 0 {
    } else if ws.len() == 1 {
        assert(join_snake(lws) == lower_seq(lws[0]));
        assert(lower_seq(lower_seq(ws[0])) =~= lower_seq(ws[0])) by {
            assert forall|i: int| 0 <= i < ws[0].len() implies lower_seq(lower_seq(ws[0]))[i]
                == lower_seq(ws[0])[i] by {
                assert(lower_char(lower_char(ws[0][i])) == lower_char(ws[0][i]));
            }
        }
    } else {
        lemma_join_snake_eq_lowered(ws.drop_first());
        assert(lws.drop_first() =~= join_snake_words(ws.drop_first()));
        assert(lower_seq(lower_seq(ws[0])) =~= lower_seq(ws[0])) by {
            assert forall|i: int| 0 <= i < ws[0].len() implies lower_seq(lower_seq(ws[0]))[i]
                == lower_seq(ws[0])[i] by {
                assert(lower_char(lower_char(ws[0][i])) == lower_char(ws[0][i]));
            }
        }
        assert(join_snake(lws) == lower_seq(lws[0]) + seq!['_'] + join_snake(lws.drop_first()));
        assert(join_snake(ws) == lower_seq(ws[0]) + seq!['_'] + join_snake(ws.drop_first()));
    }
}

} // verus!
