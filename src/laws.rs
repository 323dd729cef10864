//! What holds of whole runs of the lexer.
use vstd::prelude::*;

use crate::grammar::{
    closing, is_symbol, lemma_closing, lemma_space_end, lemma_step_bounds, lemma_trivia_end,
    lemma_word_end, lex_from, lex_step, space_end, trivia_end, word_end,
};
use crate::lexer::{is_trimmed, space_start, trim};
use crate::token::{classify_word, spelling, TokenView};

verus! {

/// `g` is made of whitespace and comments alone.
pub open spec fn is_trivia(g: Seq<char>) -> bool {
    trivia_end(g, 0, false) == g.len()
}

/// The whitespace and comments in front of each token that lexing from `i`
/// produces, then those after the last token.
pub open spec fn lex_gaps(s: Seq<char>, i: nat) -> Seq<Seq<char>>
    decreases s.len() - i,
{
    let st = lex_step(s, i);
    let gap = s.subrange(i as int, trivia_end(s, i, false) as int);
    match st.0 {
        Ok(Some(_)) => if i < st.1 <= s.len() {
            seq![gap] + lex_gaps(s, st.1)
        } else {
            seq![gap]
        },
        _ => seq![gap],
    }
}

/// `gaps[0] + words[0] + gaps[1] + words[1] + ... + gaps[n]`.
pub open spec fn weave(gaps: Seq<Seq<char>>, words: Seq<Seq<char>>) -> Seq<char>
    decreases words.len(),
{
    if gaps.len() == 0 {
        Seq::empty()
    } else if words.len() == 0 {
        gaps[0]
    } else {
        gaps[0] + words[0] + weave(gaps.drop_first(), words.drop_first())
    }
}

/// The source text of each token.
pub open spec fn spellings(ts: Seq<TokenView>) -> Seq<Seq<char>> {
    ts.map_values(|t: TokenView| spelling(t))
}

proof fn lemma_trivia_sub(s: Seq<char>, i: nat, k: nat, j: nat, c: bool)
    requires
        i <= k <= j <= s.len(),
        trivia_end(s, k, c) == j,
    ensures
        trivia_end(s.subrange(i as int, j as int), (k - i) as nat, c) == j - i,
    decreases j - k,
{
    let g = s.subrange(i as int, j as int);
    if k < j {
        assert(g[k - i] == s[k as int]);
        if c {
            lemma_trivia_sub(s, i, k + 1, j, s[k as int] != '\n');
        } else {
            lemma_trivia_sub(s, i, k + 1, j, s[k as int] == '#');
        }
    }
}

proof fn lemma_keyword_spelling(w: Seq<char>)
    ensures
        spelling(classify_word(w)) == w,
{
}

/// The token that a scan produces is spelled by the text it was read from.
proof fn lemma_token_spelling(s: Seq<char>, i: nat)
    requires
        i <= s.len(),
        lex_step(s, i).0 matches Ok(Some(_)),
    ensures
        spelling(lex_step(s, i).0->Ok_0->Some_0) == s.subrange(
            trivia_end(s, i, false) as int,
            lex_step(s, i).1 as int,
        ),
{
    let j = trivia_end(s, i, false);
    lemma_trivia_end(s, i, false);
    let c = s[j as int];
    let n = lex_step(s, i).1;
    let t = lex_step(s, i).0->Ok_0->Some_0;
    if c == '"' || c == '/' {
        lemma_closing(s, j + 1, c);
        assert(spelling(t) =~= s.subrange(j as int, n as int));
    } else if c == '[' || c == ']' {
        assert(spelling(t) =~= s.subrange(j as int, n as int));
    } else if is_symbol(c) {
        assert(spelling(t) =~= s.subrange(j as int, n as int));
    } else {
        lemma_word_end(s, j + 1);
        lemma_keyword_spelling(s.subrange(j as int, n as int));
    }
}


proof fn lemma_rebuild_from(s: Seq<char>, i: nat)
    requires
        i <= s.len(),
        lex_from(s, i).1 is None,
    ensures
        lex_gaps(s, i).len() == lex_from(s, i).0.len() + 1,
        forall|k: int| 0 <= k < lex_gaps(s, i).len() ==> is_trivia(#[trigger] lex_gaps(s, i)[k]),
        weave(lex_gaps(s, i), spellings(lex_from(s, i).0)) == s.subrange(i as int, s.len() as int),
    decreases s.len() - i,
{
    let st = lex_step(s, i);
    let j = trivia_end(s, i, false);
    lemma_trivia_end(s, i, false);
    lemma_step_bounds(s, i);
    lemma_trivia_sub(s, i, i, j, false);
    let gap = s.subrange(i as int, j as int);
    if st.0 is Ok && st.0->Ok_0 is Some {
        let n = st.1;
        let t = st.0->Ok_0->Some_0;
        lemma_rebuild_from(s, n);
        lemma_token_spelling(s, i);
        let gs = lex_gaps(s, n);
        let ts = lex_from(s, n).0;
        assert(lex_gaps(s, i) == seq![gap] + gs);
        assert(lex_from(s, i).0 == seq![t] + ts);
        let ws = spellings(seq![t] + ts);
        assert(ws.drop_first() =~= spellings(ts));
        assert((seq![gap] + gs).drop_first() =~= gs);
        assert(forall|k: int| 0 < k < lex_gaps(s, i).len() ==> lex_gaps(s, i)[k] == gs[k - 1]);
        assert(s.subrange(i as int, s.len() as int) =~= gap + s.subrange(j as int, n as int)
            + s.subrange(n as int, s.len() as int));
    } else {
        assert(st.0 matches Ok(None));
        assert(lex_from(s, i).0 =~= Seq::<TokenView>::empty());
    }
}

/// Lexing loses no text: where no error stops it, the spellings of the
/// tokens, with the whitespace and comments before each of them and after
/// the last put back in between, give the text again; those gaps hold only
/// whitespace and comments.
pub proof fn law_tokens_rebuild_text(s: Seq<char>)
    requires
        lex_from(s, 0).1 is None,
    ensures
        lex_gaps(s, 0).len() == lex_from(s, 0).0.len() + 1,
        forall|k: int| 0 <= k < lex_gaps(s, 0).len() ==> is_trivia(#[trigger] lex_gaps(s, 0)[k]),
        weave(lex_gaps(s, 0), spellings(lex_from(s, 0).0)) == s,
{
    lemma_rebuild_from(s, 0);
    assert(s.subrange(0, s.len() as int) =~= s);
}


proof fn lemma_trivia_shift(s: Seq<char>, m: nat, i: nat, c: bool)
    requires
        m <= i <= s.len(),
    ensures
        trivia_end(s.skip(m as int), (i - m) as nat, c) == trivia_end(s, i, c) - m,
    decreases s.len() - i,
{
    let t = s.skip(m as int);
    if i < s.len() {
        assert(t[i - m] == s[i as int]);
        lemma_trivia_shift(s, m, i + 1, if c { s[i as int] != '\n' } else { s[i as int] == '#' });
    }
}

proof fn lemma_closing_shift(s: Seq<char>, m: nat, k: nat, q: char)
    requires
        m <= k,
        m <= s.len(),
    ensures
        closing(s.skip(m as int), (k - m) as nat, q) == (match closing(s, k, q) {
            Some(e) => Some((e - m) as nat),
            None => None,
        }),
    decreases s.len() - k,
{
    let t = s.skip(m as int);
    if k < s.len() {
        assert(t[k - m] == s[k as int]);
        if k + 1 < s.len() {
            assert(t[k + 1 - m] == s[k + 1int]);
        }
        if s[k as int] == '\\' && k + 1 < s.len() && s[k + 1int] == q {
            lemma_closing_shift(s, m, k + 2, q);
        } else {
            lemma_closing_shift(s, m, k + 1, q);
        }
    }
}

proof fn lemma_word_shift(s: Seq<char>, m: nat, k: nat)
    requires
        m <= k,
        m <= s.len(),
    ensures
        word_end(s.skip(m as int), (k - m) as nat) == word_end(s, k) - m,
    decreases s.len() - k,
{
    let t = s.skip(m as int);
    if k < s.len() {
        assert(t[k - m] == s[k as int]);
        lemma_word_shift(s, m, k + 1);
    }
}

/// A scan depends on the text from the cursor on alone; only the offsets
/// carried by errors differ.
proof fn lemma_step_shift(s: Seq<char>, m: nat, i: nat)
    requires
        m <= i <= s.len(),
    ensures
        lex_step(s.skip(m as int), (i - m) as nat).1 == lex_step(s, i).1 - m,
        lex_step(s, i).0 is Ok ==> lex_step(s.skip(m as int), (i - m) as nat).0 == lex_step(s, i).0,
        lex_step(s, i).0 is Err <==> lex_step(s.skip(m as int), (i - m) as nat).0 is Err,
{
    let t = s.skip(m as int);
    lemma_trivia_shift(s, m, i, false);
    lemma_trivia_end(s, i, false);
    lemma_step_bounds(s, i);
    let j = trivia_end(s, i, false);
    if j < s.len() {
        let jt = (j - m) as nat;
        assert(t[jt as int] == s[j as int]);
        if j + 1 < s.len() {
            assert(t[jt + 1int] == s[j + 1int]);
        }
        lemma_closing_shift(s, m, j + 1, s[j as int]);
        lemma_closing(s, j + 1, s[j as int]);
        lemma_word_shift(s, m, j + 1);
        lemma_word_end(s, j + 1);
        let c = s[j as int];
        if c == '"' || c == '/' {
            if let Some(e) = closing(s, j + 1, c) {
                assert(t.subrange(jt + 1int, e - m) =~= s.subrange(j + 1int, e as int));
            }
        } else if !is_symbol(c) && c != '[' && c != ']' {
            assert(t.subrange(jt as int, word_end(s, j + 1) - m) =~= s.subrange(
                j as int,
                word_end(s, j + 1) as int,
            ));
        }
    }
}

/// Lexing from a cursor gives the tokens that lexing the text after the
/// cursor gives, and stops on an error in the one case as in the other.
proof fn lemma_lex_shift(s: Seq<char>, m: nat, i: nat)
    requires
        m <= i <= s.len(),
    ensures
        lex_from(s.skip(m as int), (i - m) as nat).0 == lex_from(s, i).0,
        lex_from(s.skip(m as int), (i - m) as nat).1 is None <==> lex_from(s, i).1 is None,
    decreases s.len() - i,
{
    let t = s.skip(m as int);
    lemma_step_shift(s, m, i);
    lemma_step_bounds(s, i);
    let n = lex_step(s, i).1;
    if lex_step(s, i).0 matches Ok(Some(_)) {
        lemma_lex_shift(s, m, n);
        assert(((n - m) as nat) == lex_step(t, (i - m) as nat).1);
    }
}

/// Where the cursor stands after `k` scans from `i` that each produced a
/// token.
pub open spec fn cursor_after(s: Seq<char>, i: nat, k: nat) -> nat
    decreases k,
{
    if k == 0 {
        i
    } else {
        cursor_after(s, lex_step(s, i).1, (k - 1) as nat)
    }
}

proof fn lemma_prefix_dropped(s: Seq<char>, i: nat, k: nat)
    requires
        i <= s.len(),
        k <= lex_from(s, i).0.len(),
    ensures
        cursor_after(s, i, k) <= s.len(),
        lex_from(s, cursor_after(s, i, k)).0 == lex_from(s, i).0.skip(k as int),
        lex_from(s, cursor_after(s, i, k)).1 == lex_from(s, i).1,
    decreases k,
{
    if k == 0 {
        assert(lex_from(s, i).0.skip(0) =~= lex_from(s, i).0);
    } else {
        lemma_step_bounds(s, i);
        let n = lex_step(s, i).1;
        assert(lex_step(s, i).0 matches Ok(Some(_)));
        lemma_prefix_dropped(s, n, (k - 1) as nat);
        assert(lex_from(s, i).0.skip(k as int) =~= lex_from(s, n).0.skip(k - 1));
    }
}

/// Leading whitespace changes nothing that lexing produces.
proof fn lemma_lex_past_spaces(r: Seq<char>)
    ensures
        lex_from(r, space_end(r, 0)) == lex_from(r, 0),
{
    lemma_space_end(r, 0);
    lemma_step_bounds(r, 0);
    lemma_trivia_end(r, space_end(r, 0), false);
}

/// Lexing splits: after `k` tokens have been taken from a trimmed text,
/// a lexer over the rest of the text, trimmed again, produces exactly the
/// tokens that remain, and stops on an error exactly where the whole run
/// does.
pub proof fn law_lexing_rest_continues(s: Seq<char>, k: nat)
    requires
        is_trimmed(s),
        k <= lex_from(s, 0).0.len(),
    ensures
        lex_from(trim(s.skip(cursor_after(s, 0, k) as int)), 0).0 == lex_from(s, 0).0.skip(k as int),
        lex_from(trim(s.skip(cursor_after(s, 0, k) as int)), 0).1 is None <==> lex_from(s, 0).1 is None,
{
    let m = cursor_after(s, 0, k);
    lemma_prefix_dropped(s, 0, k);
    let r = s.skip(m as int);
    lemma_lex_shift(s, m, m);
    let a = space_end(r, 0);
    lemma_space_end(r, 0);
    lemma_lex_past_spaces(r);
    lemma_lex_shift(r, a, a);
    assert(space_start(r, r.len()) == r.len()) by {
        if r.len() > 0 {
            assert(r.last() == s.last());
        }
    }
    if a < r.len() {
        assert(trim(r) =~= r.skip(a as int));
    } else {
        assert(trim(r) =~= r.skip(a as int));
    }
}

} // verus!
