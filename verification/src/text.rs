//! Character-level string utilities: equality and splitting on a separator.

use vstd::prelude::*;
use vstd::string::StrSliceExecFns;
use vstd::string::StringExecFns;

verus! {

/// The tokens of `s`, split on the separator `sep`.
///
/// A string with no separator yields one token; each separator ends the
/// token before it, so the result always holds one more token than there
/// are separators in `s`.
pub open spec fn spec_split(s: Seq<char>, sep: char) -> Seq<Seq<char>>
    decreases s.len(),
{
    if s.len() <= 0 {
        seq![Seq::<char>::empty()]
    } else if s[0] == sep {
        seq![Seq::<char>::empty()].add(spec_split(s.drop_first(), sep))
    } else {
        prepend_first(seq![s[0]], spec_split(s.drop_first(), sep))
    }
}

/// The token sequence `tokens` with `prefix` prepended to its first token.
pub open spec fn prepend_first(prefix: Seq<char>, tokens: Seq<Seq<char>>) -> Seq<Seq<char>> {
    tokens.update(0, prefix.add(tokens[0]))
}

/// Splitting never yields an empty token sequence.
pub proof fn lemma_split_nonempty(s: Seq<char>, sep: char)
    ensures
        spec_split(s, sep).len() >= 1,
    decreases s.len(),
{
    if s.len() > 0 {
        lemma_split_nonempty(s.drop_first(), sep);
    }
}

proof fn lemma_prepend_first_assoc(a: Seq<char>, b: Seq<char>, tokens: Seq<Seq<char>>)
    requires
        tokens.len() >= 1,
    ensures
        prepend_first(a, prepend_first(b, tokens)) == prepend_first(a.add(b), tokens),
{
    assert(prepend_first(a, prepend_first(b, tokens)) =~~= prepend_first(a.add(b), tokens));
}

proof fn lemma_prepend_first_empty(tokens: Seq<Seq<char>>)
    requires
        tokens.len() >= 1,
    ensures
        prepend_first(Seq::<char>::empty(), tokens) == tokens,
{
    assert(prepend_first(Seq::<char>::empty(), tokens) =~~= tokens);
}

proof fn lemma_split_step(s: Seq<char>, sep: char, i: int)
    requires
        0 <= i < s.len(),
    ensures
        s[i] == sep ==> spec_split(s.skip(i), sep) == seq![Seq::<char>::empty()].add(
            spec_split(s.skip(i + 1), sep),
        ),
        s[i] != sep ==> spec_split(s.skip(i), sep) == prepend_first(
            seq![s[i]],
            spec_split(s.skip(i + 1), sep),
        ),
{
    assert(s.skip(i).len() > 0);
    assert(s.skip(i)[0] == s[i]);
    assert(s.skip(i).drop_first() =~= s.skip(i + 1));
}

/// Split `s` on the separator character `sep`.
pub fn split_on(s: &str, sep: char) -> (r: Vec<String>)
    ensures
        r.deep_view() == spec_split(s@, sep),
        r.len() >= 1,
{
    let n = s.unicode_len();
    let mut toks: Vec<String> = Vec::new();
    let mut start: usize = 0;
    let mut i: usize = 0;
    proof {
        lemma_split_nonempty(s@, sep);
        lemma_prepend_first_empty(spec_split(s@, sep));
        assert(s@.skip(0) =~= s@);
        assert(s@.subrange(0, 0) =~= Seq::<char>::empty());
        assert(toks.deep_view() =~~= Seq::<Seq<char>>::empty());
    }
    while i < n
        invariant
            0 <= start <= i <= n,
            n == s@.len(),
            spec_split(s@, sep) == toks.deep_view().add(
                prepend_first(s@.subrange(start as int, i as int), spec_split(s@.skip(i as int), sep)),
            ),
        decreases n - i,
    {
        proof {
            lemma_split_step(s@, sep, i as int);
            lemma_split_nonempty(s@.skip(i as int + 1), sep);
        }
        let c = s.get_char(i);
        if c == sep {
            let tok = s.substring_char(start, i);
            let ghost old_toks = toks.deep_view();
            toks.push(String::from_str(tok));
            proof {
                assert(toks.deep_view() =~~= old_toks.push(s@.subrange(start as int, i as int)));
                let rest = spec_split(s@.skip(i as int + 1), sep);
                assert(prepend_first(
                    s@.subrange(start as int, i as int),
                    seq![Seq::<char>::empty()].add(rest),
                ) =~~= seq![s@.subrange(start as int, i as int)].add(rest));
                lemma_prepend_first_empty(rest);
                assert(s@.subrange(i as int + 1, i as int + 1) =~= Seq::<char>::empty());
                assert(old_toks.add(
                    seq![s@.subrange(start as int, i as int)].add(rest),
                ) =~~= toks.deep_view().add(prepend_first(
                    s@.subrange(i as int + 1, i as int + 1),
                    rest,
                )));
            }
            start = i + 1;
        } else {
            proof {
                let rest = spec_split(s@.skip(i as int + 1), sep);
                lemma_prepend_first_assoc(
                    s@.subrange(start as int, i as int),
                    seq![s@[i as int]],
                    rest,
                );
                assert(s@.subrange(start as int, i as int).add(seq![s@[i as int]]) =~= s@.subrange(
                    start as int,
                    i as int + 1,
                ));
            }
        }
        i += 1;
    }
    let tok = s.substring_char(start, n);
    let ghost old_toks = toks.deep_view();
    toks.push(String::from_str(tok));
    proof {
        assert(s@.skip(n as int) =~= Seq::<char>::empty());
        assert(prepend_first(
            s@.subrange(start as int, n as int),
            spec_split(Seq::<char>::empty(), sep),
        ) =~~= seq![s@.subrange(start as int, n as int)]);
        assert(toks.deep_view() =~~= old_toks.push(s@.subrange(start as int, n as int)));
        assert(toks.deep_view() =~~= spec_split(s@, sep));
    }
    toks
}

/// Character-by-character string equality.
pub fn str_eq(a: &str, b: &str) -> (r: bool)
    ensures
        r == (a@ == b@),
{
    let an = a.unicode_len();
    let bn = b.unicode_len();
    if an != bn {
        return false;
    }
    let mut i: usize = 0;
    while i < an
        invariant
            i <= an,
            an == a@.len(),
            an == b@.len(),
            forall|j: int| 0 <= j < i ==> a@[j] == b@[j],
        decreases an - i,
    {
        if a.get_char(i) != b.get_char(i) {
            return false;
        }
        i += 1;
    }
    proof {
        assert(a@ =~= b@);
    }
    true
}

} // verus!
