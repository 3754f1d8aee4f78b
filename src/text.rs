//! Splitting of text into fields, on plain character sequences.

use vstd::prelude::*;

verus! {

/// The fields of `s` between occurrences of `sep`, with `cur` already read
/// into the field in progress. Empty fields are kept.
pub open spec fn split_acc(s: Seq<char>, sep: char, cur: Seq<char>) -> Seq<Seq<char>>
    decreases s.len(),
{
    if s.len() == 0 {
        seq![cur]
    } else if s[0] == sep {
        seq![cur] + split_acc(s.drop_first(), sep, Seq::empty())
    } else {
        split_acc(s.drop_first(), sep, cur.push(s[0]))
    }
}

/// The fields of `s` separated by `sep`; there is always at least one.
pub open spec fn split_spec(s: Seq<char>, sep: char) -> Seq<Seq<char>> {
    split_acc(s, sep, Seq::empty())
}

/// Splitting yields at least one field.
pub proof fn lemma_split_nonempty(s: Seq<char>, sep: char, cur: Seq<char>)
    ensures
        split_acc(s, sep, cur).len() >= 1,
    decreases s.len(),
{
    if s.len() > 0 {
        if s[0] == sep {
            lemma_split_nonempty(s.drop_first(), sep, Seq::empty());
        } else {
            lemma_split_nonempty(s.drop_first(), sep, cur.push(s[0]));
        }
    }
}

/// Whether `c` is one of the ASCII whitespace characters.
pub open spec fn is_ascii_space(c: char) -> bool {
    c == ' ' || c == '\t' || c == '\n' || c == '\r' || c == '\x0C'
}

/// The words of `s`, with `cur` already read into the word in progress.
pub open spec fn words_acc(s: Seq<char>, cur: Seq<char>) -> Seq<Seq<char>>
    decreases s.len(),
{
    if s.len() == 0 {
        if cur.len() > 0 { seq![cur] } else { Seq::empty() }
    } else if is_ascii_space(s[0]) {
        (if cur.len() > 0 { seq![cur] } else { Seq::empty() }) + words_acc(s.drop_first(), Seq::empty())
    } else {
        words_acc(s.drop_first(), cur.push(s[0]))
    }
}

/// The non-empty runs of `s` between ASCII whitespace.
pub open spec fn words_spec(s: Seq<char>) -> Seq<Seq<char>> {
    words_acc(s, Seq::empty())
}

/// What follows the last `sep` in `s`, or all of `s` when it holds none.
pub open spec fn after_last(s: Seq<char>, sep: char) -> Seq<char>
    decreases s.len(),
{
    if s.len() == 0 {
        s
    } else if s.last() == sep {
        Seq::empty()
    } else {
        after_last(s.drop_last(), sep).push(s.last())
    }
}

/// What follows the first `sep` in `s`, or all of `s` when it holds none.
pub open spec fn after_first(s: Seq<char>, sep: char) -> Seq<char>
    decreases s.len(),
{
    if s.len() == 0 {
        s
    } else if s[0] == sep {
        s.drop_first()
    } else {
        after_first(s.drop_first(), sep)
    }
}

/// The character views of a list of strings.
pub open spec fn views(v: Seq<String>) -> Seq<Seq<char>> {
    v.map_values(|w: String| w@)
}

/// Splits `s` at every `sep`, keeping empty fields.
pub fn split_on(s: &str, sep: char) -> (r: Vec<String>)
    ensures
        views(r@) == split_spec(s@, sep),
{
    let n = s.unicode_len();
    let mut out: Vec<String> = Vec::new();
    let mut start: usize = 0;
    let mut i: usize = 0;
    assert(s@.subrange(0, n as int) =~= s@);
    assert(s@.subrange(0, 0) =~= Seq::<char>::empty());
    assert(views(out@) =~= Seq::<Seq<char>>::empty());
    assert(views(out@) + split_spec(s@, sep) =~= split_spec(s@, sep));
    while i < n
        invariant
            n == s@.len(),
            start <= i <= n,
            views(out@) + split_acc(s@.subrange(i as int, n as int), sep, s@.subrange(start as int, i as int))
                == split_spec(s@, sep),
        decreases n - i,
    {
        let c = s.get_char(i);
        let ghost rest = s@.subrange(i as int, n as int);
        assert(rest.drop_first() =~= s@.subrange(i + 1, n as int));
        assert(rest[0] == c);
        if c == sep {
            let field = s.substring_char(start, i).to_owned();
            let ghost before = views(out@);
            out.push(field);
            assert(views(out@) =~= before + seq![field@]);
            assert(s@.subrange(i + 1, i + 1) =~= Seq::<char>::empty());
            start = i + 1;
        } else {
            assert(s@.subrange(start as int, i as int).push(c) =~= s@.subrange(start as int, i + 1));
        }
        i = i + 1;
    }
    assert(s@.subrange(n as int, n as int) =~= Seq::<char>::empty());
    let field = s.substring_char(start, n).to_owned();
    let ghost before = views(out@);
    out.push(field);
    assert(views(out@) =~= before + seq![field@]);
    out
}

/// Splits `s` into its words: the non-empty runs between ASCII whitespace.
pub fn split_words(s: &str) -> (r: Vec<String>)
    ensures
        views(r@) == words_spec(s@),
{
    let n = s.unicode_len();
    let mut out: Vec<String> = Vec::new();
    let mut start: usize = 0;
    let mut i: usize = 0;
    assert(s@.subrange(0, n as int) =~= s@);
    assert(s@.subrange(0, 0) =~= Seq::<char>::empty());
    assert(views(out@) =~= Seq::<Seq<char>>::empty());
    assert(views(out@) + words_spec(s@) =~= words_spec(s@));
    while i < n
        invariant
            n == s@.len(),
            start <= i <= n,
            views(out@) + words_acc(s@.subrange(i as int, n as int), s@.subrange(start as int, i as int))
                == words_spec(s@),
        decreases n - i,
    {
        let c = s.get_char(i);
        let ghost rest = s@.subrange(i as int, n as int);
        assert(rest.drop_first() =~= s@.subrange(i + 1, n as int));
        assert(rest[0] == c);
        if c == ' ' || c == '\t' || c == '\n' || c == '\r' || c == '\x0C' {
            if start < i {
                let word = s.substring_char(start, i).to_owned();
                let ghost before = views(out@);
                out.push(word);
                assert(views(out@) =~= before + seq![word@]);
            } else {
                assert(views(out@) + Seq::<Seq<char>>::empty() =~= views(out@));
            }
            assert(s@.subrange(i + 1, i + 1) =~= Seq::<char>::empty());
            start = i + 1;
        } else {
            assert(s@.subrange(start as int, i as int).push(c) =~= s@.subrange(start as int, i + 1));
        }
        i = i + 1;
    }
    assert(s@.subrange(n as int, n as int) =~= Seq::<char>::empty());
    if start < n {
        let word = s.substring_char(start, n).to_owned();
        let ghost before = views(out@);
        out.push(word);
        assert(views(out@) =~= before + seq![word@]);
    } else {
        assert(views(out@) + Seq::<Seq<char>>::empty() =~= views(out@));
    }
    out
}

/// What follows the last `sep` in `s` (all of `s` when it holds none).
pub fn after_last_of(s: &str, sep: char) -> (r: String)
    ensures
        r@ == after_last(s@, sep),
{
    let n = s.unicode_len();
    let mut k: usize = n;
    assert(s@.subrange(0, n as int) =~= s@);
    assert(s@.subrange(n as int, n as int) =~= Seq::<char>::empty());
    assert(after_last(s@, sep) + Seq::<char>::empty() =~= after_last(s@, sep));
    while k > 0
        invariant
            n == s@.len(),
            k <= n,
            after_last(s@, sep) == after_last(s@.subrange(0, k as int), sep) + s@.subrange(k as int, n as int),
        decreases k,
    {
        let c = s.get_char(k - 1);
        let ghost pre = s@.subrange(0, k as int);
        assert(pre.drop_last() =~= s@.subrange(0, k - 1));
        assert(pre.last() == c);
        if c == sep {
            assert(after_last(pre, sep) =~= Seq::<char>::empty());
            assert(after_last(s@, sep) =~= s@.subrange(k as int, n as int));
            return s.substring_char(k, n).to_owned();
        }
        assert(after_last(pre, sep) == after_last(s@.subrange(0, k - 1), sep).push(c));
        assert(seq![c] + s@.subrange(k as int, n as int) =~= s@.subrange(k - 1, n as int));
        assert(after_last(s@.subrange(0, k - 1), sep).push(c) + s@.subrange(k as int, n as int)
            =~= after_last(s@.subrange(0, k - 1), sep) + s@.subrange(k - 1, n as int));
        k = k - 1;
    }
    assert(s@.subrange(0, 0) =~= Seq::<char>::empty());
    assert(s@.subrange(0, n as int) =~= s@);
    assert(after_last(s@, sep) =~= s@);
    s.to_owned()
}

/// What follows the first `sep` in `s` (all of `s` when it holds none).
pub fn after_first_of(s: &str, sep: char) -> (r: String)
    ensures
        r@ == if s@.contains(sep) { after_first(s@, sep) } else { s@ },
{
    let n = s.unicode_len();
    let mut k: usize = 0;
    assert(s@.subrange(0, n as int) =~= s@);
    while k < n
        invariant
            n == s@.len(),
            k <= n,
            forall|j: int| 0 <= j < k ==> s@[j] != sep,
            after_first(s@, sep) == after_first(s@.subrange(k as int, n as int), sep),
        decreases n - k,
    {
        let ghost rest = s@.subrange(k as int, n as int);
        assert(rest.drop_first() =~= s@.subrange(k + 1, n as int));
        if s.get_char(k) == sep {
            assert(s@.contains(sep));
            return s.substring_char(k + 1, n).to_owned();
        }
        k = k + 1;
    }
    assert(!s@.contains(sep));
    s.to_owned()
}

} // verus!
