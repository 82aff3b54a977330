//! Character-level scanning over text: finding a delimiter, cutting a word,
//! splitting on a separator and comparing two texts.
use vstd::prelude::*;
use vstd::string::*;

verus! {

/// A character that ends a word of the request line.
pub open spec fn is_word_end(c: char) -> bool {
    c == ' ' || c == '\r'
}

/// The index of the first word end in `s`, or `s.len()` when there is none.
pub open spec fn word_end(s: Seq<char>) -> int
    decreases s.len(),
{
    if s.len() == 0 {
        0
    } else {
        let p = word_end(s.drop_last());
        if p < s.len() - 1 {
            p
        } else if is_word_end(s.last()) {
            s.len() - 1
        } else {
            s.len() as int
        }
    }
}

/// The index of the first `d` in `s`, or `s.len()` when there is none.
pub open spec fn char_pos(s: Seq<char>, d: char) -> int
    decreases s.len(),
{
    if s.len() == 0 {
        0
    } else {
        let p = char_pos(s.drop_last(), d);
        if p < s.len() - 1 {
            p
        } else if s.last() == d {
            s.len() - 1
        } else {
            s.len() as int
        }
    }
}

/// The first word of `s` and what follows its delimiter, or `None` when `s`
/// holds no word end.
pub open spec fn next_word(s: Seq<char>) -> Option<(Seq<char>, Seq<char>)> {
    let k = word_end(s);
    if k < s.len() {
        Some((s.subrange(0, k), s.subrange(k + 1, s.len() as int)))
    } else {
        None
    }
}

/// The pieces of `s` between the occurrences of `d`: one more piece than
/// there are occurrences.
pub open spec fn split_on(s: Seq<char>, d: char) -> Seq<Seq<char>>
    decreases s.len(),
{
    if s.len() == 0 {
        seq![Seq::empty()]
    } else {
        let p = split_on(s.drop_last(), d);
        if s.last() == d {
            p.push(Seq::empty())
        } else {
            p.update(p.len() - 1, p.last().push(s.last()))
        }
    }
}

pub proof fn lemma_word_end_bounds(s: Seq<char>)
    ensures
        0 <= word_end(s) <= s.len(),
        word_end(s) < s.len() ==> is_word_end(s[word_end(s)]),
        forall|j: int| 0 <= j < word_end(s) ==> !is_word_end(#[trigger] s[j]),
    decreases s.len(),
{
    if s.len() > 0 {
        lemma_word_end_bounds(s.drop_last());
        assert forall|j: int| 0 <= j < word_end(s) implies !is_word_end(#[trigger] s[j]) by {
            if j < s.len() - 1 {
                assert(s[j] == s.drop_last()[j]);
            }
        }
    }
}

pub proof fn lemma_char_pos_bounds(s: Seq<char>, d: char)
    ensures
        0 <= char_pos(s, d) <= s.len(),
        char_pos(s, d) < s.len() ==> s[char_pos(s, d)] == d,
        forall|j: int| 0 <= j < char_pos(s, d) ==> #[trigger] s[j] != d,
    decreases s.len(),
{
    if s.len() > 0 {
        lemma_char_pos_bounds(s.drop_last(), d);
        assert forall|j: int| 0 <= j < char_pos(s, d) implies #[trigger] s[j] != d by {
            if j < s.len() - 1 {
                assert(s[j] == s.drop_last()[j]);
            }
        }
    }
}

/// A text with no word end has its word end at its length.
pub proof fn lemma_word_end_absent(s: Seq<char>)
    requires
        forall|j: int| 0 <= j < s.len() ==> !is_word_end(#[trigger] s[j]),
    ensures
        word_end(s) == s.len(),
    decreases s.len(),
{
    if s.len() > 0 {
        assert forall|j: int| 0 <= j < s.drop_last().len() implies !is_word_end(
            #[trigger] s.drop_last()[j],
        ) by {
            assert(s.drop_last()[j] == s[j]);
        }
        lemma_word_end_absent(s.drop_last());
    }
}

/// Text after the first word end does not move it.
pub proof fn lemma_word_end_extend(s: Seq<char>, t: Seq<char>)
    requires
        word_end(s) < s.len(),
    ensures
        word_end(s + t) == word_end(s),
    decreases t.len(),
{
    if t.len() > 0 {
        lemma_word_end_extend(s, t.drop_last());
        assert((s + t).drop_last() =~= s + t.drop_last());
        lemma_word_end_bounds(s);
    }
}

/// The index of the first word end in `s`, if there is one.
pub fn find_word_end(s: &str) -> (r: Option<usize>)
    ensures
        match r {
            Some(k) => k < s@.len() && k == word_end(s@),
            None => word_end(s@) == s@.len(),
        },
{
    let n = s.unicode_len();
    let mut i: usize = 0;
    while i < n
        invariant
            n == s@.len(),
            i <= n,
            word_end(s@.subrange(0, i as int)) == i,
        decreases n - i,
    {
        let c = s.get_char(i);
        assert(s@.subrange(0, i + 1).drop_last() =~= s@.subrange(0, i as int));
        if c == ' ' || c == '\r' {
            assert(word_end(s@.subrange(0, i + 1)) == i);
            proof {
                lemma_word_end_extend(s@.subrange(0, i + 1), s@.subrange(i + 1, n as int));
                assert(s@.subrange(0, i + 1) + s@.subrange(i + 1, n as int) =~= s@);
            }
            return Some(i);
        }
        i = i + 1;
    }
    assert(s@.subrange(0, n as int) =~= s@);
    None
}

/// The index of the first `d` in `s`, if there is one.
pub fn find_char(s: &str, d: char) -> (r: Option<usize>)
    ensures
        match r {
            Some(k) => k < s@.len() && k == char_pos(s@, d),
            None => char_pos(s@, d) == s@.len(),
        },
{
    let n = s.unicode_len();
    let mut i: usize = 0;
    while i < n
        invariant
            n == s@.len(),
            i <= n,
            char_pos(s@.subrange(0, i as int), d) == i,
        decreases n - i,
    {
        let c = s.get_char(i);
        assert(s@.subrange(0, i + 1).drop_last() =~= s@.subrange(0, i as int));
        if c == d {
            proof {
                lemma_char_pos_extend(s@.subrange(0, i + 1), s@.subrange(i + 1, n as int), d);
                assert(s@.subrange(0, i + 1) + s@.subrange(i + 1, n as int) =~= s@);
            }
            return Some(i);
        }
        i = i + 1;
    }
    assert(s@.subrange(0, n as int) =~= s@);
    None
}

/// Text after the first `d` does not move it.
pub proof fn lemma_char_pos_extend(s: Seq<char>, t: Seq<char>, d: char)
    requires
        char_pos(s, d) < s.len(),
    ensures
        char_pos(s + t, d) == char_pos(s, d),
    decreases t.len(),
{
    if t.len() > 0 {
        lemma_char_pos_extend(s, t.drop_last(), d);
        assert((s + t).drop_last() =~= s + t.drop_last());
        lemma_char_pos_bounds(s, d);
    }
}

/// Cuts off the first word of `s`: the text before the first space or
/// carriage return, and the text after it. `None` when there is no such
/// delimiter.
pub fn get_next_word(s: &str) -> (r: Option<(&str, &str)>)
    ensures
        match r {
            Some((w, rest)) => next_word(s@) == Some((w@, rest@)),
            None => next_word(s@).is_none(),
        },
{
    match find_word_end(s) {
        Some(k) => {
            let n = s.unicode_len();
            let w = s.substring_char(0, k);
            let rest = s.substring_char(k + 1, n);
            Some((w, rest))
        },
        None => None,
    }
}

/// Whether two texts hold the same characters.
pub fn same_text(a: &str, b: &str) -> (r: bool)
    ensures
        r == (a@ == b@),
{
    let n = a.unicode_len();
    let m = b.unicode_len();
    if n != m {
        return false;
    }
    let mut i: usize = 0;
    while i < n
        invariant
            n == a@.len(),
            m == b@.len(),
            n == m,
            i <= n,
            forall|j: int| 0 <= j < i ==> a@[j] == b@[j],
        decreases n - i,
    {
        if a.get_char(i) != b.get_char(i) {
            return false;
        }
        i = i + 1;
    }
    assert(a@ =~= b@);
    true
}

/// The pieces of `s` between the occurrences of `d`, in order.
pub fn split_text(s: &str, d: char) -> (r: Vec<&str>)
    ensures
        r@.map_values(|p: &str| p@) == split_on(s@, d),
{
    let n = s.unicode_len();
    let mut pieces: Vec<&str> = Vec::new();
    let mut start: usize = 0;
    let mut i: usize = 0;
    assert(s@.subrange(0, 0) =~= Seq::<char>::empty());
    assert(split_on(s@.subrange(0, 0), d) == seq![Seq::<char>::empty()]);
    assert(pieces@.map_values(|p: &str| p@).push(s@.subrange(0, 0)) =~= seq![
        Seq::<char>::empty(),
    ]);
    while i < n
        invariant
            n == s@.len(),
            start <= i <= n,
            pieces@.map_values(|p: &str| p@).push(s@.subrange(start as int, i as int))
                == split_on(s@.subrange(0, i as int), d),
        decreases n - i,
    {
        let c = s.get_char(i);
        let ghost prev = pieces@.map_values(|p: &str| p@);
        assert(s@.subrange(0, i + 1).drop_last() =~= s@.subrange(0, i as int));
        if c == d {
            let piece = s.substring_char(start, i);
            pieces.push(piece);
            assert(pieces@.map_values(|p: &str| p@) =~= prev.push(piece@));
            assert(s@.subrange((i + 1) as int, (i + 1) as int) =~= Seq::<char>::empty());
            start = i + 1;
        } else {
            assert(s@.subrange(start as int, i + 1) =~= s@.subrange(start as int, i as int).push(
                c,
            ));
            assert(prev.push(s@.subrange(start as int, i + 1)) =~= prev.push(
                s@.subrange(start as int, i as int),
            ).update(prev.len() as int, s@.subrange(start as int, i as int).push(c)));
        }
        i = i + 1;
    }
    let last = s.substring_char(start, n);
    pieces.push(last);
    assert(s@.subrange(0, n as int) =~= s@);
    pieces
}

} // verus!
