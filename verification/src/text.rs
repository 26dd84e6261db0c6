//! Small text utilities shared by the other modules.
//!
//! Text is modelled as `Seq<char>`, the view of `str` and `String`. The
//! functions here move between strings and vectors of characters and cut a
//! text at a separator.

use vstd::prelude::*;
use vstd::string::StringExecFns;

verus! {

/// `String::push` appends one character to the end of the string.
pub assume_specification[ String::push ](s: &mut String, c: char)
    ensures
        final(s)@ == old(s)@.push(c),
;

/// `str == str` holds exactly when both hold the same characters.
pub assume_specification[ <str as PartialEq>::eq ](a: &str, b: &str) -> (r: bool)
    ensures
        r == (a@ == b@),
;

/// The pieces of `s` between occurrences of `sep`, in order. A text without
/// `sep` is one piece; two adjacent separators enclose an empty piece.
pub open spec fn split(s: Seq<char>, sep: char) -> Seq<Seq<char>>
    decreases s.len(),
{
    if s.len() == 0 {
        seq![Seq::<char>::empty()]
    } else {
        let before = split(s.drop_last(), sep);
        if s.last() == sep {
            before.push(Seq::<char>::empty())
        } else {
            before.drop_last().push(before.last().push(s.last()))
        }
    }
}

/// The pieces of `parts` put together again with `sep` between them.
pub open spec fn join(parts: Seq<Seq<char>>, sep: char) -> Seq<char>
    decreases parts.len(),
{
    if parts.len() == 0 {
        Seq::<char>::empty()
    } else if parts.len() == 1 {
        parts[0]
    } else {
        join(parts.drop_last(), sep).push(sep) + parts.last()
    }
}

/// The views of the strings of `v`, in order.
pub open spec fn views(v: Seq<String>) -> Seq<Seq<char>> {
    Seq::new(v.len(), |i: int| v[i]@)
}

/// `split` always yields at least one piece.
pub proof fn lemma_split_nonempty(s: Seq<char>, sep: char)
    ensures
        split(s, sep).len() >= 1,
    decreases s.len(),
{
    if s.len() > 0 {
        lemma_split_nonempty(s.drop_last(), sep);
    }
}

/// No piece of a split holds the separator, and joining the pieces with the
/// separator gives the text back: `split` loses nothing and invents nothing.
pub proof fn lemma_split_join(s: Seq<char>, sep: char)
    ensures
        join(split(s, sep), sep) == s,
        forall|i: int| 0 <= i < split(s, sep).len() ==> !(#[trigger] split(s, sep)[i]).contains(sep),
    decreases s.len(),
{
    lemma_split_nonempty(s, sep);
    if s.len() == 0 {
        assert(join(split(s, sep), sep) =~= s);
    } else {
        let init = s.drop_last();
        let before = split(init, sep);
        lemma_split_nonempty(init, sep);
        lemma_split_join(init, sep);
        let now = split(s, sep);
        if s.last() == sep {
            assert(now.drop_last() =~= before);
            assert(join(now, sep) =~= join(before, sep).push(sep) + Seq::<char>::empty());
            assert(join(now, sep) =~= init.push(sep));
            assert(init.push(sep) =~= s);
            assert forall|i: int| 0 <= i < now.len() implies !(#[trigger] now[i]).contains(sep) by {
                if i < before.len() {
                    assert(now[i] == before[i]);
                }
            }
        } else {
            let grown = before.last().push(s.last());
            assert(now.last() == grown);
            if before.len() == 1 {
                assert(join(before, sep) == before[0]);
                assert(join(now, sep) == grown);
                assert(grown =~= init.push(s.last()));
            } else {
                assert(now.drop_last() =~= before.drop_last());
                assert(join(before, sep) == join(before.drop_last(), sep).push(sep) + before.last());
                assert(join(now, sep) == join(before.drop_last(), sep).push(sep) + grown);
                assert(join(now, sep) =~= join(before, sep).push(s.last()));
            }
            assert(init.push(s.last()) =~= s);
            assert forall|i: int| 0 <= i < now.len() implies !(#[trigger] now[i]).contains(sep) by {
                if i < before.len() - 1 {
                    assert(now[i] == before[i]);
                } else {
                    assert(!before.last().contains(sep));
                    assert forall|k: int| 0 <= k < grown.len() implies grown[k] != sep by {
                        if k < before.last().len() {
                            assert(before.last()[k] == grown[k]);
                            assert(before.last().contains(grown[k]));
                        }
                    }
                }
            }
        }
    }
}

/// The position of the first `c` in `s`; the length of `s` where it holds
/// none.
pub open spec fn first_index_of(s: Seq<char>, c: char) -> int
    decreases s.len(),
{
    if s.len() == 0 || s[0] == c {
        0
    } else {
        1 + first_index_of(s.skip(1), c)
    }
}

/// `first_index_of` is the one position before which no `c` stands and at
/// which one does, if the text holds any.
pub proof fn lemma_first_index_of(s: Seq<char>, c: char, i: int)
    requires
        0 <= i <= s.len(),
        forall|k: int| 0 <= k < i ==> s[k] != c,
        i < s.len() ==> s[i] == c,
    ensures
        first_index_of(s, c) == i,
    decreases s.len(),
{
    if s.len() > 0 && s[0] != c {
        let rest = s.skip(1);
        assert forall|k: int| 0 <= k < i - 1 implies rest[k] != c by {
            assert(rest[k] == s[k + 1]);
        }
        lemma_first_index_of(rest, c, i - 1);
    }
}

/// The characters of `s`, in order.
pub fn chars_of(s: &str) -> (v: Vec<char>)
    ensures
        v@ == s@,
{
    let mut v: Vec<char> = Vec::new();
    for c in it: s.chars()
        invariant
            v@ == it.seq().take(it.index() as int),
    {
        v.push(c);
    }
    v
}

/// The string made of the characters `v[from..to]`.
pub fn string_of(v: &Vec<char>, from: usize, to: usize) -> (s: String)
    requires
        from <= to <= v.len(),
    ensures
        s@ == v@.subrange(from as int, to as int),
{
    let mut s = String::new();
    let mut i: usize = from;
    while i < to
        invariant
            from <= i <= to <= v.len(),
            s@ == v@.subrange(from as int, i as int),
        decreases to - i,
    {
        s.push(v[i]);
        i += 1;
    }
    s
}

/// A copy of `s`.
pub fn copy_of(s: &str) -> (r: String)
    ensures
        r@ == s@,
{
    s.to_owned()
}

/// Cuts `s` at every `sep`.
pub fn split_text(s: &str, sep: char) -> (parts: Vec<String>)
    ensures
        views(parts@) == split(s@, sep),
{
    let chars = chars_of(s);
    let mut parts: Vec<String> = Vec::new();
    let mut start: usize = 0;
    let mut i: usize = 0;
    proof {
        assert(chars@.take(0).len() == 0);
        assert(chars@.subrange(0, 0) =~= Seq::<char>::empty());
        assert(views(parts@).push(chars@.subrange(0, 0)) =~= seq![Seq::<char>::empty()]);
    }
    while i < chars.len()
        invariant
            start <= i <= chars.len(),
            chars@ == s@,
            split(chars@.take(i as int), sep) == views(parts@).push(
                chars@.subrange(start as int, i as int),
            ),
        decreases chars.len() - i,
    {
        proof {
            let now = chars@.take(i + 1);
            assert(now.drop_last() =~= chars@.take(i as int));
            assert(now.last() == chars@[i as int]);
        }
        if chars[i] == sep {
            let piece = string_of(&chars, start, i);
            let ghost before = views(parts@);
            parts.push(piece);
            start = i + 1;
            proof {
                assert(views(parts@) =~= before.push(piece@));
                assert(chars@.subrange(start as int, i + 1) =~= Seq::<char>::empty());
            }
        } else {
            proof {
                let open = chars@.subrange(start as int, i as int);
                assert(views(parts@).push(open).drop_last() =~= views(parts@));
                assert(chars@.subrange(start as int, i + 1) =~= open.push(chars@[i as int]));
            }
        }
        i += 1;
    }
    let piece = string_of(&chars, start, i);
    let ghost before = views(parts@);
    parts.push(piece);
    proof {
        assert(chars@.take(i as int) =~= chars@);
        assert(views(parts@) =~= before.push(piece@));
    }
    parts
}

/// The strings `parts[from..]` put together with `sep` between them.
pub fn join_text(parts: &Vec<String>, from: usize, sep: char) -> (text: String)
    requires
        from <= parts.len(),
    ensures
        text@ == join(views(parts@).skip(from as int), sep),
{
    let ghost rest = views(parts@).skip(from as int);
    let mut text = String::new();
    let mut k: usize = from;
    proof {
        assert(rest.take(0) =~= Seq::<Seq<char>>::empty());
    }
    while k < parts.len()
        invariant
            from <= k <= parts.len(),
            rest == views(parts@).skip(from as int),
            text@ == join(rest.take(k - from), sep),
        decreases parts.len() - k,
    {
        proof {
            let now = rest.take(k - from + 1);
            assert(now.drop_last() =~= rest.take(k - from));
            assert(now.last() == parts@[k as int]@);
            if k == from {
                assert(now.len() == 1);
                assert(text@ + parts@[k as int]@ =~= now[0]);
            }
        }
        if k > from {
            text.push(sep);
        }
        text.append(parts[k].as_str());
        k += 1;
    }
    proof {
        assert(rest.take(k - from) =~= rest);
    }
    text
}

} // verus!
