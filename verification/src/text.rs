//! Reading strings character by character.

use vstd::prelude::*;

verus! {

/// The characters of `s`, in order.
pub fn chars_of(s: &str) -> (v: Vec<char>)
    ensures
        v@ == s@,
{
    let mut v: Vec<char> = Vec::new();
    for c in it: s.chars()
        invariant
            it.seq() == s@,
            v@ == it.seq().take(it.index() as int),
    {
        v.push(c);
        proof {
            assert(v@ =~= it.seq().take(it.index() + 1));
        }
    }
    proof {
        assert(v@ =~= s@);
    }
    v
}

/// The text of a string that may be absent.
pub open spec fn text_of(s: Option<&str>) -> Option<Seq<char>> {
    match s {
        Some(s) => Some(s@),
        None => None,
    }
}

/// Whether two strings hold the same text.
pub fn same_text(a: &str, b: &str) -> (same: bool)
    ensures
        same == (a@ == b@),
{
    let left = chars_of(a);
    let right = chars_of(b);
    if left.len() != right.len() {
        return false;
    }
    let mut i: usize = 0;
    while i < left.len()
        invariant
            i <= left.len(),
            left.len() == right.len(),
            left@ == a@,
            right@ == b@,
            forall|j: int| 0 <= j < i ==> left@[j] == right@[j],
        decreases left.len() - i,
    {
        if left[i] != right[i] {
            return false;
        }
        i += 1;
    }
    proof {
        assert(a@ =~= b@);
    }
    true
}

/// Whether `s` begins with `prefix`.
pub fn starts_with(s: &str, prefix: &str) -> (found: bool)
    ensures
        found == prefix@.is_prefix_of(s@),
{
    let text = chars_of(s);
    let head = chars_of(prefix);
    if head.len() > text.len() {
        return false;
    }
    let mut i: usize = 0;
    while i < head.len()
        invariant
            i <= head.len() <= text.len(),
            text@ == s@,
            head@ == prefix@,
            forall|j: int| 0 <= j < i ==> head@[j] == text@[j],
        decreases head.len() - i,
    {
        if head[i] != text[i] {
            assert(prefix@[i as int] != s@.subrange(0, prefix@.len() as int)[i as int]);
            return false;
        }
        i += 1;
    }
    proof {
        assert(prefix@ =~= s@.subrange(0, prefix@.len() as int));
    }
    true
}

/// The position of the first `/` of `s` at or after `from`, or the length of
/// `s` if there is none.
pub open spec fn next_slash(s: Seq<char>, from: int) -> int
    decreases s.len() - from,
{
    if from < 0 || from >= s.len() {
        s.len() as int
    } else if s[from] == '/' {
        from
    } else {
        next_slash(s, from + 1)
    }
}

/// What is left of `s` from position `from` on, cut at each `/` into at
/// most `limit` segments. The slashes belong to no segment, except that the
/// last of `limit` segments is all the rest.
pub open spec fn segments(s: Seq<char>, from: int, limit: nat) -> Seq<Seq<char>>
    decreases limit,
{
    if limit == 0 {
        Seq::empty()
    } else {
        let end = next_slash(s, from);
        if limit == 1 || end >= s.len() {
            seq![s.subrange(from, s.len() as int)]
        } else {
            seq![s.subrange(from, end)] + segments(s, end + 1, (limit - 1) as nat)
        }
    }
}

/// The text of each string of `parts`.
pub open spec fn texts(parts: Seq<&str>) -> Seq<Seq<char>> {
    Seq::new(parts.len(), |i: int| parts[i]@)
}

/// Where `next_slash` lies.
pub proof fn lemma_next_slash(s: Seq<char>, from: int)
    requires
        0 <= from <= s.len(),
    ensures
        from <= next_slash(s, from) <= s.len(),
        forall|i: int| from <= i < next_slash(s, from) ==> s[i] != '/',
        next_slash(s, from) < s.len() ==> s[next_slash(s, from)] == '/',
    decreases s.len() - from,
{
    if from < s.len() && s[from] != '/' {
        lemma_next_slash(s, from + 1);
    }
}

/// Cuts `s` at each `/` into at most `limit` segments; the last of `limit`
/// segments is all the rest, slashes included.
pub fn split<'a>(s: &'a str, limit: usize) -> (parts: Vec<&'a str>)
    ensures
        texts(parts@) == segments(s@, 0, limit as nat),
        parts@.len() <= limit,
{
    let chars = chars_of(s);
    let n: usize = chars.len();
    let mut parts: Vec<&'a str> = Vec::new();
    let mut from: usize = 0;
    let mut open: bool = limit > 0;
    proof {
        assert(texts(parts@) =~= Seq::<Seq<char>>::empty());
        assert(Seq::<Seq<char>>::empty() + segments(s@, 0, limit as nat) =~= segments(
            s@,
            0,
            limit as nat,
        ));
    }
    while open
        invariant
            chars@ == s@,
            n == s@.len(),
            from <= n,
            parts.len() <= limit,
            open ==> parts.len() < limit,
            open ==> segments(s@, 0, limit as nat) == texts(parts@) + segments(
                s@,
                from as int,
                (limit - parts.len()) as nat,
            ),
            !open ==> segments(s@, 0, limit as nat) == texts(parts@),
        decreases
                if open {
                    1 + limit - parts.len()
                } else {
                    0
                },
    {
        let mut end: usize = from;
        if parts.len() + 1 == limit {
            end = n;
        } else {
            while end < n && chars[end] != '/'
                invariant
                    from <= end <= n,
                    chars@ == s@,
                    n == s@.len(),
                    next_slash(s@, from as int) == next_slash(s@, end as int),
                decreases n - end,
            {
                end += 1;
            }
        }
        let part = s.substring_char(from, end);
        let ghost before = texts(parts@);
        let ghost left = (limit - parts.len()) as nat;
        parts.push(part);
        proof {
            assert(texts(parts@) =~= before + seq![part@]);
            if left == 1 {
            } else {
                assert(next_slash(s@, from as int) == end);
                if end < n {
                    assert(before + (seq![part@] + segments(s@, end + 1, (left - 1) as nat))
                        =~= (before + seq![part@]) + segments(s@, end + 1, (left - 1) as nat));
                }
            }
        }
        if end >= n {
            open = false;
        } else {
            from = end + 1;
        }
    }
    parts
}

/// Whether `s` is free of slashes.
pub open spec fn no_slash(s: Seq<char>) -> bool {
    forall|i: int| 0 <= i < s.len() ==> s[i] != '/'
}

/// Text in front moves the first slash by its length.
proof fn lemma_next_slash_shift(front: Seq<char>, rest: Seq<char>, from: int)
    requires
        0 <= from <= rest.len(),
    ensures
        next_slash(front + rest, front.len() + from) == front.len() + next_slash(rest, from),
    decreases rest.len() - from,
{
    if from < rest.len() {
        assert((front + rest)[front.len() + from] == rest[from]);
        if rest[from] != '/' {
            lemma_next_slash_shift(front, rest, from + 1);
        }
    }
}

/// Text in front of the starting position does not change the segments.
proof fn lemma_segments_shift(front: Seq<char>, rest: Seq<char>, from: int, limit: nat)
    requires
        0 <= from <= rest.len(),
    ensures
        segments(front + rest, front.len() + from, limit) == segments(rest, from, limit),
    decreases limit,
{
    if limit > 0 {
        let s = front + rest;
        lemma_next_slash_shift(front, rest, from);
        lemma_next_slash(rest, from);
        let end = next_slash(rest, from);
        assert(s.subrange(front.len() + from, s.len() as int) =~= rest.subrange(
            from,
            rest.len() as int,
        ));
        if !(limit == 1 || end >= rest.len()) {
            assert(s.subrange(front.len() + from, front.len() + end) =~= rest.subrange(from, end));
            lemma_segments_shift(front, rest, end + 1, (limit - 1) as nat);
        }
    }
}

/// A piece without a slash, followed by a slash, is the first segment; the
/// other segments are those of what follows.
pub proof fn lemma_segments_cons(piece: Seq<char>, rest: Seq<char>, limit: nat)
    requires
        no_slash(piece),
        limit >= 2,
    ensures
        segments(piece + seq!['/'] + rest, 0, limit) == seq![piece] + segments(
            rest,
            0,
            (limit - 1) as nat,
        ),
{
    let front = piece + seq!['/'];
    let s = front + rest;
    lemma_next_slash(s, 0);
    let end = next_slash(s, 0);
    assert(s[piece.len() as int] == '/');
    assert(forall|i: int| 0 <= i < piece.len() ==> s[i] == piece[i]);
    assert(end == piece.len());
    assert(s.subrange(0, end) =~= piece);
    lemma_segments_shift(front, rest, 0, (limit - 1) as nat);
}

/// Text without a slash is one segment, and so is any text when one
/// segment is the limit.
pub proof fn lemma_segments_last(piece: Seq<char>, limit: nat)
    requires
        limit >= 1,
        limit == 1 || no_slash(piece),
    ensures
        segments(piece, 0, limit) == seq![piece],
{
    lemma_next_slash(piece, 0);
    assert(piece.subrange(0, piece.len() as int) =~= piece);
}

} // verus!
