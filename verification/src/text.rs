//! Text: pieces between separators, white space at the ends, and placeholders filled in.

use vstd::prelude::*;

verus! {

// ---------------------------------------------------------------------------
// Strings and characters
// ---------------------------------------------------------------------------
/// `String::push` appends the character to the end of the string.
pub assume_specification[ String::push ](s: &mut String, c: char)
    ensures
        final(s)@ == old(s)@.push(c),
;

/// The characters of `s`, in order.
pub fn chars_of(s: &str) -> (r: Vec<char>)
    ensures
        r@ == s@,
{
    let mut out: Vec<char> = Vec::new();
    for c in it: s.chars()
        invariant
            it.seq() == s@,
            out@ == s@.take(it.index()),
    {
        out.push(c);
    }
    assert(s@.take(s@.len() as int) == s@);
    out
}

/// The string made of the given characters.
pub fn string_of(chars: &[char]) -> (r: String)
    ensures
        r@ == chars@,
{
    let mut out = String::new();
    let mut i: usize = 0;
    while i < chars.len()
        invariant
            i <= chars@.len(),
            out@ == chars@.take(i as int),
        decreases chars@.len() - i,
    {
        out.push(chars[i]);
        i += 1;
        assert(chars@.take(i as int) == chars@.take(i - 1).push(chars@[i - 1]));
    }
    assert(chars@.take(i as int) == chars@);
    out
}

/// Whether two runs of characters are the same.
pub fn same(a: &[char], b: &[char]) -> (r: bool)
    ensures
        r == (a@ == b@),
{
    if a.len() != b.len() {
        return false;
    }
    let mut i: usize = 0;
    while i < a.len()
        invariant
            a@.len() == b@.len(),
            i <= a@.len(),
            forall|j: int| 0 <= j < i ==> a@[j] == b@[j],
        decreases a@.len() - i,
    {
        if a[i] != b[i] {
            return false;
        }
        i += 1;
    }
    assert(a@ == b@);
    true
}

/// The characters `from..to` of `chars`.
pub fn piece(chars: &[char], from: usize, to: usize) -> (r: Vec<char>)
    requires
        from <= to <= chars@.len(),
    ensures
        r@ == chars@.subrange(from as int, to as int),
{
    let mut out: Vec<char> = Vec::new();
    let mut i: usize = from;
    while i < to
        invariant
            from <= i <= to <= chars@.len(),
            out@ == chars@.subrange(from as int, i as int),
        decreases to - i,
    {
        out.push(chars[i]);
        i += 1;
        assert(chars@.subrange(from as int, i as int) == chars@.subrange(
            from as int,
            i - 1,
        ).push(chars@[i - 1]));
    }
    out
}

// ---------------------------------------------------------------------------
// Separators
// ---------------------------------------------------------------------------
/// The pieces of `s` between the occurrences of `sep`: one more than there are
/// occurrences.
pub open spec fn split(s: Seq<char>, sep: char) -> Seq<Seq<char>>
    decreases s.len(),
{
    if s.len() == 0 {
        seq![Seq::<char>::empty()]
    } else {
        let head = split(s.drop_last(), sep);
        if s.last() == sep {
            head.push(Seq::<char>::empty())
        } else {
            head.drop_last().push(head.last().push(s.last()))
        }
    }
}

/// The pieces written one after the other with `sep` between them.
pub open spec fn joined(pieces: Seq<Seq<char>>, sep: char) -> Seq<char>
    decreases pieces.len(),
{
    if pieces.len() == 0 {
        Seq::<char>::empty()
    } else if pieces.len() == 1 {
        pieces[0]
    } else {
        joined(pieces.drop_last(), sep).push(sep) + pieces.last()
    }
}

/// The place of the first `c` in `s`, or the length of `s` where there is none.
pub open spec fn first_at(s: Seq<char>, c: char) -> int
    decreases s.len(),
{
    if s.len() == 0 || s[0] == c {
        0
    } else {
        1 + first_at(s.skip(1), c)
    }
}

/// What stands in `s` before the first `c` (all of `s` where there is none).
pub open spec fn before(s: Seq<char>, c: char) -> Seq<char> {
    s.take(first_at(s, c))
}

/// What stands in `s` behind the first `c`, where there is one.
pub open spec fn behind(s: Seq<char>, c: char) -> Option<Seq<char>> {
    if s.contains(c) {
        Some(s.skip(first_at(s, c) + 1))
    } else {
        None
    }
}

/// `first_at` is the one place whose left holds no `c` and at which `c` stands,
/// or the end.
pub proof fn lemma_first_at(s: Seq<char>, c: char)
    ensures
        0 <= first_at(s, c) <= s.len(),
        forall|j: int| 0 <= j < first_at(s, c) ==> s[j] != c,
        first_at(s, c) < s.len() ==> s[first_at(s, c)] == c,
        s.contains(c) <==> first_at(s, c) < s.len(),
    decreases s.len(),
{
    if s.len() > 0 && s[0] != c {
        let t = s.skip(1);
        lemma_first_at(t, c);
        assert forall|j: int| 0 <= j < first_at(s, c) implies s[j] != c by {
            if j > 0 {
                assert(t[j - 1] == s[j]);
            }
        }
        if s.contains(c) {
            let k = s.index_of(c);
            assert(t[k - 1] == c);
        }
    }
}

/// A place whose left holds no `c` and at which `c` stands, or the end, is
/// `first_at`.
pub proof fn lemma_first_at_is(s: Seq<char>, c: char, i: int)
    requires
        0 <= i <= s.len(),
        forall|j: int| 0 <= j < i ==> s[j] != c,
        i < s.len() ==> s[i] == c,
    ensures
        first_at(s, c) == i,
{
    lemma_first_at(s, c);
    let k = first_at(s, c);
    if k < i {
        assert(s[k] != c);
    }
    if i < k {
        assert(s[i] != c);
    }
}

/// A text is cut at its first `c`: what stands before it holds none, and before, `c` and
/// behind together are the text. A text without `c` stands before it as a whole.
pub proof fn law_before_behind(s: Seq<char>, c: char)
    ensures
        !before(s, c).contains(c),
        behind(s, c) is Some <==> s.contains(c),
        behind(s, c) matches Some(rest) ==> s == before(s, c).push(c) + rest,
        behind(s, c) is None ==> before(s, c) == s,
{
    lemma_first_at(s, c);
    let k = first_at(s, c);
    if before(s, c).contains(c) {
        let j = before(s, c).index_of(c);
        assert(s[j] == c);
    }
    if k < s.len() {
        assert(s == s.take(k).push(c) + s.skip(k + 1));
    } else {
        assert(s.take(k) == s);
    }
}

/// Joining writes a separator between each two pieces and none elsewhere.
pub proof fn law_joined(pieces: Seq<Seq<char>>, p: Seq<char>, sep: char)
    ensures
        joined(seq![p], sep) == p,
        pieces.len() >= 1 ==> joined(pieces.push(p), sep) == joined(pieces, sep) + seq![sep] + p,
{
    if pieces.len() >= 1 {
        assert(pieces.push(p).drop_last() == pieces);
        assert(joined(pieces, sep).push(sep) + p == joined(pieces, sep) + seq![sep] + p);
    }
}

/// The place of the first `c` in `chars`, or its length.
pub fn find(chars: &[char], c: char) -> (r: usize)
    ensures
        r == first_at(chars@, c),
        r <= chars@.len(),
{
    let mut i: usize = 0;
    while i < chars.len()
        invariant
            i <= chars@.len(),
            forall|j: int| 0 <= j < i ==> chars@[j] != c,
        decreases chars@.len() - i,
    {
        if chars[i] == c {
            proof {
                lemma_first_at_is(chars@, c, i as int);
            }
            return i;
        }
        i += 1;
    }
    proof {
        lemma_first_at_is(chars@, c, i as int);
    }
    i
}

/// The contents of a list of character runs.
pub open spec fn runs(v: Seq<Vec<char>>) -> Seq<Seq<char>> {
    Seq::new(v.len(), |i: int| v[i]@)
}

/// A list of runs holds the characters of each, in order.
pub proof fn law_runs(v: Seq<Vec<char>>, i: int)
    ensures
        runs(v).len() == v.len(),
        0 <= i < v.len() ==> runs(v)[i] == v[i]@,
{
}

/// Cuts `chars` at every `sep`.
pub fn split_at_each(chars: &[char], sep: char) -> (r: Vec<Vec<char>>)
    ensures
        runs(r@) == split(chars@, sep),
{
    let mut out: Vec<Vec<char>> = Vec::new();
    let mut cur: Vec<char> = Vec::new();
    let mut i: usize = 0;
    assert(runs(out@).push(cur@) == split(chars@.take(0), sep));
    while i < chars.len()
        invariant
            i <= chars@.len(),
            runs(out@).push(cur@) == split(chars@.take(i as int), sep),
        decreases chars@.len() - i,
    {
        let c = chars[i];
        let ghost before = runs(out@).push(cur@);
        proof {
            let t = chars@.take(i + 1);
            assert(t.drop_last() == chars@.take(i as int));
            assert(t.last() == c);
            assert(before.drop_last() == runs(out@));
        }
        if c == sep {
            out.push(cur);
            assert(runs(out@) == before);
            cur = Vec::new();
        } else {
            cur.push(c);
        }
        i += 1;
    }
    assert(chars@.take(i as int) == chars@);
    let ghost prev = runs(out@).push(cur@);
    out.push(cur);
    assert(runs(out@) == prev);
    out
}

/// There is always at least one piece, no piece holds the separator, and the
/// pieces joined by the separator give the text back.
pub proof fn law_split_join(s: Seq<char>, sep: char)
    ensures
        split(s, sep).len() >= 1,
        forall|i: int| 0 <= i < split(s, sep).len() ==> !(#[trigger] split(s, sep)[i]).contains(sep),
        joined(split(s, sep), sep) == s,
    decreases s.len(),
{
    if s.len() > 0 {
        let t = s.drop_last();
        let head = split(t, sep);
        law_split_join(t, sep);
        let all = split(s, sep);
        if s.last() == sep {
            assert(all.drop_last() == head);
            assert(joined(all, sep) == t.push(sep) + Seq::<char>::empty());
            assert(joined(all, sep) == s);
        } else {
            assert forall|i: int| 0 <= i < all.len() implies !(#[trigger] all[i]).contains(sep) by {
                if i == all.len() - 1 {
                    assert(!head[i].contains(sep));
                    let p = head.last().push(s.last());
                    if p.contains(sep) {
                        let k = p.index_of(sep);
                        assert(head.last()[k] == sep);
                    }
                } else {
                    assert(all[i] == head[i]);
                }
            }
            assert(all.drop_last() == head.drop_last());
            if all.len() == 1 {
                assert(head[0].push(s.last()) == s);
            } else {
                assert(joined(head, sep) == joined(head.drop_last(), sep).push(sep) + head.last());
                assert(joined(all, sep) == joined(head, sep).push(s.last()));
            }
            assert(t.push(s.last()) == s);
        }
    }
}

/// A text without the separator is one piece.
pub proof fn lemma_split_whole(s: Seq<char>, sep: char)
    requires
        !s.contains(sep),
    ensures
        split(s, sep) == seq![s],
    decreases s.len(),
{
    if s.len() > 0 {
        let t = s.drop_last();
        assert forall|i: int| 0 <= i < t.len() implies t[i] != sep by {
            assert(s.contains(s[i]));
        }
        assert(s.contains(s.last()));
        lemma_split_whole(t, sep);
        assert(t.push(s.last()) == s);
        assert(split(s, sep) == seq![s]);
    } else {
        assert(s == Seq::<char>::empty());
    }
}

/// What stands behind the last separator is the last piece.
pub proof fn lemma_split_last(a: Seq<char>, sep: char, b: Seq<char>)
    requires
        !b.contains(sep),
    ensures
        split(a.push(sep) + b, sep) == split(a, sep).push(b),
    decreases b.len(),
{
    let s = a.push(sep) + b;
    if b.len() == 0 {
        assert(s.drop_last() == a);
        assert(b == Seq::<char>::empty());
    } else {
        let c = b.drop_last();
        assert forall|i: int| 0 <= i < c.len() implies c[i] != sep by {
            assert(b.contains(b[i]));
        }
        assert(b.contains(b.last()));
        lemma_split_last(a, sep, c);
        assert(s.drop_last() == a.push(sep) + c);
        let head = split(a, sep).push(c);
        assert(head.drop_last() == split(a, sep));
        assert(c.push(b.last()) == b);
    }
}

/// Pieces without the separator come back from the text that joins them.
pub proof fn law_split_joined(pieces: Seq<Seq<char>>, sep: char)
    requires
        pieces.len() >= 1,
        forall|i: int| 0 <= i < pieces.len() ==> !(#[trigger] pieces[i]).contains(sep),
    ensures
        split(joined(pieces, sep), sep) == pieces,
    decreases pieces.len(),
{
    if pieces.len() == 1 {
        lemma_split_whole(pieces[0], sep);
        assert(seq![pieces[0]] == pieces);
    } else {
        let init = pieces.drop_last();
        assert forall|i: int| 0 <= i < init.len() implies !(#[trigger] init[i]).contains(sep) by {
            assert(init[i] == pieces[i]);
        }
        law_split_joined(init, sep);
        assert(!pieces[pieces.len() - 1].contains(sep));
        lemma_split_last(joined(init, sep), sep, pieces.last());
        assert(init.push(pieces.last()) == pieces);
    }
}

// ---------------------------------------------------------------------------
// White space
// ---------------------------------------------------------------------------
/// The characters with the Unicode property White_Space.
pub open spec fn white(c: char) -> bool {
    ||| 0x09 <= c as u32 <= 0x0d
    ||| c as u32 == 0x20
    ||| c as u32 == 0x85
    ||| c as u32 == 0xa0
    ||| c as u32 == 0x1680
    ||| 0x2000 <= c as u32 <= 0x200a
    ||| c as u32 == 0x2028
    ||| c as u32 == 0x2029
    ||| c as u32 == 0x202f
    ||| c as u32 == 0x205f
    ||| c as u32 == 0x3000
}

/// Whether a character is white space.
pub fn is_white(c: char) -> (r: bool)
    ensures
        r == white(c),
{
    let u: u32 = c as u32;
    (0x09 <= u && u <= 0x0d) || u == 0x20 || u == 0x85 || u == 0xa0 || u == 0x1680 || (0x2000 <= u
        && u <= 0x200a) || u == 0x2028 || u == 0x2029 || u == 0x202f || u == 0x205f || u == 0x3000
}

/// How many white characters `s` starts with.
pub open spec fn leading_white(s: Seq<char>) -> int
    decreases s.len(),
{
    if s.len() > 0 && white(s[0]) {
        1 + leading_white(s.skip(1))
    } else {
        0
    }
}

/// Where the white characters at the end of `s` start.
pub open spec fn content_end(s: Seq<char>) -> int
    decreases s.len(),
{
    if s.len() > 0 && white(s.last()) {
        content_end(s.drop_last())
    } else {
        s.len() as int
    }
}

/// `s` without the white space at its two ends.
pub open spec fn trimmed(s: Seq<char>) -> Seq<char> {
    let t = s.skip(leading_white(s));
    t.take(content_end(t))
}

/// Trimming takes white space away, from the ends only, and leaves none there.
pub proof fn law_trimmed(s: Seq<char>)
    ensures
        exists|a: int, b: int|
            0 <= a <= b <= s.len() && #[trigger] s.subrange(a, b) == trimmed(s) && (forall|j: int|
                0 <= j < a || b <= j < s.len() ==> white(#[trigger] s[j])),
        trimmed(s).len() > 0 ==> !white(trimmed(s)[0]) && !white(trimmed(s).last()),
{
    lemma_leading_white(s);
    let a = leading_white(s);
    let t = s.skip(a);
    lemma_content_end(t);
    let b = a + content_end(t);
    assert(s.subrange(a, b) == trimmed(s));
    assert forall|j: int| 0 <= j < a || b <= j < s.len() implies white(#[trigger] s[j]) by {
        if b <= j {
            assert(t[j - a] == s[j]);
        }
    }
}

proof fn lemma_leading_white(s: Seq<char>)
    ensures
        0 <= leading_white(s) <= s.len(),
        forall|j: int| 0 <= j < leading_white(s) ==> white(#[trigger] s[j]),
        leading_white(s) < s.len() ==> !white(s[leading_white(s)]),
    decreases s.len(),
{
    if s.len() > 0 && white(s[0]) {
        let t = s.skip(1);
        lemma_leading_white(t);
        assert forall|j: int| 0 <= j < leading_white(s) implies white(#[trigger] s[j]) by {
            if j > 0 {
                assert(t[j - 1] == s[j]);
            }
        }
    }
}

proof fn lemma_content_end(s: Seq<char>)
    ensures
        0 <= content_end(s) <= s.len(),
        forall|j: int| content_end(s) <= j < s.len() ==> white(#[trigger] s[j]),
        content_end(s) > 0 ==> !white(s[content_end(s) - 1]),
    decreases s.len(),
{
    if s.len() > 0 && white(s.last()) {
        let t = s.drop_last();
        lemma_content_end(t);
        assert forall|j: int| content_end(s) <= j < s.len() implies white(#[trigger] s[j]) by {
            if j < t.len() {
                assert(t[j] == s[j]);
            }
        }
    }
}

/// Takes the white space at both ends away.
pub fn trim(chars: &[char]) -> (r: Vec<char>)
    ensures
        r@ == trimmed(chars@),
{
    let mut from: usize = 0;
    while from < chars.len() && is_white(chars[from])
        invariant
            from <= chars@.len(),
            forall|j: int| 0 <= j < from ==> white(#[trigger] chars@[j]),
        decreases chars@.len() - from,
    {
        from += 1;
    }
    let mut to: usize = chars.len();
    while to > from && is_white(chars[to - 1])
        invariant
            from <= to <= chars@.len(),
            forall|j: int| to <= j < chars@.len() ==> white(#[trigger] chars@[j]),
        decreases to,
    {
        to -= 1;
    }
    proof {
        let s = chars@;
        lemma_leading_white(s);
        let a = leading_white(s);
        if a < from {
            assert(white(s[a]));
        }
        if from < a {
            assert(white(s[from as int]));
        }
        let t = s.skip(a);
        lemma_content_end(t);
        let b = content_end(t);
        if b < to - from {
            assert(white(t[to - from - 1]));
        }
        if b > to - from {
            assert(t[b - 1] == s[from + b - 1]);
        }
        assert(s.subrange(from as int, to as int) == trimmed(s));
    }
    piece(chars, from, to)
}

// ---------------------------------------------------------------------------
// Placeholders
// ---------------------------------------------------------------------------
/// `s` with each `mark` in it, from the left, replaced by `value`.
pub open spec fn replaced(s: Seq<char>, mark: Seq<char>, value: Seq<char>) -> Seq<char>
    recommends
        mark.len() > 0,
    decreases s.len(),
{
    if mark.len() == 0 || s.len() < mark.len() {
        s
    } else if s.take(mark.len() as int) == mark {
        value + replaced(s.skip(mark.len() as int), mark, value)
    } else {
        seq![s[0]] + replaced(s.skip(1), mark, value)
    }
}

/// Replaces each `mark` in `chars` by `value`.
pub fn replace(chars: &[char], mark: &[char], value: &[char]) -> (r: Vec<char>)
    requires
        mark@.len() > 0,
    ensures
        r@ == replaced(chars@, mark@, value@),
{
    let mut out: Vec<char> = Vec::new();
    let mut i: usize = 0;
    assert(chars@.skip(0) == chars@);
    while i < chars.len()
        invariant
            mark@.len() > 0,
            i <= chars@.len(),
            out@ + replaced(chars@.skip(i as int), mark@, value@) == replaced(
                chars@,
                mark@,
                value@,
            ),
        decreases chars@.len() - i,
    {
        let ghost rest = chars@.skip(i as int);
        let found = if mark.len() <= chars.len() - i {
            let window = piece(chars, i, i + mark.len());
            assert(window@ == rest.take(mark@.len() as int));
            same(&window, mark)
        } else {
            false
        };
        let ghost done = out@;
        if found {
            let mut k: usize = 0;
            while k < value.len()
                invariant
                    k <= value@.len(),
                    out@ == done + value@.take(k as int),
                decreases value@.len() - k,
            {
                out.push(value[k]);
                k += 1;
                assert(value@.take(k as int) == value@.take(k - 1).push(value@[k - 1]));
            }
            assert(value@.take(k as int) == value@);
            i += mark.len();
            assert(chars@.skip(i as int) == rest.skip(mark@.len() as int));
            assert(out@ + replaced(chars@.skip(i as int), mark@, value@) == done + replaced(
                rest,
                mark@,
                value@,
            ));
        } else {
            out.push(chars[i]);
            i += 1;
            assert(chars@.skip(i as int) == rest.skip(1));
            assert(seq![rest[0]] + rest.skip(1) == rest);
            assert(out@ + replaced(chars@.skip(i as int), mark@, value@) == done + replaced(
                rest,
                mark@,
                value@,
            ));
        }
    }
    assert(chars@.skip(i as int) == Seq::<char>::empty());
    out
}

/// A mark stands at place `i` of a text.
pub open spec fn marked_at(s: Seq<char>, mark: Seq<char>, i: int) -> bool {
    0 <= i && i + mark.len() <= s.len() && s.subrange(i, i + mark.len()) == mark
}

/// Replacing leaves a text without the mark as it is. In any other it keeps what stands
/// before the first mark, puts the value in its place and goes on behind it.
pub proof fn law_replaced(s: Seq<char>, mark: Seq<char>, value: Seq<char>, i: int)
    requires
        mark.len() > 0,
        forall|j: int| 0 <= j < i ==> !(#[trigger] marked_at(s, mark, j)),
    ensures
        i >= s.len() ==> replaced(s, mark, value) == s,
        marked_at(s, mark, i) ==> replaced(s, mark, value) == s.take(i) + value + replaced(
            s.skip(i + mark.len()),
            mark,
            value,
        ),
    decreases s.len(),
{
    if s.len() < mark.len() {
    } else if i <= 0 {
        if marked_at(s, mark, i) {
            assert(s.take(mark.len() as int) == s.subrange(0, mark.len() as int));
            assert(s.take(0) + value == value);
        } else if i >= s.len() {
            assert(s.len() == 0);
        }
    } else {
        assert(!marked_at(s, mark, 0));
        assert(s.take(mark.len() as int) == s.subrange(0, mark.len() as int));
        let t = s.skip(1);
        assert forall|j: int| 0 <= j < i - 1 implies !(#[trigger] marked_at(t, mark, j)) by {
            assert(!marked_at(s, mark, j + 1));
            if marked_at(t, mark, j) {
                assert(t.subrange(j, j + mark.len()) == s.subrange(j + 1, j + 1 + mark.len()));
            }
        }
        law_replaced(t, mark, value, i - 1);
        assert(seq![s[0]] + t == s);
        if marked_at(s, mark, i) {
            assert(t.subrange(i - 1, i - 1 + mark.len()) == s.subrange(i, i + mark.len()));
            assert(marked_at(t, mark, i - 1));
            assert(t.skip(i - 1 + mark.len()) == s.skip(i + mark.len()));
            assert(seq![s[0]] + (t.take(i - 1) + value + replaced(
                s.skip(i + mark.len()),
                mark,
                value,
            )) == s.take(i) + value + replaced(s.skip(i + mark.len()), mark, value));
        }
    }
}

} // verus!
