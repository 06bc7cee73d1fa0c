//! Text as sequences of characters: trimming, splitting into fields, lines
//! and words, and joining pieces back together.
//!
//! Every executable function here works on `Vec<char>` and is specified by a
//! spec function on `Seq<char>` of the same meaning.

use vstd::prelude::*;

verus! {

/// `String::push` appends one character to the end of the string.
pub assume_specification[ String::push ](s: &mut String, ch: char)
    ensures
        final(s)@ == old(s)@.push(ch),
;

/// The characters of `s`, in order.
pub fn chars_of(s: &str) -> (chars: Vec<char>)
    ensures
        chars@ == s@,
{
    let mut chars: Vec<char> = Vec::new();
    for c in it: s.chars()
        invariant
            chars@ == it.seq().take(it.index() as int),
    {
        chars.push(c);
    }
    chars
}

/// The string that holds exactly `chars`.
pub fn string_of(chars: &Vec<char>) -> (s: String)
    ensures
        s@ == chars@,
{
    let mut s = String::new();
    let mut i: usize = 0;
    while i < chars.len()
        invariant
            i <= chars.len(),
            s@ == chars@.take(i as int),
        decreases chars.len() - i,
    {
        s.push(chars[i]);
        i += 1;
    }
    s
}

/// A copy of `chars[from..to]`.
pub(crate) fn slice_of(chars: &Vec<char>, from: usize, to: usize) -> (piece: Vec<char>)
    requires
        from <= to <= chars.len(),
    ensures
        piece@ == chars@.subrange(from as int, to as int),
{
    let mut piece: Vec<char> = Vec::new();
    let mut i: usize = from;
    while i < to
        invariant
            from <= i <= to <= chars.len(),
            piece@ == chars@.subrange(from as int, i as int),
        decreases to - i,
    {
        piece.push(chars[i]);
        i += 1;
    }
    piece
}

/// The characters with the Unicode property `White_Space`.
pub open spec fn is_whitespace(c: char) -> bool {
    let u = c as u32;
    ||| 0x09 <= u <= 0x0D
    ||| u == 0x20
    ||| u == 0x85
    ||| u == 0xA0
    ||| u == 0x1680
    ||| 0x2000 <= u <= 0x200A
    ||| u == 0x2028
    ||| u == 0x2029
    ||| u == 0x202F
    ||| u == 0x205F
    ||| u == 0x3000
}

/// Tests whether `c` is a whitespace character.
pub fn is_space(c: char) -> (r: bool)
    ensures
        r == is_whitespace(c),
{
    let u: u32 = c as u32;
    (0x09 <= u && u <= 0x0D) || u == 0x20 || u == 0x85 || u == 0xA0 || u == 0x1680 || (0x2000 <= u
        && u <= 0x200A) || u == 0x2028 || u == 0x2029 || u == 0x202F || u == 0x205F || u == 0x3000
}

/// How many whitespace characters `s` starts with.
pub open spec fn leading_whitespace(s: Seq<char>) -> nat
    decreases s.len(),
{
    if s.len() == 0 || !is_whitespace(s[0]) {
        0
    } else {
        1 + leading_whitespace(s.drop_first())
    }
}

/// How many whitespace characters `s` ends with.
pub open spec fn trailing_whitespace(s: Seq<char>) -> nat
    decreases s.len(),
{
    if s.len() == 0 || !is_whitespace(s.last()) {
        0
    } else {
        1 + trailing_whitespace(s.drop_last())
    }
}

/// `s` without the whitespace it starts with.
pub open spec fn trim_start(s: Seq<char>) -> Seq<char> {
    s.skip(leading_whitespace(s) as int)
}

/// `s` without the whitespace it ends with.
pub open spec fn trim_end(s: Seq<char>) -> Seq<char> {
    s.take(s.len() - trailing_whitespace(s))
}

/// `s` without the whitespace at either end.
pub open spec fn trim(s: Seq<char>) -> Seq<char> {
    trim_end(trim_start(s))
}

/// Whether every character of `s` is whitespace.
pub open spec fn is_blank(s: Seq<char>) -> bool {
    forall|i: int| 0 <= i < s.len() ==> is_whitespace(#[trigger] s[i])
}

/// The leading whitespace of `s` is a prefix of whitespace that a
/// non-whitespace character, or the end of `s`, follows.
pub proof fn lemma_leading_whitespace(s: Seq<char>)
    ensures
        leading_whitespace(s) <= s.len(),
        forall|i: int| 0 <= i < leading_whitespace(s) ==> is_whitespace(#[trigger] s[i]),
        leading_whitespace(s) < s.len() ==> !is_whitespace(s[leading_whitespace(s) as int]),
    decreases s.len(),
{
    if s.len() > 0 && is_whitespace(s[0]) {
        let rest = s.drop_first();
        lemma_leading_whitespace(rest);
        assert forall|i: int| 0 <= i < leading_whitespace(s) implies is_whitespace(
            #[trigger] s[i],
        ) by {
            if i > 0 {
                assert(s[i] == rest[i - 1]);
            }
        }
        if leading_whitespace(s) < s.len() {
            assert(s[leading_whitespace(s) as int] == rest[leading_whitespace(rest) as int]);
        }
    }
}

/// The trailing whitespace of `s` is a suffix of whitespace that a
/// non-whitespace character, or the start of `s`, precedes.
pub proof fn lemma_trailing_whitespace(s: Seq<char>)
    ensures
        trailing_whitespace(s) <= s.len(),
        forall|i: int|
            s.len() - trailing_whitespace(s) <= i < s.len() ==> is_whitespace(#[trigger] s[i]),
        trailing_whitespace(s) < s.len() ==> !is_whitespace(
            s[s.len() - trailing_whitespace(s) - 1],
        ),
    decreases s.len(),
{
    if s.len() > 0 && is_whitespace(s.last()) {
        let rest = s.drop_last();
        lemma_trailing_whitespace(rest);
        assert forall|i: int|
            s.len() - trailing_whitespace(s) <= i < s.len() implies is_whitespace(
            #[trigger] s[i],
        ) by {
            if i < s.len() - 1 {
                assert(s[i] == rest[i]);
            }
        }
        if trailing_whitespace(s) < s.len() {
            assert(s[s.len() - trailing_whitespace(s) - 1] == rest[rest.len() - trailing_whitespace(
                rest,
            ) - 1]);
        }
    }
}

/// Trimming keeps a middle part of `s`: what is cut off at either end is
/// whitespace, and what is left neither starts nor ends with whitespace.
pub proof fn lemma_trim(s: Seq<char>)
    ensures
        trim(s).len() <= s.len(),
        trim(s).len() > 0 ==> !is_whitespace(trim(s).first()) && !is_whitespace(trim(s).last()),
        trim(s).len() == 0 <==> is_blank(s),
        exists|a: int, b: int|
            0 <= a <= b <= s.len() && trim(s) == #[trigger] s.subrange(a, b) && is_blank(
                s.take(a),
            ) && is_blank(s.skip(b)),
{
    lemma_leading_whitespace(s);
    let a = leading_whitespace(s) as int;
    let t = trim_start(s);
    lemma_trailing_whitespace(t);
    let b = s.len() - trailing_whitespace(t);
    assert(trim(s) =~= s.subrange(a, b));
    assert(is_blank(s.take(a)));
    assert forall|i: int| 0 <= i < s.skip(b).len() implies is_whitespace(
        #[trigger] s.skip(b)[i],
    ) by {
        assert(s.skip(b)[i] == t[b - a + i]);
    }
    if trim(s).len() > 0 {
        assert(trim(s).first() == s[a]);
        assert(trim(s).last() == t[t.len() - trailing_whitespace(t) - 1]);
        assert(!is_blank(s));
    } else {
        assert forall|i: int| 0 <= i < s.len() implies is_whitespace(#[trigger] s[i]) by {
            if i >= a {
                assert(s[i] == t[i - a]);
            }
        }
    }
}

/// The two ends of `trim(chars)` inside `chars`.
pub fn trim_bounds(chars: &Vec<char>) -> (bounds: (usize, usize))
    ensures
        bounds.0 <= bounds.1 <= chars.len(),
        bounds.0 == leading_whitespace(chars@),
        chars@.subrange(bounds.0 as int, bounds.1 as int) == trim(chars@),
{
    let n = chars.len();
    let mut a: usize = 0;
    assert(chars@.skip(0) =~= chars@);
    while a < n && is_space(chars[a])
        invariant
            a <= n == chars.len(),
            leading_whitespace(chars@) == a + leading_whitespace(chars@.skip(a as int)),
        decreases n - a,
    {
        assert(chars@.skip(a as int).drop_first() =~= chars@.skip(a + 1));
        a += 1;
    }
    assert(leading_whitespace(chars@.skip(a as int)) == 0);
    let ghost rest = chars@.skip(a as int);
    let mut b: usize = n;
    assert(rest.take(n - a) =~= rest);
    while b > a && is_space(chars[b - 1])
        invariant
            a <= b <= n == chars.len(),
            rest == chars@.skip(a as int),
            trailing_whitespace(rest) == (n - b) + trailing_whitespace(rest.take(b - a)),
        decreases b,
    {
        assert(rest.take(b - a).last() == chars[b - 1]);
        assert(rest.take(b - a).drop_last() =~= rest.take(b - 1 - a));
        b -= 1;
    }
    proof {
        if b > a {
            assert(rest.take(b - a).last() == chars[b - 1]);
        }
        assert(trailing_whitespace(rest.take(b - a)) == 0);
        assert(chars@.subrange(a as int, b as int) =~= trim(chars@));
    }
    (a, b)
}

/// `chars` without the whitespace at either end.
pub fn trimmed(chars: &Vec<char>) -> (t: Vec<char>)
    ensures
        t@ == trim(chars@),
{
    let (a, b) = trim_bounds(chars);
    slice_of(chars, a, b)
}

/// The views of `pieces`, one for one.
pub open spec fn views(pieces: Seq<Vec<char>>) -> Seq<Seq<char>> {
    Seq::new(pieces.len(), |i: int| pieces[i]@)
}

/// Where `c` first occurs in `s`; the length of `s` if it does not occur.
pub open spec fn first_index(s: Seq<char>, c: char) -> nat
    decreases s.len(),
{
    if s.len() == 0 || s[0] == c {
        0
    } else {
        1 + first_index(s.drop_first(), c)
    }
}

/// `first_index` is the least index that holds `c`.
pub proof fn lemma_first_index(s: Seq<char>, c: char)
    ensures
        first_index(s, c) <= s.len(),
        forall|i: int| 0 <= i < first_index(s, c) ==> #[trigger] s[i] != c,
        first_index(s, c) < s.len() ==> s[first_index(s, c) as int] == c,
    decreases s.len(),
{
    if s.len() > 0 && s[0] != c {
        let rest = s.drop_first();
        lemma_first_index(rest, c);
        assert forall|i: int| 0 <= i < first_index(s, c) implies #[trigger] s[i] != c by {
            if i > 0 {
                assert(s[i] == rest[i - 1]);
            }
        }
        if first_index(s, c) < s.len() {
            assert(s[first_index(s, c) as int] == rest[first_index(rest, c) as int]);
        }
    }
}

/// The fields of `s` that `sep` separates: what stands before the first
/// `sep`, between each two, and after the last. There is always at least one
/// field, and a field may be empty.
pub open spec fn split(s: Seq<char>, sep: char) -> Seq<Seq<char>>
    decreases s.len(),
{
    let i = first_index(s, sep);
    if i < s.len() {
        seq![s.take(i as int)] + split(s.skip(i as int + 1), sep)
    } else {
        seq![s]
    }
}

/// `parts` put together with `sep` between each two.
pub open spec fn join(parts: Seq<Seq<char>>, sep: Seq<char>) -> Seq<char>
    decreases parts.len(),
{
    if parts.len() == 0 {
        Seq::empty()
    } else if parts.len() == 1 {
        parts[0]
    } else {
        join(parts.drop_last(), sep) + sep + parts.last()
    }
}

/// Putting a field in front of `parts` puts it, and a separator, in front of
/// what `parts` join to.
pub proof fn lemma_join_prepend(head: Seq<char>, parts: Seq<Seq<char>>, sep: Seq<char>)
    requires
        parts.len() > 0,
    ensures
        join(seq![head] + parts, sep) == head + sep + join(parts, sep),
    decreases parts.len(),
{
    let all = seq![head] + parts;
    assert(all.drop_last() =~= seq![head] + parts.drop_last());
    assert(all.last() == parts.last());
    if parts.len() == 1 {
        assert(all.drop_last() =~= seq![head]);
        assert(join(seq![head], sep) == head);
        assert(join(parts, sep) == parts[0]);
        assert(join(all, sep) == join(all.drop_last(), sep) + sep + all.last());
    } else {
        lemma_join_prepend(head, parts.drop_last(), sep);
        let front = join(parts.drop_last(), sep);
        assert(join(all, sep) == (head + sep + front) + sep + parts.last());
        assert(join(parts, sep) == front + sep + parts.last());
        assert((head + sep + front) + sep + parts.last() =~= head + sep + (front + sep
            + parts.last()));
    }
}

/// No field of a split holds the separator, and the fields joined by the
/// separator give the text back: the split is the one way to cut `s` at
/// every `sep`.
pub proof fn lemma_split(s: Seq<char>, sep: char)
    ensures
        split(s, sep).len() >= 1,
        forall|k: int, i: int|
            0 <= k < split(s, sep).len() && 0 <= i < split(s, sep)[k].len() ==> #[trigger] split(
                s,
                sep,
            )[k][i] != sep,
        join(split(s, sep), seq![sep]) == s,
    decreases s.len(),
{
    lemma_first_index(s, sep);
    let i = first_index(s, sep) as int;
    if i < s.len() {
        let rest = s.skip(i + 1);
        lemma_split(rest, sep);
        let head = s.take(i);
        assert forall|k: int, j: int|
            0 <= k < split(s, sep).len() && 0 <= j < split(s, sep)[k].len() implies #[trigger] split(
            s,
            sep,
        )[k][j] != sep by {
            if k == 0 {
                assert(split(s, sep)[0] == head);
                assert(head[j] == s[j]);
            } else {
                assert(split(s, sep)[k] == split(rest, sep)[k - 1]);
            }
        }
        lemma_join_prepend(head, split(rest, sep), seq![sep]);
        assert(head + seq![sep] + rest =~= s);
    } else {
        assert(split(s, sep)[0] == s);
    }
}

/// Where `c` first occurs in `chars` at or after `from`; the length of
/// `chars` if it does not.
pub(crate) fn find_char(chars: &Vec<char>, from: usize, c: char) -> (at: usize)
    requires
        from <= chars.len(),
    ensures
        from <= at <= chars.len(),
        at - from == first_index(chars@.skip(from as int), c),
{
    let n = chars.len();
    let mut i: usize = from;
    while i < n && chars[i] != c
        invariant
            from <= i <= n == chars.len(),
            first_index(chars@.skip(from as int), c) == (i - from) + first_index(
                chars@.skip(i as int),
                c,
            ),
        decreases n - i,
    {
        assert(chars@.skip(i as int).drop_first() =~= chars@.skip(i + 1));
        i += 1;
    }
    i
}

/// The fields of `chars` that `sep` separates.
pub fn split_on(chars: &Vec<char>, sep: char) -> (fields: Vec<Vec<char>>)
    ensures
        views(fields@) == split(chars@, sep),
{
    let n = chars.len();
    let mut fields: Vec<Vec<char>> = Vec::new();
    let mut start: usize = 0;
    assert(chars@.skip(0) =~= chars@);
    loop
        invariant_except_break
            split(chars@, sep) == views(fields@) + split(chars@.skip(start as int), sep),
        invariant
            start <= n == chars.len(),
        ensures
            views(fields@) == split(chars@, sep),
        decreases n - start,
    {
        let at = find_char(chars, start, sep);
        let field = slice_of(chars, start, at);
        let ghost before = views(fields@);
        let ghost rest = chars@.skip(start as int);
        fields.push(field);
        assert(views(fields@) =~= before + seq![rest.take(at - start)]) by {
            assert(rest.take(at - start) =~= chars@.subrange(start as int, at as int));
        }
        if at == n {
            assert(rest.take(at - start) =~= rest);
            break ;
        }
        assert(rest.skip(at - start + 1) =~= chars@.skip(at + 1));
        start = at + 1;
    }
    fields
}

/// `s` without the carriage return that it ends with, if it ends with one.
pub open spec fn strip_carriage_return(s: Seq<char>) -> Seq<char> {
    if s.len() > 0 && s.last() == '\r' {
        s.drop_last()
    } else {
        s
    }
}

/// The lines of `s`. A line ends at a line feed or at the end of the text; the
/// line feed, and a carriage return just before it, are no part of the line.
/// Text that ends in a line feed has no empty line after it.
pub open spec fn lines(s: Seq<char>) -> Seq<Seq<char>>
    decreases s.len(),
{
    let i = first_index(s, '\n');
    if s.len() == 0 {
        Seq::empty()
    } else if i < s.len() {
        seq![strip_carriage_return(s.take(i as int))] + lines(s.skip(i as int + 1))
    } else {
        seq![s]
    }
}

/// The lines of `chars`.
pub fn lines_of(chars: &Vec<char>) -> (found: Vec<Vec<char>>)
    ensures
        views(found@) == lines(chars@),
{
    let n = chars.len();
    let mut found: Vec<Vec<char>> = Vec::new();
    let mut start: usize = 0;
    assert(chars@.skip(0) =~= chars@);
    while start < n
        invariant
            start <= n == chars.len(),
            lines(chars@) == views(found@) + lines(chars@.skip(start as int)),
        decreases n - start,
    {
        let at = find_char(chars, start, '\n');
        let ghost before = views(found@);
        let ghost rest = chars@.skip(start as int);
        assert(rest.take(at - start) =~= chars@.subrange(start as int, at as int));
        if at == n {
            let line = slice_of(chars, start, at);
            found.push(line);
            assert(rest.take(at - start) =~= rest);
            assert(views(found@) =~= before + seq![rest]);
            assert(chars@.skip(n as int) =~= Seq::<char>::empty());
            start = n;
        } else {
            let end = if at > start && chars[at - 1] == '\r' {
                at - 1
            } else {
                at
            };
            let line = slice_of(chars, start, end);
            assert(line@ =~= strip_carriage_return(rest.take(at - start)));
            found.push(line);
            assert(views(found@) =~= before + seq![strip_carriage_return(rest.take(at - start))]);
            assert(rest.skip(at - start + 1) =~= chars@.skip(at + 1));
            start = at + 1;
        }
    }
    assert(chars@.skip(n as int) =~= Seq::<char>::empty());
    found
}

/// How many characters that are no whitespace `s` starts with.
pub open spec fn word_length(s: Seq<char>) -> nat
    decreases s.len(),
{
    if s.len() == 0 || is_whitespace(s[0]) {
        0
    } else {
        1 + word_length(s.drop_first())
    }
}

/// The words of `s`: the longest runs of characters that are no whitespace,
/// in order. No word is empty.
pub open spec fn words(s: Seq<char>) -> Seq<Seq<char>>
    decreases s.len(),
{
    let n = word_length(s);
    if s.len() == 0 {
        Seq::empty()
    } else if is_whitespace(s[0]) {
        words(s.drop_first())
    } else if 0 < n <= s.len() {
        seq![s.take(n as int)] + words(s.skip(n as int))
    } else {
        Seq::empty()
    }
}

/// The words of `chars`.
pub fn words_of(chars: &Vec<char>) -> (found: Vec<Vec<char>>)
    ensures
        views(found@) == words(chars@),
{
    let n = chars.len();
    let mut found: Vec<Vec<char>> = Vec::new();
    let mut i: usize = 0;
    assert(chars@.skip(0) =~= chars@);
    while i < n
        invariant
            i <= n == chars.len(),
            words(chars@) == views(found@) + words(chars@.skip(i as int)),
        decreases n - i,
    {
        let ghost rest = chars@.skip(i as int);
        if is_space(chars[i]) {
            assert(rest.drop_first() =~= chars@.skip(i + 1));
            i += 1;
        } else {
            let start = i;
            while i < n && !is_space(chars[i])
                invariant
                    start <= i <= n == chars.len(),
                    word_length(rest) == (i - start) + word_length(chars@.skip(i as int)),
                    rest == chars@.skip(start as int),
                decreases n - i,
            {
                assert(chars@.skip(i as int).drop_first() =~= chars@.skip(i + 1));
                i += 1;
            }
            let ghost before = views(found@);
            let word = slice_of(chars, start, i);
            found.push(word);
            assert(word_length(rest) == i - start);
            assert(rest.take(i - start) =~= chars@.subrange(start as int, i as int));
            assert(rest.skip(i - start) =~= chars@.skip(i as int));
            assert(views(found@) =~= before + seq![rest.take(i - start)]);
        }
    }
    assert(chars@.skip(n as int) =~= Seq::<char>::empty());
    found
}

} // verus!
