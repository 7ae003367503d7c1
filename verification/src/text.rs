//! Work on strings that the rest of the crate shares: cutting a string into
//! pieces, reading a decimal index, looking for a phrase.

use vstd::prelude::*;

verus! {

/// The characters of each string of a list.
pub open spec fn strings_view(v: Vec<String>) -> Seq<Seq<char>> {
    Seq::new(v.len() as nat, |i: int| v[i]@)
}

/// The pieces of `s` that lie between occurrences of `sep`. There is always at
/// least one piece, and a piece may be empty.
pub open spec fn split(s: Seq<char>, sep: char) -> Seq<Seq<char>>
    decreases s.len(),
{
    if s.len() == 0 {
        seq![Seq::empty()]
    } else {
        let before = split(s.drop_last(), sep);
        if s.last() == sep {
            before.push(Seq::empty())
        } else {
            before.drop_last().push(before.last().push(s.last()))
        }
    }
}

/// Cuts `s` at every occurrence of `sep`.
pub fn split_on(s: &str, sep: char) -> (parts: Vec<String>)
    ensures
        strings_view(parts) == split(s@, sep),
{
    let n = s.unicode_len();
    let mut parts: Vec<String> = Vec::new();
    let mut start: usize = 0;
    let mut i: usize = 0;
    assert(s@.take(0) =~= Seq::<char>::empty());
    assert(strings_view(parts).push(s@.subrange(0, 0)) =~= seq![Seq::<char>::empty()]);
    while i < n
        invariant
            n == s@.len(),
            start <= i <= n,
            split(s@.take(i as int), sep) == strings_view(parts).push(
                s@.subrange(start as int, i as int),
            ),
        decreases n - i,
    {
        let c = s.get_char(i);
        let ghost done = strings_view(parts);
        let ghost piece = s@.subrange(start as int, i as int);
        proof {
            let next = s@.take(i + 1);
            assert(next.drop_last() =~= s@.take(i as int));
            assert(next.last() == c);
            assert(done.push(piece).drop_last() =~= done);
            assert(done.push(piece).last() == piece);
            assert(piece.push(c) =~= s@.subrange(start as int, i + 1));
        }
        if c == sep {
            parts.push(String::from_str(s.substring_char(start, i)));
            start = i + 1;
            proof {
                assert(strings_view(parts) =~= done.push(piece));
                assert(s@.subrange(start as int, start as int) =~= Seq::<char>::empty());
            }
        }
        i += 1;
    }
    let ghost done = strings_view(parts);
    parts.push(String::from_str(s.substring_char(start, n)));
    proof {
        assert(s@.take(n as int) =~= s@);
        assert(strings_view(parts) =~= done.push(s@.subrange(start as int, n as int)));
    }
    parts
}

/// A decimal digit, `0` to `9`.
pub open spec fn is_digit(c: char) -> bool {
    48 <= c as u32 <= 57
}

/// A string that names an index: one or more decimal digits and nothing else.
pub open spec fn is_index(s: Seq<char>) -> bool {
    s.len() > 0 && forall|i: int| 0 <= i < s.len() ==> is_digit(#[trigger] s[i])
}

/// The number that a string of decimal digits stands for.
pub open spec fn index_value(s: Seq<char>) -> nat
    decreases s.len(),
{
    if s.len() == 0 {
        0
    } else {
        (index_value(s.drop_last()) * 10 + (s.last() as u32 - 48)) as nat
    }
}

/// What a path segment says when it is used to pick an item of a list.
pub enum Index {
    /// The segment is not a decimal number.
    NotNumeric,
    /// The segment is a number, but the list has no item there.
    OutOfRange,
    /// The segment is the index of this item.
    At(usize),
}

/// What `segment` picks in a list of `len` items.
pub open spec fn index_in(segment: Seq<char>, len: nat) -> Index {
    if !is_index(segment) {
        Index::NotNumeric
    } else if index_value(segment) < len {
        Index::At(index_value(segment) as usize)
    } else {
        Index::OutOfRange
    }
}

/// Reads `segment` as an index into a list of `len` items. A number too large
/// for the machine is out of range like any other that the list does not reach.
pub fn parse_index(segment: &str, len: usize) -> (r: Index)
    ensures
        r == index_in(segment@, len as nat),
{
    let n = segment.unicode_len();
    if n == 0 {
        return Index::NotNumeric;
    }
    let mut value: usize = 0;
    let mut beyond: bool = false;
    let mut i: usize = 0;
    assert(segment@.take(0) =~= Seq::<char>::empty());
    while i < n
        invariant
            n == segment@.len(),
            i <= n,
            forall|j: int| 0 <= j < i ==> is_digit(#[trigger] segment@[j]),
            beyond ==> index_value(segment@.take(i as int)) >= len,
            !beyond ==> value == index_value(segment@.take(i as int)) && (value < len || i == 0),
            !beyond ==> value <= len,
        decreases n - i,
    {
        let c = segment.get_char(i);
        let code: u32 = c as u32;
        if code < 48 || code > 57 {
            return Index::NotNumeric;
        }
        let digit: u128 = (code - 48) as u128;
        proof {
            let next = segment@.take(i + 1);
            assert(next.drop_last() =~= segment@.take(i as int));
            assert(next.last() == c);
        }
        if !beyond {
            let wide: u128 = (value as u128) * 10 + digit;
            if wide >= len as u128 {
                beyond = true;
            } else {
                value = wide as usize;
            }
        }
        i += 1;
    }
    assert(segment@.take(n as int) =~= segment@);
    if beyond || value >= len {
        Index::OutOfRange
    } else {
        Index::At(value)
    }
}

/// Whether two strings hold the same characters.
pub fn str_eq(a: &str, b: &str) -> (r: bool)
    ensures
        r == (a@ == b@),
{
    let n = a.unicode_len();
    if n != b.unicode_len() {
        return false;
    }
    let mut i: usize = 0;
    while i < n
        invariant
            i <= n,
            n == a@.len(),
            n == b@.len(),
            forall|j: int| 0 <= j < i ==> a@[j] == b@[j],
        decreases n - i,
    {
        if a.get_char(i) != b.get_char(i) {
            return false;
        }
        i += 1;
    }
    assert(a@ =~= b@);
    true
}

/// `head` followed by `tail`, as a new string.
pub fn join(head: &str, tail: &str) -> (r: String)
    ensures
        r@ == head@ + tail@,
{
    String::from_str(head).concat(tail)
}

/// White space, as Unicode defines it.
pub open spec fn is_space(c: char) -> bool {
    let code = c as u32;
    ||| 9 <= code <= 13
    ||| code == 32
    ||| code == 133
    ||| code == 160
    ||| code == 5760
    ||| 8192 <= code <= 8202
    ||| code == 8232
    ||| code == 8233
    ||| code == 8239
    ||| code == 8287
    ||| code == 12288
}

/// Whether `c` is white space.
pub fn space(c: char) -> (r: bool)
    ensures
        r == is_space(c),
{
    let code: u32 = c as u32;
    (9 <= code && code <= 13) || code == 32 || code == 133 || code == 160 || code == 5760 || (8192
        <= code && code <= 8202) || code == 8232 || code == 8233 || code == 8239 || code == 8287
        || code == 12288
}

/// Reading `s` from the left: the words that have ended, and the word that is
/// being read (empty between words).
pub open spec fn scan_words(s: Seq<char>) -> (Seq<Seq<char>>, Seq<char>)
    decreases s.len(),
{
    if s.len() == 0 {
        (Seq::empty(), Seq::empty())
    } else {
        let (done, word) = scan_words(s.drop_last());
        if is_space(s.last()) {
            if word.len() > 0 {
                (done.push(word), Seq::empty())
            } else {
                (done, word)
            }
        } else {
            (done, word.push(s.last()))
        }
    }
}

/// The words of `s`: its longest stretches without white space, in order.
pub open spec fn words(s: Seq<char>) -> Seq<Seq<char>> {
    let (done, word) = scan_words(s);
    if word.len() > 0 {
        done.push(word)
    } else {
        done
    }
}

/// Cuts `s` into its words.
pub fn split_words(s: &str) -> (parts: Vec<String>)
    ensures
        strings_view(parts) == words(s@),
{
    let n = s.unicode_len();
    let mut parts: Vec<String> = Vec::new();
    let mut start: usize = 0;
    let mut i: usize = 0;
    assert(s@.take(0) =~= Seq::<char>::empty());
    assert(strings_view(parts) =~= Seq::<Seq<char>>::empty());
    assert(s@.subrange(0, 0) =~= Seq::<char>::empty());
    while i < n
        invariant
            n == s@.len(),
            start <= i <= n,
            scan_words(s@.take(i as int)) == (
                strings_view(parts),
                s@.subrange(start as int, i as int),
            ),
        decreases n - i,
    {
        let c = s.get_char(i);
        let ghost done = strings_view(parts);
        let ghost word = s@.subrange(start as int, i as int);
        proof {
            let next = s@.take(i + 1);
            assert(next.drop_last() =~= s@.take(i as int));
            assert(next.last() == c);
            assert(word.push(c) =~= s@.subrange(start as int, i + 1));
            assert(s@.subrange(i + 1, i + 1) =~= Seq::<char>::empty());
        }
        if space(c) {
            if start < i {
                parts.push(String::from_str(s.substring_char(start, i)));
                assert(strings_view(parts) =~= done.push(word));
            } else {
                assert(word =~= Seq::<char>::empty());
            }
            start = i + 1;
        }
        i += 1;
    }
    let ghost done = strings_view(parts);
    assert(s@.take(n as int) =~= s@);
    if start < n {
        parts.push(String::from_str(s.substring_char(start, n)));
        assert(strings_view(parts) =~= done.push(s@.subrange(start as int, n as int)));
    }
    parts
}

/// A line without the carriage return that stood before its line feed.
pub open spec fn without_cr(line: Seq<char>) -> Seq<char> {
    if line.len() > 0 && line.last() == '\r' {
        line.drop_last()
    } else {
        line
    }
}

/// The lines of `s`. A line ends with a line feed, and a carriage return just
/// before that line feed is no part of the line. What follows the last line
/// feed is a line too, unless it is empty.
pub open spec fn lines(s: Seq<char>) -> Seq<Seq<char>> {
    let pieces = split(s, '\n');
    let ended = Seq::new((pieces.len() - 1) as nat, |i: int| without_cr(pieces[i]));
    if pieces.last().len() > 0 {
        ended.push(pieces.last())
    } else {
        ended
    }
}

/// Every string is cut into at least one piece.
pub proof fn lemma_split_nonempty(s: Seq<char>, sep: char)
    ensures
        split(s, sep).len() > 0,
    decreases s.len(),
{
    if s.len() > 0 {
        lemma_split_nonempty(s.drop_last(), sep);
    }
}

/// Cuts `s` into its lines.
pub fn split_lines(s: &str) -> (r: Vec<String>)
    ensures
        strings_view(r) == lines(s@),
{
    let pieces = split_on(s, '\n');
    proof {
        lemma_split_nonempty(s@, '\n');
    }
    let ghost all = strings_view(pieces);
    assert(all.len() == pieces.len());
    let mut r: Vec<String> = Vec::new();
    let mut i: usize = 0;
    while i + 1 < pieces.len()
        invariant
            pieces.len() > 0,
            all == strings_view(pieces),
            i + 1 <= pieces.len(),
            r.len() == i,
            forall|j: int| 0 <= j < i ==> r[j]@ == without_cr(all[j]),
        decreases pieces.len() - i,
    {
        let piece: &str = pieces[i].as_str();
        assert(piece@ == all[i as int]);
        let n = piece.unicode_len();
        if n > 0 && piece.get_char(n - 1) == '\r' {
            r.push(String::from_str(piece.substring_char(0, n - 1)));
            assert(piece@.subrange(0, n - 1) =~= piece@.drop_last());
        } else {
            r.push(pieces[i].clone());
        }
        i += 1;
    }
    let ghost ended = strings_view(r);
    let last: &str = pieces[pieces.len() - 1].as_str();
    assert(last@ == all.last());
    assert(ended =~= Seq::new((all.len() - 1) as nat, |i: int| without_cr(all[i])));
    if last.unicode_len() > 0 {
        r.push(pieces[pieces.len() - 1].clone());
        assert(strings_view(r) =~= ended.push(all.last()));
    }
    r
}

/// Whether `needle` stands in `hay` at position `at`.
pub open spec fn occurs_at(hay: Seq<char>, needle: Seq<char>, at: int) -> bool {
    0 <= at && at + needle.len() <= hay.len() && hay.subrange(at, at + needle.len()) == needle
}

/// Whether `needle` stands somewhere in `hay`.
pub open spec fn contains(hay: Seq<char>, needle: Seq<char>) -> bool {
    exists|at: int| occurs_at(hay, needle, at)
}

/// Whether `needle` stands in `hay` at position `at`.
pub fn matches_at(hay: &str, needle: &str, at: usize) -> (r: bool)
    requires
        at + needle@.len() <= hay@.len(),
    ensures
        r == occurs_at(hay@, needle@, at as int),
{
    let m = needle.unicode_len();
    let n = hay.unicode_len();
    let mut j: usize = 0;
    while j < m
        invariant
            m == needle@.len(),
            n == hay@.len(),
            at + m <= hay@.len(),
            j <= m,
            forall|k: int| 0 <= k < j ==> hay@[at + k] == needle@[k],
        decreases m - j,
    {
        if hay.get_char(at + j) != needle.get_char(j) {
            assert(hay@.subrange(at as int, at + m)[j as int] != needle@[j as int]);
            return false;
        }
        j += 1;
    }
    assert(hay@.subrange(at as int, at + m) =~= needle@);
    true
}

/// Whether `needle` stands somewhere in `hay`.
pub fn find_in(hay: &str, needle: &str) -> (r: bool)
    ensures
        r == contains(hay@, needle@),
{
    let n = hay.unicode_len();
    let m = needle.unicode_len();
    if m > n {
        return false;
    }
    let last = n - m;
    let mut at: usize = 0;
    while at < last
        invariant
            n == hay@.len(),
            m == needle@.len(),
            last == n - m,
            at <= last,
            forall|k: int| 0 <= k < at ==> !occurs_at(hay@, needle@, k),
        decreases last - at,
    {
        if matches_at(hay, needle, at) {
            return true;
        }
        at += 1;
    }
    matches_at(hay, needle, last)
}

} // verus!
