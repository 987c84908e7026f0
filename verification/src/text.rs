//! Text as characters: reading a string into a vector and back, trimming,
//! cutting at a separator and splitting into lines.

use vstd::prelude::*;
use vstd::std_specs::iter::IteratorSpec;

verus! {

/// Blank characters: space, tab, line feed, carriage return, vertical tab and
/// form feed.
pub open spec fn is_space(c: char) -> bool {
    c == ' ' || c == '\t' || c == '\n' || c == '\r' || c == '\x0b' || c == '\x0c'
}

/// Characters that end a line.
pub open spec fn is_break(c: char) -> bool {
    c == '\n' || c == '\r'
}

/// `i` is where `c` first stands in `s`, or the length of `s` where it does
/// not occur.
pub open spec fn is_first_of(s: Seq<char>, c: char, i: int) -> bool {
    &&& 0 <= i <= s.len()
    &&& forall|k: int| 0 <= k < i ==> s[k] != c
    &&& i < s.len() ==> s[i] == c
}

/// Where `c` first stands in `s`, or the length of `s`.
pub open spec fn first_of(s: Seq<char>, c: char) -> int {
    choose|i: int| is_first_of(s, c, i)
}

/// `s[i..j]` is `s` without the blanks at its two ends.
pub open spec fn is_trim(s: Seq<char>, i: int, j: int) -> bool {
    &&& 0 <= i <= j <= s.len()
    &&& forall|k: int| 0 <= k < i ==> is_space(s[k])
    &&& forall|k: int| j <= k < s.len() ==> is_space(s[k])
    &&& i < j ==> !is_space(s[i]) && !is_space(s[j - 1])
}

/// `s` without the blanks at its two ends.
pub open spec fn trimmed(s: Seq<char>) -> Seq<char> {
    let (i, j) = choose|i: int, j: int| is_trim(s, i, j);
    s.subrange(i, j)
}

/// The two fields of a line: what stands before its first comma and what
/// stands behind it, each trimmed. A line without a comma has none.
pub open spec fn fields(line: Seq<char>) -> Option<(Seq<char>, Seq<char>)> {
    let at = first_of(line, ',');
    if at < line.len() {
        Some((trimmed(line.take(at)), trimmed(line.skip(at + 1))))
    } else {
        None
    }
}

/// Reading `s` from the left: the lines that were closed by a line break, and
/// the characters of the line that is still open. Empty lines are dropped.
pub open spec fn scan(s: Seq<char>) -> (Seq<Seq<char>>, Seq<char>)
    decreases s.len(),
{
    if s.len() == 0 {
        (Seq::empty(), Seq::empty())
    } else {
        let (closed, open) = scan(s.drop_last());
        if is_break(s.last()) {
            (if open.len() > 0 { closed.push(open) } else { closed }, Seq::empty())
        } else {
            (closed, open.push(s.last()))
        }
    }
}

/// The lines of a text that are not empty, in order.
pub open spec fn lines(s: Seq<char>) -> Seq<Seq<char>> {
    let (closed, open) = scan(s);
    if open.len() > 0 { closed.push(open) } else { closed }
}

/// What each vector of a sequence holds.
pub open spec fn views(v: Seq<Vec<char>>) -> Seq<Seq<char>> {
    Seq::new(v.len(), |i: int| v[i]@)
}

/// Any position that meets [`is_first_of`] is the one [`first_of`] names.
pub proof fn lemma_first_of(s: Seq<char>, c: char, i: int)
    requires
        is_first_of(s, c, i),
    ensures
        first_of(s, c) == i,
{
    let j = first_of(s, c);
    assert(is_first_of(s, c, j));
    if j < i {
        assert(s[j] != c);
    } else if i < j {
        assert(s[i] != c);
    }
}

/// Any cut that meets [`is_trim`] gives the text [`trimmed`] names.
pub proof fn lemma_trimmed(s: Seq<char>, i: int, j: int)
    requires
        is_trim(s, i, j),
    ensures
        trimmed(s) == s.subrange(i, j),
{
    let (a, b) = choose|a: int, b: int| is_trim(s, a, b);
    assert(is_trim(s, a, b));
    if i < j {
        assert(!is_space(s[i]));
        assert(!is_space(s[j - 1]));
        if a < b {
            assert(!is_space(s[a]));
            assert(!is_space(s[b - 1]));
        }
        assert(a == i && b == j);
    } else {
        if a < b {
            assert(!is_space(s[a]));
        }
        assert(s.subrange(a, b) =~= s.subrange(i, j));
    }
}

/// The characters of a text, in order.
pub fn chars_of(text: &str) -> (r: Vec<char>)
    ensures
        r@ == text@,
{
    broadcast use vstd::string::axiom_spec_iter, vstd::string::next_postcondition;

    let mut out: Vec<char> = Vec::new();
    let mut it = text.chars();
    let mut done = false;
    while !done
        invariant
            out@ + it.remaining() == text@,
            done ==> it.remaining().len() == 0,
        decreases text@.len() - out@.len() + (if done { 0int } else { 1int }),
    {
        let ghost before = it.remaining();
        match it.next() {
            Some(c) => {
                out.push(c);
                proof {
                    assert(before == seq![c] + it.remaining());
                }
            },
            None => {
                done = true;
            },
        }
    }
    assert(out@ =~= out@ + it.remaining());
    out
}

/// `String::push`. Trusted: the character is added at the end of the text.
#[verifier::external_body]
pub(crate) fn push_char(text: &mut String, c: char)
    ensures
        final(text)@ == old(text)@.push(c),
{
    text.push(c);
}

/// `String::pop`. Trusted: the last character is taken off the text, and a
/// text without characters stays as it is.
#[verifier::external_body]
pub(crate) fn pop_char(text: &mut String)
    ensures
        final(text)@ == without_last(old(text)@),
{
    text.pop();
}

/// A text without its last character; the empty text stays empty.
pub open spec fn without_last(s: Seq<char>) -> Seq<char> {
    if s.len() > 0 { s.drop_last() } else { s }
}

/// The text that a vector of characters spells.
pub fn string_of(chars: &Vec<char>) -> (r: String)
    ensures
        r@ == chars@,
{
    let mut out = String::new();
    let mut i: usize = 0;
    while i < chars.len()
        invariant
            0 <= i <= chars.len(),
            out@ == chars@.take(i as int),
        decreases chars.len() - i,
    {
        push_char(&mut out, chars[i]);
        proof {
            assert(chars@.take(i + 1) == chars@.take(i as int).push(chars@[i as int]));
        }
        i = i + 1;
    }
    proof {
        assert(chars@.take(chars.len() as int) == chars@);
    }
    out
}

/// Whether a character is a blank.
pub fn blank(c: char) -> (r: bool)
    ensures
        r == is_space(c),
{
    c == ' ' || c == '\t' || c == '\n' || c == '\r' || c == '\x0b' || c == '\x0c'
}

/// The characters `chars[from..to]`.
pub fn copy_range(chars: &Vec<char>, from: usize, to: usize) -> (r: Vec<char>)
    requires
        from <= to <= chars.len(),
    ensures
        r@ == chars@.subrange(from as int, to as int),
{
    let mut out: Vec<char> = Vec::new();
    let mut i: usize = from;
    while i < to
        invariant
            from <= i <= to <= chars.len(),
            out@ == chars@.subrange(from as int, i as int),
        decreases to - i,
    {
        out.push(chars[i]);
        proof {
            assert(chars@.subrange(from as int, i + 1) == chars@.subrange(
                from as int,
                i as int,
            ).push(chars@[i as int]));
        }
        i = i + 1;
    }
    out
}

/// Where a character first stands, or the length where it does not occur.
pub fn find_first(chars: &Vec<char>, c: char) -> (r: usize)
    ensures
        r == first_of(chars@, c),
        0 <= r <= chars.len(),
{
    let mut i: usize = 0;
    while i < chars.len() && chars[i] != c
        invariant
            0 <= i <= chars.len(),
            forall|k: int| 0 <= k < i ==> chars@[k] != c,
        decreases chars.len() - i,
    {
        i = i + 1;
    }
    proof {
        lemma_first_of(chars@, c, i as int);
    }
    i
}

/// A text without the blanks at its two ends.
pub fn trim(chars: &Vec<char>) -> (r: Vec<char>)
    ensures
        r@ == trimmed(chars@),
{
    let mut i: usize = 0;
    while i < chars.len() && blank(chars[i])
        invariant
            0 <= i <= chars.len(),
            forall|k: int| 0 <= k < i ==> is_space(chars@[k]),
        decreases chars.len() - i,
    {
        i = i + 1;
    }
    let mut j: usize = chars.len();
    while j > i && blank(chars[j - 1])
        invariant
            i <= j <= chars.len(),
            forall|k: int| j <= k < chars.len() ==> is_space(chars@[k]),
        decreases j,
    {
        j = j - 1;
    }
    proof {
        lemma_trimmed(chars@, i as int, j as int);
    }
    copy_range(chars, i, j)
}

/// The two fields of a line, cut at its first comma and trimmed.
pub fn split_fields(line: &Vec<char>) -> (r: Option<(Vec<char>, Vec<char>)>)
    ensures
        r is Some == fields(line@) is Some,
        r matches Some(pair) ==> fields(line@) == Some((pair.0@, pair.1@)),
{
    let at = find_first(line, ',');
    if at < line.len() {
        let head = copy_range(line, 0, at);
        let tail = copy_range(line, at + 1, line.len());
        Some((trim(&head), trim(&tail)))
    } else {
        None
    }
}

/// The lines of a text that are not empty, in order.
pub fn split_lines(chars: &Vec<char>) -> (r: Vec<Vec<char>>)
    ensures
        views(r@) == lines(chars@),
{
    let mut closed: Vec<Vec<char>> = Vec::new();
    let mut open: Vec<char> = Vec::new();
    let mut i: usize = 0;
    while i < chars.len()
        invariant
            0 <= i <= chars.len(),
            (views(closed@), open@) == scan(chars@.take(i as int)),
        decreases chars.len() - i,
    {
        let c = chars[i];
        proof {
            assert(chars@.take(i + 1).drop_last() == chars@.take(i as int));
        }
        let ghost before = views(closed@);
        if c == '\n' || c == '\r' {
            if open.len() > 0 {
                let ghost line = open@;
                closed.push(open);
                proof {
                    assert(views(closed@) =~= before.push(line));
                }
            }
            open = Vec::new();
        } else {
            open.push(c);
        }
        i = i + 1;
    }
    proof {
        assert(chars@.take(chars.len() as int) == chars@);
    }
    if open.len() > 0 {
        let ghost before = views(closed@);
        let ghost line = open@;
        closed.push(open);
        proof {
            assert(views(closed@) =~= before.push(line));
        }
    }
    closed
}

} // verus!
