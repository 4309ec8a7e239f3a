//! Text handling: the characters of a line, letter case, and tokens.

use vstd::prelude::*;

verus! {

/// The characters of a string slice.
pub fn chars_of(s: &str) -> (v: Vec<char>)
    ensures
        v@ == s@,
{
    broadcast use vstd::string::axiom_spec_iter;

    let mut v: Vec<char> = Vec::new();
    for c in it: s.chars()
        invariant
            it.seq() == s@,
            v@ == it.seq().take(it.index()),
    {
        v.push(c);
    }
    v
}

/// Whether a token and a string slice hold the same characters.
pub fn matches_text(token: &Vec<char>, text: &str) -> (r: bool)
    ensures
        r == (token@ == text@),
{
    let n: usize = text.unicode_len();
    if token.len() != n {
        return false;
    }
    let mut i: usize = 0;
    while i < n
        invariant
            n == token@.len(),
            n == text@.len(),
            i <= n,
            forall|j: int| 0 <= j < i ==> token@[j] == text@[j],
        decreases n - i,
    {
        if token[i] != text.get_char(i) {
            return false;
        }
        i += 1;
    }
    assert(token@ =~= text@);
    true
}

/// Tells whether two texts hold the same characters.
pub fn same_text(a: &Vec<char>, b: &Vec<char>) -> (r: bool)
    ensures
        r == (a@ == b@),
{
    if a.len() != b.len() {
        return false;
    }
    let mut i: usize = 0;
    while i < a.len()
        invariant
            a.len() == b.len(),
            i <= a.len(),
            forall|j: int| 0 <= j < i ==> a@[j] == b@[j],
        decreases a.len() - i,
    {
        if a[i] != b[i] {
            return false;
        }
        i += 1;
    }
    assert(a@ =~= b@);
    true
}

/// An ASCII capital letter gives its small letter; any other character
/// gives itself.
pub open spec fn lower(c: char) -> char {
    if 'A' <= c && c <= 'Z' {
        ((c as u8) + 32) as char
    } else {
        c
    }
}

/// A text with its ASCII capital letters made small.
pub open spec fn ascii_lowercase(s: Seq<char>) -> Seq<char> {
    Seq::new(s.len(), |i: int| lower(s[i]))
}

/// Gives the small letter of an ASCII capital letter, and any other
/// character unchanged.
pub fn lower_char(c: char) -> (r: char)
    ensures
        r == lower(c),
{
    if c >= 'A' && c <= 'Z' {
        ((c as u8) + 32) as char
    } else {
        c
    }
}

/// Makes the ASCII capital letters of a text small.
pub fn to_ascii_lowercase(s: &Vec<char>) -> (r: Vec<char>)
    ensures
        r@ == ascii_lowercase(s@),
{
    let mut r: Vec<char> = Vec::new();
    let mut i: usize = 0;
    while i < s.len()
        invariant
            i <= s.len(),
            r@ == ascii_lowercase(s@.take(i as int)),
        decreases s.len() - i,
    {
        r.push(lower_char(s[i]));
        i += 1;
        assert(r@ =~= ascii_lowercase(s@.take(i as int)));
    }
    assert(s@.take(s.len() as int) =~= s@);
    r
}

/// Whether a character is white space: the space, the controls from tab
/// to carriage return, the next-line control, and the spaces and
/// separators beyond ASCII that Unicode counts as white space.
pub open spec fn white_space(c: char) -> bool {
    ||| '\u{9}' <= c && c <= '\u{d}'
    ||| c == ' '
    ||| c == '\u{85}'
    ||| c == '\u{a0}'
    ||| c == '\u{1680}'
    ||| '\u{2000}' <= c && c <= '\u{200a}'
    ||| c == '\u{2028}'
    ||| c == '\u{2029}'
    ||| c == '\u{202f}'
    ||| c == '\u{205f}'
    ||| c == '\u{3000}'
}

/// Tells whether a character is white space.
pub fn is_whitespace(c: char) -> (r: bool)
    ensures
        r == white_space(c),
{
    (c >= '\u{9}' && c <= '\u{d}') || c == ' ' || c == '\u{85}' || c == '\u{a0}' || c == '\u{1680}'
        || (c >= '\u{2000}' && c <= '\u{200a}') || c == '\u{2028}' || c == '\u{2029}' || c
        == '\u{202f}' || c == '\u{205f}' || c == '\u{3000}'
}

/// The length of a text once the white space at its end is taken off.
pub open spec fn trimmed_len(s: Seq<char>) -> nat
    decreases s.len(),
{
    if s.len() > 0 && white_space(s.last()) {
        trimmed_len(s.drop_last())
    } else {
        s.len()
    }
}

/// Where the white space at the end of a text begins: all behind that
/// place is white space, and the character before it is none.
pub proof fn law_trimmed_len(s: Seq<char>)
    ensures
        trimmed_len(s) <= s.len(),
        forall|i: int| trimmed_len(s) <= i < s.len() ==> white_space(#[trigger] s[i]),
        trimmed_len(s) > 0 ==> !white_space(s[trimmed_len(s) - 1]),
    decreases s.len(),
{
    if s.len() > 0 && white_space(s.last()) {
        law_trimmed_len(s.drop_last());
        assert forall|i: int| trimmed_len(s) <= i < s.len() implies white_space(
            #[trigger] s[i],
        ) by {
            if i < s.len() - 1 {
                assert(s[i] == s.drop_last()[i]);
            }
        }
    }
}

/// A text without the white space at its end.
pub open spec fn trim_end(s: Seq<char>) -> Seq<char> {
    s.take(trimmed_len(s) as int)
}

/// White space behind a text does not count: it is taken off with the
/// white space that the text ends in.
pub proof fn law_trailing_white_space(s: Seq<char>, tail: Seq<char>)
    requires
        forall|i: int| 0 <= i < tail.len() ==> white_space(#[trigger] tail[i]),
    ensures
        trim_end(s + tail) == trim_end(s),
    decreases tail.len(),
{
    if tail.len() == 0 {
        assert(s + tail =~= s);
    } else {
        law_trailing_white_space(s, tail.drop_last());
        law_trimmed_len(s);
        law_trimmed_len(s + tail.drop_last());
        assert((s + tail).drop_last() =~= s + tail.drop_last());
        assert((s + tail).last() == tail.last());
        assert(trim_end(s + tail) =~= trim_end(s));
    }
}

/// Takes the white space at the end of a text off.
pub fn trim(s: &mut Vec<char>)
    ensures
        final(s)@ == trim_end(old(s)@),
{
    let n: usize = trimmed_length(s);
    s.truncate(n);
}

/// Finds where the white space at the end of a text begins.
pub fn trimmed_length(s: &Vec<char>) -> (n: usize)
    ensures
        n == trimmed_len(s@),
        n <= s.len(),
        forall|i: int| n <= i < s.len() ==> white_space(#[trigger] s@[i]),
        n > 0 ==> !white_space(s@[n - 1]),
{
    proof {
        law_trimmed_len(s@);
    }
    let mut n: usize = s.len();
    assert(s@.take(n as int) =~= s@);
    while n > 0 && is_whitespace(s[n - 1])
        invariant
            n <= s.len(),
            trimmed_len(s@) == trimmed_len(s@.take(n as int)),
        decreases n,
    {
        assert(s@.take(n as int).drop_last() =~= s@.take(n - 1));
        n -= 1;
    }
    n
}

/// The tokens of a line: the pieces between its single spaces. A line
/// with n spaces has n + 1 tokens, and a token between two adjacent
/// spaces is empty.
pub open spec fn split(s: Seq<char>) -> Seq<Seq<char>>
    decreases s.len(),
{
    if s.len() == 0 {
        seq![Seq::empty()]
    } else {
        let before = split(s.drop_last());
        if s.last() == ' ' {
            before.push(Seq::empty())
        } else {
            before.drop_last().push(before.last().push(s.last()))
        }
    }
}

/// Whether a text holds no space.
pub open spec fn spaceless(s: Seq<char>) -> bool {
    forall|i: int| 0 <= i < s.len() ==> s[i] != ' '
}

/// Tokens put together with a single space between neighbours.
pub open spec fn join(tokens: Seq<Seq<char>>) -> Seq<char>
    decreases tokens.len(),
{
    if tokens.len() == 0 {
        Seq::empty()
    } else if tokens.len() == 1 {
        tokens[0]
    } else {
        join(tokens.drop_last()).push(' ') + tokens.last()
    }
}

/// The tokens of a line hold no space, and a single space between each
/// two neighbours gives the line again.
pub proof fn law_split_joins(s: Seq<char>)
    ensures
        split(s).len() >= 1,
        join(split(s)) == s,
        forall|i: int| 0 <= i < split(s).len() ==> spaceless(#[trigger] split(s)[i]),
    decreases s.len(),
{
    if s.len() == 0 {
        assert(join(split(s)) =~= s);
    } else {
        law_split_joins(s.drop_last());
        let before = split(s.drop_last());
        let after = split(s);
        if s.last() == ' ' {
            assert(after.drop_last() =~= before);
            assert(join(after) =~= s);
        } else {
            let last = before.last().push(s.last());
            assert(after.last() == last);
            if before.len() > 1 {
                let head = join(before.drop_last()).push(' ');
                assert(after.drop_last() =~= before.drop_last());
                assert(head + last =~= (head + before.last()).push(s.last()));
            }
            assert(s =~= s.drop_last().push(s.last()));
        }
        assert forall|i: int| 0 <= i < after.len() implies spaceless(#[trigger] after[i]) by {
            if i < before.len() - 1 {
                assert(after[i] == before[i]);
            } else if i < before.len() {
                assert(spaceless(before[i]));
            }
        }
    }
}

/// A text without a space behind a line goes into the last token of the
/// line.
pub proof fn lemma_split_append(s: Seq<char>, t: Seq<char>)
    requires
        spaceless(t),
    ensures
        split(s + t) == split(s).drop_last().push(split(s).last() + t),
    decreases t.len(),
{
    law_split_joins(s);
    if t.len() == 0 {
        assert(s + t =~= s);
        assert(split(s).last() + t =~= split(s).last());
        assert(split(s).drop_last().push(split(s).last()) =~= split(s));
    } else {
        lemma_split_append(s, t.drop_last());
        assert((s + t).drop_last() =~= s + t.drop_last());
        let grown = split(s).last() + t.drop_last();
        assert(split(s).drop_last().push(grown).drop_last() =~= split(s).drop_last());
        assert(grown.push(t.last()) =~= split(s).last() + t);
    }
}

/// Only the tokens of a line give the line: texts without a space, at
/// least one, are the tokens of what they give when put together.
pub proof fn law_split_inverts_join(tokens: Seq<Seq<char>>)
    requires
        tokens.len() >= 1,
        forall|i: int| 0 <= i < tokens.len() ==> spaceless(#[trigger] tokens[i]),
    ensures
        split(join(tokens)) == tokens,
    decreases tokens.len(),
{
    if tokens.len() == 1 {
        lemma_split_append(Seq::empty(), tokens[0]);
        assert(Seq::<char>::empty() + tokens[0] =~= tokens[0]);
        assert(split(Seq::empty()) =~= seq![Seq::<char>::empty()]);
        assert(split(join(tokens)) =~= tokens);
    } else {
        let init = tokens.drop_last();
        law_split_inverts_join(init);
        let head = join(init).push(' ');
        assert(head.drop_last() =~= join(init));
        lemma_split_append(head, tokens.last());
        assert(Seq::<char>::empty() + tokens.last() =~= tokens.last());
        assert(init.push(Seq::empty()).drop_last() =~= init);
        assert(split(join(tokens)) =~= tokens);
    }
}

/// Spaces at the end of a line make no tokens: the last token of a line
/// without the white space at its end is empty only where nothing is left
/// of the line, and is the only token then.
pub proof fn law_last_token(line: Seq<char>)
    ensures
        trim_end(line).len() > 0 ==> split(trim_end(line)).last().len() > 0,
        trim_end(line).len() == 0 ==> split(trim_end(line)) == seq![Seq::<char>::empty()],
{
    law_trimmed_len(line);
    let s = trim_end(line);
    if s.len() > 0 {
        law_split_joins(s.drop_last());
        assert(s.last() == line[trimmed_len(line) - 1]);
    }
}

/// The texts that a vector of tokens holds.
pub open spec fn texts(tokens: Seq<Vec<char>>) -> Seq<Seq<char>> {
    Seq::new(tokens.len(), |i: int| tokens[i]@)
}

/// Cuts a line into its tokens: the texts without a space that give the
/// line when a single space is put between each two neighbours.
pub fn split_line(s: &Vec<char>) -> (tokens: Vec<Vec<char>>)
    ensures
        texts(tokens@) == split(s@),
        tokens.len() >= 1,
        join(texts(tokens@)) == s@,
        forall|i: int| 0 <= i < tokens.len() ==> spaceless(#[trigger] tokens@[i]@),
{
    proof {
        law_split_joins(s@);
        assert(s@.take(s.len() as int) =~= s@);
    }
    let mut tokens: Vec<Vec<char>> = Vec::new();
    let mut current: Vec<char> = Vec::new();
    let mut i: usize = 0;
    assert(texts(tokens@).push(current@) =~= split(s@.take(0)));
    while i < s.len()
        invariant
            i <= s.len(),
            texts(tokens@).push(current@) == split(s@.take(i as int)),
        decreases s.len() - i,
    {
        let c: char = s[i];
        proof {
            let next = s@.take(i + 1);
            assert(next.drop_last() =~= s@.take(i as int));
            assert(next.last() == c);
            assert(texts(tokens@).push(current@).drop_last() =~= texts(tokens@));
        }
        if c == ' ' {
            let ghost done = texts(tokens@).push(current@);
            tokens.push(current);
            current = Vec::new();
            assert(texts(tokens@) =~= done);
        } else {
            current.push(c);
        }
        i += 1;
    }
    let ghost done = texts(tokens@).push(current@);
    tokens.push(current);
    assert(texts(tokens@) =~= done);
    assert forall|i: int| 0 <= i < tokens.len() implies spaceless(#[trigger] tokens@[i]@) by {
        assert(tokens@[i]@ == texts(tokens@)[i]);
    }
    tokens
}

/// Whether every character of a text is an ASCII character.
pub open spec fn is_ascii(s: Seq<char>) -> bool {
    forall|i: int| 0 <= i < s.len() ==> s[i] <= '\x7f'
}

/// What `str::to_lowercase` makes of a text.
pub uninterp spec fn unicode_lowercase(s: Seq<char>) -> Seq<char>;

/// A text in small letters, under which a definition is kept: for a text
/// of ASCII characters its capital letters made small, for any other text
/// what the standard library makes of it.
pub open spec fn lowercase(s: Seq<char>) -> Seq<char> {
    if is_ascii(s) {
        ascii_lowercase(s)
    } else {
        unicode_lowercase(s)
    }
}

/// `str::to_lowercase`: the text in small letters by the rules of Unicode.
/// The contract says what that is for a text of ASCII characters, where
/// only the letters A to Z change, and gives the result a name for any
/// other text.
#[verifier::external_body]
pub(crate) fn to_lowercase(s: &Vec<char>) -> (r: Vec<char>)
    ensures
        is_ascii(s@) ==> r@ == ascii_lowercase(s@),
        !is_ascii(s@) ==> r@ == unicode_lowercase(s@),
{
    s.iter().collect::<String>().to_lowercase().chars().collect()
}

} // verus!
