//! Splitting strings at a delimiter, one piece at a time.
use vstd::prelude::*;

verus! {

/// `d` occurs in `s` starting at `i`.
pub open spec fn occurs_at(s: Seq<char>, d: Seq<char>, i: int) -> bool {
    0 <= i && i + d.len() <= s.len() && s.subrange(i, i + d.len()) == d
}

/// `d` occurs nowhere in `s`.
pub open spec fn absent(s: Seq<char>, d: Seq<char>) -> bool {
    forall|i: int| !#[trigger] occurs_at(s, d, i)
}

/// `s` is `before`, then the first occurrence of `d`, then `after`.
pub open spec fn first_split(s: Seq<char>, d: Seq<char>, before: Seq<char>, after: Seq<char>) -> bool {
    &&& s == before + d + after
    &&& forall|i: int| 0 <= i < before.len() ==> !#[trigger] occurs_at(s, d, i)
}

proof fn lemma_split_occurs(s: Seq<char>, d: Seq<char>, before: Seq<char>, after: Seq<char>)
    requires
        first_split(s, d, before, after),
    ensures
        !absent(s, d),
{
    assert(s.subrange(before.len() as int, (before.len() + d.len()) as int) =~= d);
    assert(occurs_at(s, d, before.len() as int));
}

/// Relies on `str::split_once` with a `char`: the text before the first
/// occurrence of `c` and the text after it, or nothing if `c` does not occur.
#[verifier::external_body]
fn split_once_char<'a>(s: &'a str, c: char) -> (r: Option<(&'a str, &'a str)>)
    ensures
        r is None <==> absent(s@, seq![c]),
        r matches Some(p) ==> first_split(s@, seq![c], p.0@, p.1@),
{
    s.split_once(c)
}

/// Relies on `str::split_once` with a `&str`: the text before the first
/// occurrence of `d` and the text after it, or nothing if `d` does not occur.
#[verifier::external_body]
fn split_once_str<'a>(s: &'a str, d: &str) -> (r: Option<(&'a str, &'a str)>)
    ensures
        r is None <==> absent(s@, d@),
        r matches Some(p) ==> first_split(s@, d@, p.0@, p.1@),
{
    s.split_once(d)
}

/// Something that strings are split at.
pub trait Delimiter {
    /// The text that separates the pieces.
    spec fn pattern(&self) -> Seq<char>;

    /// The text before the first occurrence of the delimiter in `s` and the
    /// text after it, or nothing if it does not occur.
    fn split_next<'a>(&self, s: &'a str) -> (r: Option<(&'a str, &'a str)>)
        ensures
            r is None <==> absent(s@, self.pattern()),
            r matches Some(p) ==> first_split(s@, self.pattern(), p.0@, p.1@),
    ;
}

impl Delimiter for &str {
    open spec fn pattern(&self) -> Seq<char> {
        (*self)@
    }

    fn split_next<'a>(&self, s: &'a str) -> (r: Option<(&'a str, &'a str)>) {
        split_once_str(s, *self)
    }
}

impl Delimiter for char {
    open spec fn pattern(&self) -> Seq<char> {
        seq![*self]
    }

    fn split_next<'a>(&self, s: &'a str) -> (r: Option<(&'a str, &'a str)>) {
        split_once_char(s, *self)
    }
}

/// The pieces of a string between the occurrences of a delimiter, in order.
pub struct StrSplit<'a, T> {
    remainder: Option<&'a str>,
    delimiter: T,
}

impl<'a, T: Delimiter> StrSplit<'a, T> {
    /// The text not yet split, or nothing once the last piece is out.
    pub closed spec fn rest(&self) -> Option<Seq<char>> {
        match self.remainder {
            Some(r) => Some(r@),
            None => None,
        }
    }

    /// The delimiter.
    pub closed spec fn delim(&self) -> T {
        self.delimiter
    }

    /// Splits `haystack` at each `delimiter`.
    pub fn new(haystack: &'a str, delimiter: T) -> (r: Self)
        ensures
            r.rest() == Some(haystack@),
            r.delim() == delimiter,
    {
        StrSplit { remainder: Some(haystack), delimiter }
    }

    /// The next piece: the text up to the next delimiter, or, after the last
    /// delimiter, all the rest; nothing once that has been handed out.
    pub fn next(&mut self) -> (r: Option<&'a str>)
        ensures
            final(self).delim() == old(self).delim(),
            old(self).rest() is None ==> r is None && final(self).rest() is None,
            old(self).rest() matches Some(text) ==> (r matches Some(piece) && match final(self).rest() {
                Some(after) => first_split(text, old(self).delim().pattern(), piece@, after),
                None => piece@ == text && absent(text, old(self).delim().pattern()),
            }),
    {
        match self.remainder {
            Some(remainder) => match self.delimiter.split_next(remainder) {
                Some((piece, after)) => {
                    self.remainder = Some(after);
                    Some(piece)
                },
                None => {
                    self.remainder = None;
                    Some(remainder)
                },
            },
            None => None,
        }
    }
}

/// The text of `s` before the first `c`, or all of `s` if there is none.
pub fn until_char(s: &str, c: char) -> (r: &str)
    ensures
        absent(s@, seq![c]) ==> r@ == s@,
        !absent(s@, seq![c]) ==> exists|after: Seq<char>| first_split(s@, seq![c], r@, after),
{
    let mut split = StrSplit::new(s, c);
    match split.next() {
        Some(piece) => {
            proof {
                if let Some(after) = split.rest() {
                    lemma_split_occurs(s@, seq![c], piece@, after);
                }
            }
            piece
        },
        None => {
            proof {
                assert(false);
            }
            s
        },
    }
}

/// Takes the first token off `s`: returns the text before the first `delim`
/// and leaves `s` at the text after it; with no `delim`, returns all of `s`
/// and leaves it empty.
pub fn strtok<'a, 'b>(s: &'a mut &'b str, delim: char) -> (r: &'b str)
    ensures
        absent(old(s)@, seq![delim]) ==> r@ == old(s)@ && final(s)@ == Seq::<char>::empty(),
        !absent(old(s)@, seq![delim]) ==> first_split(old(s)@, seq![delim], r@, final(s)@),
{
    match split_once_char(*s, delim) {
        Some((token, rest)) => {
            *s = rest;
            token
        },
        None => {
            let token = *s;
            proof {
                reveal_strlit("");
            }
            *s = "";
            token
        },
    }
}

} // verus!
