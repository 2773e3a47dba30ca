//! Picking out the lines of a text that contain a pattern.
use crate::split::absent;
use vstd::prelude::*;

verus! {

/// The lines of a text, without their line endings.
pub uninterp spec fn lines_in(s: Seq<char>) -> Seq<Seq<char>>;

/// The text of each string.
pub open spec fn texts(v: Seq<&str>) -> Seq<Seq<char>> {
    v.map_values(|l: &str| l@)
}

/// The lines among `lines` in which `pattern` occurs, in order.
pub open spec fn matching(lines: Seq<Seq<char>>, pattern: Seq<char>) -> Seq<Seq<char>>
    decreases lines.len(),
{
    if lines.len() == 0 {
        Seq::empty()
    } else {
        let before = matching(lines.drop_last(), pattern);
        if absent(lines.last(), pattern) {
            before
        } else {
            before.push(lines.last())
        }
    }
}

/// Relies on `str::lines`: the lines of a text depend on the text alone.
#[verifier::external_body]
fn lines_of<'a>(s: &'a str) -> (r: Vec<&'a str>)
    ensures
        texts(r@) == lines_in(s@),
{
    s.lines().collect()
}

/// Relies on `str::contains` with a `&str`: whether `pattern` occurs in
/// `line`.
#[verifier::external_body]
fn contains(line: &str, pattern: &str) -> (r: bool)
    ensures
        r == !absent(line@, pattern@),
{
    line.contains(pattern)
}

/// The lines among `lines` in which `pattern` occurs, in order.
pub fn select_matching<'a>(lines: &Vec<&'a str>, pattern: &str) -> (r: Vec<&'a str>)
    ensures
        texts(r@) == matching(texts(lines@), pattern@),
{
    let mut r: Vec<&'a str> = Vec::new();
    let mut i: usize = 0;
    while i < lines.len()
        invariant
            i <= lines@.len(),
            texts(r@) == matching(texts(lines@.subrange(0, i as int)), pattern@),
        decreases lines@.len() - i,
    {
        let ghost before = r@;
        assert(texts(lines@.subrange(0, i + 1)).drop_last() =~= texts(lines@.subrange(0, i as int)));
        if contains(lines[i], pattern) {
            r.push(lines[i]);
            assert(texts(r@) =~= texts(before).push(lines@[i as int]@));
        }
        i = i + 1;
    }
    assert(lines@.subrange(0, i as int) =~= lines@);
    r
}

/// The lines of `content` in which `pattern` occurs, in order.
pub fn matching_lines<'a>(content: &'a str, pattern: &str) -> (r: Vec<&'a str>)
    ensures
        texts(r@) == matching(lines_in(content@), pattern@),
{
    let lines = lines_of(content);
    select_matching(&lines, pattern)
}

} // verus!
