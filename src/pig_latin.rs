//! Pig latin: a word that starts with a vowel gets "-hay" at its end; any
//! other word has its first letter moved to its end, followed by "ay".
use vstd::prelude::*;
use crate::text::push_char;
use vstd::string::StringExecFns;

verus! {

/// The lower-case form of `c`, which may take several characters.
pub uninterp spec fn lower_of(c: char) -> Seq<char>;

/// Relies on `char::to_lowercase`: the lower-case form of a character
/// depends on the character alone.
#[verifier::external_body]
fn lowercase(c: char) -> (r: String)
    ensures
        r@ == lower_of(c),
{
    c.to_lowercase().to_string()
}

/// Relies on `str::chars`: the characters of a string, in order.
#[verifier::external_body]
fn chars_of(s: &str) -> (r: Vec<char>)
    ensures
        r@ == s@,
{
    s.chars().collect()
}

/// `needle` occurs in `hay` as a run of consecutive characters.
pub open spec fn is_infix_of(needle: Seq<char>, hay: Seq<char>) -> bool {
    exists|i: int|
        0 <= i && i + needle.len() <= hay.len() && #[trigger] hay.subrange(i, i + needle.len())
            == needle
}

/// A character counts as a vowel when its lower-case form occurs in "aeiou".
pub open spec fn vowel(c: char) -> bool {
    is_infix_of(lower_of(c), "aeiou"@)
}

/// The pig latin form of `word`, given whether its first character is a
/// vowel; nothing for an empty word.
pub open spec fn pig_latin_of(word: Seq<char>, first_is_vowel: bool) -> Option<Seq<char>> {
    if word.len() == 0 {
        None
    } else if first_is_vowel {
        Some(word + "-hay"@)
    } else if word.len() == 1 {
        Some(word + "ay"@)
    } else {
        Some(word.drop_first() + seq!['-', word[0]] + "ay"@)
    }
}

/// Whether `lower` occurs in "aeiou".
pub fn in_vowels(lower: &str) -> (r: bool)
    ensures
        r == is_infix_of(lower@, "aeiou"@),
{
    let hay = chars_of("aeiou");
    let needle = chars_of(lower);
    let h = hay.len();
    let n = needle.len();
    if n > h {
        return false;
    }
    let mut i: usize = 0;
    while i <= h - n
        invariant
            hay@ == "aeiou"@,
            needle@ == lower@,
            h == hay@.len(),
            n == needle@.len(),
            n <= h,
            i <= h - n + 1,
            forall|k: int| 0 <= k < i ==> #[trigger] hay@.subrange(k, k + n) != needle@,
        decreases h - n + 1 - i,
    {
        let mut j: usize = 0;
        let mut same = true;
        while j < n
            invariant
                h == hay@.len(),
                n == needle@.len(),
                i + n <= h,
                j <= n,
                same == forall|k: int| 0 <= k < j ==> hay@[i + k] == needle@[k],
            decreases n - j,
        {
            if hay[i + j] != needle[j] {
                same = false;
            }
            j = j + 1;
        }
        if same {
            assert(hay@.subrange(i as int, i + n) =~= needle@);
            return true;
        }
        assert(hay@.subrange(i as int, i + n) != needle@) by {
            let k = choose|k: int| 0 <= k < n && hay@[i + k] != needle@[k];
            assert(hay@.subrange(i as int, i + n)[k] != needle@[k]);
        }
        i = i + 1;
    }
    false
}

/// Whether `c` counts as a vowel.
pub fn is_vowel(c: &char) -> (r: bool)
    ensures
        r == vowel(*c),
{
    let lower = lowercase(*c);
    in_vowels(lower.as_str())
}

/// The pig latin form of `word`; `None` for an empty word.
pub fn pig_latin(word: &str) -> (r: Option<String>)
    ensures
        r is None <==> word@.len() == 0,
        r matches Some(s) ==> pig_latin_of(word@, vowel(word@[0])) == Some(s@),
{
    let chars = chars_of(word);
    if chars.len() == 0 {
        return None;
    }
    let first = chars[0];
    let mut out = String::new();
    if is_vowel(&first) {
        out.append(word);
        out.append("-hay");
    } else if chars.len() == 1 {
        out.append(word);
        out.append("ay");
    } else {
        let mut k: usize = 1;
        while k < chars.len()
            invariant
                chars@ == word@,
                1 <= k <= chars@.len(),
                out@ == word@.subrange(1, k as int),
            decreases chars@.len() - k,
        {
            push_char(&mut out, chars[k]);
            assert(word@.subrange(1, k + 1) =~= word@.subrange(1, k as int).push(chars@[k as int]));
            k = k + 1;
        }
        assert(out@ =~= word@.drop_first());
        push_char(&mut out, '-');
        push_char(&mut out, first);
        out.append("ay");
        assert(out@ =~= word@.drop_first() + seq!['-', word@[0]] + "ay"@);
    }
    Some(out)
}

} // verus!
