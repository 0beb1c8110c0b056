//! Small operations on strings that the rest of the library shares.

use vstd::prelude::*;
use vstd::string::StringExecFns;

verus! {

/// The lower-case form of `text`, as `str::to_lowercase` of the standard
/// library gives it.
pub uninterp spec fn lowercase_of(text: Seq<char>) -> Seq<char>;

/// The upper-case form of `text`, as `str::to_uppercase` of the standard
/// library gives it.
pub uninterp spec fn uppercase_of(text: Seq<char>) -> Seq<char>;

/// Calls `str::to_lowercase`. Trusted: that the result depends on the
/// characters of `text` alone.
#[verifier::external_body]
pub(crate) fn to_lowercase(text: &str) -> (r: String)
    ensures
        r@ == lowercase_of(text@),
{
    text.to_lowercase()
}

/// Calls `str::to_uppercase`. Trusted: that the result depends on the
/// characters of `text` alone.
#[verifier::external_body]
pub(crate) fn to_uppercase(text: &str) -> (r: String)
    ensures
        r@ == uppercase_of(text@),
{
    text.to_uppercase()
}

/// `text` without the white space at its two ends, as `str::trim` of the
/// standard library gives it.
pub uninterp spec fn trimmed(text: Seq<char>) -> Seq<char>;

/// Calls `str::trim` and copies what is left. Trusted: that the result
/// depends on the characters of `text` alone.
#[verifier::external_body]
pub(crate) fn trim(text: &str) -> (r: String)
    ensures
        r@ == trimmed(text@),
{
    text.trim().to_owned()
}

/// Calls `String::push`. Trusted: that the text afterwards is the text
/// before with the character at its end.
#[verifier::external_body]
pub(crate) fn push_char(text: &mut String, c: char)
    ensures
        final(text)@ == old(text)@.push(c),
{
    text.push(c)
}

/// The test "is not `unwanted`".
pub open spec fn differs_from(unwanted: char) -> spec_fn(char) -> bool {
    |c: char| c != unwanted
}

/// `text` without the characters equal to `unwanted`, the others in order.
pub open spec fn without_char(text: Seq<char>, unwanted: char) -> Seq<char> {
    text.filter(differs_from(unwanted))
}

/// Copies `text`, leaving out every `unwanted`.
pub fn remove_char(text: &str, unwanted: char) -> (r: String)
    ensures
        r@ == without_char(text@, unwanted),
{
    let mut out = String::new();
    let ghost keep = differs_from(unwanted);
    for c in it: text.chars()
        invariant
            it.seq() == text@,
            keep == differs_from(unwanted),
            out@ == text@.take(it.index() as int).filter(keep),
    {
        proof {
            let done = text@.take(it.index() as int);
            assert(text@.take(it.index() + 1) == done.push(c));
            done.lemma_filter_push(c, keep);
        }
        if c != unwanted {
            push_char(&mut out, c);
        }
    }
    proof {
        assert(text@.take(text@.len() as int) == text@);
    }
    out
}

/// The characters of `text`, one by one.
pub fn chars_of(text: &str) -> (r: Vec<char>)
    ensures
        r@ == text@,
{
    let mut out: Vec<char> = Vec::new();
    for c in it: text.chars()
        invariant
            it.seq() == text@,
            out@ == text@.take(it.index() as int),
    {
        out.push(c);
        assert(text@.take(it.index() + 1) == text@.take(it.index() as int).push(c));
    }
    assert(text@.take(text@.len() as int) == text@);
    out
}

/// `text` with every pair of the characters `first` and `second`, one
/// behind the other, replaced by the one character `with`. The pairs are
/// taken from the left, and none overlaps another.
pub open spec fn pairs_replaced(text: Seq<char>, first: char, second: char, with: char) -> Seq<char>
    decreases text.len(),
{
    if text.len() < 2 {
        text
    } else if text[0] == first && text[1] == second {
        seq![with] + pairs_replaced(text.skip(2), first, second, with)
    } else {
        seq![text[0]] + pairs_replaced(text.skip(1), first, second, with)
    }
}

/// Replaces every pair of the characters `first` and `second` in `text` by `with`.
pub fn replace_pairs(text: &str, first: char, second: char, with: char) -> (r: String)
    ensures
        r@ == pairs_replaced(text@, first, second, with),
{
    let chars = chars_of(text);
    let mut out = String::new();
    let mut i: usize = 0;
    proof {
        assert(chars@.skip(0) == chars@);
        assert(out@ + pairs_replaced(text@, first, second, with) == pairs_replaced(
            text@,
            first,
            second,
            with,
        ));
    }
    while i < chars.len()
        invariant
            i <= chars.len(),
            chars@ == text@,
            out@ + pairs_replaced(chars@.skip(i as int), first, second, with) == pairs_replaced(
                text@,
                first,
                second,
                with,
            ),
        decreases chars.len() - i,
    {
        let ghost rest = chars@.skip(i as int);
        let ghost before = out@;
        if i + 1 < chars.len() && chars[i] == first && chars[i + 1] == second {
            push_char(&mut out, with);
            proof {
                assert(rest.skip(2) == chars@.skip(i + 2));
                assert(out@ + pairs_replaced(chars@.skip(i + 2), first, second, with) == before + (
                seq![with] + pairs_replaced(rest.skip(2), first, second, with)));
            }
            i = i + 2;
        } else {
            push_char(&mut out, chars[i]);
            proof {
                assert(rest.skip(1) == chars@.skip(i + 1));
                if rest.len() < 2 {
                    assert(rest.skip(1).len() == 0);
                    assert(pairs_replaced(rest.skip(1), first, second, with) == rest.skip(1));
                    assert(rest == seq![rest[0]] + rest.skip(1));
                }
                assert(out@ + pairs_replaced(chars@.skip(i + 1), first, second, with) == before + (
                seq![rest[0]] + pairs_replaced(rest.skip(1), first, second, with)));
            }
            i = i + 1;
        }
    }
    proof {
        assert(chars@.skip(i as int).len() == 0);
        assert(out@ + chars@.skip(i as int) == out@);
    }
    out
}

/// The characters of an optional string.
pub open spec fn text_view(text: Option<String>) -> Option<Seq<char>> {
    match text {
        Some(s) => Some(s@),
        None => None,
    }
}

/// What [`concat`] makes of two optional strings.
pub open spec fn spec_concat(first: Option<Seq<char>>, second: Option<Seq<char>>) -> Option<
    Seq<char>,
> {
    match (first, second) {
        (Some(f), Some(s)) => Some(f + seq![' '] + s),
        (Some(f), None) => Some(f),
        (None, Some(s)) => Some(s),
        (None, None) => None,
    }
}

/// The two strings with a blank between them; the one that is there, where
/// one is missing; nothing where both are.
pub fn concat(first: &Option<String>, second: &Option<String>) -> (r: Option<String>)
    ensures
        text_view(r) == spec_concat(text_view(*first), text_view(*second)),
{
    match (first, second) {
        (Some(f), Some(snd)) => {
            let mut x = f.clone();
            push_char(&mut x, ' ');
            x.append(snd.as_str());
            assert(x@ == f@ + seq![' '] + snd@);
            Some(x)
        },
        (Some(f), None) => Some(f.clone()),
        (None, Some(f)) => Some(f.clone()),
        (None, None) => None,
    }
}

/// `text` in lower case if it is all upper case, else as it is.
pub open spec fn case_fixed(text: Seq<char>) -> Seq<char> {
    if uppercase_of(text) == text {
        lowercase_of(text)
    } else {
        text
    }
}

/// The accented letter that stands for a vowel followed by an apostrophe
/// or a colon, in the order in which [`cleanup_string`] replaces them.
pub open spec fn accent_rules() -> Seq<(char, char, char)> {
    seq![
        ('A', '\'', '\u{c1}'),
        ('I', '\'', '\u{cd}'),
        ('E', '\'', '\u{c9}'),
        ('O', '\'', '\u{d3}'),
        ('U', '\'', '\u{da}'),
        ('U', ':', '\u{dc}'),
        ('O', ':', '\u{d6}'),
        ('a', '\'', '\u{e1}'),
        ('i', '\'', '\u{ed}'),
        ('e', '\'', '\u{e9}'),
        ('o', '\'', '\u{f3}'),
        ('u', '\'', '\u{fa}'),
        ('u', ':', '\u{fc}'),
        ('o', ':', '\u{f6}'),
    ]
}

/// `text` after the first `n` of the accent rules have been applied, one
/// after the other.
pub open spec fn accents_restored(text: Seq<char>, n: nat) -> Seq<char>
    decreases n,
{
    if n == 0 || n > accent_rules().len() {
        text
    } else {
        let rule = accent_rules()[n - 1];
        pairs_replaced(accents_restored(text, (n - 1) as nat), rule.0, rule.1, rule.2)
    }
}

/// What [`cleanup_string`] makes of a name.
pub open spec fn spec_cleanup_string(input: Seq<char>) -> Seq<char> {
    accents_restored(case_fixed(input), 14)
}

/// A name as the bank writes it, made readable: text in capitals is put in
/// lower case, and a vowel followed by an apostrophe or a colon becomes the
/// accented letter.
pub fn cleanup_string(input: &str) -> (r: String)
    ensures
        r@ == spec_cleanup_string(input@),
{
    let upper = to_uppercase(input);
    let given = input.to_owned();
    let casefix = if upper == given {
        to_lowercase(input)
    } else {
        given
    };
    let rules: [(char, char, char); 14] = [
        ('A', '\'', '\u{c1}'),
        ('I', '\'', '\u{cd}'),
        ('E', '\'', '\u{c9}'),
        ('O', '\'', '\u{d3}'),
        ('U', '\'', '\u{da}'),
        ('U', ':', '\u{dc}'),
        ('O', ':', '\u{d6}'),
        ('a', '\'', '\u{e1}'),
        ('i', '\'', '\u{ed}'),
        ('e', '\'', '\u{e9}'),
        ('o', '\'', '\u{f3}'),
        ('u', '\'', '\u{fa}'),
        ('u', ':', '\u{fc}'),
        ('o', ':', '\u{f6}'),
    ];
    assert(rules@ =~= accent_rules());
    let mut out = casefix;
    let mut n: usize = 0;
    while n < 14
        invariant
            n <= 14,
            rules@ == accent_rules(),
            accent_rules().len() == 14,
            out@ == accents_restored(case_fixed(input@), n as nat),
        decreases 14 - n,
    {
        let rule = rules[n];
        out = replace_pairs(out.as_str(), rule.0, rule.1, rule.2);
        n = n + 1;
    }
    out
}

/// A copy of an optional string.
pub fn clone_text(text: &Option<String>) -> (r: Option<String>)
    ensures
        r == *text,
{
    match text {
        Some(s) => Some(s.clone()),
        None => None,
    }
}

/// The character of the decimal digit `d`.
pub open spec fn digit_char(d: int) -> char
    recommends
        0 <= d <= 9,
{
    (('0' as u8) + d) as char
}

/// The decimal digits of `n`, without leading zeros.
pub open spec fn nat_text(n: nat) -> Seq<char>
    decreases n,
{
    if n < 10 {
        seq![digit_char(n as int)]
    } else {
        nat_text(n / 10).push(digit_char((n % 10) as int))
    }
}

/// The whole number `n` in decimal digits, with a minus sign if it is negative.
pub open spec fn int_text(n: int) -> Seq<char> {
    if n < 0 {
        seq!['-'] + nat_text((-n) as nat)
    } else {
        nat_text(n as nat)
    }
}

/// Appends the decimal digits of `n` to `out`.
fn push_nat(out: &mut String, n: u64)
    ensures
        final(out)@ == old(out)@ + nat_text(n as nat),
    decreases n,
{
    if n >= 10 {
        push_nat(out, n / 10);
    }
    let d: u8 = (n % 10) as u8;
    let c: char = (48u8 + d) as char;
    assert(c == digit_char((n % 10) as int));
    push_char(out, c);
    proof {
        if n < 10 {
            assert(old(out)@.push(c) =~= old(out)@ + nat_text(n as nat));
        } else {
            assert((old(out)@ + nat_text((n / 10) as nat)).push(c) =~= old(out)@ + nat_text(
                n as nat,
            ));
        }
    }
}

/// The whole number `n` written in decimal digits.
pub fn int_to_text(n: i64) -> (r: String)
    ensures
        r@ == int_text(n as int),
{
    let mut out = String::new();
    if n < 0 {
        push_char(&mut out, '-');
        let magnitude: u64 = if n == i64::MIN {
            0x8000_0000_0000_0000u64
        } else {
            (-n) as u64
        };
        push_nat(&mut out, magnitude);
        assert(out@ =~= int_text(n as int));
    } else {
        push_nat(&mut out, n as u64);
        assert(out@ =~= int_text(n as int));
    }
    out
}

} // verus!
