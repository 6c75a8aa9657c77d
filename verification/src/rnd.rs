use rand::Rng;
use vstd::prelude::*;
use vstd::string::*;

verus! {

/// Draws a byte with `Rng::gen_range` on `rand::thread_rng()`, over the
/// half-open range from `low` to `high`. The crate documents that the value
/// lies in the range, and that an empty range panics.
#[verifier::external_body]
fn random_byte(low: u8, high: u8) -> (r: u8)
    requires
        low < high,
    ensures
        low <= r < high,
{
    rand::thread_rng().gen_range(low..high)
}

/// Calls `String::push` of std, which appends one character.
#[verifier::external_body]
fn push_char(s: &mut String, c: char)
    ensures
        final(s)@ == old(s)@.push(c),
{
    s.push(c)
}

pub open spec fn is_lower(c: char) -> bool {
    'a' <= c && c <= 'z'
}

pub open spec fn is_upper(c: char) -> bool {
    'A' <= c && c <= 'Z'
}

/// A text of lower-case letters only.
pub open spec fn is_lower_text(s: Seq<char>) -> bool {
    forall|i: int| 0 <= i < s.len() ==> is_lower(#[trigger] s[i])
}

/// A name: a capital and three lower-case letters.
pub open spec fn is_word(s: Seq<char>) -> bool {
    s.len() == 4 && is_upper(s[0]) && is_lower_text(s.subrange(1, 4))
}

/// What may stand at place `i` of a sentence: a capital first, a space before
/// each further word, lower-case letters elsewhere.
pub open spec fn sentence_char_ok(i: int, c: char) -> bool {
    if i == 0 {
        is_upper(c)
    } else if i >= 4 && (i - 4) % 6 == 0 {
        c == ' '
    } else {
        is_lower(c)
    }
}

/// A sentence of `words` words: a name, then words of five lower-case
/// letters, a space before each.
pub open spec fn is_sentence(s: Seq<char>, words: int) -> bool {
    s.len() == 6 * words - 2 && forall|i: int|
        0 <= i < s.len() ==> sentence_char_ok(i, #[trigger] s[i])
}

/// A random text of `len` lower-case letters.
pub fn get_word(len: usize) -> (word: String)
    ensures
        word@.len() == len,
        is_lower_text(word@),
{
    let mut word = String::new();
    let mut k: usize = 0;
    while k < len
        invariant
            k <= len,
            word@.len() == k,
            is_lower_text(word@),
        decreases len - k,
    {
        let ch: u8 = random_byte(97, 123);
        push_char(&mut word, ch as char);
        k = k + 1;
    }
    word
}

/// A random name.
pub fn write_word() -> (word: String)
    ensures
        is_word(word@),
{
    let mut word = String::new();
    let ch: u8 = random_byte(65, 91);
    push_char(&mut word, ch as char);
    let rest = get_word(3);
    word.append(rest.as_str());
    assert(word@.subrange(1, 4) =~= rest@);
    word
}

/// A random sentence of `len` words.
pub fn write_sentence(len: usize) -> (sentence: String)
    requires
        len >= 1,
    ensures
        is_sentence(sentence@, len as int),
{
    let mut sentence = String::new();
    let ch: u8 = random_byte(65, 91);
    push_char(&mut sentence, ch as char);
    let first = get_word(3);
    sentence.append(first.as_str());
    let mut k: usize = 1;
    while k < len
        invariant
            1 <= k <= len,
            is_sentence(sentence@, k as int),
        decreases len - k,
    {
        let ghost before = sentence@;
        push_char(&mut sentence, ' ');
        let next = get_word(5);
        sentence.append(next.as_str());
        assert forall|i: int| 0 <= i < sentence@.len() implies sentence_char_ok(
            i,
            #[trigger] sentence@[i],
        ) by {
            if i < before.len() {
                assert(sentence@[i] == before[i]);
            } else if i > before.len() {
                assert(sentence@[i] == next@[i - before.len() - 1]);
            }
        }
        k = k + 1;
    }
    sentence
}

} // verus!
