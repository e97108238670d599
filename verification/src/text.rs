//! Plain operations on text, with texts seen as sequences of characters.
use vstd::prelude::*;

verus! {

/// `String::push` appends one character to the end of the string.
pub assume_specification[ String::push ](text: &mut String, c: char)
    ensures
        final(text)@ == old(text)@.push(c),
;

/// `std::str::from_utf8`: bytes that are valid UTF-8 are read as the text they
/// encode, all others are refused.
#[verifier::external_body]
pub(crate) fn utf8_text(bytes: &Vec<u8>) -> (text: Option<String>)
    ensures
        text is Some <==> vstd::utf8::valid_utf8(bytes@),
        text matches Some(t) ==> t@ == vstd::utf8::decode_utf8(bytes@),
{
    let text = std::str::from_utf8(bytes).ok()?;
    Some(text.to_owned())
}

/// `text` begins with `word`.
pub open spec fn begins_with(text: Seq<char>, word: Seq<char>) -> bool {
    word.len() <= text.len() && text.take(word.len() as int) == word
}

/// `text` with every occurrence of `word` taken out, from left to right.
pub open spec fn without(text: Seq<char>, word: Seq<char>) -> Seq<char>
    decreases text.len(),
{
    if word.len() == 0 || text.len() == 0 {
        text
    } else if begins_with(text, word) {
        without(text.skip(word.len() as int), word)
    } else {
        seq![text[0]] + without(text.skip(1), word)
    }
}

/// `word` occurs somewhere in `text`.
pub open spec fn occurs(word: Seq<char>, text: Seq<char>) -> bool {
    exists|i: int| 0 <= i <= text.len() && #[trigger] begins_with(text.skip(i), word)
}

/// The digit that stands for `n`.
pub open spec fn digit(n: nat) -> char {
    (48 + n) as char
}

/// `n` in decimal, without leading zeros.
pub open spec fn decimal(n: nat) -> Seq<char>
    decreases n,
{
    if n < 10 {
        seq![digit(n)]
    } else {
        decimal(n / 10).push(digit(n % 10))
    }
}

/// `n` in decimal, with a leading minus sign where it is negative.
pub open spec fn signed_decimal(n: int) -> Seq<char> {
    if n < 0 {
        seq!['-'] + decimal((-n) as nat)
    } else {
        decimal(n as nat)
    }
}

/// The characters of `text`, in order.
pub fn characters(text: &str) -> (chars: Vec<char>)
    ensures
        chars@ == text@,
{
    let mut chars: Vec<char> = Vec::new();
    for c in it: text.chars()
        invariant
            chars@ == it.seq().take(it.index() as int),
            it.seq() == text@,
    {
        chars.push(c);
    }
    chars
}

/// Whether `word` stands in `text` at position `at`.
pub fn stands_at(text: &Vec<char>, at: usize, word: &Vec<char>) -> (found: bool)
    requires
        at <= text@.len(),
    ensures
        found == begins_with(text@.skip(at as int), word@),
{
    if text.len() - at < word.len() {
        return false;
    }
    let mut i: usize = 0;
    while i < word.len()
        invariant
            i <= word@.len(),
            at + word@.len() <= text.len(),
            forall|j: int| 0 <= j < i ==> text@[at + j] == #[trigger] word@[j],
        decreases word@.len() - i,
    {
        if text[at + i] != word[i] {
            assert(text@.skip(at as int).take(word@.len() as int)[i as int] != word@[i as int]);
            return false;
        }
        i = i + 1;
    }
    assert(text@.skip(at as int).take(word@.len() as int) =~= word@);
    true
}

/// `text` with every occurrence of `word` taken out.
pub fn without_word(text: &str, word: &str) -> (rest: String)
    ensures
        rest@ == without(text@, word@),
{
    let chars = characters(text);
    let letters = characters(word);
    let mut rest = String::new();
    if letters.len() == 0 {
        return text.to_owned();
    }
    let mut i: usize = 0;
    assert(chars@.skip(0) =~= chars@);
    assert(rest@ + without(chars@, letters@) =~= without(chars@, letters@));
    while i < chars.len()
        invariant
            i <= chars@.len(),
            letters@.len() > 0,
            rest@ + without(chars@.skip(i as int), letters@) == without(chars@, letters@),
        decreases chars@.len() - i,
    {
        let ghost tail = chars@.skip(i as int);
        if stands_at(&chars, i, &letters) {
            i = i + letters.len();
            assert(tail.skip(letters@.len() as int) =~= chars@.skip(i as int));
        } else {
            let ghost before = rest@;
            rest.push(chars[i]);
            i = i + 1;
            assert(tail.skip(1) =~= chars@.skip(i as int));
            assert(rest@ + without(chars@.skip(i as int), letters@) =~= before + (seq![tail[0]]
                + without(chars@.skip(i as int), letters@)));
        }
    }
    assert(rest@ + without(chars@.skip(i as int), letters@) =~= rest@);
    rest
}

/// Whether `text` begins with `word`.
pub fn starts_with(text: &str, word: &str) -> (starts: bool)
    ensures
        starts == begins_with(text@, word@),
{
    let chars = characters(text);
    let letters = characters(word);
    assert(chars@.skip(0) =~= chars@);
    stands_at(&chars, 0, &letters)
}

/// `n` in decimal.
pub fn decimal_text(n: u64) -> (text: String)
    ensures
        text@ == decimal(n as nat),
    decreases n,
{
    let mut text = if n < 10 {
        String::new()
    } else {
        decimal_text(n / 10)
    };
    let last: u8 = (n % 10) as u8;
    text.push((48u8 + last) as char);
    assert(n < 10 ==> Seq::<char>::empty().push(digit(n as nat)) =~= seq![digit(n as nat)]);
    text
}

/// `n` in decimal, with its sign.
pub fn signed_decimal_text(n: i32) -> (text: String)
    ensures
        text@ == signed_decimal(n as int),
{
    let wide: i64 = n as i64;
    if wide < 0 {
        let mut text = String::new();
        text.push('-');
        let size = decimal_text((-wide) as u64);
        text.append(size.as_str());
        assert(text@ =~= seq!['-'] + decimal((-wide) as nat));
        text
    } else {
        decimal_text(wide as u64)
    }
}

/// Taking a word out of a text in which it does not occur leaves the text.
pub proof fn lemma_without_absent(text: Seq<char>, word: Seq<char>)
    requires
        !occurs(word, text),
    ensures
        without(text, word) == text,
    decreases text.len(),
{
    if word.len() > 0 && text.len() > 0 {
        assert(text.skip(0) =~= text);
        let tail = text.skip(1);
        assert forall|i: int| 0 <= i <= tail.len() implies !#[trigger] begins_with(
            tail.skip(i),
            word,
        ) by {
            assert(tail.skip(i) =~= text.skip(i + 1));
        }
        lemma_without_absent(tail, word);
        assert(seq![text[0]] + tail =~= text);
    }
}

/// Taking a word out of a text that it leads, and in whose rest it does not
/// occur, leaves that rest.
pub proof fn lemma_without_leading(word: Seq<char>, rest: Seq<char>)
    requires
        !occurs(word, rest),
    ensures
        without(word + rest, word) == rest,
{
    if word.len() > 0 {
        assert((word + rest).take(word.len() as int) =~= word);
        assert((word + rest).skip(word.len() as int) =~= rest);
    } else {
        assert(word + rest =~= rest);
    }
    lemma_without_absent(rest, word);
}

} // verus!
