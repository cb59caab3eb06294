//! Strings that change hands: moved into a function and back, lent out, and
//! lent out to be changed.

use vstd::prelude::*;
use vstd::utf8::{encode_utf8, is_ascii_chars, is_ascii_chars_encode_utf8};

verus! {

/// The length of a string in bytes, which is the length of its UTF-8 form.
pub open spec fn byte_length(s: Seq<char>) -> nat {
    encode_utf8(s).len()
}

/// The characters of `s` before its first blank, or all of `s` if it has none.
pub open spec fn first_word_of(s: Seq<char>) -> Seq<char>
    decreases s.len(),
{
    if s.len() == 0 || s.first() == ' ' {
        Seq::empty()
    } else {
        seq![s.first()] + first_word_of(s.drop_first())
    }
}

/// A string of ASCII characters takes one byte for each.
pub proof fn lemma_ascii_byte_length(s: Seq<char>)
    requires
        is_ascii_chars(s),
    ensures
        byte_length(s) == s.len(),
{
    is_ascii_chars_encode_utf8(s);
}

/// The first word of a string is the part before the first blank: where no
/// blank stands before index `k`, and a blank or the end of the string at it.
pub proof fn lemma_first_word_ends_at(s: Seq<char>, k: int)
    requires
        0 <= k <= s.len(),
        forall|j: int| 0 <= j < k ==> s[j] != ' ',
        k < s.len() ==> s[k] == ' ',
    ensures
        first_word_of(s) == s.take(k),
    decreases k,
{
    if k == 0 {
        assert(s.take(0) =~= Seq::<char>::empty());
    } else {
        assert(s[0] != ' ');
        let rest = s.drop_first();
        assert forall|j: int| 0 <= j < k - 1 implies rest[j] != ' ' by {
            assert(rest[j] == s[j + 1]);
        }
        lemma_first_word_ends_at(rest, k - 1);
        assert(seq![s.first()] + rest.take(k - 1) =~= s.take(k));
    }
}

/// The string "hello" twice: the first in a literal, the second joined from
/// two parts, "hello" and "world", in a string that grows.
pub fn string_demo() -> (shown: (String, String))
    ensures
        shown.0@ == "hello"@,
        shown.1@ == "helloworld"@,
{
    let a = "hello";
    let mut s = "hello".to_owned();
    s.append("world");
    proof {
        reveal_strlit("hello");
        reveal_strlit("world");
        reveal_strlit("helloworld");
        assert(s@ =~= "helloworld"@);
    }
    let greeting = "Hello world".to_owned();
    let word = first_word(&greeting);
    proof {
        reveal_strlit("Hello world");
        reveal_strlit("Hello");
        lemma_first_word_ends_at("Hello world"@, 5);
        assert("Hello world"@.take(5) =~= "Hello"@);
        assert(word@ == "Hello"@);
    }
    (a.to_owned(), s)
}

/// A string and a copy of it that shares nothing with it.
pub fn deep_clone() -> (shown: (String, String))
    ensures
        shown.0@ == "hello"@,
        shown.1@ == "hello"@,
{
    let s1 = "hello".to_owned();
    let s2 = s1.clone();
    (s1, s2)
}

/// Makes a string and an integer to be handed to two functions: the string
/// is moved and is gone afterwards, the integer is copied and stays.
/// Returns the two as they are handed over.
pub fn ownership_demo() -> (handed: (String, i32))
    ensures
        handed.0@ == "hello"@,
        handed.1 == 5,
{
    let s = "hello".to_owned();
    let x: i32 = 5;
    (s, x)
}

/// Takes a string from one function and passes another through a second.
pub fn return_ownership() {
    let s1 = gives_ownership();
    let s2 = "hello".to_owned();
    let s3 = takes_and_gives_back(s2);
    assert(s1@ == "yours"@);
    assert(s3@ == "hello"@);
}

/// Makes a string and moves it out to the caller.
pub fn gives_ownership() -> (some_string: String)
    ensures
        some_string@ == "yours"@,
{
    let some_string = "yours".to_owned();
    some_string
}

/// Takes a string and moves it back to the caller.
pub fn takes_and_gives_back(a_string: String) -> (same: String)
    ensures
        same == a_string,
{
    a_string
}

/// Measures a string three times: moved in and handed back with its length,
/// lent out, and lent out to be changed, with ", world" put at its end
/// first. Returns each string with the length that was measured.
pub fn return_borrowed_ownerhsip() -> (shown: Vec<(String, usize)>)
    ensures
        shown@.len() == 3,
        shown@[0].0@ == "hello"@ && shown@[0].1 == 5,
        shown@[1].0@ == "hello"@ && shown@[1].1 == 5,
        shown@[2].0@ == "hello, world"@ && shown@[2].1 == 12,
{
    proof {
        reveal_strlit("hello");
        reveal_strlit(", world");
        reveal_strlit("hello, world");
        lemma_ascii_byte_length("hello"@);
        lemma_ascii_byte_length("hello, world"@);
        assert("hello"@ + ", world"@ =~= "hello, world"@);
    }
    let mut shown: Vec<(String, usize)> = Vec::new();
    let s1 = "hello".to_owned();
    let (s2, len) = calculate_length(s1);
    shown.push((s2.clone(), len));
    let len = calculate_length_ref(&s2);
    shown.push((s2, len));
    let mut mut_s2 = "hello".to_owned();
    let len = calculate_length_mut_ref(&mut mut_s2);
    shown.push((mut_s2, len));
    shown
}

/// Hands a string back together with its length in bytes.
pub fn calculate_length(s: String) -> (measured: (String, usize))
    ensures
        measured.0 == s,
        measured.1 == byte_length(s@),
{
    let length = s.as_str().as_bytes().len();
    (s, length)
}

/// The length in bytes of a string that is only lent.
pub fn calculate_length_ref(s: &String) -> (length: usize)
    ensures
        length == byte_length(s@),
{
    s.as_str().as_bytes().len()
}

/// Puts ", world" at the end of a string that is lent to be changed, and
/// returns its new length in bytes.
pub fn calculate_length_mut_ref(s: &mut String) -> (length: usize)
    ensures
        final(s)@ == old(s)@ + ", world"@,
        length == byte_length(final(s)@),
{
    s.append(", world");
    s.as_str().as_bytes().len()
}

/// The first word of a string: the part before its first blank, or the whole
/// string if it has none.
pub fn first_word(s: &String) -> (word: &str)
    ensures
        word@ == first_word_of(s@),
{
    let text = s.as_str();
    let n = text.unicode_len();
    let mut i: usize = 0;
    for item in it: text.chars()
        invariant
            it.seq() == s@,
            text@ == s@,
            n == s@.len(),
            i == it.index(),
            forall|j: int| 0 <= j < i ==> s@[j] != ' ',
    {
        if item == ' ' {
            proof {
                lemma_first_word_ends_at(s@, i as int);
            }
            return text.substring_char(0, i);
        }
        i += 1;
    }
    proof {
        lemma_first_word_ends_at(s@, s@.len() as int);
        assert(s@.take(s@.len() as int) =~= s@);
    }
    text
}

/// Cuts the first two characters out of a string.
pub fn slice_demo() {
    let s = "hello".to_owned();
    proof {
        reveal_strlit("hello");
        reveal_strlit("he");
    }
    let slice = s.as_str().substring_ascii(0, 2);
    assert(slice@ =~= "he"@);
}

} // verus!
