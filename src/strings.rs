//! Fixed-width, NUL-terminated string fields.
use vstd::prelude::*;
use vstd::utf8::{decode_utf8, valid_utf8};

verus! {

/// The bytes of a fixed-width field before its first NUL.
pub open spec fn until_nul(s: Seq<u8>) -> Seq<u8>
    decreases s.len(),
{
    if s.len() == 0 {
        seq![]
    } else if s[0] == 0 {
        seq![]
    } else {
        seq![s[0]] + until_nul(s.drop_first())
    }
}

/// A path field read as Latin-1, with `\` turned into `/`.
pub open spec fn path_chars(s: Seq<u8>) -> Seq<char> {
    until_nul(s).map_values(|b: u8| if b == 0x5c { '/' } else { b as char })
}

/// Relies on `String::from_utf8`: it accepts exactly the valid UTF-8 byte
/// strings and decodes them.
#[verifier::external_body]
fn utf8_string(bytes: Vec<u8>) -> (r: Option<String>)
    ensures
        r is Some <==> valid_utf8(bytes@),
        r matches Some(s) ==> s@ == decode_utf8(bytes@),
{
    String::from_utf8(bytes).ok()
}

/// Relies on `String::from_iter` over `char`s: the string holds those characters.
#[verifier::external_body]
fn string_of_chars(chars: &Vec<char>) -> (r: String)
    ensures
        r@ == chars@,
{
    chars.iter().collect()
}

proof fn lemma_until_nul_step(s: Seq<u8>, i: int)
    requires
        0 <= i < s.len(),
        forall|j: int| 0 <= j < i ==> s[j] != 0,
    ensures
        s[i] == 0 ==> until_nul(s) == s.subrange(0, i),
    decreases i,
{
    if i > 0 {
        lemma_until_nul_step(s.drop_first(), i - 1);
        assert(s.drop_first().subrange(0, i - 1) =~= s.subrange(1, i));
        assert(seq![s[0]] + s.subrange(1, i) =~= s.subrange(0, i));
    } else {
        assert(s.subrange(0, 0) =~= Seq::<u8>::empty());
    }
}

proof fn lemma_until_nul_all(s: Seq<u8>)
    requires
        forall|j: int| 0 <= j < s.len() ==> s[j] != 0,
    ensures
        until_nul(s) == s,
    decreases s.len(),
{
    if s.len() > 0 {
        lemma_until_nul_all(s.drop_first());
        assert(seq![s[0]] + s.drop_first() =~= s);
    }
}

/// The bytes of `input` before its first NUL.
pub fn bytes_until_nul(input: &[u8]) -> (r: Vec<u8>)
    ensures
        r@ == until_nul(input@),
{
    let mut output: Vec<u8> = Vec::new();
    let mut i: usize = 0;
    while i < input.len()
        invariant
            i <= input@.len(),
            output@ == input@.subrange(0, i as int),
            forall|j: int| 0 <= j < i ==> input@[j] != 0,
        decreases input@.len() - i,
    {
        proof {
            lemma_until_nul_step(input@, i as int);
        }
        if input[i] == 0 {
            return output;
        }
        output.push(input[i]);
        assert(output@ =~= input@.subrange(0, i + 1));
        i = i + 1;
    }
    proof {
        lemma_until_nul_all(input@);
        assert(input@.subrange(0, input@.len() as int) =~= input@);
    }
    output
}

/// The text of a fixed-width field: its bytes before the first NUL, decoded as
/// UTF-8, or `None` when they are not valid UTF-8.
pub fn try_clean_string(input: &[u8]) -> (r: Option<String>)
    ensures
        r is Some <==> valid_utf8(until_nul(input@)),
        r matches Some(s) ==> s@ == decode_utf8(until_nul(input@)),
{
    let bytes = bytes_until_nul(input);
    utf8_string(bytes)
}

/// The text of a fixed-width field: its bytes before the first NUL, decoded as
/// UTF-8.
pub fn clean_string(input: &[u8]) -> (r: String)
    requires
        valid_utf8(until_nul(input@)),
    ensures
        r@ == decode_utf8(until_nul(input@)),
{
    match try_clean_string(input) {
        Some(s) => s,
        None => String::new(),
    }
}

/// A path field: its bytes before the first NUL, each read as the character of
/// the same code (Latin-1), with backslashes turned into slashes.
pub fn clean_path(input: &[u8]) -> (r: String)
    ensures
        r@ == path_chars(input@),
{
    let bytes = bytes_until_nul(input);
    let mut chars: Vec<char> = Vec::new();
    let mut i: usize = 0;
    while i < bytes.len()
        invariant
            i <= bytes@.len(),
            chars@ == bytes@.subrange(0, i as int).map_values(
                |b: u8|
                    if b == 0x5c {
                        '/'
                    } else {
                        b as char
                    },
            ),
        decreases bytes@.len() - i,
    {
        let b = bytes[i];
        let c: char = if b == 0x5c {
            '/'
        } else {
            b as char
        };
        chars.push(c);
        assert(chars@ =~= bytes@.subrange(0, i + 1).map_values(
            |b: u8|
                if b == 0x5c {
                    '/'
                } else {
                    b as char
                },
        ));
        i = i + 1;
    }
    assert(bytes@.subrange(0, bytes@.len() as int) =~= bytes@);
    string_of_chars(&chars)
}

} // verus!
