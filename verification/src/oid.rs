use crate::error::{describe, is_detail};
use vstd::prelude::*;

verus! {

/// `String::push`: the character is added at the end of the text.
pub assume_specification[ String::push ](s: &mut String, c: char)
    ensures
        final(s)@ == old(s)@.push(c),
;

/// The hex digit for a value below sixteen, in lower case.
pub open spec fn hex_digit(n: int) -> char {
    if n == 0 {
        '0'
    } else if n == 1 {
        '1'
    } else if n == 2 {
        '2'
    } else if n == 3 {
        '3'
    } else if n == 4 {
        '4'
    } else if n == 5 {
        '5'
    } else if n == 6 {
        '6'
    } else if n == 7 {
        '7'
    } else if n == 8 {
        '8'
    } else if n == 9 {
        '9'
    } else if n == 10 {
        'a'
    } else if n == 11 {
        'b'
    } else if n == 12 {
        'c'
    } else if n == 13 {
        'd'
    } else if n == 14 {
        'e'
    } else {
        'f'
    }
}

/// The value of a hex digit of either case, or nothing for another character.
pub open spec fn hex_digit_value(c: char) -> Option<int> {
    if '0' <= c <= '9' {
        Some(c as int - '0' as int)
    } else if 'a' <= c <= 'f' {
        Some(c as int - 'a' as int + 10)
    } else if 'A' <= c <= 'F' {
        Some(c as int - 'A' as int + 10)
    } else {
        None
    }
}

/// The canonical text of an id: two lower-case hex digits for each byte, the
/// high half first.
pub open spec fn hex_text(bytes: Seq<u8>) -> Seq<char> {
    Seq::new(
        2 * bytes.len(),
        |i: int|
            if i % 2 == 0 {
                hex_digit(bytes[i / 2] as int / 16)
            } else {
                hex_digit(bytes[i / 2] as int % 16)
            },
    )
}

/// Whether `text` can be read as an id: one to forty hex digits.
pub open spec fn is_hex_id(text: Seq<char>) -> bool {
    &&& 1 <= text.len() <= 40
    &&& forall|i: int| 0 <= i < text.len() ==> hex_digit_value(#[trigger] text[i]) is Some
}

/// The value of the hex digit at `at`, or zero past the end of `text`.
pub open spec fn nibble_at(text: Seq<char>, at: int) -> int {
    if 0 <= at < text.len() {
        hex_digit_value(text[at]).unwrap_or(0)
    } else {
        0
    }
}

/// The twenty bytes that `text` stands for: digit pairs from the left, with
/// zeros where the text has ended.
pub open spec fn hex_value(text: Seq<char>) -> Seq<u8> {
    Seq::new(20, |i: int| (16 * nibble_at(text, 2 * i) + nibble_at(text, 2 * i + 1)) as u8)
}

/// `git2::Oid::from_str`: it accepts one to forty hex digits of either case
/// and reads them as digit pairs from the left, the missing ones being zero;
/// anything else is an error.
#[verifier::external_body]
fn oid_from_hex(text: &str) -> (r: Result<GitOid, git2::Error>)
    ensures
        r is Ok <==> is_hex_id(text@),
        r matches Ok(id) ==> id@ == hex_value(text@),
{
    let oid = git2::Oid::from_str(text)?;
    let mut raw = [0u8; 20];
    raw.copy_from_slice(oid.as_bytes());
    Ok(GitOid(raw))
}

/// The identity of an object of the store: the twenty bytes of its hash.
#[derive(Clone, Copy, Debug, PartialEq, Eq)]
pub struct GitOid(pub [u8; 20]);

impl View for GitOid {
    type V = Seq<u8>;

    open spec fn view(&self) -> Seq<u8> {
        self.0@
    }
}

impl DeepView for GitOid {
    type V = Seq<u8>;

    open spec fn deep_view(&self) -> Seq<u8> {
        self.0@
    }
}

/// The hex digit for a value below sixteen.
fn digit_char(n: u8) -> (c: char)
    requires
        n < 16,
    ensures
        c == hex_digit(n as int),
{
    if n == 0 {
        '0'
    } else if n == 1 {
        '1'
    } else if n == 2 {
        '2'
    } else if n == 3 {
        '3'
    } else if n == 4 {
        '4'
    } else if n == 5 {
        '5'
    } else if n == 6 {
        '6'
    } else if n == 7 {
        '7'
    } else if n == 8 {
        '8'
    } else if n == 9 {
        '9'
    } else if n == 10 {
        'a'
    } else if n == 11 {
        'b'
    } else if n == 12 {
        'c'
    } else if n == 13 {
        'd'
    } else if n == 14 {
        'e'
    } else {
        'f'
    }
}

/// The bytes of the id that names no object: twenty zeros.
pub open spec fn zero_bytes() -> Seq<u8> {
    Seq::new(20, |i: int| 0u8)
}

/// Whether `text` is an abbreviated id: the hex text of some id, cut short
/// anywhere, be it to nothing.
pub open spec fn is_abbreviation(text: Seq<char>) -> bool {
    exists|id: Seq<u8>| id.len() == 20 && text.is_prefix_of(#[trigger] hex_text(id))
}

/// The empty text is an abbreviated id: nothing is left of the hex text.
pub proof fn lemma_empty_abbreviation()
    ensures
        is_abbreviation(Seq::<char>::empty()),
{
    let id = Seq::new(20, |i: int| 0u8);
    assert(Seq::<char>::empty().is_prefix_of(hex_text(id)));
}

/// The value of a hex digit is the number that it was made from.
pub proof fn lemma_hex_digit_value(n: int)
    requires
        0 <= n < 16,
    ensures
        hex_digit_value(hex_digit(n)) == Some(n),
{
}

/// The canonical text of an id reads back as that id.
pub proof fn lemma_hex_round_trip(bytes: Seq<u8>)
    requires
        bytes.len() == 20,
    ensures
        hex_text(bytes).len() == 40,
        is_hex_id(hex_text(bytes)),
        hex_value(hex_text(bytes)) == bytes,
{
    let text = hex_text(bytes);
    assert forall|i: int| 0 <= i < text.len() implies hex_digit_value(#[trigger] text[i]) is Some by {
        let b = bytes[i / 2] as int;
        lemma_hex_digit_value(b / 16);
        lemma_hex_digit_value(b % 16);
    }
    assert forall|i: int| 0 <= i < 20 implies hex_value(text)[i] == bytes[i] by {
        let b = bytes[i] as int;
        lemma_hex_digit_value(b / 16);
        lemma_hex_digit_value(b % 16);
        assert((2 * i) / 2 == i && (2 * i) % 2 == 0);
        assert((2 * i + 1) / 2 == i && (2 * i + 1) % 2 == 1);
        assert(text[2 * i] == hex_digit(b / 16));
        assert(text[2 * i + 1] == hex_digit(b % 16));
        assert(16 * (b / 16) + b % 16 == b);
    }
    assert(hex_value(text) =~= bytes);
}

impl GitOid {
    /// Reads an id from hex digits. One to forty digits of either case are
    /// accepted, and a text shorter than forty digits stands for the id that
    /// begins with them and goes on with zeros. Any other text is refused,
    /// with the rendering of the backend's error for the reason.
    pub fn parse(text: &str) -> (r: Result<GitOid, String>)
        ensures
            r is Ok <==> is_hex_id(text@),
            r matches Ok(id) ==> id@ == hex_value(text@),
            r matches Err(message) ==> is_detail(message@),
    {
        match oid_from_hex(text) {
            Ok(id) => Ok(id),
            Err(e) => Err(describe(&e)),
        }
    }

    /// The id given, or the zero id where none is given.
    pub fn or_zero(id: Option<GitOid>) -> (r: GitOid)
        ensures
            r@ == match id {
                Some(given) => given@,
                None => zero_bytes(),
            },
    {
        match id {
            Some(given) => given,
            None => GitOid::zero(),
        }
    }

    /// The id whose bytes are all zero, which names no object.
    pub fn zero() -> (id: Self)
        ensures
            id@ == zero_bytes(),
    {
        let id = GitOid([0u8; 20]);
        assert(id@ =~= zero_bytes());
        id
    }

    /// The canonical text of the id: forty lower-case hex digits.
    pub fn to_hex(&self) -> (text: String)
        ensures
            text@ == hex_text(self@),
    {
        let mut text = String::new();
        let mut i: usize = 0;
        while i < 20
            invariant
                i <= 20,
                text@ == hex_text(self@).take(2 * i),
            decreases 20 - i,
        {
            let b: u8 = self.0[i];
            text.push(digit_char(b / 16));
            text.push(digit_char(b % 16));
            i = i + 1;
            assert(text@ =~= hex_text(self@).take(2 * i));
        }
        assert(text@ =~= hex_text(self@));
        text
    }
}

} // verus!
