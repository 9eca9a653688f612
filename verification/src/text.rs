use vstd::prelude::*;
use vstd::utf8::{decode_utf8, valid_utf8};

verus! {

/// The text that `String::from_utf8_lossy` makes of bytes that are not valid
/// UTF-8: what can be decoded stays, and each invalid sequence becomes
/// U+FFFD.
pub uninterp spec fn lossy_text(bytes: Seq<u8>) -> Seq<char>;

/// The text that stands for `bytes`: their decoding where they are valid
/// UTF-8, their lossy rendering where they are not.
pub open spec fn text_of(bytes: Seq<u8>) -> Seq<char> {
    if valid_utf8(bytes) {
        decode_utf8(bytes)
    } else {
        lossy_text(bytes)
    }
}

/// The text that `bytes` hold where they are read strictly: their decoding
/// where they are valid UTF-8, nothing where they are not.
pub open spec fn strict_text_of(bytes: Seq<u8>) -> Seq<char> {
    if valid_utf8(bytes) {
        decode_utf8(bytes)
    } else {
        Seq::empty()
    }
}

/// `String::from_utf8` on a copy of `bytes`: the decoded text exactly where
/// the bytes are valid UTF-8, nothing where they are not.
#[verifier::external_body]
pub(crate) fn strict_utf8(bytes: &[u8]) -> (r: Option<String>)
    ensures
        r is Some <==> valid_utf8(bytes@),
        r matches Some(s) ==> s@ == decode_utf8(bytes@),
{
    String::from_utf8(bytes.to_vec()).ok()
}

/// `String::from_utf8_lossy`: the lossy rendering of `bytes`.
#[verifier::external_body]
fn lossy_utf8(bytes: &[u8]) -> (r: String)
    ensures
        r@ == lossy_text(bytes@),
{
    String::from_utf8_lossy(bytes).into_owned()
}

/// The bytes that may be given, as a sequence.
pub open spec fn given_bytes(bytes: Option<Vec<u8>>) -> Option<Seq<u8>> {
    match bytes {
        Some(given) => Some(given@),
        None => None,
    }
}

/// The text that stands for the bytes given, or the empty text where none
/// are given.
pub open spec fn text_or_empty(bytes: Option<Seq<u8>>) -> Seq<char> {
    match bytes {
        Some(given) => text_of(given),
        None => Seq::empty(),
    }
}

/// The text given, or the empty text where none is given.
pub fn or_empty(text: Option<String>) -> (r: String)
    ensures
        r@ == match text {
            Some(given) => given@,
            None => Seq::<char>::empty(),
        },
{
    match text {
        Some(given) => given,
        None => String::new(),
    }
}

/// Text taken from repository metadata, where nothing constrains the
/// encoding: valid UTF-8 is kept as it is, anything else is rendered lossily.
#[derive(Debug)]
pub struct MaybeLossyUtf8(pub String);

impl View for MaybeLossyUtf8 {
    type V = Seq<char>;

    open spec fn view(&self) -> Seq<char> {
        self.0@
    }
}

impl DeepView for MaybeLossyUtf8 {
    type V = Seq<char>;

    open spec fn deep_view(&self) -> Seq<char> {
        self.0@
    }
}

impl MaybeLossyUtf8 {
    /// The text for `bytes`.
    pub fn from_bytes(bytes: &[u8]) -> (text: Self)
        ensures
            text@ == text_of(bytes@),
    {
        match strict_utf8(bytes) {
            Some(s) => MaybeLossyUtf8(s),
            None => MaybeLossyUtf8(lossy_utf8(bytes)),
        }
    }

    /// The text for the bytes given, or the empty text where none are given.
    pub fn from_bytes_or_empty(bytes: Option<Vec<u8>>) -> (text: Self)
        ensures
            text@ == text_or_empty(given_bytes(bytes)),
    {
        match bytes {
            Some(given) => MaybeLossyUtf8::from_bytes(given.as_slice()),
            None => MaybeLossyUtf8(String::new()),
        }
    }

    /// The text, borrowed.
    pub fn as_str(&self) -> (s: &str)
        ensures
            s@ == self@,
    {
        self.0.as_str()
    }

    /// A copy of the text.
    pub fn to_string(&self) -> (s: String)
        ensures
            s@ == self@,
    {
        self.0.clone()
    }

    /// A copy of this value.
    pub fn duplicate(&self) -> (copy: Self)
        ensures
            copy@ == self@,
    {
        MaybeLossyUtf8(self.0.clone())
    }
}

impl Default for MaybeLossyUtf8 {
    fn default() -> (text: Self)
        ensures
            text@ == Seq::<char>::empty(),
    {
        MaybeLossyUtf8(String::new())
    }
}

impl From<String> for MaybeLossyUtf8 {
    fn from(s: String) -> (text: Self) {
        MaybeLossyUtf8(s)
    }
}

impl vstd::std_specs::convert::FromSpecImpl<String> for MaybeLossyUtf8 {
    open spec fn obeys_from_spec() -> bool {
        true
    }

    open spec fn from_spec(s: String) -> Self {
        MaybeLossyUtf8(s)
    }
}

impl vstd::std_specs::convert::FromSpecImpl<&[u8]> for MaybeLossyUtf8 {
    open spec fn obeys_from_spec() -> bool {
        false
    }

    open spec fn from_spec(bytes: &[u8]) -> Self {
        arbitrary()
    }
}

impl From<&[u8]> for MaybeLossyUtf8 {
    fn from(bytes: &[u8]) -> (text: Self)
        ensures
            text@ == text_of(bytes@),
    {
        MaybeLossyUtf8::from_bytes(bytes)
    }
}

} // verus!
