//! The name a subscriber signs up with.

use unicode_segmentation::UnicodeSegmentation;
use vstd::prelude::*;

verus! {

/// The number of extended grapheme clusters of a string, as Unicode Standard
/// Annex #29 segments it.
pub uninterp spec fn grapheme_count(s: Seq<char>) -> nat;

/// The longest name accepted, in grapheme clusters.
pub const MAX_GRAPHEMES: usize = 256;

/// The code points with the Unicode property `White_Space`.
pub open spec fn is_white_space(c: char) -> bool {
    let u = c as u32;
    ||| 0x09 <= u <= 0x0D
    ||| u == 0x20
    ||| u == 0x85
    ||| u == 0xA0
    ||| u == 0x1680
    ||| 0x2000 <= u <= 0x200A
    ||| u == 0x2028
    ||| u == 0x2029
    ||| u == 0x202F
    ||| u == 0x205F
    ||| u == 0x3000
}

/// The characters that no name may hold.
pub open spec fn is_forbidden(c: char) -> bool {
    ||| c == '/'
    ||| c == '('
    ||| c == ')'
    ||| c == '"'
    ||| c == '<'
    ||| c == '>'
    ||| c == '\\'
    ||| c == '{'
    ||| c == '}'
}

/// A string is blank when it is empty or holds white space only.
pub open spec fn is_blank(s: Seq<char>) -> bool {
    forall|i: int| 0 <= i < s.len() ==> is_white_space(#[trigger] s[i])
}

/// A string has a forbidden character when one stands anywhere in it.
pub open spec fn has_forbidden(s: Seq<char>) -> bool {
    exists|i: int| 0 <= i < s.len() && is_forbidden(#[trigger] s[i])
}

/// Whether a string of `graphemes` grapheme clusters is accepted as a name.
pub open spec fn acceptable(s: Seq<char>, graphemes: nat) -> bool {
    &&& !is_blank(s)
    &&& graphemes <= MAX_GRAPHEMES
    &&& !has_forbidden(s)
}

/// Whether a string is a valid subscriber name.
pub open spec fn is_valid_name(s: Seq<char>) -> bool {
    acceptable(s, grapheme_count(s))
}

/// Tells whether `c` has the Unicode property `White_Space`, as
/// `char::is_whitespace` does.
pub fn white_space(c: char) -> (b: bool)
    ensures
        b == is_white_space(c),
{
    let u: u32 = c as u32;
    (0x09 <= u && u <= 0x0D) || u == 0x20 || u == 0x85 || u == 0xA0 || u == 0x1680 || (0x2000 <= u
        && u <= 0x200A) || u == 0x2028 || u == 0x2029 || u == 0x202F || u == 0x205F || u == 0x3000
}

/// Calls `UnicodeSegmentation::graphemes` with extended clusters and counts
/// what it yields. Trusted: the count depends on the string alone, and
/// `grapheme_count` is the name of it.
#[verifier::external_body]
fn count_graphemes(s: &str) -> (n: usize)
    ensures
        n == grapheme_count(s@),
{
    s.graphemes(true).count()
}

/// Tells whether `c` is one of the forbidden characters.
pub fn forbidden_character(c: char) -> (b: bool)
    ensures
        b == is_forbidden(c),
{
    c == '/' || c == '(' || c == ')' || c == '"' || c == '<' || c == '>' || c == '\\' || c == '{'
        || c == '}'
}

/// Tells whether `s` is empty or made of white space only.
pub fn blank(s: &str) -> (b: bool)
    ensures
        b == is_blank(s@),
{
    let mut all_white = true;
    for c in it: s.chars()
        invariant
            it.seq() == s@,
            all_white == (forall|i: int| 0 <= i < it.index() ==> is_white_space(#[trigger] s@[i])),
    {
        all_white = all_white && white_space(c);
    }
    all_white
}

/// Tells whether `s` holds a forbidden character.
pub fn holds_forbidden(s: &str) -> (b: bool)
    ensures
        b == has_forbidden(s@),
{
    let mut found = false;
    for c in it: s.chars()
        invariant
            it.seq() == s@,
            found == (exists|i: int| 0 <= i < it.index() && is_forbidden(#[trigger] s@[i])),
    {
        found = found || forbidden_character(c);
    }
    found
}

/// A subscriber's name: a string that was accepted by [`SubscriberName::parse`].
#[derive(Debug)]
pub struct SubscriberName(String);

impl View for SubscriberName {
    type V = Seq<char>;

    closed spec fn view(&self) -> Seq<char> {
        self.0@
    }
}

impl SubscriberName {
    /// Gives the name up as a plain string.
    pub fn inner(self) -> (s: String)
        ensures
            s@ == self@,
    {
        self.0
    }

    /// Lends the string for writing; what the borrower leaves in it is the
    /// name afterwards, valid or not.
    pub fn inner_mut(&mut self) -> (s: &mut String)
        ensures
            s@ == old(self)@,
            final(self)@ == final(s)@,
    {
        &mut self.0
    }

    /// Lends the string for reading.
    pub fn inner_ref(&self) -> (s: &String)
        ensures
            s@ == self@,
    {
        &self.0
    }

    /// Decides on `s` once its grapheme clusters have been counted.
    pub fn accepts(s: &str, graphemes: usize) -> (ok: bool)
        ensures
            ok == acceptable(s@, graphemes as nat),
    {
        let is_empty_or_whitespace = blank(s);
        let is_too_long = graphemes > MAX_GRAPHEMES;
        let contains_forbidden_characters = holds_forbidden(s);
        !(is_empty_or_whitespace || is_too_long || contains_forbidden_characters)
    }

    /// Validates `s` and wraps it. A name is rejected when it is blank, when
    /// it is longer than 256 grapheme clusters, or when it holds one of
    /// `/ ( ) " < > \ { }`.
    pub fn parse(s: String) -> (r: Result<Self, String>)
        ensures
            r is Ok <==> is_valid_name(s@),
            r matches Ok(name) ==> name@ == s@,
            r matches Err(message) ==> message@ == "Invalid subscriber name"@,
    {
        let graphemes = count_graphemes(s.as_str());
        if Self::accepts(s.as_str(), graphemes) {
            Ok(Self(s))
        } else {
            Err("Invalid subscriber name".to_owned())
        }
    }
}

impl AsRef<str> for SubscriberName {
    /// Lends the name as a string slice.
    fn as_ref(&self) -> (s: &str)
        ensures
            s@ == self@,
    {
        self.0.as_str()
    }
}

} // verus!
