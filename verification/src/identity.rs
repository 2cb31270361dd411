//! The identity codec: a participant's kind, optional display name and
//! 32-byte verifying key, and its canonical text form
//! `<kind>[@<display_name>].sutera-identity-v1.<64 hex chars>`.

use vstd::prelude::*;
use crate::hexcode::all_hex;
use crate::hexcode::bytes_of_hex;
use crate::hexcode::hex_chars_of;
use crate::hexcode::hex_decode;
use crate::hexcode::hex_encode;
use crate::hexcode::lemma_hex_round_trip;

verus! {

/// Why an identity string was rejected.
#[derive(Clone, Debug, PartialEq, Eq)]
pub enum SuteraIdentityStringParseError {
    /// Structural violation: wrong segment count, empty kind segment,
    /// wrong key length, or characters that are not hexadecimal digits.
    InvalidFormat,
    /// Well-formed text whose version token is not the supported one;
    /// carries the token that was found.
    VersionMismatch(String),
    /// Well-formed text of the supported version whose kind token is not
    /// recognized; carries the token that was found.
    UnsupportedKind(String),
}

/// The category of entity an identity denotes; a closed set.
#[derive(Clone, Copy, Debug, PartialEq, Eq, Structural)]
pub enum SuteraIdentityKind {
    User,
}

/// An identity in the Sutera network.
#[derive(Clone, Debug, PartialEq, Eq)]
pub struct SuteraIdentity {
    /// The kind of object the identity denotes.
    pub kind: SuteraIdentityKind,
    /// Optional human-readable label; plays no role in authentication.
    /// A producer keeps it non-empty and alphanumeric; the parser does not
    /// re-validate it.
    pub display_name: Option<String>,
    /// The ed25519 verifying key of the identity, the sole authentication
    /// anchor.
    pub pub_signature: [u8; 32],
}

/// The mathematical shape of an identity.
pub struct SuteraIdentityView {
    pub kind: SuteraIdentityKind,
    pub display_name: Option<Seq<char>>,
    pub pub_signature: Seq<u8>,
}

/// The mathematical shape of a parse error.
pub enum ParseErrorView {
    InvalidFormat,
    VersionMismatch(Seq<char>),
    UnsupportedKind(Seq<char>),
}

impl View for SuteraIdentity {
    type V = SuteraIdentityView;

    open spec fn view(&self) -> SuteraIdentityView {
        SuteraIdentityView {
            kind: self.kind,
            display_name: match self.display_name {
                Some(n) => Some(n@),
                None => None,
            },
            pub_signature: self.pub_signature@,
        }
    }
}

impl View for SuteraIdentityStringParseError {
    type V = ParseErrorView;

    open spec fn view(&self) -> ParseErrorView {
        match self {
            SuteraIdentityStringParseError::InvalidFormat => ParseErrorView::InvalidFormat,
            SuteraIdentityStringParseError::VersionMismatch(v) => ParseErrorView::VersionMismatch(
                v@,
            ),
            SuteraIdentityStringParseError::UnsupportedKind(k) => ParseErrorView::UnsupportedKind(
                k@,
            ),
        }
    }
}

pub open spec fn is_alphanumeric_char(c: char) -> bool {
    let n = c as u32;
    (48 <= n && n <= 57) || (65 <= n && n <= 90) || (97 <= n && n <= 122)
}

impl SuteraIdentityView {
    /// The producer-side invariant: the display name, when present, is
    /// non-empty and alphanumeric, and the key is 32 bytes.
    pub open spec fn wf(self) -> bool {
        &&& self.pub_signature.len() == 32
        &&& match self.display_name {
            Some(n) => n.len() > 0 && forall|i: int|
                0 <= i < n.len() ==> is_alphanumeric_char(#[trigger] n[i]),
            None => true,
        }
    }
}

/// The version token this codec understands.
pub open spec fn version_token() -> Seq<char> {
    "sutera-identity-v1"@
}

impl SuteraIdentityKind {
    /// The canonical text token of a kind.
    pub open spec fn spec_token(self) -> Seq<char> {
        match self {
            SuteraIdentityKind::User => "user"@,
        }
    }

    /// The kind whose canonical token is the given text, if any;
    /// case-sensitive exact match.
    pub open spec fn spec_from_token(t: Seq<char>) -> Option<SuteraIdentityKind> {
        if t == "user"@ {
            Some(SuteraIdentityKind::User)
        } else {
            None
        }
    }

    pub fn token(&self) -> (r: &'static str)
        ensures
            r@ == self.spec_token(),
    {
        match self {
            SuteraIdentityKind::User => "user",
        }
    }

    pub fn from_token(t: &str) -> (r: Option<SuteraIdentityKind>)
        ensures
            r == Self::spec_from_token(t@),
    {
        if str_eq(t, "user") {
            Some(SuteraIdentityKind::User)
        } else {
            None
        }
    }
}

/// The kind-and-name segment: the kind token, then `@` and the display name
/// when one is present.
pub open spec fn kind_name_text(v: SuteraIdentityView) -> Seq<char> {
    match v.display_name {
        Some(n) => v.kind.spec_token() + seq!['@'] + n,
        None => v.kind.spec_token(),
    }
}

/// The canonical text of an identity: kind-and-name segment, version token
/// and lowercase hexadecimal key, separated by dots.
pub open spec fn identity_text(v: SuteraIdentityView) -> Seq<char> {
    kind_name_text(v) + seq!['.'] + version_token() + seq!['.'] + hex_chars_of(
        v.pub_signature,
        false,
    )
}

/// Index of the first occurrence of a character, if it occurs.
pub open spec fn find_first(s: Seq<char>, c: char) -> Option<int>
    decreases s.len(),
{
    if s.len() == 0 {
        None
    } else if s[0] == c {
        Some(0int)
    } else {
        match find_first(s.drop_first(), c) {
            None => None,
            Some(i) => Some(i + 1),
        }
    }
}

pub proof fn lemma_find_first_some(s: Seq<char>, c: char, i: int)
    requires
        0 <= i < s.len(),
        s[i] == c,
        forall|j: int| 0 <= j < i ==> s[j] != c,
    ensures
        find_first(s, c) == Some(i),
    decreases s.len(),
{
    if i > 0 {
        assert(s[0] != c);
        assert(s.drop_first()[i - 1] == c);
        assert forall|j: int| 0 <= j < i - 1 implies s.drop_first()[j] != c by {
            assert(s.drop_first()[j] == s[j + 1]);
        }
        lemma_find_first_some(s.drop_first(), c, i - 1);
    }
}

pub proof fn lemma_find_first_none(s: Seq<char>, c: char)
    requires
        forall|j: int| 0 <= j < s.len() ==> s[j] != c,
    ensures
        find_first(s, c) is None,
    decreases s.len(),
{
    if s.len() > 0 {
        assert forall|j: int| 0 <= j < s.drop_first().len() implies s.drop_first()[j] != c by {
            assert(s.drop_first()[j] == s[j + 1]);
        }
        lemma_find_first_none(s.drop_first(), c);
    }
}

/// Checks of the three dot-separated segments, in the fixed order:
/// non-empty kind segment, version token, key length, kind lookup,
/// hexadecimal decoding.
pub open spec fn parse_segments(seg1: Seq<char>, seg2: Seq<char>, seg3: Seq<char>) -> Result<
    SuteraIdentityView,
    ParseErrorView,
> {
    if seg1.len() == 0 {
        Err(ParseErrorView::InvalidFormat)
    } else if seg2 != version_token() {
        Err(ParseErrorView::VersionMismatch(seg2))
    } else if seg3.len() != 64 {
        Err(ParseErrorView::InvalidFormat)
    } else {
        let (kt, dn) = match find_first(seg1, '@') {
            Some(a) => (seg1.subrange(0, a), Some(seg1.subrange(a + 1, seg1.len() as int))),
            None => (seg1, None::<Seq<char>>),
        };
        match SuteraIdentityKind::spec_from_token(kt) {
            None => Err(ParseErrorView::UnsupportedKind(kt)),
            Some(kind) => if all_hex(seg3) {
                Ok(
                    SuteraIdentityView {
                        kind,
                        display_name: dn,
                        pub_signature: bytes_of_hex(seg3),
                    },
                )
            } else {
                Err(ParseErrorView::InvalidFormat)
            },
        }
    }
}

/// What parsing an identity string means: split on `.` into exactly three
/// segments, then check them in order.
pub open spec fn spec_parse_identity(s: Seq<char>) -> Result<SuteraIdentityView, ParseErrorView> {
    match find_first(s, '.') {
        None => Err(ParseErrorView::InvalidFormat),
        Some(d1) => match find_first(s.skip(d1 + 1), '.') {
            None => Err(ParseErrorView::InvalidFormat),
            Some(k) => {
                let d2 = d1 + 1 + k;
                if find_first(s.skip(d2 + 1), '.') is Some {
                    Err(ParseErrorView::InvalidFormat)
                } else {
                    parse_segments(
                        s.subrange(0, d1),
                        s.subrange(d1 + 1, d2),
                        s.subrange(d2 + 1, s.len() as int),
                    )
                }
            },
        },
    }
}

proof fn lemma_kind_token_chars(k: SuteraIdentityKind)
    ensures
        4 <= k.spec_token().len(),
        forall|j: int| 0 <= j < k.spec_token().len() ==> #[trigger] k.spec_token()[j] != '.'
            && k.spec_token()[j] != '@',
{
    reveal_strlit("user");
    let tok = k.spec_token();
    assert(tok[0] == 'u' && tok[1] == 's' && tok[2] == 'e' && tok[3] == 'r');
    assert forall|j: int| 0 <= j < tok.len() implies #[trigger] tok[j] != '.' && tok[j]
        != '@' by {
        if j == 0 {
        } else if j == 1 {
        } else if j == 2 {
        } else {
            assert(j == 3);
        }
    }
}

proof fn lemma_version_token_chars()
    ensures
        version_token().len() == 18,
        forall|j: int| 0 <= j < version_token().len() ==> #[trigger] version_token()[j] != '.',
{
    reveal_strlit("sutera-identity-v1");
    let ver = version_token();
    assert forall|j: int| 0 <= j < ver.len() implies #[trigger] ver[j] != '.' by {
        assert(ver[0] == 's' && ver[1] == 'u' && ver[2] == 't' && ver[3] == 'e' && ver[4] == 'r'
            && ver[5] == 'a' && ver[6] == '-' && ver[7] == 'i' && ver[8] == 'd' && ver[9] == 'e'
            && ver[10] == 'n' && ver[11] == 't' && ver[12] == 'i' && ver[13] == 't' && ver[14]
            == 'y' && ver[15] == '-' && ver[16] == 'v' && ver[17] == '1');
    }
}

/// The kind-and-name segment of a well-formed identity holds no dot, and its
/// first `@`, when a display name is present, stands right after the kind
/// token.
proof fn lemma_kind_name_chars(v: SuteraIdentityView)
    requires
        v.wf(),
    ensures
        4 <= kind_name_text(v).len(),
        forall|j: int| 0 <= j < kind_name_text(v).len() ==> #[trigger] kind_name_text(v)[j] != '.',
        find_first(kind_name_text(v), '@') == match v.display_name {
            Some(_) => Some(v.kind.spec_token().len() as int),
            None => None::<int>,
        },
{
    let seg1 = kind_name_text(v);
    let tok = v.kind.spec_token();
    lemma_kind_token_chars(v.kind);
    match v.display_name {
        Some(n) => {
            assert(seg1 == tok + seq!['@'] + n);
            assert forall|j: int| 0 <= j < seg1.len() implies #[trigger] seg1[j] != '.' by {
                if j < tok.len() {
                    assert(seg1[j] == tok[j]);
                } else if j == tok.len() {
                    assert(seg1[j] == '@');
                } else {
                    assert(seg1[j] == n[j - tok.len() - 1]);
                    assert(is_alphanumeric_char(n[j - tok.len() - 1]));
                }
            }
            assert(seg1[tok.len() as int] == '@');
            assert forall|j: int| 0 <= j < tok.len() implies seg1[j] != '@' by {
                assert(seg1[j] == tok[j]);
            }
            lemma_find_first_some(seg1, '@', tok.len() as int);
        },
        None => {
            assert(seg1 == tok);
            lemma_find_first_none(seg1, '@');
        },
    }
}

/// Round trip of the identity codec: parsing the canonical text of any
/// well-formed identity gives that identity back.
pub proof fn lemma_identity_round_trip(v: SuteraIdentityView)
    requires
        v.wf(),
    ensures
        spec_parse_identity(identity_text(v)) == Ok::<SuteraIdentityView, ParseErrorView>(v),
{
    let s = identity_text(v);
    let seg1 = kind_name_text(v);
    let ver = version_token();
    let hex = hex_chars_of(v.pub_signature, false);
    lemma_hex_round_trip(v.pub_signature, false);
    lemma_kind_name_chars(v);
    lemma_version_token_chars();
    let d1 = seg1.len() as int;
    let d2 = d1 + 19;
    assert(s.len() == d1 + 1 + 18 + 1 + 64);

    assert(s[d1] == '.');
    assert forall|j: int| 0 <= j < d1 implies s[j] != '.' by {
        assert(s[j] == seg1[j]);
    }
    lemma_find_first_some(s, '.', d1);

    let t1 = s.skip(d1 + 1);
    assert(t1[18] == '.');
    assert forall|j: int| 0 <= j < 18 implies #[trigger] t1[j] != '.' by {
        assert(t1[j] == s[d1 + 1 + j]);
        assert(s[d1 + 1 + j] == ver[j]);
    }
    lemma_find_first_some(t1, '.', 18);

    let t2 = s.skip(d2 + 1);
    assert forall|j: int| 0 <= j < t2.len() implies #[trigger] t2[j] != '.' by {
        assert(t2[j] == s[d2 + 1 + j]);
        assert(s[d2 + 1 + j] == hex[j]);
        assert(crate::hexcode::is_hex_char(hex[j]));
    }
    lemma_find_first_none(t2, '.');

    assert(s.subrange(0, d1) =~= seg1);
    assert(s.subrange(d1 + 1, d2) =~= ver);
    assert(s.subrange(d2 + 1, s.len() as int) =~= hex);

    let tok = v.kind.spec_token();
    assert(SuteraIdentityKind::spec_from_token(tok) == Some(v.kind)) by {
        reveal_strlit("user");
    }
    match v.display_name {
        Some(n) => {
            assert(seg1.subrange(0, tok.len() as int) =~= tok);
            assert(seg1.subrange(tok.len() as int + 1, seg1.len() as int) =~= n);
        },
        None => {},
    }
    assert(spec_parse_identity(s) == Ok::<SuteraIdentityView, ParseErrorView>(v));
}

/// Whether two string slices hold the same characters.
pub(crate) fn str_eq(a: &str, b: &str) -> (r: bool)
    ensures
        r == (a@ == b@),
{
    let an = a.unicode_len();
    let bn = b.unicode_len();
    if an != bn {
        return false;
    }
    let mut i: usize = 0;
    while i < an
        invariant
            i <= an,
            an == a@.len(),
            an == b@.len(),
            forall|j: int| 0 <= j < i ==> a@[j] == b@[j],
        decreases an - i,
    {
        if a.get_char(i) != b.get_char(i) {
            return false;
        }
        i += 1;
    }
    proof {
        assert(a@ =~= b@);
    }
    true
}

/// Index of the first occurrence of a character at or after `from`.
fn find_char_from(s: &str, from: usize, c: char) -> (r: Option<usize>)
    requires
        from <= s@.len(),
    ensures
        match r {
            Some(i) => from <= i < s@.len() && s@[i as int] == c && forall|j: int|
                from <= j < i ==> s@[j] != c,
            None => forall|j: int| from <= j < s@.len() ==> s@[j] != c,
        },
{
    let n = s.unicode_len();
    let mut i: usize = from;
    while i < n
        invariant
            from <= i <= n,
            n == s@.len(),
            forall|j: int| from <= j < i ==> s@[j] != c,
        decreases n - i,
    {
        if s.get_char(i) == c {
            return Some(i);
        }
        i += 1;
    }
    None
}

impl SuteraIdentity {
    /// The canonical identity string; serialization cannot fail.
    pub fn to_identity_string(&self) -> (r: String)
        ensures
            r@ == identity_text(self@),
    {
        let mut out = String::new();
        out.append(self.kind.token());
        match &self.display_name {
            Some(name) => {
                out.append("@");
                out.append(name.as_str());
            },
            None => {},
        }
        out.append(".");
        out.append("sutera-identity-v1");
        out.append(".");
        let hex = hex_encode(self.pub_signature.as_slice(), false);
        out.append(hex.as_str());
        proof {
            reveal_strlit("@");
            reveal_strlit(".");
            assert(out@ =~= identity_text(self@));
        }
        out
    }

    /// Parse an identity string; the error tells which check failed first.
    pub fn try_from(value: String) -> (r: Result<SuteraIdentity, SuteraIdentityStringParseError>)
        ensures
            ({
                let sp = spec_parse_identity(value@);
                match r {
                    Ok(x) => sp matches Ok(v) && x@ == v,
                    Err(e) => sp matches Err(ev) && e@ == ev,
                }
            }),
    {
        let s: &str = value.as_str();
        let n = s.unicode_len();
        let d1 = match find_char_from(s, 0, '.') {
            Some(i) => i,
            None => {
                proof {
                    lemma_find_first_none(s@, '.');
                }
                return Err(SuteraIdentityStringParseError::InvalidFormat);
            },
        };
        proof {
            lemma_find_first_some(s@, '.', d1 as int);
        }
        let d2 = match find_char_from(s, d1 + 1, '.') {
            Some(i) => i,
            None => {
                proof {
                    let t = s@.skip(d1 + 1);
                    assert forall|j: int| 0 <= j < t.len() implies #[trigger] t[j] != '.' by {
                        assert(t[j] == s@[d1 + 1 + j]);
                    }
                    lemma_find_first_none(t, '.');
                }
                return Err(SuteraIdentityStringParseError::InvalidFormat);
            },
        };
        proof {
            let t = s@.skip(d1 + 1);
            assert(t[d2 - d1 - 1] == s@[d2 as int]);
            assert forall|j: int| 0 <= j < d2 - d1 - 1 implies #[trigger] t[j] != '.' by {
                assert(t[j] == s@[d1 + 1 + j]);
            }
            lemma_find_first_some(t, '.', d2 - (d1 as int) - 1);
        }
        match find_char_from(s, d2 + 1, '.') {
            Some(d3) => {
                proof {
                    let t = s@.skip(d2 + 1);
                    assert(t[d3 - d2 - 1] == s@[d3 as int]);
                    assert forall|j: int| 0 <= j < d3 - d2 - 1 implies #[trigger] t[j] != '.' by {
                        assert(t[j] == s@[d2 + 1 + j]);
                    }
                    lemma_find_first_some(t, '.', d3 - (d2 as int) - 1);
                }
                return Err(SuteraIdentityStringParseError::InvalidFormat);
            },
            None => {
                proof {
                    let t = s@.skip(d2 + 1);
                    assert forall|j: int| 0 <= j < t.len() implies #[trigger] t[j] != '.' by {
                        assert(t[j] == s@[d2 + 1 + j]);
                    }
                    lemma_find_first_none(t, '.');
                }
            },
        }
        let ghost gseg3 = s@.subrange(d2 + 1, s@.len() as int);
        if d1 == 0 {
            return Err(SuteraIdentityStringParseError::InvalidFormat);
        }
        let seg2 = s.substring_char(d1 + 1, d2);
        if !str_eq(seg2, "sutera-identity-v1") {
            return Err(SuteraIdentityStringParseError::VersionMismatch(String::from_str(seg2)));
        }
        if n - d2 - 1 != 64 {
            return Err(SuteraIdentityStringParseError::InvalidFormat);
        }
        let seg1 = s.substring_char(0, d1);
        let seg1_len = d1;
        let (kind, display_name) = match find_char_from(seg1, 0, '@') {
            Some(a) => {
                proof {
                    lemma_find_first_some(seg1@, '@', a as int);
                }
                let kt = seg1.substring_char(0, a);
                let dn = seg1.substring_char(a + 1, seg1_len);
                match SuteraIdentityKind::from_token(kt) {
                    Some(k) => (k, Some(String::from_str(dn))),
                    None => {
                        return Err(
                            SuteraIdentityStringParseError::UnsupportedKind(String::from_str(kt)),
                        );
                    },
                }
            },
            None => {
                proof {
                    lemma_find_first_none(seg1@, '@');
                }
                match SuteraIdentityKind::from_token(seg1) {
                    Some(k) => (k, None),
                    None => {
                        return Err(
                            SuteraIdentityStringParseError::UnsupportedKind(String::from_str(seg1)),
                        );
                    },
                }
            },
        };
        let seg3 = s.substring_char(d2 + 1, n);
        let bytes = match hex_decode(seg3) {
            Some(v) => v,
            None => {
                return Err(SuteraIdentityStringParseError::InvalidFormat);
            },
        };
        let mut key = [0u8; 32];
        let mut i: usize = 0;
        while i < 32
            invariant
                i <= 32,
                bytes@.len() == 32,
                bytes@ == bytes_of_hex(gseg3),
                forall|k: int| 0 <= k < i ==> key@[k] == bytes@[k],
            decreases 32 - i,
        {
            key[i] = bytes[i];
            i += 1;
        }
        proof {
            assert(key@ =~= bytes_of_hex(gseg3));
        }
        Ok(SuteraIdentity { kind, display_name, pub_signature: key })
    }
}

} // verus!
