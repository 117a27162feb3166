//! Authors and user identifiers.
use crate::util::key_map::{byte_values, bytes_lt, lemma_byte_values_injective, lemma_lex_order, lex_lt, MapKey};
use crate::meta::Version;
use crate::util::text::{decode_hex_digit, encode_byte_lower, hex_lower, hex_value, push_char, str_eq};
use vstd::prelude::*;
use vstd::utf8::encode_utf8;

verus! {

/// The kind of an account.
#[derive(Debug, Clone, Copy, PartialEq, Eq)]
pub enum UserType {
    People,
    Organization,
}

/// The 16-byte identifier of a user.
#[derive(Debug, Clone, Copy)]
pub struct UserId(pub [u8; 16]);

impl UserId {
    /// Whether every byte of the identifier is zero.
    pub open spec fn spec_is_zero(self) -> bool {
        forall|i: int| 0 <= i < 16 ==> self.0@[i] == 0u8
    }

    /// The identifier made of zero bytes.
    pub fn zero() -> (r: Self)
        ensures
            r.spec_is_zero(),
    {
        UserId([0u8; 16])
    }

    /// Whether every byte of the identifier is zero.
    pub fn is_zero(&self) -> (r: bool)
        ensures
            r == self.spec_is_zero(),
    {
        let mut i: usize = 0;
        while i < 16
            invariant
                0 <= i <= 16,
                forall|j: int| 0 <= j < i ==> self.0@[j] == 0u8,
            decreases 16 - i,
        {
            if self.0[i] != 0 {
                return false;
            }
            i = i + 1;
        }
        true
    }

    /// Whether two identifiers hold the same bytes.
    pub fn same(&self, other: &Self) -> (r: bool)
        ensures
            r == (self.0@ == other.0@),
    {
        let mut i: usize = 0;
        while i < 16
            invariant
                0 <= i <= 16,
                forall|j: int| 0 <= j < i ==> self.0@[j] == other.0@[j],
            decreases 16 - i,
        {
            if self.0[i] != other.0[i] {
                return false;
            }
            i = i + 1;
        }
        assert(self.0@ =~= other.0@);
        true
    }
}


/// Why a text is no user identifier.
#[derive(Debug, Clone, Copy, PartialEq, Eq)]
pub enum DecodeError {
    /// The text is not 32 bytes long.
    Length,
    /// The byte at this position is no hexadecimal digit.
    Digit(usize),
}

/// The identifier that a text of 32 hexadecimal digits stands for, two
/// digits (high nibble first) per byte.
pub open spec fn spec_decode_id(b: Seq<u8>) -> Result<Seq<u8>, DecodeError> {
    if b.len() != 32 {
        Err(DecodeError::Length)
    } else if exists|i: int| 0 <= i < 32 && hex_value(b[i]) is None {
        Err(DecodeError::Digit((choose|i: int| 0 <= i < 32 && hex_value(b[i]) is None && forall|j: int| 0 <= j < i ==> hex_value(b[j]) is Some) as usize))
    } else {
        Ok(Seq::new(16, |i: int| (hex_value(b[2 * i]).unwrap() * 16 + hex_value(b[2 * i + 1]).unwrap()) as u8))
    }
}

impl View for UserId {
    type V = Seq<u8>;

    open spec fn view(&self) -> Seq<u8> {
        self.0@
    }
}

impl MapKey for UserId {
    open spec fn spec_lt(a: Seq<u8>, b: Seq<u8>) -> bool {
        lex_lt(byte_values(a), byte_values(b))
    }

    proof fn lemma_lt_order(a: Seq<u8>, b: Seq<u8>, c: Seq<u8>) {
        lemma_lex_order(byte_values(a), byte_values(b), byte_values(c));
        lemma_byte_values_injective(a, b);
    }

    fn key_lt(&self, other: &Self) -> (r: bool) {
        bytes_lt(&self.0, &other.0)
    }

    fn key_eq(&self, other: &Self) -> (r: bool) {
        self.same(other)
    }

    fn key_clone(&self) -> (r: Self) {
        *self
    }
}

impl UserId {
    /// The identifier as 32 lower-case hexadecimal digits.
    pub fn to_hex(&self) -> (r: String)
        ensures
            r@ == hex_lower(self.0@).map_values(|b: u8| b as char),
    {
        let mut s = String::new();
        let mut i: usize = 0;
        while i < 16
            invariant
                0 <= i <= 16,
                s@ =~= hex_lower(self.0@.take(i as int)).map_values(|b: u8| b as char),
            decreases 16 - i,
        {
            let h = encode_byte_lower(self.0[i]);
            push_char(&mut s, h[0] as char);
            push_char(&mut s, h[1] as char);
            proof {
                assert(self.0@.take(i + 1).take(i as int) =~= self.0@.take(i as int));
            }
            i = i + 1;
        }
        assert(self.0@.take(16) =~= self.0@);
        s
    }

    /// Parses 32 hexadecimal digits of either case.
    pub fn from_hex(s: &str) -> (r: Result<UserId, DecodeError>)
        ensures
            match r {
                Ok(id) => spec_decode_id(encode_utf8(s@)) == Ok::<Seq<u8>, DecodeError>(id.0@),
                Err(e) => spec_decode_id(encode_utf8(s@)) == Err::<Seq<u8>, DecodeError>(e),
            },
    {
        let b = s.as_bytes();
        if b.len() != 32 {
            return Err(DecodeError::Length);
        }
        let mut out = [0u8; 16];
        let mut i: usize = 0;
        while i < 16
            invariant
                0 <= i <= 16,
                b@ == encode_utf8(s@),
                b@.len() == 32,
                forall|j: int| 0 <= j < 2 * i ==> hex_value(b@[j]) is Some,
                forall|j: int| 0 <= j < i ==> out@[j] == (hex_value(b@[2 * j]).unwrap() * 16
                    + hex_value(b@[2 * j + 1]).unwrap()) as u8,
                out@.len() == 16,
            decreases 16 - i,
        {
            let hi = decode_hex_digit(b[2 * i]);
            let hi = match hi {
                Some(v) => v,
                None => {
                    proof {
                        let k = 2 * i as int;
                        assert(hex_value(b@[k]) is None);
                        let c = choose|x: int| 0 <= x < 32 && hex_value(b@[x]) is None && forall|j: int| 0 <= j < x ==> hex_value(b@[j]) is Some;
                        assert(c == k) by {
                            if c < k {
                                assert(hex_value(b@[c]) is Some);
                            }
                            if c > k {
                                assert(hex_value(b@[k]) is Some);
                            }
                        }
                    }
                    return Err(DecodeError::Digit(2 * i));
                },
            };
            let lo = decode_hex_digit(b[2 * i + 1]);
            let lo = match lo {
                Some(v) => v,
                None => {
                    proof {
                        let k = 2 * i + 1;
                        assert(hex_value(b@[k]) is None);
                        let c = choose|x: int| 0 <= x < 32 && hex_value(b@[x]) is None && forall|j: int| 0 <= j < x ==> hex_value(b@[j]) is Some;
                        assert(c == k) by {
                            if c < k {
                                assert(hex_value(b@[c]) is Some);
                            }
                            if c > k {
                                assert(hex_value(b@[k]) is Some);
                            }
                        }
                    }
                    return Err(DecodeError::Digit(2 * i + 1));
                },
            };
            out[i] = hi * 16 + lo;
            i = i + 1;
        }
        let r = UserId(out);
        assert(r.0@ =~= Seq::new(16, |i: int| (hex_value(b@[2 * i]).unwrap() * 16 + hex_value(b@[2 * i + 1]).unwrap()) as u8));
        Ok(r)
    }
}

impl UserType {
    /// The account kind named in raw data: `people` or `organization`.
    pub fn from_raw(s: &str) -> (r: Option<UserType>)
        ensures
            r == (if s@ == "people"@ {
                Some(UserType::People)
            } else if s@ == "organization"@ {
                Some(UserType::Organization)
            } else {
                None
            }),
    {
        if str_eq(s, "people") {
            Some(UserType::People)
        } else if str_eq(s, "organization") {
            Some(UserType::Organization)
        } else {
            None
        }
    }
}

impl UserId {
    /// The identifier named in raw data: `0` stands for no user.
    pub fn from_raw(s: &str) -> (r: Result<Option<UserId>, DecodeError>)
        ensures
            s@ == "0"@ ==> r == Ok::<Option<UserId>, DecodeError>(None),
            s@ != "0"@ ==> match r {
                Ok(Some(id)) => spec_decode_id(encode_utf8(s@)) == Ok::<Seq<u8>, DecodeError>(id.0@),
                Ok(None) => false,
                Err(e) => spec_decode_id(encode_utf8(s@)) == Err::<Seq<u8>, DecodeError>(e),
            },
    {
        if str_eq(s, "0") {
            return Ok(None);
        }
        match UserId::from_hex(s) {
            Ok(id) => Ok(Some(id)),
            Err(e) => Err(e),
        }
    }
}

/// The version of the author format.
pub open spec fn spec_author_version() -> Version {
    Version { major: 1, minor: 1 }
}

/// The author of a piece of content.
#[derive(Debug, Clone)]
pub struct Author {
    pub version: Version,
    pub id: UserId,
    pub name: String,
    pub url_token: Option<String>,
    pub user_type: UserType,
    pub headline: String,
}

impl Author {
    /// The author described by raw data; an anonymous author (no
    /// identifier) is no author.
    pub fn from_raw(
        id: Option<UserId>,
        name: String,
        user_type: UserType,
        url_token: Option<String>,
        headline: String,
    ) -> (r: Option<Author>)
        ensures
            match id {
                Some(i) => r matches Some(a) && a.version == spec_author_version() && a.id == i
                    && a.name == name && a.user_type == user_type && a.url_token == url_token
                    && a.headline == headline,
                None => r is None,
            },
    {
        match id {
            Some(i) => Some(
                Author {
                    version: Version { major: 1, minor: 1 },
                    id: i,
                    name,
                    url_token,
                    user_type,
                    headline,
                },
            ),
            None => None,
        }
    }
}

} // verus!
