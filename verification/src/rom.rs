//! Content identity for the base binary asset.
//!
//! A [`Rom`] names the base binary asset by path. Its identity string
//! appends the lowercase hexadecimal SHA-1 digest of the asset's bytes
//! when the caller could read them, and silently omits it otherwise.

use vstd::prelude::*;
use vstd::string::StringExecFns;

verus! {

/// A byte is rendered as exactly two lowercase hexadecimal digits.
pub open spec fn spec_hex_digit(n: int) -> char {
    if n == 0 {
        '0'
    } else if n == 1 {
        '1'
    } else if n == 2 {
        '2'
    } else if n == 3 {
        '3'
    } else if n == 4 {
        '4'
    } else if n == 5 {
        '5'
    } else if n == 6 {
        '6'
    } else if n == 7 {
        '7'
    } else if n == 8 {
        '8'
    } else if n == 9 {
        '9'
    } else if n == 10 {
        'a'
    } else if n == 11 {
        'b'
    } else if n == 12 {
        'c'
    } else if n == 13 {
        'd'
    } else if n == 14 {
        'e'
    } else {
        'f'
    }
}

/// Lowercase hexadecimal rendering of a byte sequence, two digits per
/// byte, in order.
pub open spec fn spec_hex_of(bytes: Seq<u8>) -> Seq<char>
    decreases bytes.len(),
{
    if bytes.len() == 0 {
        Seq::<char>::empty()
    } else {
        spec_hex_of(bytes.drop_last()) + seq![
            spec_hex_digit(bytes.last() as int / 16),
            spec_hex_digit(bytes.last() as int % 16),
        ]
    }
}

/// The SHA-1 digest of a byte sequence, a function of the bytes alone.
pub uninterp spec fn spec_sha1_of(bytes: Seq<u8>) -> Seq<u8>;

/// Relies on `sha1::Sha1::digest` (through the `sha1::Digest` trait): the
/// 20-byte SHA-1 digest of the input, depending on the input bytes alone.
#[verifier::external_body]
fn sha1_digest(bytes: &Vec<u8>) -> (r: Vec<u8>)
    ensures
        r@ == spec_sha1_of(bytes@),
        r@.len() == 20,
{
    let digest = <sha1::Sha1 as sha1::Digest>::digest(bytes.as_slice());
    digest.to_vec()
}

/// The one-character string holding the hexadecimal digit for `n`.
fn hex_digit_str(n: u8) -> (r: &'static str)
    requires
        n < 16,
    ensures
        r@ =~= seq![spec_hex_digit(n as int)],
{
    proof {
        reveal_strlit("0");
        reveal_strlit("1");
        reveal_strlit("2");
        reveal_strlit("3");
        reveal_strlit("4");
        reveal_strlit("5");
        reveal_strlit("6");
        reveal_strlit("7");
        reveal_strlit("8");
        reveal_strlit("9");
        reveal_strlit("a");
        reveal_strlit("b");
        reveal_strlit("c");
        reveal_strlit("d");
        reveal_strlit("e");
        reveal_strlit("f");
    }
    if n == 0 {
        "0"
    } else if n == 1 {
        "1"
    } else if n == 2 {
        "2"
    } else if n == 3 {
        "3"
    } else if n == 4 {
        "4"
    } else if n == 5 {
        "5"
    } else if n == 6 {
        "6"
    } else if n == 7 {
        "7"
    } else if n == 8 {
        "8"
    } else if n == 9 {
        "9"
    } else if n == 10 {
        "a"
    } else if n == 11 {
        "b"
    } else if n == 12 {
        "c"
    } else if n == 13 {
        "d"
    } else if n == 14 {
        "e"
    } else {
        "f"
    }
}

/// Renders a byte sequence as lowercase hexadecimal, two digits per byte.
pub fn hex_string(bytes: &Vec<u8>) -> (r: String)
    ensures
        r@ == spec_hex_of(bytes@),
{
    let mut r = String::new();
    let mut i: usize = 0;
    proof {
        assert(r@ =~= spec_hex_of(bytes@.take(0)));
    }
    while i < bytes.len()
        invariant
            0 <= i <= bytes@.len(),
            r@ == spec_hex_of(bytes@.take(i as int)),
        decreases bytes@.len() - i,
    {
        let b = bytes[i];
        r.append(hex_digit_str(b / 16));
        r.append(hex_digit_str(b % 16));
        proof {
            assert(bytes@.take(i + 1).drop_last() =~= bytes@.take(i as int));
            assert(bytes@.take(i + 1).last() == bytes@[i as int]);
            assert(r@ =~= spec_hex_of(bytes@.take(i + 1)));
        }
        i = i + 1;
    }
    proof {
        assert(bytes@.take(bytes@.len() as int) =~= bytes@);
    }
    r
}

/// The identity string for a path and an optionally computed digest.
pub open spec fn spec_identity_string(path: Seq<char>, digest: Option<Seq<char>>) -> Seq<char> {
    match digest {
        Some(d) => path + " (SHA1: "@ + d + ")"@,
        None => path,
    }
}

/// The base binary asset, named by its path.
pub struct Rom {
    path: String,
}

impl Rom {
    /// The path the asset was named by, as characters.
    pub closed spec fn spec_path(self) -> Seq<char> {
        self.path@
    }

    /// Names the asset at `path`.
    pub fn new(path: String) -> (r: Rom)
        ensures
            r.spec_path() == path@,
    {
        Rom { path }
    }

    /// The path the asset was named by.
    pub fn path(&self) -> (r: &str)
        ensures
            r@ == self.spec_path(),
    {
        self.path.as_str()
    }

    /// The lowercase hexadecimal SHA-1 digest of the asset's bytes.
    pub fn sha1_string(&self, bytes: &Vec<u8>) -> (r: String)
        ensures
            r@ == spec_hex_of(spec_sha1_of(bytes@)),
    {
        let digest = sha1_digest(bytes);
        hex_string(&digest)
    }

    /// The display identity: the path, followed by the digest when one
    /// could be computed.
    pub fn identity_string(&self, digest: Option<&String>) -> (r: String)
        ensures
            match digest {
                Some(d) => r@ == spec_identity_string(self.spec_path(), Some(d@)),
                None => r@ == spec_identity_string(self.spec_path(), None::<Seq<char>>),
            },
    {
        match digest {
            Some(d) => self.path.clone().concat(" (SHA1: ").concat(d.as_str()).concat(")"),
            None => self.path.clone(),
        }
    }
}

} // verus!
