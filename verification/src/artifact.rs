//! Artifacts: the opaque owned byte strings the engine shuttles across the
//! host/guest boundary. The engine gives them no structure beyond a length
//! and bytes, except that a well-formed artifact is a valid UTF-8 encoding
//! of its textual form; bytes coming back from a guest are validated before
//! they become an [`Artifact`].

use vstd::prelude::*;
use crate::error::PluginError;

verus! {

/// A continuation byte of a multi-byte UTF-8 scalar: `0x80..=0xBF`.
pub open spec fn is_cont(b: u8) -> bool {
    0x80 <= b && b <= 0xBF
}

/// Well-formed UTF-8, by the standard leading-byte table: ASCII bytes stand
/// alone; two-byte scalars start with `0xC2..=0xDF`; three-byte scalars with
/// `0xE0..=0xEF`, where `0xE0` narrows its second byte to `0xA0..=0xBF`
/// (no overlong forms) and `0xED` narrows it to `0x80..=0x9F` (no surrogate
/// code points); four-byte scalars with `0xF0..=0xF4`, where `0xF0` narrows
/// its second byte to `0x90..=0xBF` and `0xF4` to `0x80..=0x8F` (nothing
/// beyond U+10FFFF). All trailing bytes are continuation bytes.
pub open spec fn valid_utf8(s: Seq<u8>) -> bool
    decreases s.len(),
{
    if s.len() == 0 {
        true
    } else {
        let b0 = s[0];
        if b0 <= 0x7F {
            valid_utf8(s.skip(1))
        } else if 0xC2 <= b0 && b0 <= 0xDF {
            &&& s.len() >= 2
            &&& is_cont(s[1])
            &&& valid_utf8(s.skip(2))
        } else if b0 == 0xE0 {
            &&& s.len() >= 3
            &&& 0xA0 <= s[1] && s[1] <= 0xBF
            &&& is_cont(s[2])
            &&& valid_utf8(s.skip(3))
        } else if (0xE1 <= b0 && b0 <= 0xEC) || b0 == 0xEE || b0 == 0xEF {
            &&& s.len() >= 3
            &&& is_cont(s[1])
            &&& is_cont(s[2])
            &&& valid_utf8(s.skip(3))
        } else if b0 == 0xED {
            &&& s.len() >= 3
            &&& 0x80 <= s[1] && s[1] <= 0x9F
            &&& is_cont(s[2])
            &&& valid_utf8(s.skip(3))
        } else if b0 == 0xF0 {
            &&& s.len() >= 4
            &&& 0x90 <= s[1] && s[1] <= 0xBF
            &&& is_cont(s[2])
            &&& is_cont(s[3])
            &&& valid_utf8(s.skip(4))
        } else if 0xF1 <= b0 && b0 <= 0xF3 {
            &&& s.len() >= 4
            &&& is_cont(s[1])
            &&& is_cont(s[2])
            &&& is_cont(s[3])
            &&& valid_utf8(s.skip(4))
        } else if b0 == 0xF4 {
            &&& s.len() >= 4
            &&& 0x80 <= s[1] && s[1] <= 0x8F
            &&& is_cont(s[2])
            &&& is_cont(s[3])
            &&& valid_utf8(s.skip(4))
        } else {
            false
        }
    }
}

/// Skipping in two steps is skipping in one.
proof fn lemma_skip_skip(s: Seq<u8>, a: int, b: int)
    requires
        0 <= a,
        0 <= b,
        a + b <= s.len(),
    ensures
        s.skip(a).skip(b) == s.skip(a + b),
{
    assert(s.skip(a).skip(b) =~= s.skip(a + b));
}

/// Decides UTF-8 well-formedness of `bytes`.
pub fn check_utf8(bytes: &[u8]) -> (r: bool)
    ensures
        r == valid_utf8(bytes@),
{
    let n = bytes.len();
    let mut i: usize = 0;
    proof {
        assert(bytes@.skip(0) =~= bytes@);
    }
    while i < n
        invariant
            i <= n,
            n == bytes@.len(),
            valid_utf8(bytes@) == valid_utf8(bytes@.skip(i as int)),
        decreases n - i,
    {
        let b0 = bytes[i];
        let rest = n - i;
        let ghost tail = bytes@.skip(i as int);
        assert(tail[0] == b0 && tail.len() == rest);
        if b0 <= 0x7F {
            proof {
                lemma_skip_skip(bytes@, i as int, 1);
            }
            i = i + 1;
        } else if 0xC2 <= b0 && b0 <= 0xDF {
            if rest < 2 {
                return false;
            }
            let b1 = bytes[i + 1];
            assert(tail[1] == b1);
            if !(0x80 <= b1 && b1 <= 0xBF) {
                return false;
            }
            proof {
                lemma_skip_skip(bytes@, i as int, 2);
            }
            i = i + 2;
        } else if 0xE0 <= b0 && b0 <= 0xEF {
            if rest < 3 {
                return false;
            }
            let b1 = bytes[i + 1];
            let b2 = bytes[i + 2];
            assert(tail[1] == b1 && tail[2] == b2);
            let lo1: u8 = if b0 == 0xE0 {
                0xA0
            } else {
                0x80
            };
            let hi1: u8 = if b0 == 0xED {
                0x9F
            } else {
                0xBF
            };
            if !(lo1 <= b1 && b1 <= hi1) {
                return false;
            }
            if !(0x80 <= b2 && b2 <= 0xBF) {
                return false;
            }
            proof {
                lemma_skip_skip(bytes@, i as int, 3);
            }
            i = i + 3;
        } else if 0xF0 <= b0 && b0 <= 0xF4 {
            if rest < 4 {
                return false;
            }
            let b1 = bytes[i + 1];
            let b2 = bytes[i + 2];
            let b3 = bytes[i + 3];
            assert(tail[1] == b1 && tail[2] == b2 && tail[3] == b3);
            let lo1: u8 = if b0 == 0xF0 {
                0x90
            } else {
                0x80
            };
            let hi1: u8 = if b0 == 0xF4 {
                0x8F
            } else {
                0xBF
            };
            if !(lo1 <= b1 && b1 <= hi1) {
                return false;
            }
            if !(0x80 <= b2 && b2 <= 0xBF) {
                return false;
            }
            if !(0x80 <= b3 && b3 <= 0xBF) {
                return false;
            }
            proof {
                lemma_skip_skip(bytes@, i as int, 4);
            }
            i = i + 4;
        } else {
            return false;
        }
    }
    proof {
        assert(bytes@.skip(n as int) =~= Seq::<u8>::empty());
    }
    true
}

/// An opaque owned byte string representing a serialized fragment exchanged
/// with a guest. Its bytes are always well-formed UTF-8: construction
/// validates them, and nothing mutates them afterwards.
#[derive(Debug, PartialEq, Eq)]
pub struct Artifact {
    bytes: Vec<u8>,
}

impl View for Artifact {
    type V = Seq<u8>;

    closed spec fn view(&self) -> Seq<u8> {
        self.bytes@
    }
}

impl Artifact {
    /// Every artifact's bytes are a valid UTF-8 encoding.
    #[verifier::type_invariant]
    pub closed spec fn inv(self) -> bool {
        valid_utf8(self.bytes@)
    }

    /// Validates `bytes` and wraps them as an artifact; rejects bytes that
    /// are not well-formed UTF-8.
    pub fn from_bytes(bytes: Vec<u8>) -> (r: Result<Artifact, PluginError>)
        ensures
            match r {
                Ok(a) => a@ == bytes@ && valid_utf8(bytes@),
                Err(e) => e == PluginError::DecodeError && !valid_utf8(bytes@),
            },
    {
        if check_utf8(bytes.as_slice()) {
            Ok(Artifact { bytes })
        } else {
            Err(PluginError::DecodeError)
        }
    }

    /// The artifact's bytes.
    pub fn as_bytes(&self) -> (r: &Vec<u8>)
        ensures
            r@ == self@,
            valid_utf8(self@),
    {
        proof {
            use_type_invariant(self);
        }
        &self.bytes
    }

    /// Unwraps the artifact into its bytes.
    pub fn into_bytes(self) -> (r: Vec<u8>)
        ensures
            r@ == self@,
            valid_utf8(self@),
    {
        proof {
            use_type_invariant(&self);
        }
        let Artifact { bytes } = self;
        bytes
    }

    /// The payload length in bytes.
    pub fn len(&self) -> (r: usize)
        ensures
            r == self@.len(),
    {
        self.bytes.len()
    }
}

} // verus!
