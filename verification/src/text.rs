//! Strict UTF-8 validation and the `Text` values drained from the ring.
//!
//! A completed block is decoded as a whole: all of its bytes must form
//! well-formed UTF-8, trailing padding included.  Validity is defined by
//! [`is_valid_utf8`], a direct transcription of the well-formed byte
//! sequences of the encoding, and [`validate_utf8`] is proved to decide
//! exactly that predicate.

use vstd::prelude::*;
use vstd::seq_lib::lemma_seq_skip_of_skip;

verus! {

/// A continuation byte of a multi-byte sequence.
pub open spec fn is_continuation(b: u8) -> bool {
    0x80 <= b && b <= 0xBF
}

/// Length in bytes of the sequence a head byte opens, or 0 if the byte
/// cannot head a sequence.
pub open spec fn head_width(b: u8) -> int {
    if b < 0x80 {
        1
    } else if 0xC2 <= b && b <= 0xDF {
        2
    } else if 0xE0 <= b && b <= 0xEF {
        3
    } else if 0xF0 <= b && b <= 0xF4 {
        4
    } else {
        0
    }
}

/// Admissible range of the byte right after the head.  Four heads narrow it
/// to rule out overlong forms, surrogates, and code points past 0x10FFFF.
pub open spec fn second_byte_ok(b0: u8, b1: u8) -> bool {
    if b0 == 0xE0 {
        0xA0 <= b1 && b1 <= 0xBF
    } else if b0 == 0xED {
        0x80 <= b1 && b1 <= 0x9F
    } else if b0 == 0xF0 {
        0x90 <= b1 && b1 <= 0xBF
    } else if b0 == 0xF4 {
        0x80 <= b1 && b1 <= 0x8F
    } else {
        is_continuation(b1)
    }
}

/// The whole byte sequence is well-formed UTF-8.
pub open spec fn is_valid_utf8(s: Seq<u8>) -> bool
    decreases s.len(),
{
    if s.len() == 0 {
        true
    } else {
        let w = head_width(s[0]);
        if w == 0 {
            false
        } else if w == 1 {
            is_valid_utf8(s.skip(1))
        } else {
            s.len() >= w && second_byte_ok(s[0], s[1]) && (w <= 2 || is_continuation(s[2])) && (w
                <= 3 || is_continuation(s[3])) && is_valid_utf8(s.skip(w))
        }
    }
}

/// What decoding a buffer yields: the bytes themselves when they are valid
/// text, the decode error otherwise.
pub open spec fn decode_spec(data: Seq<u8>) -> Result<Seq<u8>, DecodeError> {
    if is_valid_utf8(data) {
        Ok(data)
    } else {
        Err(DecodeError::InvalidEncoding)
    }
}

/// Law: decoding gives back exactly the valid text that was written, for
/// every buffer of well-formed UTF-8, however its sequences are composed.
pub proof fn lemma_decode_round_trip(bytes: Seq<u8>)
    requires
        is_valid_utf8(bytes),
    ensures
        decode_spec(bytes) == Ok::<Seq<u8>, DecodeError>(bytes),
{
}

fn second_byte_in_range(b0: u8, b1: u8) -> (r: bool)
    ensures
        r == second_byte_ok(b0, b1),
{
    if b0 == 0xE0 {
        0xA0 <= b1 && b1 <= 0xBF
    } else if b0 == 0xED {
        0x80 <= b1 && b1 <= 0x9F
    } else if b0 == 0xF0 {
        0x90 <= b1 && b1 <= 0xBF
    } else if b0 == 0xF4 {
        0x80 <= b1 && b1 <= 0x8F
    } else {
        0x80 <= b1 && b1 <= 0xBF
    }
}

/// Decides [`is_valid_utf8`] by walking the buffer one sequence at a time.
pub fn validate_utf8(bytes: &Vec<u8>) -> (r: bool)
    ensures
        r == is_valid_utf8(bytes@),
{
    let n = bytes.len();
    let mut i: usize = 0;
    proof {
        assert(bytes@.skip(0) =~= bytes@);
    }
    while i < n
        invariant
            i <= n,
            n == bytes@.len(),
            is_valid_utf8(bytes@) == is_valid_utf8(bytes@.skip(i as int)),
        decreases n - i,
    {
        let ghost suffix = bytes@.skip(i as int);
        let b0 = bytes[i];
        proof {
            assert(suffix.len() == n - i);
            assert(suffix[0] == bytes@[i as int]);
        }
        if b0 < 0x80 {
            proof {
                lemma_seq_skip_of_skip(bytes@, i as int, 1);
                assert(is_valid_utf8(suffix) == is_valid_utf8(bytes@.skip(i + 1)));
            }
            i = i + 1;
        } else if 0xC2 <= b0 && b0 <= 0xDF {
            if n - i < 2 || !(0x80 <= bytes[i + 1] && bytes[i + 1] <= 0xBF) {
                proof {
                    assert(!is_valid_utf8(suffix));
                }
                return false;
            }
            proof {
                assert(suffix[1] == bytes@[i + 1]);
                lemma_seq_skip_of_skip(bytes@, i as int, 2);
                assert(is_valid_utf8(suffix) == is_valid_utf8(bytes@.skip(i + 2)));
            }
            i = i + 2;
        } else if 0xE0 <= b0 && b0 <= 0xEF {
            if n - i < 3 {
                proof {
                    assert(!is_valid_utf8(suffix));
                }
                return false;
            }
            let ok = second_byte_in_range(b0, bytes[i + 1]) && 0x80 <= bytes[i + 2] && bytes[i + 2]
                <= 0xBF;
            proof {
                assert(suffix[1] == bytes@[i + 1]);
                assert(suffix[2] == bytes@[i + 2]);
            }
            if !ok {
                proof {
                    assert(!is_valid_utf8(suffix));
                }
                return false;
            }
            proof {
                lemma_seq_skip_of_skip(bytes@, i as int, 3);
                assert(is_valid_utf8(suffix) == is_valid_utf8(bytes@.skip(i + 3)));
            }
            i = i + 3;
        } else if 0xF0 <= b0 && b0 <= 0xF4 {
            if n - i < 4 {
                proof {
                    assert(!is_valid_utf8(suffix));
                }
                return false;
            }
            let ok = second_byte_in_range(b0, bytes[i + 1]) && 0x80 <= bytes[i + 2] && bytes[i + 2]
                <= 0xBF && 0x80 <= bytes[i + 3] && bytes[i + 3] <= 0xBF;
            proof {
                assert(suffix[1] == bytes@[i + 1]);
                assert(suffix[2] == bytes@[i + 2]);
                assert(suffix[3] == bytes@[i + 3]);
            }
            if !ok {
                proof {
                    assert(!is_valid_utf8(suffix));
                }
                return false;
            }
            proof {
                lemma_seq_skip_of_skip(bytes@, i as int, 4);
                assert(is_valid_utf8(suffix) == is_valid_utf8(bytes@.skip(i + 4)));
            }
            i = i + 4;
        } else {
            proof {
                assert(head_width(suffix[0]) == 0);
                assert(!is_valid_utf8(suffix));
            }
            return false;
        }
    }
    proof {
        assert(bytes@.skip(i as int).len() == 0);
        assert(is_valid_utf8(bytes@.skip(i as int)));
    }
    true
}

/// Why a drained block could not be handed out as text.
#[derive(Debug, Clone, Copy, PartialEq, Eq, Structural)]
pub enum DecodeError {
    /// The block's bytes are not well-formed UTF-8.
    InvalidEncoding,
}

/// A validated text segment drained from the ring: its bytes, with the
/// guarantee that they form well-formed UTF-8.
pub struct Text {
    bytes: Vec<u8>,
}

impl View for Text {
    type V = Seq<u8>;

    closed spec fn view(&self) -> Seq<u8> {
        self.bytes@
    }
}

impl Text {
    /// Every `Text` holds valid UTF-8.
    pub open spec fn wf(&self) -> bool {
        is_valid_utf8(self@)
    }

    /// Validates the bytes and wraps them; rejects anything that is not
    /// well-formed UTF-8.
    pub fn from_bytes(bytes: Vec<u8>) -> (r: Result<Text, DecodeError>)
        ensures
            r is Ok <==> is_valid_utf8(bytes@),
            r matches Ok(t) ==> t@ == bytes@ && t.wf(),
            r matches Err(e) ==> e == DecodeError::InvalidEncoding,
    {
        if validate_utf8(&bytes) {
            Ok(Text { bytes })
        } else {
            Err(DecodeError::InvalidEncoding)
        }
    }

    /// The raw bytes of the text.
    pub fn as_bytes(&self) -> (r: &Vec<u8>)
        ensures
            r@ == self@,
    {
        &self.bytes
    }

    /// Length of the text in bytes.
    pub fn len(&self) -> (r: usize)
        ensures
            r == self@.len(),
    {
        self.bytes.len()
    }
}

} // verus!
