//! Input validation: size limits and suspicious byte patterns.

use vstd::prelude::*;
use vstd::string::StringSliceAdditionalSpecFns;
use crate::security::manager::SecurityError;
use crate::text::{bytes_contain, contains_seq, decimal, decimal_chars, extend_chars, lit, string_from_chars};

verus! {

/// The byte patterns that mark a payload as suspicious.
pub open spec fn suspicious_byte_patterns() -> Seq<Seq<u8>> {
    seq![
        "<script".spec_bytes(),
        "javascript:".spec_bytes(),
        "eval(".spec_bytes(),
        "exec(".spec_bytes(),
        "system(".spec_bytes(),
    ]
}

/// Some suspicious pattern occurs in the payload.
pub open spec fn has_suspicious_bytes(payload: Seq<u8>) -> bool {
    exists|i: int| 0 <= i < suspicious_byte_patterns().len() && contains_seq(payload, #[trigger] suspicious_byte_patterns()[i])
}

/// The reason given for a payload over the size limit.
pub open spec fn too_large_reason(len: nat, max: nat) -> Seq<char> {
    "Payload too large: "@ + decimal(len) + " bytes (max: "@ + decimal(max) + ")"@
}

/// Why a payload is refused, or `None` if it is accepted.
pub open spec fn input_rejection(max_size: nat, payload: Seq<u8>) -> Option<Seq<char>> {
    if payload.len() > max_size {
        Some(too_large_reason(payload.len(), max_size))
    } else if payload.len() == 0 {
        Some("Empty payload not allowed"@)
    } else if has_suspicious_bytes(payload) {
        Some("Suspicious content detected"@)
    } else {
        None
    }
}

/// The outcome of a validation matches the rejection computed by `input_rejection`.
pub open spec fn validation_matches(r: Result<(), SecurityError>, rejection: Option<Seq<char>>) -> bool {
    match r {
        Ok(_) => rejection is None,
        Err(SecurityError::InvalidInput { reason }) => rejection == Some(reason@),
        Err(_) => false,
    }
}

/// Input validator for security
pub struct InputValidator {
    max_size: usize,
}

impl InputValidator {
    /// The largest payload, in bytes, that is accepted.
    pub closed spec fn spec_max_size(&self) -> usize {
        self.max_size
    }

    pub fn new(max_size: usize) -> (v: Self)
        ensures
            v.spec_max_size() == max_size,
    {
        Self { max_size }
    }

    fn contains_suspicious_content(&self, payload: &[u8]) -> (b: bool)
        ensures
            b == has_suspicious_bytes(payload@),
    {
        let patterns: [&[u8]; 5] = [
            "<script".as_bytes(),
            "javascript:".as_bytes(),
            "eval(".as_bytes(),
            "exec(".as_bytes(),
            "system(".as_bytes(),
        ];
        let mut i: usize = 0;
        while i < 5
            invariant
                i <= 5,
                forall|j: int| 0 <= j < 5 ==> (#[trigger] patterns[j])@ == suspicious_byte_patterns()[j],
                forall|j: int| 0 <= j < i ==> !contains_seq(payload@, #[trigger] suspicious_byte_patterns()[j]),
            decreases 5 - i,
        {
            if bytes_contain(payload, patterns[i]) {
                return true;
            }
            i += 1;
        }
        false
    }

    /// Checks a payload: not larger than the limit, not empty, and free of
    /// suspicious patterns.
    pub fn validate_input(&self, payload: &[u8]) -> (r: Result<(), SecurityError>)
        ensures
            validation_matches(r, input_rejection(self.spec_max_size() as nat, payload@)),
    {
        if payload.len() > self.max_size {
            let mut v = lit("Payload too large: ");
            extend_chars(&mut v, &decimal_chars(payload.len() as u64));
            extend_chars(&mut v, &lit(" bytes (max: "));
            extend_chars(&mut v, &decimal_chars(self.max_size as u64));
            extend_chars(&mut v, &lit(")"));
            return Err(SecurityError::InvalidInput { reason: string_from_chars(&v) });
        }
        if payload.len() == 0 {
            return Err(SecurityError::InvalidInput { reason: "Empty payload not allowed".to_string() });
        }
        if self.contains_suspicious_content(payload) {
            return Err(SecurityError::InvalidInput { reason: "Suspicious content detected".to_string() });
        }
        Ok(())
    }

    /// Validate string input (convenience method): the same as validating its UTF-8 bytes.
    pub fn validate_string(&self, input: String) -> (r: Result<(), SecurityError>)
        ensures
            validation_matches(r, input_rejection(self.spec_max_size() as nat, vstd::utf8::encode_utf8(input@))),
    {
        self.validate_input(input.as_str().as_bytes())
    }
}

} // verus!
