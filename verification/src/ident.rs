//! Identifier validation: the rules a short-link token must satisfy
//! before it can be used as a key in the configuration.
//!
//! Separator policy: an identifier may contain interior path separators
//! (multi-segment identifiers are allowed); only a leading or trailing
//! separator is rejected.

use vstd::prelude::*;

use crate::text::{is_space, is_space_char, str_eq, trim, trimmed};

verus! {

/// Why a candidate identifier was rejected; the rules are applied in a
/// fixed order, so the reason is deterministic.
#[derive(Debug, Clone, Copy, PartialEq, Eq, Structural)]
pub enum ValidationError {
    /// Empty after trimming surrounding whitespace.
    Empty,
    /// Contains a whitespace character.
    ContainsWhitespace,
    /// Contains a character of the forbidden set (the backslash).
    ForbiddenChar,
    /// Equals a token reserved for internal routes.
    ReservedToken,
    /// Starts or ends with the path-separator character.
    SeparatorEdge,
}

pub open spec fn seq_has_space(s: Seq<char>) -> bool {
    exists|i: int| 0 <= i < s.len() && is_space_char(s[i])
}

pub open spec fn seq_has_forbidden(s: Seq<char>) -> bool {
    exists|i: int| 0 <= i < s.len() && s[i] == '\\'
}

pub open spec fn is_reserved(s: Seq<char>) -> bool {
    s == seq!['a', 'p', 'i']
}

/// The validation rules on an already-trimmed token, applied in order;
/// the first rule that fails decides the error.
pub open spec fn id_check(s: Seq<char>) -> Result<(), ValidationError> {
    if s.len() == 0 {
        Err(ValidationError::Empty)
    } else if seq_has_space(s) {
        Err(ValidationError::ContainsWhitespace)
    } else if seq_has_forbidden(s) {
        Err(ValidationError::ForbiddenChar)
    } else if is_reserved(s) {
        Err(ValidationError::ReservedToken)
    } else if s[0] == '/' || s[s.len() - 1] == '/' {
        Err(ValidationError::SeparatorEdge)
    } else {
        Ok(())
    }
}

/// What validating a raw string yields: the trimmed token, or the first
/// rule it breaks.
pub open spec fn validate_spec(raw: Seq<char>) -> Result<Seq<char>, ValidationError> {
    match id_check(trimmed(raw)) {
        Ok(_) => Ok(trimmed(raw)),
        Err(e) => Err(e),
    }
}

/// A validated short-link identifier. Construction through [`LinkId::new`]
/// is the only way to obtain one, so every value satisfies [`LinkId::wf`].
#[derive(Debug)]
pub struct LinkId {
    id: String,
}

impl View for LinkId {
    type V = Seq<char>;

    closed spec fn view(&self) -> Seq<char> {
        self.id@
    }
}

impl Clone for LinkId {
    fn clone(&self) -> (r: Self)
        ensures
            r@ == self@,
    {
        LinkId { id: self.id.clone() }
    }
}

impl LinkId {
    pub open spec fn wf(self) -> bool {
        id_check(self@) is Ok
    }

    /// Validates `raw` and returns the identifier it denotes, or the
    /// reason the first broken rule gives.
    pub fn new(raw: &str) -> (r: Result<LinkId, ValidationError>)
        ensures
            (r is Ok) == (validate_spec(raw@) is Ok),
            r matches Ok(id) ==> validate_spec(raw@) == Ok::<Seq<char>, ValidationError>(id@)
                && id.wf(),
            r matches Err(e) ==> validate_spec(raw@) == Err::<Seq<char>, ValidationError>(e),
    {
        let t = trim(raw);
        let n = t.as_str().unicode_len();
        if n == 0 {
            return Err(ValidationError::Empty);
        }
        let mut i: usize = 0;
        while i < n
            invariant
                0 <= i <= n,
                n == t@.len(),
                t@ == trimmed(raw@),
                forall|k: int| 0 <= k < i ==> !is_space_char(t@[k]),
            decreases n - i,
        {
            if is_space(t.as_str().get_char(i)) {
                return Err(ValidationError::ContainsWhitespace);
            }
            i = i + 1;
        }
        assert(!seq_has_space(t@));
        let mut i: usize = 0;
        while i < n
            invariant
                0 <= i <= n,
                n == t@.len(),
                n > 0,
                t@ == trimmed(raw@),
                !seq_has_space(t@),
                forall|k: int| 0 <= k < i ==> t@[k] != '\\',
            decreases n - i,
        {
            if t.as_str().get_char(i) == '\\' {
                assert(seq_has_forbidden(t@));
                return Err(ValidationError::ForbiddenChar);
            }
            i = i + 1;
        }
        assert(!seq_has_forbidden(t@));
        if n == 3 && t.as_str().get_char(0) == 'a' && t.as_str().get_char(1) == 'p'
            && t.as_str().get_char(2) == 'i' {
            assert(t@ =~= seq!['a', 'p', 'i']);
            return Err(ValidationError::ReservedToken);
        }
        assert(!is_reserved(t@)) by {
            if is_reserved(t@) {
                assert(t@ == seq!['a', 'p', 'i']);
                assert(t@.len() == 3);
                assert(t@[0] == 'a' && t@[1] == 'p' && t@[2] == 'i');
            }
        }
        if t.as_str().get_char(0) == '/' || t.as_str().get_char(n - 1) == '/' {
            return Err(ValidationError::SeparatorEdge);
        }
        Ok(LinkId { id: t })
    }

    /// The underlying token.
    pub fn as_str(&self) -> (s: &str)
        ensures
            s@ == self@,
    {
        self.id.as_str()
    }

    /// Whether this identifier spells the same token as `other`.
    pub fn matches_str(&self, other: &str) -> (r: bool)
        ensures
            r == (self@ == other@),
    {
        str_eq(self.id.as_str(), other)
    }
}

/// A token that contains whitespace, contains a forbidden character,
/// equals the reserved token, or starts or ends with the path separator.
pub open spec fn breaks_a_rule(s: Seq<char>) -> bool {
    seq_has_space(s) || seq_has_forbidden(s) || is_reserved(s) || (s.len() > 0 && (s[0] == '/'
        || s[s.len() - 1] == '/'))
}

/// Every string whose trimmed form breaks one of the character rules is
/// rejected by validation.
pub proof fn lemma_invalid_strings_rejected(raw: Seq<char>)
    requires
        breaks_a_rule(trimmed(raw)),
    ensures
        validate_spec(raw) is Err,
{
    let t = trimmed(raw);
    if t.len() > 0 && is_reserved(t) {
        assert(t[0] == 'a');
    }
}

} // verus!
