//! The typed identifier of a recording session, and its text form.
use vstd::prelude::*;
use vstd::string::StrSliceExecFns;

verus! {

/// Whether `c` may appear in a session identifier.
pub open spec fn session_id_char(c: char) -> bool {
    ('a' <= c && c <= 'z') || ('A' <= c && c <= 'Z') || ('0' <= c && c <= '9') || c == '-' || c
        == '_'
}

/// Whether `s` is the text form of a session identifier: not empty, and made of
/// ASCII letters, digits, `-` and `_`.
pub open spec fn valid_session_text(s: Seq<char>) -> bool {
    s.len() > 0 && forall|i: int| 0 <= i < s.len() ==> session_id_char(#[trigger] s[i])
}

/// The identifier of a session. It is only ever built from a valid text form.
#[derive(Debug)]
pub struct SessionId {
    text: String,
}

impl View for SessionId {
    type V = Seq<char>;

    closed spec fn view(&self) -> Seq<char> {
        self.text@
    }
}

impl SessionId {
    /// The text form of every session identifier is valid.
    #[verifier::type_invariant]
    pub closed spec fn inv(&self) -> bool {
        valid_session_text(self.text@)
    }

    /// What the type invariant says of the text form.
    pub proof fn lemma_valid(&self)
        requires
            self.inv(),
        ensures
            valid_session_text(self@),
    {
    }

    /// Reads a session identifier from its text form; `None` where the text is
    /// not one.
    pub fn parse(s: &str) -> (r: Option<SessionId>)
        ensures
            r is Some <==> valid_session_text(s@),
            r matches Some(id) ==> id@ == s@,
    {
        let n = s.unicode_len();
        if n == 0 {
            return None;
        }
        let mut i: usize = 0;
        while i < n
            invariant
                n == s@.len(),
                i <= n,
                forall|j: int| 0 <= j < i ==> session_id_char(#[trigger] s@[j]),
            decreases n - i,
        {
            let c = s.get_char(i);
            let ok = ('a' <= c && c <= 'z') || ('A' <= c && c <= 'Z') || ('0' <= c && c <= '9')
                || c == '-' || c == '_';
            if !ok {
                return None;
            }
            i = i + 1;
        }
        Some(SessionId { text: s.to_owned() })
    }

    /// The text form of this identifier.
    pub fn as_str(&self) -> (r: &str)
        ensures
            r@ == self@,
            valid_session_text(r@),
    {
        proof {
            use_type_invariant(self);
        }
        self.text.as_str()
    }

    /// The text form of this identifier, as an owned string.
    pub fn to_string(&self) -> (r: String)
        ensures
            r@ == self@,
    {
        self.as_str().to_owned()
    }
}

impl Clone for SessionId {
    fn clone(&self) -> (r: SessionId)
        ensures
            r@ == self@,
    {
        proof {
            use_type_invariant(self);
        }
        SessionId { text: self.text.clone() }
    }
}

} // verus!
