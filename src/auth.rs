//! Authorization credentials and the `Authorization` header derived from them.
use vstd::prelude::*;
use vstd::string::StringExecFns;
use vstd::utf8::encode_utf8;
use base64::Engine;
use crate::text::string_of;

verus! {

/// The kinds of credential a request can carry.
#[derive(Debug, Clone, Copy, PartialEq, Eq, Structural)]
pub enum AuthType {
    NoAuth,
    BearerToken,
    BasicAuth,
}

/// The caption shown for each kind of credential.
pub open spec fn auth_type_label(t: AuthType) -> Seq<char> {
    match t {
        AuthType::NoAuth => "No Auth"@,
        AuthType::BearerToken => "Bearer Token"@,
        AuthType::BasicAuth => "Basic Auth"@,
    }
}

impl AuthType {
    /// The caption shown for this kind of credential.
    pub fn label(&self) -> (r: String)
        ensures
            r@ == auth_type_label(*self),
    {
        match self {
            AuthType::NoAuth => String::from_str("No Auth"),
            AuthType::BearerToken => String::from_str("Bearer Token"),
            AuthType::BasicAuth => String::from_str("Basic Auth"),
        }
    }
}

/// The credential of a request: exactly one kind is active at a time.
#[derive(Debug, Clone)]
pub enum Auth {
    NoAuth,
    BearerToken(String),
    Basic { user: String, pass: String },
}

impl Default for Auth {
    fn default() -> (r: Auth)
        ensures
            r is NoAuth,
    {
        Auth::NoAuth
    }
}

/// An edit of one field of the active credential.
#[derive(Debug, Clone)]
pub enum AuthInput {
    BearerToken(String),
    BasicUser(String),
    BasicPass(String),
}

/// The credential of kind `t` with all its fields empty.
pub open spec fn is_fresh_auth(a: Auth, t: AuthType) -> bool {
    match t {
        AuthType::NoAuth => a is NoAuth,
        AuthType::BearerToken => a matches Auth::BearerToken(tok) && tok@.len() == 0,
        AuthType::BasicAuth => a matches Auth::Basic { user, pass } && user@.len() == 0
            && pass@.len() == 0,
    }
}

/// The kind of the credential `a`.
pub open spec fn auth_kind(a: Auth) -> AuthType {
    match a {
        Auth::NoAuth => AuthType::NoAuth,
        Auth::BearerToken(_) => AuthType::BearerToken,
        Auth::Basic { .. } => AuthType::BasicAuth,
    }
}

/// `a` after the edit `input`; an edit of a field that the active kind does
/// not have changes nothing.
pub open spec fn auth_after_input(a: Auth, input: AuthInput) -> Auth {
    match (a, input) {
        (Auth::BearerToken(_), AuthInput::BearerToken(t)) => Auth::BearerToken(t),
        (Auth::Basic { user: _, pass }, AuthInput::BasicUser(u)) => Auth::Basic { user: u, pass },
        (Auth::Basic { user, pass: _ }, AuthInput::BasicPass(p)) => Auth::Basic { user, pass: p },
        (a, _) => a,
    }
}

/// The text `user:pass` that basic authorization encodes.
pub open spec fn basic_credentials(user: Seq<char>, pass: Seq<char>) -> Seq<char> {
    user + seq![':'] + pass
}

/// The standard base64 digit for `n`, which is below 64: `A`-`Z`, `a`-`z`,
/// `0`-`9`, `+`, `/`.
pub open spec fn base64_digit(n: int) -> char {
    if n < 26 {
        ((n + 65) as u8) as char
    } else if n < 52 {
        ((n + 71) as u8) as char
    } else if n < 62 {
        ((n - 4) as u8) as char
    } else if n == 62 {
        '+'
    } else {
        '/'
    }
}

/// The standard base64 form of `b`: each three bytes become four digits of
/// six bits each, and a last group of one or two bytes is padded with `=`.
pub open spec fn base64_of(b: Seq<u8>) -> Seq<char>
    decreases b.len(),
{
    if b.len() == 0 {
        seq![]
    } else {
        let x = b[0] as int;
        let y = if b.len() > 1 { b[1] as int } else { 0 };
        let z = if b.len() > 2 { b[2] as int } else { 0 };
        if b.len() == 1 {
            seq![base64_digit(x / 4), base64_digit((x % 4) * 16), '=', '=']
        } else if b.len() == 2 {
            seq![base64_digit(x / 4), base64_digit((x % 4) * 16 + y / 16), base64_digit((y % 16) * 4), '=']
        } else {
            seq![
                base64_digit(x / 4),
                base64_digit((x % 4) * 16 + y / 16),
                base64_digit((y % 16) * 4 + z / 64),
                base64_digit(z % 64),
            ] + base64_of(b.skip(3))
        }
    }
}

/// The `Authorization` header of `a`, with `encoded` standing for the base64
/// form of the basic credentials: none for no credential, an empty token, or
/// an empty user together with an empty password.
pub open spec fn auth_header_given(a: Auth, encoded: Seq<char>) -> Option<(Seq<char>, Seq<char>)> {
    match a {
        Auth::NoAuth => None,
        Auth::BearerToken(t) => if t@.len() == 0 {
            None
        } else {
            Some(("Authorization"@, "Bearer "@ + t@))
        },
        Auth::Basic { user, pass } => if user@.len() == 0 && pass@.len() == 0 {
            None
        } else {
            Some(("Authorization"@, "Basic "@ + encoded))
        },
    }
}

/// The `Authorization` header derived from `a`.
pub open spec fn auth_header(a: Auth) -> Option<(Seq<char>, Seq<char>)> {
    match a {
        Auth::Basic { user, pass } => auth_header_given(
            a,
            base64_of(encode_utf8(basic_credentials(user@, pass@))),
        ),
        _ => auth_header_given(a, seq![]),
    }
}

/// Relies on base64's `STANDARD` engine `encode`: the standard alphabet with
/// `=` padding.
#[verifier::external_body]
fn base64_standard(data: &[u8]) -> (r: String)
    ensures
        r@ == base64_of(data@),
{
    base64::engine::general_purpose::STANDARD.encode(data)
}

/// The credential of kind `t` with all its fields empty: switching kinds
/// keeps nothing of the former credential.
pub fn auth_for_type(t: AuthType) -> (r: Auth)
    ensures
        is_fresh_auth(r, t),
        auth_kind(r) == t,
{
    match t {
        AuthType::NoAuth => Auth::NoAuth,
        AuthType::BearerToken => Auth::BearerToken(String::new()),
        AuthType::BasicAuth => Auth::Basic { user: String::new(), pass: String::new() },
    }
}

impl Auth {
    /// The kind of this credential.
    pub fn kind(&self) -> (r: AuthType)
        ensures
            r == auth_kind(*self),
    {
        match self {
            Auth::NoAuth => AuthType::NoAuth,
            Auth::BearerToken(_) => AuthType::BearerToken,
            Auth::Basic { .. } => AuthType::BasicAuth,
        }
    }

    /// Applies an edit of one field of the active credential.
    pub fn apply_input(&mut self, input: AuthInput)
        ensures
            *final(self) == auth_after_input(*old(self), input),
    {
        match (self, input) {
            (Auth::BearerToken(tok), AuthInput::BearerToken(t)) => {
                *tok = t;
            },
            (Auth::Basic { user, pass: _ }, AuthInput::BasicUser(u)) => {
                *user = u;
            },
            (Auth::Basic { user: _, pass }, AuthInput::BasicPass(p)) => {
                *pass = p;
            },
            _ => {},
        }
    }

    /// The `Authorization` header of this credential, given the base64 form
    /// `encoded` of its basic credentials.
    pub fn header_given(&self, encoded: &str) -> (r: Option<(String, String)>)
        ensures
            match (r, auth_header_given(*self, encoded@)) {
                (Some(h), Some(g)) => h.0@ == g.0 && h.1@ == g.1,
                (None, None) => true,
                _ => false,
            },
    {
        match self {
            Auth::NoAuth => None,
            Auth::BearerToken(t) => {
                if t.as_str().is_empty() {
                    None
                } else {
                    Some((String::from_str("Authorization"), String::from_str("Bearer ").concat(t.as_str())))
                }
            },
            Auth::Basic { user, pass } => {
                if user.as_str().is_empty() && pass.as_str().is_empty() {
                    None
                } else {
                    Some((String::from_str("Authorization"), String::from_str("Basic ").concat(encoded)))
                }
            },
        }
    }

    /// The `Authorization` header derived from this credential.
    pub fn header(&self) -> (r: Option<(String, String)>)
        ensures
            match (r, auth_header(*self)) {
                (Some(h), Some(g)) => h.0@ == g.0 && h.1@ == g.1,
                (None, None) => true,
                _ => false,
            },
    {
        match self {
            Auth::Basic { user, pass } => {
                let mut cred: Vec<char> = crate::text::chars_of(user.as_str());
                cred.push(':');
                let p = crate::text::chars_of(pass.as_str());
                crate::text::append_chars(&mut cred, &p);
                assert(cred@ =~= basic_credentials(user@, pass@));
                let text = string_of(&cred);
                let encoded = base64_standard(text.as_str().as_bytes());
                self.header_given(encoded.as_str())
            },
            _ => self.header_given(""),
        }
    }
}

} // verus!

verus! {

/// The text that an edit of a credential field carries.
pub open spec fn input_text(i: AuthInput) -> Seq<char> {
    match i {
        AuthInput::BearerToken(t) => t@,
        AuthInput::BasicUser(u) => u@,
        AuthInput::BasicPass(p) => p@,
    }
}

/// `a` after the edits `inputs`, in order.
pub open spec fn auth_after_inputs(a: Auth, inputs: Seq<AuthInput>) -> Auth
    decreases inputs.len(),
{
    if inputs.len() == 0 {
        a
    } else {
        auth_after_input(auth_after_inputs(a, inputs.drop_last()), inputs.last())
    }
}

/// `s` is empty or the text of one of `inputs`.
pub open spec fn typed_or_empty(s: Seq<char>, inputs: Seq<AuthInput>) -> bool {
    s.len() == 0 || exists|i: int| 0 <= i < inputs.len() && input_text(#[trigger] inputs[i]) == s
}

/// Every field of `a` is empty or the text of one of `inputs`.
pub open spec fn fields_typed_in(a: Auth, inputs: Seq<AuthInput>) -> bool {
    match a {
        Auth::NoAuth => true,
        Auth::BearerToken(t) => typed_or_empty(t@, inputs),
        Auth::Basic { user, pass } => typed_or_empty(user@, inputs) && typed_or_empty(pass@, inputs),
    }
}

proof fn lemma_typed_extends(s: Seq<char>, inputs: Seq<AuthInput>)
    requires
        inputs.len() > 0,
        typed_or_empty(s, inputs.drop_last()),
    ensures
        typed_or_empty(s, inputs),
{
    if s.len() > 0 {
        let pre = inputs.drop_last();
        let i = choose|i: int| 0 <= i < pre.len() && input_text(#[trigger] pre[i]) == s;
        assert(inputs[i] == pre[i]);
    }
}

/// Once the credential kind is switched to `t`, whatever edits of its fields
/// follow, the credential stays of kind `t` and each of its fields is empty or
/// a value typed after the switch: nothing of the credential it replaced
/// remains, and with no credential kind no header is derived at all.
pub proof fn lemma_auth_fields_after_switch(a: Auth, t: AuthType, inputs: Seq<AuthInput>)
    requires
        is_fresh_auth(a, t),
    ensures
        auth_kind(auth_after_inputs(a, inputs)) == t,
        fields_typed_in(auth_after_inputs(a, inputs), inputs),
        t == AuthType::NoAuth ==> auth_header(auth_after_inputs(a, inputs)) is None,
    decreases inputs.len(),
{
    if inputs.len() > 0 {
        let pre = inputs.drop_last();
        let n = inputs.len() - 1;
        lemma_auth_fields_after_switch(a, t, pre);
        match auth_after_inputs(a, pre) {
            Auth::BearerToken(tok) => {
                lemma_typed_extends(tok@, inputs);
            },
            Auth::Basic { user, pass } => {
                lemma_typed_extends(user@, inputs);
                lemma_typed_extends(pass@, inputs);
            },
            Auth::NoAuth => {},
        }
        assert(input_text(inputs[n]) == input_text(inputs.last()));
    }
}

} // verus!
