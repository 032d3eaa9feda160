//! The credential gate: resolves a bearer credential to an identity.
//!
//! Every request carries an authorization header. A route restricted to one
//! token type rejects a missing header, a malformed header, an unknown token
//! and a valid token of the wrong type with the same forbidden outcome, so
//! nothing distinguishes "wrong type" from "invalid" for a caller.

use vstd::prelude::*;
use vstd::string::StrSliceExecFns;
use crate::search::first_where;
use crate::search::lemma_first_where_is;
use crate::search::lemma_first_where_none;

verus! {

/// How a request can fail before reaching an endpoint.
#[derive(Clone, Copy, PartialEq, Eq, Structural, Debug)]
pub enum HttpError {
    NotFound,
    Forbidden,
}

/// The kind of credential a token grants.
#[derive(Clone, Copy, PartialEq, Eq, Structural, Debug)]
pub enum TokenType {
    /// Held by worker agents.
    Agent,
    /// Held by the operator-facing site.
    Site,
}

/// One registered token and the identity it resolves to.
#[derive(Debug)]
pub struct TokenEntry {
    pub token: String,
    pub token_type: TokenType,
    pub name: String,
}

#[verifier::ext_equal]
pub struct TokenEntryView {
    pub token: Seq<char>,
    pub token_type: TokenType,
    pub name: Seq<char>,
}

impl View for TokenEntry {
    type V = TokenEntryView;

    open spec fn view(&self) -> TokenEntryView {
        TokenEntryView { token: self.token@, token_type: self.token_type, name: self.name@ }
    }
}

/// The identity a credential resolved to: the agent's assigned display name
/// and, when the request carried one, its build revision.
#[derive(Debug)]
pub struct AuthDetails {
    pub name: String,
    pub git_revision: Option<String>,
}

/// Index of the entry for `token`, if any.
pub open spec fn spec_token_entry(entries: Seq<TokenEntryView>, token: Seq<char>) -> Option<int> {
    first_where(entries, |t: TokenEntryView| t.token == token)
}

/// The token inside a well-formed `Bearer` authorization header, if the
/// header is well-formed and the token nonempty.
pub open spec fn bearer_token_of(header: Seq<char>) -> Option<Seq<char>> {
    if header.len() > 7 && header.subrange(0, 7) == "Bearer "@ {
        Some(header.subrange(7, header.len() as int))
    } else {
        None
    }
}

/// The name a credential resolves to under `required`, or `None` for the
/// uniform forbidden outcome: missing header, malformed header, unknown
/// token and wrong-type token are indistinguishable.
pub open spec fn spec_authenticate(
    entries: Seq<TokenEntryView>,
    header: Option<Seq<char>>,
    required: TokenType,
) -> Option<Seq<char>> {
    match header {
        None => None,
        Some(h) => match bearer_token_of(h) {
            None => None,
            Some(tok) => match spec_token_entry(entries, tok) {
                None => None,
                Some(i) => if entries[i].token_type == required {
                    Some(entries[i].name)
                } else {
                    None
                },
            },
        },
    }
}

/// The registered tokens, one entry per token string.
pub struct Tokens {
    entries: Vec<TokenEntry>,
}

impl View for Tokens {
    type V = Seq<TokenEntryView>;

    closed spec fn view(&self) -> Seq<TokenEntryView> {
        self.entries@.map_values(|t: TokenEntry| t@)
    }
}

impl Tokens {
    /// Invariant: no token string is registered twice.
    pub open spec fn wf(&self) -> bool {
        forall|i: int, j: int|
            #![trigger self@[i], self@[j]]
            0 <= i < self@.len() && 0 <= j < self@.len() && i != j ==> self@[i].token
                != self@[j].token
    }

    pub fn new() -> (r: Tokens)
        ensures
            r@ == Seq::<TokenEntryView>::empty(),
            r.wf(),
    {
        let r = Tokens { entries: Vec::new() };
        proof {
            assert(r@ =~= Seq::<TokenEntryView>::empty());
        }
        r
    }

    /// Registers one token.
    pub fn add(&mut self, entry: TokenEntry)
        requires
            old(self).wf(),
            forall|j: int|
                0 <= j < old(self)@.len() ==> (#[trigger] old(self)@[j]).token != entry@.token,
        ensures
            final(self)@ == old(self)@.push(entry@),
            final(self).wf(),
    {
        let ghost pre = self@;
        self.entries.push(entry);
        proof {
            assert(self@ =~= pre.push(entry@));
        }
    }

    /// Index of the entry for `token`, if any.
    fn lookup(&self, token: &String) -> (r: Option<usize>)
        ensures
            match r {
                Some(i) => spec_token_entry(self@, token@) == Some(i as int) && i < self@.len(),
                None => spec_token_entry(self@, token@) is None,
            },
    {
        let ghost p = |t: TokenEntryView| t.token == token@;
        let mut i: usize = 0;
        while i < self.entries.len()
            invariant
                i <= self.entries.len(),
                self@.len() == self.entries@.len(),
                forall|j: int| 0 <= j < i ==> !p(self@[j]),
                p == (|t: TokenEntryView| t.token == token@),
            decreases self.entries.len() - i,
        {
            proof {
                assert(self@[i as int] == self.entries@[i as int]@);
            }
            if self.entries[i].token == *token {
                proof {
                    assert(p(self@[i as int]));
                    lemma_first_where_is(self@, p, i as int);
                }
                return Some(i);
            }
            proof {
                assert(!p(self@[i as int]));
            }
            i = i + 1;
        }
        proof {
            lemma_first_where_none(self@, p);
        }
        None
    }
}

/// Extracts the token from a `Bearer` authorization header.
fn parse_bearer(header: &str) -> (r: Option<String>)
    ensures
        match bearer_token_of(header@) {
            Some(t) => r is Some && r->Some_0@ == t,
            None => r is None,
        },
{
    proof {
        reveal_strlit("Bearer ");
    }
    let pattern = "Bearer ";
    let n = header.unicode_len();
    if n <= 7 {
        return None;
    }
    let mut i: usize = 0;
    while i < 7
        invariant
            i <= 7,
            header@.len() > 7,
            pattern@ == "Bearer "@,
            pattern@.len() == 7,
            forall|j: int| 0 <= j < i ==> header@[j] == pattern@[j],
        decreases 7 - i,
    {
        if header.get_char(i) != pattern.get_char(i) {
            proof {
                assert(header@[i as int] != pattern@[i as int]);
                assert(header@.subrange(0, 7) != "Bearer "@) by {
                    if header@.subrange(0, 7) == "Bearer "@ {
                        assert(header@.subrange(0, 7)[i as int] == header@[i as int]);
                    }
                }
            }
            return None;
        }
        i = i + 1;
    }
    let token = header.substring_char(7, n);
    proof {
        assert(header@.subrange(0, 7) =~= "Bearer "@);
    }
    Some(token.to_owned())
}

/// Resolves a bearer credential against the registered tokens.
///
/// Success returns the identity the token is registered under, carrying the
/// revision header through untouched. Everything else — missing header,
/// malformed header, unknown token, wrong-type token — is the one uniform
/// `Forbidden` outcome.
pub fn authenticate(
    tokens: &Tokens,
    header: Option<&String>,
    required: TokenType,
    git_revision: Option<String>,
) -> (r: Result<AuthDetails, HttpError>)
    ensures
        match spec_authenticate(
            tokens@,
            match header {
                Some(h) => Some(h@),
                None => None,
            },
            required,
        ) {
            Some(name) => r is Ok && r->Ok_0.name@ == name && r->Ok_0.git_revision
                == git_revision,
            None => r == Err::<AuthDetails, HttpError>(HttpError::Forbidden),
        },
{
    let h = match header {
        Some(h) => h,
        None => {
            return Err(HttpError::Forbidden);
        },
    };
    let token = match parse_bearer(h.as_str()) {
        Some(t) => t,
        None => {
            return Err(HttpError::Forbidden);
        },
    };
    let i = match tokens.lookup(&token) {
        Some(i) => i,
        None => {
            return Err(HttpError::Forbidden);
        },
    };
    proof {
        assert(tokens@[i as int] == tokens.entries@[i as int]@);
    }
    let entry = &tokens.entries[i];
    let granted = match (entry.token_type, required) {
        (TokenType::Agent, TokenType::Agent) => true,
        (TokenType::Site, TokenType::Site) => true,
        _ => false,
    };
    if granted {
        Ok(AuthDetails { name: entry.name.clone(), git_revision })
    } else {
        Err(HttpError::Forbidden)
    }
}

/// Law: rejection is uniform. A syntactically well-formed credential whose
/// token is registered under another type and a malformed credential are
/// rejected identically: both resolve to the same forbidden outcome, so the
/// caller cannot tell "wrong type" from "invalid".
pub proof fn lemma_gate_uniform_rejection(
    entries: Seq<TokenEntryView>,
    wrong_type: Seq<char>,
    malformed: Seq<char>,
    required: TokenType,
)
    requires
        bearer_token_of(wrong_type) is Some,
        spec_token_entry(entries, bearer_token_of(wrong_type)->Some_0) is Some,
        entries[spec_token_entry(entries, bearer_token_of(wrong_type)->Some_0)->Some_0].token_type
            != required,
        bearer_token_of(malformed) is None,
    ensures
        spec_authenticate(entries, Some(wrong_type), required) == spec_authenticate(
            entries,
            Some(malformed),
            required,
        ),
        spec_authenticate(entries, Some(wrong_type), required) is None,
{
}

} // verus!
