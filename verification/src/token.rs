//! The join argument that travels from the host that creates a member to
//! the host that joins, and the token it travels in.
use vstd::prelude::*;
use vstd::utf8::{decode_utf8, encode_utf8, valid_utf8};
use vstd::utf8::{encode_utf8_decode_utf8, encode_utf8_valid_utf8};
use crate::codec::{base64_decode, base64_decoded, base64_encode, base64_encoded, string_from_utf8};
use crate::error::Error;
use vstd::string::StringSliceAdditionalSpecFns;

verus! {

/// What a joining host needs: its mesh certificate bundle (base64 of a
/// tar.gz archive), an optional second bundle, its name in the mesh, and
/// the command that joins it to the Kubernetes cluster.
pub struct ARG {
    pub mesh_cfg: Option<String>,
    pub v_mesh_cfg: Option<String>,
    pub name: String,
    pub join: Option<String>,
}

/// The contents of an [`ARG`].
pub struct ArgView {
    pub mesh_cfg: Option<Seq<char>>,
    pub v_mesh_cfg: Option<Seq<char>>,
    pub name: Seq<char>,
    pub join: Option<Seq<char>>,
}

/// The text of an optional string.
pub open spec fn opt_view(s: Option<String>) -> Option<Seq<char>> {
    match s {
        Some(t) => Some(t@),
        None => None,
    }
}

impl View for ARG {
    type V = ArgView;

    open spec fn view(&self) -> ArgView {
        ArgView {
            mesh_cfg: opt_view(self.mesh_cfg),
            v_mesh_cfg: opt_view(self.v_mesh_cfg),
            name: self.name@,
            join: opt_view(self.join),
        }
    }
}

impl ARG {
    /// Leaves the argument as it is and succeeds.
    pub fn test_update(&mut self) -> (r: Result<(), Error>)
        ensures
            r is Ok,
            final(self)@ == old(self)@,
    {
        Ok(())
    }
}

/// The token that carries a serialized argument: its UTF-8 bytes in base64.
pub open spec fn token_of(payload: Seq<char>) -> Seq<char> {
    base64_encoded(encode_utf8(payload))
}

/// What a token carries: the base64-decoded bytes read as UTF-8, when
/// both steps succeed.
pub open spec fn token_payload(token: Seq<char>) -> Option<Seq<char>> {
    match base64_decoded(token) {
        Some(b) => if valid_utf8(b) {
            Some(decode_utf8(b))
        } else {
            None
        },
        None => None,
    }
}

/// Wraps a serialized argument into a token.
pub fn encode_token(payload: &str) -> (t: String)
    requires
        payload.spec_bytes().len() <= usize::MAX / 2,
    ensures
        t@ == token_of(payload@),
{
    base64_encode(payload.as_bytes())
}

/// Unwraps a token; `TokenError` when it is not base64 of UTF-8 text. A
/// token made by `encode_token` gives back exactly what was wrapped.
pub fn decode_token(token: &str) -> (r: Result<String, Error>)
    requires
        token.spec_bytes().len() + 3 <= usize::MAX,
    ensures
        match r {
            Ok(s) => token_payload(token@) == Some(s@),
            Err(e) => e == Error::TokenError && token_payload(token@) is None,
        },
        forall|payload: Seq<char>|
            token@ == #[trigger] token_of(payload) ==> (r matches Ok(s) && s@ == payload),
{
    let r = match base64_decode(token) {
        Some(bytes) => match string_from_utf8(bytes) {
            Some(s) => Ok(s),
            None => Err(Error::TokenError),
        },
        None => Err(Error::TokenError),
    };
    proof {
        assert forall|payload: Seq<char>|
            token@ == #[trigger] token_of(payload) implies (r matches Ok(s) && s@ == payload) by {
            encode_utf8_valid_utf8(payload);
            encode_utf8_decode_utf8(payload);
            assert(token@ == base64_encoded(encode_utf8(payload)));
        }
    }
    r
}

} // verus!
