//! The service implementation behind the one RPC method.

use vstd::prelude::*;
use vstd::utf8::{encode_utf8, encode_utf8_decode_utf8};
use crate::hero::{Hero, HeroById};
use crate::wire::{decode_hero_by_id, encode_hero, spec_decode_hero_by_id, spec_encode_hero};

verus! {

/// The request path that routes to `FindOne`: the one binding the
/// service has, fixed before it starts and never changed.
pub open spec fn find_one_path() -> Seq<char> {
    "/hero.HeroesService/FindOne"@
}

/// Why a call was refused without reaching the handler.
#[derive(Debug, PartialEq, Eq, Structural)]
pub enum DispatchError {
    /// The request path names no method of this service.
    UnknownMethod,
    /// The request body is not a wire-format `HeroById`.
    InvalidRequest,
}

/// The stateless `HeroesService` implementation.  One value of it is built
/// at startup and shared by every call; it owns nothing.
#[derive(Debug, Default)]
pub struct HeroService;

impl HeroService {
    /// Handler for `FindOne`.  It ignores the request id and returns the
    /// fixed record `Hero { id: 1, name: "scd" }`, whatever the input:
    /// the response does not depend on the request.  It has no side
    /// effects and cannot fail.
    pub fn find_one(&self, _request: &HeroById) -> (r: Hero)
        ensures
            r.id == 1,
            r.name@ == "scd"@,
    {
        Hero { id: 1, name: "scd".to_owned() }
    }

    /// Serves one call at the byte level, as the transport hands it over:
    /// routes the request path, decodes the body, runs the handler, and
    /// encodes the response.  A path other than the one bound method is
    /// refused as `UnknownMethod`; a body that is no `HeroById` is
    /// refused as `InvalidRequest`; every well-formed call succeeds and
    /// returns the encoding of the fixed `Hero { id: 1, name: "scd" }`.
    pub fn dispatch(&self, path: &str, body: &[u8]) -> (r: Result<Vec<u8>, DispatchError>)
        ensures
            path@ != find_one_path() ==> (r matches Err(e) && e is UnknownMethod),
            path@ == find_one_path() && spec_decode_hero_by_id(body@) is None ==> (r matches Err(e)
                && e is InvalidRequest),
            path@ == find_one_path() && spec_decode_hero_by_id(body@) is Some ==> (r matches Ok(out)
                && out@ == spec_encode_hero(1, encode_utf8("scd"@))),
    {
        if !path_is_find_one(path) {
            return Err(DispatchError::UnknownMethod);
        }
        match decode_hero_by_id(body) {
            None => Err(DispatchError::InvalidRequest),
            Some(req) => {
                let hero = self.find_one(&req);
                Ok(encode_hero(&hero))
            },
        }
    }
}

/// Compares two byte strings.
fn bytes_eq(a: &[u8], b: &[u8]) -> (r: bool)
    ensures
        r == (a@ == b@),
{
    if a.len() != b.len() {
        return false;
    }
    let mut i: usize = 0;
    while i < a.len()
        invariant
            i <= a@.len(),
            a@.len() == b@.len(),
            forall|j: int| 0 <= j < i ==> a@[j] == b@[j],
        decreases a@.len() - i,
    {
        if a[i] != b[i] {
            return false;
        }
        i = i + 1;
    }
    proof {
        assert(a@ =~= b@);
    }
    true
}

/// Tests whether `path` is the request path of `FindOne`.  Two strings
/// are equal exactly when their UTF-8 bytes are.
fn path_is_find_one(path: &str) -> (r: bool)
    ensures
        r == (path@ == find_one_path()),
{
    let lit = "/hero.HeroesService/FindOne";
    let r = bytes_eq(path.as_bytes(), lit.as_bytes());
    proof {
        if r {
            encode_utf8_decode_utf8(path@);
            encode_utf8_decode_utf8(lit@);
        }
    }
    r
}

} // verus!
