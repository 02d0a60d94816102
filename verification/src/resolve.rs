//! The redirect resolver: consults one snapshot, applies the validity
//! state machine, and computes the redirect target according to the
//! link's append mode.

use vstd::prelude::*;

use crate::config::LynxConfiguration;
use crate::ident::LinkId;
use crate::link::{
    AppendMode, LinkState, LinkV, compute_target, link_state_spec, link_valid, target_spec,
};
use crate::urls::{parse_absolute_url, url_parse_result};

verus! {

/// Why a resolution failed.
#[derive(Debug, Clone, Copy, PartialEq, Eq, Structural)]
pub enum ResolveError {
    /// The identifier names no servable link. Absent, disabled and
    /// expired links are deliberately indistinguishable here.
    NotFound,
    /// The trailing content cannot be joined onto the redirect to form a
    /// valid URL.
    MalformedAppend,
}

/// The trailing request content after the identifier segment: what
/// follows the path separator plus the identifier at the start of the
/// request path, with one further leading separator stripped. Empty when
/// the path is not of that form.
pub open spec fn trailing_spec(path: Seq<char>, id: Seq<char>) -> Seq<char> {
    let pref = seq!['/'] + id;
    if path.len() >= pref.len() && path.subrange(0, pref.len() as int) == pref {
        let rest = path.subrange(pref.len() as int, path.len() as int);
        if rest.len() > 0 && rest[0] == '/' {
            rest.subrange(1, rest.len() as int)
        } else {
            rest
        }
    } else {
        Seq::empty()
    }
}

/// What resolving `id` with request path `path` against snapshot `snap`
/// at time `now` yields: `NotFound` for an absent, disabled or expired
/// link; otherwise the redirect itself when nothing trails the
/// identifier or the link never appends, and the append-mode target when
/// something does, `MalformedAppend` if that target is no valid URL.
pub open spec fn resolve_spec(
    snap: Map<Seq<char>, LinkV>,
    id: Seq<char>,
    path: Seq<char>,
    now: u64,
) -> Result<Seq<char>, ResolveError> {
    if !snap.contains_key(id) {
        Err(ResolveError::NotFound)
    } else if link_state_spec(snap[id], now) != LinkState::Valid {
        Err(ResolveError::NotFound)
    } else {
        let l = snap[id];
        let t = trailing_spec(path, id);
        if t.len() == 0 || l.append_mode == AppendMode::NoAppend {
            Ok(l.redirect)
        } else {
            let cand = target_spec(l.redirect, l.append_mode, t);
            if url_parse_result(cand) is Some {
                Ok(cand)
            } else {
                Err(ResolveError::MalformedAppend)
            }
        }
    }
}

/// The executable form of [`trailing_spec`].
fn extract_trailing(path: &str, id: &LinkId) -> (r: String)
    ensures
        r@ == trailing_spec(path@, id@),
{
    let ghost pref = seq!['/'] + id@;
    let n = path.unicode_len();
    let idlen = id.as_str().unicode_len();
    if n <= idlen {
        assert(path@.len() < pref.len());
        return String::new();
    }
    if path.get_char(0) != '/' {
        assert(path@.subrange(0, pref.len() as int)[0] != pref[0]);
        return String::new();
    }
    let mut k: usize = 0;
    while k < idlen
        invariant
            0 <= k <= idlen,
            n == path@.len(),
            idlen == id@.len(),
            n > idlen,
            path@[0] == '/',
            pref == seq!['/'] + id@,
            forall|j: int| 0 <= j < k ==> path@[j + 1] == id@[j],
        decreases idlen - k,
    {
        if path.get_char(k + 1) != id.as_str().get_char(k) {
            assert(path@.subrange(0, pref.len() as int)[k + 1] != pref[k + 1]);
            return String::new();
        }
        k = k + 1;
    }
    assert(path@.subrange(0, pref.len() as int) =~= pref);
    let rest = path.substring_char(idlen + 1, n);
    let ghost rest_s = path@.subrange(pref.len() as int, path@.len() as int);
    assert(rest@ == rest_s);
    let restlen = rest.unicode_len();
    if restlen > 0 && rest.get_char(0) == '/' {
        String::from_str(rest.substring_char(1, restlen))
    } else {
        String::from_str(rest)
    }
}

impl LynxConfiguration {
    /// Resolves `id` against this snapshot at time `now`, using
    /// `request_path` to extract the trailing content after the
    /// identifier segment, exactly as [`resolve_spec`] says.
    pub fn resolve(&self, id: &LinkId, request_path: &str, now: u64) -> (r: Result<
        String,
        ResolveError,
    >)
        requires
            self.wf(),
        ensures
            (r is Ok) == (resolve_spec(self@, id@, request_path@, now) is Ok),
            r matches Ok(t) ==> resolve_spec(self@, id@, request_path@, now) == Ok::<
                Seq<char>,
                ResolveError,
            >(t@),
            r matches Err(e) ==> resolve_spec(self@, id@, request_path@, now) == Err::<
                Seq<char>,
                ResolveError,
            >(e),
    {
        let link = match self.lookup(id) {
            Option::Some(l) => l,
            Option::None => {
                return Err(ResolveError::NotFound);
            },
        };
        if !link_valid(link, now) {
            return Err(ResolveError::NotFound);
        }
        let trailing = extract_trailing(request_path, id);
        if trailing.as_str().unicode_len() == 0 || link.append_mode == AppendMode::NoAppend {
            return Ok(link.redirect.clone());
        }
        let cand = compute_target(link.redirect.as_str(), link.append_mode, trailing.as_str());
        match parse_absolute_url(cand.as_str()) {
            Option::Some(_) => Ok(cand),
            Option::None => Err(ResolveError::MalformedAppend),
        }
    }
}

/// A valid identifier mapped to a non-disabled, non-expired link, asked
/// for with the request path that is exactly the separator plus the
/// identifier, resolves to exactly that link's redirect.
pub proof fn lemma_resolve_exact_hit(snap: Map<Seq<char>, LinkV>, id: Seq<char>, now: u64)
    requires
        snap.contains_key(id),
        link_state_spec(snap[id], now) == LinkState::Valid,
    ensures
        resolve_spec(snap, id, seq!['/'] + id, now) == Ok::<Seq<char>, ResolveError>(
            snap[id].redirect,
        ),
{
    let path = seq!['/'] + id;
    let pref = seq!['/'] + id;
    assert(path.subrange(0, pref.len() as int) =~= pref);
    assert(path.subrange(pref.len() as int, path.len() as int) =~= Seq::<char>::empty());
    assert(trailing_spec(path, id).len() == 0);
}

/// Resolution is a pure function of snapshot, identifier, path and time:
/// resolving the same question twice yields identical output.
pub proof fn lemma_resolve_idempotent(
    snap: Map<Seq<char>, LinkV>,
    id: Seq<char>,
    path: Seq<char>,
    now: u64,
    r1: Result<Seq<char>, ResolveError>,
    r2: Result<Seq<char>, ResolveError>,
)
    requires
        r1 == resolve_spec(snap, id, path, now),
        r2 == resolve_spec(snap, id, path, now),
    ensures
        r1 == r2,
{
}

/// Disabled and expired links are indistinguishable from absent ones:
/// each of the three resolves to `NotFound`, whatever the path.
pub proof fn lemma_hidden_states_not_found(
    snap: Map<Seq<char>, LinkV>,
    id: Seq<char>,
    path: Seq<char>,
    now: u64,
)
    requires
        !snap.contains_key(id) || link_state_spec(snap[id], now) == LinkState::Disabled
            || link_state_spec(snap[id], now) == LinkState::Expired,
    ensures
        resolve_spec(snap, id, path, now) == Err::<Seq<char>, ResolveError>(
            ResolveError::NotFound,
        ),
{
}

} // verus!
