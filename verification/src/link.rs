//! The link entity: one validated redirect rule, its validity state
//! machine, and the append-mode rule that merges a request's trailing
//! content into the redirect target.

use vstd::prelude::*;

use crate::urls::{attach_query, before_query, join_path, joined_path, query_of, split_query,
    with_query};

verus! {

/// How trailing request content is merged into the redirect target.
#[derive(Debug, Clone, Copy, PartialEq, Eq, Structural)]
pub enum AppendMode {
    /// The target is always exactly the redirect, whatever trails it.
    NoAppend,
    /// Trailing content is appended to the redirect's path; the query is
    /// taken from the trailing content alone.
    Path,
    /// Trailing content is appended to the redirect's path; the query is
    /// forced to be exactly the redirect's own.
    PathPreserveQuery,
}

/// One redirect rule: immutable once constructed, replaced wholesale on
/// reload. `redirect` holds the serialization of an absolute URL.
#[derive(Debug)]
pub struct Link {
    /// The URL including scheme to redirect to upon visiting.
    pub redirect: String,
    /// Whether the link is disabled and treated like it does not exist.
    pub disabled: bool,
    /// A Unix timestamp in seconds after which the link is invalid;
    /// absent means the link never expires.
    pub invalid_after: Option<u64>,
    /// How trailing request content is merged into the target.
    pub append_mode: AppendMode,
}

/// The mathematical content of a [`Link`].
pub struct LinkV {
    pub redirect: Seq<char>,
    pub disabled: bool,
    pub invalid_after: Option<u64>,
    pub append_mode: AppendMode,
}

impl View for Link {
    type V = LinkV;

    open spec fn view(&self) -> LinkV {
        LinkV {
            redirect: self.redirect@,
            disabled: self.disabled,
            invalid_after: self.invalid_after,
            append_mode: self.append_mode,
        }
    }
}

impl Clone for Link {
    fn clone(&self) -> (r: Self)
        ensures
            r@ == self@,
    {
        Link {
            redirect: self.redirect.clone(),
            disabled: self.disabled,
            invalid_after: self.invalid_after,
            append_mode: self.append_mode,
        }
    }
}

/// The validity states of a link at one instant.
#[derive(Debug, Clone, Copy, PartialEq, Eq, Structural)]
pub enum LinkState {
    Valid,
    Disabled,
    Expired,
}

/// The validity state machine: `Disabled` wins over everything, a link
/// with `invalid_after` strictly below the current time is `Expired`,
/// anything else is `Valid`. A pure function of the link and the clock.
pub open spec fn link_state_spec(l: LinkV, now: u64) -> LinkState {
    if l.disabled {
        LinkState::Disabled
    } else if l.invalid_after matches Some(t) && t < now {
        LinkState::Expired
    } else {
        LinkState::Valid
    }
}

/// Evaluates the validity state machine at time `now`.
pub fn link_state(link: &Link, now: u64) -> (s: LinkState)
    ensures
        s == link_state_spec(link@, now),
{
    if link.disabled {
        LinkState::Disabled
    } else {
        match link.invalid_after {
            Option::Some(t) => if t < now {
                LinkState::Expired
            } else {
                LinkState::Valid
            },
            Option::None => LinkState::Valid,
        }
    }
}

/// Whether the link may serve a redirect at time `now`.
pub fn link_valid(link: &Link, now: u64) -> (b: bool)
    ensures
        b == (link_state_spec(link@, now) == LinkState::Valid),
{
    link_state(link, now) == LinkState::Valid
}

/// The redirect target that `mode` yields for `redirect` and the given
/// trailing request content. With no trailing content every mode
/// degenerates to the redirect unchanged.
pub open spec fn target_spec(redirect: Seq<char>, mode: AppendMode, trailing: Seq<char>) -> Seq<
    char,
> {
    if trailing.len() == 0 {
        redirect
    } else {
        match mode {
            AppendMode::NoAppend => redirect,
            AppendMode::Path => with_query(
                joined_path(before_query(redirect), before_query(trailing)),
                query_of(trailing),
            ),
            AppendMode::PathPreserveQuery => with_query(
                joined_path(before_query(redirect), before_query(trailing)),
                query_of(redirect),
            ),
        }
    }
}

/// Builds the redirect target that [`target_spec`] describes.
pub fn compute_target(redirect: &str, mode: AppendMode, trailing: &str) -> (r: String)
    ensures
        r@ == target_spec(redirect@, mode, trailing@),
{
    if trailing.unicode_len() == 0 {
        return String::from_str(redirect);
    }
    match mode {
        AppendMode::NoAppend => String::from_str(redirect),
        AppendMode::Path => {
            let (rbase, _) = split_query(redirect);
            let (tpath, tquery) = split_query(trailing);
            let joined = join_path(rbase.as_str(), tpath.as_str());
            attach_query(joined, tquery.as_ref())
        },
        AppendMode::PathPreserveQuery => {
            let (rbase, rquery) = split_query(redirect);
            let (tpath, _) = split_query(trailing);
            let joined = join_path(rbase.as_str(), tpath.as_str());
            attach_query(joined, rquery.as_ref())
        },
    }
}

} // verus!
