//! The configuration snapshot: an immutable mapping from validated
//! identifiers to links, built atomically from the raw entries of one
//! configuration document. A snapshot is either fully valid or rejected
//! as a unit; nothing is ever applied partially.

use vstd::prelude::*;

use crate::ident::{LinkId, ValidationError, validate_spec};
use crate::link::{AppendMode, Link, LinkV};
use crate::text::str_eq;
use crate::urls::{parse_absolute_url, url_parse_result};

verus! {

/// One entry of the configuration document, as raw values: the key under
/// the top-level `links` table and the fields of its record, each as
/// written or absent.
#[derive(Debug)]
pub struct RawLinkEntry {
    pub key: String,
    pub redirect: Option<String>,
    pub disabled: Option<bool>,
    pub invalid_after: Option<i64>,
    pub append_mode: Option<String>,
}

/// The mathematical content of a [`RawLinkEntry`].
pub struct RawLinkEntryV {
    pub key: Seq<char>,
    pub redirect: Option<Seq<char>>,
    pub disabled: Option<bool>,
    pub invalid_after: Option<i64>,
    pub append_mode: Option<Seq<char>>,
}

impl View for RawLinkEntry {
    type V = RawLinkEntryV;

    open spec fn view(&self) -> RawLinkEntryV {
        RawLinkEntryV {
            key: self.key@,
            redirect: match self.redirect {
                Option::Some(s) => Option::Some(s@),
                Option::None => Option::None,
            },
            disabled: self.disabled,
            invalid_after: self.invalid_after,
            append_mode: match self.append_mode {
                Option::Some(s) => Option::Some(s@),
                Option::None => Option::None,
            },
        }
    }
}

pub open spec fn raw_views(s: Seq<RawLinkEntry>) -> Seq<RawLinkEntryV> {
    s.map_values(|e: RawLinkEntry| e@)
}

/// Why a configuration document was rejected as a whole; `index` is the
/// position of the offending entry in document order.
#[derive(Debug, Clone, Copy, PartialEq, Eq, Structural)]
pub enum ParseError {
    /// The raw key fails identifier validation.
    InvalidIdentifier { index: usize, reason: ValidationError },
    /// Two raw keys validate to the same identifier.
    DuplicateIdentifier { index: usize },
    /// The required `redirect` field is absent.
    MissingRedirect { index: usize },
    /// The `redirect` field is not an absolute URL with a scheme.
    InvalidRedirect { index: usize },
    /// The `invalid_after` field is negative.
    InvalidTimestamp { index: usize },
    /// The `append_mode` field names no known mode.
    InvalidAppendMode { index: usize },
}

/// The append mode a field value denotes, if any.
pub open spec fn append_mode_of(s: Seq<char>) -> Option<AppendMode> {
    if s == "none"@ {
        Option::Some(AppendMode::NoAppend)
    } else if s == "path"@ {
        Option::Some(AppendMode::Path)
    } else if s == "path_preserve_query"@ {
        Option::Some(AppendMode::PathPreserveQuery)
    } else {
        Option::None
    }
}

pub fn parse_append_mode(s: &str) -> (r: Option<AppendMode>)
    ensures
        r == append_mode_of(s@),
{
    if str_eq(s, "none") {
        Option::Some(AppendMode::NoAppend)
    } else if str_eq(s, "path") {
        Option::Some(AppendMode::Path)
    } else if str_eq(s, "path_preserve_query") {
        Option::Some(AppendMode::PathPreserveQuery)
    } else {
        Option::None
    }
}

/// The link an entry whose fields all pass their checks denotes:
/// the redirect is the parsed URL's serialization, an absent `disabled`
/// defaults to false, an absent `invalid_after` to "never expires", an
/// absent `append_mode` to no appending.
pub open spec fn entry_link_spec(e: RawLinkEntryV) -> LinkV {
    LinkV {
        redirect: match e.redirect {
            Option::Some(r) => match url_parse_result(r) {
                Option::Some(u) => u,
                Option::None => Seq::empty(),
            },
            Option::None => Seq::empty(),
        },
        disabled: match e.disabled {
            Option::Some(b) => b,
            Option::None => false,
        },
        invalid_after: match e.invalid_after {
            Option::Some(t) => Option::Some(t as u64),
            Option::None => Option::None,
        },
        append_mode: match e.append_mode {
            Option::Some(m) => match append_mode_of(m) {
                Option::Some(am) => am,
                Option::None => AppendMode::NoAppend,
            },
            Option::None => AppendMode::NoAppend,
        },
    }
}

/// What building a snapshot from entries `i` onward yields, given the
/// mapping `acc` built from the entries before `i`: the first failing
/// entry decides the error, and within one entry the key is checked
/// first, then duplication, then the `redirect`, `invalid_after` and
/// `append_mode` fields.
pub open spec fn build_from(
    es: Seq<RawLinkEntryV>,
    i: int,
    acc: Map<Seq<char>, LinkV>,
) -> Result<Map<Seq<char>, LinkV>, ParseError>
    decreases es.len() - i,
{
    if i < 0 || i >= es.len() {
        Ok(acc)
    } else {
        let e = es[i];
        match validate_spec(e.key) {
            Err(reason) => Err(ParseError::InvalidIdentifier { index: i as usize, reason }),
            Ok(id) => if acc.contains_key(id) {
                Err(ParseError::DuplicateIdentifier { index: i as usize })
            } else {
                match e.redirect {
                    Option::None => Err(ParseError::MissingRedirect { index: i as usize }),
                    Option::Some(r) => match url_parse_result(r) {
                        Option::None => Err(ParseError::InvalidRedirect { index: i as usize }),
                        Option::Some(u) => if e.invalid_after matches Some(t) && t < 0 {
                            Err(ParseError::InvalidTimestamp { index: i as usize })
                        } else if e.append_mode matches Some(m) && append_mode_of(m) is None {
                            Err(ParseError::InvalidAppendMode { index: i as usize })
                        } else {
                            build_from(es, i + 1, acc.insert(id, entry_link_spec(e)))
                        },
                    },
                }
            },
        }
    }
}

/// What building a snapshot from a whole document yields.
pub open spec fn build_spec(es: Seq<RawLinkEntryV>) -> Result<Map<Seq<char>, LinkV>, ParseError> {
    build_from(es, 0, Map::empty())
}

/// An immutable configuration snapshot: the mapping from validated
/// identifiers to links that one successful parse of the configuration
/// document defines.
#[derive(Debug)]
pub struct LynxConfiguration {
    entries: Vec<(LinkId, Link)>,
}

pub open spec fn pairs_unique(s: Seq<(LinkId, Link)>) -> bool {
    forall|a: int, b: int| 0 <= a < b < s.len() ==> s[a].0@ != s[b].0@
}

pub open spec fn pairs_map(s: Seq<(LinkId, Link)>) -> Map<Seq<char>, LinkV>
    decreases s.len(),
{
    if s.len() == 0 {
        Map::empty()
    } else {
        pairs_map(s.drop_last()).insert(s.last().0@, s.last().1@)
    }
}

proof fn lemma_pairs_map_contains(s: Seq<(LinkId, Link)>, key: Seq<char>)
    ensures
        pairs_map(s).contains_key(key) == (exists|k: int| 0 <= k < s.len() && s[k].0@ == key),
    decreases s.len(),
{
    if s.len() == 0 {
    } else {
        lemma_pairs_map_contains(s.drop_last(), key);
        if s.last().0@ == key {
            assert(s[s.len() - 1].0@ == key);
        } else {
            if pairs_map(s).contains_key(key) {
                assert(exists|k: int| 0 <= k < s.len() - 1 && s.drop_last()[k].0@ == key);
                let k = choose|k: int| 0 <= k < s.len() - 1 && s.drop_last()[k].0@ == key;
                assert(s[k].0@ == key);
            }
            if exists|k: int| 0 <= k < s.len() && s[k].0@ == key {
                let k = choose|k: int| 0 <= k < s.len() && s[k].0@ == key;
                assert(k < s.len() - 1);
                assert(s.drop_last()[k].0@ == key);
            }
        }
    }
}

proof fn lemma_pairs_map_get(s: Seq<(LinkId, Link)>, k: int)
    requires
        pairs_unique(s),
        0 <= k < s.len(),
    ensures
        pairs_map(s).contains_key(s[k].0@),
        pairs_map(s)[s[k].0@] == s[k].1@,
    decreases s.len(),
{
    if k == s.len() - 1 {
    } else {
        assert(pairs_unique(s.drop_last()));
        lemma_pairs_map_get(s.drop_last(), k);
        assert(s.drop_last()[k] == s[k]);
        assert(s[k].0@ != s.last().0@);
    }
}

impl View for LynxConfiguration {
    type V = Map<Seq<char>, LinkV>;

    closed spec fn view(&self) -> Map<Seq<char>, LinkV> {
        pairs_map(self.entries@)
    }
}

impl LynxConfiguration {
    /// No two stored entries share an identifier.
    pub closed spec fn wf(self) -> bool {
        pairs_unique(self.entries@)
    }

    /// Builds a snapshot from the raw entries of one configuration
    /// document, as [`build_spec`] says: the whole document is accepted,
    /// or the first offending entry rejects it as a unit.
    pub fn from_entries(entries: &Vec<RawLinkEntry>) -> (r: Result<LynxConfiguration, ParseError>)
        ensures
            (r is Ok) == (build_spec(raw_views(entries@)) is Ok),
            r matches Ok(snap) ==> snap.wf() && build_spec(raw_views(entries@)) == Ok::<
                Map<Seq<char>, LinkV>,
                ParseError,
            >(snap@),
            r matches Err(e) ==> build_spec(raw_views(entries@)) == Err::<
                Map<Seq<char>, LinkV>,
                ParseError,
            >(e),
    {
        let ghost vs = raw_views(entries@);
        let mut snap = LynxConfiguration { entries: Vec::new() };
        let mut idx: usize = 0;
        proof {
            assert(snap@ =~= Map::<Seq<char>, LinkV>::empty());
        }
        while idx < entries.len()
            invariant
                0 <= idx <= entries.len(),
                vs == raw_views(entries@),
                vs.len() == entries@.len(),
                snap.wf(),
                build_spec(vs) == build_from(vs, idx as int, snap@),
            decreases entries.len() - idx,
        {
            let ghost pre = snap@;
            assert(vs[idx as int] == entries@[idx as int]@);
            let e = &entries[idx];
            let id = match LinkId::new(e.key.as_str()) {
                Ok(id) => id,
                Err(reason) => {
                    return Err(ParseError::InvalidIdentifier { index: idx, reason });
                },
            };
            if snap.lookup(&id).is_some() {
                return Err(ParseError::DuplicateIdentifier { index: idx });
            }
            let rs = match &e.redirect {
                Option::Some(rs) => rs,
                Option::None => {
                    return Err(ParseError::MissingRedirect { index: idx });
                },
            };
            let norm = match parse_absolute_url(rs.as_str()) {
                Option::Some(norm) => norm,
                Option::None => {
                    return Err(ParseError::InvalidRedirect { index: idx });
                },
            };
            let inv_after: Option<u64> = match e.invalid_after {
                Option::Some(t) => {
                    if t < 0 {
                        return Err(ParseError::InvalidTimestamp { index: idx });
                    }
                    Option::Some(t as u64)
                },
                Option::None => Option::None,
            };
            let mode: AppendMode = match &e.append_mode {
                Option::Some(m) => match parse_append_mode(m.as_str()) {
                    Option::Some(am) => am,
                    Option::None => {
                        return Err(ParseError::InvalidAppendMode { index: idx });
                    },
                },
                Option::None => AppendMode::NoAppend,
            };
            let link = Link {
                redirect: norm,
                disabled: match e.disabled {
                    Option::Some(b) => b,
                    Option::None => false,
                },
                invalid_after: inv_after,
                append_mode: mode,
            };
            let ghost prev = snap.entries@;
            proof {
                assert(link@ == entry_link_spec(vs[idx as int]));
                lemma_pairs_map_contains(prev, id@);
            }
            snap.entries.push((id, link));
            proof {
                assert(snap.entries@.drop_last() =~= prev);
                assert(snap@ == pre.insert(id@, link@));
                assert forall|a: int, b: int|
                    0 <= a < b < snap.entries@.len() implies snap.entries@[a].0@
                    != snap.entries@[b].0@ by {
                    assert(snap.entries@[a] == prev[a]);
                    if b < snap.entries@.len() - 1 {
                        assert(snap.entries@[b] == prev[b]);
                    } else {
                        assert(snap.entries@[b] == (id, link));
                        assert(prev[a].0@ != id@);
                    }
                }
                assert(build_from(vs, idx as int, pre) == build_from(
                    vs,
                    idx + 1,
                    pre.insert(id@, link@),
                ));
            }
            idx = idx + 1;
        }
        assert(build_spec(vs) == Ok::<Map<Seq<char>, LinkV>, ParseError>(snap@));
        Ok(snap)
    }

    /// The link stored under `id`, if the snapshot holds one.
    pub fn lookup(&self, id: &LinkId) -> (r: Option<&Link>)
        requires
            self.wf(),
        ensures
            (r is Some) == self@.contains_key(id@),
            r matches Some(l) ==> self@.contains_key(id@) && self@[id@] == l@,
    {
        let n = self.entries.len();
        let mut i: usize = 0;
        while i < n
            invariant
                0 <= i <= n,
                n == self.entries@.len(),
                self.wf(),
                forall|k: int| 0 <= k < i ==> self.entries@[k].0@ != id@,
            decreases n - i,
        {
            if self.entries[i].0.matches_str(id.as_str()) {
                proof {
                    lemma_pairs_map_get(self.entries@, i as int);
                }
                return Option::Some(&self.entries[i].1);
            }
            i = i + 1;
        }
        proof {
            lemma_pairs_map_contains(self.entries@, id@);
        }
        Option::None
    }

    /// How many links the snapshot holds.
    pub fn link_count(&self) -> (n: usize)
        requires
            self.wf(),
        ensures
            n == self@.dom().len(),
    {
        proof {
            lemma_pairs_map_len(self.entries@);
        }
        self.entries.len()
    }
}

/// The identifier an entry's key validates to; meaningful only when
/// validation succeeds.
pub open spec fn validated_key(e: RawLinkEntryV) -> Seq<char> {
    match validate_spec(e.key) {
        Ok(id) => id,
        Err(_) => Seq::empty(),
    }
}

proof fn lemma_build_from_entries(
    es: Seq<RawLinkEntryV>,
    i: int,
    acc: Map<Seq<char>, LinkV>,
    m: Map<Seq<char>, LinkV>,
)
    requires
        0 <= i,
        build_from(es, i, acc) == Ok::<Map<Seq<char>, LinkV>, ParseError>(m),
    ensures
        forall|k: Seq<char>| #[trigger] acc.contains_key(k) ==> m.contains_key(k) && m[k]
            == acc[k],
        forall|j: int|
            i <= j < es.len() ==> validate_spec(es[j].key) is Ok && m.contains_key(
                validated_key(es[j]),
            ) && m[validated_key(es[j])] == entry_link_spec(es[j]),
    decreases es.len() - i,
{
    if i >= es.len() {
    } else {
        let e = es[i];
        match validate_spec(e.key) {
            Err(r) => {
                assert(false);
            },
            Ok(id) => {
                let acc2 = acc.insert(id, entry_link_spec(e));
                lemma_build_from_entries(es, i + 1, acc2, m);
                assert(acc2.contains_key(id) && acc2[id] == entry_link_spec(e));
                assert(!acc.contains_key(id));
                assert forall|k: Seq<char>| #[trigger] acc.contains_key(k) implies m.contains_key(
                    k,
                ) && m[k] == acc[k] by {
                    assert(acc2.contains_key(k));
                    assert(acc2[k] == acc[k]);
                }
            },
        }
    }
}

/// Round trip: a snapshot built from a configuration document holds,
/// under the identifier each key validates to, exactly the link that
/// entry denotes — the parsed redirect and the documented defaults for
/// absent fields.
pub proof fn lemma_round_trip(es: Seq<RawLinkEntryV>, m: Map<Seq<char>, LinkV>, j: int)
    requires
        build_spec(es) == Ok::<Map<Seq<char>, LinkV>, ParseError>(m),
        0 <= j < es.len(),
    ensures
        validate_spec(es[j].key) is Ok,
        m.contains_key(validated_key(es[j])),
        m[validated_key(es[j])] == entry_link_spec(es[j]),
{
    lemma_build_from_entries(es, 0, Map::empty(), m);
}

proof fn lemma_pairs_map_len(s: Seq<(LinkId, Link)>)
    requires
        pairs_unique(s),
    ensures
        pairs_map(s).dom().len() == s.len(),
        pairs_map(s).dom().finite(),
    decreases s.len(),
{
    if s.len() == 0 {
        assert(pairs_map(s).dom() =~= Set::<Seq<char>>::empty());
    } else {
        assert(pairs_unique(s.drop_last()));
        lemma_pairs_map_len(s.drop_last());
        lemma_pairs_map_contains(s.drop_last(), s.last().0@);
        assert(forall|k: int| 0 <= k < s.len() - 1 ==> s.drop_last()[k] == s[k]);
        assert(!pairs_map(s.drop_last()).contains_key(s.last().0@));
        assert(pairs_map(s).dom() =~= pairs_map(s.drop_last()).dom().insert(s.last().0@));
    }
}

} // verus!
