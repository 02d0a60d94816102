//! The configuration store: holds the current snapshot, hands it to
//! readers, and replaces it in full when a reload parses successfully.
//! A failed reload leaves the current snapshot untouched. Concurrent
//! sharing — many request-handling readers, one reload writer — wraps
//! the store in a reader-writer lock at the process edge; a reader that
//! obtained the current snapshot keeps working against the value it
//! read, so no resolution ever observes a half-replaced snapshot.

use vstd::prelude::*;

use crate::config::{LynxConfiguration, ParseError, RawLinkEntry, build_spec, raw_views};
use crate::link::LinkV;

verus! {

/// The holder of "the current configuration snapshot".
#[derive(Debug)]
pub struct ConfigStore {
    current: LynxConfiguration,
}

impl View for ConfigStore {
    type V = Map<Seq<char>, LinkV>;

    closed spec fn view(&self) -> Map<Seq<char>, LinkV> {
        self.current@
    }
}

impl ConfigStore {
    pub closed spec fn wf(self) -> bool {
        self.current.wf()
    }

    /// Initializes the store from the entries of the configuration file.
    /// Startup must treat `Err` as fatal: the process never serves
    /// traffic without a fully valid snapshot.
    pub fn load(entries: &Vec<RawLinkEntry>) -> (r: Result<ConfigStore, ParseError>)
        ensures
            (r is Ok) == (build_spec(raw_views(entries@)) is Ok),
            r matches Ok(s) ==> s.wf() && build_spec(raw_views(entries@)) == Ok::<
                Map<Seq<char>, LinkV>,
                ParseError,
            >(s@),
            r matches Err(e) ==> build_spec(raw_views(entries@)) == Err::<
                Map<Seq<char>, LinkV>,
                ParseError,
            >(e),
    {
        match LynxConfiguration::from_entries(entries) {
            Ok(c) => Ok(ConfigStore { current: c }),
            Err(e) => Err(e),
        }
    }

    /// The snapshot valid at call time. A caller resolves everything it
    /// has to do against this one value.
    pub fn current(&self) -> (c: &LynxConfiguration)
        requires
            self.wf(),
        ensures
            c.wf(),
            c@ == self@,
    {
        &self.current
    }

    /// Re-parses the rewritten configuration: on success the new
    /// snapshot replaces the current one atomically and in full; on
    /// failure the error is reported and the current snapshot stays
    /// exactly as it was, so readers go on being served indefinitely.
    pub fn reload(&mut self, entries: &Vec<RawLinkEntry>) -> (r: Result<(), ParseError>)
        requires
            old(self).wf(),
        ensures
            final(self).wf(),
            (r is Ok) == (build_spec(raw_views(entries@)) is Ok),
            r is Ok ==> build_spec(raw_views(entries@)) == Ok::<Map<Seq<char>, LinkV>, ParseError>(
                final(self)@,
            ),
            r matches Err(e) ==> build_spec(raw_views(entries@)) == Err::<
                Map<Seq<char>, LinkV>,
                ParseError,
            >(e) && final(self)@ == old(self)@,
    {
        match LynxConfiguration::from_entries(entries) {
            Ok(c) => {
                self.current = c;
                Ok(())
            },
            Err(e) => Err(e),
        }
    }
}

/// A configuration path must name a file, not a directory: a path that
/// ends in a path separator is rejected with a message, any other is
/// returned unchanged.
pub fn validate_output_file(s: &str) -> (r: Result<String, String>)
    ensures
        (r is Ok) == !(s@.len() > 0 && (s@[s@.len() - 1] == '/' || s@[s@.len() - 1] == '\\')),
        r matches Ok(p) ==> p@ == s@,
{
    let n = s.unicode_len();
    if n > 0 {
        let c = s.get_char(n - 1);
        if c == '/' || c == '\\' {
            return Err(String::from_str("the path must be a file, not a directory"));
        }
    }
    Ok(String::from_str(s))
}

} // verus!
