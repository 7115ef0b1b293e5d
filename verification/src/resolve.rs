//! The package resolver: maps a process id's text to the owning package
//! name. A hit in its add-only cache answers immediately; a miss is answered
//! from the command channel's response, after trimming the sentinel NUL and
//! whitespace and substituting a `pid-<pid>` placeholder for an empty
//! identity, and is then cached for every later entry with the same pid.

use vstd::prelude::*;
use vstd::string::{StrSliceExecFns, StringExecFns};
use crate::text::{trim_ws, trim_nul, trim_ws_str, trim_nul_str, str_eq};

verus! {

/// A pid-to-package binding history: later bindings win, as in a map that
/// is only ever inserted into.
pub open spec fn assoc_find(m: Seq<(Seq<char>, Seq<char>)>, key: Seq<char>) -> Option<Seq<char>>
    decreases m.len(),
{
    if m.len() == 0 {
        None
    } else if m.last().0 == key {
        Some(m.last().1)
    } else {
        assoc_find(m.drop_last(), key)
    }
}

/// The synthesized package name used when a pid's identity comes back empty.
pub open spec fn placeholder_of(pid: Seq<char>) -> Seq<char> {
    "pid-"@ + pid
}

/// The package name a raw command-channel response resolves to: the response
/// with sentinel NULs and whitespace trimmed from both ends, or the
/// `pid-<pid>` placeholder when nothing remains.
pub open spec fn identity_of(pid: Seq<char>, raw: Seq<char>) -> Seq<char> {
    let t = trim_ws(trim_nul(raw));
    if t.len() == 0 {
        placeholder_of(pid)
    } else {
        t
    }
}

/// The command line written to the command channel to ask for a pid's
/// identity, sentinel and newline included.
pub open spec fn command_spec(pid: Seq<char>) -> Seq<char> {
    "cat /proc/"@ + pid + "/cmdline && echo \u{0}\n"@
}

/// The resolution cache: an add-only mapping from pid text to package name.
pub struct Resolver {
    cache: Vec<(String, String)>,
}

impl Resolver {
    /// The bindings the cache holds, oldest first.
    pub closed spec fn model(&self) -> Seq<(Seq<char>, Seq<char>)> {
        self.cache@.map_values(|p: (String, String)| (p.0@, p.1@))
    }

    /// The package the cache currently binds `pid` to, if any.
    pub open spec fn cached(&self, pid: Seq<char>) -> Option<Seq<char>> {
        assoc_find(self.model(), pid)
    }

    /// An empty cache: no pid resolves without a round trip.
    pub fn new() -> (r: Resolver)
        ensures
            r.model() == Seq::<(Seq<char>, Seq<char>)>::empty(),
    {
        let r = Resolver { cache: Vec::new() };
        proof {
            assert(r.model() =~= Seq::<(Seq<char>, Seq<char>)>::empty());
        }
        r
    }

    /// Looks `pid` up in the cache; no I/O, no growth.
    pub fn lookup(&self, pid: &str) -> (r: Option<String>)
        ensures
            r is Some <==> self.cached(pid@) is Some,
            r matches Some(p) ==> self.cached(pid@) == Some(p@),
    {
        let ghost m = self.model();
        let mut i: usize = self.cache.len();
        proof {
            assert(m.subrange(0, m.len() as int) =~= m);
        }
        while i > 0
            invariant
                i <= self.cache@.len(),
                m == self.model(),
                assoc_find(m, pid@) == assoc_find(m.subrange(0, i as int), pid@),
            decreases i,
        {
            i = i - 1;
            proof {
                assert(m.subrange(0, i + 1).last() == m[i as int]);
                assert(m.subrange(0, i + 1).drop_last() =~= m.subrange(0, i as int));
            }
            if str_eq(self.cache[i].0.as_str(), pid) {
                return Some(self.cache[i].1.clone());
            }
        }
        proof {
            assert(m.subrange(0, 0) =~= Seq::<(Seq<char>, Seq<char>)>::empty());
        }
        None
    }

    /// Records the package a command-channel response resolves `pid` to, and
    /// returns it. Every later lookup of `pid` answers with this value.
    pub fn resolve_response(&mut self, pid: &str, raw: &str) -> (pkg: String)
        ensures
            pkg@ == identity_of(pid@, raw@),
            final(self).model() == old(self).model().push((pid@, pkg@)),
            final(self).cached(pid@) == Some(pkg@),
            forall|other: Seq<char>|
                other != pid@ ==> final(self).cached(other) == old(self).cached(other),
    {
        let ghost m0 = self.model();
        let pkg = normalize_identity(pid, raw);
        self.cache.push((pid.to_owned(), pkg.clone()));
        proof {
            let m1 = self.model();
            assert(m1 =~= m0.push((pid@, pkg@)));
            assert(m1.drop_last() =~= m0);
            assert forall|other: Seq<char>| other != pid@ implies assoc_find(m1, other)
                == assoc_find(m0, other) by {
                assert(m1.last().0 == pid@);
            }
        }
        pkg
    }
}

/// Turns a raw command-channel response into the package name it denotes:
/// trims sentinel NULs, then whitespace, and falls back to the `pid-<pid>`
/// placeholder when the identity came back empty.
pub fn normalize_identity(pid: &str, raw: &str) -> (r: String)
    ensures
        r@ == identity_of(pid@, raw@),
{
    let t0 = trim_nul_str(raw);
    let t = trim_ws_str(t0.as_str());
    if t.as_str().unicode_len() == 0 {
        let mut p = String::from_str("pid-");
        p.append(pid);
        p
    } else {
        t
    }
}

/// Builds the single-line identity request for `pid`, terminated by the
/// sentinel-producing `echo` and a newline.
pub fn command_for(pid: &str) -> (r: String)
    ensures
        r@ == command_spec(pid@),
{
    let mut c = String::from_str("cat /proc/");
    c.append(pid);
    c.append("/cmdline && echo \u{0}\n");
    c
}

} // verus!
