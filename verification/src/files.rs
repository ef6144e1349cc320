//! Artifact file names: opaque identifiers validated against the
//! structured naming scheme `<kind>/<rest>` with kind one of `release`,
//! `charts` or `artist`. Invalid names found while scanning a listing
//! are skipped rather than fatal.

use crate::Error;
use vstd::prelude::*;

verus! {

/// `p` is a proper prefix of `s` (something follows it).
pub open spec fn has_strict_prefix(s: Seq<char>, p: Seq<char>) -> bool {
    p.len() < s.len() && s.subrange(0, p.len() as int) == p
}

/// A well-formed artifact name: one of the known kind prefixes, with a
/// non-empty remainder.
pub open spec fn valid_file_name(s: Seq<char>) -> bool {
    has_strict_prefix(s, "release/"@) || has_strict_prefix(s, "charts/"@) || has_strict_prefix(
        s,
        "artist/"@,
    )
}

/// Decides whether `p` is a proper prefix of `s`.
fn is_strict_prefix(s: &str, p: &str) -> (r: bool)
    ensures
        r == has_strict_prefix(s@, p@),
{
    let plen: usize = p.unicode_len();
    let slen: usize = s.unicode_len();
    if plen >= slen {
        return false;
    }
    let mut i: usize = 0;
    while i < plen
        invariant
            plen == p@.len(),
            slen == s@.len(),
            plen < slen,
            i <= plen,
            forall|j: int| 0 <= j < i ==> s@[j] == p@[j],
        decreases plen - i,
    {
        if s.get_char(i) != p.get_char(i) {
            return false;
        }
        i = i + 1;
    }
    proof {
        assert(s@.subrange(0, plen as int) =~= p@);
    }
    true
}

/// A validated artifact identifier in the content store's key space.
#[derive(Debug)]
pub struct FileName {
    value: String,
}

impl View for FileName {
    type V = Seq<char>;

    closed spec fn view(&self) -> Seq<char> {
        self.value@
    }
}

impl FileName {
    /// Validates a raw name against the naming scheme.
    pub fn parse(value: String) -> (r: Result<FileName, Error>)
        ensures
            valid_file_name(value@) ==> (r matches Ok(f) && f@ == value@),
            !valid_file_name(value@) ==> r == Err::<FileName, Error>(Error::InvalidIdentifier),
    {
        if is_strict_prefix(value.as_str(), "release/") || is_strict_prefix(
            value.as_str(),
            "charts/",
        ) || is_strict_prefix(value.as_str(), "artist/") {
            Ok(FileName { value })
        } else {
            Err(Error::InvalidIdentifier)
        }
    }

    /// The raw name.
    pub fn raw(&self) -> (r: &str)
        ensures
            r@ == self@,
    {
        self.value.as_str()
    }
}

impl Clone for FileName {
    fn clone(&self) -> (r: Self)
        ensures
            r@ == self@,
    {
        FileName { value: self.value.clone() }
    }
}

impl PartialEq for FileName {
    fn eq(&self, other: &Self) -> (r: bool) {
        self.value == other.value
    }
}

impl vstd::std_specs::cmp::PartialEqSpecImpl for FileName {
    open spec fn obeys_eq_spec() -> bool {
        true
    }

    open spec fn eq_spec(&self, other: &Self) -> bool {
        self@ == other@
    }
}

/// The well-formed names of a listing, in listing order; malformed ones
/// are dropped.
pub open spec fn valid_names(s: Seq<Seq<char>>) -> Seq<Seq<char>>
    decreases s.len(),
{
    if s.len() == 0 {
        Seq::empty()
    } else {
        let rest = valid_names(s.drop_last());
        if valid_file_name(s.last()) {
            rest.push(s.last())
        } else {
            rest
        }
    }
}

/// Keeps the valid artifact names of a raw listing, in order: the scan
/// skips malformed entries instead of failing.
pub fn filter_valid_file_names(names: Vec<String>) -> (r: Vec<FileName>)
    ensures
        r@.map_values(|f: FileName| f@) == valid_names(names@.map_values(|n: String| n@)),
{
    let ghost all = names@.map_values(|n: String| n@);
    let mut r: Vec<FileName> = Vec::new();
    let mut i: usize = 0;
    while i < names.len()
        invariant
            i <= names.len(),
            all == names@.map_values(|n: String| n@),
            r@.map_values(|f: FileName| f@) == valid_names(all.subrange(0, i as int)),
        decreases names.len() - i,
    {
        let ghost prefix = all.subrange(0, i as int);
        let name = names[i].clone();
        proof {
            assert(all.subrange(0, i + 1).drop_last() =~= prefix);
            assert(all.subrange(0, i + 1).last() == name@);
        }
        match FileName::parse(name) {
            Ok(f) => {
                r.push(f);
                proof {
                    assert(r@.map_values(|f: FileName| f@) =~= valid_names(
                        all.subrange(0, i + 1),
                    ));
                }
            },
            Err(_) => {
                proof {
                    assert(r@.map_values(|f: FileName| f@) =~= valid_names(
                        all.subrange(0, i + 1),
                    ));
                }
            },
        }
        i = i + 1;
    }
    proof {
        assert(all.subrange(0, names@.len() as int) =~= all);
    }
    r
}

} // verus!
