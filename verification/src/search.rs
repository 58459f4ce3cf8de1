//! Case-insensitive substring matching over Unicode scalar sequences.
//!
//! A manifest matches a query when the lower-cased file name or the
//! lower-cased description contains the lower-cased query as a substring.
//! Positions are counted in characters, not bytes, so the reasoning stays
//! correct for multi-byte text.

use vstd::prelude::*;

use crate::manifest::{license_text, notes_text, AppManifest, ManifestView};

verus! {

/// `needle` occurs in `hay` starting at character position `i`.
pub open spec fn contains_at(hay: Seq<char>, needle: Seq<char>, i: int) -> bool {
    &&& 0 <= i
    &&& i + needle.len() <= hay.len()
    &&& hay.subrange(i, i + needle.len() as int) == needle
}

/// `needle` occurs somewhere in `hay` as a contiguous substring.
pub open spec fn contains_seq(hay: Seq<char>, needle: Seq<char>) -> bool {
    exists|i: int| contains_at(hay, needle, i)
}

/// What `str::to_lowercase` returns for a given character sequence.
pub uninterp spec fn lower_of(s: Seq<char>) -> Seq<char>;

/// Relies on str::to_lowercase: the result depends on the characters alone.
#[verifier::external_body]
pub(crate) fn lowercase(s: &str) -> (r: String)
    ensures
        r@ == lower_of(s@),
{
    s.to_lowercase()
}

/// The characters of `s`, collected into a vector for constant-time access.
pub fn chars_vec(s: &str) -> (v: Vec<char>)
    ensures
        v@ == s@,
{
    let n: usize = s.unicode_len();
    let mut v: Vec<char> = Vec::new();
    let mut i: usize = 0;
    while i < n
        invariant
            n == s@.len(),
            i <= n,
            v@ == s@.subrange(0, i as int),
        decreases n - i,
    {
        v.push(s.get_char(i));
        i = i + 1;
        assert(v@ =~= s@.subrange(0, i as int));
    }
    assert(v@ =~= s@);
    v
}

/// Whether `hay[i..]` starts with `needle`, checked character by character.
fn matches_from(hay: &Vec<char>, needle: &Vec<char>, i: usize) -> (r: bool)
    requires
        i + needle@.len() <= hay@.len(),
    ensures
        r == contains_at(hay@, needle@, i as int),
{
    let nlen: usize = needle.len();
    let hlen: usize = hay.len();
    let mut j: usize = 0;
    while j < nlen
        invariant
            nlen == needle@.len(),
            hlen == hay@.len(),
            i + needle@.len() <= hay@.len(),
            j <= needle@.len(),
            forall|k: int| 0 <= k < j ==> hay@[i + k] == needle@[k],
        decreases needle@.len() - j,
    {
        if hay[i + j] != needle[j] {
            assert(hay@.subrange(i as int, i + needle@.len() as int)[j as int] != needle@[j as int]);
            return false;
        }
        j = j + 1;
    }
    assert(hay@.subrange(i as int, i + needle@.len() as int) =~= needle@);
    true
}

/// The first position at which `needle` occurs in `hay`, in character
/// units, if it occurs at all.
pub fn find_chars(hay: &Vec<char>, needle: &Vec<char>) -> (r: Option<usize>)
    ensures
        match r {
            Some(i) => contains_at(hay@, needle@, i as int) && forall|k: int|
                0 <= k < i ==> !contains_at(hay@, needle@, k),
            None => !contains_seq(hay@, needle@),
        },
{
    if needle.len() > hay.len() {
        assert(forall|i: int| !contains_at(hay@, needle@, i));
        return None;
    }
    if needle.len() == 0 {
        assert(hay@.subrange(0, 0) =~= needle@);
        assert(contains_at(hay@, needle@, 0));
        return Some(0);
    }
    let last: usize = hay.len() - needle.len();
    let hlen: usize = hay.len();
    let mut i: usize = 0;
    while i <= last
        invariant
            hlen == hay@.len(),
            0 < needle@.len() <= hay@.len(),
            last == hay@.len() - needle@.len(),
            i <= last + 1,
            forall|k: int| 0 <= k < i ==> !contains_at(hay@, needle@, k),
        decreases last + 1 - i,
    {
        if matches_from(hay, needle, i) {
            assert(contains_at(hay@, needle@, i as int));
            return Some(i);
        }
        i = i + 1;
    }
    assert(forall|k: int| !contains_at(hay@, needle@, k));
    None
}

/// Substring search over character vectors.
pub fn contains_chars(hay: &Vec<char>, needle: &Vec<char>) -> (r: bool)
    ensures
        r == contains_seq(hay@, needle@),
{
    find_chars(hay, needle).is_some()
}

/// The first position at which `needle` occurs in `hay`, counted in
/// characters, so that a caller highlighting the occurrence stays
/// correct for multi-byte text.
pub fn find_sub(hay: &str, needle: &str) -> (r: Option<usize>)
    ensures
        match r {
            Some(i) => contains_at(hay@, needle@, i as int) && forall|k: int|
                0 <= k < i ==> !contains_at(hay@, needle@, k),
            None => !contains_seq(hay@, needle@),
        },
{
    let hv = chars_vec(hay);
    let nv = chars_vec(needle);
    find_chars(&hv, &nv)
}

/// Substring search over string slices, in character units.
pub fn str_contains_sub(hay: &str, needle: &str) -> (r: bool)
    ensures
        r == contains_seq(hay@, needle@),
{
    let hv = chars_vec(hay);
    let nv = chars_vec(needle);
    contains_chars(&hv, &nv)
}

/// The match condition on a manifest: the lower-cased name or the
/// lower-cased description contains `query_lower` as a substring.
pub open spec fn spec_matches(name: Seq<char>, description: Seq<char>, query_lower: Seq<char>) -> bool {
    ||| contains_seq(lower_of(name), query_lower)
    ||| contains_seq(lower_of(description), query_lower)
}

/// Decides whether a manifest with the given name and description matches
/// the (already lower-cased) query.
pub fn matches_query(name: &str, description: &str, query_lower: &str) -> (r: bool)
    ensures
        r == spec_matches(name@, description@, query_lower@),
{
    let name_lower = lowercase(name);
    if str_contains_sub(name_lower.as_str(), query_lower) {
        return true;
    }
    let description_lower = lowercase(description);
    str_contains_sub(description_lower.as_str(), query_lower)
}

/// One matching package, normalized for presentation: the manifest's
/// fields flattened to strings, plus the file stem and the bucket name
/// the manifest was found under.  Immutable after construction.
pub struct AppInfo {
    pub name: String,
    pub bucket: String,
    pub version: String,
    pub description: String,
    pub homepage: String,
    pub license: String,
    pub notes: Option<String>,
}

/// Mathematical model of [`AppInfo`].
pub struct AppInfoView {
    pub name: Seq<char>,
    pub bucket: Seq<char>,
    pub version: Seq<char>,
    pub description: Seq<char>,
    pub homepage: Seq<char>,
    pub license: Seq<char>,
    pub notes: Option<Seq<char>>,
}

impl DeepView for AppInfo {
    type V = AppInfoView;

    open spec fn deep_view(&self) -> AppInfoView {
        AppInfoView {
            name: self.name@,
            bucket: self.bucket@,
            version: self.version@,
            description: self.description@,
            homepage: self.homepage@,
            license: self.license@,
            notes: self.notes.deep_view(),
        }
    }
}

/// The normalized projection of a manifest found as `bucket/name`.
pub open spec fn spec_info(name: Seq<char>, bucket: Seq<char>, m: ManifestView) -> AppInfoView {
    AppInfoView {
        name,
        bucket,
        version: m.version,
        description: m.description,
        homepage: m.homepage,
        license: license_text(m.license),
        notes: match m.notes {
            Some(n) => Some(notes_text(n)),
            None => None,
        },
    }
}

impl AppInfo {
    /// Builds the normalized projection of a parsed manifest: the license
    /// flattened to its identifier string, the notes joined to one string.
    pub fn from_manifest(name: String, bucket: String, manifest: &AppManifest) -> (r: AppInfo)
        ensures
            r.deep_view() == spec_info(name@, bucket@, manifest.deep_view()),
    {
        let notes = match &manifest.notes {
            Some(n) => Some(n.text()),
            None => None,
        };
        AppInfo {
            name,
            bucket,
            version: manifest.version.clone(),
            description: manifest.description.clone(),
            homepage: manifest.homepage.clone(),
            license: manifest.license.text(),
            notes,
        }
    }
}

} // verus!
