//! The package manifest: its union-typed fields and their normalization,
//! and the verified decoder from a JSON tree.
//!
//! On disk `license` is either a plain string or an object carrying an
//! `identifier` string, and `notes` is either a single string or a list of
//! strings.  Both shapes are accepted and normalized to one string; any
//! other shape fails the decode.

use vstd::prelude::*;

use crate::json::{get_field, parse_json, parsed_doc, spec_field, JsonValue};

verus! {

/// A manifest's `license` field: a plain identifier, or an object whose
/// `identifier` member carries it (other members are ignored).
pub enum License {
    Text(String),
    Object { identifier: String },
}

/// A manifest's `notes` field: one string, or an ordered list of lines.
pub enum Notes {
    Text(String),
    List(Vec<String>),
}

/// One parsed package manifest.
pub struct AppManifest {
    pub version: String,
    pub description: String,
    pub homepage: String,
    pub license: License,
    pub notes: Option<Notes>,
}

/// Mathematical model of [`License`].
pub enum LicenseView {
    Text(Seq<char>),
    Object(Seq<char>),
}

/// Mathematical model of [`Notes`].
pub enum NotesView {
    Text(Seq<char>),
    List(Seq<Seq<char>>),
}

/// Mathematical model of [`AppManifest`].
pub struct ManifestView {
    pub version: Seq<char>,
    pub description: Seq<char>,
    pub homepage: Seq<char>,
    pub license: LicenseView,
    pub notes: Option<NotesView>,
}

impl DeepView for License {
    type V = LicenseView;

    open spec fn deep_view(&self) -> LicenseView {
        match self {
            License::Text(s) => LicenseView::Text(s@),
            License::Object { identifier } => LicenseView::Object(identifier@),
        }
    }
}

impl DeepView for Notes {
    type V = NotesView;

    open spec fn deep_view(&self) -> NotesView {
        match self {
            Notes::Text(s) => NotesView::Text(s@),
            Notes::List(lines) => NotesView::List(lines.deep_view()),
        }
    }
}

impl DeepView for AppManifest {
    type V = ManifestView;

    open spec fn deep_view(&self) -> ManifestView {
        ManifestView {
            version: self.version@,
            description: self.description@,
            homepage: self.homepage@,
            license: self.license.deep_view(),
            notes: self.notes.deep_view(),
        }
    }
}

/// The single string that a license normalizes to.
pub open spec fn license_text(l: LicenseView) -> Seq<char> {
    match l {
        LicenseView::Text(s) => s,
        LicenseView::Object(s) => s,
    }
}

/// The separator between note lines: a newline plus the indentation that
/// aligns continuation lines under the notes label.
pub open spec fn notes_sep() -> Seq<char> {
    "\n         "@
}

/// `lines` joined with `sep` between consecutive lines.
pub open spec fn join_with(lines: Seq<Seq<char>>, sep: Seq<char>) -> Seq<char>
    decreases lines.len(),
{
    if lines.len() == 0 {
        Seq::empty()
    } else if lines.len() == 1 {
        lines[0]
    } else {
        join_with(lines.drop_last(), sep) + sep + lines.last()
    }
}

/// The single string that a notes value flattens to.
pub open spec fn notes_text(n: NotesView) -> Seq<char> {
    match n {
        NotesView::Text(s) => s,
        NotesView::List(lines) => join_with(lines, notes_sep()),
    }
}

impl License {
    /// The normalized license string.
    pub fn text(&self) -> (r: String)
        ensures
            r@ == license_text(self.deep_view()),
    {
        match self {
            License::Text(s) => s.clone(),
            License::Object { identifier } => identifier.clone(),
        }
    }
}

impl Notes {
    /// The notes flattened to one string, lines joined in order with the
    /// newline-and-indent separator.
    pub fn text(&self) -> (r: String)
        ensures
            r@ == notes_text(self.deep_view()),
    {
        match self {
            Notes::Text(s) => s.clone(),
            Notes::List(lines) => {
                let ghost dv = lines.deep_view();
                let n: usize = lines.len();
                let mut out = String::new();
                let mut i: usize = 0;
                while i < n
                    invariant
                        n == lines@.len(),
                        dv == lines.deep_view(),
                        i <= n,
                        out@ == join_with(dv.take(i as int), notes_sep()),
                    decreases n - i,
                {
                    if i > 0 {
                        out.append("\n         ");
                    }
                    out.append(lines[i].as_str());
                    proof {
                        assert(dv.take(i + 1).drop_last() =~= dv.take(i as int));
                        assert(dv.take(i + 1).last() == dv[i as int]);
                        if i == 0 {
                            assert(out@ =~= join_with(dv.take(1), notes_sep()));
                        }
                    }
                    i = i + 1;
                }
                proof {
                    assert(dv.take(n as int) =~= dv);
                }
                out
            },
        }
    }
}

/// The lines of a JSON array, when every element is a string.
pub open spec fn strings_of(elems: Seq<JsonValue>) -> Option<Seq<Seq<char>>>
    decreases elems.len(),
{
    if elems.len() == 0 {
        Some(Seq::empty())
    } else {
        match strings_of(elems.drop_last()) {
            Some(pre) => match elems.last() {
                JsonValue::Str(s) => Some(pre.push(s@)),
                _ => None,
            },
            None => None,
        }
    }
}

/// What a `license` value decodes to, if its shape is accepted.
pub open spec fn spec_license(j: JsonValue) -> Option<LicenseView> {
    match j {
        JsonValue::Str(s) => Some(LicenseView::Text(s@)),
        JsonValue::Object(fields) => match spec_field(fields@, "identifier"@) {
            Some(JsonValue::Str(s)) => Some(LicenseView::Object(s@)),
            _ => None,
        },
        _ => None,
    }
}

/// What a `notes` value decodes to, if its shape is accepted.
pub open spec fn spec_notes(j: JsonValue) -> Option<NotesView> {
    match j {
        JsonValue::Str(s) => Some(NotesView::Text(s@)),
        JsonValue::Array(elems) => match strings_of(elems@) {
            Some(lines) => Some(NotesView::List(lines)),
            None => None,
        },
        _ => None,
    }
}

/// What an optional `notes` field decodes to: an absent or null field is
/// an absent notes value; a present one must have an accepted shape.
pub open spec fn spec_notes_entry(field: Option<JsonValue>) -> Option<Option<NotesView>> {
    match field {
        None => Some(None),
        Some(JsonValue::Null) => Some(None),
        Some(j) => match spec_notes(j) {
            Some(n) => Some(Some(n)),
            None => None,
        },
    }
}

/// The string bound to `key` in an object's field list, if the field is
/// present and holds a string.
pub open spec fn spec_str_field(fields: Seq<(String, JsonValue)>, key: Seq<char>) -> Option<
    Seq<char>,
> {
    match spec_field(fields, key) {
        Some(JsonValue::Str(s)) => Some(s@),
        _ => None,
    }
}

/// What a whole manifest document decodes to, if its shape is accepted.
pub open spec fn spec_manifest(j: JsonValue) -> Option<ManifestView> {
    match j {
        JsonValue::Object(fields) => spec_manifest_fields(fields@),
        _ => None,
    }
}

/// The manifest decoded from an object's field list.
pub open spec fn spec_manifest_fields(fields: Seq<(String, JsonValue)>) -> Option<ManifestView> {
    match (
        spec_str_field(fields, "version"@),
        spec_str_field(fields, "description"@),
        spec_str_field(fields, "homepage"@),
    ) {
        (Some(version), Some(description), Some(homepage)) => match spec_field(
            fields,
            "license"@,
        ) {
            Some(lic) => match (spec_license(lic), spec_notes_entry(spec_field(fields, "notes"@))) {
                (Some(license), Some(notes)) => Some(
                    ManifestView { version, description, homepage, license, notes },
                ),
                _ => None,
            },
            None => None,
        },
        _ => None,
    }
}

/// The message reported for a rejected `license` value.  Meaningful only
/// where [`spec_license`] yields nothing.
pub open spec fn spec_license_err(j: JsonValue) -> Seq<char> {
    match j {
        JsonValue::Str(s) => Seq::empty(),
        JsonValue::Object(fields) => "license object holds no identifier string"@,
        _ => "license is neither a string nor an object"@,
    }
}

/// The message reported for a rejected `notes` value.  Meaningful only
/// where [`spec_notes`] yields nothing.
pub open spec fn spec_notes_err(j: JsonValue) -> Seq<char> {
    match j {
        JsonValue::Str(s) => Seq::empty(),
        JsonValue::Array(elems) => "notes list holds a non-string entry"@,
        _ => "notes is neither a string nor a list"@,
    }
}

/// The message reported for a rejected object field list: the first
/// failing check, in the order the decoder makes them.  Meaningful only
/// where [`spec_manifest_fields`] yields nothing.
pub open spec fn spec_fields_err(fields: Seq<(String, JsonValue)>) -> Seq<char> {
    if spec_str_field(fields, "version"@) is None {
        "manifest holds no version string"@
    } else if spec_str_field(fields, "description"@) is None {
        "manifest holds no description string"@
    } else if spec_str_field(fields, "homepage"@) is None {
        "manifest holds no homepage string"@
    } else {
        match spec_field(fields, "license"@) {
            None => "manifest holds no license"@,
            Some(lic) => if spec_license(lic) is None {
                spec_license_err(lic)
            } else {
                match spec_field(fields, "notes"@) {
                    None => Seq::empty(),
                    Some(v) => match v {
                        JsonValue::Null => Seq::empty(),
                        _ => if spec_notes(v) is None {
                            spec_notes_err(v)
                        } else {
                            Seq::empty()
                        },
                    },
                }
            },
        }
    }
}

/// The message reported for a rejected manifest document.  Meaningful
/// only where [`spec_manifest`] yields nothing.
pub open spec fn spec_manifest_err(j: JsonValue) -> Seq<char> {
    match j {
        JsonValue::Object(fields) => spec_fields_err(fields@),
        _ => "manifest is not a JSON object"@,
    }
}

/// Looks a string field up in an object's field list.
fn get_string_field(fields: &Vec<(String, JsonValue)>, key: &str) -> (r: Option<String>)
    ensures
        match r {
            Some(s) => spec_str_field(fields@, key@) == Some(s@),
            None => spec_str_field(fields@, key@) is None,
        },
{
    let k = String::from_str(key);
    match get_field(fields, &k) {
        Some(v) => match v {
            JsonValue::Str(s) => Some(s.clone()),
            _ => None,
        },
        None => None,
    }
}

/// Decodes a `license` value: a plain string, or an object with an
/// `identifier` string; anything else is rejected.
pub fn decode_license(j: &JsonValue) -> (r: Result<License, String>)
    ensures
        r is Ok <==> spec_license(*j) is Some,
        r matches Ok(l) ==> Some(l.deep_view()) == spec_license(*j),
        r matches Err(e) ==> e@ == spec_license_err(*j),
{
    match j {
        JsonValue::Str(s) => Ok(License::Text(s.clone())),
        JsonValue::Object(fields) => {
            let k = String::from_str("identifier");
            match get_field(fields, &k) {
                Some(v) => match v {
                    JsonValue::Str(s) => Ok(License::Object { identifier: s.clone() }),
                    _ => Err(String::from_str("license object holds no identifier string")),
                },
                None => Err(String::from_str("license object holds no identifier string")),
            }
        },
        _ => Err(String::from_str("license is neither a string nor an object")),
    }
}

/// A value whose element at `i` is not a string yields no lines.
proof fn lemma_strings_of_non_string(elems: Seq<JsonValue>, i: int)
    requires
        0 <= i < elems.len(),
        !(elems[i] is Str),
    ensures
        strings_of(elems) is None,
    decreases elems.len(),
{
    if i < elems.len() - 1 {
        lemma_strings_of_non_string(elems.drop_last(), i);
    }
}

/// Decodes a `notes` value: one string, or an array of strings; anything
/// else is rejected.
pub fn decode_notes(j: &JsonValue) -> (r: Result<Notes, String>)
    ensures
        r is Ok <==> spec_notes(*j) is Some,
        r matches Ok(n) ==> Some(n.deep_view()) == spec_notes(*j),
        r matches Err(e) ==> e@ == spec_notes_err(*j),
{
    match j {
        JsonValue::Str(s) => Ok(Notes::Text(s.clone())),
        JsonValue::Array(elems) => {
            let n: usize = elems.len();
            let mut lines: Vec<String> = Vec::new();
            let mut i: usize = 0;
            while i < n
                invariant
                    *j == JsonValue::Array(*elems),
                    n == elems@.len(),
                    i <= n,
                    strings_of(elems@.take(i as int)) == Some(lines.deep_view()),
                decreases n - i,
            {
                let e = &elems[i];
                match e {
                    JsonValue::Str(s) => {
                        let ghost pre = lines.deep_view();
                        lines.push(s.clone());
                        proof {
                            assert(elems@.take(i + 1).drop_last() =~= elems@.take(i as int));
                            assert(elems@.take(i + 1).last() == elems@[i as int]);
                            assert(lines.deep_view() =~= pre.push(s@));
                        }
                    },
                    _ => {
                        proof {
                            assert(!(elems@[i as int] is Str));
                            lemma_strings_of_non_string(elems@, i as int);
                        }
                        return Err(String::from_str("notes list holds a non-string entry"));
                    },
                }
                i = i + 1;
            }
            proof {
                assert(elems@.take(n as int) =~= elems@);
            }
            Ok(Notes::List(lines))
        },
        _ => Err(String::from_str("notes is neither a string nor a list")),
    }
}

/// Decodes a whole manifest document.  Success is owed exactly when the
/// document is an object whose `version`, `description` and `homepage`
/// fields are strings, whose `license` field has an accepted shape, and
/// whose `notes` field, if present and non-null, has an accepted shape.
pub fn decode_manifest(j: &JsonValue) -> (r: Result<AppManifest, String>)
    ensures
        r is Ok <==> spec_manifest(*j) is Some,
        r matches Ok(m) ==> Some(m.deep_view()) == spec_manifest(*j),
        r matches Err(e) ==> e@ == spec_manifest_err(*j),
{
    let fields = match j {
        JsonValue::Object(fields) => fields,
        _ => {
            return Err(String::from_str("manifest is not a JSON object"));
        },
    };
    let version = match get_string_field(fields, "version") {
        Some(s) => s,
        None => {
            return Err(String::from_str("manifest holds no version string"));
        },
    };
    let description = match get_string_field(fields, "description") {
        Some(s) => s,
        None => {
            return Err(String::from_str("manifest holds no description string"));
        },
    };
    let homepage = match get_string_field(fields, "homepage") {
        Some(s) => s,
        None => {
            return Err(String::from_str("manifest holds no homepage string"));
        },
    };
    let lk = String::from_str("license");
    let license = match get_field(fields, &lk) {
        Some(v) => match decode_license(v) {
            Ok(l) => l,
            Err(e) => {
                return Err(e);
            },
        },
        None => {
            return Err(String::from_str("manifest holds no license"));
        },
    };
    let nk = String::from_str("notes");
    let notes = match get_field(fields, &nk) {
        None => None,
        Some(v) => match v {
            JsonValue::Null => None,
            _ => match decode_notes(v) {
                Ok(nt) => Some(nt),
                Err(e) => {
                    return Err(e);
                },
            },
        },
    };
    Ok(AppManifest { version, description, homepage, license, notes })
}

/// A parse result, field views taken.
pub open spec fn parse_result_view(r: Result<AppManifest, String>) -> Result<
    ManifestView,
    Seq<char>,
> {
    match r {
        Ok(m) => Ok(m.deep_view()),
        Err(e) => Err(e@),
    }
}

/// What decoding a parsed-or-failed document yields: a parse error is
/// passed on, and a parsed document either decodes to a manifest or is
/// rejected with the decoder's message.
pub open spec fn spec_manifest_result(d: Result<JsonValue, Seq<char>>) -> Result<
    ManifestView,
    Seq<char>,
> {
    match d {
        Err(msg) => Err(msg),
        Ok(j) => match spec_manifest(j) {
            Some(m) => Ok(m),
            None => Err(spec_manifest_err(j)),
        },
    }
}

/// Parses one manifest file's bytes: exactly the decode of what the bytes
/// parse to.  Success is owed exactly when the bytes parse and the
/// document has the accepted manifest shape.
pub fn parse_manifest(bytes: &[u8]) -> (r: Result<AppManifest, String>)
    ensures
        parse_result_view(r) == spec_manifest_result(parsed_doc(bytes@)),
{
    match parse_json(bytes) {
        Ok(j) => decode_manifest(&j),
        Err(e) => Err(e),
    }
}

/// The two on-disk license shapes normalize alike: a manifest carrying
/// `license: s` and one carrying `license: {"identifier": s}` yield the
/// identical license string.
pub proof fn lemma_license_forms_agree(
    plain: JsonValue,
    obj: JsonValue,
    fields: Vec<(String, JsonValue)>,
    s: String,
)
    requires
        plain == JsonValue::Str(s),
        obj == JsonValue::Object(fields),
        spec_field(fields@, "identifier"@) == Some(JsonValue::Str(s)),
    ensures
        spec_license(plain) is Some,
        spec_license(obj) is Some,
        license_text(spec_license(plain)->0) == s@,
        license_text(spec_license(obj)->0) == s@,
{
}

/// A single-string notes value normalizes to that very string.
pub proof fn lemma_notes_single(s: Seq<char>)
    ensures
        notes_text(NotesView::Text(s)) == s,
{
}

/// A two-line notes list keeps its lines in order, joined with the
/// newline-and-indent separator.
pub proof fn lemma_notes_pair(a: Seq<char>, b: Seq<char>)
    ensures
        notes_text(NotesView::List(seq![a, b])) == a + notes_sep() + b,
{
    let lines = seq![a, b];
    assert(lines.drop_last() =~= seq![a]);
    assert(join_with(seq![a], notes_sep()) == a);
}

} // verus!
