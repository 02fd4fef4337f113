//! The metadata summary of a session: eight EXIF-derived strings,
//! serialized as one JSON object. Reading the fields out of the RAW
//! container is the host's work; assembling the object is exact and
//! verified here, with the string escaping behind a named serializer
//! call.

use vstd::prelude::*;

verus! {

/// The EXIF summary the host shows for a session. Unknown fields are
/// empty strings.
pub struct MetadataFields {
    pub make: String,
    pub model: String,
    pub lens: String,
    pub iso: String,
    pub exposure_time: String,
    pub f_number: String,
    pub focal_length: String,
    pub date_time_original: String,
}

/// What the JSON serializer makes of one string value: the quoted,
/// escaped JSON string literal, a function of the characters alone.
pub uninterp spec fn json_string_of(s: Seq<char>) -> Seq<char>;

/// Relies on serde_json's `to_string` on a string slice: it yields
/// the quoted, escaped JSON string literal, depending on the
/// characters alone (serializing a string value cannot fail).
#[verifier::external_body]
fn json_string(s: &String) -> (r: String)
    ensures
        r@ == json_string_of(s@),
{
    serde_json::to_string(s.as_str()).unwrap_or_default()
}

/// The metadata object of the summary fields: one JSON object with
/// the eight keys in the serializer's (sorted) order, each value the
/// escaped string.
pub open spec fn spec_metadata_json(f: MetadataFields) -> Seq<char> {
    "{\"dateTimeOriginal\":"@ + json_string_of(f.date_time_original@) + ",\"exposureTime\":"@
        + json_string_of(f.exposure_time@) + ",\"fNumber\":"@ + json_string_of(f.f_number@)
        + ",\"focalLength\":"@ + json_string_of(f.focal_length@) + ",\"iso\":"@ + json_string_of(f.iso@)
        + ",\"lens\":"@ + json_string_of(f.lens@) + ",\"make\":"@ + json_string_of(f.make@)
        + ",\"model\":"@ + json_string_of(f.model@) + "}"@
}

/// Serializes the metadata summary.
pub fn metadata_json(f: &MetadataFields) -> (r: String)
    ensures
        r@ == spec_metadata_json(*f),
{
    let mut out = String::new();
    out.append("{\"dateTimeOriginal\":");
    let v = json_string(&f.date_time_original);
    out.append(v.as_str());
    out.append(",\"exposureTime\":");
    let v = json_string(&f.exposure_time);
    out.append(v.as_str());
    out.append(",\"fNumber\":");
    let v = json_string(&f.f_number);
    out.append(v.as_str());
    out.append(",\"focalLength\":");
    let v = json_string(&f.focal_length);
    out.append(v.as_str());
    out.append(",\"iso\":");
    let v = json_string(&f.iso);
    out.append(v.as_str());
    out.append(",\"lens\":");
    let v = json_string(&f.lens);
    out.append(v.as_str());
    out.append(",\"make\":");
    let v = json_string(&f.make);
    out.append(v.as_str());
    out.append(",\"model\":");
    let v = json_string(&f.model);
    out.append(v.as_str());
    out.append("}");
    proof {
        assert(out@ =~= spec_metadata_json(*f));
    }
    out
}

} // verus!
