//! Avatars of authors: how an upload is decoded, and how its files are
//! named.

use vstd::prelude::*;
use crate::json::{Json, JsonV, lemma_object_view, member_views};
use crate::text::{append_chars, append_str, decimal, push_decimal};

verus! {

/// What the standard base64 engine makes of a text: the bytes that it
/// spells, or the message of the decoding error.
pub uninterp spec fn base64_decoded(text: Seq<char>) -> Result<Seq<u8>, Seq<char>>;

/// `Engine::decode` of `base64::engine::general_purpose::STANDARD`, with
/// the error handed back as the text it displays. The result depends on
/// the text alone.
#[verifier::external_body]
pub(crate) fn decode_base64(text: &str) -> (r: Result<Vec<u8>, String>)
    ensures
        match r {
            Ok(bytes) => base64_decoded(text@) == Ok::<Seq<u8>, Seq<char>>(bytes@),
            Err(message) => base64_decoded(text@) == Err::<Seq<u8>, Seq<char>>(message@),
        },
{
    match base64::Engine::decode(&base64::engine::general_purpose::STANDARD, text) {
        Ok(bytes) => Ok(bytes),
        Err(e) => Err(e.to_string()),
    }
}

/// The decimal numeral of an integer, with a minus sign where it is
/// negative.
pub open spec fn signed_decimal(i: int) -> Seq<char> {
    if i < 0 {
        "-"@ + decimal((-i) as nat)
    } else {
        decimal(i as nat)
    }
}

/// The name of an avatar file: the author, the role of the picture and the
/// time of the upload.
pub open spec fn avatar_name(author_id: Seq<char>, role: Seq<char>, timestamp: i64) -> Seq<char> {
    author_id + "_"@ + role + "_"@ + signed_decimal(timestamp as int) + ".jpg"@
}

/// Spells the name of an avatar file.
pub fn avatar_file_name(author_id: &str, role: &str, timestamp: i64) -> (r: String)
    ensures
        r@ == avatar_name(author_id@, role@, timestamp),
{
    let mut name = String::new();
    append_str(&mut name, author_id);
    append_str(&mut name, "_");
    append_str(&mut name, role);
    append_str(&mut name, "_");
    let mut number: Vec<char> = Vec::new();
    if timestamp < 0 {
        let mut sign = String::new();
        append_str(&mut sign, "-");
        append_str(&mut name, sign.as_str());
        push_decimal(&mut number, (-(timestamp as i128)) as u128);
        assert(number@ =~= decimal((-(timestamp as int)) as nat));
        append_chars(&mut name, &number);
        append_str(&mut name, ".jpg");
        assert(name@ =~= avatar_name(author_id@, role@, timestamp));
    } else {
        push_decimal(&mut number, timestamp as u128);
        assert(number@ =~= decimal(timestamp as nat));
        append_chars(&mut name, &number);
        append_str(&mut name, ".jpg");
    }
    name
}

/// The two pictures of an upload, decoded, with the names of their files.
#[derive(Debug, Clone, PartialEq, Eq)]
pub struct AvatarUpload {
    pub original_name: String,
    pub original: Vec<u8>,
    pub display_name: String,
    pub display: Vec<u8>,
}

/// Decodes the two pictures of an upload and names their files. An upload
/// with a picture that is no base64 text is refused with the reason, the
/// original's before the display version's.
pub fn upload_avatar(
    author_id: &str,
    original_base64: &str,
    display_base64: &str,
    timestamp: i64,
) -> (r: Result<AvatarUpload, String>)
    ensures
        match (base64_decoded(original_base64@), base64_decoded(display_base64@)) {
            (Ok(original), Ok(display)) => r matches Ok(upload) && upload.original@ == original
                && upload.display@ == display && upload.original_name@ == avatar_name(
                author_id@,
                "original"@,
                timestamp,
            ) && upload.display_name@ == avatar_name(author_id@, "display"@, timestamp),
            (Err(message), _) => r matches Err(e) && e@ == message,
            (Ok(_), Err(message)) => r matches Err(e) && e@ == message,
        },
{
    let original = match decode_base64(original_base64) {
        Ok(bytes) => bytes,
        Err(e) => {
            return Err(e);
        },
    };
    let display = match decode_base64(display_base64) {
        Ok(bytes) => bytes,
        Err(e) => {
            return Err(e);
        },
    };
    Ok(name_upload(author_id, original, display, timestamp))
}

/// Names the files of two decoded pictures.
pub fn name_upload(author_id: &str, original: Vec<u8>, display: Vec<u8>, timestamp: i64) -> (r:
    AvatarUpload)
    ensures
        r.original@ == original@,
        r.display@ == display@,
        r.original_name@ == avatar_name(author_id@, "original"@, timestamp),
        r.display_name@ == avatar_name(author_id@, "display"@, timestamp),
{
    AvatarUpload {
        original_name: avatar_file_name(author_id, "original", timestamp),
        original,
        display_name: avatar_file_name(author_id, "display", timestamp),
        display,
    }
}

/// The document that reports an upload: the paths of the two files, and
/// the crop region as it was given.
pub open spec fn upload_report(original: Seq<char>, display: Seq<char>, crop: JsonV) -> JsonV {
    JsonV::Object(
        seq![
            (
                "paths"@,
                JsonV::Object(
                    seq![
                        ("original"@, JsonV::String(original)),
                        ("display"@, JsonV::String(display)),
                    ],
                ),
            ),
            ("cropRegion"@, crop),
        ],
    )
}

/// Reports an upload.
pub fn avatar_report(original_path: &str, display_path: &str, crop_region: Json) -> (r: Json)
    ensures
        r@ == upload_report(original_path@, display_path@, crop_region@),
{
    let mut paths: Vec<(String, Json)> = Vec::new();
    paths.push(("original".to_owned(), Json::String(original_path.to_owned())));
    paths.push(("display".to_owned(), Json::String(display_path.to_owned())));
    proof {
        lemma_object_view(paths);
        assert(member_views(paths@) =~= seq![
            ("original"@, JsonV::String(original_path@)),
            ("display"@, JsonV::String(display_path@)),
        ]);
    }
    let mut members: Vec<(String, Json)> = Vec::new();
    members.push(("paths".to_owned(), Json::Object(paths)));
    members.push(("cropRegion".to_owned(), crop_region));
    proof {
        lemma_object_view(members);
        assert(member_views(members@) =~= upload_report(
            original_path@,
            display_path@,
            crop_region@,
        )->Object_0);
    }
    Json::Object(members)
}

} // verus!
