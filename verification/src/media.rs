//! Image helpers: format detection, Base64 decoding of generated images,
//! file names for generated images, and reference image path resolution.

use vstd::prelude::*;
use crate::text::{
    decimal, find_str, has_prefix, is_first_occurrence, occurs_at, push_char, push_str,
    rsplit_once, rsplit_once_seq, slice_chars, starts_with, str_eq, to_owned, u64_to_decimal,
};

verus! {

/// What `base64::engine::general_purpose::STANDARD.decode` returns for `input`:
/// the decoded bytes, or the text of its error.
pub uninterp spec fn base64_standard_decode(input: Seq<char>) -> Result<Seq<u8>, Seq<char>>;

/// What `base64::engine::general_purpose::STANDARD.encode` returns for `bytes`.
pub uninterp spec fn base64_standard_encode(bytes: Seq<u8>) -> Seq<char>;

/// Decode standard (padded) Base64.
///
/// Calls `base64::Engine::decode` on the `STANDARD` engine and turns its error
/// into its `Display` text. The contract only names the result: that the bytes
/// or the error text depend on the input alone.
#[verifier::external_body]
fn decode_standard(input: &str) -> (r: Result<Vec<u8>, String>)
    ensures
        match r {
            Ok(v) => base64_standard_decode(input@) == Ok::<Seq<u8>, Seq<char>>(v@),
            Err(e) => base64_standard_decode(input@) == Err::<Seq<u8>, Seq<char>>(e@),
        },
{
    match base64::Engine::decode(&base64::engine::general_purpose::STANDARD, input) {
        Ok(v) => Ok(v),
        Err(e) => Err(e.to_string()),
    }
}

/// Encode bytes as standard (padded) Base64.
///
/// Calls `base64::Engine::encode` on the `STANDARD` engine; the contract only
/// names the result, which depends on the bytes alone.
#[verifier::external_body]
fn base64_encode(bytes: &[u8]) -> (r: String)
    ensures
        r@ == base64_standard_encode(bytes@),
{
    base64::Engine::encode(&base64::engine::general_purpose::STANDARD, bytes)
}

/// The Base64 text of a possibly data-URL-prefixed string: all of it, or for
/// `data:<mime>;base64,<payload>` the payload; `None` for a `data:` string
/// without `;base64,`.
pub open spec fn base64_payload(b64: Seq<char>) -> Option<Seq<char>> {
    if has_prefix(b64, "data:"@) {
        let rest = b64.subrange(5, b64.len() as int);
        if exists|i: int| occurs_at(rest, ";base64,"@, i) {
            let pos = choose|i: int| is_first_occurrence(rest, ";base64,"@, i);
            Some(rest.subrange(pos + 8, rest.len() as int))
        } else {
            None
        }
    } else {
        Some(b64)
    }
}

/// The outcome of decoding a possibly data-URL-prefixed Base64 string.
pub open spec fn spec_base64_decode(b64: Seq<char>) -> Result<Seq<u8>, Seq<char>> {
    match base64_payload(b64) {
        None => Err("Invalid data-URL prefix in base64 response"@),
        Some(p) => match base64_standard_decode(p) {
            Ok(v) => Ok(v),
            Err(e) => Err("Base64 decode error: "@ + e),
        },
    }
}

proof fn lemma_first_occurrence_exists(s: Seq<char>, p: Seq<char>, i: int)
    requires
        occurs_at(s, p, i),
    ensures
        exists|k: int| is_first_occurrence(s, p, k),
    decreases i,
{
    if forall|j: int| 0 <= j < i ==> !occurs_at(s, p, j) {
        assert(is_first_occurrence(s, p, i));
    } else {
        let j = choose|j: int| 0 <= j < i && occurs_at(s, p, j);
        lemma_first_occurrence_exists(s, p, j);
    }
}

/// Decode Base64 text, accepting a `data:<mime>;base64,` prefix.
pub fn base64_decode(b64: &str) -> (r: Result<Vec<u8>, String>)
    ensures
        match r {
            Ok(v) => spec_base64_decode(b64@) == Ok::<Seq<u8>, Seq<char>>(v@),
            Err(e) => spec_base64_decode(b64@) == Err::<Seq<u8>, Seq<char>>(e@),
        },
{
    let encoded: &str;
    if starts_with(b64, "data:") {
        proof {
            reveal_strlit("data:");
        }
        let n = b64.unicode_len();
        let rest = slice_chars(b64, 5, n);
        match find_str(rest, ";base64,") {
            Some(pos) => {
                proof {
                    reveal_strlit(";base64,");
                    let k = choose|k: int| is_first_occurrence(rest@, ";base64,"@, k);
                    assert(k == pos);
                }
                let m = rest.unicode_len();
                encoded = slice_chars(rest, pos + 8, m);
            },
            None => {
                return Err(to_owned("Invalid data-URL prefix in base64 response"));
            },
        }
    } else {
        encoded = b64;
    }
    proof {
        if has_prefix(b64@, "data:"@) {
            let rest = b64@.subrange(5, b64@.len() as int);
            let i = choose|i: int| occurs_at(rest, ";base64,"@, i);
            lemma_first_occurrence_exists(rest, ";base64,"@, i);
        }
    }
    assert(base64_payload(b64@) == Some(encoded@));
    match decode_standard(encoded) {
        Ok(v) => Ok(v),
        Err(e) => {
            let mut msg = to_owned("Base64 decode error: ");
            push_str(&mut msg, e.as_str());
            Err(msg)
        },
    }
}

/// `b` begins with the bytes `p`.
pub open spec fn bytes_prefix(b: Seq<u8>, p: Seq<u8>) -> bool {
    p.len() <= b.len() && b.subrange(0, p.len() as int) == p
}

/// PNG magic bytes.
pub open spec fn png_magic() -> Seq<u8> {
    seq![0x89u8, 0x50u8, 0x4Eu8, 0x47u8]
}

/// JPEG magic bytes.
pub open spec fn jpeg_magic() -> Seq<u8> {
    seq![0xFFu8, 0xD8u8, 0xFFu8]
}

/// `RIFF`
pub open spec fn riff_magic() -> Seq<u8> {
    seq![0x52u8, 0x49u8, 0x46u8, 0x46u8]
}

/// `WEBP`
pub open spec fn webp_tag() -> Seq<u8> {
    seq![0x57u8, 0x45u8, 0x42u8, 0x50u8]
}

/// `GIF8`
pub open spec fn gif_magic() -> Seq<u8> {
    seq![0x47u8, 0x49u8, 0x46u8, 0x38u8]
}

/// A RIFF header followed by `WEBP` at offset 8.
pub open spec fn is_webp(b: Seq<u8>) -> bool {
    bytes_prefix(b, riff_magic()) && b.len() > 8 && b.subrange(8, 12) == webp_tag()
}

/// The inputs on which the format checks look at bytes 8 to 12 that are not
/// there (a RIFF header of 9 to 11 bytes); the checks panic on them.
pub open spec fn short_riff(b: Seq<u8>) -> bool {
    bytes_prefix(b, riff_magic()) && 8 < b.len() < 12
}

/// The kind of image that the magic bytes announce.
pub enum ImageKind {
    Png,
    Jpeg,
    Webp,
    Gif,
}

/// The image kind of `b`, if its magic bytes are known.
pub open spec fn image_kind(b: Seq<u8>) -> Option<ImageKind> {
    if bytes_prefix(b, png_magic()) {
        Some(ImageKind::Png)
    } else if bytes_prefix(b, jpeg_magic()) {
        Some(ImageKind::Jpeg)
    } else if is_webp(b) {
        Some(ImageKind::Webp)
    } else if bytes_prefix(b, gif_magic()) {
        Some(ImageKind::Gif)
    } else {
        None
    }
}

fn has_bytes_at(b: &[u8], off: usize, p0: u8, p1: u8, p2: u8, p3: u8) -> (r: bool)
    requires
        off + 4 <= b@.len(),
    ensures
        r == (b@.subrange(off as int, off + 4) == seq![p0, p1, p2, p3]),
{
    let r = b[off] == p0 && b[off + 1] == p1 && b[off + 2] == p2 && b[off + 3] == p3;
    proof {
        if r {
            assert(b@.subrange(off as int, off + 4) =~= seq![p0, p1, p2, p3]);
        } else {
            let s = b@.subrange(off as int, off + 4);
            assert(s[0] == b@[off as int] && s[1] == b@[off + 1] && s[2] == b@[off + 2] && s[3]
                == b@[off + 3]);
        }
    }
    r
}

fn kind_of(bytes: &[u8]) -> (r: Option<ImageKind>)
    requires
        !short_riff(bytes@),
    ensures
        r == image_kind(bytes@),
{
    let n = bytes.len();
    if n >= 4 && has_bytes_at(bytes, 0, 0x89, 0x50, 0x4E, 0x47) {
        return Some(ImageKind::Png);
    }
    proof {
        if n >= 4 {
            assert(bytes@.subrange(0, 4) == bytes@.subrange(0, png_magic().len() as int));
        }
    }
    if n >= 3 && bytes[0] == 0xFF && bytes[1] == 0xD8 && bytes[2] == 0xFF {
        assert(bytes@.subrange(0, 3) =~= jpeg_magic());
        return Some(ImageKind::Jpeg);
    }
    proof {
        if n >= 3 {
            let s = bytes@.subrange(0, 3);
            assert(s[0] == bytes@[0] && s[1] == bytes@[1] && s[2] == bytes@[2]);
        }
    }
    let riff = n >= 4 && has_bytes_at(bytes, 0, 0x52, 0x49, 0x46, 0x46);
    proof {
        if n >= 4 {
            assert(bytes@.subrange(0, 4) == bytes@.subrange(0, riff_magic().len() as int));
        }
    }
    if riff && n > 8 && has_bytes_at(bytes, 8, 0x57, 0x45, 0x42, 0x50) {
        return Some(ImageKind::Webp);
    }
    if n >= 4 && has_bytes_at(bytes, 0, 0x47, 0x49, 0x46, 0x38) {
        return Some(ImageKind::Gif);
    }
    None
}

/// The file extension for the image format that the magic bytes announce.
pub open spec fn spec_image_ext(b: Seq<u8>) -> Option<Seq<char>> {
    match image_kind(b) {
        Some(ImageKind::Png) => Some("png"@),
        Some(ImageKind::Jpeg) => Some("jpg"@),
        Some(ImageKind::Webp) => Some("webp"@),
        Some(ImageKind::Gif) => Some("gif"@),
        None => None,
    }
}

/// The MIME type for the image format that the magic bytes announce,
/// `image/png` when unknown.
pub open spec fn spec_guess_mime(b: Seq<u8>) -> Seq<char> {
    match image_kind(b) {
        Some(ImageKind::Png) => "image/png"@,
        Some(ImageKind::Jpeg) => "image/jpeg"@,
        Some(ImageKind::Webp) => "image/webp"@,
        Some(ImageKind::Gif) => "image/gif"@,
        None => "image/png"@,
    }
}

/// The file extension for the image format that the magic bytes announce.
pub fn detect_image_format(bytes: &[u8]) -> (r: Option<&'static str>)
    requires
        !short_riff(bytes@),
    ensures
        crate::config::opt_view(r) == spec_image_ext(bytes@),
{
    match kind_of(bytes) {
        Some(ImageKind::Png) => Some("png"),
        Some(ImageKind::Jpeg) => Some("jpg"),
        Some(ImageKind::Webp) => Some("webp"),
        Some(ImageKind::Gif) => Some("gif"),
        None => None,
    }
}

/// The MIME type for the image format that the magic bytes announce,
/// `image/png` when unknown.
pub fn guess_mime(bytes: &[u8]) -> (r: &'static str)
    requires
        !short_riff(bytes@),
    ensures
        r@ == spec_guess_mime(bytes@),
{
    match kind_of(bytes) {
        Some(ImageKind::Png) => "image/png",
        Some(ImageKind::Jpeg) => "image/jpeg",
        Some(ImageKind::Webp) => "image/webp",
        Some(ImageKind::Gif) => "image/gif",
        None => "image/png",
    }
}

/// The MIME type that [`guess_mime`] gives for `b`.
pub open spec fn spec_mime(b: Seq<u8>) -> Seq<char> {
    match image_kind(b) {
        Some(ImageKind::Png) => "image/png"@,
        Some(ImageKind::Jpeg) => "image/jpeg"@,
        Some(ImageKind::Webp) => "image/webp"@,
        Some(ImageKind::Gif) => "image/gif"@,
        None => "image/png"@,
    }
}

/// A reference image as a data URL: `data:<mime>;base64,<payload>`.
pub fn image_data_url(bytes: &[u8]) -> (r: String)
    requires
        !short_riff(bytes@),
    ensures
        r@ == "data:"@ + spec_mime(bytes@) + ";base64,"@ + base64_standard_encode(bytes@),
{
    let mime = guess_mime(bytes);
    let b64 = base64_encode(bytes);
    let mut r = to_owned("data:");
    push_str(&mut r, mime);
    push_str(&mut r, ";base64,");
    push_str(&mut r, b64.as_str());
    r
}

/// `:` and `.` become `_`.
pub open spec fn slug_char(c: char) -> char {
    if c == ':' || c == '.' {
        '_'
    } else {
        c
    }
}

/// The short name of a model for file names: the part after the last `/`,
/// with `:` and `.` replaced by `_`.
pub open spec fn spec_image_gen_model_id(model: Seq<char>) -> Seq<char> {
    let name = match rsplit_once_seq(model, '/') {
        Some((_, n)) => n,
        None => model,
    };
    name.map_values(|c: char| slug_char(c))
}

/// The short name of a model for file names.
pub fn image_gen_model_id(model: &str) -> (r: String)
    ensures
        r@ == spec_image_gen_model_id(model@),
{
    let name = match rsplit_once(model, '/') {
        Some((_, n)) => n,
        None => model,
    };
    let ghost target = name@.map_values(|c: char| slug_char(c));
    let n = name.unicode_len();
    let mut out = String::new();
    let mut i: usize = 0;
    while i < n
        invariant
            n == name@.len(),
            i <= n,
            target == name@.map_values(|c: char| slug_char(c)),
            out@ == target.take(i as int),
        decreases n - i,
    {
        let c = name.get_char(i);
        if c == ':' || c == '.' {
            push_char(&mut out, '_');
        } else {
            push_char(&mut out, c);
        }
        assert(target.take(i + 1) =~= target.take(i as int).push(slug_char(c)));
        i += 1;
    }
    assert(target.take(n as int) =~= target);
    out
}

/// How many images to ask for: the requested number kept within 1 to 4, 1 when not given.
pub fn image_count(requested: Option<u64>) -> (r: u32)
    ensures
        r == match requested {
            Some(n) => if n < 1 {
                1
            } else if n > 4 {
                4
            } else {
                n
            },
            None => 1,
        },
        1 <= r <= 4,
{
    match requested {
        Some(n) => if n < 1 {
            1
        } else if n > 4 {
            4
        } else {
            n as u32
        },
        None => 1,
    }
}

/// The media-relative path of a generated image:
/// `generated/<slug>_<timestamp>.<ext>` for a single image, and
/// `generated/<slug>_<timestamp>_<index + 1>.<ext>` when several were requested.
pub open spec fn spec_generated_image_path(
    model: Seq<char>,
    timestamp: Seq<char>,
    count: nat,
    index: nat,
    ext: Seq<char>,
) -> Seq<char> {
    let stem = "generated/"@ + spec_image_gen_model_id(model) + "_"@ + timestamp;
    if count == 1 {
        stem + "."@ + ext
    } else {
        stem + "_"@ + decimal(index + 1) + "."@ + ext
    }
}

/// The media-relative path of a generated image.
pub fn generated_image_path(model: &str, timestamp: &str, count: u32, index: u64, ext: &str) -> (r:
    String)
    requires
        index < u64::MAX,
    ensures
        r@ == spec_generated_image_path(model@, timestamp@, count as nat, index as nat, ext@),
{
    let mut out = to_owned("generated/");
    let slug = image_gen_model_id(model);
    push_str(&mut out, slug.as_str());
    push_str(&mut out, "_");
    push_str(&mut out, timestamp);
    if count != 1 {
        push_str(&mut out, "_");
        let d = u64_to_decimal(index + 1);
        push_str(&mut out, d.as_str());
    }
    push_str(&mut out, ".");
    push_str(&mut out, ext);
    assert(out@ =~= spec_generated_image_path(
        model@,
        timestamp@,
        count as nat,
        index as nat,
        ext@,
    ));
    out
}

/// Generated images are saved under `generated/` with the requested
/// extension, and when several are asked for, each index gets a path of its
/// own, so no image overwrites another.
pub proof fn lemma_generated_paths_distinct(
    model: Seq<char>,
    timestamp: Seq<char>,
    count: nat,
    i: nat,
    j: nat,
    ext: Seq<char>,
)
    ensures
        crate::text::has_prefix(spec_generated_image_path(model, timestamp, count, i, ext), "generated/"@),
        crate::text::has_suffix(spec_generated_image_path(model, timestamp, count, i, ext), "."@ + ext),
        count != 1 && i != j ==> spec_generated_image_path(model, timestamp, count, i, ext)
            != spec_generated_image_path(model, timestamp, count, j, ext),
{
    let stem = "generated/"@ + spec_image_gen_model_id(model) + "_"@ + timestamp;
    let pi = spec_generated_image_path(model, timestamp, count, i, ext);
    let tail = "."@ + ext;
    assert(pi.subrange(0, "generated/"@.len() as int) =~= "generated/"@);
    assert(pi.subrange(pi.len() - tail.len(), pi.len() as int) =~= tail);
    if count != 1 && i != j {
        let pj = spec_generated_image_path(model, timestamp, count, j, ext);
        let di = decimal(i + 1);
        let dj = decimal(j + 1);
        let h = stem + "_"@;
        assert(pi =~= h + di + tail);
        assert(pj =~= h + dj + tail);
        if pi == pj {
            assert(di.len() == dj.len());
            assert(di =~= pi.subrange(h.len() as int, (h.len() + di.len()) as int));
            assert(dj =~= pj.subrange(h.len() as int, (h.len() + dj.len()) as int));
            crate::text::lemma_decimal_injective(i + 1, j + 1);
        }
    }
}

/// `rel` joined to the directory `base` (as `Path::join` for a relative path).
pub open spec fn join_path(base: Seq<char>, rel: Seq<char>) -> Seq<char> {
    if base.len() == 0 || base.last() == '/' {
        base + rel
    } else {
        base + "/"@ + rel
    }
}

/// `rel` joined to the directory `base`, for a relative `rel`.
pub fn join_dir(base: &str, rel: &str) -> (r: String)
    ensures
        r@ == join_path(base@, rel@),
{
    let n = base.unicode_len();
    let mut out = to_owned(base);
    if n > 0 && base.get_char(n - 1) != '/' {
        push_str(&mut out, "/");
    }
    push_str(&mut out, rel);
    out
}

/// The candidate path of `path` under the data directory.
pub fn data_dir_candidate(path: &str, data_dir: &str) -> (r: String)
    ensures
        r@ == join_path(data_dir@, path@),
{
    join_dir(data_dir, path)
}

/// The candidate path of `path` under `/media`.
pub fn media_candidate(path: &str) -> (r: String)
    ensures
        r@ == join_path("/media"@, path@),
{
    join_dir("/media", path)
}

/// Where a reference image path points: an absolute path as it is; a
/// relative one under the data directory if that file exists, else under
/// `/media` if that file exists, else under the data directory.
pub open spec fn spec_resolve_file_path(
    path: Seq<char>,
    data_dir: Seq<char>,
    data_candidate_exists: bool,
    media_candidate_exists: bool,
) -> Seq<char> {
    if path.len() > 0 && path[0] == '/' {
        path
    } else if data_candidate_exists {
        join_path(data_dir, path)
    } else if media_candidate_exists {
        join_path("/media"@, path)
    } else {
        join_path(data_dir, path)
    }
}

/// Resolve a reference image path, given whether its two candidates
/// ([`data_dir_candidate`], [`media_candidate`]) exist.
pub fn resolve_file_path(
    path: &str,
    data_dir: &str,
    data_candidate_exists: bool,
    media_candidate_exists: bool,
) -> (r: String)
    ensures
        r@ == spec_resolve_file_path(path@, data_dir@, data_candidate_exists, media_candidate_exists),
{
    if path.unicode_len() > 0 && path.get_char(0) == '/' {
        return to_owned(path);
    }
    if data_candidate_exists {
        data_dir_candidate(path, data_dir)
    } else if media_candidate_exists {
        media_candidate(path)
    } else {
        data_dir_candidate(path, data_dir)
    }
}

/// How a file is sent to the chat.
#[derive(Clone, Copy, Debug, PartialEq, Eq, Structural)]
pub enum MediaKind {
    Photo,
    Video,
    Audio,
    Document,
}

/// How a file with (lower-case) extension `ext` is sent: as a document when
/// the original quality is asked for, else by its extension.
pub open spec fn spec_media_kind(ext: Seq<char>, original_quality: bool) -> MediaKind {
    if original_quality {
        MediaKind::Document
    } else if ext == "jpg"@ || ext == "jpeg"@ || ext == "png"@ || ext == "gif"@ || ext == "webp"@ {
        MediaKind::Photo
    } else if ext == "mp4"@ || ext == "mov"@ || ext == "avi"@ || ext == "webm"@ {
        MediaKind::Video
    } else if ext == "mp3"@ || ext == "ogg"@ || ext == "wav"@ || ext == "flac"@ {
        MediaKind::Audio
    } else {
        MediaKind::Document
    }
}

/// How a file with (lower-case) extension `ext` is sent.
pub fn media_kind(ext: &str, original_quality: bool) -> (r: MediaKind)
    ensures
        r == spec_media_kind(ext@, original_quality),
{
    if original_quality {
        MediaKind::Document
    } else if str_eq(ext, "jpg") || str_eq(ext, "jpeg") || str_eq(ext, "png") || str_eq(ext, "gif")
        || str_eq(ext, "webp") {
        MediaKind::Photo
    } else if str_eq(ext, "mp4") || str_eq(ext, "mov") || str_eq(ext, "avi") || str_eq(ext, "webm") {
        MediaKind::Video
    } else if str_eq(ext, "mp3") || str_eq(ext, "ogg") || str_eq(ext, "wav") || str_eq(ext, "flac") {
        MediaKind::Audio
    } else {
        MediaKind::Document
    }
}

/// The lines of a media listing, each followed by a newline.
pub open spec fn listing_lines(entries: Seq<Seq<char>>) -> Seq<char>
    decreases entries.len(),
{
    if entries.len() == 0 {
        Seq::empty()
    } else {
        listing_lines(entries.drop_last()) + entries.last() + "\n"@
    }
}

/// The reply of the `list_media` tool: a heading naming the media
/// directory, then `(empty)` or one line per entry, with a note when the
/// walk stopped at 500 entries.
pub open spec fn spec_media_listing(media_dir: Seq<char>, entries: Seq<Seq<char>>, overflow: bool) -> Seq<
    char,
> {
    "Media directory listing for '"@ + media_dir + "':\n"@ + if entries.len() == 0 {
        "(empty)"@
    } else {
        listing_lines(entries) + if overflow {
            "... (truncated at 500 entries)\n"@
        } else {
            Seq::empty()
        }
    }
}

proof fn lemma_listing_lines_has(entries: Seq<Seq<char>>)
    ensures
        forall|k: int|
            0 <= k < entries.len() ==> crate::text::contains_seq(
                listing_lines(entries),
                #[trigger] entries[k] + "\n"@,
            ),
        entries.len() > 0 ==> crate::text::has_suffix(listing_lines(entries), entries.last() + "\n"@),
    decreases entries.len(),
{
    if entries.len() > 0 {
        let prev = entries.drop_last();
        lemma_listing_lines_has(prev);
        let lp = listing_lines(prev);
        let l = listing_lines(entries);
        let last = entries.last() + "\n"@;
        assert(l =~= lp + last);
        assert(l.subrange(lp.len() as int, l.len() as int) =~= last);
        assert(occurs_at(l, last, lp.len() as int));
        assert forall|k: int| 0 <= k < entries.len() implies crate::text::contains_seq(
            l,
            #[trigger] entries[k] + "\n"@,
        ) by {
            if k < entries.len() - 1 {
                assert(entries[k] == prev[k]);
                let p = prev[k] + "\n"@;
                assert(crate::text::contains_seq(lp, p));
                let i = choose|i: int| occurs_at(lp, p, i);
                assert(l.subrange(i, i + p.len()) =~= lp.subrange(i, i + p.len()));
                assert(occurs_at(l, p, i));
            } else {
                assert(occurs_at(l, last, lp.len() as int));
            }
        }
    }
}

/// The `list_media` answer names the media directory in its first line and
/// then has a line for every entry found, or `(empty)` when there is none;
/// it ends with a note when the walk stopped early.
pub proof fn lemma_media_listing_lines(media_dir: Seq<char>, entries: Seq<Seq<char>>, overflow: bool)
    ensures
        has_prefix(
            spec_media_listing(media_dir, entries, overflow),
            "Media directory listing for '"@ + media_dir + "':\n"@,
        ),
        entries.len() == 0 ==> spec_media_listing(media_dir, entries, overflow)
            == "Media directory listing for '"@ + media_dir + "':\n(empty)"@,
        forall|k: int|
            0 <= k < entries.len() ==> crate::text::contains_seq(
                spec_media_listing(media_dir, entries, overflow),
                #[trigger] entries[k] + "\n"@,
            ),
        entries.len() > 0 && overflow ==> crate::text::has_suffix(
            spec_media_listing(media_dir, entries, overflow),
            "... (truncated at 500 entries)\n"@,
        ),
        entries.len() > 0 && !overflow ==> crate::text::has_suffix(
            spec_media_listing(media_dir, entries, overflow),
            entries.last() + "\n"@,
        ),
{
    reveal_strlit("':\n");
    reveal_strlit("':\n(empty)");
    reveal_strlit("(empty)");
    let head = "Media directory listing for '"@ + media_dir + "':\n"@;
    let r = spec_media_listing(media_dir, entries, overflow);
    assert("':\n(empty)"@ =~= "':\n"@ + "(empty)"@);
    if entries.len() == 0 {
        assert(r =~= head + "(empty)"@);
        assert(r.subrange(0, head.len() as int) =~= head);
    } else {
        lemma_listing_lines_has(entries);
        let ll = listing_lines(entries);
        let note = if overflow {
            "... (truncated at 500 entries)\n"@
        } else {
            Seq::<char>::empty()
        };
        assert(r =~= head + ll + note);
        assert(r.subrange(0, head.len() as int) =~= head);
        assert forall|k: int| 0 <= k < entries.len() implies crate::text::contains_seq(
            r,
            #[trigger] entries[k] + "\n"@,
        ) by {
            let p = entries[k] + "\n"@;
            assert(crate::text::contains_seq(ll, p));
            let i = choose|i: int| occurs_at(ll, p, i);
            assert(r.subrange(head.len() + i, head.len() + i + p.len()) =~= ll.subrange(i, i + p.len()));
            assert(occurs_at(r, p, head.len() + i));
        }
        if overflow {
            assert(r.subrange(r.len() - note.len(), r.len() as int) =~= note);
        } else {
            let last = entries.last() + "\n"@;
            assert(r =~= head + ll);
            assert(r.subrange(r.len() - last.len(), r.len() as int) =~= ll.subrange(
                ll.len() - last.len(),
                ll.len() as int,
            ));
        }
    }
}

/// The reply of the `list_media` tool for the entries found by the walk.
pub fn media_listing(media_dir: &str, entries: &Vec<String>, overflow: bool) -> (r: String)
    ensures
        r@ == spec_media_listing(media_dir@, entries@.map_values(|e: String| e@), overflow),
{
    let ghost ev = entries@.map_values(|e: String| e@);
    let mut out = to_owned("Media directory listing for '");
    push_str(&mut out, media_dir);
    push_str(&mut out, "':\n");
    let ghost head = out@;
    if entries.len() == 0 {
        push_str(&mut out, "(empty)");
        return out;
    }
    let n = entries.len();
    let mut i: usize = 0;
    proof {
        assert(ev.take(0) =~= Seq::<Seq<char>>::empty());
        assert(out@ =~= head + listing_lines(ev.take(0)));
    }
    while i < n
        invariant
            n == entries@.len(),
            ev == entries@.map_values(|e: String| e@),
            i <= n,
            out@ == head + listing_lines(ev.take(i as int)),
        decreases n - i,
    {
        push_str(&mut out, entries[i].as_str());
        push_str(&mut out, "\n");
        proof {
            assert(ev.take(i + 1).drop_last() =~= ev.take(i as int));
            assert(ev.take(i + 1).last() == entries@[i as int]@);
            assert(out@ =~= head + listing_lines(ev.take(i + 1)));
        }
        i += 1;
    }
    assert(ev.take(n as int) =~= ev);
    if overflow {
        push_str(&mut out, "... (truncated at 500 entries)\n");
    }
    out
}


/// What the image tool checks before asking for images: a prompt, and a
/// configured image model; then how many images to ask for.
pub open spec fn spec_image_request(
    prompt: Seq<char>,
    model: Option<Seq<char>>,
    requested: Option<u64>,
) -> Result<u32, Seq<char>> {
    if prompt.len() == 0 {
        Err("Error: prompt required"@)
    } else if model is None {
        Err("Error: image generation model not configured"@)
    } else {
        Ok(
            match requested {
                Some(n) => if n < 1 {
                    1
                } else if n > 4 {
                    4
                } else {
                    n as u32
                },
                None => 1,
            },
        )
    }
}

/// The image tool asks for images only with a prompt and a configured
/// model, and then for 1 to 4 of them: as many as requested when that is
/// within those bounds, one when nothing was requested.
pub proof fn lemma_image_request_bounds(prompt: Seq<char>, model: Option<Seq<char>>, requested: Option<u64>)
    ensures
        spec_image_request(prompt, model, requested) is Ok <==> prompt.len() > 0 && model is Some,
        spec_image_request(prompt, model, requested) matches Ok(n) ==> {
            &&& 1 <= n <= 4
            &&& requested is None ==> n == 1
            &&& (requested is Some && 1 <= requested->0 <= 4) ==> n == requested->0
        },
{
}

/// The image tool's checks: the number of images to ask for, or its answer.
pub fn image_request(prompt: &str, model: Option<&str>, requested: Option<u64>) -> (r: Result<
    u32,
    String,
>)
    ensures
        match r {
            Ok(n) => spec_image_request(prompt@, crate::config::opt_view(model), requested) == Ok::<
                u32,
                Seq<char>,
            >(n),
            Err(e) => spec_image_request(prompt@, crate::config::opt_view(model), requested)
                == Err::<u32, Seq<char>>(e@),
        },
{
    if prompt.unicode_len() == 0 {
        return Err(to_owned("Error: prompt required"));
    }
    if model.is_none() {
        return Err(to_owned("Error: image generation model not configured"));
    }
    Ok(image_count(requested))
}

/// The file name under which a generated image is saved: its format from
/// the magic bytes, PNG when unknown.
pub open spec fn spec_generated_image_name(
    model: Seq<char>,
    timestamp: Seq<char>,
    count: nat,
    index: nat,
    bytes: Seq<u8>,
) -> Seq<char> {
    let ext = match spec_image_ext(bytes) {
        Some(e) => e,
        None => "png"@,
    };
    spec_generated_image_path(model, timestamp, count, index, ext)
}

/// The file name under which generated image `index` (of `count` asked for)
/// with contents `bytes` is saved.
pub fn generated_image_name(model: &str, timestamp: &str, count: u32, index: u64, bytes: &[u8]) -> (r:
    String)
    requires
        index < u64::MAX,
        !short_riff(bytes@),
    ensures
        r@ == spec_generated_image_name(model@, timestamp@, count as nat, index as nat, bytes@),
{
    let ext = match detect_image_format(bytes) {
        Some(e) => e,
        None => "png",
    };
    proof {
        reveal_strlit("png");
    }
    generated_image_path(model, timestamp, count, index, ext)
}

/// The JSON string literal that `serde_json` writes for `s`.
pub uninterp spec fn json_string_literal(s: Seq<char>) -> Seq<char>;

/// `s` as a JSON string literal.
///
/// Calls `serde_json::to_string` on the text; the contract names the result,
/// which depends on the text alone.
#[verifier::external_body]
fn json_quote(s: &str) -> (r: String)
    ensures
        r@ == json_string_literal(s@),
{
    serde_json::to_string(s).unwrap_or_default()
}

/// The JSON text of the image tool's answer naming the saved images.
pub open spec fn images_json(saved: Seq<Seq<char>>, media_dir: Seq<char>) -> Seq<char> {
    "{\"generated_images\":["@ + crate::text::join_seq(
        saved.map_values(|p: Seq<char>| json_string_literal(p)),
        ","@,
    ) + "],\"media_dir\":"@ + json_string_literal(media_dir) + "}"@
}

/// The image tool's answer once `returned` images came back and those of
/// `saved` were written: an error when none came back or none could be
/// saved, else the saved paths and the media directory as JSON.
pub open spec fn spec_image_result(returned: nat, saved: Seq<Seq<char>>, media_dir: Seq<char>) -> Seq<
    char,
> {
    if returned == 0 {
        "Error: no images returned from generation API"@
    } else if saved.len() == 0 {
        "Error: failed to save any generated images"@
    } else {
        images_json(saved, media_dir)
    }
}

/// The image tool's answer.
pub fn image_result(returned: usize, saved: &Vec<String>, media_dir: &str) -> (r: String)
    ensures
        r@ == spec_image_result(returned as nat, saved@.map_values(|s: String| s@), media_dir@),
{
    if returned == 0 {
        return to_owned("Error: no images returned from generation API");
    }
    if saved.len() == 0 {
        return to_owned("Error: failed to save any generated images");
    }
    let ghost views = saved@.map_values(|s: String| s@);
    let mut quoted: Vec<String> = Vec::new();
    let n = saved.len();
    let mut i: usize = 0;
    while i < n
        invariant
            n == saved@.len(),
            views == saved@.map_values(|s: String| s@),
            i <= n,
            quoted@.map_values(|s: String| s@) == views.take(i as int).map_values(
                |p: Seq<char>| json_string_literal(p),
            ),
        decreases n - i,
    {
        let q = json_quote(saved[i].as_str());
        let ghost before = quoted@.map_values(|s: String| s@);
        quoted.push(q);
        assert(quoted@.map_values(|s: String| s@) =~= before.push(json_string_literal(views[i as int])));
        assert(views.take(i + 1).map_values(|p: Seq<char>| json_string_literal(p)) =~= views.take(
            i as int,
        ).map_values(|p: Seq<char>| json_string_literal(p)).push(json_string_literal(views[i as int])));
        i += 1;
    }
    assert(views.take(n as int) =~= views);
    let list = crate::text::join(&quoted, ",");
    let mut out = to_owned("{\"generated_images\":[");
    push_str(&mut out, list.as_str());
    push_str(&mut out, "],\"media_dir\":");
    let dir = json_quote(media_dir);
    push_str(&mut out, dir.as_str());
    push_str(&mut out, "}");
    out
}

/// How files go out: with original quality always as documents; otherwise
/// the picture formats (jpg, jpeg, png, gif, webp) as photos, the video
/// formats (mp4, mov, avi, webm) as videos, the sound formats (mp3, ogg,
/// wav, flac) as audio, and any other file as a document.
pub proof fn lemma_media_kinds(ext: Seq<char>, original_quality: bool)
    ensures
        original_quality ==> spec_media_kind(ext, original_quality) == MediaKind::Document,
        !original_quality ==> (spec_media_kind(ext, original_quality) == MediaKind::Photo
            <==> seq!["jpg"@, "jpeg"@, "png"@, "gif"@, "webp"@].contains(ext)),
        !original_quality ==> (spec_media_kind(ext, original_quality) == MediaKind::Video
            <==> seq!["mp4"@, "mov"@, "avi"@, "webm"@].contains(ext)),
        !original_quality ==> (spec_media_kind(ext, original_quality) == MediaKind::Audio
            <==> seq!["mp3"@, "ogg"@, "wav"@, "flac"@].contains(ext)),
{
    reveal_strlit("jpg");
    reveal_strlit("jpeg");
    reveal_strlit("png");
    reveal_strlit("gif");
    reveal_strlit("webp");
    reveal_strlit("mp4");
    reveal_strlit("mov");
    reveal_strlit("avi");
    reveal_strlit("webm");
    reveal_strlit("mp3");
    reveal_strlit("ogg");
    reveal_strlit("wav");
    reveal_strlit("flac");
    assert("jpg"@.len() != "jpeg"@.len());
    assert("jpg"@[0] != "png"@[0]);
    assert("jpg"@[0] != "gif"@[0]);
    assert("jpg"@.len() != "webp"@.len());
    assert("jpg"@[0] != "mp4"@[0]);
    assert("jpg"@[0] != "mov"@[0]);
    assert("jpg"@[0] != "avi"@[0]);
    assert("jpg"@.len() != "webm"@.len());
    assert("jpg"@[0] != "mp3"@[0]);
    assert("jpg"@[0] != "ogg"@[0]);
    assert("jpg"@[0] != "wav"@[0]);
    assert("jpg"@.len() != "flac"@.len());
    assert("jpeg"@.len() != "png"@.len());
    assert("jpeg"@.len() != "gif"@.len());
    assert("jpeg"@[0] != "webp"@[0]);
    assert("jpeg"@.len() != "mp4"@.len());
    assert("jpeg"@.len() != "mov"@.len());
    assert("jpeg"@.len() != "avi"@.len());
    assert("jpeg"@[0] != "webm"@[0]);
    assert("jpeg"@.len() != "mp3"@.len());
    assert("jpeg"@.len() != "ogg"@.len());
    assert("jpeg"@.len() != "wav"@.len());
    assert("jpeg"@[0] != "flac"@[0]);
    assert("png"@[0] != "gif"@[0]);
    assert("png"@.len() != "webp"@.len());
    assert("png"@[0] != "mp4"@[0]);
    assert("png"@[0] != "mov"@[0]);
    assert("png"@[0] != "avi"@[0]);
    assert("png"@.len() != "webm"@.len());
    assert("png"@[0] != "mp3"@[0]);
    assert("png"@[0] != "ogg"@[0]);
    assert("png"@[0] != "wav"@[0]);
    assert("png"@.len() != "flac"@.len());
    assert("gif"@.len() != "webp"@.len());
    assert("gif"@[0] != "mp4"@[0]);
    assert("gif"@[0] != "mov"@[0]);
    assert("gif"@[0] != "avi"@[0]);
    assert("gif"@.len() != "webm"@.len());
    assert("gif"@[0] != "mp3"@[0]);
    assert("gif"@[0] != "ogg"@[0]);
    assert("gif"@[0] != "wav"@[0]);
    assert("gif"@.len() != "flac"@.len());
    assert("webp"@.len() != "mp4"@.len());
    assert("webp"@.len() != "mov"@.len());
    assert("webp"@.len() != "avi"@.len());
    assert("webp"@[3] != "webm"@[3]);
    assert("webp"@.len() != "mp3"@.len());
    assert("webp"@.len() != "ogg"@.len());
    assert("webp"@.len() != "wav"@.len());
    assert("webp"@[0] != "flac"@[0]);
    assert("mp4"@[1] != "mov"@[1]);
    assert("mp4"@[0] != "avi"@[0]);
    assert("mp4"@.len() != "webm"@.len());
    assert("mp4"@[2] != "mp3"@[2]);
    assert("mp4"@[0] != "ogg"@[0]);
    assert("mp4"@[0] != "wav"@[0]);
    assert("mp4"@.len() != "flac"@.len());
    assert("mov"@[0] != "avi"@[0]);
    assert("mov"@.len() != "webm"@.len());
    assert("mov"@[1] != "mp3"@[1]);
    assert("mov"@[0] != "ogg"@[0]);
    assert("mov"@[0] != "wav"@[0]);
    assert("mov"@.len() != "flac"@.len());
    assert("avi"@.len() != "webm"@.len());
    assert("avi"@[0] != "mp3"@[0]);
    assert("avi"@[0] != "ogg"@[0]);
    assert("avi"@[0] != "wav"@[0]);
    assert("avi"@.len() != "flac"@.len());
    assert("webm"@.len() != "mp3"@.len());
    assert("webm"@.len() != "ogg"@.len());
    assert("webm"@.len() != "wav"@.len());
    assert("webm"@[0] != "flac"@[0]);
    assert("mp3"@[0] != "ogg"@[0]);
    assert("mp3"@[0] != "wav"@[0]);
    assert("mp3"@.len() != "flac"@.len());
    assert("ogg"@[0] != "wav"@[0]);
    assert("ogg"@.len() != "flac"@.len());
    assert("wav"@.len() != "flac"@.len());
    let pics = seq!["jpg"@, "jpeg"@, "png"@, "gif"@, "webp"@];
    let vids = seq!["mp4"@, "mov"@, "avi"@, "webm"@];
    let snds = seq!["mp3"@, "ogg"@, "wav"@, "flac"@];
    assert(pics.contains(ext) <==> (ext == "jpg"@ || ext == "jpeg"@ || ext == "png"@ || ext
        == "gif"@ || ext == "webp"@)) by {
        if pics.contains(ext) {
            let k = choose|k: int| 0 <= k < pics.len() && pics[k] == ext;
        }
        if ext == "jpg"@ { assert(pics[0] == ext); }
        if ext == "jpeg"@ { assert(pics[1] == ext); }
        if ext == "png"@ { assert(pics[2] == ext); }
        if ext == "gif"@ { assert(pics[3] == ext); }
        if ext == "webp"@ { assert(pics[4] == ext); }
    }
    assert(vids.contains(ext) <==> (ext == "mp4"@ || ext == "mov"@ || ext == "avi"@ || ext
        == "webm"@)) by {
        if vids.contains(ext) {
            let k = choose|k: int| 0 <= k < vids.len() && vids[k] == ext;
        }
        if ext == "mp4"@ { assert(vids[0] == ext); }
        if ext == "mov"@ { assert(vids[1] == ext); }
        if ext == "avi"@ { assert(vids[2] == ext); }
        if ext == "webm"@ { assert(vids[3] == ext); }
    }
    assert(snds.contains(ext) <==> (ext == "mp3"@ || ext == "ogg"@ || ext == "wav"@ || ext
        == "flac"@)) by {
        if snds.contains(ext) {
            let k = choose|k: int| 0 <= k < snds.len() && snds[k] == ext;
        }
        if ext == "mp3"@ { assert(snds[0] == ext); }
        if ext == "ogg"@ { assert(snds[1] == ext); }
        if ext == "wav"@ { assert(snds[2] == ext); }
        if ext == "flac"@ { assert(snds[3] == ext); }
    }
}

/// The image format is read from the magic bytes at the start: `89 50 4E 47`
/// is PNG, `FF D8 FF` JPEG, `RIFF` with `WEBP` at offset 8 WebP, `GIF8` GIF,
/// and anything else is unknown; bytes after the twelfth do not matter; and
/// the MIME type names the same format (`image/jpeg` for `jpg`), PNG when it
/// is unknown.
pub proof fn lemma_image_format_from_magic(b: Seq<u8>, rest: Seq<u8>)
    ensures
        b.len() >= 4 && b[0] == 0x89 && b[1] == 0x50 && b[2] == 0x4E && b[3] == 0x47 ==> spec_image_ext(b)
            == Some("png"@),
        b.len() >= 3 && b[0] == 0xFF && b[1] == 0xD8 && b[2] == 0xFF ==> spec_image_ext(b) == Some(
            "jpg"@,
        ),
        b.len() >= 12 && b[0] == 0x52 && b[1] == 0x49 && b[2] == 0x46 && b[3] == 0x46 && b[8] == 0x57
            && b[9] == 0x45 && b[10] == 0x42 && b[11] == 0x50 ==> spec_image_ext(b) == Some("webp"@),
        b.len() >= 4 && b[0] == 0x47 && b[1] == 0x49 && b[2] == 0x46 && b[3] == 0x38 ==> spec_image_ext(b)
            == Some("gif"@),
        !(b.len() >= 4 && b[0] == 0x89 && b[1] == 0x50 && b[2] == 0x4E && b[3] == 0x47) && !(b.len()
            >= 3 && b[0] == 0xFF && b[1] == 0xD8 && b[2] == 0xFF) && !(b.len() >= 12 && b[0] == 0x52
            && b[1] == 0x49 && b[2] == 0x46 && b[3] == 0x46 && b[8] == 0x57 && b[9] == 0x45 && b[10]
            == 0x42 && b[11] == 0x50) && !(b.len() >= 4 && b[0] == 0x47 && b[1] == 0x49 && b[2] == 0x46
            && b[3] == 0x38) && !short_riff(b) ==> spec_image_ext(b) is None,
        b.len() >= 12 ==> spec_image_ext(b + rest) == spec_image_ext(b),
        spec_guess_mime(b) == match spec_image_ext(b) {
            Some(e) => "image/"@ + if e == "jpg"@ {
                "jpeg"@
            } else {
                e
            },
            None => "image/png"@,
        },
{
    reveal_strlit("png");
    reveal_strlit("jpg");
    reveal_strlit("jpeg");
    reveal_strlit("webp");
    reveal_strlit("gif");
    reveal_strlit("image/");
    reveal_strlit("image/png");
    reveal_strlit("image/jpeg");
    reveal_strlit("image/webp");
    reveal_strlit("image/gif");
    assert("image/png"@ =~= "image/"@ + "png"@);
    assert("image/jpeg"@ =~= "image/"@ + "jpeg"@);
    assert("image/webp"@ =~= "image/"@ + "webp"@);
    assert("image/gif"@ =~= "image/"@ + "gif"@);
    assert("png"@[0] != "jpg"@[0]);
    assert("webp"@.len() != "jpg"@.len());
    assert("gif"@[0] != "jpg"@[0]);
    if b.len() >= 4 {
        assert(b.subrange(0, 4) =~= seq![b[0], b[1], b[2], b[3]]);
    }
    if b.len() >= 3 {
        assert(b.subrange(0, 3) =~= seq![b[0], b[1], b[2]]);
    }
    if b.len() >= 12 {
        assert(b.subrange(8, 12) =~= seq![b[8], b[9], b[10], b[11]]);
        let c = b + rest;
        assert(c.subrange(0, 4) =~= b.subrange(0, 4));
        assert(c.subrange(0, 3) =~= b.subrange(0, 3));
        assert(c.subrange(8, 12) =~= b.subrange(8, 12));
    }
}

/// A model's short name for file names is taken from the part after its
/// last `/` only, keeps that part's length, and has every `:` and `.` of it
/// turned into `_` and every other character kept.
pub proof fn lemma_model_slug(prefix: Seq<char>, name: Seq<char>)
    requires
        !name.contains('/'),
    ensures
        spec_image_gen_model_id(prefix + seq!['/'] + name) == spec_image_gen_model_id(name),
        spec_image_gen_model_id(name).len() == name.len(),
        forall|i: int|
            0 <= i < name.len() ==> #[trigger] spec_image_gen_model_id(name)[i] == if name[i] == ':'
                || name[i] == '.' {
                '_'
            } else {
                name[i]
            },
{
    let m = prefix + seq!['/'] + name;
    let k = prefix.len() as int;
    assert(m[k] == '/');
    assert(crate::text::is_last_index(m, '/', k)) by {
        assert forall|j: int| k < j < m.len() implies m[j] != '/' by {
            assert(m[j] == name[j - k - 1]);
        }
    }
    assert(m.contains('/'));
    let j = choose|j: int| crate::text::is_last_index(m, '/', j);
    assert(j == k) by {
        if j < k {
            assert(m[k] == '/');
        } else if j > k {
            assert(m[j] == '/');
        }
    }
    assert(m.subrange(k + 1, m.len() as int) =~= name);
    assert(rsplit_once_seq(name, '/') is None);
}

/// An absolute path is used as it is; a relative one is found in the data
/// directory, or in `/media` when only there, and is looked for in the data
/// directory when it is in neither; either way it ends the result.
pub proof fn lemma_resolve_file_path(path: Seq<char>, data_dir: Seq<char>, in_data: bool, in_media: bool)
    ensures
        path.len() > 0 && path[0] == '/' ==> spec_resolve_file_path(path, data_dir, in_data, in_media)
            == path,
        !(path.len() > 0 && path[0] == '/') ==> {
            let r = spec_resolve_file_path(path, data_dir, in_data, in_media);
            let base = if !in_data && in_media {
                "/media"@
            } else {
                data_dir
            };
            &&& crate::text::has_suffix(r, path)
            &&& crate::text::has_prefix(r, base)
            &&& (r == base + path || r == base + "/"@ + path)
        },
{
    let base = if !in_data && in_media {
        "/media"@
    } else {
        data_dir
    };
    let r = spec_resolve_file_path(path, data_dir, in_data, in_media);
    if !(path.len() > 0 && path[0] == '/') {
        assert(r == join_path(base, path));
        if base.len() == 0 || base.last() == '/' {
            assert(r.subrange(r.len() - path.len(), r.len() as int) =~= path);
            assert(r.subrange(0, base.len() as int) =~= base);
        } else {
            assert(r =~= base + ("/"@ + path));
            assert(r.subrange(r.len() - path.len(), r.len() as int) =~= path);
            assert(r.subrange(0, base.len() as int) =~= base);
        }
    }
}
} // verus!
