use vstd::prelude::*;

use vstd::string::StrSliceExecFns;

use crate::error::Error;

verus! {

/// Two characters are equal once ASCII letters are folded to lower case.
pub open spec fn char_eq_ignore_case(a: char, b: char) -> bool {
    a == b || ('A' <= a <= 'Z' && b as u32 == a as u32 + 32) || ('A' <= b <= 'Z' && a as u32
        == b as u32 + 32)
}

/// Two texts are equal up to ASCII case, character by character.
pub open spec fn ascii_eq(a: Seq<char>, b: Seq<char>) -> bool {
    a.len() == b.len() && forall|i: int| 0 <= i < a.len() ==> char_eq_ignore_case(a[i], b[i])
}

fn char_eq_fold(a: char, b: char) -> (r: bool)
    ensures
        r == char_eq_ignore_case(a, b),
{
    let x = a as u32;
    let y = b as u32;
    x == y || ('A' <= a && a <= 'Z' && y == x + 32) || ('A' <= b && b <= 'Z' && x == y + 32)
}

/// Whether two texts are equal once ASCII letters are folded to lower case.
fn eq_ignore_ascii_case(a: &str, b: &str) -> (r: bool)
    ensures
        r == ascii_eq(a@, b@),
{
    let n = a.unicode_len();
    if n != b.unicode_len() {
        return false;
    }
    let mut i: usize = 0;
    while i < n
        invariant
            n == a@.len(),
            n == b@.len(),
            i <= n,
            forall|k: int| 0 <= k < i ==> char_eq_ignore_case(a@[k], b@[k]),
        decreases n - i,
    {
        if !char_eq_fold(a.get_char(i), b.get_char(i)) {
            return false;
        }
        i = i + 1;
    }
    true
}

/// What `mediatype::MediaType::parse` finds in a text: its top-level type and
/// subtype, or nothing when the text is not a media type.
pub uninterp spec fn media_parts(s: Seq<char>) -> Option<(Seq<char>, Seq<char>)>;

/// Relies on `mediatype::MediaType::parse`, reporting the parsed type and subtype.
#[verifier::external_body]
fn parse_media_type(s: &str) -> (r: Option<(String, String)>)
    ensures
        r matches Some(p) ==> media_parts(s@) == Some((p.0@, p.1@)),
        r is None ==> media_parts(s@) is None,
{
    match mediatype::MediaType::parse(s) {
        Ok(mt) => Some((mt.ty.as_str().to_owned(), mt.subty.as_str().to_owned())),
        Err(_) => None,
    }
}

pub open spec fn lit_image() -> Seq<char> { seq!['i', 'm', 'a', 'g', 'e'] }
pub open spec fn lit_video() -> Seq<char> { seq!['v', 'i', 'd', 'e', 'o'] }

/// An output format that the converter can produce.
#[derive(Debug, Clone, Copy, PartialEq, Eq, Structural)]
pub enum Format {
    Png,
    Jpeg,
    Avif,
    Mp4,
    Av1,
    Vp8,
    Vp9,
}

impl Format {
    /// The format's name, which is also its subtype and its file extension.
    pub open spec fn name(self) -> Seq<char> {
        match self {
            Format::Png => seq!['p', 'n', 'g'],
            Format::Jpeg => seq!['j', 'p', 'e', 'g'],
            Format::Avif => seq!['a', 'v', 'i', 'f'],
            Format::Mp4 => seq!['m', 'p', '4'],
            Format::Av1 => seq!['a', 'v', '1'],
            Format::Vp8 => seq!['v', 'p', '8'],
            Format::Vp9 => seq!['v', 'p', '9'],
        }
    }

    pub open spec fn is_video(self) -> bool {
        match self {
            Format::Png | Format::Jpeg | Format::Avif => false,
            _ => true,
        }
    }

    /// The top-level media type the format belongs to.
    pub open spec fn top_level(self) -> Seq<char> {
        if self.is_video() { lit_video() } else { lit_image() }
    }

    /// The file extension of the format.
    pub fn extension(&self) -> (r: &'static str)
        ensures
            r@ == self.name(),
    {
        match self {
            Format::Png => { proof { reveal_strlit("png"); } "png" },
            Format::Jpeg => { proof { reveal_strlit("jpeg"); } "jpeg" },
            Format::Avif => { proof { reveal_strlit("avif"); } "avif" },
            Format::Mp4 => { proof { reveal_strlit("mp4"); } "mp4" },
            Format::Av1 => { proof { reveal_strlit("av1"); } "av1" },
            Format::Vp8 => { proof { reveal_strlit("vp8"); } "vp8" },
            Format::Vp9 => { proof { reveal_strlit("vp9"); } "vp9" },
        }
    }

    /// The format with the given name, ignoring ASCII case.
    pub fn from_name(s: &str) -> (r: Option<Format>)
        ensures
            r == format_named(s@),
    {
        if Self::named(s, Format::Png) {
            Some(Format::Png)
        } else if Self::named(s, Format::Jpeg) {
            Some(Format::Jpeg)
        } else if Self::named(s, Format::Avif) {
            Some(Format::Avif)
        } else if Self::named(s, Format::Mp4) {
            Some(Format::Mp4)
        } else if Self::named(s, Format::Av1) {
            Some(Format::Av1)
        } else if Self::named(s, Format::Vp8) {
            Some(Format::Vp8)
        } else if Self::named(s, Format::Vp9) {
            Some(Format::Vp9)
        } else {
            None
        }
    }

    fn named(s: &str, f: Format) -> (r: bool)
        ensures
            r == ascii_eq(s@, f.name()),
    {
        eq_ignore_ascii_case(s, f.extension())
    }
}

/// The format named by a text, trying the names in a fixed order.
pub open spec fn format_named(s: Seq<char>) -> Option<Format> {
    if ascii_eq(s, Format::Png.name()) {
        Some(Format::Png)
    } else if ascii_eq(s, Format::Jpeg.name()) {
        Some(Format::Jpeg)
    } else if ascii_eq(s, Format::Avif.name()) {
        Some(Format::Avif)
    } else if ascii_eq(s, Format::Mp4.name()) {
        Some(Format::Mp4)
    } else if ascii_eq(s, Format::Av1.name()) {
        Some(Format::Av1)
    } else if ascii_eq(s, Format::Vp8.name()) {
        Some(Format::Vp8)
    } else if ascii_eq(s, Format::Vp9.name()) {
        Some(Format::Vp9)
    } else {
        None
    }
}

/// The allow-list: images in png, jpeg or avif, videos in mp4, av1, vp8 or vp9,
/// compared without regard to ASCII case.
pub open spec fn supported_pair(ty: Seq<char>, subty: Seq<char>) -> bool {
    ||| ascii_eq(ty, lit_image()) && (ascii_eq(subty, Format::Png.name()) || ascii_eq(
        subty,
        Format::Jpeg.name(),
    ) || ascii_eq(subty, Format::Avif.name()))
    ||| ascii_eq(ty, lit_video()) && (ascii_eq(subty, Format::Mp4.name()) || ascii_eq(
        subty,
        Format::Av1.name(),
    ) || ascii_eq(subty, Format::Vp8.name()) || ascii_eq(subty, Format::Vp9.name()))
}

/// The format that a (type, subtype) pair stands for, when the pair is allowed.
pub open spec fn media_format(ty: Seq<char>, subty: Seq<char>) -> Option<Format> {
    if supported_pair(ty, subty) { format_named(subty) } else { None }
}

/// Outcome of gating a media-type text: unparseable text and an unsupported
/// type are distinct errors.
pub open spec fn gate_result(parts: Option<(Seq<char>, Seq<char>)>) -> Result<Format, Error> {
    match parts {
        None => Err(Error::InvalidMediaType),
        Some((ty, subty)) => match media_format(ty, subty) {
            Some(f) => Ok(f),
            None => Err(Error::MimeNotSupported),
        },
    }
}

/// The media-type gate.
pub struct Converter;

impl Converter {
    /// Whether the converter can produce the media type `ty/subty`.
    pub fn is_mime_supported(ty: &str, subty: &str) -> (r: bool)
        ensures
            r == supported_pair(ty@, subty@),
    {
        proof {
            reveal_strlit("image");
            reveal_strlit("video");
        }
        if eq_ignore_ascii_case(ty, "image") {
            Format::named(subty, Format::Png) || Format::named(subty, Format::Jpeg)
                || Format::named(subty, Format::Avif)
        } else if eq_ignore_ascii_case(ty, "video") {
            Format::named(subty, Format::Mp4) || Format::named(subty, Format::Av1)
                || Format::named(subty, Format::Vp8) || Format::named(subty, Format::Vp9)
        } else {
            false
        }
    }

    /// The format of a parsed media type, when the converter supports it.
    pub fn format_of(ty: &str, subty: &str) -> (r: Option<Format>)
        ensures
            r == media_format(ty@, subty@),
    {
        if Self::is_mime_supported(ty, subty) {
            Format::from_name(subty)
        } else {
            None
        }
    }

    /// Gates a media-type text such as `image/png`.
    pub fn check_media_type(s: &str) -> (r: Result<Format, Error>)
        ensures
            r == gate_result(media_parts(s@)),
    {
        match parse_media_type(s) {
            None => Err(Error::InvalidMediaType),
            Some((ty, subty)) => match Self::format_of(ty.as_str(), subty.as_str()) {
                Some(f) => Ok(f),
                None => Err(Error::MimeNotSupported),
            },
        }
    }
}

} // verus!
