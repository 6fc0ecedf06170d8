//! Stream descriptors and the format reducer: the closed extension and
//! codec tables, media-type parsing, and the fold of player responses
//! into the emitted stream list.
use vstd::prelude::*;

use crate::chars::{
    all_digits, ascii_lower, chars_eq_str, chars_string, parse_u64, spec_ascii_lower,
    spec_dec_val, spec_is_digit, spec_join, spec_split, spec_trim, split_char, str_chars,
    trim_chars,
};
use crate::client::YtClient;
use crate::err::TydleError;
use crate::jsonx::{spec_get, spec_get_path, JsonVal};

verus! {

broadcast use {vstd::std_specs::vec::group_vec_axioms, vstd::seq::group_seq_axioms};

impl View for YtClient {
    type V = YtClient;

    open spec fn view(&self) -> YtClient {
        *self
    }
}

impl DeepView for YtClient {
    type V = YtClient;

    open spec fn deep_view(&self) -> YtClient {
        *self
    }
}

/// The closed set of container/file extensions.
#[derive(Debug, Clone, Copy, PartialEq, Eq, Structural)]
pub enum Ext {
    Unknown,
    ThreeGp,
    Ts,
    Mp4,
    Mpeg,
    M3u8,
    Mov,
    Webm,
    Vp9,
    Ogv,
    Flv,
    M4v,
    Mkv,
    Mng,
    Asf,
    Wmv,
    Avi,
    Mpd,
    F4m,
    Ism,
    M4a,
    Mp3,
    Mka,
    M3u,
    Aac,
    Flac,
    Mid,
    Ogg,
    Wav,
    Ra,
    Avif,
    Bmp,
    Gif,
    Jpg,
    Png,
    Svg,
    Tif,
    Wbmp,
    Webp,
    Ico,
    Jng,
    Fs,
    Tt,
    Dfxp,
    Ttml,
    Sami,
    Gz,
    Json,
    Xml,
    Zip,
}

pub open spec fn spec_ext_name(e: Ext) -> Seq<char> {
    match e {
        Ext::Unknown => "unknown"@,
        Ext::ThreeGp => "3gp"@,
        Ext::Ts => "ts"@,
        Ext::Mp4 => "mp4"@,
        Ext::Mpeg => "mpeg"@,
        Ext::M3u8 => "m3u8"@,
        Ext::Mov => "mov"@,
        Ext::Webm => "webm"@,
        Ext::Vp9 => "vp9"@,
        Ext::Ogv => "ogv"@,
        Ext::Flv => "flv"@,
        Ext::M4v => "m4v"@,
        Ext::Mkv => "mkv"@,
        Ext::Mng => "mng"@,
        Ext::Asf => "asf"@,
        Ext::Wmv => "wmv"@,
        Ext::Avi => "avi"@,
        Ext::Mpd => "mpd"@,
        Ext::F4m => "f4m"@,
        Ext::Ism => "ism"@,
        Ext::M4a => "m4a"@,
        Ext::Mp3 => "mp3"@,
        Ext::Mka => "mka"@,
        Ext::M3u => "m3u"@,
        Ext::Aac => "aac"@,
        Ext::Flac => "flac"@,
        Ext::Mid => "mid"@,
        Ext::Ogg => "ogg"@,
        Ext::Wav => "wav"@,
        Ext::Ra => "ra"@,
        Ext::Avif => "avif"@,
        Ext::Bmp => "bmp"@,
        Ext::Gif => "gif"@,
        Ext::Jpg => "jpg"@,
        Ext::Png => "png"@,
        Ext::Svg => "svg"@,
        Ext::Tif => "tif"@,
        Ext::Wbmp => "wbmp"@,
        Ext::Webp => "webp"@,
        Ext::Ico => "ico"@,
        Ext::Jng => "jng"@,
        Ext::Fs => "fs"@,
        Ext::Tt => "tt"@,
        Ext::Dfxp => "dfxp"@,
        Ext::Ttml => "ttml"@,
        Ext::Sami => "sami"@,
        Ext::Gz => "gz"@,
        Ext::Json => "json"@,
        Ext::Xml => "xml"@,
        Ext::Zip => "zip"@,
    }
}

impl Ext {
    /// The extension's text.
    pub fn as_str(&self) -> (r: &'static str)
        ensures
            r@ == spec_ext_name(*self),
    {
        match self {
            Ext::Unknown => "unknown",
            Ext::ThreeGp => "3gp",
            Ext::Ts => "ts",
            Ext::Mp4 => "mp4",
            Ext::Mpeg => "mpeg",
            Ext::M3u8 => "m3u8",
            Ext::Mov => "mov",
            Ext::Webm => "webm",
            Ext::Vp9 => "vp9",
            Ext::Ogv => "ogv",
            Ext::Flv => "flv",
            Ext::M4v => "m4v",
            Ext::Mkv => "mkv",
            Ext::Mng => "mng",
            Ext::Asf => "asf",
            Ext::Wmv => "wmv",
            Ext::Avi => "avi",
            Ext::Mpd => "mpd",
            Ext::F4m => "f4m",
            Ext::Ism => "ism",
            Ext::M4a => "m4a",
            Ext::Mp3 => "mp3",
            Ext::Mka => "mka",
            Ext::M3u => "m3u",
            Ext::Aac => "aac",
            Ext::Flac => "flac",
            Ext::Mid => "mid",
            Ext::Ogg => "ogg",
            Ext::Wav => "wav",
            Ext::Ra => "ra",
            Ext::Avif => "avif",
            Ext::Bmp => "bmp",
            Ext::Gif => "gif",
            Ext::Jpg => "jpg",
            Ext::Png => "png",
            Ext::Svg => "svg",
            Ext::Tif => "tif",
            Ext::Wbmp => "wbmp",
            Ext::Webp => "webp",
            Ext::Ico => "ico",
            Ext::Jng => "jng",
            Ext::Fs => "fs",
            Ext::Tt => "tt",
            Ext::Dfxp => "dfxp",
            Ext::Ttml => "ttml",
            Ext::Sami => "sami",
            Ext::Gz => "gz",
            Ext::Json => "json",
            Ext::Xml => "xml",
            Ext::Zip => "zip",
        }
    }
}

/// The closed media-type lookup table.
pub open spec fn spec_mime_map(s: Seq<char>) -> Option<Ext> {
    if s == "3gpp"@ {
        Some(Ext::ThreeGp)
    } else if s == "mp2t"@ {
        Some(Ext::Ts)
    } else if s == "mp4"@ {
        Some(Ext::Mp4)
    } else if s == "mpeg"@ {
        Some(Ext::Mpeg)
    } else if s == "mpegurl"@ {
        Some(Ext::M3u8)
    } else if s == "quicktime"@ {
        Some(Ext::Mov)
    } else if s == "webm"@ {
        Some(Ext::Webm)
    } else if s == "vp9"@ {
        Some(Ext::Vp9)
    } else if s == "video/ogg"@ {
        Some(Ext::Ogv)
    } else if s == "x-flv"@ {
        Some(Ext::Flv)
    } else if s == "x-m4v"@ {
        Some(Ext::M4v)
    } else if s == "x-matroska"@ {
        Some(Ext::Mkv)
    } else if s == "x-mng"@ {
        Some(Ext::Mng)
    } else if s == "x-mp4-fragmented"@ {
        Some(Ext::Mp4)
    } else if s == "x-ms-asf"@ {
        Some(Ext::Asf)
    } else if s == "x-ms-wmv"@ {
        Some(Ext::Wmv)
    } else if s == "x-msvideo"@ {
        Some(Ext::Avi)
    } else if s == "vnd.dlna.mpeg-tts"@ {
        Some(Ext::Mpeg)
    } else if s == "dash+xml"@ {
        Some(Ext::Mpd)
    } else if s == "f4m+xml"@ {
        Some(Ext::F4m)
    } else if s == "hds+xml"@ {
        Some(Ext::F4m)
    } else if s == "vnd.apple.mpegurl"@ {
        Some(Ext::M3u8)
    } else if s == "vnd.ms-sstr+xml"@ {
        Some(Ext::Ism)
    } else if s == "x-mpegurl"@ {
        Some(Ext::M3u8)
    } else if s == "audio/mp4"@ {
        Some(Ext::M4a)
    } else if s == "audio/mpeg"@ {
        Some(Ext::Mp3)
    } else if s == "audio/webm"@ {
        Some(Ext::Webm)
    } else if s == "audio/x-matroska"@ {
        Some(Ext::Mka)
    } else if s == "audio/x-mpegurl"@ {
        Some(Ext::M3u)
    } else if s == "aacp"@ {
        Some(Ext::Aac)
    } else if s == "flac"@ {
        Some(Ext::Flac)
    } else if s == "midi"@ {
        Some(Ext::Mid)
    } else if s == "ogg"@ {
        Some(Ext::Ogg)
    } else if s == "wav"@ {
        Some(Ext::Wav)
    } else if s == "wave"@ {
        Some(Ext::Wav)
    } else if s == "x-aac"@ {
        Some(Ext::Aac)
    } else if s == "x-flac"@ {
        Some(Ext::Flac)
    } else if s == "x-m4a"@ {
        Some(Ext::M4a)
    } else if s == "x-realaudio"@ {
        Some(Ext::Ra)
    } else if s == "x-wav"@ {
        Some(Ext::Wav)
    } else if s == "avif"@ {
        Some(Ext::Avif)
    } else if s == "bmp"@ {
        Some(Ext::Bmp)
    } else if s == "gif"@ {
        Some(Ext::Gif)
    } else if s == "jpeg"@ {
        Some(Ext::Jpg)
    } else if s == "png"@ {
        Some(Ext::Png)
    } else if s == "svg+xml"@ {
        Some(Ext::Svg)
    } else if s == "tiff"@ {
        Some(Ext::Tif)
    } else if s == "vnd.wap.wbmp"@ {
        Some(Ext::Wbmp)
    } else if s == "webp"@ {
        Some(Ext::Webp)
    } else if s == "x-icon"@ {
        Some(Ext::Ico)
    } else if s == "x-jng"@ {
        Some(Ext::Jng)
    } else if s == "x-ms-bmp"@ {
        Some(Ext::Bmp)
    } else if s == "filmstrip+json"@ {
        Some(Ext::Fs)
    } else if s == "smptett+xml"@ {
        Some(Ext::Tt)
    } else if s == "ttaf+xml"@ {
        Some(Ext::Dfxp)
    } else if s == "ttml+xml"@ {
        Some(Ext::Ttml)
    } else if s == "x-ms-sami"@ {
        Some(Ext::Sami)
    } else if s == "gzip"@ {
        Some(Ext::Gz)
    } else if s == "json"@ {
        Some(Ext::Json)
    } else if s == "xml"@ {
        Some(Ext::Xml)
    } else if s == "zip"@ {
        Some(Ext::Zip)
    } else {
        None
    }
}

fn mime_map(v: &[char]) -> (r: Option<Ext>)
    ensures
        r == spec_mime_map(v@),
{
    if chars_eq_str(v, "3gpp") {
        Some(Ext::ThreeGp)
    } else if chars_eq_str(v, "mp2t") {
        Some(Ext::Ts)
    } else if chars_eq_str(v, "mp4") {
        Some(Ext::Mp4)
    } else if chars_eq_str(v, "mpeg") {
        Some(Ext::Mpeg)
    } else if chars_eq_str(v, "mpegurl") {
        Some(Ext::M3u8)
    } else if chars_eq_str(v, "quicktime") {
        Some(Ext::Mov)
    } else if chars_eq_str(v, "webm") {
        Some(Ext::Webm)
    } else if chars_eq_str(v, "vp9") {
        Some(Ext::Vp9)
    } else if chars_eq_str(v, "video/ogg") {
        Some(Ext::Ogv)
    } else if chars_eq_str(v, "x-flv") {
        Some(Ext::Flv)
    } else if chars_eq_str(v, "x-m4v") {
        Some(Ext::M4v)
    } else if chars_eq_str(v, "x-matroska") {
        Some(Ext::Mkv)
    } else if chars_eq_str(v, "x-mng") {
        Some(Ext::Mng)
    } else if chars_eq_str(v, "x-mp4-fragmented") {
        Some(Ext::Mp4)
    } else if chars_eq_str(v, "x-ms-asf") {
        Some(Ext::Asf)
    } else if chars_eq_str(v, "x-ms-wmv") {
        Some(Ext::Wmv)
    } else if chars_eq_str(v, "x-msvideo") {
        Some(Ext::Avi)
    } else if chars_eq_str(v, "vnd.dlna.mpeg-tts") {
        Some(Ext::Mpeg)
    } else if chars_eq_str(v, "dash+xml") {
        Some(Ext::Mpd)
    } else if chars_eq_str(v, "f4m+xml") {
        Some(Ext::F4m)
    } else if chars_eq_str(v, "hds+xml") {
        Some(Ext::F4m)
    } else if chars_eq_str(v, "vnd.apple.mpegurl") {
        Some(Ext::M3u8)
    } else if chars_eq_str(v, "vnd.ms-sstr+xml") {
        Some(Ext::Ism)
    } else if chars_eq_str(v, "x-mpegurl") {
        Some(Ext::M3u8)
    } else if chars_eq_str(v, "audio/mp4") {
        Some(Ext::M4a)
    } else if chars_eq_str(v, "audio/mpeg") {
        Some(Ext::Mp3)
    } else if chars_eq_str(v, "audio/webm") {
        Some(Ext::Webm)
    } else if chars_eq_str(v, "audio/x-matroska") {
        Some(Ext::Mka)
    } else if chars_eq_str(v, "audio/x-mpegurl") {
        Some(Ext::M3u)
    } else if chars_eq_str(v, "aacp") {
        Some(Ext::Aac)
    } else if chars_eq_str(v, "flac") {
        Some(Ext::Flac)
    } else if chars_eq_str(v, "midi") {
        Some(Ext::Mid)
    } else if chars_eq_str(v, "ogg") {
        Some(Ext::Ogg)
    } else if chars_eq_str(v, "wav") {
        Some(Ext::Wav)
    } else if chars_eq_str(v, "wave") {
        Some(Ext::Wav)
    } else if chars_eq_str(v, "x-aac") {
        Some(Ext::Aac)
    } else if chars_eq_str(v, "x-flac") {
        Some(Ext::Flac)
    } else if chars_eq_str(v, "x-m4a") {
        Some(Ext::M4a)
    } else if chars_eq_str(v, "x-realaudio") {
        Some(Ext::Ra)
    } else if chars_eq_str(v, "x-wav") {
        Some(Ext::Wav)
    } else if chars_eq_str(v, "avif") {
        Some(Ext::Avif)
    } else if chars_eq_str(v, "bmp") {
        Some(Ext::Bmp)
    } else if chars_eq_str(v, "gif") {
        Some(Ext::Gif)
    } else if chars_eq_str(v, "jpeg") {
        Some(Ext::Jpg)
    } else if chars_eq_str(v, "png") {
        Some(Ext::Png)
    } else if chars_eq_str(v, "svg+xml") {
        Some(Ext::Svg)
    } else if chars_eq_str(v, "tiff") {
        Some(Ext::Tif)
    } else if chars_eq_str(v, "vnd.wap.wbmp") {
        Some(Ext::Wbmp)
    } else if chars_eq_str(v, "webp") {
        Some(Ext::Webp)
    } else if chars_eq_str(v, "x-icon") {
        Some(Ext::Ico)
    } else if chars_eq_str(v, "x-jng") {
        Some(Ext::Jng)
    } else if chars_eq_str(v, "x-ms-bmp") {
        Some(Ext::Bmp)
    } else if chars_eq_str(v, "filmstrip+json") {
        Some(Ext::Fs)
    } else if chars_eq_str(v, "smptett+xml") {
        Some(Ext::Tt)
    } else if chars_eq_str(v, "ttaf+xml") {
        Some(Ext::Dfxp)
    } else if chars_eq_str(v, "ttml+xml") {
        Some(Ext::Ttml)
    } else if chars_eq_str(v, "x-ms-sami") {
        Some(Ext::Sami)
    } else if chars_eq_str(v, "gzip") {
        Some(Ext::Gz)
    } else if chars_eq_str(v, "json") {
        Some(Ext::Json)
    } else if chars_eq_str(v, "xml") {
        Some(Ext::Xml)
    } else if chars_eq_str(v, "zip") {
        Some(Ext::Zip)
    } else {
        None
    }
}

/// The known video codec prefixes.
pub open spec fn spec_is_video_prefix(p: Seq<char>) -> bool {
    p == "avc1"@
        || p == "avc2"@
        || p == "avc3"@
        || p == "avc4"@
        || p == "vp9"@
        || p == "vp8"@
        || p == "hev1"@
        || p == "hev2"@
        || p == "h263"@
        || p == "h264"@
        || p == "mp4v"@
        || p == "hvc1"@
        || p == "av1"@
        || p == "theora"@
        || p == "dvh1"@
        || p == "dvhe"@
}

fn is_video_prefix(v: &[char]) -> (r: bool)
    ensures
        r == spec_is_video_prefix(v@),
{
    chars_eq_str(v, "avc1")
        || chars_eq_str(v, "avc2")
        || chars_eq_str(v, "avc3")
        || chars_eq_str(v, "avc4")
        || chars_eq_str(v, "vp9")
        || chars_eq_str(v, "vp8")
        || chars_eq_str(v, "hev1")
        || chars_eq_str(v, "hev2")
        || chars_eq_str(v, "h263")
        || chars_eq_str(v, "h264")
        || chars_eq_str(v, "mp4v")
        || chars_eq_str(v, "hvc1")
        || chars_eq_str(v, "av1")
        || chars_eq_str(v, "theora")
        || chars_eq_str(v, "dvh1")
        || chars_eq_str(v, "dvhe")
}

/// The known audio codec prefixes.
pub open spec fn spec_is_audio_prefix(p: Seq<char>) -> bool {
    p == "flac"@
        || p == "mp4a"@
        || p == "opus"@
        || p == "vorbis"@
        || p == "mp3"@
        || p == "aac"@
        || p == "ac-4"@
        || p == "ac-3"@
        || p == "ec-3"@
        || p == "eac3"@
        || p == "dtsc"@
        || p == "dtse"@
        || p == "dtsh"@
        || p == "dtsl"@
}

fn is_audio_prefix(v: &[char]) -> (r: bool)
    ensures
        r == spec_is_audio_prefix(v@),
{
    chars_eq_str(v, "flac")
        || chars_eq_str(v, "mp4a")
        || chars_eq_str(v, "opus")
        || chars_eq_str(v, "vorbis")
        || chars_eq_str(v, "mp3")
        || chars_eq_str(v, "aac")
        || chars_eq_str(v, "ac-4")
        || chars_eq_str(v, "ac-3")
        || chars_eq_str(v, "ec-3")
        || chars_eq_str(v, "eac3")
        || chars_eq_str(v, "dtsc")
        || chars_eq_str(v, "dtse")
        || chars_eq_str(v, "dtsh")
        || chars_eq_str(v, "dtsl")
}

/// What a media type maps to: the whole lowered type, else its subtype,
/// else the subtype's last `+` piece, else unknown.
pub open spec fn spec_mime_to_ext(s: Seq<char>) -> Ext {
    let mime = spec_ascii_lower(spec_trim(spec_split(s, ';')[0]));
    let subtype = spec_split(mime, '/').last();
    let subtype_plus = spec_split(subtype, '+').last();
    match spec_mime_map(mime) {
        Some(e) => e,
        None => match spec_mime_map(subtype) {
            Some(e) => e,
            None => match spec_mime_map(subtype_plus) {
                Some(e) => e,
                None => Ext::Unknown,
            },
        },
    }
}

/// Maps a `mimeType` value to its extension through the closed table.
pub fn mime_type_to_ext(mime_type: &str) -> (r: Ext)
    ensures
        r == spec_mime_to_ext(mime_type@),
{
    let cs = str_chars(mime_type);
    let pieces = split_char(cs.as_slice(), ';');
    proof {
        assert(pieces.deep_view()[0] == pieces@[0]@);
    }
    let mime = ascii_lower(trim_chars(pieces[0].as_slice()).as_slice());
    let slash = split_char(mime.as_slice(), '/');
    proof {
        assert(slash.deep_view().last() == slash@[slash@.len() - 1]@);
    }
    let subtype = &slash[slash.len() - 1];
    let plus = split_char(subtype.as_slice(), '+');
    proof {
        assert(plus.deep_view().last() == plus@[plus@.len() - 1]@);
    }
    let subtype_plus = &plus[plus.len() - 1];
    match mime_map(mime.as_slice()) {
        Some(e) => e,
        None => match mime_map(subtype.as_slice()) {
            Some(e) => e,
            None => match mime_map(subtype_plus.as_slice()) {
                Some(e) => e,
                None => Ext::Unknown,
            },
        },
    }
}

/// Whether `c` is an ASCII letter or digit.
pub open spec fn spec_is_alnum(c: char) -> bool {
    ||| ('A' as u32) <= (c as u32) <= ('Z' as u32)
    ||| ('a' as u32) <= (c as u32) <= ('z' as u32)
    ||| ('0' as u32) <= (c as u32) <= ('9' as u32)
}

pub open spec fn all_alnum(s: Seq<char>) -> bool {
    forall|i: int| 0 <= i < s.len() ==> spec_is_alnum(#[trigger] s[i])
}

fn chars_all_alnum(v: &[char]) -> (r: bool)
    ensures
        r == all_alnum(v@),
{
    let mut i: usize = 0;
    while i < v.len()
        invariant
            0 <= i <= v@.len(),
            forall|j: int| 0 <= j < i ==> spec_is_alnum(#[trigger] v@[j]),
        decreases v@.len() - i,
    {
        let u = v[i] as u32;
        if !((65 <= u && u <= 90) || (97 <= u && u <= 122) || (48 <= u && u <= 57)) {
            assert(!spec_is_alnum(v@[i as int]));
            return false;
        }
        i = i + 1;
    }
    true
}

/// `s` with its leading zeros dropped, keeping at least one digit.
pub open spec fn spec_drop_zeros(s: Seq<char>) -> Seq<char>
    decreases s.len(),
{
    if s.len() > 0 && s[0] == '0' {
        spec_drop_zeros(s.drop_first())
    } else {
        s
    }
}

/// One codec parameter segment, leading zeros stripped when it is all
/// digits.
pub open spec fn spec_clean_seg(seg: Seq<char>) -> Seq<char> {
    if all_digits(seg) {
        if spec_drop_zeros(seg).len() == 0 {
            seq!['0']
        } else {
            spec_drop_zeros(seg)
        }
    } else {
        seg
    }
}

/// The normalized parameter part: segments cleaned, re-joined by `.`.
pub open spec fn spec_clean_params(p: Seq<char>) -> Seq<char> {
    spec_join(spec_split(p, '.').map_values(|seg: Seq<char>| spec_clean_seg(seg)), seq!['.'])
}

fn drop_zeros(v: &[char]) -> (r: Vec<char>)
    ensures
        r@ == spec_drop_zeros(v@),
    decreases v@.len(),
{
    let mut a: usize = 0;
    let nv = v.len();
    proof {
        assert(v@.skip(0) =~= v@);
    }
    while a < nv && v[a] == '0'
        invariant
            0 <= a <= nv,
            nv == v@.len(),
            forall|j: int| 0 <= j < a ==> v@[j] == '0',
            spec_drop_zeros(v@) == spec_drop_zeros(v@.skip(a as int)),
        decreases nv - a,
    {
        proof {
            assert(v@.skip(a as int)[0] == v@[a as int]);
            assert(v@.skip(a as int).drop_first() =~= v@.skip(a + 1));
        }
        a = a + 1;
    }
    let mut r: Vec<char> = Vec::new();
    let mut i: usize = a;
    while i < nv
        invariant
            a <= i <= nv,
            nv == v@.len(),
            r@ == v@.subrange(a as int, i as int),
        decreases nv - i,
    {
        r.push(v[i]);
        proof {
            assert(v@.subrange(a as int, i as int).push(v@[i as int]) =~= v@.subrange(
                a as int,
                i + 1,
            ));
        }
        i = i + 1;
    }
    proof {
        if a < nv {
            assert(v@.skip(a as int)[0] == v@[a as int]);
        }
        assert(v@.subrange(a as int, nv as int) =~= v@.skip(a as int));
        assert(spec_drop_zeros(v@.skip(a as int)) == v@.skip(a as int));
    }
    r
}

fn clean_seg(v: &[char]) -> (r: Vec<char>)
    ensures
        r@ == spec_clean_seg(v@),
{
    let mut digits = true;
    let mut i: usize = 0;
    while i < v.len()
        invariant
            0 <= i <= v@.len(),
            digits == all_digits(v@.take(i as int)),
        decreases v@.len() - i,
    {
        if !crate::chars::is_digit(v[i]) {
            proof {
                assert(v@.take(i + 1)[i as int] == v@[i as int]);
            }
            digits = false;
        }
        proof {
            assert(v@.take(i as int) =~= v@.take(i + 1).take(i as int));
            assert(forall|j: int| 0 <= j < i ==> v@.take(i + 1)[j] == v@.take(i as int)[j]);
            if digits && spec_is_digit(v@[i as int]) {
                assert(all_digits(v@.take(i + 1))) by {
                    assert(forall|j: int|
                        0 <= j < i + 1 ==> #[trigger] v@.take(i + 1)[j] == v@[j]);
                }
            }
        }
        i = i + 1;
    }
    proof {
        assert(v@.take(v@.len() as int) =~= v@);
    }
    if digits {
        let d = drop_zeros(v);
        if d.len() == 0 {
            let mut z: Vec<char> = Vec::new();
            z.push('0');
            proof {
                assert(z@ =~= seq!['0']);
            }
            z
        } else {
            d
        }
    } else {
        let mut r: Vec<char> = Vec::new();
        crate::chars::extend_chars(&mut r, v);
        proof {
            assert(r@ =~= v@);
        }
        r
    }
}

#[verifier::loop_isolation(false)]
fn clean_params(v: &[char]) -> (r: Vec<char>)
    ensures
        r@ == spec_clean_params(v@),
{
    let ghost enc = |seg: Seq<char>| spec_clean_seg(seg);
    let segs = split_char(v, '.');
    let mut out: Vec<char> = Vec::new();
    let n = segs.len();
    let mut i: usize = 0;
    proof {
        assert(segs.deep_view().take(0).map_values(enc) =~= Seq::<Seq<char>>::empty());
    }
    while i < n
        invariant
            0 <= i <= n,
            n == segs@.len(),
            out@ == spec_join(segs.deep_view().take(i as int).map_values(enc), seq!['.']),
        decreases n - i,
    {
        let ghost prefix = segs.deep_view().take(i as int).map_values(enc);
        proof {
            assert(segs.deep_view()[i as int] == segs@[i as int]@);
        }
        let piece = clean_seg(segs[i].as_slice());
        proof {
            crate::chars::lemma_join_push(prefix, seq!['.'], piece@);
            assert(segs.deep_view().take(i + 1).map_values(enc) =~~= prefix.push(piece@));
        }
        if i > 0 {
            out.push('.');
        }
        crate::chars::extend_chars(&mut out, piece.as_slice());
        proof {
            if i == 0 {
                assert(prefix.len() == 0);
                assert(out@ =~= piece@);
            } else {
                assert(prefix.len() > 0);
                assert(out@ =~= spec_join(prefix, seq!['.']) + seq!['.'] + piece@);
            }
        }
        i = i + 1;
    }
    proof {
        assert(segs.deep_view().take(n as int) =~= segs.deep_view());
        assert(spec_split(v@, '.') == segs.deep_view());
    }
    out
}

/// What one trimmed codec token yields: its lowered prefix and the
/// normalized full codec text; nothing for an empty or malformed token.
pub open spec fn spec_piece_codec(piece: Seq<char>) -> Option<(Seq<char>, Seq<char>)> {
    if piece.len() == 0 {
        None
    } else {
        let i = crate::miner::spec_find_char(piece, '.');
        let prefix = if i < 0 {
            piece
        } else {
            piece.take(i)
        };
        if prefix.len() == 0 || !all_alnum(prefix) {
            None
        } else {
            let pl = spec_ascii_lower(prefix);
            let full = if i < 0 {
                pl
            } else {
                pl + seq!['.'] + spec_clean_params(piece.skip(i + 1))
            };
            Some((pl, full))
        }
    }
}

fn piece_codec(piece: &[char]) -> (r: Option<(Vec<char>, Vec<char>)>)
    ensures
        (r matches Some(p) ==> spec_piece_codec(piece@) == Some((p.0@, p.1@))),
        r is None <==> spec_piece_codec(piece@) is None,
{
    if piece.len() == 0 {
        return None;
    }
    let found = crate::chars::find_char(piece, '.');
    proof {
        crate::miner::lemma_find_char_props(piece@, '.');
        let f = crate::miner::spec_find_char(piece@, '.');
        match found {
            Some(i) => {
                assert(f == i as int) by {
                    assert(piece@[i as int] == '.');
                    if f == -1 {
                        assert(piece@[i as int] != '.');
                    }
                    if 0 <= f < i {
                        assert(piece@[f] != '.');
                    }
                    if f > i {
                        assert(piece@[i as int] != '.');
                    }
                }
            },
            None => {
                assert(f == -1) by {
                    if f != -1 {
                        assert(piece@.contains('.')) by {
                            assert(piece@[f] == '.');
                        }
                    }
                }
            },
        }
    }
    let prefix: Vec<char> = match found {
        Some(i) => {
            let mut p: Vec<char> = Vec::new();
            let mut j: usize = 0;
            while j < i
                invariant
                    0 <= j <= i <= piece@.len(),
                    p@ == piece@.take(i as int).take(j as int),
                decreases i - j,
            {
                p.push(piece[j]);
                proof {
                    assert(piece@.take(i as int).take(j as int).push(piece@[j as int])
                        =~= piece@.take(i as int).take(j + 1));
                }
                j = j + 1;
            }
            proof {
                assert(piece@.take(i as int).take(i as int) =~= piece@.take(i as int));
            }
            p
        },
        None => {
            let mut p: Vec<char> = Vec::new();
            crate::chars::extend_chars(&mut p, piece);
            proof {
                assert(p@ =~= piece@);
            }
            p
        },
    };
    if prefix.len() == 0 {
        return None;
    }
    if !chars_all_alnum(prefix.as_slice()) {
        return None;
    }
    let pl = ascii_lower(prefix.as_slice());
    match found {
        Some(i) => {
            let n = piece.len();
            let mut params: Vec<char> = Vec::new();
            let mut k: usize = i + 1;
            proof {
                assert(params@ =~= piece@.skip(i + 1).take(0));
            }
            while k < n
                invariant
                    i + 1 <= k <= n,
                    n == piece@.len(),
                    params@ == piece@.skip(i + 1).take(k - (i + 1)),
                decreases n - k,
            {
                params.push(piece[k]);
                proof {
                    assert(piece@.skip(i + 1)[k - (i + 1)] == piece@[k as int]);
                    assert(piece@.skip(i + 1).take(k - (i + 1)).push(piece@[k as int])
                        =~= piece@.skip(i + 1).take(k + 1 - (i + 1)));
                }
                k = k + 1;
            }
            proof {
                assert(piece@.skip(i + 1).take(n - (i + 1)) =~= piece@.skip(i + 1));
            }
            let cp = clean_params(params.as_slice());
            let mut full: Vec<char> = Vec::new();
            crate::chars::extend_chars(&mut full, pl.as_slice());
            full.push('.');
            crate::chars::extend_chars(&mut full, cp.as_slice());
            proof {
                assert(full@ =~= pl@ + seq!['.'] + cp@);
            }
            Some((pl, full))
        },
        None => {
            let mut full: Vec<char> = Vec::new();
            crate::chars::extend_chars(&mut full, pl.as_slice());
            proof {
                assert(full@ =~= pl@);
            }
            Some((pl, full))
        },
    }
}

/// `s` with its leading and trailing commas dropped.
pub open spec fn spec_trim_commas_front(s: Seq<char>) -> Seq<char>
    decreases s.len(),
{
    if s.len() > 0 && s[0] == ',' {
        spec_trim_commas_front(s.drop_first())
    } else {
        s
    }
}

pub open spec fn spec_trim_commas_back(s: Seq<char>) -> Seq<char>
    decreases s.len(),
{
    if s.len() > 0 && s.last() == ',' {
        spec_trim_commas_back(s.drop_last())
    } else {
        s
    }
}

pub open spec fn spec_trim_commas(s: Seq<char>) -> Seq<char> {
    spec_trim_commas_back(spec_trim_commas_front(s))
}

fn trim_commas(v: &[char]) -> (r: Vec<char>)
    ensures
        r@ == spec_trim_commas(v@),
{
    let nv = v.len();
    let mut a: usize = 0;
    proof {
        assert(v@.skip(0) =~= v@);
    }
    while a < nv && v[a] == ','
        invariant
            0 <= a <= nv,
            nv == v@.len(),
            spec_trim_commas_front(v@) == spec_trim_commas_front(v@.skip(a as int)),
        decreases nv - a,
    {
        proof {
            assert(v@.skip(a as int)[0] == v@[a as int]);
            assert(v@.skip(a as int).drop_first() =~= v@.skip(a + 1));
        }
        a = a + 1;
    }
    proof {
        if a < nv {
            assert(v@.skip(a as int)[0] == v@[a as int]);
        }
        assert(spec_trim_commas_front(v@) == v@.skip(a as int));
    }
    let mut b: usize = nv;
    proof {
        assert(v@.skip(a as int).take(nv - a) =~= v@.skip(a as int));
    }
    while b > a && v[b - 1] == ','
        invariant
            a <= b <= nv,
            nv == v@.len(),
            spec_trim_commas_back(v@.skip(a as int)) == spec_trim_commas_back(
                v@.skip(a as int).take(b - a),
            ),
        decreases b,
    {
        proof {
            assert(v@.skip(a as int).take(b - a).last() == v@[b - 1]);
            assert(v@.skip(a as int).take(b - a).drop_last() =~= v@.skip(a as int).take(
                b - 1 - a,
            ));
            assert(v@.skip(a as int).take(nv - a) =~= v@.skip(a as int));
        }
        b = b - 1;
    }
    proof {
        assert(v@.skip(a as int).take(nv - a) =~= v@.skip(a as int));
        if b > a {
            assert(v@.skip(a as int).take(b - a).last() == v@[b - 1]);
        }
        assert(spec_trim_commas_back(v@.skip(a as int).take(b - a)) == v@.skip(a as int).take(
            b - a,
        ));
    }
    let mut r: Vec<char> = Vec::new();
    let mut i: usize = a;
    while i < b
        invariant
            a <= i <= b <= nv,
            nv == v@.len(),
            r@ == v@.subrange(a as int, i as int),
        decreases b - i,
    {
        r.push(v[i]);
        proof {
            assert(v@.subrange(a as int, i as int).push(v@[i as int]) =~= v@.subrange(
                a as int,
                i + 1,
            ));
        }
        i = i + 1;
    }
    proof {
        assert(v@.subrange(a as int, b as int) =~= v@.skip(a as int).take(b - a));
    }
    r
}

/// The fold that assigns the first video and the first audio codec.
pub open spec fn spec_fold_codecs(
    pieces: Seq<Seq<char>>,
    vc: Option<Seq<char>>,
    ac: Option<Seq<char>>,
) -> (Option<Seq<char>>, Option<Seq<char>>)
    decreases pieces.len(),
{
    if pieces.len() == 0 {
        (vc, ac)
    } else {
        let t = spec_trim(pieces[0]);
        match spec_piece_codec(t) {
            None => spec_fold_codecs(pieces.drop_first(), vc, ac),
            Some(pf) => {
                if spec_is_video_prefix(pf.0) && vc is None {
                    spec_fold_codecs(pieces.drop_first(), Some(pf.1), ac)
                } else if spec_is_audio_prefix(pf.0) && ac is None {
                    spec_fold_codecs(pieces.drop_first(), vc, Some(pf.1))
                } else {
                    spec_fold_codecs(pieces.drop_first(), vc, ac)
                }
            },
        }
    }
}

/// What a `codecs` attribute value parses to: the first video codec and
/// the first audio codec among its comma-separated tokens.
pub open spec fn spec_parse_codecs(s: Seq<char>) -> (Option<Seq<char>>, Option<Seq<char>>) {
    if spec_trim(s).len() == 0 {
        (None, None)
    } else {
        spec_fold_codecs(spec_split(spec_trim_commas(spec_trim(s)), ','), None, None)
    }
}

/// Parses a `codecs` attribute value into `(vcodec, acodec)`.
#[verifier::loop_isolation(false)]
pub fn parse_codecs(codecs: &str) -> (r: Result<(Option<String>, Option<String>), TydleError>)
    ensures
        r is Ok,
        (r matches Ok(p) ==> (p.0.deep_view(), p.1.deep_view()) == spec_parse_codecs(codecs@)),
{
    let cs = str_chars(codecs);
    let t = trim_chars(cs.as_slice());
    if t.len() == 0 {
        return Ok((None, None));
    }
    let tc = trim_commas(t.as_slice());
    let pieces = split_char(tc.as_slice(), ',');
    let mut vc: Option<String> = None;
    let mut ac: Option<String> = None;
    let n = pieces.len();
    let mut i: usize = 0;
    proof {
        assert(pieces.deep_view().skip(0) =~= pieces.deep_view());
    }
    while i < n
        invariant
            0 <= i <= n,
            spec_fold_codecs(pieces.deep_view(), None, None) == spec_fold_codecs(
                pieces.deep_view().skip(i as int),
                vc.deep_view(),
                ac.deep_view(),
            ),
        decreases n - i,
    {
        proof {
            assert(pieces.deep_view().skip(i as int)[0] == pieces.deep_view()[i as int]);
            assert(pieces.deep_view()[i as int] == pieces@[i as int]@);
            assert(pieces.deep_view().skip(i as int).drop_first() =~= pieces.deep_view().skip(
                i + 1,
            ));
        }
        let pt = trim_chars(pieces[i].as_slice());
        match piece_codec(pt.as_slice()) {
            None => {},
            Some(pf) => {
                if is_video_prefix(pf.0.as_slice()) && vc.is_none() {
                    vc = Some(chars_string(pf.1.as_slice()));
                } else if is_audio_prefix(pf.0.as_slice()) && ac.is_none() {
                    ac = Some(chars_string(pf.1.as_slice()));
                }
            },
        }
        i = i + 1;
    }
    proof {
        assert(pieces.deep_view().skip(n as int).len() == 0);
    }
    Ok((vc, ac))
}


/// Where a stream's bytes come from.
#[derive(Debug, Clone, PartialEq, Eq)]
pub enum YtStreamSource {
    URL(String),
    Signature(String),
}

/// The model of a stream source.
pub enum SourceModel {
    Url(Seq<char>),
    Signature(Seq<char>),
}

impl View for YtStreamSource {
    type V = SourceModel;

    open spec fn view(&self) -> SourceModel {
        match self {
            YtStreamSource::URL(s) => SourceModel::Url(s@),
            YtStreamSource::Signature(s) => SourceModel::Signature(s@),
        }
    }
}

/// The named audio track of a format.
#[derive(Debug, Clone)]
pub struct AudioTrackInfo {
    pub display_name: Option<String>,
    pub is_default: bool,
}

/// The codecs of a format.
#[derive(Debug, Clone)]
pub struct Codec {
    pub vcodec: Option<String>,
    pub acodec: Option<String>,
}

/// One emitted stream descriptor.
#[derive(Debug)]
pub struct YtStream {
    /// Audio sample rate.
    pub asr: Option<u64>,
    /// Exact content length in bytes, when the format states it.
    pub file_size: Option<u64>,
    /// Approximate size: duration times bitrate over eight.
    pub file_size_approx: u64,
    pub height: Option<u64>,
    pub width: Option<u64>,
    /// Duration in whole seconds.
    pub format_duration: u64,
    pub has_drm: bool,
    pub itag: Option<i64>,
    pub source: YtStreamSource,
    /// Total bitrate in bits per second.
    pub tbr: i64,
    pub fps: Option<u64>,
    pub audio_track: AudioTrackInfo,
    /// The derived quality text, lower-cased.
    pub quality: String,
    pub quality_label: Option<String>,
    pub is_drc: bool,
    pub projection: Option<String>,
    /// The client whose player response produced this stream.
    pub client: YtClient,
    pub ext: Ext,
    pub codec: Codec,
}

/// The mathematical content of one stream descriptor.
pub struct StreamModel {
    pub asr: Option<nat>,
    pub file_size: Option<nat>,
    pub file_size_approx: nat,
    pub height: Option<nat>,
    pub width: Option<nat>,
    pub format_duration: nat,
    pub has_drm: bool,
    pub itag: Option<int>,
    pub source: SourceModel,
    pub tbr: int,
    pub fps: Option<nat>,
    pub audio_track_name: Option<Seq<char>>,
    pub audio_track_default: bool,
    pub quality: Seq<char>,
    pub quality_label: Option<Seq<char>>,
    pub is_drc: bool,
    pub projection: Option<Seq<char>>,
    pub client: YtClient,
    pub ext: Ext,
    pub vcodec: Option<Seq<char>>,
    pub acodec: Option<Seq<char>>,
}

pub open spec fn opt_nat(v: Option<u64>) -> Option<nat> {
    match v {
        Some(n) => Some(n as nat),
        None => None,
    }
}

pub open spec fn opt_int(v: Option<i64>) -> Option<int> {
    match v {
        Some(n) => Some(n as int),
        None => None,
    }
}

impl View for YtStream {
    type V = StreamModel;

    open spec fn view(&self) -> StreamModel {
        StreamModel {
            asr: opt_nat(self.asr),
            file_size: opt_nat(self.file_size),
            file_size_approx: self.file_size_approx as nat,
            height: opt_nat(self.height),
            width: opt_nat(self.width),
            format_duration: self.format_duration as nat,
            has_drm: self.has_drm,
            itag: opt_int(self.itag),
            source: self.source@,
            tbr: self.tbr as int,
            fps: opt_nat(self.fps),
            audio_track_name: self.audio_track.display_name.deep_view(),
            audio_track_default: self.audio_track.is_default,
            quality: self.quality@,
            quality_label: self.quality_label.deep_view(),
            is_drc: self.is_drc,
            projection: self.projection.deep_view(),
            client: self.client,
            ext: self.ext,
            vcodec: self.codec.vcodec.deep_view(),
            acodec: self.codec.acodec.deep_view(),
        }
    }
}

impl DeepView for YtStream {
    type V = StreamModel;

    open spec fn deep_view(&self) -> StreamModel {
        self.view()
    }
}

/// A string member of `fmt`.
pub open spec fn spec_str_member(fmt: JsonVal, key: Seq<char>) -> Option<Seq<char>> {
    match spec_get(fmt, key) {
        Some(JsonVal::Str(s)) => Some(s@),
        _ => None,
    }
}

/// A non-negative integer member of `fmt`.
pub open spec fn spec_nat_member(fmt: JsonVal, key: Seq<char>) -> Option<nat> {
    match spec_get(fmt, key) {
        Some(JsonVal::Int(n)) => if n >= 0 {
            Some(n as nat)
        } else {
            None
        },
        _ => None,
    }
}

/// A digit-string member of `fmt`, parsed.
pub open spec fn spec_parsed_member(fmt: JsonVal, key: Seq<char>) -> Option<nat> {
    match spec_str_member(fmt, key) {
        Some(s) => if s.len() > 0 && all_digits(s) && spec_dec_val(s) <= u64::MAX {
            Some(spec_dec_val(s))
        } else {
            None
        },
        None => None,
    }
}

/// The itag of a format: its number, or its digits when written as text.
pub open spec fn spec_itag_of(fmt: JsonVal) -> Option<int> {
    match spec_get(fmt, "itag"@) {
        Some(JsonVal::Int(n)) => Some(n as int),
        Some(JsonVal::Str(s)) => if s@.len() > 0 && all_digits(s@) && spec_dec_val(s@)
            <= i64::MAX {
            Some(spec_dec_val(s@) as int)
        } else {
            None
        },
        _ => None,
    }
}

/// The source of a format: its direct URL when it has one, else its
/// signature cipher; none means the format is skipped.
pub open spec fn spec_source_of(fmt: JsonVal) -> Option<SourceModel> {
    match spec_str_member(fmt, "url"@) {
        Some(u) => Some(SourceModel::Url(u)),
        None => match spec_str_member(fmt, "signatureCipher"@) {
            Some(sc) => Some(SourceModel::Signature(sc)),
            None => None,
        },
    }
}

/// The derived quality: `quality` unless missing or `tiny`, then
/// `audioQuality`; `tiny` outright for itag 17; lower-cased.
pub open spec fn spec_quality_of(fmt: JsonVal) -> Seq<char> {
    let q = spec_str_member(fmt, "quality"@);
    let base: Seq<char> = if q is None || q == Some("tiny"@) {
        match spec_str_member(fmt, "audioQuality"@) {
            Some(aq) => aq,
            None => Seq::empty(),
        }
    } else {
        q->0
    };
    if spec_itag_of(fmt) == Some(17int) {
        "tiny"@
    } else {
        spec_ascii_lower(base)
    }
}

/// The total bitrate: `averageBitrate`, else `bitrate`, else 1000.
pub open spec fn spec_tbr_of(fmt: JsonVal) -> int {
    match spec_get(fmt, "averageBitrate"@) {
        Some(JsonVal::Int(n)) => n as int,
        _ => match spec_get(fmt, "bitrate"@) {
            Some(JsonVal::Int(n)) => n as int,
            _ => 1000,
        },
    }
}

/// Duration in whole seconds out of `approxDurationMs`.
pub open spec fn spec_duration_of(fmt: JsonVal) -> nat {
    match spec_parsed_member(fmt, "approxDurationMs"@) {
        Some(ms) => ms / 1000,
        None => 0,
    }
}

/// Approximate size in bytes: duration times bitrate times 125,
/// saturating at the unsigned 64-bit bound.
pub open spec fn spec_approx_size(duration: nat, tbr: int) -> nat {
    let t: nat = if tbr >= 0 {
        tbr as nat
    } else {
        0
    };
    if duration * t * 125 > u64::MAX {
        u64::MAX as nat
    } else {
        duration * t * 125
    }
}

/// The `codecs` attribute inside a `mimeType` value.
pub open spec fn spec_codecs_param(mime: Seq<char>) -> Option<Seq<char>> {
    if crate::chars::has_sub(mime, "codecs=\""@) {
        let i = crate::chars::first_sub_index(mime, "codecs=\""@);
        let rest = mime.skip(i + 8);
        let j = crate::miner::spec_find_char(rest, '"');
        if j < 0 {
            None
        } else {
            Some(rest.take(j))
        }
    } else {
        None
    }
}

/// What one format contributes: nothing for livestream segments, for
/// DRM-protected formats and for formats without a source; otherwise the
/// descriptor built by the reduction rules.
pub open spec fn spec_format_stream(client: YtClient, fmt: JsonVal) -> Option<StreamModel> {
    if spec_get(fmt, "targetDurationSec"@) is Some {
        None
    } else if spec_get(fmt, "drmFamilies"@) is Some || spec_get(fmt, "drm_families"@) is Some {
        None
    } else {
        match spec_source_of(fmt) {
            None => None,
            Some(source) => {
                let mime = spec_str_member(fmt, "mimeType"@);
                let codecs = match mime {
                    Some(m) => match spec_codecs_param(m) {
                        Some(cp) => spec_parse_codecs(cp),
                        None => (None, None),
                    },
                    None => (None, None),
                };
                let duration = spec_duration_of(fmt);
                let tbr = spec_tbr_of(fmt);
                let at = spec_get(fmt, "audioTrack"@);
                Some(
                    StreamModel {
                        asr: match spec_nat_member(fmt, "audioSampleRate"@) {
                            Some(n) => Some(n),
                            None => spec_parsed_member(fmt, "audioSampleRate"@),
                        },
                        file_size: spec_parsed_member(fmt, "contentLength"@),
                        file_size_approx: spec_approx_size(duration, tbr),
                        height: spec_nat_member(fmt, "height"@),
                        width: spec_nat_member(fmt, "width"@),
                        format_duration: duration,
                        has_drm: false,
                        itag: spec_itag_of(fmt),
                        source: source,
                        tbr: tbr,
                        fps: spec_nat_member(fmt, "fps"@),
                        audio_track_name: match at {
                            Some(t) => spec_str_member(t, "displayName"@),
                            None => None,
                        },
                        audio_track_default: match at {
                            Some(t) => match spec_get(t, "audioIsDefault"@) {
                                Some(JsonVal::Bool(b)) => b,
                                _ => false,
                            },
                            None => false,
                        },
                        quality: spec_quality_of(fmt),
                        quality_label: spec_str_member(fmt, "qualityLabel"@),
                        is_drc: match spec_get(fmt, "isDrc"@) {
                            Some(JsonVal::Bool(b)) => b,
                            _ => false,
                        },
                        projection: spec_str_member(fmt, "projectionType"@),
                        client: client,
                        ext: match mime {
                            Some(m) => spec_mime_to_ext(m),
                            None => Ext::Unknown,
                        },
                        vcodec: codecs.0,
                        acodec: codecs.1,
                    },
                )
            },
        }
    }
}

/// Law: no emitted stream comes from a format that has a
/// `targetDurationSec` member, so no livestream segment is emitted.
pub proof fn lemma_livestreams_filtered(client: YtClient, fmt: JsonVal)
    ensures
        spec_get(fmt, "targetDurationSec"@) is Some ==> spec_format_stream(client, fmt) is None,
{
}

/// Law: every emitted stream whose format has itag 17 carries the
/// quality `tiny`.
pub proof fn lemma_itag_17_quality(client: YtClient, fmt: JsonVal)
    ensures
        (spec_format_stream(client, fmt) matches Some(m) ==> (spec_itag_of(fmt) == Some(17int)
            ==> m.quality == "tiny"@)),
{
}


/// A string member, copied out.
fn str_member(fmt: &JsonVal, key: &str) -> (r: Option<String>)
    ensures
        r.deep_view() == spec_str_member(*fmt, key@),
{
    match fmt.get(key) {
        Some(v) => match v.as_str() {
            Some(t) => Some(String::from_str(t)),
            None => None,
        },
        None => None,
    }
}

/// A non-negative integer member.
fn nat_member(fmt: &JsonVal, key: &str) -> (r: Option<u64>)
    ensures
        opt_nat(r) == spec_nat_member(*fmt, key@),
{
    match fmt.get(key) {
        Some(v) => match v.as_i64() {
            Some(n) => if n >= 0 {
                Some(n as u64)
            } else {
                None
            },
            None => None,
        },
        None => None,
    }
}

/// A digit-string member, parsed.
fn parsed_member(fmt: &JsonVal, key: &str) -> (r: Option<u64>)
    ensures
        opt_nat(r) == spec_parsed_member(*fmt, key@),
{
    match fmt.get(key) {
        Some(v) => match v.as_str() {
            Some(t) => {
                let cs = str_chars(t);
                parse_u64(cs.as_slice())
            },
            None => None,
        },
        None => None,
    }
}

fn itag_of(fmt: &JsonVal) -> (r: Option<i64>)
    ensures
        opt_int(r) == spec_itag_of(*fmt),
{
    match fmt.get("itag") {
        Some(v) => match v.as_i64() {
            Some(n) => Some(n),
            None => match v.as_str() {
                Some(t) => {
                    let cs = str_chars(t);
                    match parse_u64(cs.as_slice()) {
                        Some(n) => if n <= 0x7fff_ffff_ffff_ffff {
                            Some(n as i64)
                        } else {
                            None
                        },
                        None => None,
                    }
                },
                None => None,
            },
        },
        None => None,
    }
}

fn source_of(fmt: &JsonVal) -> (r: Option<YtStreamSource>)
    ensures
        (r matches Some(src) ==> spec_source_of(*fmt) == Some(src@)),
        r is None <==> spec_source_of(*fmt) is None,
{
    match str_member(fmt, "url") {
        Some(u) => Some(YtStreamSource::URL(u)),
        None => match str_member(fmt, "signatureCipher") {
            Some(sc) => Some(YtStreamSource::Signature(sc)),
            None => None,
        },
    }
}

fn quality_of(fmt: &JsonVal) -> (r: String)
    ensures
        r@ == spec_quality_of(*fmt),
{
    let q = str_member(fmt, "quality");
    let is_tiny = match &q {
        Some(t) => crate::chars::str_eq(t.as_str(), "tiny"),
        None => true,
    };
    let base: String = if is_tiny {
        match str_member(fmt, "audioQuality") {
            Some(aq) => aq,
            None => String::new(),
        }
    } else {
        match q {
            Some(t) => t,
            None => String::new(),
        }
    };
    let itag_is_17 = match itag_of(fmt) {
        Some(n) => n == 17,
        None => false,
    };
    if itag_is_17 {
        String::from_str("tiny")
    } else {
        let lowered = ascii_lower(str_chars(base.as_str()).as_slice());
        chars_string(lowered.as_slice())
    }
}

fn tbr_of(fmt: &JsonVal) -> (r: i64)
    ensures
        r as int == spec_tbr_of(*fmt),
{
    match fmt.get("averageBitrate") {
        Some(v) => match v.as_i64() {
            Some(n) => n,
            None => match fmt.get("bitrate") {
                Some(w) => match w.as_i64() {
                    Some(n) => n,
                    None => 1000,
                },
                None => 1000,
            },
        },
        None => match fmt.get("bitrate") {
            Some(w) => match w.as_i64() {
                Some(n) => n,
                None => 1000,
            },
            None => 1000,
        },
    }
}

fn duration_of(fmt: &JsonVal) -> (r: u64)
    ensures
        r as nat == spec_duration_of(*fmt),
{
    match parsed_member(fmt, "approxDurationMs") {
        Some(ms) => ms / 1000,
        None => 0,
    }
}

fn approx_size(duration: u64, tbr: i64) -> (r: u64)
    ensures
        r as nat == spec_approx_size(duration as nat, tbr as int),
{
    let t: u64 = if tbr >= 0 {
        tbr as u64
    } else {
        0
    };
    match duration.checked_mul(t) {
        Some(dt) => match dt.checked_mul(125) {
            Some(p) => p,
            None => {
                proof {
                    assert((dt as int) * 125 >= dt as int) by (nonlinear_arith)
                        requires
                            dt as int >= 0,
                    ;
                }
                u64::MAX
            },
        },
        None => {
            proof {
                assert((duration as int) * (t as int) * 125 >= (duration as int) * (t as int))
                    by (nonlinear_arith)
                    requires
                        (duration as int) * (t as int) >= 0,
                ;
            }
            u64::MAX
        },
    }
}

fn codecs_param(mime: &str) -> (r: Option<String>)
    ensures
        r.deep_view() == spec_codecs_param(mime@),
{
    let cs = str_chars(mime);
    proof {
        reveal_strlit("codecs=\"");
    }
    match crate::chars::find_sub(cs.as_slice(), "codecs=\"") {
        Some(i) => {
            let n = cs.len();
            let mut rest: Vec<char> = Vec::new();
            let mut k: usize = i + 8;
            proof {
                assert(i + 8 <= n);
                assert(rest@ =~= cs@.skip(i + 8).take(0));
            }
            while k < n
                invariant
                    i + 8 <= k <= n,
                    n == cs@.len(),
                    rest@ == cs@.skip(i + 8).take(k - (i + 8)),
                decreases n - k,
            {
                rest.push(cs[k]);
                proof {
                    assert(cs@.skip(i + 8)[k - (i + 8)] == cs@[k as int]);
                    assert(cs@.skip(i + 8).take(k - (i + 8)).push(cs@[k as int]) =~= cs@.skip(
                        i + 8,
                    ).take(k + 1 - (i + 8)));
                }
                k = k + 1;
            }
            proof {
                assert(cs@.skip(i + 8).take(n - (i + 8)) =~= cs@.skip(i + 8));
            }
            let found = crate::chars::find_char(rest.as_slice(), '"');
            proof {
                crate::miner::lemma_find_char_props(rest@, '"');
                let f = crate::miner::spec_find_char(rest@, '"');
                match found {
                    Some(j) => {
                        assert(f == j as int) by {
                            assert(rest@[j as int] == '"');
                            if f == -1 {
                                assert(rest@[j as int] != '"');
                            }
                            if 0 <= f < j {
                                assert(rest@[f] != '"');
                            }
                            if f > j {
                                assert(rest@[j as int] != '"');
                            }
                        }
                    },
                    None => {
                        assert(f == -1) by {
                            if f != -1 {
                                assert(rest@.contains('"')) by {
                                    assert(rest@[f] == '"');
                                }
                            }
                        }
                    },
                }
            }
            match found {
                Some(j) => {
                    let mut out: Vec<char> = Vec::new();
                    let mut m: usize = 0;
                    while m < j
                        invariant
                            0 <= m <= j <= rest@.len(),
                            out@ == rest@.take(j as int).take(m as int),
                        decreases j - m,
                    {
                        out.push(rest[m]);
                        proof {
                            assert(rest@.take(j as int).take(m as int).push(rest@[m as int])
                                =~= rest@.take(j as int).take(m + 1));
                        }
                        m = m + 1;
                    }
                    proof {
                        assert(rest@.take(j as int).take(j as int) =~= rest@.take(j as int));
                    }
                    Some(chars_string(out.as_slice()))
                },
                None => None,
            }
        },
        None => None,
    }
}

/// Builds one stream descriptor out of one format object, or skips it.
pub fn format_stream(client: YtClient, fmt: &JsonVal) -> (r: Option<YtStream>)
    ensures
        (r matches Some(s) ==> spec_format_stream(client, *fmt) == Some(s@)),
        r is None <==> spec_format_stream(client, *fmt) is None,
{
    if fmt.get("targetDurationSec").is_some() {
        return None;
    }
    if fmt.get("drmFamilies").is_some() || fmt.get("drm_families").is_some() {
        return None;
    }
    let source = match source_of(fmt) {
        Some(src) => src,
        None => {
            return None;
        },
    };
    let mime = str_member(fmt, "mimeType");
    let codecs: (Option<String>, Option<String>) = match &mime {
        Some(m) => match codecs_param(m.as_str()) {
            Some(cp) => match parse_codecs(cp.as_str()) {
                Ok(p) => p,
                Err(_) => (None, None),
            },
            None => (None, None),
        },
        None => (None, None),
    };
    let duration = duration_of(fmt);
    let tbr = tbr_of(fmt);
    let audio_track: AudioTrackInfo = match fmt.get("audioTrack") {
        Some(t) => AudioTrackInfo {
            display_name: str_member(t, "displayName"),
            is_default: match t.get("audioIsDefault") {
                Some(b) => match b.as_bool() {
                    Some(x) => x,
                    None => false,
                },
                None => false,
            },
        },
        None => AudioTrackInfo { display_name: None, is_default: false },
    };
    let asr = match nat_member(fmt, "audioSampleRate") {
        Some(n) => Some(n),
        None => parsed_member(fmt, "audioSampleRate"),
    };
    let ext = match &mime {
        Some(m) => mime_type_to_ext(m.as_str()),
        None => Ext::Unknown,
    };
    Some(
        YtStream {
            asr,
            file_size: parsed_member(fmt, "contentLength"),
            file_size_approx: approx_size(duration, tbr),
            height: nat_member(fmt, "height"),
            width: nat_member(fmt, "width"),
            format_duration: duration,
            has_drm: false,
            itag: itag_of(fmt),
            source,
            tbr,
            fps: nat_member(fmt, "fps"),
            audio_track,
            quality: quality_of(fmt),
            quality_label: str_member(fmt, "qualityLabel"),
            is_drc: match fmt.get("isDrc") {
                Some(b) => match b.as_bool() {
                    Some(x) => x,
                    None => false,
                },
                None => false,
            },
            projection: str_member(fmt, "projectionType"),
            client,
            ext,
            codec: Codec {
                vcodec: codecs.0,
                acodec: codecs.1,
            },
        },
    )
}

/// The streams a list of format objects contributes, in order.
pub open spec fn spec_streams_of_list(client: YtClient, fmts: Seq<JsonVal>) -> Seq<StreamModel>
    decreases fmts.len(),
{
    if fmts.len() == 0 {
        Seq::empty()
    } else {
        match spec_format_stream(client, fmts[0]) {
            Some(m) => seq![m] + spec_streams_of_list(client, fmts.drop_first()),
            None => spec_streams_of_list(client, fmts.drop_first()),
        }
    }
}

proof fn lemma_streams_push(client: YtClient, fmts: Seq<JsonVal>, f: JsonVal)
    ensures
        spec_streams_of_list(client, fmts.push(f)) == spec_streams_of_list(client, fmts) + (
        match spec_format_stream(client, f) {
            Some(m) => seq![m],
            None => Seq::<StreamModel>::empty(),
        }),
    decreases fmts.len(),
{
    if fmts.len() == 0 {
        assert(fmts.push(f) =~= seq![f]);
        assert(seq![f][0] == f);
        assert(seq![f].drop_first() =~= Seq::<JsonVal>::empty());
        assert(spec_streams_of_list(client, Seq::<JsonVal>::empty())
            =~= Seq::<StreamModel>::empty());
        match spec_format_stream(client, f) {
            Some(m) => {
                assert(spec_streams_of_list(client, seq![f]) =~= seq![m]);
                assert(spec_streams_of_list(client, fmts) + seq![m] =~= seq![m]);
            },
            None => {
                assert(spec_streams_of_list(client, fmts) + Seq::<StreamModel>::empty()
                    =~= Seq::<StreamModel>::empty());
            },
        }
    } else {
        lemma_streams_push(client, fmts.drop_first(), f);
        assert(fmts.push(f).drop_first() =~= fmts.drop_first().push(f));
        assert(fmts.push(f)[0] == fmts[0]);
        let tailopt = (match spec_format_stream(client, f) {
            Some(m) => seq![m],
            None => Seq::<StreamModel>::empty(),
        });
        match spec_format_stream(client, fmts[0]) {
            Some(m) => {
                assert(seq![m] + (spec_streams_of_list(client, fmts.drop_first()) + tailopt)
                    =~= (seq![m] + spec_streams_of_list(client, fmts.drop_first())) + tailopt);
            },
            None => {
            },
        }
    }
}

/// The format objects of one player response: `streamingData.formats`
/// then `streamingData.adaptiveFormats`.
pub open spec fn spec_response_formats(pr: JsonVal) -> Seq<JsonVal> {
    (match spec_get_path(pr, seq!["streamingData"@, "formats"@]) {
        Some(JsonVal::Arr(a)) => a@,
        _ => Seq::<JsonVal>::empty(),
    }) + (match spec_get_path(pr, seq!["streamingData"@, "adaptiveFormats"@]) {
        Some(JsonVal::Arr(a)) => a@,
        _ => Seq::<JsonVal>::empty(),
    })
}

/// What the whole reduction emits: each response's formats folded in
/// order, tagged with the client that produced the response.
pub open spec fn spec_extract_formats(prs: Seq<(YtClient, JsonVal)>) -> Seq<StreamModel>
    decreases prs.len(),
{
    if prs.len() == 0 {
        Seq::empty()
    } else {
        spec_streams_of_list(prs[0].0, spec_response_formats(prs[0].1)) + spec_extract_formats(
            prs.drop_first(),
        )
    }
}

/// Folds one list of format objects into `out`.
#[verifier::loop_isolation(false)]
fn push_streams_of_list(out: &mut Vec<YtStream>, client: YtClient, fmts: &Vec<JsonVal>)
    ensures
        final(out).deep_view() == old(out).deep_view() + spec_streams_of_list(client, fmts@),
{
    let n = fmts.len();
    let mut j: usize = 0;
    proof {
        assert(fmts@.take(0) =~= Seq::<JsonVal>::empty());
        assert(out.deep_view() =~= old(out).deep_view() + spec_streams_of_list(
            client,
            fmts@.take(0),
        ));
    }
    while j < n
        invariant
            0 <= j <= n,
            out.deep_view() == old(out).deep_view() + spec_streams_of_list(
                client,
                fmts@.take(j as int),
            ),
        decreases n - j,
    {
        proof {
            lemma_streams_push(client, fmts@.take(j as int), fmts@[j as int]);
            assert(fmts@.take(j as int).push(fmts@[j as int]) =~= fmts@.take(j + 1));
        }
        let ghost old_dv = out.deep_view();
        match format_stream(client, &fmts[j]) {
            Some(s) => {
                let ghost sm = s.deep_view();
                out.push(s);
                proof {
                    assert(out.deep_view() =~~= old_dv.push(sm));
                    assert(old_dv.push(sm) =~= old_dv + seq![sm]);
                }
            },
            None => {
                proof {
                    assert(spec_streams_of_list(client, fmts@.take(j + 1))
                        =~= spec_streams_of_list(client, fmts@.take(j as int)));
                }
            },
        }
        j = j + 1;
    }
    proof {
        assert(fmts@.take(n as int) =~= fmts@);
    }
}

/// Reduces the accepted player responses to the emitted stream list.
#[verifier::loop_isolation(false)]
pub fn extract_formats(responses: &Vec<(YtClient, JsonVal)>) -> (r: Vec<YtStream>)
    ensures
        r.deep_view() == spec_extract_formats(responses.deep_view()),
{
    let mut out: Vec<YtStream> = Vec::new();
    let n = responses.len();
    let mut i: usize = 0;
    proof {
        assert(out.deep_view() =~= spec_extract_formats(responses.deep_view().take(0)));
    }
    while i < n
        invariant
            0 <= i <= n,
            out.deep_view() == spec_extract_formats(responses.deep_view().take(i as int)),
        decreases n - i,
    {
        let ghost before = out.deep_view();
        let client = responses[i].0;
        let pr = &responses[i].1;
        proof {
            assert(responses.deep_view()[i as int] == (responses@[i as int].0, responses@[
                i as int].1));
            assert(seq!["streamingData"@, "formats"@] =~= ["streamingData", "formats"].deep_view());
            assert(seq!["streamingData"@, "adaptiveFormats"@] =~= [
                "streamingData",
                "adaptiveFormats",
            ].deep_view());
        }
        let fpath = ["streamingData", "formats"];
        let apath = ["streamingData", "adaptiveFormats"];
        let empty_fmts: Vec<JsonVal> = Vec::new();
        proof {
            assert(empty_fmts@ =~= Seq::<JsonVal>::empty());
        }
        let formats: &Vec<JsonVal> = match crate::jsonx::get_path(pr, fpath.as_slice()) {
            Some(v) => match v.as_arr() {
                Some(a) => a,
                None => &empty_fmts,
            },
            None => &empty_fmts,
        };
        let adaptive: &Vec<JsonVal> = match crate::jsonx::get_path(pr, apath.as_slice()) {
            Some(v) => match v.as_arr() {
                Some(a) => a,
                None => &empty_fmts,
            },
            None => &empty_fmts,
        };
        let ghost both = spec_response_formats(responses.deep_view()[i as int].1);
        proof {
            assert(both =~= formats@ + adaptive@);
        }
        push_streams_of_list(&mut out, client, formats);
        push_streams_of_list(&mut out, client, adaptive);
        proof {
            lemma_streams_concat(client, formats@, adaptive@);
            lemma_extract_take_step(responses.deep_view(), i as int);
            assert(out.deep_view() =~= spec_extract_formats(
                responses.deep_view().take(i + 1),
            ));
        }
        i = i + 1;
    }
    proof {
        assert(responses.deep_view().take(n as int) =~= responses.deep_view());
    }
    out
}

/// Folding a concatenation folds each part in order.
proof fn lemma_streams_concat(client: YtClient, f1: Seq<JsonVal>, f2: Seq<JsonVal>)
    ensures
        spec_streams_of_list(client, f1 + f2) == spec_streams_of_list(client, f1)
            + spec_streams_of_list(client, f2),
    decreases f2.len(),
{
    if f2.len() == 0 {
        assert(f1 + f2 =~= f1);
        assert(spec_streams_of_list(client, f1) + spec_streams_of_list(client, f2)
            =~= spec_streams_of_list(client, f1));
    } else {
        lemma_streams_concat(client, f1, f2.drop_last());
        lemma_streams_push(client, f1 + f2.drop_last(), f2.last());
        lemma_streams_push(client, f2.drop_last(), f2.last());
        assert((f1 + f2.drop_last()).push(f2.last()) =~= f1 + f2);
        assert(f2.drop_last().push(f2.last()) =~= f2);
        let tailopt = (match spec_format_stream(client, f2.last()) {
            Some(m) => seq![m],
            None => Seq::<StreamModel>::empty(),
        });
        assert((spec_streams_of_list(client, f1) + spec_streams_of_list(client, f2.drop_last()))
            + tailopt =~= spec_streams_of_list(client, f1) + (spec_streams_of_list(
            client,
            f2.drop_last(),
        ) + tailopt));
    }
}

proof fn lemma_extract_take_step(prs: Seq<(YtClient, JsonVal)>, i: int)
    requires
        0 <= i < prs.len(),
    ensures
        spec_extract_formats(prs.take(i + 1)) == spec_extract_formats(prs.take(i))
            + spec_streams_of_list(prs[i].0, spec_response_formats(prs[i].1)),
    decreases i,
{
    if i == 0 {
        assert(prs.take(1)[0] == prs[0]);
        assert(prs.take(1).drop_first() =~= Seq::<(YtClient, JsonVal)>::empty());
        assert(prs.take(0) =~= Seq::<(YtClient, JsonVal)>::empty());
        assert(spec_extract_formats(Seq::<(YtClient, JsonVal)>::empty())
            =~= Seq::<StreamModel>::empty());
        assert(spec_extract_formats(prs.take(1)) =~= spec_streams_of_list(
            prs[0].0,
            spec_response_formats(prs[0].1),
        ));
        assert(spec_extract_formats(prs.take(0)) + spec_streams_of_list(
            prs[0].0,
            spec_response_formats(prs[0].1),
        ) =~= spec_streams_of_list(prs[0].0, spec_response_formats(prs[0].1)));
    } else {
        lemma_extract_take_step(prs.drop_first(), i - 1);
        assert(prs.take(i + 1)[0] == prs[0]);
        assert(prs.take(i)[0] == prs[0]);
        assert(prs.take(i + 1).drop_first() =~= prs.drop_first().take(i));
        assert(prs.take(i).drop_first() =~= prs.drop_first().take(i - 1));
        assert(prs.drop_first()[i - 1] == prs[i]);
        let part = spec_streams_of_list(prs[i].0, spec_response_formats(prs[i].1));
        assert(spec_streams_of_list(prs[0].0, spec_response_formats(prs[0].1)) + (
        spec_extract_formats(prs.drop_first().take(i - 1)) + part) =~= (spec_streams_of_list(
            prs[0].0,
            spec_response_formats(prs[0].1),
        ) + spec_extract_formats(prs.drop_first().take(i - 1))) + part);
    }
}


/// Whether a stream is audio-only: an audio codec and no video codec.
pub open spec fn spec_is_audio_stream(m: StreamModel) -> bool {
    m.acodec is Some && m.vcodec is None
}

/// Whether a stream carries video.
pub open spec fn spec_is_video_stream(m: StreamModel) -> bool {
    m.vcodec is Some
}

/// Whether a stream matches the selector's kind.
pub open spec fn spec_matches_format(m: StreamModel, format: crate::format::Format) -> bool {
    match format {
        crate::format::Format::BestAudio | crate::format::Format::WorstAudio
            => spec_is_audio_stream(m),
        crate::format::Format::BestVideo | crate::format::Format::WorstVideo
            => spec_is_video_stream(m),
    }
}

/// Whether the selector asks for the highest bitrate.
pub open spec fn spec_wants_highest(format: crate::format::Format) -> bool {
    format == crate::format::Format::BestAudio || format == crate::format::Format::BestVideo
}

/// Picks the stream a format selector asks for: among the streams of the
/// selector's kind, the one with the highest (or lowest) bitrate, the
/// earliest such stream on ties; nothing when no stream matches.
#[verifier::loop_isolation(false)]
pub fn select_stream_index(streams: &Vec<YtStream>, format: crate::format::Format) -> (r: Option<
    usize,
>)
    ensures
        (r matches Some(i) ==> ({
            let dv = streams.deep_view();
            &&& i < dv.len()
            &&& spec_matches_format(dv[i as int], format)
            &&& (forall|j: int|
                0 <= j < dv.len() && spec_matches_format(#[trigger] dv[j], format)
                    ==> (if spec_wants_highest(format) {
                    dv[j].tbr <= dv[i as int].tbr
                } else {
                    dv[j].tbr >= dv[i as int].tbr
                }))
            &&& (forall|j: int|
                0 <= j < i && spec_matches_format(#[trigger] dv[j], format)
                    ==> (if spec_wants_highest(format) {
                    dv[j].tbr < dv[i as int].tbr
                } else {
                    dv[j].tbr > dv[i as int].tbr
                }))
        })),
        r is None <==> (forall|j: int|
            0 <= j < streams.deep_view().len() ==> !spec_matches_format(
                #[trigger] streams.deep_view()[j],
                format,
            )),
{
    let wants_audio = match format {
        crate::format::Format::BestAudio | crate::format::Format::WorstAudio => true,
        _ => false,
    };
    let wants_highest = match format {
        crate::format::Format::BestAudio | crate::format::Format::BestVideo => true,
        _ => false,
    };
    let n = streams.len();
    let mut best: Option<usize> = None;
    let mut i: usize = 0;
    while i < n
        invariant
            0 <= i <= n,
            n == streams@.len(),
            (best matches Some(b) ==> ({
                let dv = streams.deep_view();
                &&& b < i
                &&& spec_matches_format(dv[b as int], format)
                &&& (forall|j: int|
                    0 <= j < i && spec_matches_format(#[trigger] dv[j], format)
                        ==> (if spec_wants_highest(format) {
                        dv[j].tbr <= dv[b as int].tbr
                    } else {
                        dv[j].tbr >= dv[b as int].tbr
                    }))
                &&& (forall|j: int|
                    0 <= j < b && spec_matches_format(#[trigger] dv[j], format)
                        ==> (if spec_wants_highest(format) {
                        dv[j].tbr < dv[b as int].tbr
                    } else {
                        dv[j].tbr > dv[b as int].tbr
                    }))
            })),
            best is None <==> (forall|j: int|
                0 <= j < i ==> !spec_matches_format(#[trigger] streams.deep_view()[j], format)),
        decreases n - i,
    {
        proof {
            assert(streams.deep_view()[i as int] == streams@[i as int].deep_view());
        }
        let matches_kind = if wants_audio {
            streams[i].codec.acodec.is_some() && streams[i].codec.vcodec.is_none()
        } else {
            streams[i].codec.vcodec.is_some()
        };
        if matches_kind {
            match best {
                Some(b) => {
                    let better = if wants_highest {
                        streams[i].tbr > streams[b].tbr
                    } else {
                        streams[i].tbr < streams[b].tbr
                    };
                    if better {
                        best = Some(i);
                    }
                },
                None => {
                    best = Some(i);
                },
            }
        }
        i = i + 1;
    }
    best
}


} // verus!
