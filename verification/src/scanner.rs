//! Classification of files for the video library: extracting a path's
//! extension and deciding, against a configuration, whether a file is a
//! supported video and which MIME type it carries.

use vstd::prelude::*;

use crate::strutil::{lower_seq, str_lower_eq};
use crate::types::{format_eq, VideoFormat, VideoLibraryConfig};

verus! {

/// Where the final path component starts: just past the last `'/'`, or the
/// beginning when the path holds none.
pub open spec fn file_name_start(path: Seq<char>) -> int
    decreases path.len(),
{
    if path.len() == 0 {
        0
    } else if path[path.len() - 1] == '/' {
        path.len() as int
    } else {
        file_name_start(path.drop_last())
    }
}

/// The index of the last `'.'` in `name`, or `-1` when there is none.
pub open spec fn last_dot(name: Seq<char>) -> int
    decreases name.len(),
{
    if name.len() == 0 {
        -1
    } else if name[name.len() - 1] == '.' {
        name.len() - 1
    } else {
        last_dot(name.drop_last())
    }
}

/// The extension of a path: the text after the last `'.'` of whatever
/// follows the last `'/'`, unless that text has no `'.'` past its first
/// character.  A path ending in `'/'` therefore has no extension here,
/// where `std::path::Path` would first strip the trailing separator; the
/// divergence is deliberate and harmless, because classification is fed
/// file paths from a directory walk, which never end in a separator — and
/// a directory named like a video is not a video file.
pub open spec fn spec_extension(path: Seq<char>) -> Option<Seq<char>> {
    let name = path.subrange(file_name_start(path), path.len() as int);
    let j = last_dot(name);
    if j <= 0 {
        None
    } else {
        Some(name.subrange(j + 1, name.len() as int))
    }
}

proof fn lemma_file_name_start_eq(path: Seq<char>, k: int)
    requires
        0 <= k <= path.len(),
        k > 0 ==> path[k - 1] == '/',
        forall|i: int| k <= i < path.len() ==> path[i] != '/',
    ensures
        k == file_name_start(path),
    decreases path.len(),
{
    if path.len() == 0 {
    } else if path[path.len() - 1] == '/' {
        assert(k == path.len());
    } else {
        assert(k < path.len());
        let prefix = path.drop_last();
        assert(forall|i: int| k <= i < prefix.len() ==> prefix[i] != '/');
        lemma_file_name_start_eq(prefix, k);
    }
}

proof fn lemma_last_dot_eq(name: Seq<char>, j: int)
    requires
        -1 <= j < name.len(),
        j >= 0 ==> name[j] == '.',
        forall|i: int| j < i < name.len() ==> name[i] != '.',
    ensures
        j == last_dot(name),
    decreases name.len(),
{
    if name.len() == 0 {
    } else if name[name.len() - 1] == '.' {
        assert(j == name.len() - 1);
    } else {
        assert(j < name.len() - 1);
        let prefix = name.drop_last();
        assert(forall|i: int| j < i < prefix.len() ==> prefix[i] != '.');
        lemma_last_dot_eq(prefix, j);
    }
}

/// Finds where the final path component starts.
fn find_name_start(path: &str) -> (k: usize)
    ensures
        k as int == file_name_start(path@),
{
    let n = path.unicode_len();
    let mut k: usize = n;
    while k > 0
        invariant
            k <= n,
            n == path@.len(),
            forall|i: int| k <= i < n ==> path@[i] != '/',
        decreases k,
    {
        if path.get_char(k - 1) == '/' {
            proof {
                lemma_file_name_start_eq(path@, k as int);
            }
            return k;
        }
        k = k - 1;
    }
    proof {
        lemma_file_name_start_eq(path@, 0);
    }
    0
}

/// The extension of `path`, if it has one: the text after the last `'.'`
/// of whatever follows the last `'/'`, and none at all when that text has
/// no `'.'` past its first character.  For file paths this agrees with
/// `std::path::Path::extension`; see `spec_extension` for the one
/// divergence, paths ending in a separator.
pub fn extension_of(path: &str) -> (r: Option<&str>)
    ensures
        r matches Some(e) ==> spec_extension(path@) == Some(e@),
        r is None ==> spec_extension(path@) is None,
{
    let n = path.unicode_len();
    let start = find_name_start(path);
    proof {
        assert(0 <= file_name_start(path@) <= n) by {
            lemma_file_name_start_bounds(path@);
        }
    }
    let ghost name = path@.subrange(start as int, n as int);
    let mut k: usize = n;
    while k > start
        invariant
            start <= k <= n,
            n == path@.len(),
            start as int == file_name_start(path@),
            name == path@.subrange(start as int, n as int),
            forall|i: int| k <= i < n ==> path@[i] != '.',
        decreases k,
    {
        if path.get_char(k - 1) == '.' {
            proof {
                assert(forall|i: int| k - 1 - start < i < name.len() ==> name[i] != '.');
                lemma_last_dot_eq(name, k - 1 - start);
            }
            if k - 1 == start {
                return None;
            }
            let e = path.substring_char(k, n);
            proof {
                assert(name.subrange(
                    k - start,
                    name.len() as int,
                ) =~= path@.subrange(k as int, n as int));
            }
            return Some(e);
        }
        k = k - 1;
    }
    proof {
        assert(forall|i: int| -1 < i < name.len() ==> name[i] != '.');
        lemma_last_dot_eq(name, -1);
    }
    None
}

proof fn lemma_file_name_start_bounds(path: Seq<char>)
    ensures
        0 <= file_name_start(path) <= path.len(),
    decreases path.len(),
{
    if path.len() > 0 && path[path.len() - 1] != '/' {
        lemma_file_name_start_bounds(path.drop_last());
    }
}

/// Is `l` (already lower-cased) one of the extensions with a known container?
pub open spec fn known_ext(l: Seq<char>) -> bool {
    ||| l == "mp4"@
    ||| l == "avi"@
    ||| l == "mkv"@
    ||| l == "mov"@
    ||| l == "wmv"@
    ||| l == "flv"@
    ||| l == "webm"@
    ||| l == "m4v"@
}

/// Does the configured format `f` claim the file extension `e`?  A known
/// container claims its own extension case-insensitively; an unknown one
/// claims exactly the unknown extensions it was configured with.
pub open spec fn ext_matches_format(f: VideoFormat, e: Seq<char>) -> bool {
    match f {
        VideoFormat::MP4 => lower_seq(e) == "mp4"@,
        VideoFormat::AVI => lower_seq(e) == "avi"@,
        VideoFormat::MKV => lower_seq(e) == "mkv"@,
        VideoFormat::MOV => lower_seq(e) == "mov"@,
        VideoFormat::WMV => lower_seq(e) == "wmv"@,
        VideoFormat::FLV => lower_seq(e) == "flv"@,
        VideoFormat::WEBM => lower_seq(e) == "webm"@,
        VideoFormat::M4V => lower_seq(e) == "m4v"@,
        VideoFormat::Unknown(s) => !known_ext(lower_seq(e)) && s@ == lower_seq(e),
    }
}

/// Does any format of `formats` claim the extension `e`?
pub open spec fn ext_supported(formats: Seq<VideoFormat>, e: Seq<char>) -> bool {
    exists|i: int| 0 <= i < formats.len() && ext_matches_format(formats[i], e)
}

/// Is the file at `path` a video some configured format claims?
pub open spec fn spec_is_video_file(formats: Seq<VideoFormat>, path: Seq<char>) -> bool {
    match spec_extension(path) {
        Some(e) => ext_supported(formats, e),
        None => false,
    }
}

/// The MIME type that goes with the extension `e`.
pub open spec fn ext_mime(e: Seq<char>) -> Seq<char> {
    let l = lower_seq(e);
    if l == "mp4"@ {
        "video/mp4"@
    } else if l == "avi"@ {
        "video/x-msvideo"@
    } else if l == "mkv"@ {
        "video/x-matroska"@
    } else if l == "mov"@ {
        "video/quicktime"@
    } else if l == "wmv"@ {
        "video/x-ms-wmv"@
    } else if l == "flv"@ {
        "video/x-flv"@
    } else if l == "webm"@ {
        "video/webm"@
    } else if l == "m4v"@ {
        "video/x-m4v"@
    } else {
        "video/unknown"@
    }
}

/// The MIME type `VideoScanner::get_mime_type` owes for `path`.
pub open spec fn spec_get_mime_type(formats: Seq<VideoFormat>, path: Seq<char>) -> Option<
    Seq<char>,
> {
    match spec_extension(path) {
        Some(e) => if ext_supported(formats, e) {
            Some(ext_mime(e))
        } else {
            None
        },
        None => None,
    }
}

/// Decides whether `f` claims the extension `ext`.
fn format_matches_ext(f: &VideoFormat, ext: &str) -> (r: bool)
    ensures
        r == ext_matches_format(*f, ext@),
{
    match f {
        VideoFormat::MP4 => str_lower_eq(ext, "mp4"),
        VideoFormat::AVI => str_lower_eq(ext, "avi"),
        VideoFormat::MKV => str_lower_eq(ext, "mkv"),
        VideoFormat::MOV => str_lower_eq(ext, "mov"),
        VideoFormat::WMV => str_lower_eq(ext, "wmv"),
        VideoFormat::FLV => str_lower_eq(ext, "flv"),
        VideoFormat::WEBM => str_lower_eq(ext, "webm"),
        VideoFormat::M4V => str_lower_eq(ext, "m4v"),
        VideoFormat::Unknown(s) => !is_known_ext(ext) && str_lower_eq(ext, s.as_str()),
    }
}

/// Decides whether `ext` lower-cases to a known container's extension.
fn is_known_ext(ext: &str) -> (r: bool)
    ensures
        r == known_ext(lower_seq(ext@)),
{
    str_lower_eq(ext, "mp4") || str_lower_eq(ext, "avi") || str_lower_eq(ext, "mkv")
        || str_lower_eq(ext, "mov") || str_lower_eq(ext, "wmv") || str_lower_eq(ext, "flv")
        || str_lower_eq(ext, "webm") || str_lower_eq(ext, "m4v")
}

/// A scanner that classifies files against a library configuration.
pub struct VideoScanner {
    config: VideoLibraryConfig,
}

impl VideoScanner {
    /// The configuration this scanner classifies against.
    pub closed spec fn spec_config(&self) -> VideoLibraryConfig {
        self.config
    }

    /// The formats this scanner accepts.
    pub open spec fn spec_formats(&self) -> Seq<VideoFormat> {
        self.spec_config().supported_formats@
    }

    pub fn new(config: VideoLibraryConfig) -> (r: Self)
        ensures
            r.spec_config() == config,
    {
        Self { config }
    }

    /// Decides whether `format` is one of the configured formats.
    pub fn is_supported_format(&self, format: &VideoFormat) -> (r: bool)
        ensures
            r == exists|i: int|
                0 <= i < self.spec_formats().len() && format_eq(self.spec_formats()[i], *format),
    {
        let formats = &self.config.supported_formats;
        let n = formats.len();
        let mut k: usize = 0;
        while k < n
            invariant
                k <= n,
                n == self.spec_formats().len(),
                formats@ == self.spec_formats(),
                forall|i: int| 0 <= i < k ==> !format_eq(self.spec_formats()[i], *format),
            decreases n - k,
        {
            if formats[k].eq(format) {
                return true;
            }
            k = k + 1;
        }
        false
    }

    /// Decides whether any configured format claims the extension `ext`.
    fn ext_is_supported(&self, ext: &str) -> (r: bool)
        ensures
            r == ext_supported(self.spec_formats(), ext@),
    {
        let formats = &self.config.supported_formats;
        let n = formats.len();
        let mut k: usize = 0;
        while k < n
            invariant
                k <= n,
                n == self.spec_formats().len(),
                formats@ == self.spec_formats(),
                forall|i: int| 0 <= i < k ==> !ext_matches_format(self.spec_formats()[i], ext@),
            decreases n - k,
        {
            if format_matches_ext(&formats[k], ext) {
                return true;
            }
            k = k + 1;
        }
        false
    }

    /// The sorted extensions of the configured formats, without duplicates.
    pub fn get_supported_extensions(&self) -> (r: Vec<String>)
        ensures
            r@.map_values(|s: String| s@) == spec_supported_extensions(self.spec_formats()),
    {
        let ghost fmts = self.spec_formats();
        let mut flags: Vec<(bool, &'static str)> = Vec::new();
        flags.push((self.is_supported_format(&VideoFormat::AVI), "avi"));
        flags.push((self.is_supported_format(&VideoFormat::FLV), "flv"));
        flags.push((self.is_supported_format(&VideoFormat::M4V), "m4v"));
        flags.push((self.is_supported_format(&VideoFormat::MKV), "mkv"));
        flags.push((self.is_supported_format(&VideoFormat::MOV), "mov"));
        flags.push((self.is_supported_format(&VideoFormat::MP4), "mp4"));
        flags.push((self.is_supported_format(&VideoFormat::WEBM), "webm"));
        flags.push((self.is_supported_format(&VideoFormat::WMV), "wmv"));
        proof {
            assert(flags@.map_values(|p: (bool, &'static str)| (p.0, p.1@)) =~= format_flag_table(
                fmts,
            ));
        }
        exts_from_flags(flags)
    }

    /// Decides whether the file at `path` is a video of a supported format.
    pub fn is_video_file(&self, path: &str) -> (r: bool)
        ensures
            r == spec_is_video_file(self.spec_formats(), path@),
    {
        match extension_of(path) {
            Some(ext) => self.ext_is_supported(ext),
            None => false,
        }
    }

    /// The MIME type of the file at `path`, if it is a supported video.
    pub fn get_mime_type(&self, path: &str) -> (r: Option<String>)
        ensures
            r matches Some(m) ==> spec_get_mime_type(self.spec_formats(), path@) == Some(m@),
            r is None ==> spec_get_mime_type(self.spec_formats(), path@) is None,
    {
        match extension_of(path) {
            Some(ext) => {
                if self.ext_is_supported(ext) {
                    Some(mime_for_ext(ext))
                } else {
                    None
                }
            },
            None => None,
        }
    }
}

/// The MIME type string for the extension `ext`.
fn mime_for_ext(ext: &str) -> (r: String)
    ensures
        r@ == ext_mime(ext@),
{
    if str_lower_eq(ext, "mp4") {
        String::from_str("video/mp4")
    } else if str_lower_eq(ext, "avi") {
        String::from_str("video/x-msvideo")
    } else if str_lower_eq(ext, "mkv") {
        String::from_str("video/x-matroska")
    } else if str_lower_eq(ext, "mov") {
        String::from_str("video/quicktime")
    } else if str_lower_eq(ext, "wmv") {
        String::from_str("video/x-ms-wmv")
    } else if str_lower_eq(ext, "flv") {
        String::from_str("video/x-flv")
    } else if str_lower_eq(ext, "webm") {
        String::from_str("video/webm")
    } else if str_lower_eq(ext, "m4v") {
        String::from_str("video/x-m4v")
    } else {
        String::from_str("video/unknown")
    }
}

/// One entry when `present` holds, none otherwise.
pub open spec fn opt_ext(present: bool, e: Seq<char>) -> Seq<Seq<char>> {
    if present {
        seq![e]
    } else {
        Seq::empty()
    }
}

/// Does `formats` hold a format equal to `f`?
pub open spec fn has_format(formats: Seq<VideoFormat>, f: VideoFormat) -> bool {
    exists|i: int| 0 <= i < formats.len() && format_eq(formats[i], f)
}

/// The extensions whose flag is set, in the order of the table.
pub open spec fn flag_exts(l: Seq<(bool, Seq<char>)>) -> Seq<Seq<char>>
    decreases l.len(),
{
    if l.len() == 0 {
        Seq::empty()
    } else {
        opt_ext(l[0].0, l[0].1) + flag_exts(l.drop_first())
    }
}

/// The known containers' extensions in sorted order, each flagged with
/// whether `formats` holds its container.
pub open spec fn format_flag_table(formats: Seq<VideoFormat>) -> Seq<(bool, Seq<char>)> {
    seq![
        (has_format(formats, VideoFormat::AVI), "avi"@),
        (has_format(formats, VideoFormat::FLV), "flv"@),
        (has_format(formats, VideoFormat::M4V), "m4v"@),
        (has_format(formats, VideoFormat::MKV), "mkv"@),
        (has_format(formats, VideoFormat::MOV), "mov"@),
        (has_format(formats, VideoFormat::MP4), "mp4"@),
        (has_format(formats, VideoFormat::WEBM), "webm"@),
        (has_format(formats, VideoFormat::WMV), "wmv"@),
    ]
}

/// The extension list `VideoScanner::get_supported_extensions` owes:
/// the known containers' extensions, in sorted order, each at most once.
pub open spec fn spec_supported_extensions(formats: Seq<VideoFormat>) -> Seq<Seq<char>> {
    flag_exts(format_flag_table(formats))
}

/// The extension strings whose flag is set, in table order.
#[verifier::loop_isolation(false)]
fn exts_from_flags(flags: Vec<(bool, &'static str)>) -> (r: Vec<String>)
    ensures
        r@.map_values(|s: String| s@) == flag_exts(
            flags@.map_values(|p: (bool, &'static str)| (p.0, p.1@)),
        ),
{
    let ghost view_of = |s: String| s@;
    let ghost table = flags@.map_values(|p: (bool, &'static str)| (p.0, p.1@));
    let n = flags.len();
    let mut v: Vec<String> = Vec::new();
    let mut i: usize = 0;
    proof {
        assert(table.subrange(0, table.len() as int) =~= table);
    }
    while i < n
        invariant
            i <= n,
            n == flags@.len(),
            table == flags@.map_values(|p: (bool, &'static str)| (p.0, p.1@)),
            flag_exts(table) == v@.map_values(view_of) + flag_exts(
                table.subrange(i as int, n as int),
            ),
        decreases n - i,
    {
        let (flag, e) = flags[i];
        let ghost rest = table.subrange(i as int, n as int);
        let ghost mprev = v@.map_values(view_of);
        proof {
            assert(rest[0] == table[i as int]);
            assert(rest.drop_first() =~= table.subrange(i as int + 1, n as int));
            assert(flag_exts(rest) == opt_ext(flag, e@) + flag_exts(
                table.subrange(i as int + 1, n as int),
            ));
        }
        if flag {
            v.push(String::from_str(e));
            proof {
                assert(v@.map_values(view_of) =~= mprev + opt_ext(flag, e@));
            }
        } else {
            proof {
                assert(v@.map_values(view_of) =~= mprev + opt_ext(flag, e@));
            }
        }
        proof {
            assert((mprev + opt_ext(flag, e@)) + flag_exts(
                table.subrange(i as int + 1, n as int),
            ) =~= mprev + (opt_ext(flag, e@) + flag_exts(table.subrange(i as int + 1, n as int))));
        }
        i = i + 1;
    }
    proof {
        assert(table.subrange(n as int, n as int) =~= Seq::<(bool, Seq<char>)>::empty());
        assert(v@.map_values(view_of) + flag_exts(Seq::<(bool, Seq<char>)>::empty())
            =~= v@.map_values(view_of));
        assert(v@.map_values(|s: String| s@) == v@.map_values(view_of));
    }
    v
}

} // verus!
