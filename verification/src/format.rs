//! The image formats the viewer opens, recognised by file extension.
use vstd::prelude::*;

use crate::protocol::CodecFormat;
use crate::text::{
    ascii_lower_code, chars_of, display_name_of, eq_ignore_ascii_case, extension_of, file_name_of, file_name_span, find_last_dot,
    last_dot, tail_eq_ignore_ascii_case,
};

verus! {

#[derive(Clone, Copy, Debug, PartialEq, Eq, Structural)]
pub enum SupportedFormat {
    Jpeg,
    Png,
    Gif,
    Tiff,
    WebP,
    Heif,
}

/// The format named by an extension, compared without ASCII case.
pub open spec fn format_of_extension(ext: Seq<char>) -> Option<SupportedFormat> {
    if eq_ignore_ascii_case(ext, seq!['j', 'p', 'g']) || eq_ignore_ascii_case(ext, seq!['j', 'p', 'e', 'g']) {
        Some(SupportedFormat::Jpeg)
    } else if eq_ignore_ascii_case(ext, seq!['p', 'n', 'g']) {
        Some(SupportedFormat::Png)
    } else if eq_ignore_ascii_case(ext, seq!['g', 'i', 'f']) {
        Some(SupportedFormat::Gif)
    } else if eq_ignore_ascii_case(ext, seq!['t', 'i', 'f']) || eq_ignore_ascii_case(ext, seq!['t', 'i', 'f', 'f']) {
        Some(SupportedFormat::Tiff)
    } else if eq_ignore_ascii_case(ext, seq!['w', 'e', 'b', 'p']) {
        Some(SupportedFormat::WebP)
    } else if eq_ignore_ascii_case(ext, seq!['h', 'e', 'i', 'c']) || eq_ignore_ascii_case(ext, seq!['h', 'e', 'i', 'f']) {
        Some(SupportedFormat::Heif)
    } else {
        None
    }
}

/// The format of a path, from the extension of its final component.
pub open spec fn format_of_path(path: Seq<char>) -> Option<SupportedFormat> {
    match extension_of(path) {
        Some(ext) => format_of_extension(ext),
        None => None,
    }
}

/// Where the extension of `path` lies in `chars`, if it has one.
fn extension_span(path: &str, chars: &Vec<char>) -> (r: Option<(usize, usize)>)
    requires
        chars@ == path@,
    ensures
        match extension_of(path@) {
            Some(ext) => r matches Some((a, b)) && a <= b <= chars@.len() && chars@.subrange(a as int, b as int)
                == ext,
            None => r is None,
        },
{
    match file_name_span(path) {
        None => None,
        Some((start, end)) => {
            let ghost name = chars@.subrange(start as int, end as int);
            proof {
                crate::text::lemma_last_dot_bound(name);
            }
            match find_last_dot(chars, start, end) {
                Some(k) => if k > 0 {
                    assert(chars@.subrange(start + k + 1, end as int) =~= name.skip(k + 1));
                    Some((start + k + 1, end))
                } else {
                    None
                },
                None => None,
            }
        },
    }
}

/// Each format is named by its own extensions and by no other, up to ASCII
/// case: `jpg`/`jpeg` is JPEG, `png` PNG, `gif` GIF, `tif`/`tiff` TIFF,
/// `webp` WebP and `heic`/`heif` HEIF.
pub proof fn lemma_formats_follow_their_extensions(ext: Seq<char>)
    ensures
        format_of_extension(ext) == Some(SupportedFormat::Jpeg) <==> (eq_ignore_ascii_case(ext, seq!['j', 'p', 'g'])
            || eq_ignore_ascii_case(ext, seq!['j', 'p', 'e', 'g'])),
        format_of_extension(ext) == Some(SupportedFormat::Png) <==> eq_ignore_ascii_case(ext, seq!['p', 'n', 'g']),
        format_of_extension(ext) == Some(SupportedFormat::Gif) <==> eq_ignore_ascii_case(ext, seq!['g', 'i', 'f']),
        format_of_extension(ext) == Some(SupportedFormat::Tiff) <==> (eq_ignore_ascii_case(ext, seq!['t', 'i', 'f'])
            || eq_ignore_ascii_case(ext, seq!['t', 'i', 'f', 'f'])),
        format_of_extension(ext) == Some(SupportedFormat::WebP) <==> eq_ignore_ascii_case(ext, seq!['w', 'e', 'b', 'p']),
        format_of_extension(ext) == Some(SupportedFormat::Heif) <==> (eq_ignore_ascii_case(ext, seq!['h', 'e', 'i', 'c'])
            || eq_ignore_ascii_case(ext, seq!['h', 'e', 'i', 'f'])),
{
    let words = seq![
        seq!['j', 'p', 'g'],
        seq!['j', 'p', 'e', 'g'],
        seq!['p', 'n', 'g'],
        seq!['g', 'i', 'f'],
        seq!['t', 'i', 'f'],
        seq!['t', 'i', 'f', 'f'],
        seq!['w', 'e', 'b', 'p'],
        seq!['h', 'e', 'i', 'c'],
        seq!['h', 'e', 'i', 'f'],
    ];
    assert forall|a: int, b: int| 0 <= a < b < 9 && #[trigger] eq_ignore_ascii_case(ext, words[a])
        implies !#[trigger] eq_ignore_ascii_case(ext, words[b]) by {
        if eq_ignore_ascii_case(ext, words[b]) {
            assert(ascii_lower_code(ext[0]) == ascii_lower_code(words[a][0]));
            assert(ascii_lower_code(ext[0]) == ascii_lower_code(words[b][0]));
            if words[a].len() >= 2 && words[b].len() >= 2 {
                assert(ascii_lower_code(ext[1]) == ascii_lower_code(words[a][1]));
                assert(ascii_lower_code(ext[1]) == ascii_lower_code(words[b][1]));
            }
            if words[a].len() >= 4 && words[b].len() >= 4 {
                assert(ascii_lower_code(ext[3]) == ascii_lower_code(words[a][3]));
                assert(ascii_lower_code(ext[3]) == ascii_lower_code(words[b][3]));
            }
        }
    }
    assert(words[0] == seq!['j', 'p', 'g'] && words[1] == seq!['j', 'p', 'e', 'g'] && words[2] == seq!['p', 'n', 'g']
        && words[3] == seq!['g', 'i', 'f'] && words[4] == seq!['t', 'i', 'f'] && words[5] == seq!['t', 'i', 'f', 'f']
        && words[6] == seq!['w', 'e', 'b', 'p'] && words[7] == seq!['h', 'e', 'i', 'c'] && words[8] == seq![
        'h',
        'e',
        'i',
        'f',
    ]);
}

/// Only TIFF and HEIF files leave the viewer for the helper: a path is
/// routed to the helper exactly when its extension is `tif`, `tiff`,
/// `heic` or `heif` up to ASCII case.
pub proof fn lemma_helper_takes_only_tiff_and_heif(path: Seq<char>)
    ensures
        (format_of_path(path) == Some(SupportedFormat::Tiff) || format_of_path(path) == Some(SupportedFormat::Heif))
            <==> (extension_of(path) matches Some(ext) && (eq_ignore_ascii_case(ext, seq!['t', 'i', 'f'])
            || eq_ignore_ascii_case(ext, seq!['t', 'i', 'f', 'f']) || eq_ignore_ascii_case(ext, seq!['h', 'e', 'i', 'c'])
            || eq_ignore_ascii_case(ext, seq!['h', 'e', 'i', 'f']))),
{
    if let Some(ext) = extension_of(path) {
        lemma_formats_follow_their_extensions(ext);
    }
}

impl SupportedFormat {
    pub fn from_path(path: &str) -> (r: Option<Self>)
        ensures
            r == format_of_path(path@),
    {
        let chars = chars_of(path);
        match extension_span(path, &chars) {
            None => None,
            Some((start, end)) => {
                if tail_eq_ignore_ascii_case(&chars, start, end, &['j', 'p', 'g'])
                    || tail_eq_ignore_ascii_case(&chars, start, end, &['j', 'p', 'e', 'g']) {
                    Some(SupportedFormat::Jpeg)
                } else if tail_eq_ignore_ascii_case(&chars, start, end, &['p', 'n', 'g']) {
                    Some(SupportedFormat::Png)
                } else if tail_eq_ignore_ascii_case(&chars, start, end, &['g', 'i', 'f']) {
                    Some(SupportedFormat::Gif)
                } else if tail_eq_ignore_ascii_case(&chars, start, end, &['t', 'i', 'f'])
                    || tail_eq_ignore_ascii_case(&chars, start, end, &['t', 'i', 'f', 'f']) {
                    Some(SupportedFormat::Tiff)
                } else if tail_eq_ignore_ascii_case(&chars, start, end, &['w', 'e', 'b', 'p']) {
                    Some(SupportedFormat::WebP)
                } else if tail_eq_ignore_ascii_case(&chars, start, end, &['h', 'e', 'i', 'c'])
                    || tail_eq_ignore_ascii_case(&chars, start, end, &['h', 'e', 'i', 'f']) {
                    Some(SupportedFormat::Heif)
                } else {
                    None
                }
            },
        }
    }
}

/// The helper-process codec for a path: HEIF and TIFF leave the viewer
/// process; every other format is decoded locally.
pub fn helper_format(path: &str) -> (r: Option<CodecFormat>)
    ensures
        r == (match format_of_path(path@) {
            Some(SupportedFormat::Heif) => Some(CodecFormat::Heif),
            Some(SupportedFormat::Tiff) => Some(CodecFormat::Tiff),
            _ => None,
        }),
{
    match SupportedFormat::from_path(path) {
        Some(SupportedFormat::Heif) => Some(CodecFormat::Heif),
        Some(SupportedFormat::Tiff) => Some(CodecFormat::Tiff),
        _ => None,
    }
}

/// The name shown for a path.
pub fn display_name(path: &str) -> (r: String)
    ensures
        r@ == display_name_of(path@),
{
    match file_name_span(path) {
        None => path.to_owned(),
        Some((a, b)) => path.substring_char(a, b).to_owned(),
    }
}

} // verus!
