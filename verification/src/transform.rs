//! The transform stage's command line: the exact argument list handed to
//! the external converter for one finished item.
use vstd::prelude::*;
use crate::media::AudioKind;

verus! {

/// The container extension a finished item gets.
pub open spec fn spec_extension(kind: AudioKind) -> Seq<char> {
    match kind {
        AudioKind::M4a => "m4a"@,
        AudioKind::Flac => "flac"@,
    }
}

/// The file extension for an audio kind.
pub fn extension(kind: AudioKind) -> (r: String)
    ensures
        r@ == spec_extension(kind),
{
    match kind {
        AudioKind::M4a => String::from_str("m4a"),
        AudioKind::Flac => String::from_str("flac"),
    }
}

/// The arguments (after the program name) of the external converter
/// invocation: the source, an optional attached picture, title and
/// artist metadata, the codec choice for the container, the picture
/// disposition when a picture rides along, and finally the output path.
pub open spec fn spec_transform_args(
    source: Seq<char>,
    output: Seq<char>,
    pic: Option<Seq<char>>,
    kind: AudioKind,
    title: Seq<char>,
    artist: Seq<char>,
) -> Seq<Seq<char>> {
    seq!["-i"@, source] + (match pic {
        Some(p) => seq!["-i"@, p],
        None => Seq::empty(),
    }) + seq!["-metadata"@, "title="@ + title, "-metadata"@, "artist="@ + artist] + (
    match kind {
        AudioKind::Flac => seq!["-acodec"@, "flac"@],
        AudioKind::M4a => seq!["-c"@, "copy"@],
    }) + (match pic {
        Some(_) => seq!["-c:v:1"@, "jpg"@, "-disposition:v:0"@, "attached_pic"@],
        None => Seq::empty(),
    }) + seq![output]
}

/// Builds the converter's argument list for one item.  Typing the
/// container as `AudioKind` makes an unknown extension impossible, so
/// this never fails.
pub fn transform_args(
    source: &str,
    output: &str,
    pic: Option<&str>,
    kind: AudioKind,
    title: &str,
    artist: &str,
) -> (args: Vec<String>)
    ensures
        args@.map_values(|a: String| a@) == spec_transform_args(
            source@,
            output@,
            match pic {
                Some(p) => Some(p@),
                None => None,
            },
            kind,
            title@,
            artist@,
        ),
{
    let mut args: Vec<String> = Vec::new();
    args.push(String::from_str("-i"));
    args.push(String::from_str(source));
    match pic {
        Some(p) => {
            args.push(String::from_str("-i"));
            args.push(String::from_str(p));
        },
        None => {},
    }
    args.push(String::from_str("-metadata"));
    let mut title_arg = String::from_str("title=");
    title_arg.append(title);
    args.push(title_arg);
    args.push(String::from_str("-metadata"));
    let mut artist_arg = String::from_str("artist=");
    artist_arg.append(artist);
    args.push(artist_arg);
    match kind {
        AudioKind::Flac => {
            args.push(String::from_str("-acodec"));
            args.push(String::from_str("flac"));
        },
        AudioKind::M4a => {
            args.push(String::from_str("-c"));
            args.push(String::from_str("copy"));
        },
    }
    match pic {
        Some(_) => {
            args.push(String::from_str("-c:v:1"));
            args.push(String::from_str("jpg"));
            args.push(String::from_str("-disposition:v:0"));
            args.push(String::from_str("attached_pic"));
        },
        None => {},
    }
    args.push(String::from_str(output));
    proof {
        assert(args@.map_values(|a: String| a@) =~= spec_transform_args(
            source@,
            output@,
            match pic {
                Some(p) => Some(p@),
                None => None,
            },
            kind,
            title@,
            artist@,
        ));
    }
    args
}

} // verus!
