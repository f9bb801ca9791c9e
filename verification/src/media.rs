//! The metadata records that the resolution collaborator produces for an
//! item, and the verified choices made over them: which audio stream to
//! download and under which filename to store it.
use vstd::prelude::*;
use crate::text::{safe_filename, spec_safe_filename};

verus! {

/// One downloadable audio stream of an item.
#[derive(Clone, Debug)]
pub struct Audio {
    pub id: usize,
    pub base_url: String,
    pub backup_url: Vec<String>,
    pub mime_type: String,
    pub codecs: String,
}

/// The optional lossless stream of an item.
#[derive(Clone, Debug)]
pub struct Flac {
    pub audio: Option<Audio>,
}

/// The stream table of an item: the ordinary audio streams, best first,
/// and the lossless table when the server offers one.
#[derive(Clone, Debug)]
pub struct Dash {
    pub audio: Vec<Audio>,
    pub flac: Option<Flac>,
}

/// The stream-resolution answer for one item.
#[derive(Clone, Debug)]
pub struct LinkRsp {
    pub dash: Dash,
}

/// One part of a multi-part item.
#[derive(Clone, Copy, Debug, PartialEq, Eq, Structural)]
pub struct Page {
    pub cid: usize,
    pub duration: usize,
}

/// The uploader of an item.
#[derive(Clone, Debug)]
pub struct Owner {
    pub name: String,
    pub face: String,
}

/// The metadata answer for one item: names, attribution, cover picture
/// and the item's parts.
#[derive(Clone, Debug)]
pub struct ViewRsp {
    pub bvid: String,
    pub aid: usize,
    pub videos: usize,
    pub tname: String,
    pub pic: String,
    pub title: String,
    pub pubdate: usize,
    pub owner: Owner,
    pub duration: usize,
    pub pages: Vec<Page>,
}

/// The audio container variants a finished item can have.
#[derive(Clone, Copy, Debug, PartialEq, Eq, Structural)]
pub enum AudioKind {
    M4a,
    Flac,
}

/// The stream selected for download, with the container its bytes will
/// need after transform.
pub struct AudioChoice {
    pub url: String,
    pub kind: AudioKind,
}

/// Which stream `select_audio` picks: the lossless stream when it is
/// allowed and offered, else the first ordinary stream, else nothing.
pub open spec fn spec_select_audio(dash: Dash, flac_allowed: bool) -> Option<(
    Seq<char>,
    AudioKind,
)> {
    if flac_allowed && dash.flac is Some && dash.flac->0.audio is Some {
        Some((dash.flac->0.audio->0.base_url@, AudioKind::Flac))
    } else if dash.audio@.len() > 0 {
        Some((dash.audio@[0].base_url@, AudioKind::M4a))
    } else {
        None
    }
}

/// Picks the stream to download.  The default is the first ordinary
/// stream as `m4a`; when lossless is allowed and the server offers it,
/// the lossless stream as `flac` wins.  An item with no usable stream
/// yields `None` (never a panic).
pub fn select_audio(dash: &Dash, flac_allowed: bool) -> (r: Option<AudioChoice>)
    ensures
        match spec_select_audio(*dash, flac_allowed) {
            Some((url, kind)) => r matches Some(c) && c.url@ == url && c.kind == kind,
            None => r is None,
        },
{
    if flac_allowed {
        match &dash.flac {
            Some(f) => {
                match &f.audio {
                    Some(a) => {
                        return Some(
                            AudioChoice { url: a.base_url.clone(), kind: AudioKind::Flac },
                        );
                    },
                    None => {},
                }
            },
            None => {},
        }
    }
    if dash.audio.len() > 0 {
        let a = &dash.audio[0];
        Some(AudioChoice { url: a.base_url.clone(), kind: AudioKind::M4a })
    } else {
        None
    }
}

/// The filename an item is stored under: the configured fixed name when
/// one is set, else the item's title, either way sanitized.
pub open spec fn spec_choose_filename(configured: Seq<char>, title: Seq<char>) -> Seq<char> {
    if configured.len() > 0 {
        spec_safe_filename(configured)
    } else {
        spec_safe_filename(title)
    }
}

/// Chooses and sanitizes the filename for an item.
pub fn choose_filename(configured: &str, title: &str) -> (r: String)
    ensures
        r@ == spec_choose_filename(configured@, title@),
{
    if configured.unicode_len() > 0 {
        safe_filename(configured)
    } else {
        safe_filename(title)
    }
}

/// The envelope every remote answer arrives in: a status code, a message
/// for failures, and the payload.
#[derive(Clone, Debug)]
pub struct ApiResponse<T> {
    pub code: isize,
    pub message: String,
    pub data: T,
}

/// Unwraps a remote answer: the payload exactly when the status code is
/// zero, the server's message otherwise.
pub fn api_data<T>(r: ApiResponse<T>) -> (res: Result<T, String>)
    ensures
        r.code == 0 ==> (res matches Ok(d) && d == r.data),
        r.code != 0 ==> (res matches Err(m) && m == r.message),
{
    if r.code == 0 {
        Ok(r.data)
    } else {
        Err(r.message)
    }
}

} // verus!
