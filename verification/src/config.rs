//! The immutable settings the core consumes, and how they are built up
//! from the layered sources (command line, configuration file) that the
//! surrounding program reads.
use vstd::prelude::*;

verus! {

/// The command-line arguments, as plain values.  The surrounding
/// program parses the real command line into this shape.
pub struct Args {
    pub inputs: Option<Vec<String>>,
    pub file_input: Option<String>,
    pub flac_allowed: Option<bool>,
    pub dolby_allowed: Option<bool>,
    pub picture_allowed: Option<bool>,
    pub path: Option<String>,
    pub filename: Option<String>,
    pub session: Option<String>,
    pub config: String,
}

/// The settings object every download of a run consumes.  Produced once
/// before any download starts; immutable afterward.
pub struct Settings {
    pub id: Vec<String>,
    pub flac_allowed: bool,
    pub dolby_allowed: bool,
    pub pic_allowed: bool,
    pub path: String,
    pub filename: String,
    pub session: String,
}

/// One layer of optional settings: what a single source (a file, the
/// command line) chose to set.
pub struct SettingsBuilder {
    pub id: Option<Vec<String>>,
    pub flac_allowed: Option<bool>,
    pub dolby_allowed: Option<bool>,
    pub pic_allowed: Option<bool>,
    pub path: Option<String>,
    pub filename: Option<String>,
    pub session: Option<String>,
}

impl SettingsBuilder {
    /// A layer with nothing set.
    pub fn new() -> (b: SettingsBuilder)
        ensures
            b.id is None,
            b.flac_allowed is None,
            b.dolby_allowed is None,
            b.pic_allowed is None,
            b.path is None,
            b.filename is None,
            b.session is None,
    {
        SettingsBuilder {
            id: None,
            flac_allowed: None,
            dolby_allowed: None,
            pic_allowed: None,
            path: None,
            filename: None,
            session: None,
        }
    }

    /// Lays `other` over this layer: every value `other` sets wins;
    /// whatever it leaves unset is kept.
    pub fn merge(&mut self, other: SettingsBuilder)
        ensures
            final(self).id == (if other.id is Some {
                other.id
            } else {
                old(self).id
            }),
            final(self).flac_allowed == (if other.flac_allowed is Some {
                other.flac_allowed
            } else {
                old(self).flac_allowed
            }),
            final(self).dolby_allowed == (if other.dolby_allowed is Some {
                other.dolby_allowed
            } else {
                old(self).dolby_allowed
            }),
            final(self).pic_allowed == (if other.pic_allowed is Some {
                other.pic_allowed
            } else {
                old(self).pic_allowed
            }),
            final(self).path == (if other.path is Some {
                other.path
            } else {
                old(self).path
            }),
            final(self).filename == (if other.filename is Some {
                other.filename
            } else {
                old(self).filename
            }),
            final(self).session == (if other.session is Some {
                other.session
            } else {
                old(self).session
            }),
    {
        let SettingsBuilder { id, flac_allowed, dolby_allowed, pic_allowed, path, filename, session }
            = other;
        if let Some(v) = id {
            self.id = Some(v);
        }
        if let Some(v) = flac_allowed {
            self.flac_allowed = Some(v);
        }
        if let Some(v) = dolby_allowed {
            self.dolby_allowed = Some(v);
        }
        if let Some(v) = pic_allowed {
            self.pic_allowed = Some(v);
        }
        if let Some(v) = path {
            self.path = Some(v);
        }
        if let Some(v) = filename {
            self.filename = Some(v);
        }
        if let Some(v) = session {
            self.session = Some(v);
        }
    }

    /// Freezes the layered choices into the settings, filling every
    /// unset value with its default: switches off, the working
    /// directory as destination, empty filename and session.  The item
    /// list has no default; a run without one never gets this far.
    pub fn build(self) -> (s: Settings)
        requires
            self.id is Some,
        ensures
            Some(s.id) == self.id,
            s.flac_allowed == (match self.flac_allowed {
                Some(v) => v,
                None => false,
            }),
            s.dolby_allowed == (match self.dolby_allowed {
                Some(v) => v,
                None => false,
            }),
            s.pic_allowed == (match self.pic_allowed {
                Some(v) => v,
                None => false,
            }),
            s.path@ == (match self.path {
                Some(v) => v@,
                None => "./"@,
            }),
            s.filename@ == (match self.filename {
                Some(v) => v@,
                None => Seq::<char>::empty(),
            }),
            s.session@ == (match self.session {
                Some(v) => v@,
                None => Seq::<char>::empty(),
            }),
    {
        let SettingsBuilder { id, flac_allowed, dolby_allowed, pic_allowed, path, filename, session }
            = self;
        let id = match id {
            Some(v) => v,
            None => Vec::new(),
        };
        Settings {
            id,
            flac_allowed: flac_allowed.unwrap_or(false),
            dolby_allowed: dolby_allowed.unwrap_or(false),
            pic_allowed: pic_allowed.unwrap_or(false),
            path: match path {
                Some(v) => v,
                None => String::from_str("./"),
            },
            filename: match filename {
                Some(v) => v,
                None => String::new(),
            },
            session: match session {
                Some(v) => v,
                None => String::new(),
            },
        }
    }
}

} // verus!
