//! The catalog's data model, as decoded from its responses.
use vstd::prelude::*;

verus! {

/// The kind of media that a library section holds.
#[derive(Debug, Clone, Copy, PartialEq, Eq, Structural)]
pub enum MediaKind {
    Video,
    TV,
    Music,
}

impl MediaKind {
    /// The numeric code that the catalog uses for this kind.
    pub open spec fn code_spec(self) -> u8 {
        match self {
            MediaKind::Video => 1,
            MediaKind::TV => 2,
            MediaKind::Music => 8,
        }
    }

    pub fn code(self) -> (r: u8)
        ensures
            r == self.code_spec(),
    {
        match self {
            MediaKind::Video => 1,
            MediaKind::TV => 2,
            MediaKind::Music => 8,
        }
    }
}

/// One response of the catalog: a list of items in server order.
#[derive(Debug, PartialEq)]
pub struct MediaContainer {
    pub items: Vec<Item>,
}

/// A catalog item: a container (shown as a directory), a video, or a track.
#[derive(PartialEq, Debug)]
pub enum Item {
    Directory {
        rating_key: u64,
        guid: String,
        title: String,
        parent_title: String,
        summary: String,
        last_viewed_at: u64,
        added_at: u64,
        updated_at: u64,
    },
    Video { title: String, grandparent_title: String, media: Media },
    Track {
        rating_key: u64,
        guid: String,
        title: String,
        parent_title: String,
        summary: String,
        last_viewed_at: u64,
        added_at: u64,
        updated_at: u64,
        media: Media,
    },
}

/// How a playable item is stored on the server.
#[derive(PartialEq, Debug)]
pub struct Media {
    pub container: Option<String>,
    pub video_resolution: Option<String>,
    pub duration: u64,
    pub part: Part,
}

/// The byte stream behind a playable item.
#[derive(PartialEq, Debug)]
pub struct Part {
    /// Remote path from which the bytes are read.
    pub key: String,
    /// Path of the source file on the server.
    pub file: String,
    pub size: u64,
    pub container: Option<String>,
}

impl Default for Media {
    fn default() -> (r: Self)
        ensures
            r.container is None,
            r.video_resolution is None,
            r.duration == 0,
            r.part.key@.len() == 0,
            r.part.file@.len() == 0,
            r.part.size == 0,
            r.part.container is None,
    {
        Media { container: None, video_resolution: None, duration: 0, part: Part::default() }
    }
}

impl Default for Part {
    fn default() -> (r: Self)
        ensures
            r.key@.len() == 0,
            r.file@.len() == 0,
            r.size == 0,
            r.container is None,
    {
        Part { key: String::new(), file: String::new(), size: 0, container: None }
    }
}

} // verus!
