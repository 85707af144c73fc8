//! The descriptor of an uploaded file.

use vstd::prelude::*;

verus! {

/// What the caller says about a file, and what the endpoint calls it.
#[derive(Clone, Debug)]
pub struct Video {
    /// Title shown for the file.
    pub title: Option<String>,
    /// Name of the file: the local path before the upload, the name the
    /// endpoint assigned after it.
    pub filename: String,
    /// Description of the file.
    pub desc: String,
}

impl Video {
    /// The descriptor after a successful upload: the file goes by the name
    /// the endpoint assigned, an untitled file takes the stem of its local
    /// name as title, and everything else is as the caller gave it.
    pub fn assigned(self, remote_name: String, stem: Option<String>) -> (video: Video)
        ensures
            video.filename == remote_name,
            video.desc == self.desc,
            video.title == if self.title is Some {
                self.title
            } else {
                stem
            },
    {
        let title = match self.title {
            Some(given) => Some(given),
            None => stem,
        };
        Video { title, filename: remote_name, desc: self.desc }
    }
}

/// What a listing says about one file; any of it may be missing.
#[derive(Clone, Debug)]
pub struct VideoFields {
    pub desc: Option<String>,
    pub filename: Option<String>,
    pub title: Option<String>,
}

/// The descriptor that a listing's fields amount to. A file needs a
/// description and a name; a title it may lack.
pub open spec fn described(fields: VideoFields) -> Option<Video> {
    if fields.desc is Some && fields.filename is Some {
        Some(Video { title: fields.title, filename: fields.filename->0, desc: fields.desc->0 })
    } else {
        None
    }
}

/// The descriptor of one listed file; `None` where the listing lacks its
/// description or its name.
pub fn video_from(fields: &VideoFields) -> (video: Option<Video>)
    ensures
        video == described(*fields),
{
    let desc = match &fields.desc {
        Some(text) => text.clone(),
        None => {
            return None;
        },
    };
    let filename = match &fields.filename {
        Some(text) => text.clone(),
        None => {
            return None;
        },
    };
    let title = match &fields.title {
        Some(text) => Some(text.clone()),
        None => None,
    };
    Some(Video { title, filename, desc })
}

/// The descriptors of all listed files, in order; `None` where any of them
/// lacks its description or its name.
pub fn videos_from(listing: &Vec<VideoFields>) -> (videos: Option<Vec<Video>>)
    ensures
        videos is Some <==> forall|i: int|
            0 <= i < listing@.len() ==> described(#[trigger] listing@[i]) is Some,
        videos matches Some(all) ==> all@.len() == listing@.len() && forall|i: int|
            0 <= i < listing@.len() ==> Some(#[trigger] all@[i]) == described(listing@[i]),
{
    let mut all: Vec<Video> = Vec::new();
    let mut at: usize = 0;
    while at < listing.len()
        invariant
            at <= listing.len(),
            all@.len() == at,
            forall|i: int|
                #![trigger all@[i]]
                #![trigger listing@[i]]
                0 <= i < at ==> Some(all@[i]) == described(listing@[i]),
        decreases listing.len() - at,
    {
        match video_from(&listing[at]) {
            Some(video) => all.push(video),
            None => {
                assert(described(listing@[at as int]) is None);
                return None;
            },
        }
        at = at + 1;
    }
    Some(all)
}

} // verus!
