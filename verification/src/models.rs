//! The entities of the backend: items to recommend, and the principals who
//! recommend and vote.
use crate::errors::{ApiError, ApiResult};
use crate::ids::{format_id, hyphenated};
use vstd::prelude::*;

verus! {

/// The kind of work that an item recommends.
#[derive(Clone, Copy, Debug, PartialEq, Eq, Structural)]
pub enum Media {
    Manga,
    Anime,
    Other,
}

impl Media {
    /// The tag under which this media is stored.
    pub open spec fn tag(self) -> u8 {
        match self {
            Media::Manga => 1,
            Media::Anime => 2,
            Media::Other => 3,
        }
    }

    /// The media that a stored tag stands for, if it is a known one.
    pub open spec fn of_tag(tag: u8) -> Option<Media> {
        if tag == 1 {
            Some(Media::Manga)
        } else if tag == 2 {
            Some(Media::Anime)
        } else if tag == 3 {
            Some(Media::Other)
        } else {
            None
        }
    }

    /// Decodes a stored tag; `None` for a tag outside the known set.
    pub fn from_u8(tag: u8) -> (media: Option<Media>)
        ensures
            media == Media::of_tag(tag),
    {
        match tag {
            1 => Some(Media::Manga),
            2 => Some(Media::Anime),
            3 => Some(Media::Other),
            _ => None,
        }
    }

    /// Encodes this media as its stored tag; every media has one.
    pub fn to_u8(&self) -> (tag: Option<u8>)
        ensures
            tag == Some(self.tag()),
    {
        match self {
            Media::Manga => Some(1),
            Media::Anime => Some(2),
            Media::Other => Some(3),
        }
    }

    /// Decoding undoes encoding, and only the tags of a media decode.
    pub proof fn law_tag_round_trip(media: Media, tag: u8)
        ensures
            Media::of_tag(media.tag()) == Some(media),
            1 <= media.tag() <= 3,
            Media::of_tag(tag) is Some <==> 1 <= tag <= 3,
            Media::of_tag(tag) is Some ==> Media::of_tag(tag)->0.tag() == tag,
    {
    }
}

/// A recommendation: the item that principals vote on.
#[derive(Debug, PartialEq, Eq)]
pub struct Recommandation {
    /// The identifier, drawn when the item is created and never changed.
    pub id: u128,
    pub name: String,
    /// The stored media tag; see [`Recommandation::media`].
    pub media: u8,
    /// The principal who created the item, and the only one who may delete it.
    pub created_by: u128,
    pub link: Option<String>,
}

impl Clone for Recommandation {
    fn clone(&self) -> (copy: Self)
        ensures
            copy == *self,
    {
        let link = match &self.link {
            Some(text) => Some(text.clone()),
            None => None,
        };
        Recommandation {
            id: self.id,
            name: self.name.clone(),
            media: self.media,
            created_by: self.created_by,
            link,
        }
    }
}

impl Recommandation {
    /// The item that `creator` makes of a submission, under the identifier `id`.
    pub open spec fn made_of(id: u128, creator: u128, new: NewRecommandation) -> Recommandation {
        Recommandation {
            id,
            name: new.name,
            media: new.media.tag(),
            created_by: creator,
            link: new.link,
        }
    }

    /// Makes the item that `creator` submits, under the identifier `id`.
    pub fn new(id: u128, creator: u128, new: NewRecommandation) -> (item: Recommandation)
        ensures
            item == Recommandation::made_of(id, creator, new),
    {
        let media = new.media.to_u8().unwrap();
        Recommandation { id, name: new.name, media, created_by: creator, link: new.link }
    }

    /// The identifier in its text form.
    pub fn id(&self) -> (text: String)
        ensures
            text@ == hyphenated(self.id),
    {
        format_id(self.id)
    }

    pub fn name(&self) -> (name: &str)
        ensures
            name@ == self.name@,
    {
        self.name.as_str()
    }

    /// The media of the item, or `UnrecognizedMediaValue` where the stored
    /// tag is none of the known ones.
    pub fn media(&self) -> (media: ApiResult<Media>)
        ensures
            media == match Media::of_tag(self.media) {
                Some(known) => Ok::<Media, ApiError>(known),
                None => Err(ApiError::UnrecognizedMediaValue),
            },
    {
        match Media::from_u8(self.media) {
            Some(known) => Ok(known),
            None => Err(ApiError::UnrecognizedMediaValue),
        }
    }

    pub fn link(&self) -> (link: &Option<String>)
        ensures
            link == self.link,
    {
        &self.link
    }

    /// The creator's identifier in its text form.
    pub fn created_by(&self) -> (text: String)
        ensures
            text@ == hyphenated(self.created_by),
    {
        format_id(self.created_by)
    }
}

/// What a principal submits to have an item created.
#[derive(Debug, PartialEq, Eq)]
pub struct NewRecommandation {
    pub name: String,
    pub link: Option<String>,
    pub media: Media,
}

/// A principal: an authenticated user.
#[derive(Debug, PartialEq, Eq)]
pub struct User {
    pub id: u128,
    pub name: String,
}

impl Clone for User {
    fn clone(&self) -> (copy: Self)
        ensures
            copy == *self,
    {
        User { id: self.id, name: self.name.clone() }
    }
}

impl User {
    /// The identifier in its text form.
    pub fn id(&self) -> (text: String)
        ensures
            text@ == hyphenated(self.id),
    {
        format_id(self.id)
    }

    pub fn name(&self) -> (name: &str)
        ensures
            name@ == self.name@,
    {
        self.name.as_str()
    }
}

} // verus!
