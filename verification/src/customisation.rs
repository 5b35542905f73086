//! Server customisation assets: stickers and soundboard clips.
use vstd::prelude::*;

use crate::strmap::Duplicate;

verus! {

/// What an asset belongs to.
#[derive(Debug)]
pub enum EmojiParent {
    /// Owned by the server with this id.
    Server { id: String },
    /// Detached from its server (deleted).
    Detached,
}

impl Duplicate for EmojiParent {
    open spec fn same_value(&self, other: &Self) -> bool {
        *self == *other
    }

    fn duplicate(&self) -> (r: Self) {
        match self {
            EmojiParent::Server { id } => EmojiParent::Server { id: id.clone() },
            EmojiParent::Detached => EmojiParent::Detached,
        }
    }
}

/// A server sticker (an image asset).
#[derive(Debug)]
pub struct Sticker {
    /// Matches the id of the uploaded attachment.
    pub id: String,
    pub parent: EmojiParent,
    pub creator_id: String,
    pub name: String,
    /// Whether the sticker is animated (a GIF).
    pub animated: bool,
    pub nsfw: bool,
}

impl Duplicate for Sticker {
    open spec fn same_value(&self, other: &Self) -> bool {
        *self == *other
    }

    fn duplicate(&self) -> (r: Self) {
        Sticker {
            id: self.id.clone(),
            parent: self.parent.duplicate(),
            creator_id: self.creator_id.clone(),
            name: self.name.clone(),
            animated: self.animated,
            nsfw: self.nsfw,
        }
    }
}

/// A short audio clip of a server's soundboard.
#[derive(Debug)]
pub struct SoundboardClip {
    pub id: String,
    pub parent: EmojiParent,
    pub creator_id: String,
    pub name: String,
}

impl Duplicate for SoundboardClip {
    open spec fn same_value(&self, other: &Self) -> bool {
        *self == *other
    }

    fn duplicate(&self) -> (r: Self) {
        SoundboardClip {
            id: self.id.clone(),
            parent: self.parent.duplicate(),
            creator_id: self.creator_id.clone(),
            name: self.name.clone(),
        }
    }
}

/// The server that owns an asset, or the empty text when it is detached.
pub open spec fn spec_parent_server_id(p: EmojiParent) -> Seq<char> {
    match p {
        EmojiParent::Server { id } => id@,
        EmojiParent::Detached => Seq::empty(),
    }
}

/// Whether an asset belongs to the server `server_id`.
pub open spec fn owned_by(p: EmojiParent, server_id: Seq<char>) -> bool {
    p matches EmojiParent::Server { id } && id@ == server_id
}

impl Sticker {
    /// The id of the server that owns this sticker, or `""` when it is detached.
    pub fn parent_server_id(&self) -> (s: &str)
        ensures
            s@ == spec_parent_server_id(self.parent),
    {
        match &self.parent {
            EmojiParent::Server { id } => id.as_str(),
            EmojiParent::Detached => {
                proof {
                    reveal_strlit("");
                }
                ""
            },
        }
    }
}

} // verus!
