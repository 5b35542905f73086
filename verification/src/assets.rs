//! Creating, deleting and listing a server's stickers and soundboard clips,
//! each behind its feature switch.
use vstd::prelude::*;

use crate::customisation::{EmojiParent, SoundboardClip, Sticker};
use crate::error::ApiError;
use crate::rollout::RolloutState;
use crate::store::{clips_of, stickers_of, ReferenceDb};
use crate::text::{owned, str_eq};
use crate::users::User;

verus! {

/// The feature switch of stickers.
pub const FEATURE_STICKERS: &'static str = "stickers_v1";
/// The feature switch of soundboard clips.
pub const FEATURE_SOUNDBOARD: &'static str = "soundboard_v1";
/// The permission that managing a server's assets needs.
pub const MANAGE_CUSTOMISATION: &'static str = "ManageCustomisation";
/// The message of the validation error for a sticker name.
pub const INVALID_STICKER_NAME: &'static str = "name: must be 1 to 32 characters of a-z, 0-9 and _";
/// The message of the validation error for a soundboard clip name.
pub const INVALID_SOUNDBOARD_NAME: &'static str = "invalid soundboard name";

/// A character that names of assets may hold: `a`-`z`, `0`-`9` and `_`.
pub open spec fn is_name_char(c: char) -> bool {
    ('a' <= c && c <= 'z') || ('0' <= c && c <= '9') || c == '_'
}

/// A name that matches `^[a-z0-9_]+$`.
pub open spec fn is_asset_name(s: Seq<char>) -> bool {
    s.len() >= 1 && forall|i: int| 0 <= i < s.len() ==> is_name_char(#[trigger] s[i])
}

/// A sticker name: an asset name of at most 32 characters.
pub open spec fn is_sticker_name(s: Seq<char>) -> bool {
    is_asset_name(s) && s.len() <= 32
}

/// Whether `s` matches `^[a-z0-9_]+$`.
pub fn asset_name_ok(s: &str) -> (b: bool)
    ensures
        b == is_asset_name(s@),
{
    let n = s.unicode_len();
    if n == 0 {
        return false;
    }
    let mut i: usize = 0;
    while i < n
        invariant
            n == s@.len(),
            i <= n,
            forall|j: int| 0 <= j < i ==> is_name_char(#[trigger] s@[j]),
        decreases n - i,
    {
        let c = s.get_char(i);
        if !(('a' <= c && c <= 'z') || ('0' <= c && c <= '9') || c == '_') {
            return false;
        }
        i = i + 1;
    }
    true
}

/// A new sticker: its name, the server it is for, and whether it is marked nsfw.
pub struct DataCreateEmoji {
    pub name: String,
    pub parent: EmojiParent,
    pub nsfw: bool,
}

/// A new soundboard clip: its name and the server it is for.
pub struct DataCreateSoundboardClip {
    pub name: String,
    pub parent: EmojiParent,
}

/// The checks a new sticker meets before its server is looked up: stickers are
/// switched on for `user` (else `NotFound`), the name is a sticker name, and
/// the sticker is for a server, whose id is answered.
pub fn check_sticker_request(rollout: &RolloutState, user: &User, data: &DataCreateEmoji) -> (r: Result<String, ApiError>)
    ensures
        !rollout.spec_user_has_feature(*user, FEATURE_STICKERS@) ==> (r matches Err(e) && e is NotFound),
        rollout.spec_user_has_feature(*user, FEATURE_STICKERS@) && !is_sticker_name(data.name@) ==> (r matches Err(e) && e.is_validation(INVALID_STICKER_NAME@)),
        rollout.spec_user_has_feature(*user, FEATURE_STICKERS@) && is_sticker_name(data.name@) ==> (match data.parent {
            EmojiParent::Detached => r matches Err(e) && e is InvalidOperation,
            EmojiParent::Server { id } => r == Ok::<String, ApiError>(id),
        }),
{
    if !rollout.user_has_feature(user, FEATURE_STICKERS) {
        return Err(ApiError::NotFound);
    }
    if !(asset_name_ok(data.name.as_str()) && data.name.unicode_len() <= 32) {
        return Err(ApiError::FailedValidation { error: owned(INVALID_STICKER_NAME) });
    }
    match &data.parent {
        EmojiParent::Server { id } => Ok(id.clone()),
        EmojiParent::Detached => Err(ApiError::InvalidOperation),
    }
}

/// The error of a caller who may not manage a server's assets.
fn missing_manage() -> (e: ApiError)
    ensures
        e matches ApiError::MissingPermission { permission } && permission@ == MANAGE_CUSTOMISATION@,
{
    ApiError::MissingPermission { permission: owned(MANAGE_CUSTOMISATION) }
}

/// Whether a file of the MIME type `content_type` makes an animated sticker.
pub open spec fn is_gif(content_type: Seq<char>) -> bool {
    content_type == "image/gif"@
}

/// Creates the sticker `id` from `data` as `user`.
///
/// After the checks of `check_sticker_request`: a caller who may not manage
/// the server's assets (`can_manage`) misses that permission; a server that
/// already holds `max` stickers or more is refused with that maximum. The
/// sticker, animated when its file (of type `content_type`) is a GIF, is then
/// stored, an id already held being the store's refusal, and answered.
pub fn create_sticker(db: &mut ReferenceDb, rollout: &RolloutState, user: &User, id: String, data: DataCreateEmoji, can_manage: bool, max: usize, content_type: &str) -> (r: Result<Sticker, ApiError>)
    requires
        old(db).wf(),
    ensures
        final(db).wf(),
        !rollout.spec_user_has_feature(*user, FEATURE_STICKERS@) ==> (r matches Err(e) && e is NotFound),
        rollout.spec_user_has_feature(*user, FEATURE_STICKERS@) && !is_sticker_name(data.name@) ==> (r matches Err(e) && e.is_validation(INVALID_STICKER_NAME@)),
        rollout.spec_user_has_feature(*user, FEATURE_STICKERS@) && is_sticker_name(data.name@) && data.parent is Detached ==> (r matches Err(e) && e is InvalidOperation),
        rollout.spec_user_has_feature(*user, FEATURE_STICKERS@) && is_sticker_name(data.name@) && data.parent is Server ==> {
            let server = data.parent->Server_id;
            &&& !can_manage ==> (r matches Err(ApiError::MissingPermission { permission }) && permission@ == MANAGE_CUSTOMISATION@)
            &&& can_manage && stickers_of(*old(db), server@).len() >= max ==> (r matches Err(ApiError::TooManyEmoji { max: m }) && m == max)
            &&& can_manage && stickers_of(*old(db), server@).len() < max ==> {
                let sticker = Sticker {
                    id,
                    parent: EmojiParent::Server { id: server },
                    creator_id: user.id,
                    name: data.name,
                    animated: is_gif(content_type@),
                    nsfw: data.nsfw,
                };
                &&& old(db).spec_stickers().contains_key(id@) ==> (r matches Err(e) && e.is_database("insert"@, "sticker"@))
                &&& !old(db).spec_stickers().contains_key(id@) ==> (r == Ok::<Sticker, ApiError>(sticker)
                    && final(db).spec_stickers() == old(db).spec_stickers().insert(id@, sticker)
                    && final(db).spec_sticker_rows() == old(db).spec_sticker_rows().push(sticker))
            }
        },
        r is Err ==> *final(db) == *old(db),
{
    let server = match check_sticker_request(rollout, user, &data) {
        Ok(s) => s,
        Err(e) => return Err(e),
    };
    if !can_manage {
        return Err(missing_manage());
    }
    let count = match db.fetch_stickers_by_parent_id(server.as_str()) {
        Ok(v) => v.len(),
        Err(e) => return Err(e),
    };
    if count >= max {
        return Err(ApiError::TooManyEmoji { max });
    }
    let sticker = Sticker {
        id,
        parent: EmojiParent::Server { id: server },
        creator_id: user.id.clone(),
        name: data.name,
        animated: str_eq(content_type, "image/gif"),
        nsfw: data.nsfw,
    };
    match sticker.create(db) {
        Ok(()) => {},
        Err(e) => return Err(e),
    }
    Ok(sticker)
}

/// Whether a new sticker for the server `server_id` gets as far as its file:
/// only when the caller may manage the server's assets (`can_manage`) and the
/// server holds fewer than `max` stickers, the case in which `create_sticker`
/// goes on to store it. The uploaded file is taken into use only then.
pub fn sticker_takes_file(db: &ReferenceDb, server_id: &str, can_manage: bool, max: usize) -> (b: bool)
    requires
        db.wf(),
    ensures
        b == (can_manage && stickers_of(*db, server_id@).len() < max),
{
    if !can_manage {
        return false;
    }
    match db.fetch_stickers_by_parent_id(server_id) {
        Ok(v) => v.len() < max,
        Err(_) => false,
    }
}

/// The checks a new soundboard clip meets before its server is looked up:
/// soundboards are switched on for `user` (else `NotFound`), the name matches
/// `^[a-z0-9_]+$`, and the clip is for a server, whose id is answered.
pub fn check_soundboard_request(rollout: &RolloutState, user: &User, data: &DataCreateSoundboardClip) -> (r: Result<String, ApiError>)
    ensures
        !rollout.spec_user_has_feature(*user, FEATURE_SOUNDBOARD@) ==> (r matches Err(e) && e is NotFound),
        rollout.spec_user_has_feature(*user, FEATURE_SOUNDBOARD@) && !is_asset_name(data.name@) ==> (r matches Err(e) && e.is_validation(INVALID_SOUNDBOARD_NAME@)),
        rollout.spec_user_has_feature(*user, FEATURE_SOUNDBOARD@) && is_asset_name(data.name@) ==> (match data.parent {
            EmojiParent::Detached => r matches Err(e) && e is InvalidOperation,
            EmojiParent::Server { id } => r == Ok::<String, ApiError>(id),
        }),
{
    if !rollout.user_has_feature(user, FEATURE_SOUNDBOARD) {
        return Err(ApiError::NotFound);
    }
    if !asset_name_ok(data.name.as_str()) {
        return Err(ApiError::FailedValidation { error: owned(INVALID_SOUNDBOARD_NAME) });
    }
    match &data.parent {
        EmojiParent::Server { id } => Ok(id.clone()),
        EmojiParent::Detached => Err(ApiError::InvalidOperation),
    }
}

/// Creates the soundboard clip `id` from `data` as `user`.
///
/// After the checks of `check_soundboard_request`: a caller who may not manage
/// the server's assets (`can_manage`) misses that permission; a server that
/// already holds `max` clips or more is refused with that maximum. The clip is
/// then stored, an id already held being the store's refusal, and answered.
pub fn create_soundboard_clip(db: &mut ReferenceDb, rollout: &RolloutState, user: &User, id: String, data: DataCreateSoundboardClip, can_manage: bool, max: usize) -> (r: Result<SoundboardClip, ApiError>)
    requires
        old(db).wf(),
    ensures
        final(db).wf(),
        !rollout.spec_user_has_feature(*user, FEATURE_SOUNDBOARD@) ==> (r matches Err(e) && e is NotFound),
        rollout.spec_user_has_feature(*user, FEATURE_SOUNDBOARD@) && !is_asset_name(data.name@) ==> (r matches Err(e) && e.is_validation(INVALID_SOUNDBOARD_NAME@)),
        rollout.spec_user_has_feature(*user, FEATURE_SOUNDBOARD@) && is_asset_name(data.name@) && data.parent is Detached ==> (r matches Err(e) && e is InvalidOperation),
        rollout.spec_user_has_feature(*user, FEATURE_SOUNDBOARD@) && is_asset_name(data.name@) && data.parent is Server ==> {
            let server = data.parent->Server_id;
            &&& !can_manage ==> (r matches Err(ApiError::MissingPermission { permission }) && permission@ == MANAGE_CUSTOMISATION@)
            &&& can_manage && clips_of(*old(db), server@).len() >= max ==> (r matches Err(ApiError::TooManyEmoji { max: m }) && m == max)
            &&& can_manage && clips_of(*old(db), server@).len() < max ==> {
                let clip = SoundboardClip { id, parent: EmojiParent::Server { id: server }, creator_id: user.id, name: data.name };
                &&& old(db).spec_clips().contains_key(id@) ==> (r matches Err(e) && e.is_database("insert"@, "soundboard_clip"@))
                &&& !old(db).spec_clips().contains_key(id@) ==> (r == Ok::<SoundboardClip, ApiError>(clip)
                    && final(db).spec_clips() == old(db).spec_clips().insert(id@, clip)
                    && final(db).spec_clip_rows() == old(db).spec_clip_rows().push(clip))
            }
        },
        r is Err ==> *final(db) == *old(db),
{
    let server = match check_soundboard_request(rollout, user, &data) {
        Ok(s) => s,
        Err(e) => return Err(e),
    };
    if !can_manage {
        return Err(missing_manage());
    }
    let count = match db.fetch_soundboard_by_parent_id(server.as_str()) {
        Ok(v) => v.len(),
        Err(e) => return Err(e),
    };
    if count >= max {
        return Err(ApiError::TooManyEmoji { max });
    }
    let clip = SoundboardClip { id, parent: EmojiParent::Server { id: server }, creator_id: user.id.clone(), name: data.name };
    match clip.create(db) {
        Ok(()) => {},
        Err(e) => return Err(e),
    }
    Ok(clip)
}

/// Whether a new soundboard clip for the server `server_id` gets as far as its
/// file: only when the caller may manage the server's assets (`can_manage`)
/// and the server holds fewer than `max` clips, the case in which
/// `create_soundboard_clip` goes on to store it. The uploaded file is taken
/// into use only then.
pub fn clip_takes_file(db: &ReferenceDb, server_id: &str, can_manage: bool, max: usize) -> (b: bool)
    requires
        db.wf(),
    ensures
        b == (can_manage && clips_of(*db, server_id@).len() < max),
{
    if !can_manage {
        return false;
    }
    match db.fetch_soundboard_by_parent_id(server_id) {
        Ok(v) => v.len() < max,
        Err(_) => false,
    }
}

/// What deleting a stored asset with creator `creator` and owner `parent`
/// answers for `user`, who may manage the owning server's assets when
/// `can_manage`: `Some(true)` when it is detached, `Some(false)` when the
/// request succeeds without a change, `None` when the permission is missing.
///
/// Its creator may always detach it; anyone else needs the permission on its
/// server, and an asset already detached is left alone.
pub open spec fn deletion(creator: Seq<char>, parent: EmojiParent, user: User, can_manage: bool) -> Option<bool> {
    if creator == user.id@ {
        Some(true)
    } else {
        match parent {
            EmojiParent::Server { .. } => if can_manage { Some(true) } else { None },
            EmojiParent::Detached => Some(false),
        }
    }
}

/// Deletes the sticker `sticker_id` as `user`, who may manage the assets of
/// its server when `can_manage`: stickers must be switched on for `user` (else
/// `NotFound`), the sticker must be stored (else `NotFound`), and then it is
/// detached or left as `deletion` says.
pub fn delete_sticker(db: &mut ReferenceDb, rollout: &RolloutState, user: &User, sticker_id: &str, can_manage: bool) -> (r: Result<(), ApiError>)
    requires
        old(db).wf(),
    ensures
        final(db).wf(),
        !rollout.spec_user_has_feature(*user, FEATURE_STICKERS@) ==> (r matches Err(e) && e is NotFound),
        rollout.spec_user_has_feature(*user, FEATURE_STICKERS@) && !old(db).spec_stickers().contains_key(sticker_id@) ==> (r matches Err(e) && e is NotFound),
        rollout.spec_user_has_feature(*user, FEATURE_STICKERS@) && old(db).spec_stickers().contains_key(sticker_id@) ==> {
            let st = old(db).spec_stickers()[sticker_id@];
            match deletion(st.creator_id@, st.parent, *user, can_manage) {
                None => r matches Err(ApiError::MissingPermission { permission }) && permission@ == MANAGE_CUSTOMISATION@,
                Some(false) => r is Ok && *final(db) == *old(db),
                Some(true) => r is Ok && final(db).spec_stickers() == old(db).spec_stickers().insert(
                    st.id@,
                    Sticker { parent: EmojiParent::Detached, ..old(db).spec_stickers()[st.id@] },
                ) && old(db).spec_stickers().contains_key(st.id@),
            }
        },
        r is Err ==> *final(db) == *old(db),
{
    if !rollout.user_has_feature(user, FEATURE_STICKERS) {
        return Err(ApiError::NotFound);
    }
    let sticker = match db.fetch_sticker(sticker_id) {
        Ok(s) => s,
        Err(e) => return Err(e),
    };
    proof {
        db.lemma_keys_are_ids();
    }
    if !str_eq(sticker.creator_id.as_str(), user.id.as_str()) {
        match &sticker.parent {
            EmojiParent::Server { .. } => {
                if !can_manage {
                    return Err(missing_manage());
                }
            },
            EmojiParent::Detached => return Ok(()),
        }
    }
    db.detach_sticker(&sticker)
}

/// Deletes the soundboard clip `clip_id` as `user`, as `delete_sticker` does
/// for stickers, behind the soundboard's switch.
pub fn delete_soundboard_clip(db: &mut ReferenceDb, rollout: &RolloutState, user: &User, clip_id: &str, can_manage: bool) -> (r: Result<(), ApiError>)
    requires
        old(db).wf(),
    ensures
        final(db).wf(),
        !rollout.spec_user_has_feature(*user, FEATURE_SOUNDBOARD@) ==> (r matches Err(e) && e is NotFound),
        rollout.spec_user_has_feature(*user, FEATURE_SOUNDBOARD@) && !old(db).spec_clips().contains_key(clip_id@) ==> (r matches Err(e) && e is NotFound),
        rollout.spec_user_has_feature(*user, FEATURE_SOUNDBOARD@) && old(db).spec_clips().contains_key(clip_id@) ==> {
            let c = old(db).spec_clips()[clip_id@];
            match deletion(c.creator_id@, c.parent, *user, can_manage) {
                None => r matches Err(ApiError::MissingPermission { permission }) && permission@ == MANAGE_CUSTOMISATION@,
                Some(false) => r is Ok && *final(db) == *old(db),
                Some(true) => r is Ok && final(db).spec_clips() == old(db).spec_clips().insert(
                    c.id@,
                    SoundboardClip { parent: EmojiParent::Detached, ..old(db).spec_clips()[c.id@] },
                ) && old(db).spec_clips().contains_key(c.id@),
            }
        },
        r is Err ==> *final(db) == *old(db),
{
    if !rollout.user_has_feature(user, FEATURE_SOUNDBOARD) {
        return Err(ApiError::NotFound);
    }
    let clip = match db.fetch_soundboard_clip(clip_id) {
        Ok(c) => c,
        Err(e) => return Err(e),
    };
    proof {
        db.lemma_keys_are_ids();
    }
    if !str_eq(clip.creator_id.as_str(), user.id.as_str()) {
        match &clip.parent {
            EmojiParent::Server { .. } => {
                if !can_manage {
                    return Err(missing_manage());
                }
            },
            EmojiParent::Detached => return Ok(()),
        }
    }
    db.detach_soundboard_clip(&clip)
}

/// A server's stickers.
pub struct StickerListResponse {
    pub stickers: Vec<Sticker>,
}

/// The stickers of the server `server_id`, in storage order, as `user` lists
/// them: none when stickers are switched off for `user`.
pub fn list_stickers_for_server(db: &ReferenceDb, rollout: &RolloutState, user: &User, server_id: &str) -> (r: Result<StickerListResponse, ApiError>)
    requires
        db.wf(),
    ensures
        !rollout.spec_user_has_feature(*user, FEATURE_STICKERS@) ==> (r matches Ok(v) && v.stickers@.len() == 0),
        rollout.spec_user_has_feature(*user, FEATURE_STICKERS@) ==> (r matches Ok(v) && v.stickers@ == stickers_of(*db, server_id@)),
{
    if !rollout.user_has_feature(user, FEATURE_STICKERS) {
        return Ok(StickerListResponse { stickers: Vec::new() });
    }
    match db.fetch_stickers_by_parent_id(server_id) {
        Ok(stickers) => Ok(StickerListResponse { stickers }),
        Err(e) => Err(e),
    }
}

/// A server's soundboard clips.
pub struct SoundboardListResponse {
    pub clips: Vec<SoundboardClip>,
}

/// The soundboard clips of the server `server_id`, in storage order, as `user`
/// lists them: none when soundboards are switched off for `user`.
pub fn list_soundboard_for_server(db: &ReferenceDb, rollout: &RolloutState, user: &User, server_id: &str) -> (r: Result<SoundboardListResponse, ApiError>)
    requires
        db.wf(),
    ensures
        !rollout.spec_user_has_feature(*user, FEATURE_SOUNDBOARD@) ==> (r matches Ok(v) && v.clips@.len() == 0),
        rollout.spec_user_has_feature(*user, FEATURE_SOUNDBOARD@) ==> (r matches Ok(v) && v.clips@ == clips_of(*db, server_id@)),
{
    if !rollout.user_has_feature(user, FEATURE_SOUNDBOARD) {
        return Ok(SoundboardListResponse { clips: Vec::new() });
    }
    match db.fetch_soundboard_by_parent_id(server_id) {
        Ok(clips) => Ok(SoundboardListResponse { clips }),
        Err(e) => Err(e),
    }
}

impl Sticker {
    /// Stores this sticker; an id already held is the store's refusal.
    pub fn create(&self, db: &mut ReferenceDb) -> (r: Result<(), ApiError>)
        requires
            old(db).wf(),
        ensures
            final(db).wf(),
            old(db).spec_stickers().contains_key(self.id@) ==> (r matches Err(e) && e.is_database("insert"@, "sticker"@) && *final(db) == *old(db)),
            !old(db).spec_stickers().contains_key(self.id@) ==> r is Ok && final(db).spec_stickers() == old(db).spec_stickers().insert(self.id@, *self)
                && final(db).spec_sticker_rows() == old(db).spec_sticker_rows().push(*self),
    {
        db.insert_sticker(self)
    }

    /// Detaches this sticker from its server; a sticker that is not stored is `NotFound`.
    pub fn delete(self, db: &mut ReferenceDb) -> (r: Result<(), ApiError>)
        requires
            old(db).wf(),
        ensures
            final(db).wf(),
            !old(db).spec_stickers().contains_key(self.id@) ==> (r matches Err(e) && e is NotFound && *final(db) == *old(db)),
            old(db).spec_stickers().contains_key(self.id@) ==> r is Ok && final(db).spec_stickers() == old(db).spec_stickers().insert(
                self.id@,
                Sticker { parent: EmojiParent::Detached, ..old(db).spec_stickers()[self.id@] },
            ),
    {
        db.detach_sticker(&self)
    }
}

impl SoundboardClip {
    /// Stores this clip; an id already held is the store's refusal.
    pub fn create(&self, db: &mut ReferenceDb) -> (r: Result<(), ApiError>)
        requires
            old(db).wf(),
        ensures
            final(db).wf(),
            old(db).spec_clips().contains_key(self.id@) ==> (r matches Err(e) && e.is_database("insert"@, "soundboard_clip"@) && *final(db) == *old(db)),
            !old(db).spec_clips().contains_key(self.id@) ==> r is Ok && final(db).spec_clips() == old(db).spec_clips().insert(self.id@, *self)
                && final(db).spec_clip_rows() == old(db).spec_clip_rows().push(*self),
    {
        db.insert_soundboard_clip(self)
    }

    /// Detaches this clip from its server; a clip that is not stored is `NotFound`.
    pub fn delete(self, db: &mut ReferenceDb) -> (r: Result<(), ApiError>)
        requires
            old(db).wf(),
        ensures
            final(db).wf(),
            !old(db).spec_clips().contains_key(self.id@) ==> (r matches Err(e) && e is NotFound && *final(db) == *old(db)),
            old(db).spec_clips().contains_key(self.id@) ==> r is Ok && final(db).spec_clips() == old(db).spec_clips().insert(
                self.id@,
                SoundboardClip { parent: EmojiParent::Detached, ..old(db).spec_clips()[self.id@] },
            ),
    {
        db.detach_soundboard_clip(&self)
    }
}

} // verus!
