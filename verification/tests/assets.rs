use delta::assets::{
    asset_name_ok, check_soundboard_request, check_sticker_request, create_soundboard_clip, create_sticker,
    delete_soundboard_clip, delete_sticker, list_soundboard_for_server, list_stickers_for_server, DataCreateEmoji,
    DataCreateSoundboardClip, clip_takes_file, sticker_takes_file,
};
use delta::customisation::{EmojiParent, SoundboardClip, Sticker};
use delta::error::ApiError;
use delta::rollout::RolloutState;
use delta::store::ReferenceDb;
use delta::users::User;

fn user(id: &str) -> User {
    User {
        id: id.to_owned(),
        username: id.to_owned(),
        discriminator: "0001".to_owned(),
        display_name: None,
        privileged: false,
        platform_admin_role: None,
        platform_permissions: None,
        badges: None,
        flags: None,
        profile: None,
        bot: false,
    }
}

fn on() -> RolloutState {
    RolloutState::from_config("0", "", "", "")
}

fn sticker_data(name: &str, server: &str) -> DataCreateEmoji {
    DataCreateEmoji { name: name.to_owned(), parent: EmojiParent::Server { id: server.to_owned() }, nsfw: true }
}

#[test]
fn names_are_lower_case_words() {
    assert!(asset_name_ok("party_parrot_2"));
    assert!(!asset_name_ok("Party"));
    assert!(!asset_name_ok(""));
    assert!(!asset_name_ok("a-b"));
}

#[test]
fn sticker_requests_are_checked() {
    let u = user("u1");
    assert_eq!(check_sticker_request(&on(), &u, &sticker_data("ok", "s1")).unwrap(), "s1");
    assert!(matches!(check_sticker_request(&on(), &u, &sticker_data(&"a".repeat(33), "s1")), Err(ApiError::FailedValidation { .. })));
    let detached = DataCreateEmoji { name: "ok".to_owned(), parent: EmojiParent::Detached, nsfw: false };
    assert!(matches!(check_sticker_request(&on(), &u, &detached), Err(ApiError::InvalidOperation)));
    let off = RolloutState::from_config("0", "stickers_v1", "", "");
    assert!(matches!(check_sticker_request(&off, &u, &sticker_data("ok", "s1")), Err(ApiError::NotFound)));
    let clip = DataCreateSoundboardClip { name: "Loud".to_owned(), parent: EmojiParent::Server { id: "s1".to_owned() } };
    match check_soundboard_request(&on(), &u, &clip) {
        Err(ApiError::FailedValidation { error }) => assert_eq!(error, "invalid soundboard name"),
        other => panic!("unexpected {other:?}"),
    }
}

#[test]
fn stickers_are_created_up_to_the_limit() {
    let mut db = ReferenceDb::new();
    let u = user("u1");
    let s = create_sticker(&mut db, &on(), &u, "st1".to_owned(), sticker_data("wave", "s1"), true, 2, "image/gif").unwrap();
    assert!(s.animated);
    assert!(s.nsfw);
    assert_eq!(s.creator_id, "u1");
    let s = create_sticker(&mut db, &on(), &u, "st2".to_owned(), sticker_data("smile", "s1"), true, 2, "image/png").unwrap();
    assert!(!s.animated);
    assert!(matches!(create_sticker(&mut db, &on(), &u, "st3".to_owned(), sticker_data("more", "s1"), true, 2, "image/png"), Err(ApiError::TooManyEmoji { max: 2 })));
    assert!(matches!(create_sticker(&mut db, &on(), &u, "st4".to_owned(), sticker_data("more", "s2"), false, 2, "image/png"), Err(ApiError::MissingPermission { .. })));
    assert!(matches!(create_sticker(&mut db, &on(), &u, "st1".to_owned(), sticker_data("again", "s2"), true, 2, "image/png"), Err(ApiError::DatabaseError { .. })));
    let list = list_stickers_for_server(&db, &on(), &u, "s1").unwrap();
    assert_eq!(list.stickers.len(), 2);
    let off = RolloutState::from_config("0", "stickers_v1", "", "");
    assert!(list_stickers_for_server(&db, &off, &u, "s1").unwrap().stickers.is_empty());
}

#[test]
fn stickers_are_deleted_by_their_creator_or_a_manager() {
    let mut db = ReferenceDb::new();
    let creator = user("u1");
    let other = user("u2");
    create_sticker(&mut db, &on(), &creator, "st1".to_owned(), sticker_data("wave", "s1"), true, 10, "image/png").unwrap();
    assert!(matches!(delete_sticker(&mut db, &on(), &other, "st1", false), Err(ApiError::MissingPermission { .. })));
    delete_sticker(&mut db, &on(), &other, "st1", true).unwrap();
    assert!(list_stickers_for_server(&db, &on(), &creator, "s1").unwrap().stickers.is_empty());
    assert!(matches!(db.fetch_sticker("st1").unwrap().parent, EmojiParent::Detached));
    delete_sticker(&mut db, &on(), &other, "st1", false).unwrap();
    assert!(matches!(delete_sticker(&mut db, &on(), &other, "nope", true), Err(ApiError::NotFound)));
    create_sticker(&mut db, &on(), &creator, "st2".to_owned(), sticker_data("own", "s1"), true, 10, "image/png").unwrap();
    delete_sticker(&mut db, &on(), &creator, "st2", false).unwrap();
    assert!(matches!(db.fetch_sticker("st2").unwrap().parent, EmojiParent::Detached));
}

#[test]
fn soundboard_clips_follow_the_same_rules() {
    let mut db = ReferenceDb::new();
    let u = user("u1");
    let data = DataCreateSoundboardClip { name: "airhorn".to_owned(), parent: EmojiParent::Server { id: "s1".to_owned() } };
    let c = create_soundboard_clip(&mut db, &on(), &u, "c1".to_owned(), data, true, 1).unwrap();
    assert_eq!(c.name, "airhorn");
    let data = DataCreateSoundboardClip { name: "beep".to_owned(), parent: EmojiParent::Server { id: "s1".to_owned() } };
    assert!(matches!(create_soundboard_clip(&mut db, &on(), &u, "c2".to_owned(), data, true, 1), Err(ApiError::TooManyEmoji { max: 1 })));
    assert_eq!(list_soundboard_for_server(&db, &on(), &u, "s1").unwrap().clips.len(), 1);
    delete_soundboard_clip(&mut db, &on(), &u, "c1", false).unwrap();
    assert!(list_soundboard_for_server(&db, &on(), &u, "s1").unwrap().clips.is_empty());
    let off = RolloutState::from_config("0", "soundboard_v1", "", "");
    assert!(matches!(delete_soundboard_clip(&mut db, &off, &u, "c1", true), Err(ApiError::NotFound)));
}

#[test]
fn assets_create_and_delete_themselves() {
    let mut db = ReferenceDb::new();
    let s = Sticker { id: "x".to_owned(), parent: EmojiParent::Server { id: "s".to_owned() }, creator_id: "u".to_owned(), name: "n".to_owned(), animated: false, nsfw: false };
    assert_eq!(s.parent_server_id(), "s");
    s.create(&mut db).unwrap();
    assert!(s.create(&mut db).is_err());
    s.delete(&mut db).unwrap();
    assert_eq!(db.fetch_sticker("x").unwrap().parent_server_id(), "");
    let c = SoundboardClip { id: "y".to_owned(), parent: EmojiParent::Server { id: "s".to_owned() }, creator_id: "u".to_owned(), name: "n".to_owned() };
    c.create(&mut db).unwrap();
    c.delete(&mut db).unwrap();
    assert!(matches!(db.fetch_soundboard_clip("y").unwrap().parent, EmojiParent::Detached));
}

#[test]
fn the_file_is_taken_only_when_the_asset_can_be_stored() {
    let mut db = ReferenceDb::new();
    let u = user("u1");
    assert!(sticker_takes_file(&db, "s1", true, 1));
    assert!(!sticker_takes_file(&db, "s1", false, 1));
    create_sticker(&mut db, &on(), &u, "st1".to_owned(), sticker_data("wave", "s1"), true, 1, "image/png").unwrap();
    assert!(!sticker_takes_file(&db, "s1", true, 1));
    assert!(sticker_takes_file(&db, "s1", true, 2));
    assert!(sticker_takes_file(&db, "s2", true, 1));
    assert!(clip_takes_file(&db, "s1", true, 1));
    assert!(!clip_takes_file(&db, "s1", true, 0));
    assert!(!clip_takes_file(&db, "s1", false, 5));
}
