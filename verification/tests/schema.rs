use backend::database::Database;
use backend::errors::ApiError;
use backend::loader::Loader;
use backend::auth::sessions::Session;
use backend::models::{Media, NewRecommandation, Recommandation, User};
use backend::schema::{Mutation, Query};

const U1: u128 = 0x11111111111141118111111111111111;
const U2: u128 = 0x22222222222242228222222222222222;
const U2_TEXT: &str = "22222222-2222-4222-8222-222222222222";

fn ready() -> Database {
    let mut db = Database::open(":memory:").unwrap();
    db.init().unwrap();
    db
}

fn titan() -> NewRecommandation {
    NewRecommandation { name: "Attack on Titan".to_owned(), media: Media::Anime, link: None }
}

#[test]
fn api_version_is_one_point_zero() {
    assert_eq!(Query::apiVersion(), "1.0");
}

#[test]
fn an_item_is_created_voted_for_and_voted_against() {
    let mut db = ready();
    let item = Mutation::create_recommandation(&mut db, U1, titan()).unwrap();
    assert_eq!(item.name, "Attack on Titan");
    assert_eq!(item.media(), Ok(Media::Anime));
    assert_eq!(item.link, None);
    assert_eq!(item.created_by, U1);

    let listed = Query::recommandations(&db, &mut Loader::new()).unwrap();
    assert!(listed.contains(&item));
    assert_eq!(item.upvote_count(&mut Loader::new(), &db), Ok(0));

    let text = item.id();
    assert_eq!(Mutation::flip_recommandation_vote(&mut db, U2, &text), Ok(item.clone()));
    assert_eq!(item.upvote_count(&mut Loader::new(), &db), Ok(1));
    assert_eq!(db.upvotes_by_recommandation_id(item.id), Ok(vec![U2]));
    assert_eq!(item.upvotes(&mut Loader::new(), &db), Ok(vec![U2_TEXT.to_owned()]));
    assert_eq!(item.is_upvoted_by(&db, U2), Ok(true));
    assert_eq!(item.is_upvoted_by(&db, U1), Ok(false));

    assert_eq!(Mutation::flip_recommandation_vote(&mut db, U2, &text), Ok(item.clone()));
    assert_eq!(item.upvote_count(&mut Loader::new(), &db), Ok(0));
    assert_eq!(item.upvotes(&mut Loader::new(), &db), Ok(vec![]));
    assert_eq!(item.is_upvoted_by(&db, U2), Ok(false));
}

#[test]
fn only_the_creator_deletes_an_item() {
    let mut db = ready();
    let item = Mutation::create_recommandation(&mut db, U1, titan()).unwrap();
    let text = item.id();
    assert_eq!(
        Mutation::delete_recommandation(&mut db, U2, &text),
        Err(ApiError::UnauthorizedOperation)
    );
    assert_eq!(db.recommandation_by_id(item.id), Ok(item.clone()));
    assert_eq!(Mutation::delete_recommandation(&mut db, U1, &text), Ok(item.clone()));
    assert_eq!(db.recommandation_by_id(item.id), Err(ApiError::NotFound));
    assert_eq!(Mutation::delete_recommandation(&mut db, U1, &text), Err(ApiError::NotFound));
}

#[test]
fn a_refused_deletion_keeps_the_votes() {
    let mut db = ready();
    let item = Mutation::create_recommandation_with_id(&mut db, U1, 77, titan()).unwrap();
    Mutation::flip_recommandation_vote_by_id(&mut db, U2, 77).unwrap();
    assert_eq!(
        Mutation::delete_recommandation_by_id(&mut db, U2, 77),
        Err(ApiError::UnauthorizedOperation)
    );
    assert_eq!(item.upvote_count(&mut Loader::new(), &db), Ok(1));
    assert_eq!(Mutation::delete_recommandation_by_id(&mut db, U1, 77), Ok(item.clone()));
    assert_eq!(item.upvote_count(&mut Loader::new(), &db), Ok(0));
}

#[test]
fn creation_under_a_given_identifier() {
    let mut db = ready();
    let made = Mutation::create_recommandation_with_id(&mut db, U1, 77, titan());
    assert_eq!(
        made,
        Ok(Recommandation {
            id: 77,
            name: "Attack on Titan".to_owned(),
            media: 2,
            created_by: U1,
            link: None,
        })
    );
    assert_eq!(
        Mutation::create_recommandation_with_id(&mut db, U2, 77, titan()),
        Err(ApiError::Conflict)
    );
    assert_eq!(Query::recommandations(&db, &mut Loader::new()).unwrap().len(), 1);
    assert_eq!(db.recommandation_by_id(77).unwrap().created_by, U1);
}

#[test]
fn created_items_get_identifiers_of_their_own() {
    let mut db = ready();
    let a = Mutation::create_recommandation(&mut db, U1, titan()).unwrap();
    let b = Mutation::create_recommandation(&mut db, U1, titan()).unwrap();
    assert_ne!(a.id, b.id);
    assert_eq!((a.id >> 76) & 0xf, 4);
    assert_eq!(Query::recommandations(&db, &mut Loader::new()), Ok(vec![a, b]));
}

#[test]
fn mutations_refuse_text_that_is_no_identifier() {
    let mut db = ready();
    Mutation::create_recommandation_with_id(&mut db, U1, 77, titan()).unwrap();
    for text in ["", "77", "not-an-id", "00000000-0000-0000-0000-00000000004", "0000000000000000000000000000004d-"] {
        assert_eq!(Mutation::delete_recommandation(&mut db, U1, text), Err(ApiError::InvalidId));
        assert_eq!(Mutation::flip_recommandation_vote(&mut db, U1, text), Err(ApiError::InvalidId));
    }
    assert_eq!(Query::recommandations(&db, &mut Loader::new()).unwrap().len(), 1);
    assert_eq!(db.upvotes_by_recommandation_id(77), Ok(vec![]));
}

#[test]
fn mutations_read_every_notation_of_an_identifier() {
    let mut db = ready();
    Mutation::create_recommandation_with_id(&mut db, U1, 0x4d, titan()).unwrap();
    for text in [
        "00000000-0000-0000-0000-00000000004d",
        "00000000-0000-0000-0000-00000000004D",
        "0000000000000000000000000000004d",
        "urn:uuid:00000000-0000-0000-0000-00000000004d",
    ] {
        assert!(Mutation::flip_recommandation_vote(&mut db, U2, text).is_ok());
    }
    assert_eq!(db.upvote_by_id(0x4d, U2), Ok(0));
    assert!(Mutation::delete_recommandation(&mut db, U1, "0000000000000000000000000000004D").is_ok());
    assert_eq!(Query::recommandations(&db, &mut Loader::new()), Ok(vec![]));
}

#[test]
fn mutations_on_a_missing_item_are_not_found() {
    let mut db = ready();
    assert_eq!(Mutation::delete_recommandation_by_id(&mut db, U1, 77), Err(ApiError::NotFound));
    assert_eq!(Mutation::flip_recommandation_vote_by_id(&mut db, U1, 77), Err(ApiError::NotFound));
    assert_eq!(db.upvote_by_id(77, U1), Ok(0));
}

#[test]
fn a_store_without_schema_refuses_the_schema_operations() {
    let mut db = Database::open(":memory:").unwrap();
    assert_eq!(Query::recommandations(&db, &mut Loader::new()), Err(ApiError::Database));
    assert_eq!(Mutation::create_recommandation(&mut db, U1, titan()), Err(ApiError::Database));
    assert_eq!(Mutation::delete_recommandation_by_id(&mut db, U1, 77), Err(ApiError::Database));
    assert_eq!(Mutation::flip_recommandation_vote_by_id(&mut db, U1, 77), Err(ApiError::Database));
    let item = Recommandation::new(77, U1, titan());
    assert_eq!(item.upvotes(&mut Loader::new(), &db), Err(ApiError::Database));
    assert_eq!(item.upvote_count(&mut Loader::new(), &db), Err(ApiError::Database));
    assert_eq!(item.is_upvoted_by(&db, U1), Err(ApiError::Database));
}

#[test]
fn the_count_is_the_number_of_voters() {
    let mut db = ready();
    let item = Mutation::create_recommandation_with_id(&mut db, U1, 77, titan()).unwrap();
    for user in 1..=5u128 {
        Mutation::flip_recommandation_vote_by_id(&mut db, user, 77).unwrap();
    }
    Mutation::flip_recommandation_vote_by_id(&mut db, 3, 77).unwrap();
    assert_eq!(item.upvote_count(&mut Loader::new(), &db), Ok(4));
    assert_eq!(
        item.upvotes(&mut Loader::new(), &db),
        Ok(vec![
            "00000000-0000-0000-0000-000000000001".to_owned(),
            "00000000-0000-0000-0000-000000000002".to_owned(),
            "00000000-0000-0000-0000-000000000004".to_owned(),
            "00000000-0000-0000-0000-000000000005".to_owned(),
        ])
    );
}

#[test]
fn item_identifiers_are_read_from_text() {
    assert_eq!(
        backend::schema::item_id("936DA01F-9ABD-4D9D-80C7-02AF85C822A8"),
        Ok(0x936DA01F9ABD4D9D80C702AF85C822A8)
    );
    assert_eq!(
        backend::schema::item_id("936da01f9abd4d9d80c702af85c822a8"),
        Ok(0x936DA01F9ABD4D9D80C702AF85C822A8)
    );
    assert_eq!(
        backend::schema::item_id("urn:uuid:936da01f-9abd-4d9d-80c7-02af85c822a8"),
        Ok(0x936DA01F9ABD4D9D80C702AF85C822A8)
    );
    assert_eq!(backend::schema::item_id(U2_TEXT), Ok(U2));
    assert_eq!(backend::schema::item_id("936da01f"), Err(ApiError::InvalidId));
    assert_eq!(
        backend::schema::item_id("936da01f-9abd-4d9d-80c7-02af85c822a8-"),
        Err(ApiError::InvalidId)
    );
    assert_eq!(
        backend::schema::item_id("936da01f-9abd-4d9d-80c7_02af85c822a8"),
        Err(ApiError::InvalidId)
    );
    assert_eq!(
        backend::schema::item_id("\u{e9}36da01f-9abd-4d9d-80c7-02af85c822a"),
        Err(ApiError::InvalidId)
    );
}

#[test]
fn text_and_identifier_round_trip() {
    for id in [0u128, 1, U1, U2, u128::MAX, 0x0123456789abcdef_fedcba9876543210] {
        let item = Recommandation::new(id, U1, titan());
        assert_eq!(backend::schema::item_id(&item.id()), Ok(id));
    }
}

#[test]
fn an_item_is_deletable_by_its_creator_alone() {
    let item = Recommandation::new(77, U1, titan());
    assert_eq!(item.deletable_by(U1), Ok(()));
    assert_eq!(item.deletable_by(U2), Err(ApiError::UnauthorizedOperation));
    assert_eq!(item.deletable_by(0), Err(ApiError::UnauthorizedOperation));
}

#[test]
fn odd_texts_are_refused_without_a_fault() {
    let odd = [
        "------------------------------------",
        "--------------------------------",
        "urn:uuid:",
        "urn:uuid:936da01f-9abd-4d9d-80c7-02af85c822a",
        "urn:uuid:936da01f9abd4d9d80c702af85c822a8xxxx",
        "URN:UUID:936da01f-9abd-4d9d-80c7-02af85c822a8",
        "{936da01f-9abd-4d9d-80c7-02af85c822a8}",
        "936da01f-9abd-4d9d-80c7-02af85c822a8\n",
        " 936da01f-9abd-4d9d-80c7-02af85c822a8",
        "936da01f-9abd-4d9d-80c7-02af85c822\u{e9}",
        "\u{e9}\u{e9}\u{e9}\u{e9}\u{e9}\u{e9}\u{e9}\u{e9}\u{e9}\u{e9}\u{e9}\u{e9}\u{e9}\u{e9}\u{e9}\u{e9}",
        "936da01f-9abd-4d9d-80c702af-85c822a8",
        "936da01f9abd-4d9d-80c7-02af-85c822a8",
        "936da01f-9abd-4d9d-80c7-02af85c822a8936da01f",
        "936da01f9abd4d9d80c702af85c822a8936d",
        "9-36da01f9abd4d9d80c702af85c822a8",
        "0x936da01f9abd4d9d80c702af85c822",
        "\0",
    ];
    for text in odd {
        assert_eq!(backend::schema::item_id(text), Err(ApiError::InvalidId), "{:?}", text);
    }
}

#[test]
fn a_session_speaks_for_its_stored_principal() {
    let mut db = ready();
    let paul = User { id: U1, name: "paul".to_owned() };
    db.insert_user(&paul).unwrap();
    let session = Session { user_id: U1, permission: "Default".to_owned() };
    assert_eq!(Query::me(&db, &session), Ok(paul));
}

#[test]
fn a_session_without_stored_principal_finds_no_user() {
    let mut db = ready();
    db.insert_user(&User { id: U1, name: "paul".to_owned() }).unwrap();
    let session = Session { user_id: U2, permission: "Default".to_owned() };
    assert_eq!(Query::me(&db, &session), Err(ApiError::NoUserFound));
    assert_eq!(backend::schema::session_user(None), Err(ApiError::NoUserFound));
    let unready = Database::open(":memory:").unwrap();
    assert_eq!(Query::me(&unready, &session), Err(ApiError::Database));
}

#[test]
fn the_voters_of_a_list_cost_one_read() {
    let mut db = ready();
    let mut items = Vec::new();
    for id in 1..=4u128 {
        items.push(Mutation::create_recommandation_with_id(&mut db, U1, id, titan()).unwrap());
    }
    Mutation::flip_recommandation_vote_by_id(&mut db, U2, 1).unwrap();
    Mutation::flip_recommandation_vote_by_id(&mut db, U1, 3).unwrap();
    Mutation::flip_recommandation_vote_by_id(&mut db, U2, 3).unwrap();

    let mut loader = Loader::new();
    let listed = Query::recommandations(&db, &mut loader).unwrap();
    assert_eq!(listed, items);
    assert_eq!(loader.batch(), Some(vec![1, 2, 3, 4]));
    assert_eq!(loader.storage_calls(), 0);
    let counts: Vec<i32> =
        listed.iter().map(|item| item.upvote_count(&mut loader, &db).unwrap()).collect();
    assert_eq!(counts, vec![1, 0, 2, 0]);
    assert_eq!(loader.storage_calls(), 1);
    assert_eq!(listed[0].upvotes(&mut loader, &db), Ok(vec![U2_TEXT.to_owned()]));
    assert_eq!(listed[2].upvotes(&mut loader, &db).unwrap().len(), 2);
    assert_eq!(loader.storage_calls(), 1);
    assert_eq!(loader.batch(), None);
}

#[test]
fn what_a_request_has_read_it_keeps() {
    let mut db = ready();
    let item = Mutation::create_recommandation_with_id(&mut db, U1, 77, titan()).unwrap();
    let mut loader = Loader::new();
    assert_eq!(item.upvote_count(&mut loader, &db), Ok(0));
    Mutation::flip_recommandation_vote_by_id(&mut db, U2, 77).unwrap();
    assert_eq!(item.upvote_count(&mut loader, &db), Ok(0));
    assert_eq!(item.upvotes(&mut loader, &db), Ok(vec![]));
    assert_eq!(loader.storage_calls(), 1);
    assert_eq!(item.upvote_count(&mut Loader::new(), &db), Ok(1));
}

#[test]
fn a_failed_read_is_handed_to_every_item_of_the_list() {
    let db = Database::open(":memory:").unwrap();
    let mut loader = Loader::new();
    assert_eq!(Query::recommandations(&db, &mut loader), Err(ApiError::Database));
    assert_eq!(loader.batch(), None);
    loader.load_all(&vec![1, 2]);
    let first = Recommandation::new(1, U1, titan());
    let second = Recommandation::new(2, U1, titan());
    assert_eq!(first.upvote_count(&mut loader, &db), Err(ApiError::Database));
    assert_eq!(second.upvotes(&mut loader, &db), Err(ApiError::Database));
    assert_eq!(loader.storage_calls(), 1);
}
