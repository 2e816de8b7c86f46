use sitecore::controller::contact::ContactRequest;
use sitecore::controller::hobby::{self, next_order, HobbyRequest};
use sitecore::controller::image::{asset_path, copy_name, find_image, upload_name};
use sitecore::controller::login::{login, LoginError, LoginRequest};
use sitecore::controller::post::{self, PostError, PostRequest};
use sitecore::controller::postcat::{self, PostCatRequest};
use sitecore::controller::project::{self, ProjectRequest};
use sitecore::controller::role::RoleRequest;
use sitecore::controller::setting::{self, SettingRequest};
use sitecore::controller::tech::{self, TechRequest};
use sitecore::controller::user::{self, UserError, UserRequest};
use sitecore::calendar::Date;
use sitecore::credential::verify_password;
use sitecore::ids::{parse_uuid, uuid_text};
use sitecore::models::UserDB;
use sitecore::paging::{PageError, Window};
use sitecore::repository::{Order, Table};
use sitecore::token::{validate_token, AuthConfig};

const KNOWN_HASH: &str = "$2a$04$UuTkLRZZ6QofpDOlMz32MuuxEHA43WOemOYHPz6.SjsVsyO1tDU96";
const USER_ID: &str = "550e8400-e29b-41d4-a716-446655440000";

fn stored_user(deleted_at: Option<i64>) -> UserDB {
    UserDB {
        id: parse_uuid(USER_ID).unwrap(),
        name: "Ada".to_string(),
        email: "ada@example.com".to_string(),
        password: KNOWN_HASH.to_string(),
        phone: None,
        birth: None,
        linkedin: None,
        github: None,
        role_id: 1,
        created_at: 0,
        updated_at: 0,
        deleted_at,
    }
}

fn login_request(email: &str, password: &str) -> LoginRequest {
    LoginRequest { email: email.to_string(), password: password.to_string() }
}

#[test]
fn login_issues_a_token_for_the_user() {
    let c = AuthConfig::new(b"login-secret".to_vec()).unwrap();
    let user = stored_user(None);
    let g = login(&c, &login_request("ada@example.com", "password"), Some(&user), 1_000).unwrap();
    assert_eq!(g.user_id, USER_ID);
    assert_eq!(validate_token(&c, &g.token, 1_000), Ok(USER_ID.to_string()));
}

#[test]
fn login_refusals() {
    let c = AuthConfig::new(b"login-secret".to_vec()).unwrap();
    let user = stored_user(None);
    assert_eq!(login(&c, &login_request("ada@example.com", "nope"), Some(&user), 1).err(), Some(LoginError::InvalidPassword));
    assert_eq!(login(&c, &login_request("ada@example.com", "password"), None, 1).err(), Some(LoginError::InvalidEmail));
    assert_eq!(login(&c, &login_request("bob@example.com", "password"), Some(&user), 1).err(), Some(LoginError::InvalidEmail));
    let gone = stored_user(Some(5));
    assert_eq!(login(&c, &login_request("ada@example.com", "password"), Some(&gone), 1).err(), Some(LoginError::InvalidEmail));
}

#[test]
fn uuid_round_trips_through_text() {
    let v = parse_uuid(USER_ID).unwrap();
    assert_eq!(v, 0x550e8400_e29b_41d4_a716_446655440000u128);
    assert_eq!(uuid_text(v), USER_ID);
    assert_eq!(parse_uuid("not-a-uuid"), None);
}

#[test]
fn hobby_row_fills_defaults() {
    let r = HobbyRequest { title: "Chess".into(), content: "Openings".into(), image: None, item_order: 3, active: true, published: false, order: 7 };
    let h = r.to_hobby_db(123).unwrap();
    assert_eq!(h.title, "Chess");
    assert_eq!(h.image, Some(String::new()));
    assert_eq!((h.item_order, h.order, h.active, h.published), (3, 7, true, false));
    assert_eq!((h.created_at, h.updated_at, h.deleted_at), (123, 123, None));
}

#[test]
fn hobby_listing_query() {
    let p = hobby::PaginationParams { page: Some(2), limit: None, search: Some("".into()) };
    let q = p.to_query(true).unwrap();
    assert_eq!(q.window, Window { offset: 20, limit: Some(20) });
    assert_eq!(q.search, None);
    assert_eq!(q.flag, Some(true));
    assert_eq!(q.order, Order::RankDesc);
    let p = hobby::PaginationParams { page: None, limit: Some(-3), search: None };
    assert!(matches!(p.to_query(false), Err(PageError::NegativeLimit)));
}

#[test]
fn next_hobby_order() {
    assert_eq!(next_order(None), Some(1));
    assert_eq!(next_order(Some(4)), Some(5));
    assert_eq!(next_order(Some(i32::MAX)), None);
}

#[test]
fn category_listing_is_unbounded_by_default() {
    let p = postcat::PaginationParams { page: Some(3), limit: None, search: Some("news".into()) };
    let q = p.to_query().unwrap();
    assert_eq!(q.window, Window { offset: 0, limit: None });
    assert_eq!(q.search, Some("news".to_string()));
    assert_eq!(q.order, Order::IdDesc);
    let c = PostCatRequest { name: "News".into(), slug: "news".into(), description: None, published: true }.to_pcat_db(9).unwrap();
    assert_eq!(c.description, Some(String::new()));
}

#[test]
fn post_rows_need_a_uuid_author() {
    let mut r = PostRequest {
        title: "Hello".into(),
        subtitle: Some("sub".into()),
        slug: "hello".into(),
        content: "body".into(),
        category_id: 2,
        tags: None,
        author_id: USER_ID.into(),
        published: true,
    };
    let p = r.to_post_db(55).unwrap();
    assert_eq!(p.author_id, 0x550e8400_e29b_41d4_a716_446655440000u128);
    assert_eq!(p.subtitle, Some("sub".to_string()));
    assert_eq!(p.tags, Some(String::new()));
    assert_eq!(p.category_id, 2);
    r.author_id = "someone".into();
    assert!(matches!(r.to_post_db(55), Err(PostError::InvalidAuthorId)));
}

#[test]
fn post_listing_query() {
    let p = post::PaginationParams { page: Some(1), limit: Some(5), cat: Some("rust".into()) };
    let q = p.to_query().unwrap();
    assert_eq!(q.window, Window { offset: 0, limit: Some(5) });
    assert_eq!(q.category, Some("rust".to_string()));
    let p = post::PaginationParams { page: None, limit: None, cat: Some(String::new()) };
    assert_eq!(p.to_query().unwrap().category, None);
}

#[test]
fn project_links_and_listing() {
    let r = ProjectRequest {
        title: "Site".into(),
        content: "c".into(),
        source: None,
        url: Some("https://x".into()),
        demo: None,
        relevant: false,
        published: true,
        tech_ids: vec![3, 1, 4],
    };
    assert_eq!(r.tech_links(9), vec![(9, 3), (9, 1), (9, 4)]);
    let p = r.to_project_db(77);
    assert_eq!((p.source, p.url, p.demo), (Some(String::new()), Some("https://x".to_string()), Some(String::new())));
    let q = project::PaginationParams { page: None, limit: None, rlv: None }.to_query().unwrap();
    assert_eq!(q.flag, Some(true));
    let q = project::PaginationParams { page: None, limit: None, rlv: Some(false) }.to_query().unwrap();
    assert_eq!(q.flag, Some(false));
}

#[test]
fn role_setting_and_tech_rows() {
    let r = RoleRequest { name: "admin".into(), level: "1".into(), can_modify_user: true, can_edit: true, can_view: true, is_guest: false }.to_role_db(4).unwrap();
    assert!(r.can_modify_user && !r.is_guest);
    let s = SettingRequest { param: "theme".into(), value: "dark".into(), note: None }.to_setting_db(4).unwrap();
    assert_eq!(s.note, Some(String::new()));
    let t = TechRequest { title: "Rust".into(), icon: None }.to_tech_db(4).unwrap();
    assert_eq!(t.icon, None);
    let q = setting::PaginationParams { page: Some(2), limit: Some(10) }.to_query().unwrap();
    assert_eq!(q.window, Window { offset: 10, limit: Some(10) });
    let q = tech::PaginationParams { page: None, limit: None, search: Some("ru".into()) }.to_query().unwrap();
    assert_eq!(q.like_pattern(), Some("%ru%".to_string()));
}

#[test]
fn user_rows_need_a_date() {
    let mut r = UserRequest {
        name: "Ada".into(),
        email: "ada@example.com".into(),
        password: "pw".into(),
        phone: "123".into(),
        birth: "1815-13-10".into(),
        linkedin: None,
        github: Some("ada".into()),
        role_id: 2,
    };
    assert!(matches!(r.to_user_db(1), Err(UserError::InvalidDate)));
    r.birth = "1815-12-10".into();
    let u = r.to_user_db(1).unwrap();
    assert_eq!(u.birth, Some(Date { year: 1815, month: 12, day: 10 }));
    assert!(verify_password("pw", &u.password));
    assert_eq!(u.linkedin, Some(String::new()));
    assert_eq!(u.phone, Some("123".to_string()));
    let q = user::PaginationParams { page: None, limit: None, search: None }.to_query().unwrap();
    assert_eq!(q.window, Window { offset: 0, limit: Some(20) });
}

#[test]
fn contact_rows_and_reply_address() {
    let r = ContactRequest { subject: "Hi".into(), name: "Ada L".into(), email: "ada@example.com".into(), content: "Hello".into() };
    assert_eq!(r.reply_to(), "Ada L <ada@example.com>");
    let c = r.to_hobby_db("10.0.0.1".into(), 8).unwrap();
    assert_eq!(c.ip_address, Some("10.0.0.1".to_string()));
    assert_eq!(c.created_at, 8);
}

#[test]
fn upload_names() {
    assert_eq!(upload_name(None), "upload_file");
    assert_eq!(upload_name(Some("../etc/passwd")), "..etcpasswd");
    assert_eq!(upload_name(Some("cat.png")), "cat.png");
}

#[test]
fn copy_names_keep_the_extension() {
    assert_eq!(copy_name("photo.png", 1), "photo-copy1.png");
    assert_eq!(copy_name("archive.tar.gz", 12), "archive.tar-copy12.gz");
    assert_eq!(copy_name(".hidden", 3), ".hidden-copy3");
    assert_eq!(copy_name("noext", 0), "noext-copy0");
    assert_eq!(copy_name("trailing.", 2), "trailing-copy2");
    assert_eq!(copy_name("photo-copy1.png", 2), "photo-copy1-copy2.png");
}

#[test]
fn image_paths() {
    assert_eq!(asset_path("cat.png"), "/assets/cat.png");
    let names = vec!["a.png".to_string(), "cat.png".to_string()];
    assert_eq!(find_image(&names, "cat.png"), "/assets/cat.png");
    assert_eq!(find_image(&names, "dog.png"), "");
}

#[test]
fn hobby_search_looks_at_title_and_content() {
    let mut t = Table::new();
    let mut ids = Vec::new();
    for (title, content, order, published) in [("Chess", "Openings and endgames", 2, true), ("Running", "Trail chess club", 5, false), ("Piano", "Scales", 9, true)] {
        let r = HobbyRequest { title: title.into(), content: content.into(), image: None, item_order: 0, active: true, published, order };
        let h = r.to_hobby_db(0).unwrap();
        assert_eq!(h.search_columns(), vec![title.to_string(), content.to_string()]);
        ids.push(t.create(h.order as i64, h.published, h.search_columns()).unwrap());
    }
    let all = hobby::PaginationParams { page: None, limit: None, search: Some("CHESS".into()) }.to_query(false).unwrap();
    assert_eq!(t.list(&all), vec![ids[1], ids[0]]);
    let published = hobby::PaginationParams { page: None, limit: None, search: None }.to_query(true).unwrap();
    assert_eq!(t.list(&published), vec![ids[2], ids[0]]);
}

#[test]
fn dot_names_never_survive() {
    assert_eq!(upload_name(Some("..")), "");
    assert_eq!(upload_name(Some(".")), "");
    assert_eq!(upload_name(Some("./")), "");
    assert_eq!(upload_name(Some("report-2024_v2.pdf")), "report-2024_v2.pdf");
}

#[test]
fn new_user_ids_are_version_four() {
    for _ in 0..8 {
        let id = sitecore::ids::new_user_id();
        assert_eq!((id >> 76) & 0xf, 4);
        assert_eq!((id >> 62) & 0x3, 2);
        let text = uuid_text(id);
        assert_eq!(text.len(), 36);
        assert_eq!(parse_uuid(&text), Some(id));
    }
}

#[test]
fn uuid_text_groups_lower_case_hex() {
    assert_eq!(uuid_text(0), "00000000-0000-0000-0000-000000000000");
    assert_eq!(uuid_text(u128::MAX), "ffffffff-ffff-ffff-ffff-ffffffffffff");
    assert_eq!(uuid_text(0x0123456789abcdef0011223344556677), "01234567-89ab-cdef-0011-223344556677");
}
