use foxtown::clock::Instant;
use foxtown::content::{BannerBoard, ContentError, ContentKind, EventBoard, NewsBoard, ShopInfoBook};
use foxtown::auth::{AuthError, Role, UserDto};
use foxtown::voucher_admin::{format_created_at_display, sort_arrow, sort_vouchers, SortColumn, SortDir};
use foxtown::voucher_issue::{
    generate_qr_svg_data_url, parse_u16, prepare_voucher, prepare_voucher_at, qr_preview, record_voucher, smtp_fake_mode, smtp_from,
    smtp_port, voucher_email_html, voucher_qr_payload, VoucherIssueError,
};
use foxtown::vouchers::{
    names_found,
    cooldown_until, list_active_vouchers, list_all_vouchers_admin, needs_name_lookup, next_voucher_id,
    purge_redeemed_vouchers, recent_summary, recent_vouchers, utc_day_start, verify_voucher, voucher_count_for_day,
    voucher_quota_reached, voucher_verify_url, VoucherRecord,
};

fn voucher(id: u64, token: &str, valid_until: &str, created_at: &str, redeemed: bool) -> VoucherRecord {
    VoucherRecord {
        id,
        qr_token: token.to_string(),
        email: format!("user{id}@example.com"),
        username: format!("user{id}"),
        first_name: String::new(),
        last_name: String::new(),
        store: "Prada".to_string(),
        discount: 20,
        valid_until: valid_until.to_string(),
        created_at: created_at.to_string(),
        redeemed,
    }
}

fn editor() -> Option<UserDto> {
    Some(UserDto {
        id: 2,
        username: "ed".to_string(),
        email: "ed@example.com".to_string(),
        first_name: String::new(),
        last_name: String::new(),
        role: Role::Editor,
    })
}

fn admin() -> Option<UserDto> {
    Some(UserDto {
        id: 1,
        username: "admin".to_string(),
        email: "admin@example.com".to_string(),
        first_name: String::new(),
        last_name: String::new(),
        role: Role::Admin,
    })
}

const DAY: i64 = 20_000;

fn at(h: i64, m: i64) -> String {
    // 2024-10-04 is day 20000 since the epoch.
    format!("2024-10-04T{:02}:{:02}:00Z", h, m)
}

#[test]
fn verification_tells_valid_used_expired_and_unknown() {
    let vs = vec![
        voucher(1, "t1", "2030-01-01", &at(8, 0), false),
        voucher(2, "t2", "2030-01-01", &at(8, 0), true),
        voucher(3, "t3", "2020-01-01", &at(8, 0), false),
    ];
    let today = "2024-10-04";
    let r = verify_voucher(&vs, "t1", today);
    assert!(r.valid);
    assert_eq!(r.message, "Voucher is valid");
    assert_eq!(verify_voucher(&vs, "t2", today).message, "Voucher already redeemed");
    assert_eq!(verify_voucher(&vs, "t3", today).message, "Voucher expired");
    let none = verify_voucher(&vs, "zz", today);
    assert!(!none.valid && none.voucher.is_none());
    assert_eq!(none.message, "Voucher not found");
    let still = verify_voucher(&vec![voucher(4, "t4", "2024-10-04", &at(8, 0), false)], "t4", today);
    assert!(still.valid);
}

#[test]
fn purge_drops_redeemed_and_counts_them() {
    let mut vs = vec![
        voucher(1, "a", "2030-01-01", &at(8, 0), true),
        voucher(2, "b", "2030-01-01", &at(8, 0), false),
        voucher(3, "c", "2030-01-01", &at(8, 0), true),
    ];
    assert_eq!(purge_redeemed_vouchers(&mut vs), 2);
    assert_eq!(vs.len(), 1);
    assert_eq!(vs[0].id, 2);
}

#[test]
fn ids_quota_and_urls() {
    let vs = vec![voucher(4, "a", "x", "y", false), voucher(9, "b", "x", "y", false), voucher(2, "c", "x", "y", false)];
    assert_eq!(next_voucher_id(&vs), 10);
    assert_eq!(next_voucher_id(&vec![]), 1);
    assert!(voucher_quota_reached(10));
    assert!(!voucher_quota_reached(9));
    assert_eq!(voucher_verify_url("http://localhost:8080", "abc"), "http://localhost:8080/voucher/verify?token=abc");
}

#[test]
fn count_for_day_reads_utc_days() {
    let vs = vec![
        voucher(1, "a", "x", &at(0, 0), false),
        voucher(2, "b", "x", &at(23, 59), false),
        voucher(3, "c", "x", "2024-10-05T00:00:00Z", false),
        voucher(4, "d", "x", "2024-10-04T23:30:00-02:00", false),
        voucher(5, "e", "x", "not a date", false),
    ];
    let now = Instant { secs: DAY * 86_400 + 3600, nanos: 0 };
    assert_eq!(voucher_count_for_day(&vs, now), 2);
    assert_eq!(utc_day_start(-1), -86_400);
    assert_eq!(utc_day_start(86_401), 86_400);
}

#[test]
fn cooldown_runs_for_a_day_after_the_tenth_voucher() {
    let mut vs = Vec::new();
    for i in 0..10 {
        vs.push(voucher(i + 1, "t", "x", &at(10, i as i64), false));
    }
    let tenth = DAY * 86_400 + 10 * 3600 + 9 * 60;
    let during = Instant { secs: tenth + 3600, nanos: 0 };
    let c = cooldown_until(&vs, during).expect("cool-down");
    assert_eq!(c.secs, tenth + 86_400);
    let after = Instant { secs: tenth + 86_400, nanos: 0 };
    assert!(cooldown_until(&vs, after).is_none());
    vs.pop();
    assert!(cooldown_until(&vs, during).is_none());
}

#[test]
fn admin_list_is_newest_first() {
    let vs = vec![
        voucher(1, "a", "x", &at(9, 0), false),
        voucher(2, "b", "x", &at(11, 0), false),
        voucher(3, "c", "x", &at(10, 0), false),
    ];
    let ids: Vec<u64> = list_all_vouchers_admin(&vs).iter().map(|v| v.id).collect();
    assert_eq!(ids, vec![2, 3, 1]);
    let recent: Vec<u64> = recent_vouchers(&vs, 2).iter().map(|v| v.id).collect();
    assert_eq!(recent, vec![2, 3]);
    assert_eq!(recent_vouchers(&vs, 0).len(), 3);
}

#[test]
fn active_list_expires_first_in_front() {
    let vs = vec![
        voucher(1, "a", "2030-05-01", &at(9, 0), false),
        voucher(2, "b", "2029-01-01", &at(9, 0), false),
        voucher(3, "c", "2029-01-01", &at(9, 0), true),
        voucher(4, "d", "2020-01-01", &at(9, 0), false),
    ];
    let active = list_active_vouchers(&vs, "2024-10-04");
    let days: Vec<&str> = active.iter().map(|s| s.valid_until.as_str()).collect();
    assert_eq!(days, vec!["2029-01-01", "2030-05-01"]);
}

#[test]
fn table_sorts_by_any_column() {
    let full = list_all_vouchers_admin(&vec![
        voucher(2, "a", "2030-01-01", &at(9, 0), true),
        voucher(1, "b", "2029-01-01", "garbage", false),
        voucher(3, "c", "2031-01-01", &at(8, 0), false),
    ]);
    let ids = |v: Vec<foxtown::vouchers::VoucherAdminFull>| v.iter().map(|x| x.id).collect::<Vec<u64>>();
    assert_eq!(ids(sort_vouchers(&full, SortColumn::Id, SortDir::Asc)), vec![1, 2, 3]);
    assert_eq!(ids(sort_vouchers(&full, SortColumn::Id, SortDir::Desc)), vec![3, 2, 1]);
    assert_eq!(ids(sort_vouchers(&full, SortColumn::CreatedAt, SortDir::Asc)), vec![3, 2, 1]);
    assert_eq!(ids(sort_vouchers(&full, SortColumn::Redeemed, SortDir::Asc)).last(), Some(&2));
    assert_eq!(sort_arrow(SortColumn::Id, SortColumn::Store, SortDir::Asc), "");
    assert_eq!(sort_arrow(SortColumn::Id, SortColumn::Id, SortDir::Asc), " \u{2191}");
    assert_eq!(sort_arrow(SortColumn::Id, SortColumn::Id, SortDir::Desc), " \u{2193}");
    assert_eq!(format_created_at_display(" 2026-04-26T18:09:14.123+02:00 "), "2026-04-26 18:09:14");
    assert_eq!(format_created_at_display("soon"), "soon");
}

#[test]
fn recent_winners_get_public_labels() {
    let full = list_all_vouchers_admin(&vec![voucher(1, "a", "x", &at(9, 0), false)]);
    assert!(needs_name_lookup(&full[0]));
    let s = recent_summary(&full[0], "marie", "curie");
    assert_eq!(s.display_name, "Marie C.");
    assert_eq!(s.store, "Prada");
}

#[test]
fn qr_payload_and_image() {
    let p = voucher_qr_payload("a\"b@x.ch", "Prada", 20, "2030-01-01").expect("payload");
    assert_eq!(p, "{\"email\":\"a\\\"b@x.ch\",\"store\":\"Prada\",\"discount\":20,\"valid_until\":\"2030-01-01\"}");
    let url = generate_qr_svg_data_url(&p).expect("qr");
    assert!(url.starts_with("data:image/svg+xml;base64,"));
    assert!(url.len() > 100);
    let encoded = &url["data:image/svg+xml;base64,".len()..];
    assert!(encoded.chars().all(|c| c.is_ascii_alphanumeric() || c == '+' || c == '/' || c == '='));
    assert!(encoded.starts_with("PD94bWwg") || encoded.starts_with("PHN2Zy"));
    assert_eq!(qr_preview("abc"), "abc");
    assert_eq!(qr_preview(&url).chars().count(), 64);
}

#[test]
fn prepare_refuses_without_role_or_over_quota() {
    let now = Instant { secs: DAY * 86_400 + 20 * 3600, nanos: 0 };
    let r = prepare_voucher_at(None, &vec![], now, "http://h", "e@x", "S", 10, "2030-01-01");
    assert!(matches!(r, Err(VoucherIssueError::Auth(AuthError::Unauthorized))));
    let mut full = Vec::new();
    for i in 0..10 {
        full.push(voucher(i + 1, "t", "x", &at(10, i as i64), false));
    }
    let r = prepare_voucher_at(editor(), &full, now, "http://h", "e@x", "S", 10, "2030-01-01");
    assert!(matches!(r, Err(VoucherIssueError::QuotaReached)));
    assert_eq!(VoucherIssueError::QuotaReached.message(), "Quota journalier de bons atteint (minuit UTC).");
    let three = || (0..3).map(|i| voucher(i + 1, "t", "x", &at(10, i as i64), false)).collect::<Vec<_>>();
    let d = prepare_voucher_at(editor(), &three(), now, "http://h", "e@x", "S", 10, "2030-01-01")
        .ok()
        .expect("draft");
    assert_eq!(d.id, 4);
    assert_eq!(d.qr_token.len(), 36);
    assert_eq!(d.verify_url, format!("http://h/voucher/verify?token={}", d.qr_token));
    let mut book = three();
    let result = record_voucher(&mut book, d, "e@x", "ed", "Ed".to_string(), "Do".to_string(), "S", 10, "2030-01-01");
    assert_eq!(book.len(), 4);
    assert_eq!(book[3].id, 4);
    assert!(!book[3].redeemed);
    assert_eq!(result.discount, 10);
}

#[test]
fn email_and_mail_settings() {
    let html = voucher_email_html("jean", 15, "Gucci", "2030-01-01", "data:x", "http://v");
    assert!(html.starts_with("\n        <div style=\"font-family: Arial, sans-serif; color: #1f2937;\">"));
    assert!(html.contains("<p>Hello jean,</p>"));
    assert!(html.contains("<p>You won <strong>-15%</strong> at <strong>Gucci</strong>.</p>"));
    assert!(html.contains("Verification URL: <a href=\"http://v\">http://v</a>"));
    assert!(smtp_fake_mode(Some(" TRUE ")));
    assert!(smtp_fake_mode(Some("On")));
    assert!(!smtp_fake_mode(Some("nope")));
    assert!(!smtp_fake_mode(None));
    assert_eq!(smtp_port(Some("2525")), 2525);
    assert_eq!(smtp_port(Some("+25")), 25);
    assert_eq!(smtp_port(Some("70000")), 587);
    assert_eq!(smtp_port(Some("")), 587);
    assert_eq!(smtp_port(None), 587);
    assert_eq!(parse_u16("65535"), Some(65535));
    assert_eq!(parse_u16("-1"), None);
    assert_eq!(smtp_from(None), "noreply@foxtown.local");
}

#[test]
fn news_board_create_update_delete() {
    let now = Instant { secs: 1_700_000_000, nanos: 0 };
    let mut b = NewsBoard::seeded(now);
    assert_eq!(b.list_news().len(), 2);
    assert!(matches!(b.create_news_at(None, "t".to_string(), "b".to_string(), now), Err(ContentError::Auth(AuthError::Unauthorized))));
    let n = b.create_news_at(editor(), "Hi".to_string(), "<p>x</p>".to_string(), now).ok().expect("created");
    assert_eq!(n.id, 3);
    assert_eq!(n.author, "ed");
    assert_eq!(b.next_id, 4);
    let u = b.update_news_at(editor(), 3, "Hey".to_string(), "y".to_string(), now).ok().expect("updated");
    assert_eq!(u.title, "Hey");
    let missing = b.update_news_at(editor(), 77, "a".to_string(), "b".to_string(), now);
    assert_eq!(missing.err().map(|e| e.message()), Some("News item 77 not found".to_string()));
    assert!(matches!(b.delete_news(editor(), 3), Err(ContentError::Auth(AuthError::Forbidden))));
    assert!(b.delete_news(admin(), 3).is_ok());
    assert_eq!(b.delete_news(admin(), 3), Err(ContentError::NotFound(ContentKind::News, 3)));
    assert_eq!(b.list_news().len(), 2);
}

#[test]
fn events_and_banners() {
    let now = Instant { secs: 1_700_000_000, nanos: 0 };
    let mut e = EventBoard::seeded(now);
    let ev = e
        .create_event_at(editor(), "Sale".to_string(), "d".to_string(), "2026-06-01".to_string(), None, "Hall".to_string(), now)
        .ok()
        .expect("event");
    assert_eq!(ev.id, 3);
    assert_eq!(ContentError::NotFound(ContentKind::Event, 9).message(), "Event 9 not found");

    let mut b = BannerBoard::seeded();
    let nb = b.create_banner(editor(), "New".to_string(), "/i.png".to_string(), None, 0).ok().expect("banner");
    assert!(!nb.active);
    assert_eq!(b.list_banners().len(), 1);
    assert!(b.set_banner_active(editor(), nb.id, true).is_ok());
    let shown: Vec<u32> = b.list_banners().iter().map(|x| x.id).collect();
    assert_eq!(shown, vec![2, 1]);
    assert_eq!(b.set_banner_active(editor(), 42, true), Err(ContentError::NotFound(ContentKind::Banner, 42)));
    assert_eq!(b.list_all_banners(editor()).ok().map(|v| v.len()), Some(2));
}

#[test]
fn shop_details_are_replaced_by_slug() {
    let now = Instant { secs: 1_700_000_000, nanos: 0 };
    let mut book = ShopInfoBook::new();
    assert!(book.get_shop_info("gucci").is_none());
    book.upsert_shop_info_at(editor(), "gucci".to_string(), "d1".to_string(), "h".to_string(), None, now).ok().expect("set");
    book.upsert_shop_info_at(editor(), "gucci".to_string(), "d2".to_string(), "h".to_string(), None, now).ok().expect("set");
    assert_eq!(book.entries.len(), 1);
    let got = book.get_shop_info("gucci").expect("found");
    assert_eq!(got.description, "d2");
    assert_eq!(got.updated_by, "ed");
}

#[test]
fn purging_twice_is_purging_once_and_verified_vouchers_are_listed() {
    let mut vs = vec![
        voucher(1, "a", "2030-01-01", &at(8, 0), true),
        voucher(2, "b", "2030-01-01", &at(8, 0), false),
    ];
    assert_eq!(purge_redeemed_vouchers(&mut vs), 1);
    assert_eq!(purge_redeemed_vouchers(&mut vs), 0);
    assert!(vs.iter().all(|v| !v.redeemed));
    let today = "2024-10-04";
    assert!(verify_voucher(&vs, "b", today).valid);
    assert!(list_active_vouchers(&vs, today).iter().any(|s| s.username == "user2"));
}

#[test]
fn winner_names_come_from_user_name_then_email() {
    let a = Some(("Anna".to_string(), "Rossi".to_string()));
    let b = Some(("Bea".to_string(), "Meier".to_string()));
    assert_eq!(names_found(a.clone(), b.clone()), ("Anna".to_string(), "Rossi".to_string()));
    assert_eq!(names_found(None, b), ("Bea".to_string(), "Meier".to_string()));
    assert_eq!(names_found(None, None), (String::new(), String::new()));
}

#[test]
fn dated_now_operations_keep_their_arguments() {
    let now = Instant { secs: 1_700_000_000, nanos: 0 };
    let mut b = NewsBoard::seeded(now);
    let n = b.create_news(editor(), "Title".to_string(), "Body".to_string()).ok().expect("created");
    assert_eq!((n.id, n.title.as_str(), n.body.as_str(), n.author.as_str()), (3, "Title", "Body", "ed"));
    let u = b.update_news(editor(), 3, "T2".to_string(), "B2".to_string()).ok().expect("updated");
    assert_eq!((u.title.as_str(), u.body.as_str(), u.created_at.secs), ("T2", "B2", n.created_at.secs));
    assert!(matches!(b.update_news(editor(), 99, "x".to_string(), "y".to_string()), Err(ContentError::NotFound(ContentKind::News, 99))));
    let mut e = EventBoard::seeded(now);
    let ev = e
        .create_event(editor(), "Sale".to_string(), "Desc".to_string(), "2025-01-01".to_string(), None, "Hall".to_string())
        .ok()
        .expect("created");
    assert_eq!((ev.title.as_str(), ev.description.as_str(), ev.location.as_str()), ("Sale", "Desc", "Hall"));
    let mut book = ShopInfoBook::new();
    let info = book
        .upsert_shop_info(editor(), "prada".to_string(), "Italian".to_string(), "10-19".to_string(), None)
        .ok()
        .expect("set");
    assert_eq!((info.description.as_str(), info.opening_hours.as_str()), ("Italian", "10-19"));
    let got = book.get_shop_info("prada").expect("found");
    assert_eq!((got.description.as_str(), got.opening_hours.as_str(), got.updated_by.as_str()), ("Italian", "10-19", "ed"));
    assert!(book.upsert_shop_info(None, "gucci".to_string(), "x".to_string(), "y".to_string(), None).is_err());
    assert!(book.get_shop_info("gucci").is_none());
}

#[test]
fn prepared_voucher_now_carries_the_payload() {
    assert!(matches!(
        prepare_voucher(None, &vec![], "http://h", "e@x", "S", 10, "2030-01-01"),
        Err(VoucherIssueError::Auth(AuthError::Unauthorized))
    ));
    let d = prepare_voucher(editor(), &vec![], "http://h", "e@x", "S", 10, "2030-01-01").ok().expect("draft");
    assert_eq!(d.id, 1);
    assert_eq!(d.verify_url, format!("http://h/voucher/verify?token={}", d.qr_token));
    let payload = voucher_qr_payload("e@x", "S", 10, "2030-01-01").expect("payload");
    assert_eq!(d.qr_code_data_url, generate_qr_svg_data_url(&payload).ok().expect("qr"));
    assert!(d.qr_code_data_url.starts_with("data:image/svg+xml;base64,"));
    let mut book = vec![];
    record_voucher(&mut book, d, "e@x", "ed", String::new(), String::new(), "S", 10, "2030-01-01");
    assert!(book[0].created_at.contains('T'));
}

#[test]
fn qr_payload_escapes_as_json() {
    let p = voucher_qr_payload("a\"b\\c", "S\n\u{1}\u{1f}é", 5, "2030").expect("payload");
    assert_eq!(p, "{\"email\":\"a\\\"b\\\\c\",\"store\":\"S\\n\\u0001\\u001fé\",\"discount\":5,\"valid_until\":\"2030\"}");
}
