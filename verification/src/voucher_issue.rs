//! Issuing a voucher: the QR payload and image, the record, the e-mail text
//! and the mail settings.

use vstd::prelude::*;
use base64::Engine;
use crate::auth::{require_role, AuthError, Role, UserDto};
use crate::clock::{now_instant, now_rfc3339, Instant, CHRONO_SECS_BOUND};
use crate::text::{chars_of, decimal, push_decimal, push_str, string_from, string_of, string_of_range, trim, trim_bounds};
use crate::vouchers::{
    count_created_in_day, day_start, next_id_of, next_voucher_id, voucher_count_for_day, voucher_verify_url,
    voucher_views, VoucherRecord, VoucherView, MAX_VOUCHERS_PER_UTC_DAY,
};

verus! {

/// A lower-case hexadecimal digit.
pub open spec fn hex_digit(d: int) -> char {
    if d < 10 { (('0' as int) + d) as char } else { (('a' as int) + d - 10) as char }
}

/// How a character stands in a JSON string as serde_json writes it: `"` and
/// `\` after a backslash; backspace, tab, line feed, form feed and carriage
/// return as `\b`, `\t`, `\n`, `\f`, `\r`; the other characters below
/// U+0020 as `\u00` and two lower-case hex digits; every other character as
/// itself.
pub open spec fn json_escaped(c: char) -> Seq<char> {
    if c == '"' {
        seq!['\\', '"']
    } else if c == '\\' {
        seq!['\\', '\\']
    } else if c == '\u{8}' {
        seq!['\\', 'b']
    } else if c == '\t' {
        seq!['\\', 't']
    } else if c == '\n' {
        seq!['\\', 'n']
    } else if c == '\u{c}' {
        seq!['\\', 'f']
    } else if c == '\r' {
        seq!['\\', 'r']
    } else if (c as int) < 0x20 {
        seq!['\\', 'u', '0', '0', hex_digit((c as int) / 16), hex_digit((c as int) % 16)]
    } else {
        seq![c]
    }
}

/// The escaped characters of `s`, in order.
pub open spec fn json_body(s: Seq<char>) -> Seq<char>
    decreases s.len(),
{
    if s.len() == 0 {
        Seq::empty()
    } else {
        json_body(s.drop_last()) + json_escaped(s.last())
    }
}

/// The JSON text of a string as `serde_json::to_string` writes it: the
/// escaped characters between double quotes. Writing a string never fails.
pub open spec fn json_string_text(s: Seq<char>) -> Option<Seq<char>> {
    Some(seq!['"'] + json_body(s) + seq!['"'])
}

/// `serde_json::to_string` of a string (`format_escaped_str` with its
/// `ESCAPE` table, into a `Vec`, which cannot fail), as `json_string_text`
/// states it.
#[verifier::external_body]
fn json_string(s: &str) -> (r: Option<String>)
    ensures
        json_string_text(s@) == match r {
            Some(t) => Some(t@),
            None => None,
        },
{
    serde_json::to_string(s).ok()
}

/// The JSON object the QR code carries: e-mail, store, discount and last
/// valid day, in that order, without spaces.
pub open spec fn qr_payload_text(email: Seq<char>, store: Seq<char>, discount: u32, valid_until: Seq<char>) -> Option<Seq<char>> {
    match (json_string_text(email), json_string_text(store), json_string_text(valid_until)) {
        (Some(e), Some(s), Some(v)) => Some(
            "{\"email\":"@ + e + ",\"store\":"@ + s + ",\"discount\":"@ + decimal(discount as nat) + ",\"valid_until\":"@ + v + "}"@,
        ),
        _ => None,
    }
}

pub fn voucher_qr_payload(email: &str, store: &str, discount: u32, valid_until: &str) -> (r: Option<String>)
    ensures
        qr_payload_text(email@, store@, discount, valid_until@) == match r {
            Some(t) => Some(t@),
            None => None,
        },
{
    let e = match json_string(email) {
        Some(e) => e,
        None => return None,
    };
    let s = match json_string(store) {
        Some(s) => s,
        None => return None,
    };
    let v = match json_string(valid_until) {
        Some(v) => v,
        None => return None,
    };
    let mut out: Vec<char> = Vec::new();
    push_str(&mut out, "{\"email\":");
    push_str(&mut out, e.as_str());
    push_str(&mut out, ",\"store\":");
    push_str(&mut out, s.as_str());
    push_str(&mut out, ",\"discount\":");
    push_decimal(&mut out, discount as u64);
    push_str(&mut out, ",\"valid_until\":");
    push_str(&mut out, v.as_str());
    push_str(&mut out, "}");
    Some(string_of(&out))
}

/// The SVG text of the QR code for `payload` (at least `min_size` x
/// `min_size`, dark colour `dark` on light colour `light`), or the text of
/// the error when the payload does not fit a QR code.
pub uninterp spec fn qr_svg_outcome(payload: Seq<char>, min_size: u32, dark: Seq<char>, light: Seq<char>) -> Result<Seq<char>, Seq<char>>;

/// `QrCode::new(payload.as_bytes())`, then `render::<svg::Color>()` with
/// `min_dimensions(min_size, min_size)`, `dark_color(svg::Color(dark))`,
/// `light_color(svg::Color(light))` and `build()`; the error is kept as its
/// text. As `qr_svg_outcome` names it. The size stays small enough that the
/// renderer's `u32` arithmetic (`width + width_in_modules - 1`, the module
/// size times the width in modules) cannot overflow.
#[verifier::external_body]
fn qr_svg(payload: &str, min_size: u32, dark: &str, light: &str) -> (r: Result<String, String>)
    requires
        min_size <= 65535,
    ensures
        qr_svg_outcome(payload@, min_size, dark@, light@) == match r {
            Ok(t) => Ok(t@),
            Err(m) => Err(m@),
        },
{
    match qrcode::QrCode::new(payload.as_bytes()) {
        Ok(qr) => Ok(
            qr.render::<qrcode::render::svg::Color>().min_dimensions(min_size, min_size).dark_color(
                qrcode::render::svg::Color(dark),
            ).light_color(qrcode::render::svg::Color(light)).build(),
        ),
        Err(e) => Err(e.to_string()),
    }
}

/// The standard base64 text (with padding) of the UTF-8 bytes of `s`.
pub uninterp spec fn base64_text(s: Seq<char>) -> Seq<char>;

/// `base64::engine::general_purpose::STANDARD.encode(s.as_bytes())`, as
/// `base64_text` names it.
#[verifier::external_body]
fn base64_standard(s: &str) -> (r: String)
    ensures
        r@ == base64_text(s@),
{
    base64::engine::general_purpose::STANDARD.encode(s.as_bytes())
}

/// The QR image of `payload` as an SVG data URL: at least 240 x 240, dark
/// `#111827` on white `#ffffff`.
pub open spec fn qr_data_url(payload: Seq<char>) -> Result<Seq<char>, Seq<char>> {
    match qr_svg_outcome(payload, 240, "#111827"@, "#ffffff"@) {
        Ok(svg) => Ok("data:image/svg+xml;base64,"@ + base64_text(svg)),
        Err(m) => Err(m),
    }
}

pub fn generate_qr_svg_data_url(payload: &str) -> (r: Result<String, String>)
    ensures
        qr_data_url(payload@) == match r {
            Ok(t) => Ok(t@),
            Err(m) => Err(m@),
        },
{
    match qr_svg(payload, 240, "#111827", "#ffffff") {
        Ok(svg) => {
            let encoded = base64_standard(svg.as_str());
            Ok(crate::text::concat2("data:image/svg+xml;base64,", encoded.as_str()))
        },
        Err(m) => Err(m),
    }
}

/// The text is a version-4 code as `Uuid::to_string` writes it: 36
/// characters, hyphens at 8, 13, 18 and 23, lower-case hex digits elsewhere.
pub open spec fn is_uuid_text(s: Seq<char>) -> bool {
    &&& s.len() == 36
    &&& forall|i: int| 0 <= i < 36 ==> if i == 8 || i == 13 || i == 18 || i == 23 {
        s[i] == '-'
    } else {
        ('0' <= #[trigger] s[i] <= '9') || ('a' <= s[i] <= 'f')
    }
}

/// A fresh random code (`uuid::Uuid::new_v4().to_string()`). Only its shape
/// is stated: the code is random.
#[verifier::external_body]
pub(crate) fn new_qr_token() -> (r: String)
    ensures
        is_uuid_text(r@),
{
    uuid::Uuid::new_v4().to_string()
}

/// Why a voucher was not issued.
pub enum VoucherIssueError {
    /// The caller may not issue vouchers.
    Auth(AuthError),
    /// The day's vouchers are all issued.
    QuotaReached,
    /// The QR payload could not be written.
    Payload,
    /// The QR code could not be made; the text says why.
    Qr(String),
}

impl VoucherIssueError {
    /// The message the server answers with.
    pub fn message(&self) -> (s: String)
        ensures
            s@ == match self {
                VoucherIssueError::Auth(e) => crate::auth::auth_error_text(*e),
                VoucherIssueError::QuotaReached => "Quota journalier de bons atteint (minuit UTC)."@,
                VoucherIssueError::Payload => "QR payload could not be written"@,
                VoucherIssueError::Qr(m) => m@,
            },
    {
        match self {
            VoucherIssueError::Auth(e) => e.message(),
            VoucherIssueError::QuotaReached => string_from("Quota journalier de bons atteint (minuit UTC)."),
            VoucherIssueError::Payload => string_from("QR payload could not be written"),
            VoucherIssueError::Qr(m) => m.clone(),
        }
    }
}

/// What is settled before the winner's names are looked up and the voucher
/// is stored: its number, its code, its verification address and its QR image.
pub struct VoucherDraft {
    pub id: u64,
    pub qr_token: String,
    pub verify_url: String,
    pub qr_code_data_url: String,
}

/// What a winner is to get: the e-mail, the store, the discount and the
/// last valid day.
pub struct VoucherWish {
    pub email: Seq<char>,
    pub store: Seq<char>,
    pub discount: u32,
    pub valid_until: Seq<char>,
}

/// Preparing the voucher `w` as `user` at the instant `now`, the voucher
/// book holding `vs`, answered `r`: without a user, unauthorised; once the
/// UTC day of `now` holds the daily maximum, the quota is reached; else the
/// number is one more than the largest so far, the code is fresh, the
/// verification address ends with the code, and the QR image carries the
/// payload of `w` (or the payload or QR error is told).
pub open spec fn voucher_prepared(
    user: Option<UserDto>,
    vs: Seq<VoucherView>,
    now: Instant,
    base_url: Seq<char>,
    w: VoucherWish,
    r: Result<VoucherDraft, VoucherIssueError>,
) -> bool {
    let issued = count_created_in_day(vs, day_start(now.secs as int)) as u32;
    &&& user is None ==> (r matches Err(VoucherIssueError::Auth(AuthError::Unauthorized)))
    &&& user is Some && issued >= MAX_VOUCHERS_PER_UTC_DAY ==> (r matches Err(VoucherIssueError::QuotaReached))
    &&& user is Some && issued < MAX_VOUCHERS_PER_UTC_DAY ==> match r {
        Ok(d) => {
            &&& d.id == next_id_of(vs)
            &&& is_uuid_text(d.qr_token@)
            &&& d.verify_url@ == base_url + "/voucher/verify?token="@ + d.qr_token@
            &&& qr_payload_text(w.email, w.store, w.discount, w.valid_until) matches Some(p)
                && qr_data_url(p) == Ok::<Seq<char>, Seq<char>>(d.qr_code_data_url@)
        },
        Err(VoucherIssueError::Payload) => qr_payload_text(w.email, w.store, w.discount, w.valid_until) is None,
        Err(VoucherIssueError::Qr(m)) => qr_payload_text(w.email, w.store, w.discount, w.valid_until) matches Some(p)
            && qr_data_url(p) == Err::<Seq<char>, Seq<char>>(m@),
        Err(_) => false,
    }
}

/// Prepares a voucher at the instant `now`. Editors and admins may issue
/// vouchers; none is issued once the UTC day of `now` holds the daily
/// maximum; the number is one more than the largest so far; the code is
/// fresh; the QR image carries the payload of e-mail, store, discount and
/// last valid day.
pub fn prepare_voucher_at(
    user: Option<UserDto>,
    vouchers: &Vec<VoucherRecord>,
    now: Instant,
    base_url: &str,
    email: &str,
    store: &str,
    discount: u32,
    valid_until: &str,
) -> (r: Result<VoucherDraft, VoucherIssueError>)
    requires
        -CHRONO_SECS_BOUND < now.secs < CHRONO_SECS_BOUND,
        forall|j: int| 0 <= j < vouchers@.len() ==> #[trigger] vouchers@[j].id < u64::MAX,
    ensures
        voucher_prepared(user, voucher_views(vouchers@), now, base_url@, VoucherWish {
            email: email@,
            store: store@,
            discount,
            valid_until: valid_until@,
        }, r),
{
    match require_role(user, &Role::Editor) {
        Ok(_) => {},
        Err(e) => return Err(VoucherIssueError::Auth(e)),
    }
    let issued = voucher_count_for_day(vouchers, now);
    if issued >= MAX_VOUCHERS_PER_UTC_DAY {
        return Err(VoucherIssueError::QuotaReached);
    }
    let id = next_voucher_id(vouchers);
    let qr_token = new_qr_token();
    let verify_url = voucher_verify_url(base_url, qr_token.as_str());
    let payload = match voucher_qr_payload(email, store, discount, valid_until) {
        Some(p) => p,
        None => return Err(VoucherIssueError::Payload),
    };
    match generate_qr_svg_data_url(payload.as_str()) {
        Ok(qr_code_data_url) => Ok(VoucherDraft { id, qr_token, verify_url, qr_code_data_url }),
        Err(m) => Err(VoucherIssueError::Qr(m)),
    }
}

/// Prepares a voucher at the current time (see `prepare_voucher_at`).
pub fn prepare_voucher(
    user: Option<UserDto>,
    vouchers: &Vec<VoucherRecord>,
    base_url: &str,
    email: &str,
    store: &str,
    discount: u32,
    valid_until: &str,
) -> (r: Result<VoucherDraft, VoucherIssueError>)
    requires
        forall|j: int| 0 <= j < vouchers@.len() ==> #[trigger] vouchers@[j].id < u64::MAX,
    ensures
        exists|now: Instant|
            -CHRONO_SECS_BOUND < now.secs < CHRONO_SECS_BOUND && #[trigger] voucher_prepared(
                user,
                voucher_views(vouchers@),
                now,
                base_url@,
                VoucherWish { email: email@, store: store@, discount, valid_until: valid_until@ },
                r,
            ),
{
    let now = now_instant();
    prepare_voucher_at(user, vouchers, now, base_url, email, store, discount, valid_until)
}

/// What the winner is told once the voucher is issued.
pub struct VoucherIssueResult {
    pub email: String,
    pub username: String,
    pub store: String,
    pub discount: u32,
    pub valid_until: String,
    pub qr_code_data_url: String,
}

/// Stores the prepared voucher, created now and not redeemed, at the end of
/// the voucher book, with the winner's names as found, and tells the result.
pub fn record_voucher(
    vouchers: &mut Vec<VoucherRecord>,
    draft: VoucherDraft,
    email: &str,
    username: &str,
    first_name: String,
    last_name: String,
    store: &str,
    discount: u32,
    valid_until: &str,
) -> (r: VoucherIssueResult)
    ensures
        final(vouchers)@.len() == old(vouchers)@.len() + 1,
        final(vouchers)@.take(old(vouchers)@.len() as int) == old(vouchers)@,
        ({
            let v: VoucherView = final(vouchers)@.last()@;
            &&& v.id == draft.id
            &&& v.qr_token == draft.qr_token@
            &&& v.email == email@
            &&& v.username == username@
            &&& v.first_name == first_name@
            &&& v.last_name == last_name@
            &&& v.store == store@
            &&& v.discount == discount
            &&& v.valid_until == valid_until@
            &&& exists|secs: i64, nanos: u32| #[trigger] crate::clock::rfc3339_text(secs, nanos) == Some(v.created_at)
            &&& !v.redeemed
        }),
        r.email@ == email@,
        r.username@ == username@,
        r.store@ == store@,
        r.discount == discount,
        r.valid_until@ == valid_until@,
        r.qr_code_data_url@ == draft.qr_code_data_url@,
{
    let record = VoucherRecord {
        id: draft.id,
        qr_token: draft.qr_token,
        email: string_from(email),
        username: string_from(username),
        first_name,
        last_name,
        store: string_from(store),
        discount,
        valid_until: string_from(valid_until),
        created_at: now_rfc3339(),
        redeemed: false,
    };
    vouchers.push(record);
    assert(vouchers@.take(old(vouchers)@.len() as int) == old(vouchers)@);
    VoucherIssueResult {
        email: string_from(email),
        username: string_from(username),
        store: string_from(store),
        discount,
        valid_until: string_from(valid_until),
        qr_code_data_url: draft.qr_code_data_url,
    }
}

/// The HTML body of the voucher e-mail.
pub open spec fn email_html(
    username: Seq<char>,
    discount: u32,
    store: Seq<char>,
    valid_until: Seq<char>,
    qr: Seq<char>,
    verify_url: Seq<char>,
) -> Seq<char> {
    "\n        <div style=\"font-family: Arial, sans-serif; color: #1f2937;\">\n          <h2>Your FoxTown voucher is ready</h2>\n          <p>Hello "@
        + username + ",</p>\n          <p>You won <strong>-"@ + decimal(discount as nat) + "%</strong> at <strong>"@
        + store + "</strong>.</p>\n          <p>Valid until: <strong>"@ + valid_until
        + "</strong></p>\n          <p>Show this QR code in store:</p>\n          <img src=\""@ + qr
        + "\" alt=\"Voucher QR code\" style=\"width: 220px; height: 220px; border: 1px solid #e5e7eb; padding: 8px;\" />\n          <p style=\"margin-top: 12px;\">Verification URL: <a href=\""@
        + verify_url + "\">"@ + verify_url + "</a></p>\n        </div>\n        "@
}

pub fn voucher_email_html(
    username: &str,
    discount: u32,
    store: &str,
    valid_until: &str,
    qr_code_data_url: &str,
    verify_url: &str,
) -> (r: String)
    ensures
        r@ == email_html(username@, discount, store@, valid_until@, qr_code_data_url@, verify_url@),
{
    let mut out: Vec<char> = Vec::new();
    push_str(
        &mut out,
        "\n        <div style=\"font-family: Arial, sans-serif; color: #1f2937;\">\n          <h2>Your FoxTown voucher is ready</h2>\n          <p>Hello ",
    );
    push_str(&mut out, username);
    push_str(&mut out, ",</p>\n          <p>You won <strong>-");
    push_decimal(&mut out, discount as u64);
    push_str(&mut out, "%</strong> at <strong>");
    push_str(&mut out, store);
    push_str(&mut out, "</strong>.</p>\n          <p>Valid until: <strong>");
    push_str(&mut out, valid_until);
    push_str(&mut out, "</strong></p>\n          <p>Show this QR code in store:</p>\n          <img src=\"");
    push_str(&mut out, qr_code_data_url);
    push_str(
        &mut out,
        "\" alt=\"Voucher QR code\" style=\"width: 220px; height: 220px; border: 1px solid #e5e7eb; padding: 8px;\" />\n          <p style=\"margin-top: 12px;\">Verification URL: <a href=\"",
    );
    push_str(&mut out, verify_url);
    push_str(&mut out, "\">");
    push_str(&mut out, verify_url);
    push_str(&mut out, "</a></p>\n        </div>\n        ");
    string_of(&out)
}

/// `c` in lower case when it is an ASCII capital, else unchanged.
pub open spec fn ascii_lower(c: char) -> char {
    if 'A' <= c <= 'Z' { ((c as u32) + 32) as char } else { c }
}

pub fn ascii_lower_char(c: char) -> (d: char)
    ensures
        d == ascii_lower(c),
{
    if 'A' <= c && c <= 'Z' {
        let b: u8 = c as u8;
        (b + 32) as char
    } else {
        c
    }
}

/// The words that switch the simulated mail mode on (any ASCII case, around
/// whitespace): `1`, `true`, `yes`, `on`.
pub open spec fn is_on_word(t: Seq<char>) -> bool {
    let l = t.map_values(|c: char| ascii_lower(c));
    l == "1"@ || l == "true"@ || l == "yes"@ || l == "on"@
}

/// The simulated mail mode: on when the setting is one of the on words.
pub fn smtp_fake_mode(setting: Option<&str>) -> (b: bool)
    ensures
        b == match setting {
            Some(s) => is_on_word(trim(s@)),
            None => false,
        },
{
    let s = match setting {
        Some(s) => s,
        None => return false,
    };
    let cs = chars_of(s);
    let (a, b) = trim_bounds(&cs, 0, cs.len());
    assert(cs@.subrange(0, cs@.len() as int) == cs@);
    let mut low: Vec<char> = Vec::new();
    let mut i = a;
    while i < b
        invariant
            a <= i <= b <= cs@.len(),
            low@ == cs@.subrange(a as int, i as int).map_values(|c: char| ascii_lower(c)),
        decreases b - i,
    {
        low.push(ascii_lower_char(cs[i]));
        i = i + 1;
        assert(low@ =~= cs@.subrange(a as int, i as int).map_values(|c: char| ascii_lower(c)));
    }
    let t = string_of(&low);
    crate::text::str_eq(t.as_str(), "1") || crate::text::str_eq(t.as_str(), "true")
        || crate::text::str_eq(t.as_str(), "yes") || crate::text::str_eq(t.as_str(), "on")
}

/// The value of a decimal digit character.
pub open spec fn digit_value(c: char) -> int {
    c as int - '0' as int
}

/// The number that ASCII digits `s` write.
pub open spec fn digits_value(s: Seq<char>) -> int
    decreases s.len(),
{
    if s.len() == 0 { 0 } else { digits_value(s.drop_last()) * 10 + digit_value(s.last()) }
}

/// `s` as `u16::from_str` reads it: an optional `+`, then one or more ASCII
/// digits, worth at most 65535.
pub open spec fn digits_part(s: Seq<char>) -> Seq<char> {
    if s.len() > 0 && s[0] == '+' { s.drop_first() } else { s }
}

pub open spec fn all_digits(d: Seq<char>) -> bool {
    forall|i: int| 0 <= i < d.len() ==> '0' <= #[trigger] d[i] <= '9'
}

pub open spec fn parse_u16_text(s: Seq<char>) -> Option<u16> {
    let d = digits_part(s);
    if d.len() > 0 && all_digits(d) && digits_value(d) <= 65535 {
        Some(digits_value(d) as u16)
    } else {
        None
    }
}

/// `s` as `u64::from_str` reads it: an optional `+`, then one or more
/// ASCII digits, worth at most `u64::MAX`.
pub open spec fn parse_u64_text(s: Seq<char>) -> Option<u64> {
    let d = digits_part(s);
    if d.len() > 0 && all_digits(d) && digits_value(d) <= u64::MAX {
        Some(digits_value(d) as u64)
    } else {
        None
    }
}

/// Reads a port number as `u16::from_str` does.
pub fn parse_u16(s: &str) -> (r: Option<u16>)
    ensures
        r == parse_u16_text(s@),
{
    let cs = chars_of(s);
    let start: usize = if cs.len() > 0 && cs[0] == '+' { 1 } else { 0 };
    let ghost d = digits_part(s@);
    assert(d == cs@.subrange(start as int, cs@.len() as int));
    if start == cs.len() {
        return None;
    }
    let mut value: u32 = 0;
    let mut i = start;
    while i < cs.len()
        invariant
            start <= i <= cs@.len(),
            cs@ == s@,
            d == digits_part(s@),
            d == cs@.subrange(start as int, cs@.len() as int),
            forall|k: int| start <= k < i ==> '0' <= #[trigger] cs@[k] <= '9',
            value == digits_value(cs@.subrange(start as int, i as int)),
            value <= 65535,
        decreases cs@.len() - i,
    {
        let c = cs[i];
        if c < '0' || c > '9' {
            proof {
                assert(d[i - start] == c);
                assert(!all_digits(d));
            }
            return None;
        }
        let digit: u32 = (c as u32) - ('0' as u32);
        proof {
            assert(cs@.subrange(start as int, i + 1).drop_last() == cs@.subrange(start as int, i as int));
            lemma_digits_bound(cs@.subrange(start as int, i + 1));
        }
        if value * 10 + digit > 65535 {
            proof {
                assert(d.take(i + 1 - start) == cs@.subrange(start as int, i + 1));
                if all_digits(d) {
                    lemma_digits_prefix_grow(d, i + 1 - start);
                }
            }
            return None;
        }
        value = value * 10 + digit;
        i = i + 1;
    }
    assert(cs@.subrange(start as int, cs@.len() as int) == cs@.subrange(start as int, i as int));
    assert forall|k: int| 0 <= k < d.len() implies '0' <= #[trigger] d[k] <= '9' by {
        assert(d[k] == cs@[start + k]);
    }
    Some(value as u16)
}

/// Reads a number as `u64::from_str` does.
pub fn parse_u64(s: &str) -> (r: Option<u64>)
    ensures
        r == parse_u64_text(s@),
{
    let cs = chars_of(s);
    let start: usize = if cs.len() > 0 && cs[0] == '+' { 1 } else { 0 };
    let ghost d = digits_part(s@);
    assert(d == cs@.subrange(start as int, cs@.len() as int));
    if start == cs.len() {
        return None;
    }
    let mut value: u128 = 0;
    let mut i = start;
    while i < cs.len()
        invariant
            start <= i <= cs@.len(),
            cs@ == s@,
            d == digits_part(s@),
            d == cs@.subrange(start as int, cs@.len() as int),
            forall|k: int| start <= k < i ==> '0' <= #[trigger] cs@[k] <= '9',
            value == digits_value(cs@.subrange(start as int, i as int)),
            value <= u64::MAX,
        decreases cs@.len() - i,
    {
        let c = cs[i];
        if c < '0' || c > '9' {
            proof {
                assert(d[i - start] == c);
                assert(!all_digits(d));
            }
            return None;
        }
        let digit: u128 = ((c as u32) - ('0' as u32)) as u128;
        proof {
            assert(cs@.subrange(start as int, i + 1).drop_last() == cs@.subrange(start as int, i as int));
            lemma_digits_bound(cs@.subrange(start as int, i + 1));
        }
        if value * 10 + digit > u64::MAX as u128 {
            proof {
                assert(d.take(i + 1 - start) == cs@.subrange(start as int, i + 1));
                if all_digits(d) {
                    lemma_digits_prefix_grow(d, i + 1 - start);
                }
            }
            return None;
        }
        value = value * 10 + digit;
        i = i + 1;
    }
    assert(cs@.subrange(start as int, cs@.len() as int) == cs@.subrange(start as int, i as int));
    assert forall|k: int| 0 <= k < d.len() implies '0' <= #[trigger] d[k] <= '9' by {
        assert(d[k] == cs@[start + k]);
    }
    Some(value as u64)
}

proof fn lemma_digits_bound(s: Seq<char>)
    ensures
        digits_value(s) == digits_value(s.drop_last()) * 10 + digit_value(s.last()) || s.len() == 0,
{
}

/// A prefix of digits is worth no more than the whole.
proof fn lemma_digits_prefix_grow(d: Seq<char>, k: int)
    requires
        0 <= k <= d.len(),
        forall|i: int| 0 <= i < d.len() ==> '0' <= #[trigger] d[i] <= '9',
    ensures
        digits_value(d.take(k)) <= digits_value(d),
    decreases d.len() - k,
{
    if k < d.len() {
        lemma_digits_prefix_grow(d, k + 1);
        assert(d.take(k + 1).drop_last() == d.take(k));
        assert(digits_value(d.take(k)) >= 0) by {
            lemma_digits_nonneg(d.take(k));
        }
    } else {
        assert(d.take(k) == d);
    }
}

proof fn lemma_digits_nonneg(d: Seq<char>)
    requires
        forall|i: int| 0 <= i < d.len() ==> '0' <= #[trigger] d[i] <= '9',
    ensures
        digits_value(d) >= 0,
    decreases d.len(),
{
    if d.len() > 0 {
        lemma_digits_nonneg(d.drop_last());
    }
}

/// The mail server port: the configured one when it reads as a port
/// number, else 587.
pub fn smtp_port(setting: Option<&str>) -> (p: u16)
    ensures
        p == match setting {
            Some(s) => match parse_u16_text(s@) {
                Some(n) => n,
                None => 587u16,
            },
            None => 587u16,
        },
{
    match setting {
        Some(s) => match parse_u16(s) {
            Some(n) => n,
            None => 587,
        },
        None => 587,
    }
}

/// The sender address: the configured one, else `noreply@foxtown.local`.
pub fn smtp_from(setting: Option<String>) -> (s: String)
    ensures
        s@ == match setting {
            Some(c) => c@,
            None => "noreply@foxtown.local"@,
        },
{
    match setting {
        Some(c) => c,
        None => string_from("noreply@foxtown.local"),
    }
}

/// The first 64 characters of the QR data URL, as the simulated mail shows it.
pub fn qr_preview(data_url: &str) -> (s: String)
    ensures
        s@ == if data_url@.len() <= 64 { data_url@ } else { data_url@.take(64) },
{
    let cs = chars_of(data_url);
    let end = if cs.len() <= 64 { cs.len() } else { 64 };
    assert(cs@.subrange(0, cs@.len() as int) == cs@);
    string_of_range(&cs, 0, end)
}

} // verus!
