//! Prize vouchers: the daily quota, the cool-down, listing and checking them.

use vstd::prelude::*;
use crate::clock::{opt_pair, parse_rfc3339, rfc3339_instant, Instant, CHRONO_SECS_BOUND};
use crate::order::{
    is_stable_order, key_views, lemma_text_le_antisym, lemma_text_le_total, stable_order, str_le, text_le, text_lt, KeyView,
    SortKey,
};
use crate::text::{chars_of, string_from, string_of_range, trim, trim_bounds};

verus! {

/// Vouchers issued per UTC day (midnight to midnight) at most.
pub const MAX_VOUCHERS_PER_UTC_DAY: u32 = 10;

/// A voucher as the voucher book keeps it.
pub struct VoucherRecord {
    pub id: u64,
    pub qr_token: String,
    pub email: String,
    pub username: String,
    pub first_name: String,
    pub last_name: String,
    pub store: String,
    pub discount: u32,
    pub valid_until: String,
    pub created_at: String,
    pub redeemed: bool,
}

pub struct VoucherView {
    pub id: u64,
    pub qr_token: Seq<char>,
    pub email: Seq<char>,
    pub username: Seq<char>,
    pub first_name: Seq<char>,
    pub last_name: Seq<char>,
    pub store: Seq<char>,
    pub discount: u32,
    pub valid_until: Seq<char>,
    pub created_at: Seq<char>,
    pub redeemed: bool,
}

impl View for VoucherRecord {
    type V = VoucherView;

    open spec fn view(&self) -> VoucherView {
        VoucherView {
            id: self.id,
            qr_token: self.qr_token@,
            email: self.email@,
            username: self.username@,
            first_name: self.first_name@,
            last_name: self.last_name@,
            store: self.store@,
            discount: self.discount,
            valid_until: self.valid_until@,
            created_at: self.created_at@,
            redeemed: self.redeemed,
        }
    }
}

pub open spec fn voucher_views(v: Seq<VoucherRecord>) -> Seq<VoucherView> {
    v.map_values(|r: VoucherRecord| r@)
}

/// A copy of a voucher.
pub fn copy_voucher(r: &VoucherRecord) -> (c: VoucherRecord)
    ensures
        c@ == r@,
{
    VoucherRecord {
        id: r.id,
        qr_token: r.qr_token.clone(),
        email: r.email.clone(),
        username: r.username.clone(),
        first_name: r.first_name.clone(),
        last_name: r.last_name.clone(),
        store: r.store.clone(),
        discount: r.discount,
        valid_until: r.valid_until.clone(),
        created_at: r.created_at.clone(),
        redeemed: r.redeemed,
    }
}

/// The voucher can be used on the day `today` (`YYYY-MM-DD`): not redeemed,
/// and valid until that day or later.
pub open spec fn active_on(v: VoucherView, today: Seq<char>) -> bool {
    !v.redeemed && text_le(today, v.valid_until)
}

pub fn is_voucher_active(voucher: &VoucherRecord, today: &str) -> (b: bool)
    ensures
        b == active_on(voucher@, today@),
        b == (!voucher.redeemed && text_le(today@, voucher.valid_until@)),
{
    !voucher.redeemed && str_le(today, voucher.valid_until.as_str())
}

/// What the shop desk sees of a voucher.
pub struct VoucherAdminSummary {
    pub username: String,
    pub store: String,
    pub discount: u32,
    pub valid_until: String,
}

pub struct SummaryView {
    pub username: Seq<char>,
    pub store: Seq<char>,
    pub discount: u32,
    pub valid_until: Seq<char>,
}

impl View for VoucherAdminSummary {
    type V = SummaryView;

    open spec fn view(&self) -> SummaryView {
        SummaryView {
            username: self.username@,
            store: self.store@,
            discount: self.discount,
            valid_until: self.valid_until@,
        }
    }
}

pub open spec fn summary_of(v: VoucherView) -> SummaryView {
    SummaryView { username: v.username, store: v.store, discount: v.discount, valid_until: v.valid_until }
}

pub fn admin_summary(v: &VoucherRecord) -> (s: VoucherAdminSummary)
    ensures
        s@ == summary_of(v@),
{
    VoucherAdminSummary {
        username: v.username.clone(),
        store: v.store.clone(),
        discount: v.discount,
        valid_until: v.valid_until.clone(),
    }
}

/// The answer to a scanned voucher code.
pub struct VoucherVerification {
    pub valid: bool,
    pub message: String,
    pub voucher: Option<VoucherAdminSummary>,
}

/// The first voucher carrying the code `token`.
pub open spec fn voucher_with_token(vs: Seq<VoucherView>, token: Seq<char>) -> Option<int>
    decreases vs.len(),
{
    if vs.len() == 0 {
        None
    } else if vs[0].qr_token == token {
        Some(0)
    } else {
        match voucher_with_token(vs.drop_first(), token) {
            Some(k) => Some(k + 1),
            None => None,
        }
    }
}

proof fn lemma_voucher_with_token(vs: Seq<VoucherView>, token: Seq<char>, k: int)
    requires
        0 <= k <= vs.len(),
        forall|j: int| 0 <= j < k ==> vs[j].qr_token != token,
    ensures
        k < vs.len() && vs[k].qr_token == token ==> voucher_with_token(vs, token) == Some(k),
        k == vs.len() ==> voucher_with_token(vs, token) is None,
    decreases k,
{
    if k > 0 {
        lemma_voucher_with_token(vs.drop_first(), token, k - 1);
    }
}

/// The answer for the code `token` on the day `today`: unknown codes, used
/// vouchers and expired vouchers are refused with their reason; a known code
/// shows its voucher.
pub fn verify_voucher(vouchers: &Vec<VoucherRecord>, qr_token: &str, today: &str) -> (r: VoucherVerification)
    ensures
        match voucher_with_token(voucher_views(vouchers@), qr_token@) {
            None => !r.valid && r.message@ == "Voucher not found"@ && r.voucher is None,
            Some(k) => {
                let v = voucher_views(vouchers@)[k];
                &&& r.valid == active_on(v, today@)
                &&& r.message@ == if active_on(v, today@) {
                    "Voucher is valid"@
                } else if v.redeemed {
                    "Voucher already redeemed"@
                } else {
                    "Voucher expired"@
                }
                &&& r.voucher matches Some(s) && s@ == summary_of(v)
            },
        },
{
    let ghost vs = voucher_views(vouchers@);
    let mut i: usize = 0;
    while i < vouchers.len()
        invariant
            i <= vouchers@.len(),
            vs == voucher_views(vouchers@),
            forall|j: int| 0 <= j < i ==> vs[j].qr_token != qr_token@,
        decreases vouchers@.len() - i,
    {
        let voucher = &vouchers[i];
        if crate::text::str_eq(voucher.qr_token.as_str(), qr_token) {
            proof {
                lemma_voucher_with_token(vs, qr_token@, i as int);
            }
            let active = is_voucher_active(voucher, today);
            let message = if active {
                string_from("Voucher is valid")
            } else if voucher.redeemed {
                string_from("Voucher already redeemed")
            } else {
                string_from("Voucher expired")
            };
            return VoucherVerification { valid: active, message, voucher: Some(admin_summary(voucher)) };
        }
        i = i + 1;
    }
    proof {
        lemma_voucher_with_token(vs, qr_token@, i as int);
    }
    VoucherVerification { valid: false, message: string_from("Voucher not found"), voucher: None }
}

/// Removes the redeemed vouchers and tells how many were removed.
pub fn purge_redeemed_vouchers(vouchers: &mut Vec<VoucherRecord>) -> (removed: u32)
    requires
        old(vouchers)@.len() <= u32::MAX,
    ensures
        voucher_views(final(vouchers)@) == voucher_views(old(vouchers)@).filter(|v: VoucherView| !v.redeemed),
        removed == old(vouchers)@.len() - final(vouchers)@.len(),
{
    let ghost before = voucher_views(vouchers@);
    let mut kept: Vec<VoucherRecord> = Vec::new();
    let mut i: usize = 0;
    while i < vouchers.len()
        invariant
            i <= vouchers@.len(),
            before == voucher_views(vouchers@),
            voucher_views(kept@) == before.take(i as int).filter(|v: VoucherView| !v.redeemed),
            kept@.len() <= i,
        decreases vouchers@.len() - i,
    {
        proof {
            assert(before.take(i + 1).drop_last() == before.take(i as int));
            reveal_with_fuel(Seq::filter, 1);
        }
        if !vouchers[i].redeemed {
            kept.push(copy_voucher(&vouchers[i]));
        }
        assert(voucher_views(kept@) =~= before.take(i + 1).filter(|v: VoucherView| !v.redeemed));
        i = i + 1;
    }
    assert(before.take(before.len() as int) == before);
    let removed = (vouchers.len() - kept.len()) as u32;
    *vouchers = kept;
    removed
}

/// The number for the next voucher: one more than the largest so far (1 for the first).
pub open spec fn next_id_of(vs: Seq<VoucherView>) -> int
    decreases vs.len(),
{
    if vs.len() == 0 {
        1
    } else {
        let m = next_id_of(vs.drop_last());
        if vs.last().id + 1 > m { vs.last().id + 1 } else { m }
    }
}

pub fn next_voucher_id(vouchers: &Vec<VoucherRecord>) -> (id: u64)
    requires
        forall|j: int| 0 <= j < vouchers@.len() ==> #[trigger] vouchers@[j].id < u64::MAX,
    ensures
        id == next_id_of(voucher_views(vouchers@)),
{
    let ghost vs = voucher_views(vouchers@);
    let mut max: u64 = 0;
    let mut i: usize = 0;
    while i < vouchers.len()
        invariant
            i <= vouchers@.len(),
            vs == voucher_views(vouchers@),
            forall|j: int| 0 <= j < vouchers@.len() ==> #[trigger] vouchers@[j].id < u64::MAX,
            max + 1 == next_id_of(vs.take(i as int)),
            max < u64::MAX,
        decreases vouchers@.len() - i,
    {
        proof {
            assert(vs.take(i + 1).drop_last() == vs.take(i as int));
        }
        if vouchers[i].id > max {
            max = vouchers[i].id;
        }
        i = i + 1;
    }
    assert(vs.take(vs.len() as int) == vs);
    max + 1
}

/// New vouchers are refused once `issued_today` reaches the daily maximum.
pub fn voucher_quota_reached(issued_today: u32) -> (b: bool)
    ensures
        b == (issued_today >= MAX_VOUCHERS_PER_UTC_DAY),
{
    issued_today >= MAX_VOUCHERS_PER_UTC_DAY
}

/// The verification address for a voucher code: `<base>/voucher/verify?token=<code>`.
pub fn voucher_verify_url(base_url: &str, qr_token: &str) -> (r: String)
    ensures
        r@ == base_url@ + "/voucher/verify?token="@ + qr_token@,
{
    crate::text::concat3(base_url, "/voucher/verify?token=", qr_token)
}

/// The trimmed creation time stamp of a voucher, read as RFC 3339.
pub open spec fn created_instant(v: VoucherView) -> Option<(i64, u32)> {
    rfc3339_instant(trim(v.created_at))
}

/// Reads a voucher's creation time stamp (trimmed) as RFC 3339.
pub fn voucher_created_at(v: &VoucherRecord) -> (r: Option<Instant>)
    ensures
        match r {
            Some(i) => created_instant(v@) == Some((i.secs, i.nanos)) && -CHRONO_SECS_BOUND < i.secs < CHRONO_SECS_BOUND,
            None => created_instant(v@) is None,
        },
{
    let cs = chars_of(v.created_at.as_str());
    let (a, b) = trim_bounds(&cs, 0, cs.len());
    assert(cs@.subrange(0, cs@.len() as int) == cs@);
    let t = string_of_range(&cs, a, b);
    parse_rfc3339(t.as_str())
}

/// The first second of the UTC day holding the second `secs`.
pub open spec fn day_start(secs: int) -> int {
    secs - secs % 86400
}

pub fn utc_day_start(secs: i64) -> (r: i64)
    requires
        -CHRONO_SECS_BOUND < secs < CHRONO_SECS_BOUND,
    ensures
        r == day_start(secs as int),
{
    if secs >= 0 {
        secs - secs % 86400
    } else {
        let back = (-(secs + 1)) % 86400;
        assert((secs as int) % 86400 == 86399 - back) by (nonlinear_arith)
            requires
                secs < 0,
                back == (-(secs as int + 1)) % 86400;
        secs - (86399 - back)
    }
}

/// The instant (`secs`, `nanos`) lies in the UTC day starting at `start`.
pub open spec fn in_day(secs: int, nanos: int, start: int) -> bool {
    start * 1_000_000_000 <= secs * 1_000_000_000 + nanos < (start + 86400) * 1_000_000_000
}

/// Vouchers created in the UTC day starting at `start` (unreadable time stamps do not count).
pub open spec fn count_created_in_day(vs: Seq<VoucherView>, start: int) -> nat
    decreases vs.len(),
{
    if vs.len() == 0 {
        0
    } else {
        count_created_in_day(vs.drop_last(), start) + match created_instant(vs.last()) {
            Some(t) => if in_day(t.0 as int, t.1 as int, start) { 1nat } else { 0nat },
            None => 0nat,
        }
    }
}

/// Vouchers created in the UTC day of `now`, cut to 32 bits as the count is kept.
pub fn voucher_count_for_day(vouchers: &Vec<VoucherRecord>, now: Instant) -> (n: u32)
    requires
        -CHRONO_SECS_BOUND < now.secs < CHRONO_SECS_BOUND,
    ensures
        n == count_created_in_day(voucher_views(vouchers@), day_start(now.secs as int)) as u32,
{
    let ghost vs = voucher_views(vouchers@);
    let start = utc_day_start(now.secs);
    let start_n: i128 = start as i128 * 1_000_000_000;
    let end_n: i128 = (start as i128 + 86400) * 1_000_000_000;
    let mut count: u64 = 0;
    let mut i: usize = 0;
    while i < vouchers.len()
        invariant
            i <= vouchers@.len(),
            vs == voucher_views(vouchers@),
            start == day_start(now.secs as int),
            -CHRONO_SECS_BOUND - 86400 < start < CHRONO_SECS_BOUND,
            start_n == start * 1_000_000_000,
            end_n == (start + 86400) * 1_000_000_000,
            count == count_created_in_day(vs.take(i as int), start as int),
            count <= i,
        decreases vouchers@.len() - i,
    {
        proof {
            assert(vs.take(i + 1).drop_last() == vs.take(i as int));
        }
        match voucher_created_at(&vouchers[i]) {
            Some(t) => {
                let tn: i128 = t.secs as i128 * 1_000_000_000 + t.nanos as i128;
                if start_n <= tn && tn < end_n {
                    count = count + 1;
                }
            },
            None => {},
        }
        i = i + 1;
    }
    assert(vs.take(vs.len() as int) == vs);
    count as u32
}

/// The creation instants of the vouchers whose time stamps can be read, in order.
pub open spec fn parsed_instants(vs: Seq<VoucherView>) -> Seq<(i64, u32)>
    decreases vs.len(),
{
    if vs.len() == 0 {
        Seq::empty()
    } else {
        let prev = parsed_instants(vs.drop_last());
        match created_instant(vs.last()) {
            Some(t) => prev.push(t),
            None => prev,
        }
    }
}

/// `a` is earlier than `b`.
pub open spec fn inst_lt(a: (i64, u32), b: (i64, u32)) -> bool {
    a.0 < b.0 || (a.0 == b.0 && a.1 < b.1)
}

/// The UTC day number of an instant (days since 1970-01-01).
pub open spec fn utc_date(t: (i64, u32)) -> int {
    t.0 as int / 86400
}

/// Instants of `xs` on the UTC day of `t` that are earlier than `t`.
pub open spec fn earlier_same_day(xs: Seq<(i64, u32)>, t: (i64, u32)) -> nat
    decreases xs.len(),
{
    if xs.len() == 0 {
        0
    } else {
        earlier_same_day(xs.drop_last(), t) + if utc_date(xs.last()) == utc_date(t) && inst_lt(xs.last(), t) { 1nat } else { 0nat }
    }
}

/// Instants of `xs` on the UTC day of `t` that are not later than `t`.
pub open spec fn upto_same_day(xs: Seq<(i64, u32)>, t: (i64, u32)) -> nat
    decreases xs.len(),
{
    if xs.len() == 0 {
        0
    } else {
        upto_same_day(xs.drop_last(), t) + if utc_date(xs.last()) == utc_date(t) && !inst_lt(t, xs.last()) { 1nat } else { 0nat }
    }
}

/// `t` is the instant at which its UTC day reached the quota: the tenth voucher
/// of that day in time order.
pub open spec fn reaches_quota(xs: Seq<(i64, u32)>, t: (i64, u32)) -> bool {
    earlier_same_day(xs, t) < MAX_VOUCHERS_PER_UTC_DAY && upto_same_day(xs, t) >= MAX_VOUCHERS_PER_UTC_DAY
}

/// 24 hours after `t`.
pub open spec fn a_day_after(t: (i64, u32)) -> (i64, u32) {
    ((t.0 + 86400) as i64, t.1)
}

/// `c` ends a cool-down still running at `now`: it is 24 hours after the
/// instant at which some UTC day reached the quota, and later than `now`.
pub open spec fn running_cooldown(xs: Seq<(i64, u32)>, now: (i64, u32), c: (i64, u32)) -> bool {
    exists|j: int| 0 <= j < xs.len() && #[trigger] reaches_quota(xs, xs[j]) && c == a_day_after(xs[j]) && inst_lt(now, c)
}

fn instant_lt(a: Instant, b: Instant) -> (r: bool)
    ensures
        r == inst_lt((a.secs, a.nanos), (b.secs, b.nanos)),
{
    a.secs < b.secs || (a.secs == b.secs && a.nanos < b.nanos)
}

fn utc_day_number(secs: i64) -> (r: i64)
    requires
        -CHRONO_SECS_BOUND < secs < CHRONO_SECS_BOUND,
    ensures
        r == secs as int / 86400,
{
    if secs >= 0 {
        secs / 86400
    } else {
        let back = (-(secs + 1)) / 86400;
        assert((secs as int) / 86400 == -back - 1) by (nonlinear_arith)
            requires
                secs < 0,
                back == (-(secs as int + 1)) / 86400;
        -back - 1
    }
}

/// The end of the quota cool-down running at `now`, if any: the latest instant
/// 24 hours after a UTC day reached the quota that is still ahead of `now`.
pub fn cooldown_until(vouchers: &Vec<VoucherRecord>, now: Instant) -> (r: Option<Instant>)
    ensures
        match r {
            None => forall|c: (i64, u32)| !running_cooldown(parsed_instants(voucher_views(vouchers@)), (now.secs, now.nanos), c),
            Some(c) => {
                &&& running_cooldown(parsed_instants(voucher_views(vouchers@)), (now.secs, now.nanos), (c.secs, c.nanos))
                &&& forall|d: (i64, u32)| running_cooldown(parsed_instants(voucher_views(vouchers@)), (now.secs, now.nanos), d)
                    ==> !inst_lt((c.secs, c.nanos), d)
            },
        },
{
    let ghost vs = voucher_views(vouchers@);
    let mut xs: Vec<Instant> = Vec::new();
    let mut i: usize = 0;
    while i < vouchers.len()
        invariant
            i <= vouchers@.len(),
            vs == voucher_views(vouchers@),
            xs@.map_values(|t: Instant| (t.secs, t.nanos)) == parsed_instants(vs.take(i as int)),
            forall|j: int| 0 <= j < xs@.len() ==> -CHRONO_SECS_BOUND < #[trigger] xs@[j].secs < CHRONO_SECS_BOUND,
        decreases vouchers@.len() - i,
    {
        proof {
            assert(vs.take(i + 1).drop_last() == vs.take(i as int));
        }
        match voucher_created_at(&vouchers[i]) {
            Some(t) => {
                xs.push(t);
                assert(xs@.map_values(|t: Instant| (t.secs, t.nanos)) =~= parsed_instants(vs.take(i + 1)));
            },
            None => {},
        }
        i = i + 1;
    }
    assert(vs.take(vs.len() as int) == vs);
    let ghost ps = parsed_instants(vs);
    let now_p = (now.secs, now.nanos);
    let mut best: Option<Instant> = None;
    let mut i: usize = 0;
    while i < xs.len()
        invariant
            i <= xs@.len(),
            ps == xs@.map_values(|t: Instant| (t.secs, t.nanos)),
            now_p == (now.secs, now.nanos),
            forall|j: int| 0 <= j < xs@.len() ==> -CHRONO_SECS_BOUND < #[trigger] xs@[j].secs < CHRONO_SECS_BOUND,
            match best {
                None => forall|j: int| 0 <= j < i ==> !(#[trigger] reaches_quota(ps, ps[j]) && inst_lt(now_p, a_day_after(ps[j]))),
                Some(c) => {
                    &&& exists|j: int| 0 <= j < i && #[trigger] reaches_quota(ps, ps[j]) && (c.secs, c.nanos) == a_day_after(ps[j]) && inst_lt(now_p, (c.secs, c.nanos))
                    &&& forall|j: int| 0 <= j < i && #[trigger] reaches_quota(ps, ps[j]) && inst_lt(now_p, a_day_after(ps[j]))
                        ==> !inst_lt((c.secs, c.nanos), a_day_after(ps[j]))
                },
            },
        decreases xs@.len() - i,
    {
        let t = xs[i];
        let day = utc_day_number(t.secs);
        let mut earlier: u64 = 0;
        let mut upto: u64 = 0;
        let mut k: usize = 0;
        while k < xs.len()
            invariant
                k <= xs@.len(),
                i < xs@.len(),
                t == xs@[i as int],
                day == utc_date((t.secs, t.nanos)),
                ps == xs@.map_values(|t: Instant| (t.secs, t.nanos)),
                forall|j: int| 0 <= j < xs@.len() ==> -CHRONO_SECS_BOUND < #[trigger] xs@[j].secs < CHRONO_SECS_BOUND,
                earlier == earlier_same_day(ps.take(k as int), (t.secs, t.nanos)),
                upto == upto_same_day(ps.take(k as int), (t.secs, t.nanos)),
                earlier <= k,
                upto <= k,
            decreases xs@.len() - k,
        {
            proof {
                assert(ps.take(k + 1).drop_last() == ps.take(k as int));
                assert(ps.take(k + 1).last() == (xs@[k as int].secs, xs@[k as int].nanos));
            }
            let x = xs[k];
            if utc_day_number(x.secs) == day {
                if instant_lt(x, t) {
                    earlier = earlier + 1;
                }
                if !instant_lt(t, x) {
                    upto = upto + 1;
                }
            }
            k = k + 1;
        }
        proof {
            assert(ps.take(xs@.len() as int) == ps);
            assert(ps[i as int] == (t.secs, t.nanos));
        }
        let ghost hit = reaches_quota(ps, ps[i as int]) && inst_lt(now_p, a_day_after(ps[i as int]));
        assert(reaches_quota(ps, ps[i as int]) == (earlier < 10 && upto >= 10));
        if earlier < MAX_VOUCHERS_PER_UTC_DAY as u64 && upto >= MAX_VOUCHERS_PER_UTC_DAY as u64 {
            let c = Instant { secs: t.secs + 86400, nanos: t.nanos };
            assert(a_day_after(ps[i as int]) == (c.secs, c.nanos));
            if instant_lt(now, c) {
                assert(hit);
                match best {
                    None => {
                        best = Some(c);
                    },
                    Some(b) => {
                        if instant_lt(b, c) {
                            best = Some(c);
                        }
                    },
                }
            } else {
                assert(!hit);
            }
        } else {
            assert(!hit);
        }
        i = i + 1;
    }
    proof {
        match best {
            None => {
                assert forall|c: (i64, u32)| !running_cooldown(ps, now_p, c) by {
                    if running_cooldown(ps, now_p, c) {
                        let j = choose|j: int| 0 <= j < ps.len() && #[trigger] reaches_quota(ps, ps[j]) && c == a_day_after(ps[j]) && inst_lt(now_p, c);
                        assert(!(reaches_quota(ps, ps[j]) && inst_lt(now_p, a_day_after(ps[j]))));
                    }
                }
            },
            Some(c) => {
                assert forall|d: (i64, u32)| running_cooldown(ps, now_p, d) implies !inst_lt((c.secs, c.nanos), d) by {
                    let j = choose|j: int| 0 <= j < ps.len() && #[trigger] reaches_quota(ps, ps[j]) && d == a_day_after(ps[j]) && inst_lt(now_p, d);
                    assert(reaches_quota(ps, ps[j]) && inst_lt(now_p, a_day_after(ps[j])));
                }
            },
        }
    }
    best
}


/// What holds of the cool-down answer `r` at the instant `now`: `None` when no
/// cool-down runs, else the latest end of a running cool-down.
pub open spec fn cooldown_answer(xs: Seq<(i64, u32)>, now: (i64, u32), r: Option<(i64, u32)>) -> bool {
    match r {
        None => forall|c: (i64, u32)| !running_cooldown(xs, now, c),
        Some(c) => running_cooldown(xs, now, c) && forall|d: (i64, u32)| running_cooldown(xs, now, d) ==> !inst_lt(c, d),
    }
}

/// The cool-down end at the current time, if one runs.
pub fn active_daily_quota_cooldown_until_utc(vouchers: &Vec<VoucherRecord>) -> (r: Option<Instant>)
    ensures
        exists|now: (i64, u32)| #[trigger] cooldown_answer(parsed_instants(voucher_views(vouchers@)), now, opt_pair(r)),
{
    let now = crate::clock::now_instant();
    let r = cooldown_until(vouchers, now);
    assert(cooldown_answer(parsed_instants(voucher_views(vouchers@)), (now.secs, now.nanos), opt_pair(r)));
    r
}

/// The number of vouchers created so far in the current UTC day.
pub fn voucher_count_for_current_utc_day(vouchers: &Vec<VoucherRecord>) -> (n: u32)
    ensures
        exists|secs: i64| n == #[trigger] count_created_in_day(voucher_views(vouchers@), day_start(secs as int)) as u32,
{
    let now = crate::clock::now_instant();
    voucher_count_for_day(vouchers, now)
}

/// A voucher as the admin list shows it: every field of the record.
pub struct VoucherAdminFull {
    pub id: u64,
    pub qr_token: String,
    pub email: String,
    pub username: String,
    pub first_name: String,
    pub last_name: String,
    pub store: String,
    pub discount: u32,
    pub valid_until: String,
    pub created_at: String,
    pub redeemed: bool,
}

impl View for VoucherAdminFull {
    type V = VoucherView;

    open spec fn view(&self) -> VoucherView {
        VoucherView {
            id: self.id,
            qr_token: self.qr_token@,
            email: self.email@,
            username: self.username@,
            first_name: self.first_name@,
            last_name: self.last_name@,
            store: self.store@,
            discount: self.discount,
            valid_until: self.valid_until@,
            created_at: self.created_at@,
            redeemed: self.redeemed,
        }
    }
}

pub open spec fn full_views(v: Seq<VoucherAdminFull>) -> Seq<VoucherView> {
    v.map_values(|r: VoucherAdminFull| r@)
}

/// The admin row of a voucher.
pub fn admin_full_of(r: &VoucherRecord) -> (c: VoucherAdminFull)
    ensures
        c@ == r@,
{
    VoucherAdminFull {
        id: r.id,
        qr_token: r.qr_token.clone(),
        email: r.email.clone(),
        username: r.username.clone(),
        first_name: r.first_name.clone(),
        last_name: r.last_name.clone(),
        store: r.store.clone(),
        discount: r.discount,
        valid_until: r.valid_until.clone(),
        created_at: r.created_at.clone(),
        redeemed: r.redeemed,
    }
}

/// A copy of an admin row.
pub fn copy_full(r: &VoucherAdminFull) -> (c: VoucherAdminFull)
    ensures
        c@ == r@,
{
    VoucherAdminFull {
        id: r.id,
        qr_token: r.qr_token.clone(),
        email: r.email.clone(),
        username: r.username.clone(),
        first_name: r.first_name.clone(),
        last_name: r.last_name.clone(),
        store: r.store.clone(),
        discount: r.discount,
        valid_until: r.valid_until.clone(),
        created_at: r.created_at.clone(),
        redeemed: r.redeemed,
    }
}

/// The key that orders by a text alone.
pub open spec fn text_key(t: Seq<char>) -> KeyView {
    KeyView { class: 0, major: 0, minor: 0, text: t }
}

pub fn text_sort_key(t: &String) -> (k: SortKey)
    ensures
        k@ == text_key(t@),
{
    SortKey { class: 0, major: 0, minor: 0, text: t.clone() }
}

/// The keys ordering vouchers by creation time stamp, as text.
pub open spec fn created_text_keys(vs: Seq<VoucherView>) -> Seq<KeyView> {
    vs.map_values(|v: VoucherView| text_key(v.created_at))
}

/// The vouchers at the positions `perm`, in that order.
pub open spec fn arranged(vs: Seq<VoucherView>, perm: Seq<usize>) -> Seq<VoucherView> {
    perm.map_values(|p: usize| vs[p as int])
}

fn created_keys_of(vouchers: &Vec<VoucherRecord>) -> (keys: Vec<SortKey>)
    ensures
        key_views(keys@) == created_text_keys(voucher_views(vouchers@)),
{
    let mut keys: Vec<SortKey> = Vec::new();
    let mut i: usize = 0;
    while i < vouchers.len()
        invariant
            i <= vouchers@.len(),
            keys@.len() == i,
            forall|j: int| 0 <= j < i ==> #[trigger] keys@[j]@ == text_key(vouchers@[j].created_at@),
        decreases vouchers@.len() - i,
    {
        keys.push(text_sort_key(&vouchers[i].created_at));
        i = i + 1;
    }
    assert(key_views(keys@) =~= created_text_keys(voucher_views(vouchers@)));
    keys
}

fn arrange_full(vouchers: &Vec<VoucherRecord>, perm: &Vec<usize>, count: usize) -> (r: Vec<VoucherAdminFull>)
    requires
        count <= perm@.len(),
        forall|a: int| 0 <= a < perm@.len() ==> perm@[a] < vouchers@.len(),
    ensures
        full_views(r@) == arranged(voucher_views(vouchers@), perm@.take(count as int)),
{
    let mut r: Vec<VoucherAdminFull> = Vec::new();
    let mut k: usize = 0;
    while k < count
        invariant
            k <= count,
            count <= perm@.len(),
            forall|a: int| 0 <= a < perm@.len() ==> perm@[a] < vouchers@.len(),
            r@.len() == k,
            forall|j: int| 0 <= j < k ==> #[trigger] r@[j]@ == vouchers@[perm@[j] as int]@,
        decreases count - k,
    {
        r.push(admin_full_of(&vouchers[perm[k]]));
        k = k + 1;
    }
    assert(full_views(r@) =~= arranged(voucher_views(vouchers@), perm@.take(count as int)));
    r
}

/// Every voucher as an admin row, the most recently created first (by the
/// creation time stamp as text; equal stamps keep their order).
pub fn list_all_vouchers_admin(vouchers: &Vec<VoucherRecord>) -> (r: Vec<VoucherAdminFull>)
    ensures
        exists|perm: Seq<usize>|
            #[trigger] is_stable_order(created_text_keys(voucher_views(vouchers@)), true, perm)
                && full_views(r@) == arranged(voucher_views(vouchers@), perm),
{
    let keys = created_keys_of(vouchers);
    let perm = stable_order(&keys, true);
    let r = arrange_full(vouchers, &perm, perm.len());
    assert(perm@.take(perm@.len() as int) == perm@);
    r
}

/// The number of recent winners to show for `limit`: 8 for 0, else at most 20.
pub open spec fn recent_take(limit: int) -> int {
    if limit == 0 { 8 } else if limit < 20 { limit } else { 20 }
}

/// The most recently created vouchers, newest first, as many as `limit`
/// asks (see `recent_take`).
pub fn recent_vouchers(vouchers: &Vec<VoucherRecord>, limit: usize) -> (r: Vec<VoucherAdminFull>)
    ensures
        exists|perm: Seq<usize>|
            #[trigger] is_stable_order(created_text_keys(voucher_views(vouchers@)), true, perm)
                && full_views(r@) == arranged(
                    voucher_views(vouchers@),
                    perm.take(if recent_take(limit as int) < perm.len() { recent_take(limit as int) } else { perm.len() as int }),
                ),
{
    let take: usize = if limit == 0 { 8 } else if limit < 20 { limit } else { 20 };
    let keys = created_keys_of(vouchers);
    let perm = stable_order(&keys, true);
    let count = if take < perm.len() { take } else { perm.len() };
    arrange_full(vouchers, &perm, count)
}

/// A recent winner as the ticker shows it.
pub struct VoucherRecentSummary {
    pub display_name: String,
    pub store: String,
    pub discount: u32,
    pub created_at: String,
}

/// The voucher carries no name of its own (both trimmed names empty): the
/// names are looked up in the accounts.
pub fn needs_name_lookup(v: &VoucherAdminFull) -> (b: bool)
    ensures
        b == (trim(v.first_name@).len() == 0 && trim(v.last_name@).len() == 0),
{
    let f = chars_of(v.first_name.as_str());
    let l = chars_of(v.last_name.as_str());
    let (a, b) = trim_bounds(&f, 0, f.len());
    let (c, d) = trim_bounds(&l, 0, l.len());
    assert(f@.subrange(0, f@.len() as int) == f@);
    assert(l@.subrange(0, l@.len() as int) == l@);
    a == b && c == d
}

/// The winner's names found for a voucher: those of the account with its
/// user name, else those of the account with its e-mail, else empty names.
pub fn names_found(by_username: Option<(String, String)>, by_email: Option<(String, String)>) -> (r: (String, String))
    ensures
        by_username matches Some(n) ==> r.0@ == n.0@ && r.1@ == n.1@,
        by_username is None ==> (by_email matches Some(n) ==> r.0@ == n.0@ && r.1@ == n.1@),
        by_username is None && by_email is None ==> r.0@.len() == 0 && r.1@.len() == 0,
{
    match by_username {
        Some(n) => n,
        None => match by_email {
            Some(n) => n,
            None => (String::new(), String::new()),
        },
    }
}

/// The ticker entry of a voucher whose winner's names are `first_name` and
/// `last_name`.
pub fn recent_summary(v: &VoucherAdminFull, first_name: &str, last_name: &str) -> (s: VoucherRecentSummary)
    ensures
        s.display_name@ == crate::auth::public_label(first_name@, last_name@, v.username@),
        s.store@ == v.store@,
        s.discount == v.discount,
        s.created_at@ == v.created_at@,
{
    VoucherRecentSummary {
        display_name: crate::auth::winner_public_label(first_name, last_name, v.username.as_str()),
        store: v.store.clone(),
        discount: v.discount,
        created_at: v.created_at.clone(),
    }
}

/// The vouchers active on the day `today`, with their position in `vs`.
pub open spec fn active_ones(vs: Seq<VoucherView>, today: Seq<char>) -> Seq<VoucherView>
    decreases vs.len(),
{
    if vs.len() == 0 {
        Seq::empty()
    } else if active_on(vs.last(), today) {
        active_ones(vs.drop_last(), today).push(vs.last())
    } else {
        active_ones(vs.drop_last(), today)
    }
}

/// The keys ordering vouchers by the last valid day.
pub open spec fn valid_until_keys(vs: Seq<VoucherView>) -> Seq<KeyView> {
    vs.map_values(|v: VoucherView| text_key(v.valid_until))
}

/// The vouchers active on the day `today`, as summaries, the one expiring
/// first in front (equal days keep their order).
pub fn list_active_vouchers(vouchers: &Vec<VoucherRecord>, today: &str) -> (r: Vec<VoucherAdminSummary>)
    ensures
        exists|perm: Seq<usize>|
            #[trigger] is_stable_order(valid_until_keys(active_ones(voucher_views(vouchers@), today@)), false, perm)
                && r@.map_values(|s: VoucherAdminSummary| s@) == arranged(active_ones(voucher_views(vouchers@), today@), perm).map_values(
                    |v: VoucherView| summary_of(v),
                ),
{
    let ghost vs = voucher_views(vouchers@);
    let mut act: Vec<VoucherRecord> = Vec::new();
    let mut i: usize = 0;
    while i < vouchers.len()
        invariant
            i <= vouchers@.len(),
            vs == voucher_views(vouchers@),
            voucher_views(act@) == active_ones(vs.take(i as int), today@),
        decreases vouchers@.len() - i,
    {
        proof {
            assert(vs.take(i + 1).drop_last() == vs.take(i as int));
        }
        if is_voucher_active(&vouchers[i], today) {
            act.push(copy_voucher(&vouchers[i]));
        }
        assert(voucher_views(act@) =~= active_ones(vs.take(i + 1), today@));
        i = i + 1;
    }
    assert(vs.take(vs.len() as int) == vs);
    let ghost av = voucher_views(act@);
    let mut keys: Vec<SortKey> = Vec::new();
    let mut j: usize = 0;
    while j < act.len()
        invariant
            j <= act@.len(),
            keys@.len() == j,
            forall|k: int| 0 <= k < j ==> #[trigger] keys@[k]@ == text_key(act@[k].valid_until@),
        decreases act@.len() - j,
    {
        keys.push(text_sort_key(&act[j].valid_until));
        j = j + 1;
    }
    assert(key_views(keys@) =~= valid_until_keys(av));
    let perm = stable_order(&keys, false);
    let mut r: Vec<VoucherAdminSummary> = Vec::new();
    let mut k: usize = 0;
    while k < perm.len()
        invariant
            k <= perm@.len(),
            perm@.len() == act@.len(),
            forall|a: int| 0 <= a < perm@.len() ==> perm@[a] < act@.len(),
            r@.len() == k,
            forall|q: int| 0 <= q < k ==> #[trigger] r@[q]@ == summary_of(act@[perm@[q] as int]@),
        decreases perm@.len() - k,
    {
        r.push(admin_summary(&act[perm[k]]));
        k = k + 1;
    }
    assert(r@.map_values(|s: VoucherAdminSummary| s@) =~= arranged(av, perm@).map_values(|v: VoucherView| summary_of(v)));
    r
}

/// The vouchers a purge keeps: those not redeemed, in order.
pub open spec fn unredeemed(vs: Seq<VoucherView>) -> Seq<VoucherView> {
    vs.filter(|v: VoucherView| !v.redeemed)
}

/// Purging leaves no redeemed voucher, and purging again changes nothing.
pub proof fn law_purge_idempotent(vs: Seq<VoucherView>)
    ensures
        forall|i: int| 0 <= i < unredeemed(vs).len() ==> !(#[trigger] unredeemed(vs)[i]).redeemed,
        unredeemed(unredeemed(vs)) == unredeemed(vs),
{
    let kept = unredeemed(vs);
    assert forall|i: int| 0 <= i < kept.len() implies !(#[trigger] kept[i]).redeemed by {
        vs.lemma_filter_pred(|v: VoucherView| !v.redeemed, i);
    }
    lemma_filter_unredeemed_fixed(kept);
}

proof fn lemma_filter_unredeemed_fixed(w: Seq<VoucherView>)
    requires
        forall|i: int| 0 <= i < w.len() ==> !(#[trigger] w[i]).redeemed,
    ensures
        w.filter(|v: VoucherView| !v.redeemed) == w,
    decreases w.len(),
{
    reveal_with_fuel(Seq::filter, 1);
    if w.len() > 0 {
        lemma_filter_unredeemed_fixed(w.drop_last());
        assert(w.drop_last().push(w.last()) == w);
    }
}

/// A voucher that verification accepts is among the active vouchers listed
/// for the same day, and an active voucher is never refused as used or
/// expired.
pub proof fn law_verified_means_active(vs: Seq<VoucherView>, token: Seq<char>, today: Seq<char>)
    ensures
        voucher_with_token(vs, token) matches Some(k) ==> (0 <= k < vs.len() && vs[k].qr_token == token
            && (active_on(vs[k], today) ==> active_ones(vs, today).contains(vs[k]))),
{
    if let Some(k) = voucher_with_token(vs, token) {
        lemma_voucher_with_token_found(vs, token);
        if active_on(vs[k], today) {
            lemma_active_ones_contains(vs, today, k);
        }
    }
}

proof fn lemma_voucher_with_token_found(vs: Seq<VoucherView>, token: Seq<char>)
    ensures
        voucher_with_token(vs, token) matches Some(k) ==> 0 <= k < vs.len() && vs[k].qr_token == token,
    decreases vs.len(),
{
    if vs.len() > 0 && vs[0].qr_token != token {
        lemma_voucher_with_token_found(vs.drop_first(), token);
    }
}

proof fn lemma_active_ones_contains(vs: Seq<VoucherView>, today: Seq<char>, k: int)
    requires
        0 <= k < vs.len(),
        active_on(vs[k], today),
    ensures
        active_ones(vs, today).contains(vs[k]),
    decreases vs.len(),
{
    let a = active_ones(vs, today);
    if k == vs.len() - 1 {
        assert(a[a.len() - 1] == vs[k]);
    } else {
        lemma_active_ones_contains(vs.drop_last(), today, k);
        let b = active_ones(vs.drop_last(), today);
        let j = choose|j: int| 0 <= j < b.len() && b[j] == vs.drop_last()[k];
        if active_on(vs.last(), today) {
            assert(a[j] == b[j]);
        }
        assert(a[j] == vs[k]);
    }
}

/// A voucher is active on a day exactly when it is not redeemed and the day
/// comes no later than its last valid day, the two compared as whole texts in
/// the order of `str`; so a voucher whose last valid day comes before the day
/// is not active.
pub proof fn law_active_until_last_valid_day(v: VoucherView, today: Seq<char>)
    ensures
        active_on(v, today) <==> (!v.redeemed && text_le(today, v.valid_until)),
        text_lt(v.valid_until, today) ==> !active_on(v, today),
        !v.redeemed && v.valid_until == today ==> active_on(v, today),
{
    if text_lt(v.valid_until, today) && text_le(today, v.valid_until) {
        lemma_text_le_antisym(v.valid_until, today);
    }
    if v.valid_until == today {
        lemma_text_le_total(today, today);
    }
}

} // verus!
