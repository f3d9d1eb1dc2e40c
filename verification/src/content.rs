//! The editorial content: news, events, banners and the editable store
//! details, with the roles that may change them.

use vstd::prelude::*;
use crate::auth::{require_role, AuthError, Role, UserDto};
use crate::clock::{now_instant, Instant, CHRONO_SECS_BOUND};
use crate::order::{is_stable_order, key_views, stable_order, KeyView, SortKey};
use crate::text::{copy_opt_string, opt_view, push_decimal, push_str, str_eq, string_from, string_of};

verus! {

/// The first position whose id is `id`, if any.
pub open spec fn first_with_id(ids: Seq<u32>, id: u32) -> Option<int>
    decreases ids.len(),
{
    if ids.len() == 0 {
        None
    } else if ids[0] == id {
        Some(0)
    } else {
        match first_with_id(ids.drop_first(), id) {
            Some(k) => Some(k + 1),
            None => None,
        }
    }
}

proof fn lemma_first_with_id(ids: Seq<u32>, id: u32, k: int)
    requires
        0 <= k <= ids.len(),
        forall|j: int| 0 <= j < k ==> ids[j] != id,
    ensures
        k < ids.len() && ids[k] == id ==> first_with_id(ids, id) == Some(k),
        k == ids.len() ==> first_with_id(ids, id) is None,
    decreases k,
{
    if k > 0 {
        lemma_first_with_id(ids.drop_first(), id, k - 1);
    }
}

/// Which kind of content an id did not name.
#[derive(Clone, Copy, Debug, PartialEq, Eq, Structural)]
pub enum ContentKind {
    News,
    Event,
    Banner,
}

/// Why a content change was refused.
#[derive(Clone, Copy, Debug, PartialEq, Eq, Structural)]
pub enum ContentError {
    Auth(AuthError),
    NotFound(ContentKind, u32),
}

pub open spec fn content_error_text(e: ContentError) -> Seq<char> {
    match e {
        ContentError::Auth(a) => crate::auth::auth_error_text(a),
        ContentError::NotFound(ContentKind::News, id) => "News item "@ + crate::text::decimal(id as nat) + " not found"@,
        ContentError::NotFound(ContentKind::Event, id) => "Event "@ + crate::text::decimal(id as nat) + " not found"@,
        ContentError::NotFound(ContentKind::Banner, id) => "Banner "@ + crate::text::decimal(id as nat) + " not found"@,
    }
}

impl ContentError {
    /// The message the server answers with.
    pub fn message(&self) -> (s: String)
        ensures
            s@ == content_error_text(*self),
    {
        match self {
            ContentError::Auth(a) => a.message(),
            ContentError::NotFound(kind, id) => {
                let mut out: Vec<char> = Vec::new();
                match kind {
                    ContentKind::News => push_str(&mut out, "News item "),
                    ContentKind::Event => push_str(&mut out, "Event "),
                    ContentKind::Banner => push_str(&mut out, "Banner "),
                }
                push_decimal(&mut out, *id as u64);
                push_str(&mut out, " not found");
                string_of(&out)
            },
        }
    }
}

fn check_role(user: Option<UserDto>, min_role: Role) -> (r: Result<UserDto, ContentError>)
    ensures
        match user {
            None => r == Err::<UserDto, ContentError>(ContentError::Auth(AuthError::Unauthorized)),
            Some(u) => if crate::auth::role_allows(u.role, min_role) {
                r matches Ok(v) && v@ == u@
            } else {
                r == Err::<UserDto, ContentError>(ContentError::Auth(AuthError::Forbidden))
            },
        },
{
    match require_role(user, &min_role) {
        Ok(u) => Ok(u),
        Err(e) => Err(ContentError::Auth(e)),
    }
}

/// The caller may act at `min_role`.
pub open spec fn allowed(user: Option<UserDto>, min_role: Role) -> bool {
    match user {
        Some(u) => crate::auth::role_allows(u.role, min_role),
        None => false,
    }
}

/// The refusal for a caller that may not act at `min_role`.
pub open spec fn refusal(user: Option<UserDto>) -> ContentError {
    match user {
        None => ContentError::Auth(AuthError::Unauthorized),
        Some(_) => ContentError::Auth(AuthError::Forbidden),
    }
}

// ─── News ─────────────────────────────────────────────────────────────────────

/// A news item; its body is HTML from the editor.
pub struct NewsItem {
    pub id: u32,
    pub title: String,
    pub body: String,
    pub author: String,
    pub created_at: Instant,
    pub updated_at: Instant,
}

pub struct NewsView {
    pub id: u32,
    pub title: Seq<char>,
    pub body: Seq<char>,
    pub author: Seq<char>,
    pub created_at: (i64, u32),
    pub updated_at: (i64, u32),
}

impl View for NewsItem {
    type V = NewsView;

    open spec fn view(&self) -> NewsView {
        NewsView {
            id: self.id,
            title: self.title@,
            body: self.body@,
            author: self.author@,
            created_at: (self.created_at.secs, self.created_at.nanos),
            updated_at: (self.updated_at.secs, self.updated_at.nanos),
        }
    }
}

pub fn copy_news(n: &NewsItem) -> (c: NewsItem)
    ensures
        c@ == n@,
{
    NewsItem {
        id: n.id,
        title: n.title.clone(),
        body: n.body.clone(),
        author: n.author.clone(),
        created_at: n.created_at,
        updated_at: n.updated_at,
    }
}

pub open spec fn news_views(v: Seq<NewsItem>) -> Seq<NewsView> {
    v.map_values(|n: NewsItem| n@)
}

pub open spec fn news_ids(v: Seq<NewsItem>) -> Seq<u32> {
    v.map_values(|n: NewsItem| n.id)
}

/// The instant lies in the range of chrono's time stamps.
pub open spec fn in_clock_range(now: Instant) -> bool {
    -CHRONO_SECS_BOUND < now.secs < CHRONO_SECS_BOUND
}

/// Publishing a news item with `title` and `body` as `user`, dated `now`,
/// took board `b` to board `a` and answered `r`: a refusal leaves the board
/// as it was; else the item, by the caller, under the next id, comes last.
pub open spec fn news_created(
    b: NewsBoard,
    a: NewsBoard,
    user: Option<UserDto>,
    title: Seq<char>,
    body: Seq<char>,
    now: Instant,
    r: Result<NewsItem, ContentError>,
) -> bool {
    &&& !allowed(user, Role::Editor) ==> r == Err::<NewsItem, ContentError>(refusal(user)) && a == b
    &&& allowed(user, Role::Editor) ==> (r matches Ok(item) && {
        &&& item.id == b.next_id
        &&& item.title@ == title && item.body@ == body
        &&& item.author@ == user->0.username@
        &&& item.created_at == now && item.updated_at == now
        &&& a.next_id == b.next_id + 1
        &&& news_views(a.items@) == news_views(b.items@).push(item@)
    })
}

/// Rewriting news item `id` with `title` and `body` as `user`, dated `now`,
/// took board `b` to board `a` and answered `r`: a refusal leaves the board
/// as it was; an unknown id is answered not found; else the first item with
/// that id takes the new title, body and date.
pub open spec fn news_updated(
    b: NewsBoard,
    a: NewsBoard,
    user: Option<UserDto>,
    id: u32,
    title: Seq<char>,
    body: Seq<char>,
    now: Instant,
    r: Result<NewsItem, ContentError>,
) -> bool {
    &&& a.next_id == b.next_id
    &&& !allowed(user, Role::Editor) ==> r == Err::<NewsItem, ContentError>(refusal(user)) && a == b
    &&& allowed(user, Role::Editor) ==> match first_with_id(news_ids(b.items@), id) {
        None => r == Err::<NewsItem, ContentError>(ContentError::NotFound(ContentKind::News, id))
            && news_views(a.items@) == news_views(b.items@),
        Some(k) => r matches Ok(item) && item@ == (NewsView { title, body, updated_at: (now.secs, now.nanos), ..b.items@[k]@ })
            && news_views(a.items@) == news_views(b.items@).update(k, item@),
    }
}

/// The fields of an event as the form gives them.
pub struct EventFields {
    pub title: Seq<char>,
    pub description: Seq<char>,
    pub date: Seq<char>,
    pub end_date: Option<Seq<char>>,
    pub location: Seq<char>,
}

/// Adding an event with fields `f` as `user`, created `now`, took board `b`
/// to board `a` and answered `r`: a refusal leaves the board as it was;
/// else the event, under the next id, comes last.
pub open spec fn event_created(b: EventBoard, a: EventBoard, user: Option<UserDto>, f: EventFields, now: Instant, r: Result<Event, ContentError>) -> bool {
    &&& !allowed(user, Role::Editor) ==> r == Err::<Event, ContentError>(refusal(user)) && a == b
    &&& allowed(user, Role::Editor) ==> (r matches Ok(item) && {
        &&& item@ == (EventView {
            id: b.next_id,
            title: f.title,
            description: f.description,
            date: f.date,
            end_date: f.end_date,
            location: f.location,
            created_at: (now.secs, now.nanos),
        })
        &&& a.next_id == b.next_id + 1
        &&& event_views(a.items@) == event_views(b.items@).push(item@)
    })
}

/// Setting the details of store `slug` as `user`, dated `now`, took book `b`
/// to book `a` and answered `r`: a refusal leaves the book as it was; else
/// the details, by the caller, replace any earlier ones under `slug`.
pub open spec fn shop_info_set(
    b: ShopInfoBook,
    a: ShopInfoBook,
    user: Option<UserDto>,
    slug: Seq<char>,
    description: Seq<char>,
    opening_hours: Seq<char>,
    special_notice: Option<Seq<char>>,
    now: Instant,
    r: Result<ShopInfo, ContentError>,
) -> bool {
    &&& !allowed(user, Role::Editor) ==> r == Err::<ShopInfo, ContentError>(refusal(user)) && a == b
    &&& allowed(user, Role::Editor) ==> (r matches Ok(info) && {
        &&& info@ == (ShopInfoView {
            slug,
            description,
            opening_hours,
            special_notice,
            updated_at: (now.secs, now.nanos),
            updated_by: user->0.username@,
        })
        &&& a.details() == b.details().insert(slug, info@)
    })
}

/// The news board: the next id to give and the items, oldest first.
pub struct NewsBoard {
    pub next_id: u32,
    pub items: Vec<NewsItem>,
}

impl NewsBoard {
    /// Every id given so far is below the next one.
    pub open spec fn wf(&self) -> bool {
        forall|j: int| 0 <= j < self.items@.len() ==> #[trigger] self.items@[j].id < self.next_id
    }

    /// The board as the site starts with it: two welcome items, dated `now`.
    pub fn seeded(now: Instant) -> (b: NewsBoard)
        ensures
            b.wf(),
            b.next_id == 3,
            b.items@.len() == 2,
            b.items@[0].id == 1 && b.items@[0].title@ == "Welcome to FoxTown"@,
            b.items@[1].id == 2 && b.items@[1].title@ == "Spring Collection Launch"@,
    {
        let items = vec![
            NewsItem {
                id: 1,
                title: string_from("Welcome to FoxTown"),
                body: string_from("<p>Discover your new favorite destination for luxury outlet shopping with over 160 premium brands, all with discounts up to 70% year-round.</p>"),
                author: string_from("Admin"),
                created_at: now,
                updated_at: now,
            },
            NewsItem {
                id: 2,
                title: string_from("Spring Collection Launch"),
                body: string_from("<p>Explore the latest spring collections from world-renowned designers. New arrivals in women's, men's, and kids' fashion available now.</p>"),
                author: string_from("Admin"),
                created_at: now,
                updated_at: now,
            },
        ];
        NewsBoard { next_id: 3, items }
    }

    /// Every news item, oldest first.
    pub fn list_news(&self) -> (r: Vec<NewsItem>)
        ensures
            news_views(r@) == news_views(self.items@),
    {
        let mut r: Vec<NewsItem> = Vec::new();
        let mut i: usize = 0;
        while i < self.items.len()
            invariant
                i <= self.items@.len(),
                r@.len() == i,
                forall|j: int| 0 <= j < i ==> #[trigger] r@[j]@ == self.items@[j]@,
            decreases self.items@.len() - i,
        {
            r.push(copy_news(&self.items[i]));
            i = i + 1;
        }
        assert(news_views(r@) =~= news_views(self.items@));
        r
    }

    /// Publishes a news item (editors and admins), by the caller, dated
    /// `now`, under the next id.
    pub fn create_news_at(&mut self, user: Option<UserDto>, title: String, body: String, now: Instant) -> (r: Result<NewsItem, ContentError>)
        requires
            old(self).wf(),
            old(self).next_id < u32::MAX,
        ensures
            final(self).wf(),
            news_created(*old(self), *final(self), user, title@, body@, now, r),
    {
        let u = match check_role(user, Role::Editor) {
            Ok(u) => u,
            Err(e) => return Err(e),
        };
        let item = NewsItem { id: self.next_id, title, body, author: u.username, created_at: now, updated_at: now };
        self.next_id = self.next_id + 1;
        self.items.push(copy_news(&item));
        assert(news_views(self.items@) =~= news_views(old(self).items@).push(item@));
        Ok(item)
    }

    /// Publishes a news item dated now (see `create_news_at`).
    pub fn create_news(&mut self, user: Option<UserDto>, title: String, body: String) -> (r: Result<NewsItem, ContentError>)
        requires
            old(self).wf(),
            old(self).next_id < u32::MAX,
        ensures
            final(self).wf(),
            exists|now: Instant|
                in_clock_range(now) && #[trigger] news_created(*old(self), *final(self), user, title@, body@, now, r),
    {
        let now = now_instant();
        self.create_news_at(user, title, body, now)
    }

    /// Rewrites the first news item with id `id` (editors and admins): new
    /// title and body, updated `now`.
    pub fn update_news_at(&mut self, user: Option<UserDto>, id: u32, title: String, body: String, now: Instant) -> (r: Result<NewsItem, ContentError>)
        requires
            old(self).wf(),
        ensures
            final(self).wf(),
            news_updated(*old(self), *final(self), user, id, title@, body@, now, r),
    {
        match check_role(user, Role::Editor) {
            Ok(_) => {},
            Err(e) => return Err(e),
        }
        let ghost ids = news_ids(self.items@);
        let mut i: usize = 0;
        while i < self.items.len()
            invariant
                i <= self.items@.len(),
                ids == news_ids(self.items@),
                self.items@ == old(self).items@,
                self.next_id == old(self).next_id,
                self.wf(),
                allowed(user, Role::Editor),
                forall|j: int| 0 <= j < i ==> ids[j] != id,
            decreases self.items@.len() - i,
        {
            if self.items[i].id == id {
                proof {
                    lemma_first_with_id(ids, id, i as int);
                }
                let old_item = &self.items[i];
                let item = NewsItem {
                    id: old_item.id,
                    title,
                    body,
                    author: old_item.author.clone(),
                    created_at: old_item.created_at,
                    updated_at: now,
                };
                self.items.set(i, copy_news(&item));
                assert(news_views(self.items@) =~= news_views(old(self).items@).update(i as int, item@));
                return Ok(item);
            }
            i = i + 1;
        }
        proof {
            lemma_first_with_id(ids, id, i as int);
        }
        Err(ContentError::NotFound(ContentKind::News, id))
    }

    /// Rewrites a news item, updated now (see `update_news_at`).
    pub fn update_news(&mut self, user: Option<UserDto>, id: u32, title: String, body: String) -> (r: Result<NewsItem, ContentError>)
        requires
            old(self).wf(),
        ensures
            final(self).wf(),
            exists|now: Instant|
                in_clock_range(now) && #[trigger] news_updated(*old(self), *final(self), user, id, title@, body@, now, r),
    {
        let now = now_instant();
        self.update_news_at(user, id, title, body, now)
    }

    /// Deletes every news item with id `id` (admins only); refused when
    /// there is none.
    pub fn delete_news(&mut self, user: Option<UserDto>, id: u32) -> (r: Result<(), ContentError>)
        requires
            old(self).wf(),
        ensures
            final(self).wf(),
            final(self).next_id == old(self).next_id,
            !allowed(user, Role::Admin) ==> r == Err::<(), ContentError>(refusal(user)) && *final(self) == *old(self),
            allowed(user, Role::Admin) ==> news_views(final(self).items@) == news_views(old(self).items@).filter(|n: NewsView| n.id != id)
                && (r is Ok <==> news_ids(old(self).items@).contains(id))
                && (r is Err ==> r == Err::<(), ContentError>(ContentError::NotFound(ContentKind::News, id))),
    {
        match check_role(user, Role::Admin) {
            Ok(_) => {},
            Err(e) => return Err(e),
        }
        let ghost before = news_views(self.items@);
        let ghost ids = news_ids(self.items@);
        let mut kept: Vec<NewsItem> = Vec::new();
        let mut found = false;
        let mut i: usize = 0;
        while i < self.items.len()
            invariant
                i <= self.items@.len(),
                before == news_views(self.items@),
                ids == news_ids(self.items@),
                self.wf(),
                forall|j: int| 0 <= j < kept@.len() ==> #[trigger] kept@[j].id < self.next_id,
                news_views(kept@) == before.take(i as int).filter(|n: NewsView| n.id != id),
                found == ids.take(i as int).contains(id),
            decreases self.items@.len() - i,
        {
            proof {
                assert(before.take(i + 1).drop_last() == before.take(i as int));
                reveal_with_fuel(Seq::filter, 1);
                lemma_contains_step(ids, id, i as int);
            }
            if self.items[i].id != id {
                kept.push(copy_news(&self.items[i]));
            } else {
                found = true;
            }
            assert(news_views(kept@) =~= before.take(i + 1).filter(|n: NewsView| n.id != id));
            i = i + 1;
        }
        assert(before.take(before.len() as int) == before);
        assert(ids.take(ids.len() as int) == ids);
        self.items = kept;
        if found {
            Ok(())
        } else {
            Err(ContentError::NotFound(ContentKind::News, id))
        }
    }
}

proof fn lemma_contains_step(ids: Seq<u32>, id: u32, i: int)
    requires
        0 <= i < ids.len(),
    ensures
        ids.take(i + 1).contains(id) == (ids.take(i).contains(id) || ids[i] == id),
{
    if ids.take(i + 1).contains(id) {
        let j = choose|j: int| 0 <= j < i + 1 && #[trigger] ids.take(i + 1)[j] == id;
        if j < i {
            assert(ids.take(i)[j] == id);
        }
    }
    if ids.take(i).contains(id) {
        let j = choose|j: int| 0 <= j < i && #[trigger] ids.take(i)[j] == id;
        assert(ids.take(i + 1)[j] == id);
    }
    if ids[i] == id {
        assert(ids.take(i + 1)[i] == id);
    }
}

/// A new item's id was never given before, so after creating it exactly
/// one item carries it.
pub proof fn law_created_id_is_fresh(b: NewsBoard)
    requires
        b.wf(),
    ensures
        !news_ids(b.items@).contains(b.next_id),
{
    if news_ids(b.items@).contains(b.next_id) {
        let j = choose|j: int| 0 <= j < news_ids(b.items@).len() && #[trigger] news_ids(b.items@)[j] == b.next_id;
        assert(b.items@[j].id < b.next_id);
    }
}

// ─── Events ───────────────────────────────────────────────────────────────────

/// A scheduled event; dates are `YYYY-MM-DD`, the description HTML.
pub struct Event {
    pub id: u32,
    pub title: String,
    pub description: String,
    pub date: String,
    pub end_date: Option<String>,
    pub location: String,
    pub created_at: Instant,
}

pub struct EventView {
    pub id: u32,
    pub title: Seq<char>,
    pub description: Seq<char>,
    pub date: Seq<char>,
    pub end_date: Option<Seq<char>>,
    pub location: Seq<char>,
    pub created_at: (i64, u32),
}

impl View for Event {
    type V = EventView;

    open spec fn view(&self) -> EventView {
        EventView {
            id: self.id,
            title: self.title@,
            description: self.description@,
            date: self.date@,
            end_date: opt_view(self.end_date),
            location: self.location@,
            created_at: (self.created_at.secs, self.created_at.nanos),
        }
    }
}

pub fn copy_event(e: &Event) -> (c: Event)
    ensures
        c@ == e@,
{
    Event {
        id: e.id,
        title: e.title.clone(),
        description: e.description.clone(),
        date: e.date.clone(),
        end_date: copy_opt_string(&e.end_date),
        location: e.location.clone(),
        created_at: e.created_at,
    }
}

pub open spec fn event_views(v: Seq<Event>) -> Seq<EventView> {
    v.map_values(|e: Event| e@)
}

pub open spec fn event_ids(v: Seq<Event>) -> Seq<u32> {
    v.map_values(|e: Event| e.id)
}

/// The event board: the next id to give and the events, oldest first.
pub struct EventBoard {
    pub next_id: u32,
    pub items: Vec<Event>,
}

impl EventBoard {
    pub open spec fn wf(&self) -> bool {
        forall|j: int| 0 <= j < self.items@.len() ==> #[trigger] self.items@[j].id < self.next_id
    }

    /// The board as the site starts with it: two events, created `now`.
    pub fn seeded(now: Instant) -> (b: EventBoard)
        ensures
            b.wf(),
            b.next_id == 3,
            b.items@.len() == 2,
            b.items@[0].id == 1 && b.items@[0].title@ == "VIP Preview Night"@,
            b.items@[1].id == 2 && b.items@[1].title@ == "Family Weekend"@,
    {
        let items = vec![
            Event {
                id: 1,
                title: string_from("VIP Preview Night"),
                description: string_from("Join us for an exclusive evening shopping experience with special discounts and refreshments. Members only."),
                date: string_from("2026-05-15"),
                end_date: Some(string_from("2026-05-15")),
                location: string_from("FoxTown Main Hall"),
                created_at: now,
            },
            Event {
                id: 2,
                title: string_from("Family Weekend"),
                description: string_from("Special family-friendly activities, kids' entertainment, and exclusive discounts across all participating stores."),
                date: string_from("2026-05-18"),
                end_date: Some(string_from("2026-05-19")),
                location: string_from("FoxTown Outlet"),
                created_at: now,
            },
        ];
        EventBoard { next_id: 3, items }
    }

    /// Every event, oldest first.
    pub fn list_events(&self) -> (r: Vec<Event>)
        ensures
            event_views(r@) == event_views(self.items@),
    {
        let mut r: Vec<Event> = Vec::new();
        let mut i: usize = 0;
        while i < self.items.len()
            invariant
                i <= self.items@.len(),
                r@.len() == i,
                forall|j: int| 0 <= j < i ==> #[trigger] r@[j]@ == self.items@[j]@,
            decreases self.items@.len() - i,
        {
            r.push(copy_event(&self.items[i]));
            i = i + 1;
        }
        assert(event_views(r@) =~= event_views(self.items@));
        r
    }

    /// Adds an event (editors and admins), created `now`, under the next id.
    pub fn create_event_at(
        &mut self,
        user: Option<UserDto>,
        title: String,
        description: String,
        date: String,
        end_date: Option<String>,
        location: String,
        now: Instant,
    ) -> (r: Result<Event, ContentError>)
        requires
            old(self).wf(),
            old(self).next_id < u32::MAX,
        ensures
            final(self).wf(),
            event_created(
                *old(self),
                *final(self),
                user,
                EventFields { title: title@, description: description@, date: date@, end_date: opt_view(end_date), location: location@ },
                now,
                r,
            ),
    {
        match check_role(user, Role::Editor) {
            Ok(_) => {},
            Err(e) => return Err(e),
        }
        let item = Event { id: self.next_id, title, description, date, end_date, location, created_at: now };
        self.next_id = self.next_id + 1;
        self.items.push(copy_event(&item));
        assert(event_views(self.items@) =~= event_views(old(self).items@).push(item@));
        Ok(item)
    }

    /// Adds an event created now (see `create_event_at`).
    pub fn create_event(
        &mut self,
        user: Option<UserDto>,
        title: String,
        description: String,
        date: String,
        end_date: Option<String>,
        location: String,
    ) -> (r: Result<Event, ContentError>)
        requires
            old(self).wf(),
            old(self).next_id < u32::MAX,
        ensures
            final(self).wf(),
            exists|now: Instant|
                in_clock_range(now) && #[trigger] event_created(
                    *old(self),
                    *final(self),
                    user,
                    EventFields { title: title@, description: description@, date: date@, end_date: opt_view(end_date), location: location@ },
                    now,
                    r,
                ),
    {
        let now = now_instant();
        self.create_event_at(user, title, description, date, end_date, location, now)
    }

    /// Rewrites the first event with id `id` (editors and admins).
    pub fn update_event(
        &mut self,
        user: Option<UserDto>,
        id: u32,
        title: String,
        description: String,
        date: String,
        end_date: Option<String>,
        location: String,
    ) -> (r: Result<Event, ContentError>)
        requires
            old(self).wf(),
        ensures
            final(self).wf(),
            final(self).next_id == old(self).next_id,
            !allowed(user, Role::Editor) ==> r == Err::<Event, ContentError>(refusal(user)) && *final(self) == *old(self),
            allowed(user, Role::Editor) ==> match first_with_id(event_ids(old(self).items@), id) {
                None => r == Err::<Event, ContentError>(ContentError::NotFound(ContentKind::Event, id))
                    && event_views(final(self).items@) == event_views(old(self).items@),
                Some(k) => r matches Ok(item) && item@ == (EventView {
                    title: title@,
                    description: description@,
                    date: date@,
                    end_date: opt_view(end_date),
                    location: location@,
                    ..old(self).items@[k]@
                }) && event_views(final(self).items@) == event_views(old(self).items@).update(k, item@),
            },
    {
        match check_role(user, Role::Editor) {
            Ok(_) => {},
            Err(e) => return Err(e),
        }
        let ghost ids = event_ids(self.items@);
        let mut i: usize = 0;
        while i < self.items.len()
            invariant
                i <= self.items@.len(),
                ids == event_ids(self.items@),
                self.items@ == old(self).items@,
                self.next_id == old(self).next_id,
                self.wf(),
                allowed(user, Role::Editor),
                forall|j: int| 0 <= j < i ==> ids[j] != id,
            decreases self.items@.len() - i,
        {
            if self.items[i].id == id {
                proof {
                    lemma_first_with_id(ids, id, i as int);
                }
                let old_item = &self.items[i];
                let item = Event {
                    id: old_item.id,
                    title,
                    description,
                    date,
                    end_date,
                    location,
                    created_at: old_item.created_at,
                };
                self.items.set(i, copy_event(&item));
                assert(event_views(self.items@) =~= event_views(old(self).items@).update(i as int, item@));
                return Ok(item);
            }
            i = i + 1;
        }
        proof {
            lemma_first_with_id(ids, id, i as int);
        }
        Err(ContentError::NotFound(ContentKind::Event, id))
    }

    /// Deletes every event with id `id` (admins only); refused when there is none.
    pub fn delete_event(&mut self, user: Option<UserDto>, id: u32) -> (r: Result<(), ContentError>)
        requires
            old(self).wf(),
        ensures
            final(self).wf(),
            final(self).next_id == old(self).next_id,
            !allowed(user, Role::Admin) ==> r == Err::<(), ContentError>(refusal(user)) && *final(self) == *old(self),
            allowed(user, Role::Admin) ==> event_views(final(self).items@) == event_views(old(self).items@).filter(|e: EventView| e.id != id)
                && (r is Ok <==> event_ids(old(self).items@).contains(id))
                && (r is Err ==> r == Err::<(), ContentError>(ContentError::NotFound(ContentKind::Event, id))),
    {
        match check_role(user, Role::Admin) {
            Ok(_) => {},
            Err(e) => return Err(e),
        }
        let ghost before = event_views(self.items@);
        let ghost ids = event_ids(self.items@);
        let mut kept: Vec<Event> = Vec::new();
        let mut found = false;
        let mut i: usize = 0;
        while i < self.items.len()
            invariant
                i <= self.items@.len(),
                before == event_views(self.items@),
                ids == event_ids(self.items@),
                self.wf(),
                forall|j: int| 0 <= j < kept@.len() ==> #[trigger] kept@[j].id < self.next_id,
                event_views(kept@) == before.take(i as int).filter(|e: EventView| e.id != id),
                found == ids.take(i as int).contains(id),
            decreases self.items@.len() - i,
        {
            proof {
                assert(before.take(i + 1).drop_last() == before.take(i as int));
                reveal_with_fuel(Seq::filter, 1);
                lemma_contains_step(ids, id, i as int);
            }
            if self.items[i].id != id {
                kept.push(copy_event(&self.items[i]));
            } else {
                found = true;
            }
            assert(event_views(kept@) =~= before.take(i + 1).filter(|e: EventView| e.id != id));
            i = i + 1;
        }
        assert(before.take(before.len() as int) == before);
        assert(ids.take(ids.len() as int) == ids);
        self.items = kept;
        if found {
            Ok(())
        } else {
            Err(ContentError::NotFound(ContentKind::Event, id))
        }
    }
}

// ─── Banners ──────────────────────────────────────────────────────────────────

/// A promotional banner; only active ones are shown, lower orders first.
pub struct Banner {
    pub id: u32,
    pub title: String,
    pub image_url: String,
    pub link_url: Option<String>,
    pub active: bool,
    pub display_order: u32,
}

pub struct BannerView {
    pub id: u32,
    pub title: Seq<char>,
    pub image_url: Seq<char>,
    pub link_url: Option<Seq<char>>,
    pub active: bool,
    pub display_order: u32,
}

impl View for Banner {
    type V = BannerView;

    open spec fn view(&self) -> BannerView {
        BannerView {
            id: self.id,
            title: self.title@,
            image_url: self.image_url@,
            link_url: opt_view(self.link_url),
            active: self.active,
            display_order: self.display_order,
        }
    }
}

pub fn copy_banner(b: &Banner) -> (c: Banner)
    ensures
        c@ == b@,
{
    Banner {
        id: b.id,
        title: b.title.clone(),
        image_url: b.image_url.clone(),
        link_url: copy_opt_string(&b.link_url),
        active: b.active,
        display_order: b.display_order,
    }
}

pub open spec fn banner_views(v: Seq<Banner>) -> Seq<BannerView> {
    v.map_values(|b: Banner| b@)
}

pub open spec fn banner_ids(v: Seq<Banner>) -> Seq<u32> {
    v.map_values(|b: Banner| b.id)
}

/// The keys ordering banners by display order.
pub open spec fn order_keys(v: Seq<BannerView>) -> Seq<KeyView> {
    v.map_values(|b: BannerView| KeyView { class: 0, major: 0, minor: b.display_order as u64, text: Seq::empty() })
}

/// The banners at the positions `perm`, in that order.
pub open spec fn banners_at(v: Seq<BannerView>, perm: Seq<usize>) -> Seq<BannerView> {
    perm.map_values(|p: usize| v[p as int])
}

/// The active banners, in their order in the list.
pub open spec fn active_banners(v: Seq<BannerView>) -> Seq<BannerView> {
    v.filter(|b: BannerView| b.active)
}

fn sorted_by_order(v: &Vec<Banner>) -> (r: Vec<Banner>)
    ensures
        exists|perm: Seq<usize>|
            #[trigger] is_stable_order(order_keys(banner_views(v@)), false, perm) && banner_views(r@) == banners_at(banner_views(v@), perm),
{
    let mut keys: Vec<SortKey> = Vec::new();
    let mut i: usize = 0;
    while i < v.len()
        invariant
            i <= v@.len(),
            keys@.len() == i,
            forall|j: int| 0 <= j < i ==> #[trigger] keys@[j]@ == (KeyView { class: 0, major: 0, minor: v@[j].display_order as u64, text: Seq::empty() }),
        decreases v@.len() - i,
    {
        keys.push(SortKey { class: 0, major: 0, minor: v[i].display_order as u64, text: String::new() });
        i = i + 1;
    }
    assert(key_views(keys@) =~= order_keys(banner_views(v@)));
    let perm = stable_order(&keys, false);
    let mut r: Vec<Banner> = Vec::new();
    let mut k: usize = 0;
    while k < perm.len()
        invariant
            k <= perm@.len(),
            perm@.len() == v@.len(),
            forall|a: int| 0 <= a < perm@.len() ==> perm@[a] < v@.len(),
            r@.len() == k,
            forall|q: int| 0 <= q < k ==> #[trigger] r@[q]@ == v@[perm@[q] as int]@,
        decreases perm@.len() - k,
    {
        r.push(copy_banner(&v[perm[k]]));
        k = k + 1;
    }
    assert(banner_views(r@) =~= banners_at(banner_views(v@), perm@));
    r
}

/// The banner board: the next id to give and the banners.
pub struct BannerBoard {
    pub next_id: u32,
    pub items: Vec<Banner>,
}

impl BannerBoard {
    pub open spec fn wf(&self) -> bool {
        forall|j: int| 0 <= j < self.items@.len() ==> #[trigger] self.items@[j].id < self.next_id
    }

    /// The board as the site starts with it: the summer banner, active.
    pub fn seeded() -> (b: BannerBoard)
        ensures
            b.wf(),
            b.next_id == 2,
            b.items@.len() == 1,
            b.items@[0]@ == (BannerView {
                id: 1,
                title: "Summer Collection - Up to 70% Off"@,
                image_url: "/editorial-fashion.png"@,
                link_url: Some("/stores"@),
                active: true,
                display_order: 1,
            }),
    {
        let items = vec![
            Banner {
                id: 1,
                title: string_from("Summer Collection - Up to 70% Off"),
                image_url: string_from("/editorial-fashion.png"),
                link_url: Some(string_from("/stores")),
                active: true,
                display_order: 1,
            },
        ];
        BannerBoard { next_id: 2, items }
    }

    /// The banners visitors see: the active ones, by display order (equal
    /// orders keep their order in the list).
    pub fn list_banners(&self) -> (r: Vec<Banner>)
        ensures
            exists|perm: Seq<usize>|
                #[trigger] is_stable_order(order_keys(active_banners(banner_views(self.items@))), false, perm)
                    && banner_views(r@) == banners_at(active_banners(banner_views(self.items@)), perm),
    {
        let ghost before = banner_views(self.items@);
        let mut act: Vec<Banner> = Vec::new();
        let mut i: usize = 0;
        while i < self.items.len()
            invariant
                i <= self.items@.len(),
                before == banner_views(self.items@),
                banner_views(act@) == active_banners(before.take(i as int)),
            decreases self.items@.len() - i,
        {
            proof {
                assert(before.take(i + 1).drop_last() == before.take(i as int));
                reveal_with_fuel(Seq::filter, 1);
            }
            if self.items[i].active {
                act.push(copy_banner(&self.items[i]));
            }
            assert(banner_views(act@) =~= active_banners(before.take(i + 1)));
            i = i + 1;
        }
        assert(before.take(before.len() as int) == before);
        sorted_by_order(&act)
    }

    /// Every banner, active or not, by display order (editors and admins).
    pub fn list_all_banners(&self, user: Option<UserDto>) -> (r: Result<Vec<Banner>, ContentError>)
        ensures
            !allowed(user, Role::Editor) ==> r == Err::<Vec<Banner>, ContentError>(refusal(user)),
            allowed(user, Role::Editor) ==> (r matches Ok(all) && exists|perm: Seq<usize>|
                #[trigger] is_stable_order(order_keys(banner_views(self.items@)), false, perm)
                    && banner_views(all@) == banners_at(banner_views(self.items@), perm)),
    {
        match check_role(user, Role::Editor) {
            Ok(_) => {},
            Err(e) => return Err(e),
        }
        Ok(sorted_by_order(&self.items))
    }

    /// Adds a banner (editors and admins), inactive, under the next id.
    pub fn create_banner(
        &mut self,
        user: Option<UserDto>,
        title: String,
        image_url: String,
        link_url: Option<String>,
        display_order: u32,
    ) -> (r: Result<Banner, ContentError>)
        requires
            old(self).wf(),
            old(self).next_id < u32::MAX,
        ensures
            final(self).wf(),
            !allowed(user, Role::Editor) ==> r == Err::<Banner, ContentError>(refusal(user)) && *final(self) == *old(self),
            allowed(user, Role::Editor) ==> (r matches Ok(item) && {
                &&& item@ == (BannerView {
                    id: old(self).next_id,
                    title: title@,
                    image_url: image_url@,
                    link_url: opt_view(link_url),
                    active: false,
                    display_order,
                })
                &&& final(self).next_id == old(self).next_id + 1
                &&& banner_views(final(self).items@) == banner_views(old(self).items@).push(item@)
            }),
    {
        match check_role(user, Role::Editor) {
            Ok(_) => {},
            Err(e) => return Err(e),
        }
        let item = Banner { id: self.next_id, title, image_url, link_url, active: false, display_order };
        self.next_id = self.next_id + 1;
        self.items.push(copy_banner(&item));
        assert(banner_views(self.items@) =~= banner_views(old(self).items@).push(item@));
        Ok(item)
    }

    fn position(&self, id: u32) -> (r: Option<usize>)
        ensures
            match r {
                Some(k) => k < self.items@.len() && first_with_id(banner_ids(self.items@), id) == Some(k as int),
                None => first_with_id(banner_ids(self.items@), id) is None,
            },
    {
        let ghost ids = banner_ids(self.items@);
        let mut i: usize = 0;
        while i < self.items.len()
            invariant
                i <= self.items@.len(),
                ids == banner_ids(self.items@),
                forall|j: int| 0 <= j < i ==> ids[j] != id,
            decreases self.items@.len() - i,
        {
            if self.items[i].id == id {
                proof {
                    lemma_first_with_id(ids, id, i as int);
                }
                return Some(i);
            }
            i = i + 1;
        }
        proof {
            lemma_first_with_id(ids, id, i as int);
        }
        None
    }

    /// Shows or hides the first banner with id `id` (editors and admins).
    pub fn set_banner_active(&mut self, user: Option<UserDto>, id: u32, active: bool) -> (r: Result<(), ContentError>)
        requires
            old(self).wf(),
        ensures
            final(self).wf(),
            final(self).next_id == old(self).next_id,
            !allowed(user, Role::Editor) ==> r == Err::<(), ContentError>(refusal(user)) && *final(self) == *old(self),
            allowed(user, Role::Editor) ==> match first_with_id(banner_ids(old(self).items@), id) {
                None => r == Err::<(), ContentError>(ContentError::NotFound(ContentKind::Banner, id))
                    && banner_views(final(self).items@) == banner_views(old(self).items@),
                Some(k) => r is Ok && banner_views(final(self).items@) == banner_views(old(self).items@).update(
                    k,
                    BannerView { active, ..old(self).items@[k]@ },
                ),
            },
    {
        match check_role(user, Role::Editor) {
            Ok(_) => {},
            Err(e) => return Err(e),
        }
        match self.position(id) {
            Some(k) => {
                let mut b = copy_banner(&self.items[k]);
                b.active = active;
                let ghost nb = b@;
                self.items.set(k, b);
                assert(banner_views(self.items@) =~= banner_views(old(self).items@).update(k as int, nb));
                Ok(())
            },
            None => Err(ContentError::NotFound(ContentKind::Banner, id)),
        }
    }

    /// Rewrites the first banner with id `id` (editors and admins): title,
    /// image and link; its state and order stay.
    pub fn update_banner(
        &mut self,
        user: Option<UserDto>,
        id: u32,
        title: String,
        image_url: String,
        link_url: Option<String>,
    ) -> (r: Result<Banner, ContentError>)
        requires
            old(self).wf(),
        ensures
            final(self).wf(),
            final(self).next_id == old(self).next_id,
            !allowed(user, Role::Editor) ==> r == Err::<Banner, ContentError>(refusal(user)) && *final(self) == *old(self),
            allowed(user, Role::Editor) ==> match first_with_id(banner_ids(old(self).items@), id) {
                None => r == Err::<Banner, ContentError>(ContentError::NotFound(ContentKind::Banner, id))
                    && banner_views(final(self).items@) == banner_views(old(self).items@),
                Some(k) => r matches Ok(item) && item@ == (BannerView {
                    title: title@,
                    image_url: image_url@,
                    link_url: opt_view(link_url),
                    ..old(self).items@[k]@
                }) && banner_views(final(self).items@) == banner_views(old(self).items@).update(k, item@),
            },
    {
        match check_role(user, Role::Editor) {
            Ok(_) => {},
            Err(e) => return Err(e),
        }
        match self.position(id) {
            Some(k) => {
                let old_item = &self.items[k];
                let item = Banner {
                    id: old_item.id,
                    title,
                    image_url,
                    link_url,
                    active: old_item.active,
                    display_order: old_item.display_order,
                };
                self.items.set(k, copy_banner(&item));
                assert(banner_views(self.items@) =~= banner_views(old(self).items@).update(k as int, item@));
                Ok(item)
            },
            None => Err(ContentError::NotFound(ContentKind::Banner, id)),
        }
    }

    /// Deletes every banner with id `id` (admins only); refused when there is none.
    pub fn delete_banner(&mut self, user: Option<UserDto>, id: u32) -> (r: Result<(), ContentError>)
        requires
            old(self).wf(),
        ensures
            final(self).wf(),
            final(self).next_id == old(self).next_id,
            !allowed(user, Role::Admin) ==> r == Err::<(), ContentError>(refusal(user)) && *final(self) == *old(self),
            allowed(user, Role::Admin) ==> banner_views(final(self).items@) == banner_views(old(self).items@).filter(|b: BannerView| b.id != id)
                && (r is Ok <==> banner_ids(old(self).items@).contains(id))
                && (r is Err ==> r == Err::<(), ContentError>(ContentError::NotFound(ContentKind::Banner, id))),
    {
        match check_role(user, Role::Admin) {
            Ok(_) => {},
            Err(e) => return Err(e),
        }
        let ghost before = banner_views(self.items@);
        let ghost ids = banner_ids(self.items@);
        let mut kept: Vec<Banner> = Vec::new();
        let mut found = false;
        let mut i: usize = 0;
        while i < self.items.len()
            invariant
                i <= self.items@.len(),
                before == banner_views(self.items@),
                ids == banner_ids(self.items@),
                self.wf(),
                forall|j: int| 0 <= j < kept@.len() ==> #[trigger] kept@[j].id < self.next_id,
                banner_views(kept@) == before.take(i as int).filter(|b: BannerView| b.id != id),
                found == ids.take(i as int).contains(id),
            decreases self.items@.len() - i,
        {
            proof {
                assert(before.take(i + 1).drop_last() == before.take(i as int));
                reveal_with_fuel(Seq::filter, 1);
                lemma_contains_step(ids, id, i as int);
            }
            if self.items[i].id != id {
                kept.push(copy_banner(&self.items[i]));
            } else {
                found = true;
            }
            assert(banner_views(kept@) =~= before.take(i + 1).filter(|b: BannerView| b.id != id));
            i = i + 1;
        }
        assert(before.take(before.len() as int) == before);
        assert(ids.take(ids.len() as int) == ids);
        self.items = kept;
        if found {
            Ok(())
        } else {
            Err(ContentError::NotFound(ContentKind::Banner, id))
        }
    }
}

/// Visitors see only active banners, in display order.
pub proof fn law_listed_banners_active_and_ordered(v: Seq<BannerView>, perm: Seq<usize>)
    requires
        is_stable_order(order_keys(active_banners(v)), false, perm),
    ensures
        forall|i: int| 0 <= i < perm.len() ==> (#[trigger] banners_at(active_banners(v), perm)[i]).active,
        forall|i: int, j: int|
            0 <= i < j < perm.len() ==> (#[trigger] banners_at(active_banners(v), perm)[i]).display_order
                <= (#[trigger] banners_at(active_banners(v), perm)[j]).display_order,
{
    let a = active_banners(v);
    assert forall|i: int| 0 <= i < perm.len() implies (#[trigger] banners_at(a, perm)[i]).active by {
        v.lemma_filter_pred(|b: BannerView| b.active, perm[i] as int);
    }
    assert forall|i: int, j: int| 0 <= i < j < perm.len() implies (#[trigger] banners_at(a, perm)[i]).display_order
        <= (#[trigger] banners_at(a, perm)[j]).display_order by {
        assert(crate::order::goes_before(order_keys(a), false, perm[i] as int, perm[j] as int));
    }
}

// ─── Store details ─────────────────────────────────────────────────────────────

/// The editable details of a store, under its slug.
pub struct ShopInfo {
    pub slug: String,
    pub description: String,
    pub opening_hours: String,
    pub special_notice: Option<String>,
    pub updated_at: Instant,
    pub updated_by: String,
}

pub struct ShopInfoView {
    pub slug: Seq<char>,
    pub description: Seq<char>,
    pub opening_hours: Seq<char>,
    pub special_notice: Option<Seq<char>>,
    pub updated_at: (i64, u32),
    pub updated_by: Seq<char>,
}

impl View for ShopInfo {
    type V = ShopInfoView;

    open spec fn view(&self) -> ShopInfoView {
        ShopInfoView {
            slug: self.slug@,
            description: self.description@,
            opening_hours: self.opening_hours@,
            special_notice: opt_view(self.special_notice),
            updated_at: (self.updated_at.secs, self.updated_at.nanos),
            updated_by: self.updated_by@,
        }
    }
}

pub fn copy_shop_info(s: &ShopInfo) -> (c: ShopInfo)
    ensures
        c@ == s@,
{
    ShopInfo {
        slug: s.slug.clone(),
        description: s.description.clone(),
        opening_hours: s.opening_hours.clone(),
        special_notice: copy_opt_string(&s.special_notice),
        updated_at: s.updated_at,
        updated_by: s.updated_by.clone(),
    }
}

/// The store details by slug, each slug at most once.
pub struct ShopInfoBook {
    pub entries: Vec<ShopInfo>,
}

impl ShopInfoBook {
    /// The details kept, by slug.
    pub open spec fn details(&self) -> Map<Seq<char>, ShopInfoView> {
        details_of(self.entries@)
    }

    /// No slug is kept twice.
    pub open spec fn wf(&self) -> bool {
        forall|a: int, b: int|
            0 <= a < b < self.entries@.len() ==> #[trigger] self.entries@[a].slug@ != #[trigger] self.entries@[b].slug@
    }

    pub fn new() -> (b: ShopInfoBook)
        ensures
            b.wf(),
            b.details() == Map::<Seq<char>, ShopInfoView>::empty(),
    {
        let b = ShopInfoBook { entries: Vec::new() };
        assert(b.details() =~= Map::<Seq<char>, ShopInfoView>::empty());
        b
    }

    fn slot(&self, slug: &str) -> (r: Option<usize>)
        requires
            self.wf(),
        ensures
            match r {
                Some(k) => k < self.entries@.len() && self.entries@[k as int].slug@ == slug@,
                None => forall|j: int| 0 <= j < self.entries@.len() ==> #[trigger] self.entries@[j].slug@ != slug@,
            },
    {
        let mut i: usize = 0;
        while i < self.entries.len()
            invariant
                i <= self.entries@.len(),
                forall|j: int| 0 <= j < i ==> #[trigger] self.entries@[j].slug@ != slug@,
            decreases self.entries@.len() - i,
        {
            if str_eq(self.entries[i].slug.as_str(), slug) {
                return Some(i);
            }
            i = i + 1;
        }
        None
    }

    /// The details of a store, if any were set.
    pub fn get_shop_info(&self, slug: &str) -> (r: Option<ShopInfo>)
        requires
            self.wf(),
        ensures
            match r {
                Some(s) => self.details().contains_key(slug@) && s@ == self.details()[slug@],
                None => !self.details().contains_key(slug@),
            },
    {
        match self.slot(slug) {
            Some(k) => {
                proof {
                    let j = choose|j: int| 0 <= j < self.entries@.len() && #[trigger] self.entries@[j].slug@ == slug@;
                    assert(j == k);
                }
                Some(copy_shop_info(&self.entries[k]))
            },
            None => None,
        }
    }

    /// Sets a store's details (editors and admins), by the caller, dated
    /// `now`: they replace any earlier ones.
    pub fn upsert_shop_info_at(
        &mut self,
        user: Option<UserDto>,
        slug: String,
        description: String,
        opening_hours: String,
        special_notice: Option<String>,
        now: Instant,
    ) -> (r: Result<ShopInfo, ContentError>)
        requires
            old(self).wf(),
        ensures
            final(self).wf(),
            shop_info_set(*old(self), *final(self), user, slug@, description@, opening_hours@, opt_view(special_notice), now, r),
    {
        let u = match check_role(user, Role::Editor) {
            Ok(u) => u,
            Err(e) => return Err(e),
        };
        let info = ShopInfo {
            slug,
            description,
            opening_hours,
            special_notice,
            updated_at: now,
            updated_by: u.username,
        };
        let ghost old_entries = self.entries@;
        match self.slot(info.slug.as_str()) {
            Some(k) => {
                self.entries.set(k, copy_shop_info(&info));
                proof {
                    assert forall|a: int, b: int| 0 <= a < b < self.entries@.len() implies #[trigger] self.entries@[a].slug@
                        != #[trigger] self.entries@[b].slug@ by {
                        if a != k && b != k {
                            assert(self.entries@[a] == old_entries[a] && self.entries@[b] == old_entries[b]);
                        } else if a == k {
                            assert(self.entries@[b] == old_entries[b]);
                        } else {
                            assert(self.entries@[a] == old_entries[a]);
                        }
                    }
                    lemma_details_after_set(old_entries, self.entries@, k as int, info@);
                }
            },
            None => {
                self.entries.push(copy_shop_info(&info));
                proof {
                    assert forall|a: int, b: int| 0 <= a < b < self.entries@.len() implies #[trigger] self.entries@[a].slug@
                        != #[trigger] self.entries@[b].slug@ by {
                        assert(self.entries@[a] == old_entries[a]);
                        if b < old_entries.len() {
                            assert(self.entries@[b] == old_entries[b]);
                        }
                    }
                    lemma_details_after_push(old_entries, self.entries@, info@);
                }
            },
        }
        Ok(info)
    }

    /// Sets a store's details dated now (see `upsert_shop_info_at`).
    pub fn upsert_shop_info(
        &mut self,
        user: Option<UserDto>,
        slug: String,
        description: String,
        opening_hours: String,
        special_notice: Option<String>,
    ) -> (r: Result<ShopInfo, ContentError>)
        requires
            old(self).wf(),
        ensures
            final(self).wf(),
            exists|now: Instant|
                in_clock_range(now) && #[trigger] shop_info_set(
                    *old(self),
                    *final(self),
                    user,
                    slug@,
                    description@,
                    opening_hours@,
                    opt_view(special_notice),
                    now,
                    r,
                ),
    {
        let now = now_instant();
        self.upsert_shop_info_at(user, slug, description, opening_hours, special_notice, now)
    }
}

/// The details by slug of a list of entries.
pub open spec fn details_of(es: Seq<ShopInfo>) -> Map<Seq<char>, ShopInfoView> {
    Map::new(
        |s: Seq<char>| exists|j: int| 0 <= j < es.len() && #[trigger] es[j].slug@ == s,
        |s: Seq<char>| es[choose|j: int| 0 <= j < es.len() && #[trigger] es[j].slug@ == s]@,
    )
}

proof fn lemma_details_after_set(old_es: Seq<ShopInfo>, new_es: Seq<ShopInfo>, k: int, info: ShopInfoView)
    requires
        0 <= k < old_es.len(),
        new_es.len() == old_es.len(),
        new_es[k]@ == info,
        old_es[k].slug@ == info.slug,
        forall|j: int| 0 <= j < old_es.len() && j != k ==> new_es[j] == old_es[j],
        forall|a: int, b: int| 0 <= a < b < old_es.len() ==> #[trigger] old_es[a].slug@ != #[trigger] old_es[b].slug@,
    ensures
        details_of(new_es) == details_of(old_es).insert(info.slug, info),
{
    let m = details_of(new_es);
    let n = details_of(old_es).insert(info.slug, info);
    assert forall|s: Seq<char>| m.contains_key(s) <==> n.contains_key(s) by {
        if m.contains_key(s) {
            let j = choose|j: int| 0 <= j < new_es.len() && #[trigger] new_es[j].slug@ == s;
            if j != k {
                assert(old_es[j].slug@ == s);
            }
        }
        if n.contains_key(s) && s != info.slug {
            let j = choose|j: int| 0 <= j < old_es.len() && #[trigger] old_es[j].slug@ == s;
            assert(new_es[j].slug@ == s);
        }
        if s == info.slug {
            assert(new_es[k].slug@ == s);
        }
    }
    assert forall|s: Seq<char>| m.contains_key(s) implies m[s] == n[s] by {
        let j = choose|j: int| 0 <= j < new_es.len() && #[trigger] new_es[j].slug@ == s;
        if s == info.slug {
            if j != k {
                assert(old_es[j].slug@ == old_es[k].slug@);
            }
        } else {
            assert(j != k);
            assert(old_es[j].slug@ == s);
            let i = choose|i: int| 0 <= i < old_es.len() && #[trigger] old_es[i].slug@ == s;
            if i != j {
                if i < j {
                    assert(old_es[i].slug@ != old_es[j].slug@);
                } else {
                    assert(old_es[j].slug@ != old_es[i].slug@);
                }
            }
        }
    }
    assert(m =~= n);
}

proof fn lemma_details_after_push(old_es: Seq<ShopInfo>, new_es: Seq<ShopInfo>, info: ShopInfoView)
    requires
        new_es.len() == old_es.len() + 1,
        new_es[old_es.len() as int]@ == info,
        forall|j: int| 0 <= j < old_es.len() ==> new_es[j] == old_es[j],
        forall|j: int| 0 <= j < old_es.len() ==> #[trigger] old_es[j].slug@ != info.slug,
        forall|a: int, b: int| 0 <= a < b < old_es.len() ==> #[trigger] old_es[a].slug@ != #[trigger] old_es[b].slug@,
    ensures
        details_of(new_es) == details_of(old_es).insert(info.slug, info),
{
    let m = details_of(new_es);
    let n = details_of(old_es).insert(info.slug, info);
    let last = old_es.len() as int;
    assert forall|s: Seq<char>| m.contains_key(s) <==> n.contains_key(s) by {
        if m.contains_key(s) {
            let j = choose|j: int| 0 <= j < new_es.len() && #[trigger] new_es[j].slug@ == s;
            if j != last {
                assert(old_es[j].slug@ == s);
            }
        }
        if n.contains_key(s) && s != info.slug {
            let j = choose|j: int| 0 <= j < old_es.len() && #[trigger] old_es[j].slug@ == s;
            assert(new_es[j].slug@ == s);
        }
        if s == info.slug {
            assert(new_es[last].slug@ == s);
        }
    }
    assert forall|s: Seq<char>| m.contains_key(s) implies m[s] == n[s] by {
        let j = choose|j: int| 0 <= j < new_es.len() && #[trigger] new_es[j].slug@ == s;
        if s == info.slug {
            if j != last {
                assert(old_es[j].slug@ == s);
            }
        } else {
            assert(j != last);
            assert(old_es[j].slug@ == s);
            let i = choose|i: int| 0 <= i < old_es.len() && #[trigger] old_es[i].slug@ == s;
            if i != j {
                if i < j {
                    assert(old_es[i].slug@ != old_es[j].slug@);
                } else {
                    assert(old_es[j].slug@ != old_es[i].slug@);
                }
            }
        }
    }
    assert(m =~= n);
}

// ─── Admin forms ──────────────────────────────────────────────────────────────

/// The news form needs a title and a body.
pub fn news_form_error(title: &str, body: &str) -> (e: Option<&'static str>)
    ensures
        e matches Some(m) ==> m@ == "Title and body are required"@,
        e is Some <==> (title@.len() == 0 || body@.len() == 0),
{
    if title.unicode_len() == 0 || body.unicode_len() == 0 {
        Some("Title and body are required")
    } else {
        None
    }
}

/// The event form needs every field but the end date.
pub fn event_form_error(title: &str, description: &str, date: &str, location: &str) -> (e: Option<&'static str>)
    ensures
        e matches Some(m) ==> m@ == "All fields are required"@,
        e is Some <==> (title@.len() == 0 || description@.len() == 0 || date@.len() == 0 || location@.len() == 0),
{
    if title.unicode_len() == 0 || description.unicode_len() == 0 || date.unicode_len() == 0 || location.unicode_len() == 0 {
        Some("All fields are required")
    } else {
        None
    }
}

/// The banner form needs a title and an image address.
pub fn banner_form_error(title: &str, image_url: &str) -> (e: Option<&'static str>)
    ensures
        e matches Some(m) ==> m@ == "Title and image URL are required"@,
        e is Some <==> (title@.len() == 0 || image_url@.len() == 0),
{
    if title.unicode_len() == 0 || image_url.unicode_len() == 0 {
        Some("Title and image URL are required")
    } else {
        None
    }
}

/// A banner's link: none when the field is empty.
pub fn banner_link(link_url: String) -> (l: Option<String>)
    ensures
        opt_view(l) == if link_url@.len() == 0 { None } else { Some(link_url@) },
{
    if link_url.unicode_len() == 0 {
        None
    } else {
        Some(link_url)
    }
}

/// A new banner goes after the `count` banners listed.
pub fn new_banner_order(count: usize) -> (o: u32)
    requires
        count < u32::MAX,
    ensures
        o == count + 1,
{
    count as u32 + 1
}

} // verus!
