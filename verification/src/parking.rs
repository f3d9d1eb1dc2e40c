//! Parking lots: their configuration, snapshots, normalisation and validation.

use vstd::prelude::*;
use crate::clock::now_rfc3339;
use crate::text::{concat3, copy_opt_string, copy_strings, decimal, opt_view, push_decimal, push_str, str_eq, string_from, string_of, views};

verus! {

/// Places in the whole centre.
pub const MAX_TOTAL_PARKING_CAPACITY: u32 = 1800;

/// The one accepted value of a charging station's availability.
pub const OPENING_HOURS_CANONICAL: &'static str = "OPEN_7_7_11_19";

pub struct ParkingZoneStatus {
    pub id: String,
    pub name: String,
    pub occupied: u32,
    pub capacity: u32,
    pub ev_occupied: u32,
    pub ev_capacity: u32,
}

pub struct ParkingSnapshot {
    pub zones: Vec<ParkingZoneStatus>,
    pub updated_at: String,
}

pub struct ChargingStation {
    pub network: String,
    pub station_type: String,
    pub power_kw: u32,
    pub connectors: Vec<String>,
    pub ports: u32,
    pub paid: bool,
    pub availability: String,
    pub notes: String,
}

pub struct ParkingLot {
    pub id: String,
    pub name: String,
    pub kind: String,
    pub level: Option<String>,
    pub capacity: u32,
    pub occupied: u32,
    pub reserved_accessible: u32,
    pub reserved_family: u32,
    pub ev_capacity: u32,
    pub ev_occupied: u32,
    pub charging_stations: Vec<ChargingStation>,
}

pub struct ParkingSystemState {
    pub max_total_capacity: u32,
    pub lots: Vec<ParkingLot>,
    pub updated_at: String,
}

pub struct ParkingOperationResult {
    pub accepted: bool,
    pub message: String,
    pub state: ParkingSystemState,
}

pub struct ZoneView {
    pub id: Seq<char>,
    pub name: Seq<char>,
    pub occupied: u32,
    pub capacity: u32,
    pub ev_occupied: u32,
    pub ev_capacity: u32,
}

pub struct SnapshotView {
    pub zones: Seq<ZoneView>,
    pub updated_at: Seq<char>,
}

pub struct StationView {
    pub network: Seq<char>,
    pub station_type: Seq<char>,
    pub power_kw: u32,
    pub connectors: Seq<Seq<char>>,
    pub ports: u32,
    pub paid: bool,
    pub availability: Seq<char>,
    pub notes: Seq<char>,
}

pub struct LotView {
    pub id: Seq<char>,
    pub name: Seq<char>,
    pub kind: Seq<char>,
    pub level: Option<Seq<char>>,
    pub capacity: u32,
    pub occupied: u32,
    pub reserved_accessible: u32,
    pub reserved_family: u32,
    pub ev_capacity: u32,
    pub ev_occupied: u32,
    pub stations: Seq<StationView>,
}

pub struct StateView {
    pub max_total_capacity: u32,
    pub lots: Seq<LotView>,
    pub updated_at: Seq<char>,
}

pub struct OperationView {
    pub accepted: bool,
    pub message: Seq<char>,
    pub state: StateView,
}

impl View for ParkingZoneStatus {
    type V = ZoneView;

    open spec fn view(&self) -> ZoneView {
        ZoneView {
            id: self.id@,
            name: self.name@,
            occupied: self.occupied,
            capacity: self.capacity,
            ev_occupied: self.ev_occupied,
            ev_capacity: self.ev_capacity,
        }
    }
}

impl View for ParkingSnapshot {
    type V = SnapshotView;

    open spec fn view(&self) -> SnapshotView {
        SnapshotView {
            zones: self.zones@.map_values(|z: ParkingZoneStatus| z@),
            updated_at: self.updated_at@,
        }
    }
}

impl View for ChargingStation {
    type V = StationView;

    open spec fn view(&self) -> StationView {
        StationView {
            network: self.network@,
            station_type: self.station_type@,
            power_kw: self.power_kw,
            connectors: views(self.connectors@),
            ports: self.ports,
            paid: self.paid,
            availability: self.availability@,
            notes: self.notes@,
        }
    }
}

/// The views of a list of stations.
pub open spec fn station_views(v: Seq<ChargingStation>) -> Seq<StationView> {
    v.map_values(|c: ChargingStation| c@)
}

impl View for ParkingLot {
    type V = LotView;

    open spec fn view(&self) -> LotView {
        LotView {
            id: self.id@,
            name: self.name@,
            kind: self.kind@,
            level: opt_view(self.level),
            capacity: self.capacity,
            occupied: self.occupied,
            reserved_accessible: self.reserved_accessible,
            reserved_family: self.reserved_family,
            ev_capacity: self.ev_capacity,
            ev_occupied: self.ev_occupied,
            stations: station_views(self.charging_stations@),
        }
    }
}

/// The views of a list of lots.
pub open spec fn lot_views(v: Seq<ParkingLot>) -> Seq<LotView> {
    v.map_values(|l: ParkingLot| l@)
}

impl View for ParkingSystemState {
    type V = StateView;

    open spec fn view(&self) -> StateView {
        StateView {
            max_total_capacity: self.max_total_capacity,
            lots: lot_views(self.lots@),
            updated_at: self.updated_at@,
        }
    }
}

impl View for ParkingOperationResult {
    type V = OperationView;

    open spec fn view(&self) -> OperationView {
        OperationView { accepted: self.accepted, message: self.message@, state: self.state@ }
    }
}

/// A copy of a charging station.
pub fn copy_station(c: &ChargingStation) -> (r: ChargingStation)
    ensures
        r@ == c@,
{
    ChargingStation {
        network: c.network.clone(),
        station_type: c.station_type.clone(),
        power_kw: c.power_kw,
        connectors: copy_strings(&c.connectors),
        ports: c.ports,
        paid: c.paid,
        availability: c.availability.clone(),
        notes: c.notes.clone(),
    }
}

/// A copy of a list of charging stations.
pub fn copy_stations(v: &Vec<ChargingStation>) -> (r: Vec<ChargingStation>)
    ensures
        station_views(r@) == station_views(v@),
{
    let mut r: Vec<ChargingStation> = Vec::new();
    let mut i: usize = 0;
    while i < v.len()
        invariant
            i <= v@.len(),
            r@.len() == i,
            forall|j: int| 0 <= j < i ==> r@[j]@ == v@[j]@,
        decreases v@.len() - i,
    {
        r.push(copy_station(&v[i]));
        i = i + 1;
    }
    assert(station_views(r@) =~= station_views(v@));
    r
}

/// A copy of `l` whose occupancy figures are `occupied` and `ev_occupied`.
pub fn lot_with_counts(l: &ParkingLot, occupied: u32, ev_occupied: u32) -> (r: ParkingLot)
    ensures
        r@ == (LotView { occupied, ev_occupied, ..l@ }),
{
    ParkingLot {
        id: l.id.clone(),
        name: l.name.clone(),
        kind: l.kind.clone(),
        level: copy_opt_string(&l.level),
        capacity: l.capacity,
        occupied,
        reserved_accessible: l.reserved_accessible,
        reserved_family: l.reserved_family,
        ev_capacity: l.ev_capacity,
        ev_occupied,
        charging_stations: copy_stations(&l.charging_stations),
    }
}

/// A copy of a lot.
pub fn copy_lot(l: &ParkingLot) -> (r: ParkingLot)
    ensures
        r@ == l@,
{
    lot_with_counts(l, l.occupied, l.ev_occupied)
}

/// The zone figures shown to visitors for a lot.
pub open spec fn zone_of(l: LotView) -> ZoneView {
    ZoneView {
        id: l.id,
        name: l.name,
        occupied: l.occupied,
        capacity: l.capacity,
        ev_occupied: l.ev_occupied,
        ev_capacity: l.ev_capacity,
    }
}

/// The visitor snapshot of a state: one zone per lot, in order, and the same time stamp.
pub open spec fn snapshot_of(s: StateView) -> SnapshotView {
    SnapshotView { zones: s.lots.map_values(|l: LotView| zone_of(l)), updated_at: s.updated_at }
}

pub fn to_snapshot(state: &ParkingSystemState) -> (r: ParkingSnapshot)
    ensures
        r@ == snapshot_of(state@),
{
    let mut zones: Vec<ParkingZoneStatus> = Vec::new();
    let mut i: usize = 0;
    while i < state.lots.len()
        invariant
            i <= state.lots@.len(),
            zones@.len() == i,
            forall|j: int| 0 <= j < i ==> zones@[j]@ == zone_of(state.lots@[j]@),
        decreases state.lots@.len() - i,
    {
        let lot = &state.lots[i];
        zones.push(
            ParkingZoneStatus {
                id: lot.id.clone(),
                name: lot.name.clone(),
                occupied: lot.occupied,
                capacity: lot.capacity,
                ev_occupied: lot.ev_occupied,
                ev_capacity: lot.ev_capacity,
            },
        );
        i = i + 1;
    }
    let r = ParkingSnapshot { zones, updated_at: state.updated_at.clone() };
    assert(r@.zones =~= snapshot_of(state@).zones);
    r
}

/// The canonical level name for the spellings an operator may use, `None` for others.
pub open spec fn normalized_level(v: Option<Seq<char>>) -> Option<Seq<char>> {
    match v {
        None => None,
        Some(s) => if s == "L-1"@ || s == "Niveau -1"@ || s == "Level -1"@ {
            Some("L-1"@)
        } else if s == "L0"@ || s == "Niveau 0"@ || s == "Level 0"@ || s == "Entree principale"@ {
            Some("L0"@)
        } else if s == "L1"@ || s == "Niveau 1"@ || s == "Level 1"@ {
            Some("L1"@)
        } else {
            None
        },
    }
}

pub fn normalize_level(value: Option<String>) -> (r: Option<String>)
    ensures
        opt_view(r) == normalized_level(opt_view(value)),
{
    match value {
        None => None,
        Some(s) => {
            let v = s.as_str();
            if str_eq(v, "L-1") || str_eq(v, "Niveau -1") || str_eq(v, "Level -1") {
                Some(string_from("L-1"))
            } else if str_eq(v, "L0") || str_eq(v, "Niveau 0") || str_eq(v, "Level 0") || str_eq(
                v,
                "Entree principale",
            ) {
                Some(string_from("L0"))
            } else if str_eq(v, "L1") || str_eq(v, "Niveau 1") || str_eq(v, "Level 1") {
                Some(string_from("L1"))
            } else {
                None
            }
        },
    }
}

/// "indoor" or "outdoor" for their French and English spellings; other kinds stay.
pub open spec fn normalized_kind(s: Seq<char>) -> Seq<char> {
    if s == "indoor"@ || s == "interieur"@ || s == "interior"@ {
        "indoor"@
    } else if s == "outdoor"@ || s == "exterieur"@ || s == "exterior"@ {
        "outdoor"@
    } else {
        s
    }
}

pub fn normalize_kind(value: String) -> (r: String)
    ensures
        r@ == normalized_kind(value@),
{
    let v = value.as_str();
    if str_eq(v, "indoor") || str_eq(v, "interieur") || str_eq(v, "interior") {
        string_from("indoor")
    } else if str_eq(v, "outdoor") || str_eq(v, "exterieur") || str_eq(v, "exterior") {
        string_from("outdoor")
    } else {
        value
    }
}

/// The canonical availability for the spellings of the opening hours; others stay.
pub open spec fn normalized_availability(s: Seq<char>) -> Seq<char> {
    if s == OPENING_HOURS_CANONICAL@ || s == "7/7 11h-19h"@ || s == "Horaires d'ouverture FoxTown"@
        || s == "24/7"@ {
        OPENING_HOURS_CANONICAL@
    } else {
        s
    }
}

pub fn normalize_availability(value: String) -> (r: String)
    ensures
        r@ == normalized_availability(value@),
{
    let v = value.as_str();
    if str_eq(v, OPENING_HOURS_CANONICAL) || str_eq(v, "7/7 11h-19h") || str_eq(
        v,
        "Horaires d'ouverture FoxTown",
    ) || str_eq(v, "24/7") {
        string_from(OPENING_HOURS_CANONICAL)
    } else {
        value
    }
}

/// A station with its availability normalised.
pub open spec fn normalized_station(c: StationView) -> StationView {
    StationView { availability: normalized_availability(c.availability), ..c }
}

/// A lot with its kind, level and stations' availability normalised.
pub open spec fn normalized_lot(l: LotView) -> LotView {
    LotView {
        kind: normalized_kind(l.kind),
        level: normalized_level(l.level),
        stations: l.stations.map_values(|c: StationView| normalized_station(c)),
        ..l
    }
}

/// A state whose lots are normalised.
pub open spec fn normalized_state(s: StateView) -> StateView {
    StateView { lots: s.lots.map_values(|l: LotView| normalized_lot(l)), ..s }
}

fn normalize_lot(l: &ParkingLot) -> (r: ParkingLot)
    ensures
        r@ == normalized_lot(l@),
{
    let mut stations: Vec<ChargingStation> = Vec::new();
    let mut i: usize = 0;
    while i < l.charging_stations.len()
        invariant
            i <= l.charging_stations@.len(),
            stations@.len() == i,
            forall|j: int| 0 <= j < i ==> stations@[j]@ == normalized_station(l.charging_stations@[j]@),
        decreases l.charging_stations@.len() - i,
    {
        let c = &l.charging_stations[i];
        let mut s = copy_station(c);
        s.availability = normalize_availability(c.availability.clone());
        stations.push(s);
        i = i + 1;
    }
    let r = ParkingLot {
        id: l.id.clone(),
        name: l.name.clone(),
        kind: normalize_kind(l.kind.clone()),
        level: normalize_level(copy_opt_string(&l.level)),
        capacity: l.capacity,
        occupied: l.occupied,
        reserved_accessible: l.reserved_accessible,
        reserved_family: l.reserved_family,
        ev_capacity: l.ev_capacity,
        ev_occupied: l.ev_occupied,
        charging_stations: stations,
    };
    assert(r@.stations =~= normalized_lot(l@).stations);
    r
}

pub fn normalize_state(state: &mut ParkingSystemState)
    ensures
        final(state)@ == normalized_state(old(state)@),
{
    let mut lots: Vec<ParkingLot> = Vec::new();
    let mut i: usize = 0;
    while i < state.lots.len()
        invariant
            state@ == old(state)@,
            i <= state.lots@.len(),
            lots@.len() == i,
            forall|j: int| 0 <= j < i ==> lots@[j]@ == normalized_lot(state.lots@[j]@),
        decreases state.lots@.len() - i,
    {
        lots.push(normalize_lot(&state.lots[i]));
        i = i + 1;
    }
    state.lots = lots;
    assert(state@.lots =~= normalized_state(old(state)@).lots);
}

/// Where a lot's spaces and charging points sit in the occupancy bitmaps.
pub struct LotMeta {
    pub id: &'static str,
    pub spot_start: usize,
    pub spot_end: usize,
    pub ev_bit_start: usize,
    pub ev_bit_end: usize,
}

/// Number of lots.
pub const LOT_COUNT: usize = 6;

/// Id of the `i`-th lot of the layout.
pub open spec fn meta_id(i: int) -> Seq<char> {
    if i == 0 { "p1"@ } else if i == 1 { "p2"@ } else if i == 2 { "p3"@ }
    else if i == 3 { "p4"@ } else if i == 4 { "p5"@ } else { "p6"@ }
}

/// First space bit of the `i`-th lot.
pub open spec fn spot_start(i: int) -> int {
    if i == 0 { 0 } else if i == 1 { 220 } else if i == 2 { 500 }
    else if i == 3 { 800 } else if i == 4 { 980 } else { 1580 }
}

/// One past the last space bit of the `i`-th lot.
pub open spec fn spot_end(i: int) -> int {
    if i == 0 { 220 } else if i == 1 { 500 } else if i == 2 { 800 }
    else if i == 3 { 980 } else if i == 4 { 1580 } else { 1800 }
}

/// First charging-point bit of the `i`-th lot.
pub open spec fn ev_start(i: int) -> int {
    if i <= 3 { 0 } else if i == 4 { 4 } else { 6 }
}

/// One past the last charging-point bit of the `i`-th lot.
pub open spec fn ev_end(i: int) -> int {
    if i <= 2 { 0 } else if i == 3 { 4 } else if i == 4 { 6 } else { 12 }
}

/// The layout entry of the `i`-th lot.
pub fn lot_meta(i: usize) -> (m: LotMeta)
    requires
        i < LOT_COUNT,
    ensures
        m.id@ == meta_id(i as int),
        m.spot_start == spot_start(i as int),
        m.spot_end == spot_end(i as int),
        m.ev_bit_start == ev_start(i as int),
        m.ev_bit_end == ev_end(i as int),
{
    if i == 0 {
        LotMeta { id: "p1", spot_start: 0, spot_end: 220, ev_bit_start: 0, ev_bit_end: 0 }
    } else if i == 1 {
        LotMeta { id: "p2", spot_start: 220, spot_end: 500, ev_bit_start: 0, ev_bit_end: 0 }
    } else if i == 2 {
        LotMeta { id: "p3", spot_start: 500, spot_end: 800, ev_bit_start: 0, ev_bit_end: 0 }
    } else if i == 3 {
        LotMeta { id: "p4", spot_start: 800, spot_end: 980, ev_bit_start: 0, ev_bit_end: 4 }
    } else if i == 4 {
        LotMeta { id: "p5", spot_start: 980, spot_end: 1580, ev_bit_start: 4, ev_bit_end: 6 }
    } else {
        LotMeta { id: "p6", spot_start: 1580, spot_end: 1800, ev_bit_start: 6, ev_bit_end: 12 }
    }
}

/// The ids of the layout are pairwise different.
pub proof fn lemma_meta_ids_distinct()
    ensures
        forall|i: int, j: int| 0 <= i < 6 && 0 <= j < 6 && i != j ==> meta_id(i) != meta_id(j),
{
    reveal_strlit("p1");
    reveal_strlit("p2");
    reveal_strlit("p3");
    reveal_strlit("p4");
    reveal_strlit("p5");
    reveal_strlit("p6");
    assert("p1"@[1] != "p2"@[1]);
    assert("p1"@[1] != "p3"@[1]);
    assert("p1"@[1] != "p4"@[1]);
    assert("p1"@[1] != "p5"@[1]);
    assert("p1"@[1] != "p6"@[1]);
    assert("p2"@[1] != "p3"@[1]);
    assert("p2"@[1] != "p4"@[1]);
    assert("p2"@[1] != "p5"@[1]);
    assert("p2"@[1] != "p6"@[1]);
    assert("p3"@[1] != "p4"@[1]);
    assert("p3"@[1] != "p5"@[1]);
    assert("p3"@[1] != "p6"@[1]);
    assert("p4"@[1] != "p5"@[1]);
    assert("p4"@[1] != "p6"@[1]);
    assert("p5"@[1] != "p6"@[1]);
}

/// The position in the layout of the lot called `id`.
pub open spec fn meta_index(id: Seq<char>) -> Option<int> {
    if id == meta_id(0) { Some(0) } else if id == meta_id(1) { Some(1) }
    else if id == meta_id(2) { Some(2) } else if id == meta_id(3) { Some(3) }
    else if id == meta_id(4) { Some(4) } else if id == meta_id(5) { Some(5) } else { None }
}

pub fn find_meta(id: &str) -> (r: Option<usize>)
    ensures
        match r {
            Some(i) => meta_index(id@) == Some(i as int) && i < LOT_COUNT,
            None => meta_index(id@) is None,
        },
{
    let mut i: usize = 0;
    while i < LOT_COUNT
        invariant
            i <= LOT_COUNT,
            forall|j: int| 0 <= j < i ==> meta_id(j) != id@,
        decreases LOT_COUNT - i,
    {
        let m = lot_meta(i);
        if str_eq(m.id, id) {
            return Some(i);
        }
        i = i + 1;
    }
    None
}

/// The position of the first lot of `lots` whose id is `id`.
pub open spec fn find_lot(lots: Seq<LotView>, id: Seq<char>) -> Option<int>
    decreases lots.len(),
{
    if lots.len() == 0 {
        None
    } else if lots[0].id == id {
        Some(0)
    } else {
        match find_lot(lots.drop_first(), id) {
            Some(k) => Some(k + 1),
            None => None,
        }
    }
}

pub proof fn lemma_find_lot(lots: Seq<LotView>, id: Seq<char>, k: int)
    requires
        0 <= k <= lots.len(),
        forall|j: int| 0 <= j < k ==> lots[j].id != id,
    ensures
        k < lots.len() && lots[k].id == id ==> find_lot(lots, id) == Some(k),
        k == lots.len() ==> find_lot(lots, id) is None,
    decreases k,
{
    if k > 0 {
        lemma_find_lot(lots.drop_first(), id, k - 1);
    }
}

/// The position of the first lot of `lots` whose id is `id`.
pub fn find_lot_index(lots: &Vec<ParkingLot>, id: &str) -> (r: Option<usize>)
    ensures
        match r {
            Some(k) => find_lot(lot_views(lots@), id@) == Some(k as int) && k < lots@.len(),
            None => find_lot(lot_views(lots@), id@) is None,
        },
{
    let ghost ls = lot_views(lots@);
    let mut k: usize = 0;
    while k < lots.len()
        invariant
            k <= lots@.len(),
            ls == lot_views(lots@),
            forall|j: int| 0 <= j < k ==> ls[j].id != id@,
        decreases lots@.len() - k,
    {
        if str_eq(lots[k].id.as_str(), id) {
            proof {
                lemma_find_lot(ls, id@, k as int);
            }
            return Some(k);
        }
        k = k + 1;
    }
    proof {
        lemma_find_lot(ls, id@, k as int);
    }
    None
}

/// Lots laid out as the occupancy bitmaps expect: six lots in layout order,
/// each as large as its share of the bitmaps.
pub open spec fn layout_ok(s: StateView) -> bool {
    &&& s.lots.len() == LOT_COUNT
    &&& forall|i: int| 0 <= i < 6 ==> {
        &&& #[trigger] s.lots[i].id == meta_id(i)
        &&& s.lots[i].capacity == spot_end(i) - spot_start(i)
        &&& s.lots[i].ev_capacity == ev_end(i) - ev_start(i)
    }
}

pub open spec fn station_view(
    network: Seq<char>,
    station_type: Seq<char>,
    power_kw: u32,
    connectors: Seq<Seq<char>>,
    ports: u32,
    paid: bool,
    notes: Seq<char>,
) -> StationView {
    StationView {
        network,
        station_type,
        power_kw,
        connectors,
        ports,
        paid,
        availability: OPENING_HOURS_CANONICAL@,
        notes,
    }
}

pub open spec fn lot_view(
    id: Seq<char>,
    name: Seq<char>,
    kind: Seq<char>,
    level: Option<Seq<char>>,
    capacity: u32,
    occupied: u32,
    reserved_accessible: u32,
    reserved_family: u32,
    ev_capacity: u32,
    ev_occupied: u32,
    stations: Seq<StationView>,
) -> LotView {
    LotView {
        id,
        name,
        kind,
        level,
        capacity,
        occupied,
        reserved_accessible,
        reserved_family,
        ev_capacity,
        ev_occupied,
        stations,
    }
}

/// The six lots of the centre as they are configured at start-up.
pub open spec fn default_lots() -> Seq<LotView> {
    seq![
        lot_view("p1"@, "Parking P1"@, "indoor"@, Some("L0"@), 220, 120, 8, 10, 0, 0, seq![]),
        lot_view("p2"@, "Parking P2"@, "indoor"@, Some("L-1"@), 280, 170, 10, 12, 0, 0, seq![]),
        lot_view("p3"@, "Parking P3"@, "outdoor"@, Some("L1"@), 300, 210, 10, 12, 0, 0, seq![]),
        lot_view("p4"@, "FoxPark"@, "outdoor"@, None, 180, 108, 6, 8, 4, 2, seq![
            station_view("eCarUp"@, "AC Type 2"@, 22, seq!["Type 2"@], 4, true, "4 bornes publiques lentes"@),
        ]),
        lot_view("p5"@, "Parking P5"@, "outdoor"@, Some("L0"@), 600, 360, 20, 24, 2, 1, seq![
            station_view("GOFAST"@, "Ultra-fast"@, 100, seq!["CCS"@, "CHAdeMO"@, "Tesla"@], 1, true,
                "Ideal pour les visites de moins d'une heure"@),
            station_view("FoxTown"@, "AC Type 2"@, 22, seq!["Type 2"@], 1, false, "Recharge lente gratuite"@),
        ]),
        lot_view("p6"@, "Parking P6"@, "indoor"@, Some("L0"@), 220, 132, 8, 10, 6, 3, seq![
            station_view("eCarUp"@, "AC Type 2"@, 22, seq!["Type 2"@], 6, true, "6 bornes publiques lentes"@),
        ]),
    ]
}

fn make_station(
    network: &str,
    station_type: &str,
    power_kw: u32,
    connectors: Vec<String>,
    ports: u32,
    paid: bool,
    notes: &str,
) -> (r: ChargingStation)
    ensures
        r@ == station_view(network@, station_type@, power_kw, views(connectors@), ports, paid, notes@),
{
    ChargingStation {
        network: string_from(network),
        station_type: string_from(station_type),
        power_kw,
        connectors,
        ports,
        paid,
        availability: string_from(OPENING_HOURS_CANONICAL),
        notes: string_from(notes),
    }
}

fn make_lot(
    id: &str,
    name: &str,
    kind: &str,
    level: Option<&str>,
    capacity: u32,
    occupied: u32,
    reserved_accessible: u32,
    reserved_family: u32,
    ev_capacity: u32,
    ev_occupied: u32,
    charging_stations: Vec<ChargingStation>,
) -> (r: ParkingLot)
    ensures
        r@ == lot_view(
            id@,
            name@,
            kind@,
            match level { Some(l) => Some(l@), None => None },
            capacity,
            occupied,
            reserved_accessible,
            reserved_family,
            ev_capacity,
            ev_occupied,
            station_views(charging_stations@),
        ),
{
    ParkingLot {
        id: string_from(id),
        name: string_from(name),
        kind: string_from(kind),
        level: match level {
            Some(l) => Some(string_from(l)),
            None => None,
        },
        capacity,
        occupied,
        reserved_accessible,
        reserved_family,
        ev_capacity,
        ev_occupied,
        charging_stations,
    }
}

fn one_string(a: &str) -> (r: Vec<String>)
    ensures
        views(r@) == seq![a@],
{
    let mut r: Vec<String> = Vec::new();
    r.push(string_from(a));
    assert(views(r@) =~= seq![a@]);
    r
}

/// The configuration at start-up, stamped with the current time.
pub fn default_state() -> (r: ParkingSystemState)
    ensures
        r@.max_total_capacity == MAX_TOTAL_PARKING_CAPACITY,
        r@.lots == default_lots(),
        exists|secs: i64, nanos: u32| #[trigger] crate::clock::rfc3339_text(secs, nanos) == Some(r@.updated_at),
{
    let mut lots: Vec<ParkingLot> = Vec::new();
    let e1: Vec<ChargingStation> = Vec::new();
    let e2: Vec<ChargingStation> = Vec::new();
    let e3: Vec<ChargingStation> = Vec::new();
    assert(station_views(e1@) =~= Seq::<StationView>::empty());
    assert(station_views(e2@) =~= Seq::<StationView>::empty());
    assert(station_views(e3@) =~= Seq::<StationView>::empty());
    lots.push(make_lot("p1", "Parking P1", "indoor", Some("L0"), 220, 120, 8, 10, 0, 0, e1));
    lots.push(make_lot("p2", "Parking P2", "indoor", Some("L-1"), 280, 170, 10, 12, 0, 0, e2));
    lots.push(make_lot("p3", "Parking P3", "outdoor", Some("L1"), 300, 210, 10, 12, 0, 0, e3));
    let mut s4: Vec<ChargingStation> = Vec::new();
    s4.push(make_station("eCarUp", "AC Type 2", 22, one_string("Type 2"), 4, true, "4 bornes publiques lentes"));
    assert(station_views(s4@) =~= default_lots()[3].stations);
    lots.push(make_lot("p4", "FoxPark", "outdoor", None, 180, 108, 6, 8, 4, 2, s4));
    let mut c5: Vec<String> = Vec::new();
    c5.push(string_from("CCS"));
    c5.push(string_from("CHAdeMO"));
    c5.push(string_from("Tesla"));
    assert(views(c5@) =~= seq!["CCS"@, "CHAdeMO"@, "Tesla"@]);
    let mut s5: Vec<ChargingStation> = Vec::new();
    s5.push(make_station("GOFAST", "Ultra-fast", 100, c5, 1, true, "Ideal pour les visites de moins d'une heure"));
    s5.push(make_station("FoxTown", "AC Type 2", 22, one_string("Type 2"), 1, false, "Recharge lente gratuite"));
    assert(station_views(s5@) =~= default_lots()[4].stations);
    lots.push(make_lot("p5", "Parking P5", "outdoor", Some("L0"), 600, 360, 20, 24, 2, 1, s5));
    let mut s6: Vec<ChargingStation> = Vec::new();
    s6.push(make_station("eCarUp", "AC Type 2", 22, one_string("Type 2"), 6, true, "6 bornes publiques lentes"));
    assert(station_views(s6@) =~= default_lots()[5].stations);
    lots.push(make_lot("p6", "Parking P6", "indoor", Some("L0"), 220, 132, 8, 10, 6, 3, s6));
    let r = ParkingSystemState {
        max_total_capacity: MAX_TOTAL_PARKING_CAPACITY,
        lots,
        updated_at: now_rfc3339(),
    };
    assert(lots@[0]@ == default_lots()[0]);
    assert(lots@[1]@ == default_lots()[1]);
    assert(lots@[2]@ == default_lots()[2]);
    assert(lots@[3]@ == default_lots()[3]);
    assert(lots@[4]@ == default_lots()[4]);
    assert(lots@[5]@ == default_lots()[5]);
    assert(r@.lots =~= default_lots());
    r
}

/// Why a parking request or configuration was refused.
pub enum ParkingError {
    /// The global capacity is not 1800 places.
    GlobalCapacity,
    /// The configuration does not hold exactly six lots.
    LotCount,
    /// The lots' capacities do not add up to 1800 places.
    TotalCapacity,
    /// The largest lot does not have 600 places.
    LargestLot,
    /// No lot carries this id of the layout.
    MissingLot(String),
    /// A lot has another capacity than the layout gives it.
    LotCapacity { name: String, expected: u32, received: u32 },
    /// More than 1800 cars in all.
    TooManyVehicles,
    /// A lot is neither indoor nor outdoor.
    InvalidKind(String),
    /// A lot stands on a level other than L-1, L0 or L1.
    InvalidLevel(String),
    /// A lot holds more cars than places.
    InvalidOccupancy(String),
    /// A lot uses more charging points than it has.
    InvalidEvOccupancy(String),
    /// A charging station's availability is not the opening hours.
    InvalidStationAvailability(String),
    /// No lot has the requested id.
    LotNotFound,
}

/// `ParkingError` with its texts as character sequences.
pub enum ParkingFailure {
    GlobalCapacity,
    LotCount,
    TotalCapacity,
    LargestLot,
    MissingLot(Seq<char>),
    LotCapacity { name: Seq<char>, expected: u32, received: u32 },
    TooManyVehicles,
    InvalidKind(Seq<char>),
    InvalidLevel(Seq<char>),
    InvalidOccupancy(Seq<char>),
    InvalidEvOccupancy(Seq<char>),
    InvalidStationAvailability(Seq<char>),
    LotNotFound,
}

impl View for ParkingError {
    type V = ParkingFailure;

    open spec fn view(&self) -> ParkingFailure {
        match self {
            ParkingError::GlobalCapacity => ParkingFailure::GlobalCapacity,
            ParkingError::LotCount => ParkingFailure::LotCount,
            ParkingError::TotalCapacity => ParkingFailure::TotalCapacity,
            ParkingError::LargestLot => ParkingFailure::LargestLot,
            ParkingError::MissingLot(id) => ParkingFailure::MissingLot(id@),
            ParkingError::LotCapacity { name, expected, received } => ParkingFailure::LotCapacity {
                name: name@,
                expected: *expected,
                received: *received,
            },
            ParkingError::TooManyVehicles => ParkingFailure::TooManyVehicles,
            ParkingError::InvalidKind(n) => ParkingFailure::InvalidKind(n@),
            ParkingError::InvalidLevel(n) => ParkingFailure::InvalidLevel(n@),
            ParkingError::InvalidOccupancy(n) => ParkingFailure::InvalidOccupancy(n@),
            ParkingError::InvalidEvOccupancy(n) => ParkingFailure::InvalidEvOccupancy(n@),
            ParkingError::InvalidStationAvailability(n) => ParkingFailure::InvalidStationAvailability(n@),
            ParkingError::LotNotFound => ParkingFailure::LotNotFound,
        }
    }
}

/// Sum of the lots' capacities.
pub open spec fn sum_capacity(lots: Seq<LotView>) -> int
    decreases lots.len(),
{
    if lots.len() == 0 { 0 } else { sum_capacity(lots.drop_last()) + lots.last().capacity }
}

/// Sum of the lots' cars.
pub open spec fn sum_occupied(lots: Seq<LotView>) -> int
    decreases lots.len(),
{
    if lots.len() == 0 { 0 } else { sum_occupied(lots.drop_last()) + lots.last().occupied }
}

/// Largest capacity of a lot (0 without lots).
pub open spec fn max_capacity(lots: Seq<LotView>) -> int
    decreases lots.len(),
{
    if lots.len() == 0 {
        0
    } else {
        let m = max_capacity(lots.drop_last());
        if lots.last().capacity > m { lots.last().capacity as int } else { m }
    }
}

/// The first refusal among the layout's lots, in layout order from the `i`-th:
/// a lot missing by id, or a lot with another capacity than its share.
pub open spec fn expected_failure(lots: Seq<LotView>, i: int) -> Option<ParkingFailure>
    decreases 6 - i,
{
    if i >= 6 || i < 0 {
        None
    } else {
        match find_lot(lots, meta_id(i)) {
            None => Some(ParkingFailure::MissingLot(meta_id(i))),
            Some(k) => if lots[k].capacity != spot_end(i) - spot_start(i) {
                Some(ParkingFailure::LotCapacity {
                    name: lots[k].name,
                    expected: (spot_end(i) - spot_start(i)) as u32,
                    received: lots[k].capacity,
                })
            } else {
                expected_failure(lots, i + 1)
            },
        }
    }
}

/// The level is one of L-1, L0 and L1.
pub open spec fn known_level(level: Seq<char>) -> bool {
    level == "L-1"@ || level == "L0"@ || level == "L1"@
}

/// The refusal of a lot on its own: kind, level, cars, charging points, stations.
pub open spec fn lot_failure(l: LotView) -> Option<ParkingFailure> {
    if l.kind != "indoor"@ && l.kind != "outdoor"@ {
        Some(ParkingFailure::InvalidKind(l.name))
    } else if l.level matches Some(level) && !known_level(level) {
        Some(ParkingFailure::InvalidLevel(l.name))
    } else if l.occupied > l.capacity {
        Some(ParkingFailure::InvalidOccupancy(l.name))
    } else if l.ev_occupied > l.ev_capacity {
        Some(ParkingFailure::InvalidEvOccupancy(l.name))
    } else if exists|j: int| 0 <= j < l.stations.len() && #[trigger] l.stations[j].availability != OPENING_HOURS_CANONICAL@ {
        Some(ParkingFailure::InvalidStationAvailability(l.name))
    } else {
        None
    }
}

/// The refusal of the first lot, in order, that is refused on its own.
pub open spec fn lots_failure(lots: Seq<LotView>) -> Option<ParkingFailure>
    decreases lots.len(),
{
    if lots.len() == 0 {
        None
    } else {
        match lot_failure(lots[0]) {
            Some(f) => Some(f),
            None => lots_failure(lots.drop_first()),
        }
    }
}

/// Why `validate_state` refuses `s`, checked in this order: the global
/// capacity, the number of lots, the sum of capacities, the largest lot, the
/// layout's lots, the number of cars, then each lot on its own.
pub open spec fn state_failure(s: StateView) -> Option<ParkingFailure> {
    if s.max_total_capacity != MAX_TOTAL_PARKING_CAPACITY {
        Some(ParkingFailure::GlobalCapacity)
    } else if s.lots.len() != 6 {
        Some(ParkingFailure::LotCount)
    } else if sum_capacity(s.lots) != 1800 {
        Some(ParkingFailure::TotalCapacity)
    } else if max_capacity(s.lots) != 600 {
        Some(ParkingFailure::LargestLot)
    } else if expected_failure(s.lots, 0) is Some {
        expected_failure(s.lots, 0)
    } else if sum_occupied(s.lots) > 1800 {
        Some(ParkingFailure::TooManyVehicles)
    } else {
        lots_failure(s.lots)
    }
}

/// The validation adds up the capacities in 32 bits.
pub open spec fn adds_capacities(s: StateView) -> bool {
    s.max_total_capacity == MAX_TOTAL_PARKING_CAPACITY && s.lots.len() == 6
}

/// The validation adds up the cars in 32 bits.
pub open spec fn adds_cars(s: StateView) -> bool {
    &&& adds_capacities(s)
    &&& sum_capacity(s.lots) == 1800
    &&& max_capacity(s.lots) == 600
    &&& expected_failure(s.lots, 0) is None
}

fn station_failure_free(stations: &Vec<ChargingStation>) -> (r: bool)
    ensures
        r == forall|j: int| 0 <= j < stations@.len() ==> #[trigger] station_views(stations@)[j].availability == OPENING_HOURS_CANONICAL@,
{
    let mut i: usize = 0;
    while i < stations.len()
        invariant
            i <= stations@.len(),
            forall|j: int| 0 <= j < i ==> #[trigger] station_views(stations@)[j].availability == OPENING_HOURS_CANONICAL@,
        decreases stations@.len() - i,
    {
        if !str_eq(stations[i].availability.as_str(), OPENING_HOURS_CANONICAL) {
            assert(station_views(stations@)[i as int].availability != OPENING_HOURS_CANONICAL@);
            return false;
        }
        i = i + 1;
    }
    true
}

fn check_lot(l: &ParkingLot) -> (r: Option<ParkingError>)
    ensures
        match r {
            Some(e) => lot_failure(l@) == Some(e@),
            None => lot_failure(l@) is None,
        },
{
    let kind = l.kind.as_str();
    if !str_eq(kind, "indoor") && !str_eq(kind, "outdoor") {
        return Some(ParkingError::InvalidKind(l.name.clone()));
    }
    match &l.level {
        Some(level) => {
            let v = level.as_str();
            if !(str_eq(v, "L-1") || str_eq(v, "L0") || str_eq(v, "L1")) {
                return Some(ParkingError::InvalidLevel(l.name.clone()));
            }
        },
        None => {},
    }
    if l.occupied > l.capacity {
        return Some(ParkingError::InvalidOccupancy(l.name.clone()));
    }
    if l.ev_occupied > l.ev_capacity {
        return Some(ParkingError::InvalidEvOccupancy(l.name.clone()));
    }
    if !station_failure_free(&l.charging_stations) {
        proof {
            let j = choose|j: int| 0 <= j < l.charging_stations@.len() && #[trigger] station_views(l.charging_stations@)[j].availability != OPENING_HOURS_CANONICAL@;
            assert(l@.stations[j].availability != OPENING_HOURS_CANONICAL@);
        }
        return Some(ParkingError::InvalidStationAvailability(l.name.clone()));
    }
    None
}

/// Checks a configuration of lots; `Err` tells the first rule it breaks.
pub fn validate_state(state: &ParkingSystemState) -> (r: Result<(), ParkingError>)
    requires
        adds_capacities(state@) ==> sum_capacity(state@.lots) <= u32::MAX,
        adds_cars(state@) ==> sum_occupied(state@.lots) <= u32::MAX,
    ensures
        match r {
            Ok(()) => state_failure(state@) is None,
            Err(e) => state_failure(state@) == Some(e@),
        },
{
    let ghost lots = state@.lots;
    if state.max_total_capacity != MAX_TOTAL_PARKING_CAPACITY {
        return Err(ParkingError::GlobalCapacity);
    }
    if state.lots.len() != 6 {
        return Err(ParkingError::LotCount);
    }
    let mut total_capacity: u64 = 0;
    let mut max_cap: u32 = 0;
    let mut i: usize = 0;
    while i < state.lots.len()
        invariant
            i <= state.lots@.len() == 6,
            lots == state@.lots,
            sum_capacity(lots) <= u32::MAX,
            total_capacity == sum_capacity(lots.take(i as int)),
            max_cap == max_capacity(lots.take(i as int)),
        decreases state.lots@.len() - i,
    {
        proof {
            assert(lots.take(i + 1).drop_last() == lots.take(i as int));
            lemma_sum_capacity_prefix(lots, i as int + 1);
        }
        total_capacity = total_capacity + state.lots[i].capacity as u64;
        if state.lots[i].capacity > max_cap {
            max_cap = state.lots[i].capacity;
        }
        i = i + 1;
    }
    assert(lots.take(6) == lots);
    assert(total_capacity == sum_capacity(lots));
    assert(max_cap == max_capacity(lots));
    if total_capacity != 1800 {
        return Err(ParkingError::TotalCapacity);
    }
    if max_cap != 600 {
        return Err(ParkingError::LargestLot);
    }
    let mut m: usize = 0;
    while m < LOT_COUNT
        invariant
            m <= LOT_COUNT,
            lots == state@.lots,
            adds_capacities(state@),
            sum_capacity(lots) == 1800,
            max_capacity(lots) == 600,
            expected_failure(lots, 0) == expected_failure(lots, m as int),
        decreases LOT_COUNT - m,
    {
        let meta = lot_meta(m);
        match find_lot_index(&state.lots, meta.id) {
            None => {
                let id = string_from(meta.id);
                assert(expected_failure(lots, m as int) == Some(ParkingFailure::MissingLot(id@)));
                return Err(ParkingError::MissingLot(id));
            },
            Some(k) => {
                assert(lots[k as int] == state.lots@[k as int]@);
                let expected = (meta.spot_end - meta.spot_start) as u32;
                if state.lots[k].capacity != expected {
                    return Err(
                        ParkingError::LotCapacity {
                            name: state.lots[k].name.clone(),
                            expected,
                            received: state.lots[k].capacity,
                        },
                    );
                }
            },
        }
        m = m + 1;
    }
    let mut total_occupied: u64 = 0;
    let mut i: usize = 0;
    while i < state.lots.len()
        invariant
            i <= state.lots@.len() == 6,
            lots == state@.lots,
            adds_cars(state@),
            sum_occupied(lots) <= u32::MAX,
            total_occupied == sum_occupied(lots.take(i as int)),
        decreases state.lots@.len() - i,
    {
        proof {
            assert(lots.take(i + 1).drop_last() == lots.take(i as int));
            lemma_sum_occupied_prefix(lots, i as int + 1);
        }
        total_occupied = total_occupied + state.lots[i].occupied as u64;
        i = i + 1;
    }
    assert(lots.take(6) == lots);
    if total_occupied > 1800 {
        return Err(ParkingError::TooManyVehicles);
    }
    let mut i: usize = 0;
    assert(lots.skip(0) == lots);
    while i < state.lots.len()
        invariant
            i <= state.lots@.len(),
            lots == state@.lots,
            adds_cars(state@),
            sum_occupied(lots) <= 1800,
            lots_failure(lots) == lots_failure(lots.skip(i as int)),
        decreases state.lots@.len() - i,
    {
        if let Some(e) = check_lot(&state.lots[i]) {
            return Err(e);
        }
        assert(lots.skip(i as int).drop_first() == lots.skip(i + 1));
        i = i + 1;
    }
    Ok(())
}

/// Sums over a prefix never exceed the whole.
proof fn lemma_sum_capacity_prefix(lots: Seq<LotView>, n: int)
    requires
        0 <= n <= lots.len(),
    ensures
        sum_capacity(lots.take(n)) <= sum_capacity(lots),
    decreases lots.len() - n,
{
    if n < lots.len() {
        lemma_sum_capacity_prefix(lots, n + 1);
        assert(lots.take(n + 1).drop_last() == lots.take(n));
    } else {
        assert(lots.take(n) == lots);
    }
}

proof fn lemma_sum_occupied_prefix(lots: Seq<LotView>, n: int)
    requires
        0 <= n <= lots.len(),
    ensures
        sum_occupied(lots.take(n)) <= sum_occupied(lots),
    decreases lots.len() - n,
{
    if n < lots.len() {
        lemma_sum_occupied_prefix(lots, n + 1);
        assert(lots.take(n + 1).drop_last() == lots.take(n));
    } else {
        assert(lots.take(n) == lots);
    }
}

/// The French text shown for a refusal.
pub open spec fn failure_message(f: ParkingFailure) -> Seq<char> {
    match f {
        ParkingFailure::GlobalCapacity => "La capacite globale doit rester fixee a 1800 places."@,
        ParkingFailure::LotCount => "La configuration doit contenir exactement 6 parkings."@,
        ParkingFailure::TotalCapacity => "La somme des capacites parking doit faire 1800 places."@,
        ParkingFailure::LargestLot => "Le plus grand parking doit avoir 600 places."@,
        ParkingFailure::MissingLot(id) => "Le parking "@ + id + " est manquant dans la configuration."@,
        ParkingFailure::LotCapacity { name, expected, received } => "Capacite invalide pour "@ + name
            + ": attendu "@ + decimal(expected as nat) + ", recu "@ + decimal(received as nat) + "."@,
        ParkingFailure::TooManyVehicles => "Le nombre de vehicules ne peut pas depasser 1800."@,
        ParkingFailure::InvalidKind(name) => "Type de parking invalide pour "@ + name + "."@,
        ParkingFailure::InvalidLevel(name) => "Niveau de parking invalide pour "@ + name + "."@,
        ParkingFailure::InvalidOccupancy(name) => "Occupation invalide pour "@ + name + "."@,
        ParkingFailure::InvalidEvOccupancy(name) => "Occupation EV invalide pour "@ + name + "."@,
        ParkingFailure::InvalidStationAvailability(name) => "Disponibilite de borne invalide pour "@ + name + "."@,
        ParkingFailure::LotNotFound => "Parking introuvable"@,
    }
}

impl ParkingError {
    /// The text shown to the operator.
    pub fn message(&self) -> (m: String)
        ensures
            m@ == failure_message(self@),
    {
        match self {
            ParkingError::GlobalCapacity => string_from("La capacite globale doit rester fixee a 1800 places."),
            ParkingError::LotCount => string_from("La configuration doit contenir exactement 6 parkings."),
            ParkingError::TotalCapacity => string_from("La somme des capacites parking doit faire 1800 places."),
            ParkingError::LargestLot => string_from("Le plus grand parking doit avoir 600 places."),
            ParkingError::MissingLot(id) => concat3("Le parking ", id.as_str(), " est manquant dans la configuration."),
            ParkingError::LotCapacity { name, expected, received } => {
                let mut out: Vec<char> = Vec::new();
                push_str(&mut out, "Capacite invalide pour ");
                push_str(&mut out, name.as_str());
                push_str(&mut out, ": attendu ");
                push_decimal(&mut out, *expected as u64);
                push_str(&mut out, ", recu ");
                push_decimal(&mut out, *received as u64);
                push_str(&mut out, ".");
                string_of(&out)
            },
            ParkingError::TooManyVehicles => string_from("Le nombre de vehicules ne peut pas depasser 1800."),
            ParkingError::InvalidKind(name) => concat3("Type de parking invalide pour ", name.as_str(), "."),
            ParkingError::InvalidLevel(name) => concat3("Niveau de parking invalide pour ", name.as_str(), "."),
            ParkingError::InvalidOccupancy(name) => concat3("Occupation invalide pour ", name.as_str(), "."),
            ParkingError::InvalidEvOccupancy(name) => concat3("Occupation EV invalide pour ", name.as_str(), "."),
            ParkingError::InvalidStationAvailability(name) => concat3(
                "Disponibilite de borne invalide pour ",
                name.as_str(),
                ".",
            ),
            ParkingError::LotNotFound => string_from("Parking introuvable"),
        }
    }
}

/// The places and charging points of the zones, in all: (cars, places,
/// charging cars, charging points).
pub open spec fn zone_totals(zs: Seq<ZoneView>) -> (int, int, int, int)
    decreases zs.len(),
{
    if zs.len() == 0 {
        (0, 0, 0, 0)
    } else {
        let t = zone_totals(zs.drop_last());
        let z = zs.last();
        (t.0 + z.occupied, t.1 + z.capacity, t.2 + z.ev_occupied, t.3 + z.ev_capacity)
    }
}

/// The totals of the zones fit in 32 bits at every step.
pub open spec fn totals_fit(zs: Seq<ZoneView>) -> bool {
    forall|k: int| 0 <= k <= zs.len() ==> {
        let t = #[trigger] zone_totals(zs.take(k));
        t.0 <= u32::MAX && t.1 <= u32::MAX && t.2 <= u32::MAX && t.3 <= u32::MAX
    }
}

/// Free places and free charging points in the whole centre (none below 0).
pub fn parking_availability(snapshot: &ParkingSnapshot) -> (r: (u32, u32))
    requires
        totals_fit(snapshot@.zones),
    ensures
        ({
            let t = zone_totals(snapshot@.zones);
            r == ((if t.1 > t.0 { t.1 - t.0 } else { 0 }) as u32, (if t.3 > t.2 { t.3 - t.2 } else { 0 }) as u32)
        }),
{
    let ghost zs = snapshot@.zones;
    let mut occ: u32 = 0;
    let mut cap: u32 = 0;
    let mut ev_occ: u32 = 0;
    let mut ev_cap: u32 = 0;
    let mut i: usize = 0;
    while i < snapshot.zones.len()
        invariant
            i <= snapshot.zones@.len(),
            zs == snapshot@.zones,
            totals_fit(zs),
            (occ as int, cap as int, ev_occ as int, ev_cap as int) == zone_totals(zs.take(i as int)),
        decreases snapshot.zones@.len() - i,
    {
        proof {
            assert(zs.take(i + 1).drop_last() == zs.take(i as int));
            let t = zone_totals(zs.take(i + 1));
            assert(t.0 <= u32::MAX && t.1 <= u32::MAX && t.2 <= u32::MAX && t.3 <= u32::MAX);
            assert(zs.take(i + 1).last() == snapshot.zones@[i as int]@);
        }
        let z = &snapshot.zones[i];
        occ = occ + z.occupied;
        cap = cap + z.capacity;
        ev_occ = ev_occ + z.ev_occupied;
        ev_cap = ev_cap + z.ev_capacity;
        i = i + 1;
    }
    assert(zs.take(zs.len() as int) == zs);
    (cap.saturating_sub(occ), ev_cap.saturating_sub(ev_occ))
}

} // verus!
