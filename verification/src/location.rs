use vstd::prelude::*;

use crate::entity::Character;
use crate::interaction::InteractionLine;
use crate::interaction::InteractionType;
use crate::named::Named;
use crate::rng::random_below;
use crate::strmap::StrMap;

verus! {

/// A point of the world's travel grid.
#[derive(Clone)]
pub struct Coordinates {
    pub x: u64,
    pub y: u64,
}

/// The radicand of the world's (deliberately non-Euclidean) distance
/// between two grid points: the magnitude of the summed coordinate
/// differences. The distance itself is its square root.
pub open spec fn spec_radicand(a: Coordinates, b: Coordinates) -> int {
    let d = (b.y - a.y) + (b.x - a.x);
    if d < 0 {
        -d
    } else {
        d
    }
}

impl Coordinates {
    /// The radicand `|dy + dx|` of the distance from `self` to `c`.
    pub fn dist_radicand(&self, c: &Coordinates) -> (r: u64)
        requires
            self.x <= 0x7fffffff,
            self.y <= 0x7fffffff,
            c.x <= 0x7fffffff,
            c.y <= 0x7fffffff,
        ensures
            r == spec_radicand(*self, *c),
    {
        let d: i64 = ((c.y as i64) - (self.y as i64)) + ((c.x as i64) - (self.x as i64));
        if d < 0 {
            (-d) as u64
        } else {
            d as u64
        }
    }
}

/// An unnamed townsperson with a pool of one-line remarks.
#[derive(Clone)]
pub struct Citizen {
    pub name: String,
    pub dialogue: Vec<String>,
}

/// Someone found inside a house: a plain citizen or a full character.
#[derive(Clone)]
pub enum HouseResident {
    Citizen(Citizen),
    Character(Character),
}

/// The display name of a resident.
pub open spec fn spec_resident_name(r: HouseResident) -> Seq<char> {
    match r {
        HouseResident::Citizen(c) => c.name@,
        HouseResident::Character(c) => c.name@,
    }
}

/// A visitable house and the people in it.
#[derive(Clone)]
pub struct House {
    pub name: String,
    pub entry: Vec<InteractionLine>,
    pub residents: Vec<HouseResident>,
}

impl Named for House {
    open spec fn spec_name(&self) -> Seq<char> {
        self.name@
    }

    fn name(&self) -> (r: String) {
        self.name.clone()
    }
}

/// What talking to a resident starts: a one-line remark (absent when the
/// citizen has nothing to say), or a dialogue tree to walk.
pub enum TalkAction<'a> {
    Line(Option<String>),
    Converse(&'a InteractionType),
}

impl House {
    /// The residents' names, in order.
    pub fn list(&self) -> (r: Vec<String>)
        ensures
            r@.len() == self.residents@.len(),
            forall|i: int|
                0 <= i < r@.len() ==> r@[i]@ == spec_resident_name(#[trigger] self.residents@[i]),
    {
        let mut out: Vec<String> = Vec::new();
        let mut i: usize = 0;
        while i < self.residents.len()
            invariant
                i <= self.residents@.len(),
                out@.len() == i,
                forall|j: int|
                    0 <= j < i ==> out@[j]@ == spec_resident_name(#[trigger] self.residents@[j]),
            decreases self.residents@.len() - i,
        {
            let name = match &self.residents[i] {
                HouseResident::Citizen(c) => c.name.clone(),
                HouseResident::Character(c) => c.name.clone(),
            };
            out.push(name);
            i = i + 1;
        }
        out
    }

    /// Starts a talk with resident `resident`: a citizen offers one of
    /// their remarks at random (none when they have none), a character
    /// opens their dialogue tree.
    pub fn talk(&self, resident: usize) -> (r: TalkAction<'_>)
        requires
            resident < self.residents@.len(),
        ensures
            match self.residents@[resident as int] {
                HouseResident::Citizen(c) => match r {
                    TalkAction::Line(line) => match line {
                        Option::Some(s) => c.dialogue@.len() > 0 && (exists|i: int|
                            0 <= i < c.dialogue@.len() && s@ == c.dialogue@[i]@),
                        Option::None => c.dialogue@.len() == 0,
                    },
                    TalkAction::Converse(_) => false,
                },
                HouseResident::Character(c) => match r {
                    TalkAction::Line(_) => false,
                    TalkAction::Converse(node) => *node == c.interaction,
                },
            },
    {
        match &self.residents[resident] {
            HouseResident::Citizen(c) => {
                if c.dialogue.len() == 0 {
                    TalkAction::Line(None)
                } else {
                    let i = random_below(c.dialogue.len() as u64);
                    TalkAction::Line(Some(c.dialogue[i as usize].clone()))
                }
            },
            HouseResident::Character(c) => TalkAction::Converse(&c.interaction),
        }
    }
}

/// An inn's nightly cost.
#[derive(Clone)]
pub struct Inn {
    pub cost: u64,
}

/// A tavern: its shop stock and the quests posted there.
#[derive(Clone)]
pub struct Tavern {
    pub name: String,
    pub shop: Vec<String>,
    pub quests: Vec<String>,
}

/// A named shop and its stock.
#[derive(Clone)]
pub struct Shop {
    pub name: String,
    pub items: Vec<String>,
}

/// A capital's palace and its ruler.
#[derive(Clone)]
pub struct Palace {
    pub name: String,
    pub ruler: Character,
}

/// What a town offers.
#[derive(Clone)]
pub struct TownData {
    pub houses: Vec<String>,
    pub inn: Inn,
    pub tavern: Tavern,
}

/// What a city offers.
#[derive(Clone)]
pub struct CityData {
    pub houses: Vec<String>,
    pub inn: Inn,
    pub tavern: Tavern,
    pub shops: Vec<Shop>,
}

/// What a capital offers.
#[derive(Clone)]
pub struct CapitalData {
    pub houses: Vec<String>,
    pub inn: Inn,
    pub tavern: Tavern,
    pub shops: Vec<Shop>,
    pub palace: Palace,
}

/// The kinds of location on the map.
#[derive(Clone)]
pub enum LocationType {
    Town(TownData),
    City(CityData),
    Capital(CapitalData),
    Bandit,
    Monument,
    Dungeon,
    Trader,
}

/// A location template.
#[derive(Clone)]
pub struct Location {
    pub position: Coordinates,
    pub name: String,
    pub description: String,
    /// The reputation granted on a first visit, when configured.
    pub entry: Option<u64>,
    pub l_type: LocationType,
    pub quests: Option<Vec<String>>,
}

impl Named for Location {
    open spec fn spec_name(&self) -> Seq<char> {
        self.name@
    }

    fn name(&self) -> (r: String) {
        self.name.clone()
    }
}

/// The five named reputation bands.
pub enum ReputationLevel {
    Lowest,
    Low,
    Medium,
    High,
    Highest,
}

/// The tier a reputation score falls in: five fixed half-open bands over
/// 0 to 100, anything else defaulting to the middle band.
pub open spec fn spec_reputation_level(rep: u64) -> ReputationLevel {
    if rep <= 9 {
        ReputationLevel::Lowest
    } else if rep <= 24 {
        ReputationLevel::Low
    } else if rep <= 59 {
        ReputationLevel::Medium
    } else if rep <= 84 {
        ReputationLevel::High
    } else if rep <= 100 {
        ReputationLevel::Highest
    } else {
        ReputationLevel::Medium
    }
}

/// A tier's display name.
pub open spec fn spec_reputation_name(l: ReputationLevel) -> Seq<char> {
    match l {
        ReputationLevel::Lowest => "hostile"@,
        ReputationLevel::Low => "suspicious"@,
        ReputationLevel::Medium => "indifferent"@,
        ReputationLevel::High => "esteemed"@,
        ReputationLevel::Highest => "benevolent"@,
    }
}

impl ReputationLevel {
    /// The tier's display name.
    pub fn name(l: ReputationLevel) -> (r: &'static str)
        ensures
            r@ == spec_reputation_name(l),
    {
        match l {
            ReputationLevel::Lowest => "hostile",
            ReputationLevel::Low => "suspicious",
            ReputationLevel::Medium => "indifferent",
            ReputationLevel::High => "esteemed",
            ReputationLevel::Highest => "benevolent",
        }
    }

    /// The tier a score falls in.
    pub fn value(rep: u64) -> (r: ReputationLevel)
        ensures
            r == spec_reputation_level(rep),
    {
        if rep <= 9 {
            ReputationLevel::Lowest
        } else if rep <= 24 {
            ReputationLevel::Low
        } else if rep <= 59 {
            ReputationLevel::Medium
        } else if rep <= 84 {
            ReputationLevel::High
        } else if rep <= 100 {
            ReputationLevel::Highest
        } else {
            ReputationLevel::Medium
        }
    }
}

/// The reputation entry for this location: the recorded value, or the
/// location's configured default (50 when unset) on a first visit.
pub open spec fn spec_reputation_entry(loc: Location, id: Seq<char>, reputation: StrMap<u64>) -> (
    u64,
    bool,
) {
    match reputation.get_of(id) {
        Option::Some(v) => (v, false),
        Option::None => (
            match loc.entry {
                Option::Some(n) => n,
                Option::None => 50u64,
            },
            true,
        ),
    }
}

/// The text shown on entering a location with a given reputation standing.
pub open spec fn spec_entry_text(loc: Location, rep: u64, first: bool) -> Seq<char> {
    "You're entering "@ + loc.name@ + (if first {
        " for the first time."@
    } else {
        "."@
    }) + " "@ + "Your reputation here is "@ + crate::strutil::spec_digits(rep as nat) + " ("@
        + spec_reputation_name(spec_reputation_level(rep)) + ")."@
}

/// The house ids a location kind exposes, when it exposes any.
pub open spec fn spec_house_ids(l: LocationType) -> Option<Seq<String>> {
    match l {
        LocationType::Town(t) => Some(t.houses@),
        LocationType::City(c) => Some(c.houses@),
        LocationType::Capital(c) => Some(c.houses@),
        _ => None,
    }
}

/// A location never visited reports its configured default entry value (or
/// 50 when unset) and the first-visit flag, exactly once: after the value
/// is recorded, the same lookup reports the recorded value and no first
/// visit.
pub proof fn lemma_reputation_entry_round(
    loc: Location,
    id: String,
    before: StrMap<u64>,
    after: StrMap<u64>,
)
    requires
        !before.contains_key(id@),
        after.get_of(id@) == Some(spec_reputation_entry(loc, id@, before).0),
    ensures
        spec_reputation_entry(loc, id@, before).1 == true,
        spec_reputation_entry(loc, id@, before).0 == match loc.entry {
            Option::Some(n) => n,
            Option::None => 50u64,
        },
        spec_reputation_entry(loc, id@, after) == (spec_reputation_entry(loc, id@, before).0, false),
{
    crate::strmap::lemma_assoc_get_some_iff(before.entries(), id@);
}

impl Location {
    /// The player's reputation here, and whether this is a first visit
    /// (reporting the configured default entry value, or 50 when unset).
    /// Recording the value is the caller's step.
    pub fn reputation(&self, id: &String, reputation: &StrMap<u64>) -> (r: (u64, bool))
        ensures
            r == spec_reputation_entry(*self, id@, *reputation),
    {
        match reputation.get(id) {
            Option::Some(v) => (*v, false),
            Option::None => {
                let value = match self.entry {
                    Option::Some(n) => n,
                    Option::None => 50,
                };
                (value, true)
            },
        }
    }

    /// The entry line for this location: first-visit phrasing combined with
    /// the reputation score and its tier label; also hands back the score
    /// and the first-visit flag.
    pub fn entry(&self, id: &String, reputation: &StrMap<u64>) -> (r: (String, u64, bool))
        ensures
            (r.1, r.2) == spec_reputation_entry(*self, id@, *reputation),
            r.0@ == spec_entry_text(*self, r.1, r.2),
    {
        let rep = self.reputation(id, reputation);

        let mut text = String::from_str("You're entering ");
        text.append(self.name.as_str());
        text.append(
            if rep.1 {
                " for the first time."
            } else {
                "."
            },
        );
        text.append(" ");
        text.append("Your reputation here is ");
        text.append(crate::strutil::u64_to_string(rep.0).as_str());
        text.append(" (");
        text.append(ReputationLevel::name(ReputationLevel::value(rep.0)));
        text.append(").");

        (text, rep.0, rep.1)
    }

    /// The travel prompt to `next`, with the carriage fare and the walking
    /// time. The fare is the distance times the configured cost per unit,
    /// rounded down to a whole amount; the time is the distance times 20
    /// minutes, rounded down.
    pub fn travel_prompt(&self, next: &Location, game: &crate::game::GameData) -> (r: (
        String,
        u64,
        u64,
    ))
        requires
            self.position.x <= 0x7fffffff,
            self.position.y <= 0x7fffffff,
            next.position.x <= 0x7fffffff,
            next.position.y <= 0x7fffffff,
            game.config.world.currency.dist_cost <= 0xffffff,
            game.config.world.currency.dist_cost * game.config.world.currency.dist_cost
                * spec_radicand(self.position, next.position) < 0x1000000000000,
            400 * spec_radicand(self.position, next.position) < 0x1000000000000,
        ensures
            ({
                let d = spec_radicand(self.position, next.position);
                let c = game.config.world.currency.dist_cost as int;
                r.1 * r.1 <= c * c * d < (r.1 + 1) * (r.1 + 1)
            }),
            ({
                let d = spec_radicand(self.position, next.position);
                r.2 * r.2 <= 400 * d < (r.2 + 1) * (r.2 + 1)
            }),
            r.0@ == "You are traveling from "@ + self.name@ + " to "@ + next.name@
                + ".\n\nYou can ride the carriage, costing "@ + crate::strutil::spec_digits(
                r.1 as nat,
            ) + game.config.world.currency.symbol@ + ", or...\nYou can walk, taking "@
                + crate::time::spec_duration_text(r.2 as nat) + "."@,
    {
        let d = self.position.dist_radicand(&next.position);
        let c = game.config.world.currency.dist_cost;
        proof {
            assert(c * c * d == (c * c) * d) by (nonlinear_arith);
            assert(c * c < 0x1000000000000) by (nonlinear_arith)
                requires
                    0 <= c <= 0xffffff,
            ;
        }
        let cc = c * c;
        let cost = crate::num::isqrt(cc * d);
        let time = crate::num::isqrt(400 * d);

        let mut prompt = String::from_str("You are traveling from ");
        prompt.append(self.name.as_str());
        prompt.append(" to ");
        prompt.append(next.name.as_str());
        prompt.append(".\n\nYou can ride the carriage, costing ");
        prompt.append(crate::inventory::Currency::display(cost, game).as_str());
        prompt.append(", or...\nYou can walk, taking ");
        prompt.append(crate::time::GameTime::duration(time).as_str());
        prompt.append(".");

        (prompt, cost, time)
    }

    /// The id-and-name list of this location's houses; absent for location
    /// kinds that expose none.
    pub fn houses(&self, game: &crate::game::GameData) -> (r: Option<Vec<(String, String)>>)
        requires
            match spec_house_ids(self.l_type) {
                Option::Some(hs) => forall|i: int|
                    0 <= i < hs.len() ==> crate::strmap::assoc_contains(
                        game.houses.entries(),
                        (#[trigger] hs[i])@,
                    ),
                Option::None => true,
            },
        ensures
            match spec_house_ids(self.l_type) {
                Option::Some(hs) => match r {
                    Option::Some(v) => v@.len() == hs.len() && forall|i: int|
                        0 <= i < hs.len() ==> (#[trigger] v@[i]).0 == hs[i] && match
                            crate::strmap::assoc_get(game.houses.entries(), hs[i]@) {
                            Option::Some(h) => v@[i].1@ == h.name@,
                            Option::None => false,
                        },
                    Option::None => false,
                },
                Option::None => r is None,
            },
    {
        let house_ids: &Vec<String> = match &self.l_type {
            LocationType::Town(t) => &t.houses,
            LocationType::City(c) => &c.houses,
            LocationType::Capital(c) => &c.houses,
            _ => {
                return None;
            },
        };

        let mut out: Vec<(String, String)> = Vec::new();
        let mut i: usize = 0;
        while i < house_ids.len()
            invariant
                i <= house_ids@.len(),
                spec_house_ids(self.l_type) == Some(house_ids@),
                forall|j: int|
                    0 <= j < house_ids@.len() ==> crate::strmap::assoc_contains(
                        game.houses.entries(),
                        (#[trigger] house_ids@[j])@,
                    ),
                out@.len() == i,
                forall|j: int|
                    0 <= j < i ==> (#[trigger] out@[j]).0 == house_ids@[j] && match
                        crate::strmap::assoc_get(game.houses.entries(), house_ids@[j]@) {
                        Option::Some(h) => out@[j].1@ == h.name@,
                        Option::None => false,
                    },
            decreases house_ids@.len() - i,
        {
            let h = &house_ids[i];
            let house = match game.houses.get(h) {
                Option::Some(house) => house,
                Option::None => vstd::pervasive::unreached(),
            };
            out.push((h.clone(), house.name.clone()));
            i = i + 1;
        }
        Some(out)
    }
}

} // verus!
