//! Bed Wars statistics of a player, as the Hypixel API reports them.

use vstd::prelude::*;

verus! {

/// The value a missing counter takes.
pub fn default_number() -> (n: u32)
    ensures
        n == 0,
{
    0
}

/// Bed Wars counters of a player in all modes together.
#[derive(Clone, Copy, Debug)]
pub struct HypixelBedwarsOverall {
    /// Kills.
    pub kills: u32,
    /// Deaths.
    pub deaths: u32,
    /// Final kills.
    pub final_kills: u32,
    /// Final deaths.
    pub final_deaths: u32,
    /// Games won.
    pub wins: u32,
    /// Games lost.
    pub losses: u32,
    /// Beds broken.
    pub beds_broken: u32,
    /// Beds lost.
    pub beds_lost: u32,
    /// Iron collected.
    pub iron_collected: u32,
    /// Gold collected.
    pub gold_collected: u32,
    /// Diamonds collected.
    pub diamond_collected: u32,
    /// Emeralds collected.
    pub emerald_collected: u32,
    /// Games played.
    pub games_played: u32,
    /// Current winstreak.
    pub winstreak: u32,
}

impl HypixelBedwarsOverall {
    /// Whether every counter is zero.
    pub open spec fn is_zero(&self) -> bool {
        self.kills == 0
        && self.deaths == 0
        && self.final_kills == 0
        && self.final_deaths == 0
        && self.wins == 0
        && self.losses == 0
        && self.beds_broken == 0
        && self.beds_lost == 0
        && self.iron_collected == 0
        && self.gold_collected == 0
        && self.diamond_collected == 0
        && self.emerald_collected == 0
        && self.games_played == 0
        && self.winstreak == 0
    }
}

impl Default for HypixelBedwarsOverall {
    /// All counters zero.
    fn default() -> (s: Self)
        ensures
            s.is_zero(),
    {
        HypixelBedwarsOverall {
            kills: default_number(),
            deaths: default_number(),
            final_kills: default_number(),
            final_deaths: default_number(),
            wins: default_number(),
            losses: default_number(),
            beds_broken: default_number(),
            beds_lost: default_number(),
            iron_collected: default_number(),
            gold_collected: default_number(),
            diamond_collected: default_number(),
            emerald_collected: default_number(),
            games_played: default_number(),
            winstreak: default_number(),
        }
    }
}

/// Bed Wars counters of a player in solo (8 teams of 1).
#[derive(Clone, Copy, Debug)]
pub struct HypixelBedwarsSolo {
    /// Kills.
    pub kills: u32,
    /// Deaths.
    pub deaths: u32,
    /// Final kills.
    pub final_kills: u32,
    /// Final deaths.
    pub final_deaths: u32,
    /// Games won.
    pub wins: u32,
    /// Games lost.
    pub losses: u32,
    /// Beds broken.
    pub beds_broken: u32,
    /// Beds lost.
    pub beds_lost: u32,
    /// Iron collected.
    pub iron_collected: u32,
    /// Gold collected.
    pub gold_collected: u32,
    /// Diamonds collected.
    pub diamond_collected: u32,
    /// Emeralds collected.
    pub emerald_collected: u32,
    /// Games played.
    pub games_played: u32,
    /// Current winstreak.
    pub winstreak: u32,
}

impl HypixelBedwarsSolo {
    /// Whether every counter is zero.
    pub open spec fn is_zero(&self) -> bool {
        self.kills == 0
        && self.deaths == 0
        && self.final_kills == 0
        && self.final_deaths == 0
        && self.wins == 0
        && self.losses == 0
        && self.beds_broken == 0
        && self.beds_lost == 0
        && self.iron_collected == 0
        && self.gold_collected == 0
        && self.diamond_collected == 0
        && self.emerald_collected == 0
        && self.games_played == 0
        && self.winstreak == 0
    }
}

impl Default for HypixelBedwarsSolo {
    /// All counters zero.
    fn default() -> (s: Self)
        ensures
            s.is_zero(),
    {
        HypixelBedwarsSolo {
            kills: default_number(),
            deaths: default_number(),
            final_kills: default_number(),
            final_deaths: default_number(),
            wins: default_number(),
            losses: default_number(),
            beds_broken: default_number(),
            beds_lost: default_number(),
            iron_collected: default_number(),
            gold_collected: default_number(),
            diamond_collected: default_number(),
            emerald_collected: default_number(),
            games_played: default_number(),
            winstreak: default_number(),
        }
    }
}

/// Bed Wars counters of a player in doubles (8 teams of 2).
#[derive(Clone, Copy, Debug)]
pub struct HypixelBedwarsDoubles {
    /// Kills.
    pub kills: u32,
    /// Deaths.
    pub deaths: u32,
    /// Final kills.
    pub final_kills: u32,
    /// Final deaths.
    pub final_deaths: u32,
    /// Games won.
    pub wins: u32,
    /// Games lost.
    pub losses: u32,
    /// Beds broken.
    pub beds_broken: u32,
    /// Beds lost.
    pub beds_lost: u32,
    /// Iron collected.
    pub iron_collected: u32,
    /// Gold collected.
    pub gold_collected: u32,
    /// Diamonds collected.
    pub diamond_collected: u32,
    /// Emeralds collected.
    pub emerald_collected: u32,
    /// Games played.
    pub games_played: u32,
    /// Current winstreak.
    pub winstreak: u32,
}

impl HypixelBedwarsDoubles {
    /// Whether every counter is zero.
    pub open spec fn is_zero(&self) -> bool {
        self.kills == 0
        && self.deaths == 0
        && self.final_kills == 0
        && self.final_deaths == 0
        && self.wins == 0
        && self.losses == 0
        && self.beds_broken == 0
        && self.beds_lost == 0
        && self.iron_collected == 0
        && self.gold_collected == 0
        && self.diamond_collected == 0
        && self.emerald_collected == 0
        && self.games_played == 0
        && self.winstreak == 0
    }
}

impl Default for HypixelBedwarsDoubles {
    /// All counters zero.
    fn default() -> (s: Self)
        ensures
            s.is_zero(),
    {
        HypixelBedwarsDoubles {
            kills: default_number(),
            deaths: default_number(),
            final_kills: default_number(),
            final_deaths: default_number(),
            wins: default_number(),
            losses: default_number(),
            beds_broken: default_number(),
            beds_lost: default_number(),
            iron_collected: default_number(),
            gold_collected: default_number(),
            diamond_collected: default_number(),
            emerald_collected: default_number(),
            games_played: default_number(),
            winstreak: default_number(),
        }
    }
}

/// Bed Wars counters of a player in 3v3v3v3.
#[derive(Clone, Copy, Debug)]
pub struct HypixelBedwarsThrees {
    /// Kills.
    pub kills: u32,
    /// Deaths.
    pub deaths: u32,
    /// Final kills.
    pub final_kills: u32,
    /// Final deaths.
    pub final_deaths: u32,
    /// Games won.
    pub wins: u32,
    /// Games lost.
    pub losses: u32,
    /// Beds broken.
    pub beds_broken: u32,
    /// Beds lost.
    pub beds_lost: u32,
    /// Iron collected.
    pub iron_collected: u32,
    /// Gold collected.
    pub gold_collected: u32,
    /// Diamonds collected.
    pub diamond_collected: u32,
    /// Emeralds collected.
    pub emerald_collected: u32,
    /// Games played.
    pub games_played: u32,
    /// Current winstreak.
    pub winstreak: u32,
}

impl HypixelBedwarsThrees {
    /// Whether every counter is zero.
    pub open spec fn is_zero(&self) -> bool {
        self.kills == 0
        && self.deaths == 0
        && self.final_kills == 0
        && self.final_deaths == 0
        && self.wins == 0
        && self.losses == 0
        && self.beds_broken == 0
        && self.beds_lost == 0
        && self.iron_collected == 0
        && self.gold_collected == 0
        && self.diamond_collected == 0
        && self.emerald_collected == 0
        && self.games_played == 0
        && self.winstreak == 0
    }
}

impl Default for HypixelBedwarsThrees {
    /// All counters zero.
    fn default() -> (s: Self)
        ensures
            s.is_zero(),
    {
        HypixelBedwarsThrees {
            kills: default_number(),
            deaths: default_number(),
            final_kills: default_number(),
            final_deaths: default_number(),
            wins: default_number(),
            losses: default_number(),
            beds_broken: default_number(),
            beds_lost: default_number(),
            iron_collected: default_number(),
            gold_collected: default_number(),
            diamond_collected: default_number(),
            emerald_collected: default_number(),
            games_played: default_number(),
            winstreak: default_number(),
        }
    }
}

/// Bed Wars counters of a player in 4v4v4v4.
#[derive(Clone, Copy, Debug)]
pub struct HypixelBedwarsFours {
    /// Kills.
    pub kills: u32,
    /// Deaths.
    pub deaths: u32,
    /// Final kills.
    pub final_kills: u32,
    /// Final deaths.
    pub final_deaths: u32,
    /// Games won.
    pub wins: u32,
    /// Games lost.
    pub losses: u32,
    /// Beds broken.
    pub beds_broken: u32,
    /// Beds lost.
    pub beds_lost: u32,
    /// Iron collected.
    pub iron_collected: u32,
    /// Gold collected.
    pub gold_collected: u32,
    /// Diamonds collected.
    pub diamond_collected: u32,
    /// Emeralds collected.
    pub emerald_collected: u32,
    /// Games played.
    pub games_played: u32,
    /// Current winstreak.
    pub winstreak: u32,
}

impl HypixelBedwarsFours {
    /// Whether every counter is zero.
    pub open spec fn is_zero(&self) -> bool {
        self.kills == 0
        && self.deaths == 0
        && self.final_kills == 0
        && self.final_deaths == 0
        && self.wins == 0
        && self.losses == 0
        && self.beds_broken == 0
        && self.beds_lost == 0
        && self.iron_collected == 0
        && self.gold_collected == 0
        && self.diamond_collected == 0
        && self.emerald_collected == 0
        && self.games_played == 0
        && self.winstreak == 0
    }
}

impl Default for HypixelBedwarsFours {
    /// All counters zero.
    fn default() -> (s: Self)
        ensures
            s.is_zero(),
    {
        HypixelBedwarsFours {
            kills: default_number(),
            deaths: default_number(),
            final_kills: default_number(),
            final_deaths: default_number(),
            wins: default_number(),
            losses: default_number(),
            beds_broken: default_number(),
            beds_lost: default_number(),
            iron_collected: default_number(),
            gold_collected: default_number(),
            diamond_collected: default_number(),
            emerald_collected: default_number(),
            games_played: default_number(),
            winstreak: default_number(),
        }
    }
}

/// Dream-mode statistics (none are read).
#[derive(Clone, Copy, Debug)]
pub struct HypixelBedwarsDreams {}

impl Default for HypixelBedwarsDreams {
    fn default() -> (s: Self)
        ensures
            s == (HypixelBedwarsDreams {}),
    {
        HypixelBedwarsDreams {}
    }
}

/// Slumber Hotel tickets.
#[derive(Clone, Copy, Debug)]
pub struct HypixelBedwarsSlumber {
    /// Tickets held.
    pub tickets: u32,
    /// Tickets earned in total.
    pub total_tickets: u32,
}

impl Default for HypixelBedwarsSlumber {
    /// No tickets.
    fn default() -> (s: Self)
        ensures
            s.tickets == 0 && s.total_tickets == 0,
    {
        HypixelBedwarsSlumber { tickets: default_number(), total_tickets: default_number() }
    }
}

} // verus!
