//! Factions: the organizations agents register with, and their traits.

use vstd::prelude::*;

use crate::codec::{
    get_nes, get_str, json_get, json_get_nes, json_get_str, lemma_obj_get_at, nes_json,
};
use crate::conditional_types::NonEmptyString;
use crate::json::{
    jv_wf,
    entries_view, jv, jv_seq, lemma_entries_view, lemma_jv_seq, obj_get, str_eq, Json, JsonV,
};

verus! {

#[derive(Debug, Clone, Copy, PartialEq, Eq, Structural)]
pub enum FactionSymbol {
    Cosmic,
    Void,
    Galactic,
    Quantum,
    Dominion,
}

impl DeepView for FactionSymbol {
    type V = FactionSymbol;

    open spec fn deep_view(&self) -> FactionSymbol {
        *self
    }
}

impl FactionSymbol {
    /// The wire tag of this value.
    pub open spec fn tag_spec(self) -> Seq<char> {
        match self {
            FactionSymbol::Cosmic => "COSMIC"@,
            FactionSymbol::Void => "VOID"@,
            FactionSymbol::Galactic => "GALACTIC"@,
            FactionSymbol::Quantum => "QUANTUM"@,
            FactionSymbol::Dominion => "DOMINION"@,
        }
    }

    /// The value a wire tag denotes, if any: tags are told apart by
    /// length first, then by content.
    pub open spec fn of_tag(s: Seq<char>) -> Option<FactionSymbol> {
        if s.len() == 4 {
            if s == "VOID"@ {
                Some(FactionSymbol::Void)
            } else {
                None
            }
        } else if s.len() == 6 {
            if s == "COSMIC"@ {
                Some(FactionSymbol::Cosmic)
            } else {
                None
            }
        } else if s.len() == 7 {
            if s == "QUANTUM"@ {
                Some(FactionSymbol::Quantum)
            } else {
                None
            }
        } else if s.len() == 8 {
            if s == "GALACTIC"@ {
                Some(FactionSymbol::Galactic)
            } else if s == "DOMINION"@ {
                Some(FactionSymbol::Dominion)
            } else {
                None
            }
        } else {
            None
        }
    }

    /// The wire tag of this value.
    pub fn as_str(&self) -> (r: &'static str)
        ensures
            r@ == self.tag_spec(),
    {
        match self {
            FactionSymbol::Cosmic => "COSMIC",
            FactionSymbol::Void => "VOID",
            FactionSymbol::Galactic => "GALACTIC",
            FactionSymbol::Quantum => "QUANTUM",
            FactionSymbol::Dominion => "DOMINION",
        }
    }

    /// Parse a wire tag; unknown tags are rejected.
    pub fn from_tag(s: &str) -> (r: Option<FactionSymbol>)
        ensures
            r == FactionSymbol::of_tag(s@),
    {
        let n = s.unicode_len();
        if n == 4 {
            if str_eq(s, "VOID") {
                Some(FactionSymbol::Void)
            } else {
                None
            }
        } else if n == 6 {
            if str_eq(s, "COSMIC") {
                Some(FactionSymbol::Cosmic)
            } else {
                None
            }
        } else if n == 7 {
            if str_eq(s, "QUANTUM") {
                Some(FactionSymbol::Quantum)
            } else {
                None
            }
        } else if n == 8 {
            if str_eq(s, "GALACTIC") {
                Some(FactionSymbol::Galactic)
            } else if str_eq(s, "DOMINION") {
                Some(FactionSymbol::Dominion)
            } else {
                None
            }
        } else {
            None
        }
    }

    /// Writing a value's tag and reading it back yields the value.
    pub proof fn lemma_tag_round_trip(self)
        ensures
            FactionSymbol::of_tag(self.tag_spec()) == Some(self),
    {
        match self {
            FactionSymbol::Cosmic => {
                reveal_strlit("COSMIC");
            }
            FactionSymbol::Void => {
                reveal_strlit("VOID");
            }
            FactionSymbol::Galactic => {
                reveal_strlit("GALACTIC");
            }
            FactionSymbol::Quantum => {
                reveal_strlit("QUANTUM");
            }
            FactionSymbol::Dominion => {
                reveal_strlit("DOMINION");
                reveal_strlit("GALACTIC");
                assert("DOMINION"@[0] != 'G');
            }
        }
    }
}

#[derive(Debug, Clone, Copy, PartialEq, Eq, Structural)]
pub enum FactionTraitSymbol {
    Adaptable,
    Aggressive,
    Anarchist,
    Authoritarian,
    Bold,
    Brutal,
    Bureaucratic,
    Capitalistic,
    Clan,
    Collaborative,
    Commercial,
    Conflicted,
    Cooperative,
    Curious,
    Daring,
    Decentralized,
    Defensive,
    Democractic,
    Dexterous,
    Distrustful,
    Diverse,
    Dominant,
    Dominion,
    Dynastic,
    Entrepreneurial,
    Established,
    Exiles,
    Exploratory,
    Fleeting,
    Flexible,
    Forsaken,
    Fragmented,
    FreeMarkets,
    Fringe,
    Guild,
    Imperialistic,
    Independent,
    Industrious,
    Inescapable,
    Innovative,
    Intelligent,
    Isolated,
    Localized,
    Militaristic,
    Notable,
    Oligarchical,
    Peaceful,
    Pirates,
    Progressive,
    Proud,
    RESEARCHfOCUSED,
    Raiders,
    Rebellious,
    Resourceful,
    Scavengers,
    Secretive,
    SelfInterested,
    SelfSufficient,
    Smugglers,
    Strategic,
    TechnologicallyAdvanced,
    TreasureHunters,
    United,
    Unpredictable,
    Visionary,
    Welcoming,
}

impl DeepView for FactionTraitSymbol {
    type V = FactionTraitSymbol;

    open spec fn deep_view(&self) -> FactionTraitSymbol {
        *self
    }
}

impl FactionTraitSymbol {
    /// The wire tag of this value.
    pub open spec fn tag_spec(self) -> Seq<char> {
        match self {
            FactionTraitSymbol::Adaptable => "ADAPTABLE"@,
            FactionTraitSymbol::Aggressive => "AGGRESSIVE"@,
            FactionTraitSymbol::Anarchist => "ANARCHIST"@,
            FactionTraitSymbol::Authoritarian => "AUTHORITARIAN"@,
            FactionTraitSymbol::Bold => "BOLD"@,
            FactionTraitSymbol::Brutal => "BRUTAL"@,
            FactionTraitSymbol::Bureaucratic => "BUREAUCRATIC"@,
            FactionTraitSymbol::Capitalistic => "CAPITALISTIC"@,
            FactionTraitSymbol::Clan => "CLAN"@,
            FactionTraitSymbol::Collaborative => "COLLABORATIVE"@,
            FactionTraitSymbol::Commercial => "COMMERCIAL"@,
            FactionTraitSymbol::Conflicted => "CONFLICTED"@,
            FactionTraitSymbol::Cooperative => "COOPERATIVE"@,
            FactionTraitSymbol::Curious => "CURIOUS"@,
            FactionTraitSymbol::Daring => "DARING"@,
            FactionTraitSymbol::Decentralized => "DECENTRALIZED"@,
            FactionTraitSymbol::Defensive => "DEFENSIVE"@,
            FactionTraitSymbol::Democractic => "DEMOCRACTIC"@,
            FactionTraitSymbol::Dexterous => "DEXTEROUS"@,
            FactionTraitSymbol::Distrustful => "DISTRUSTFUL"@,
            FactionTraitSymbol::Diverse => "DIVERSE"@,
            FactionTraitSymbol::Dominant => "DOMINANT"@,
            FactionTraitSymbol::Dominion => "DOMINION"@,
            FactionTraitSymbol::Dynastic => "DYNASTIC"@,
            FactionTraitSymbol::Entrepreneurial => "ENTREPRENEURIAL"@,
            FactionTraitSymbol::Established => "ESTABLISHED"@,
            FactionTraitSymbol::Exiles => "EXILES"@,
            FactionTraitSymbol::Exploratory => "EXPLORATORY"@,
            FactionTraitSymbol::Fleeting => "FLEETING"@,
            FactionTraitSymbol::Flexible => "FLEXIBLE"@,
            FactionTraitSymbol::Forsaken => "FORSAKEN"@,
            FactionTraitSymbol::Fragmented => "FRAGMENTED"@,
            FactionTraitSymbol::FreeMarkets => "FREE_MARKETS"@,
            FactionTraitSymbol::Fringe => "FRINGE"@,
            FactionTraitSymbol::Guild => "GUILD"@,
            FactionTraitSymbol::Imperialistic => "IMPERIALISTIC"@,
            FactionTraitSymbol::Independent => "INDEPENDENT"@,
            FactionTraitSymbol::Industrious => "INDUSTRIOUS"@,
            FactionTraitSymbol::Inescapable => "INESCAPABLE"@,
            FactionTraitSymbol::Innovative => "INNOVATIVE"@,
            FactionTraitSymbol::Intelligent => "INTELLIGENT"@,
            FactionTraitSymbol::Isolated => "ISOLATED"@,
            FactionTraitSymbol::Localized => "LOCALIZED"@,
            FactionTraitSymbol::Militaristic => "MILITARISTIC"@,
            FactionTraitSymbol::Notable => "NOTABLE"@,
            FactionTraitSymbol::Oligarchical => "OLIGARCHICAL"@,
            FactionTraitSymbol::Peaceful => "PEACEFUL"@,
            FactionTraitSymbol::Pirates => "PIRATES"@,
            FactionTraitSymbol::Progressive => "PROGRESSIVE"@,
            FactionTraitSymbol::Proud => "PROUD"@,
            FactionTraitSymbol::RESEARCHfOCUSED => "RESEARCHF_OCUSED"@,
            FactionTraitSymbol::Raiders => "RAIDERS"@,
            FactionTraitSymbol::Rebellious => "REBELLIOUS"@,
            FactionTraitSymbol::Resourceful => "RESOURCEFUL"@,
            FactionTraitSymbol::Scavengers => "SCAVENGERS"@,
            FactionTraitSymbol::Secretive => "SECRETIVE"@,
            FactionTraitSymbol::SelfInterested => "SELF_INTERESTED"@,
            FactionTraitSymbol::SelfSufficient => "SELF_SUFFICIENT"@,
            FactionTraitSymbol::Smugglers => "SMUGGLERS"@,
            FactionTraitSymbol::Strategic => "STRATEGIC"@,
            FactionTraitSymbol::TechnologicallyAdvanced => "TECHNOLOGICALLY_ADVANCED"@,
            FactionTraitSymbol::TreasureHunters => "TREASURE_HUNTERS"@,
            FactionTraitSymbol::United => "UNITED"@,
            FactionTraitSymbol::Unpredictable => "UNPREDICTABLE"@,
            FactionTraitSymbol::Visionary => "VISIONARY"@,
            FactionTraitSymbol::Welcoming => "WELCOMING"@,
        }
    }

    /// The value a wire tag denotes, if any: tags are told apart by
    /// length first, then by content.
    pub open spec fn of_tag(s: Seq<char>) -> Option<FactionTraitSymbol> {
        if s.len() == 4 {
            if s == "BOLD"@ {
                Some(FactionTraitSymbol::Bold)
            } else if s == "CLAN"@ {
                Some(FactionTraitSymbol::Clan)
            } else {
                None
            }
        } else if s.len() == 5 {
            if s == "GUILD"@ {
                Some(FactionTraitSymbol::Guild)
            } else if s == "PROUD"@ {
                Some(FactionTraitSymbol::Proud)
            } else {
                None
            }
        } else if s.len() == 6 {
            if s == "BRUTAL"@ {
                Some(FactionTraitSymbol::Brutal)
            } else if s == "DARING"@ {
                Some(FactionTraitSymbol::Daring)
            } else if s == "EXILES"@ {
                Some(FactionTraitSymbol::Exiles)
            } else if s == "FRINGE"@ {
                Some(FactionTraitSymbol::Fringe)
            } else if s == "UNITED"@ {
                Some(FactionTraitSymbol::United)
            } else {
                None
            }
        } else if s.len() == 7 {
            if s == "CURIOUS"@ {
                Some(FactionTraitSymbol::Curious)
            } else if s == "DIVERSE"@ {
                Some(FactionTraitSymbol::Diverse)
            } else if s == "NOTABLE"@ {
                Some(FactionTraitSymbol::Notable)
            } else if s == "PIRATES"@ {
                Some(FactionTraitSymbol::Pirates)
            } else if s == "RAIDERS"@ {
                Some(FactionTraitSymbol::Raiders)
            } else {
                None
            }
        } else if s.len() == 8 {
            if s == "DOMINANT"@ {
                Some(FactionTraitSymbol::Dominant)
            } else if s == "DOMINION"@ {
                Some(FactionTraitSymbol::Dominion)
            } else if s == "DYNASTIC"@ {
                Some(FactionTraitSymbol::Dynastic)
            } else if s == "FLEETING"@ {
                Some(FactionTraitSymbol::Fleeting)
            } else if s == "FLEXIBLE"@ {
                Some(FactionTraitSymbol::Flexible)
            } else if s == "FORSAKEN"@ {
                Some(FactionTraitSymbol::Forsaken)
            } else if s == "ISOLATED"@ {
                Some(FactionTraitSymbol::Isolated)
            } else if s == "PEACEFUL"@ {
                Some(FactionTraitSymbol::Peaceful)
            } else {
                None
            }
        } else if s.len() == 9 {
            if s == "ADAPTABLE"@ {
                Some(FactionTraitSymbol::Adaptable)
            } else if s == "ANARCHIST"@ {
                Some(FactionTraitSymbol::Anarchist)
            } else if s == "DEFENSIVE"@ {
                Some(FactionTraitSymbol::Defensive)
            } else if s == "DEXTEROUS"@ {
                Some(FactionTraitSymbol::Dexterous)
            } else if s == "LOCALIZED"@ {
                Some(FactionTraitSymbol::Localized)
            } else if s == "SECRETIVE"@ {
                Some(FactionTraitSymbol::Secretive)
            } else if s == "SMUGGLERS"@ {
                Some(FactionTraitSymbol::Smugglers)
            } else if s == "STRATEGIC"@ {
                Some(FactionTraitSymbol::Strategic)
            } else if s == "VISIONARY"@ {
                Some(FactionTraitSymbol::Visionary)
            } else if s == "WELCOMING"@ {
                Some(FactionTraitSymbol::Welcoming)
            } else {
                None
            }
        } else if s.len() == 10 {
            if s == "AGGRESSIVE"@ {
                Some(FactionTraitSymbol::Aggressive)
            } else if s == "COMMERCIAL"@ {
                Some(FactionTraitSymbol::Commercial)
            } else if s == "CONFLICTED"@ {
                Some(FactionTraitSymbol::Conflicted)
            } else if s == "FRAGMENTED"@ {
                Some(FactionTraitSymbol::Fragmented)
            } else if s == "INNOVATIVE"@ {
                Some(FactionTraitSymbol::Innovative)
            } else if s == "REBELLIOUS"@ {
                Some(FactionTraitSymbol::Rebellious)
            } else if s == "SCAVENGERS"@ {
                Some(FactionTraitSymbol::Scavengers)
            } else {
                None
            }
        } else if s.len() == 11 {
            if s == "COOPERATIVE"@ {
                Some(FactionTraitSymbol::Cooperative)
            } else if s == "DEMOCRACTIC"@ {
                Some(FactionTraitSymbol::Democractic)
            } else if s == "DISTRUSTFUL"@ {
                Some(FactionTraitSymbol::Distrustful)
            } else if s == "ESTABLISHED"@ {
                Some(FactionTraitSymbol::Established)
            } else if s == "EXPLORATORY"@ {
                Some(FactionTraitSymbol::Exploratory)
            } else if s == "INDEPENDENT"@ {
                Some(FactionTraitSymbol::Independent)
            } else if s == "INDUSTRIOUS"@ {
                Some(FactionTraitSymbol::Industrious)
            } else if s == "INESCAPABLE"@ {
                Some(FactionTraitSymbol::Inescapable)
            } else if s == "INTELLIGENT"@ {
                Some(FactionTraitSymbol::Intelligent)
            } else if s == "PROGRESSIVE"@ {
                Some(FactionTraitSymbol::Progressive)
            } else if s == "RESOURCEFUL"@ {
                Some(FactionTraitSymbol::Resourceful)
            } else {
                None
            }
        } else if s.len() == 12 {
            if s == "BUREAUCRATIC"@ {
                Some(FactionTraitSymbol::Bureaucratic)
            } else if s == "CAPITALISTIC"@ {
                Some(FactionTraitSymbol::Capitalistic)
            } else if s == "FREE_MARKETS"@ {
                Some(FactionTraitSymbol::FreeMarkets)
            } else if s == "MILITARISTIC"@ {
                Some(FactionTraitSymbol::Militaristic)
            } else if s == "OLIGARCHICAL"@ {
                Some(FactionTraitSymbol::Oligarchical)
            } else {
                None
            }
        } else if s.len() == 13 {
            if s == "AUTHORITARIAN"@ {
                Some(FactionTraitSymbol::Authoritarian)
            } else if s == "COLLABORATIVE"@ {
                Some(FactionTraitSymbol::Collaborative)
            } else if s == "DECENTRALIZED"@ {
                Some(FactionTraitSymbol::Decentralized)
            } else if s == "IMPERIALISTIC"@ {
                Some(FactionTraitSymbol::Imperialistic)
            } else if s == "UNPREDICTABLE"@ {
                Some(FactionTraitSymbol::Unpredictable)
            } else {
                None
            }
        } else if s.len() == 15 {
            if s == "ENTREPRENEURIAL"@ {
                Some(FactionTraitSymbol::Entrepreneurial)
            } else if s == "SELF_INTERESTED"@ {
                Some(FactionTraitSymbol::SelfInterested)
            } else if s == "SELF_SUFFICIENT"@ {
                Some(FactionTraitSymbol::SelfSufficient)
            } else {
                None
            }
        } else if s.len() == 16 {
            if s == "RESEARCHF_OCUSED"@ {
                Some(FactionTraitSymbol::RESEARCHfOCUSED)
            } else if s == "TREASURE_HUNTERS"@ {
                Some(FactionTraitSymbol::TreasureHunters)
            } else {
                None
            }
        } else if s.len() == 24 {
            if s == "TECHNOLOGICALLY_ADVANCED"@ {
                Some(FactionTraitSymbol::TechnologicallyAdvanced)
            } else {
                None
            }
        } else {
            None
        }
    }

    /// The wire tag of this value.
    pub fn as_str(&self) -> (r: &'static str)
        ensures
            r@ == self.tag_spec(),
    {
        match self {
            FactionTraitSymbol::Adaptable => "ADAPTABLE",
            FactionTraitSymbol::Aggressive => "AGGRESSIVE",
            FactionTraitSymbol::Anarchist => "ANARCHIST",
            FactionTraitSymbol::Authoritarian => "AUTHORITARIAN",
            FactionTraitSymbol::Bold => "BOLD",
            FactionTraitSymbol::Brutal => "BRUTAL",
            FactionTraitSymbol::Bureaucratic => "BUREAUCRATIC",
            FactionTraitSymbol::Capitalistic => "CAPITALISTIC",
            FactionTraitSymbol::Clan => "CLAN",
            FactionTraitSymbol::Collaborative => "COLLABORATIVE",
            FactionTraitSymbol::Commercial => "COMMERCIAL",
            FactionTraitSymbol::Conflicted => "CONFLICTED",
            FactionTraitSymbol::Cooperative => "COOPERATIVE",
            FactionTraitSymbol::Curious => "CURIOUS",
            FactionTraitSymbol::Daring => "DARING",
            FactionTraitSymbol::Decentralized => "DECENTRALIZED",
            FactionTraitSymbol::Defensive => "DEFENSIVE",
            FactionTraitSymbol::Democractic => "DEMOCRACTIC",
            FactionTraitSymbol::Dexterous => "DEXTEROUS",
            FactionTraitSymbol::Distrustful => "DISTRUSTFUL",
            FactionTraitSymbol::Diverse => "DIVERSE",
            FactionTraitSymbol::Dominant => "DOMINANT",
            FactionTraitSymbol::Dominion => "DOMINION",
            FactionTraitSymbol::Dynastic => "DYNASTIC",
            FactionTraitSymbol::Entrepreneurial => "ENTREPRENEURIAL",
            FactionTraitSymbol::Established => "ESTABLISHED",
            FactionTraitSymbol::Exiles => "EXILES",
            FactionTraitSymbol::Exploratory => "EXPLORATORY",
            FactionTraitSymbol::Fleeting => "FLEETING",
            FactionTraitSymbol::Flexible => "FLEXIBLE",
            FactionTraitSymbol::Forsaken => "FORSAKEN",
            FactionTraitSymbol::Fragmented => "FRAGMENTED",
            FactionTraitSymbol::FreeMarkets => "FREE_MARKETS",
            FactionTraitSymbol::Fringe => "FRINGE",
            FactionTraitSymbol::Guild => "GUILD",
            FactionTraitSymbol::Imperialistic => "IMPERIALISTIC",
            FactionTraitSymbol::Independent => "INDEPENDENT",
            FactionTraitSymbol::Industrious => "INDUSTRIOUS",
            FactionTraitSymbol::Inescapable => "INESCAPABLE",
            FactionTraitSymbol::Innovative => "INNOVATIVE",
            FactionTraitSymbol::Intelligent => "INTELLIGENT",
            FactionTraitSymbol::Isolated => "ISOLATED",
            FactionTraitSymbol::Localized => "LOCALIZED",
            FactionTraitSymbol::Militaristic => "MILITARISTIC",
            FactionTraitSymbol::Notable => "NOTABLE",
            FactionTraitSymbol::Oligarchical => "OLIGARCHICAL",
            FactionTraitSymbol::Peaceful => "PEACEFUL",
            FactionTraitSymbol::Pirates => "PIRATES",
            FactionTraitSymbol::Progressive => "PROGRESSIVE",
            FactionTraitSymbol::Proud => "PROUD",
            FactionTraitSymbol::RESEARCHfOCUSED => "RESEARCHF_OCUSED",
            FactionTraitSymbol::Raiders => "RAIDERS",
            FactionTraitSymbol::Rebellious => "REBELLIOUS",
            FactionTraitSymbol::Resourceful => "RESOURCEFUL",
            FactionTraitSymbol::Scavengers => "SCAVENGERS",
            FactionTraitSymbol::Secretive => "SECRETIVE",
            FactionTraitSymbol::SelfInterested => "SELF_INTERESTED",
            FactionTraitSymbol::SelfSufficient => "SELF_SUFFICIENT",
            FactionTraitSymbol::Smugglers => "SMUGGLERS",
            FactionTraitSymbol::Strategic => "STRATEGIC",
            FactionTraitSymbol::TechnologicallyAdvanced => "TECHNOLOGICALLY_ADVANCED",
            FactionTraitSymbol::TreasureHunters => "TREASURE_HUNTERS",
            FactionTraitSymbol::United => "UNITED",
            FactionTraitSymbol::Unpredictable => "UNPREDICTABLE",
            FactionTraitSymbol::Visionary => "VISIONARY",
            FactionTraitSymbol::Welcoming => "WELCOMING",
        }
    }

    /// Parse a wire tag; unknown tags are rejected.
    pub fn from_tag(s: &str) -> (r: Option<FactionTraitSymbol>)
        ensures
            r == FactionTraitSymbol::of_tag(s@),
    {
        let n = s.unicode_len();
        if n == 4 {
            if str_eq(s, "BOLD") {
                Some(FactionTraitSymbol::Bold)
            } else if str_eq(s, "CLAN") {
                Some(FactionTraitSymbol::Clan)
            } else {
                None
            }
        } else if n == 5 {
            if str_eq(s, "GUILD") {
                Some(FactionTraitSymbol::Guild)
            } else if str_eq(s, "PROUD") {
                Some(FactionTraitSymbol::Proud)
            } else {
                None
            }
        } else if n == 6 {
            if str_eq(s, "BRUTAL") {
                Some(FactionTraitSymbol::Brutal)
            } else if str_eq(s, "DARING") {
                Some(FactionTraitSymbol::Daring)
            } else if str_eq(s, "EXILES") {
                Some(FactionTraitSymbol::Exiles)
            } else if str_eq(s, "FRINGE") {
                Some(FactionTraitSymbol::Fringe)
            } else if str_eq(s, "UNITED") {
                Some(FactionTraitSymbol::United)
            } else {
                None
            }
        } else if n == 7 {
            if str_eq(s, "CURIOUS") {
                Some(FactionTraitSymbol::Curious)
            } else if str_eq(s, "DIVERSE") {
                Some(FactionTraitSymbol::Diverse)
            } else if str_eq(s, "NOTABLE") {
                Some(FactionTraitSymbol::Notable)
            } else if str_eq(s, "PIRATES") {
                Some(FactionTraitSymbol::Pirates)
            } else if str_eq(s, "RAIDERS") {
                Some(FactionTraitSymbol::Raiders)
            } else {
                None
            }
        } else if n == 8 {
            if str_eq(s, "DOMINANT") {
                Some(FactionTraitSymbol::Dominant)
            } else if str_eq(s, "DOMINION") {
                Some(FactionTraitSymbol::Dominion)
            } else if str_eq(s, "DYNASTIC") {
                Some(FactionTraitSymbol::Dynastic)
            } else if str_eq(s, "FLEETING") {
                Some(FactionTraitSymbol::Fleeting)
            } else if str_eq(s, "FLEXIBLE") {
                Some(FactionTraitSymbol::Flexible)
            } else if str_eq(s, "FORSAKEN") {
                Some(FactionTraitSymbol::Forsaken)
            } else if str_eq(s, "ISOLATED") {
                Some(FactionTraitSymbol::Isolated)
            } else if str_eq(s, "PEACEFUL") {
                Some(FactionTraitSymbol::Peaceful)
            } else {
                None
            }
        } else if n == 9 {
            if str_eq(s, "ADAPTABLE") {
                Some(FactionTraitSymbol::Adaptable)
            } else if str_eq(s, "ANARCHIST") {
                Some(FactionTraitSymbol::Anarchist)
            } else if str_eq(s, "DEFENSIVE") {
                Some(FactionTraitSymbol::Defensive)
            } else if str_eq(s, "DEXTEROUS") {
                Some(FactionTraitSymbol::Dexterous)
            } else if str_eq(s, "LOCALIZED") {
                Some(FactionTraitSymbol::Localized)
            } else if str_eq(s, "SECRETIVE") {
                Some(FactionTraitSymbol::Secretive)
            } else if str_eq(s, "SMUGGLERS") {
                Some(FactionTraitSymbol::Smugglers)
            } else if str_eq(s, "STRATEGIC") {
                Some(FactionTraitSymbol::Strategic)
            } else if str_eq(s, "VISIONARY") {
                Some(FactionTraitSymbol::Visionary)
            } else if str_eq(s, "WELCOMING") {
                Some(FactionTraitSymbol::Welcoming)
            } else {
                None
            }
        } else if n == 10 {
            if str_eq(s, "AGGRESSIVE") {
                Some(FactionTraitSymbol::Aggressive)
            } else if str_eq(s, "COMMERCIAL") {
                Some(FactionTraitSymbol::Commercial)
            } else if str_eq(s, "CONFLICTED") {
                Some(FactionTraitSymbol::Conflicted)
            } else if str_eq(s, "FRAGMENTED") {
                Some(FactionTraitSymbol::Fragmented)
            } else if str_eq(s, "INNOVATIVE") {
                Some(FactionTraitSymbol::Innovative)
            } else if str_eq(s, "REBELLIOUS") {
                Some(FactionTraitSymbol::Rebellious)
            } else if str_eq(s, "SCAVENGERS") {
                Some(FactionTraitSymbol::Scavengers)
            } else {
                None
            }
        } else if n == 11 {
            if str_eq(s, "COOPERATIVE") {
                Some(FactionTraitSymbol::Cooperative)
            } else if str_eq(s, "DEMOCRACTIC") {
                Some(FactionTraitSymbol::Democractic)
            } else if str_eq(s, "DISTRUSTFUL") {
                Some(FactionTraitSymbol::Distrustful)
            } else if str_eq(s, "ESTABLISHED") {
                Some(FactionTraitSymbol::Established)
            } else if str_eq(s, "EXPLORATORY") {
                Some(FactionTraitSymbol::Exploratory)
            } else if str_eq(s, "INDEPENDENT") {
                Some(FactionTraitSymbol::Independent)
            } else if str_eq(s, "INDUSTRIOUS") {
                Some(FactionTraitSymbol::Industrious)
            } else if str_eq(s, "INESCAPABLE") {
                Some(FactionTraitSymbol::Inescapable)
            } else if str_eq(s, "INTELLIGENT") {
                Some(FactionTraitSymbol::Intelligent)
            } else if str_eq(s, "PROGRESSIVE") {
                Some(FactionTraitSymbol::Progressive)
            } else if str_eq(s, "RESOURCEFUL") {
                Some(FactionTraitSymbol::Resourceful)
            } else {
                None
            }
        } else if n == 12 {
            if str_eq(s, "BUREAUCRATIC") {
                Some(FactionTraitSymbol::Bureaucratic)
            } else if str_eq(s, "CAPITALISTIC") {
                Some(FactionTraitSymbol::Capitalistic)
            } else if str_eq(s, "FREE_MARKETS") {
                Some(FactionTraitSymbol::FreeMarkets)
            } else if str_eq(s, "MILITARISTIC") {
                Some(FactionTraitSymbol::Militaristic)
            } else if str_eq(s, "OLIGARCHICAL") {
                Some(FactionTraitSymbol::Oligarchical)
            } else {
                None
            }
        } else if n == 13 {
            if str_eq(s, "AUTHORITARIAN") {
                Some(FactionTraitSymbol::Authoritarian)
            } else if str_eq(s, "COLLABORATIVE") {
                Some(FactionTraitSymbol::Collaborative)
            } else if str_eq(s, "DECENTRALIZED") {
                Some(FactionTraitSymbol::Decentralized)
            } else if str_eq(s, "IMPERIALISTIC") {
                Some(FactionTraitSymbol::Imperialistic)
            } else if str_eq(s, "UNPREDICTABLE") {
                Some(FactionTraitSymbol::Unpredictable)
            } else {
                None
            }
        } else if n == 15 {
            if str_eq(s, "ENTREPRENEURIAL") {
                Some(FactionTraitSymbol::Entrepreneurial)
            } else if str_eq(s, "SELF_INTERESTED") {
                Some(FactionTraitSymbol::SelfInterested)
            } else if str_eq(s, "SELF_SUFFICIENT") {
                Some(FactionTraitSymbol::SelfSufficient)
            } else {
                None
            }
        } else if n == 16 {
            if str_eq(s, "RESEARCHF_OCUSED") {
                Some(FactionTraitSymbol::RESEARCHfOCUSED)
            } else if str_eq(s, "TREASURE_HUNTERS") {
                Some(FactionTraitSymbol::TreasureHunters)
            } else {
                None
            }
        } else if n == 24 {
            if str_eq(s, "TECHNOLOGICALLY_ADVANCED") {
                Some(FactionTraitSymbol::TechnologicallyAdvanced)
            } else {
                None
            }
        } else {
            None
        }
    }

    proof fn lemma_tag_adaptable()
        ensures
            FactionTraitSymbol::of_tag("ADAPTABLE"@) == Some(FactionTraitSymbol::Adaptable),
    {
        reveal_strlit("ADAPTABLE");
    }

    proof fn lemma_tag_aggressive()
        ensures
            FactionTraitSymbol::of_tag("AGGRESSIVE"@) == Some(FactionTraitSymbol::Aggressive),
    {
        reveal_strlit("AGGRESSIVE");
    }

    proof fn lemma_tag_anarchist()
        ensures
            FactionTraitSymbol::of_tag("ANARCHIST"@) == Some(FactionTraitSymbol::Anarchist),
    {
        reveal_strlit("ANARCHIST");
        reveal_strlit("ADAPTABLE");
        assert("ANARCHIST"@[1] != 'D');
    }

    proof fn lemma_tag_authoritarian()
        ensures
            FactionTraitSymbol::of_tag("AUTHORITARIAN"@) == Some(FactionTraitSymbol::Authoritarian),
    {
        reveal_strlit("AUTHORITARIAN");
    }

    proof fn lemma_tag_bold()
        ensures
            FactionTraitSymbol::of_tag("BOLD"@) == Some(FactionTraitSymbol::Bold),
    {
        reveal_strlit("BOLD");
    }

    proof fn lemma_tag_brutal()
        ensures
            FactionTraitSymbol::of_tag("BRUTAL"@) == Some(FactionTraitSymbol::Brutal),
    {
        reveal_strlit("BRUTAL");
    }

    proof fn lemma_tag_bureaucratic()
        ensures
            FactionTraitSymbol::of_tag("BUREAUCRATIC"@) == Some(FactionTraitSymbol::Bureaucratic),
    {
        reveal_strlit("BUREAUCRATIC");
    }

    proof fn lemma_tag_capitalistic()
        ensures
            FactionTraitSymbol::of_tag("CAPITALISTIC"@) == Some(FactionTraitSymbol::Capitalistic),
    {
        reveal_strlit("CAPITALISTIC");
        reveal_strlit("BUREAUCRATIC");
        assert("CAPITALISTIC"@[0] != 'B');
    }

    proof fn lemma_tag_clan()
        ensures
            FactionTraitSymbol::of_tag("CLAN"@) == Some(FactionTraitSymbol::Clan),
    {
        reveal_strlit("CLAN");
        reveal_strlit("BOLD");
        assert("CLAN"@[0] != 'B');
    }

    proof fn lemma_tag_collaborative()
        ensures
            FactionTraitSymbol::of_tag("COLLABORATIVE"@) == Some(FactionTraitSymbol::Collaborative),
    {
        reveal_strlit("COLLABORATIVE");
        reveal_strlit("AUTHORITARIAN");
        assert("COLLABORATIVE"@[0] != 'A');
    }

    proof fn lemma_tag_commercial()
        ensures
            FactionTraitSymbol::of_tag("COMMERCIAL"@) == Some(FactionTraitSymbol::Commercial),
    {
        reveal_strlit("COMMERCIAL");
        reveal_strlit("AGGRESSIVE");
        assert("COMMERCIAL"@[0] != 'A');
    }

    proof fn lemma_tag_conflicted()
        ensures
            FactionTraitSymbol::of_tag("CONFLICTED"@) == Some(FactionTraitSymbol::Conflicted),
    {
        reveal_strlit("CONFLICTED");
        reveal_strlit("AGGRESSIVE");
        assert("CONFLICTED"@[0] != 'A');
        reveal_strlit("COMMERCIAL");
        assert("CONFLICTED"@[2] != 'M');
    }

    proof fn lemma_tag_cooperative()
        ensures
            FactionTraitSymbol::of_tag("COOPERATIVE"@) == Some(FactionTraitSymbol::Cooperative),
    {
        reveal_strlit("COOPERATIVE");
    }

    proof fn lemma_tag_curious()
        ensures
            FactionTraitSymbol::of_tag("CURIOUS"@) == Some(FactionTraitSymbol::Curious),
    {
        reveal_strlit("CURIOUS");
    }

    proof fn lemma_tag_daring()
        ensures
            FactionTraitSymbol::of_tag("DARING"@) == Some(FactionTraitSymbol::Daring),
    {
        reveal_strlit("DARING");
        reveal_strlit("BRUTAL");
        assert("DARING"@[0] != 'B');
    }

    proof fn lemma_tag_decentralized()
        ensures
            FactionTraitSymbol::of_tag("DECENTRALIZED"@) == Some(FactionTraitSymbol::Decentralized),
    {
        reveal_strlit("DECENTRALIZED");
        reveal_strlit("AUTHORITARIAN");
        assert("DECENTRALIZED"@[0] != 'A');
        reveal_strlit("COLLABORATIVE");
        assert("DECENTRALIZED"@[0] != 'C');
    }

    proof fn lemma_tag_defensive()
        ensures
            FactionTraitSymbol::of_tag("DEFENSIVE"@) == Some(FactionTraitSymbol::Defensive),
    {
        reveal_strlit("DEFENSIVE");
        reveal_strlit("ADAPTABLE");
        assert("DEFENSIVE"@[0] != 'A');
        reveal_strlit("ANARCHIST");
        assert("DEFENSIVE"@[0] != 'A');
    }

    proof fn lemma_tag_democractic()
        ensures
            FactionTraitSymbol::of_tag("DEMOCRACTIC"@) == Some(FactionTraitSymbol::Democractic),
    {
        reveal_strlit("DEMOCRACTIC");
        reveal_strlit("COOPERATIVE");
        assert("DEMOCRACTIC"@[0] != 'C');
    }

    proof fn lemma_tag_dexterous()
        ensures
            FactionTraitSymbol::of_tag("DEXTEROUS"@) == Some(FactionTraitSymbol::Dexterous),
    {
        reveal_strlit("DEXTEROUS");
        reveal_strlit("ADAPTABLE");
        assert("DEXTEROUS"@[0] != 'A');
        reveal_strlit("ANARCHIST");
        assert("DEXTEROUS"@[0] != 'A');
        reveal_strlit("DEFENSIVE");
        assert("DEXTEROUS"@[2] != 'F');
    }

    proof fn lemma_tag_distrustful()
        ensures
            FactionTraitSymbol::of_tag("DISTRUSTFUL"@) == Some(FactionTraitSymbol::Distrustful),
    {
        reveal_strlit("DISTRUSTFUL");
        reveal_strlit("COOPERATIVE");
        assert("DISTRUSTFUL"@[0] != 'C');
        reveal_strlit("DEMOCRACTIC");
        assert("DISTRUSTFUL"@[1] != 'E');
    }

    proof fn lemma_tag_diverse()
        ensures
            FactionTraitSymbol::of_tag("DIVERSE"@) == Some(FactionTraitSymbol::Diverse),
    {
        reveal_strlit("DIVERSE");
        reveal_strlit("CURIOUS");
        assert("DIVERSE"@[0] != 'C');
    }

    proof fn lemma_tag_dominant()
        ensures
            FactionTraitSymbol::of_tag("DOMINANT"@) == Some(FactionTraitSymbol::Dominant),
    {
        reveal_strlit("DOMINANT");
    }

    proof fn lemma_tag_dominion()
        ensures
            FactionTraitSymbol::of_tag("DOMINION"@) == Some(FactionTraitSymbol::Dominion),
    {
        reveal_strlit("DOMINION");
        reveal_strlit("DOMINANT");
        assert("DOMINION"@[5] != 'A');
    }

    proof fn lemma_tag_dynastic()
        ensures
            FactionTraitSymbol::of_tag("DYNASTIC"@) == Some(FactionTraitSymbol::Dynastic),
    {
        reveal_strlit("DYNASTIC");
        reveal_strlit("DOMINANT");
        assert("DYNASTIC"@[1] != 'O');
        reveal_strlit("DOMINION");
        assert("DYNASTIC"@[1] != 'O');
    }

    proof fn lemma_tag_entrepreneurial()
        ensures
            FactionTraitSymbol::of_tag("ENTREPRENEURIAL"@) == Some(FactionTraitSymbol::Entrepreneurial),
    {
        reveal_strlit("ENTREPRENEURIAL");
    }

    proof fn lemma_tag_established()
        ensures
            FactionTraitSymbol::of_tag("ESTABLISHED"@) == Some(FactionTraitSymbol::Established),
    {
        reveal_strlit("ESTABLISHED");
        reveal_strlit("COOPERATIVE");
        assert("ESTABLISHED"@[0] != 'C');
        reveal_strlit("DEMOCRACTIC");
        assert("ESTABLISHED"@[0] != 'D');
        reveal_strlit("DISTRUSTFUL");
        assert("ESTABLISHED"@[0] != 'D');
    }

    proof fn lemma_tag_exiles()
        ensures
            FactionTraitSymbol::of_tag("EXILES"@) == Some(FactionTraitSymbol::Exiles),
    {
        reveal_strlit("EXILES");
        reveal_strlit("BRUTAL");
        assert("EXILES"@[0] != 'B');
        reveal_strlit("DARING");
        assert("EXILES"@[0] != 'D');
    }

    proof fn lemma_tag_exploratory()
        ensures
            FactionTraitSymbol::of_tag("EXPLORATORY"@) == Some(FactionTraitSymbol::Exploratory),
    {
        reveal_strlit("EXPLORATORY");
        reveal_strlit("COOPERATIVE");
        assert("EXPLORATORY"@[0] != 'C');
        reveal_strlit("DEMOCRACTIC");
        assert("EXPLORATORY"@[0] != 'D');
        reveal_strlit("DISTRUSTFUL");
        assert("EXPLORATORY"@[0] != 'D');
        reveal_strlit("ESTABLISHED");
        assert("EXPLORATORY"@[1] != 'S');
    }

    proof fn lemma_tag_fleeting()
        ensures
            FactionTraitSymbol::of_tag("FLEETING"@) == Some(FactionTraitSymbol::Fleeting),
    {
        reveal_strlit("FLEETING");
        reveal_strlit("DOMINANT");
        assert("FLEETING"@[0] != 'D');
        reveal_strlit("DOMINION");
        assert("FLEETING"@[0] != 'D');
        reveal_strlit("DYNASTIC");
        assert("FLEETING"@[0] != 'D');
    }

    proof fn lemma_tag_flexible()
        ensures
            FactionTraitSymbol::of_tag("FLEXIBLE"@) == Some(FactionTraitSymbol::Flexible),
    {
        reveal_strlit("FLEXIBLE");
        reveal_strlit("DOMINANT");
        assert("FLEXIBLE"@[0] != 'D');
        reveal_strlit("DOMINION");
        assert("FLEXIBLE"@[0] != 'D');
        reveal_strlit("DYNASTIC");
        assert("FLEXIBLE"@[0] != 'D');
        reveal_strlit("FLEETING");
        assert("FLEXIBLE"@[3] != 'E');
    }

    proof fn lemma_tag_forsaken()
        ensures
            FactionTraitSymbol::of_tag("FORSAKEN"@) == Some(FactionTraitSymbol::Forsaken),
    {
        reveal_strlit("FORSAKEN");
        reveal_strlit("DOMINANT");
        assert("FORSAKEN"@[0] != 'D');
        reveal_strlit("DOMINION");
        assert("FORSAKEN"@[0] != 'D');
        reveal_strlit("DYNASTIC");
        assert("FORSAKEN"@[0] != 'D');
        reveal_strlit("FLEETING");
        assert("FORSAKEN"@[1] != 'L');
        reveal_strlit("FLEXIBLE");
        assert("FORSAKEN"@[1] != 'L');
    }

    proof fn lemma_tag_fragmented()
        ensures
            FactionTraitSymbol::of_tag("FRAGMENTED"@) == Some(FactionTraitSymbol::Fragmented),
    {
        reveal_strlit("FRAGMENTED");
        reveal_strlit("AGGRESSIVE");
        assert("FRAGMENTED"@[0] != 'A');
        reveal_strlit("COMMERCIAL");
        assert("FRAGMENTED"@[0] != 'C');
        reveal_strlit("CONFLICTED");
        assert("FRAGMENTED"@[0] != 'C');
    }

    proof fn lemma_tag_free_markets()
        ensures
            FactionTraitSymbol::of_tag("FREE_MARKETS"@) == Some(FactionTraitSymbol::FreeMarkets),
    {
        reveal_strlit("FREE_MARKETS");
        reveal_strlit("BUREAUCRATIC");
        assert("FREE_MARKETS"@[0] != 'B');
        reveal_strlit("CAPITALISTIC");
        assert("FREE_MARKETS"@[0] != 'C');
    }

    proof fn lemma_tag_fringe()
        ensures
            FactionTraitSymbol::of_tag("FRINGE"@) == Some(FactionTraitSymbol::Fringe),
    {
        reveal_strlit("FRINGE");
        reveal_strlit("BRUTAL");
        assert("FRINGE"@[0] != 'B');
        reveal_strlit("DARING");
        assert("FRINGE"@[0] != 'D');
        reveal_strlit("EXILES");
        assert("FRINGE"@[0] != 'E');
    }

    proof fn lemma_tag_guild()
        ensures
            FactionTraitSymbol::of_tag("GUILD"@) == Some(FactionTraitSymbol::Guild),
    {
        reveal_strlit("GUILD");
    }

    proof fn lemma_tag_imperialistic()
        ensures
            FactionTraitSymbol::of_tag("IMPERIALISTIC"@) == Some(FactionTraitSymbol::Imperialistic),
    {
        reveal_strlit("IMPERIALISTIC");
        reveal_strlit("AUTHORITARIAN");
        assert("IMPERIALISTIC"@[0] != 'A');
        reveal_strlit("COLLABORATIVE");
        assert("IMPERIALISTIC"@[0] != 'C');
        reveal_strlit("DECENTRALIZED");
        assert("IMPERIALISTIC"@[0] != 'D');
    }

    proof fn lemma_tag_independent()
        ensures
            FactionTraitSymbol::of_tag("INDEPENDENT"@) == Some(FactionTraitSymbol::Independent),
    {
        reveal_strlit("INDEPENDENT");
        reveal_strlit("COOPERATIVE");
        assert("INDEPENDENT"@[0] != 'C');
        reveal_strlit("DEMOCRACTIC");
        assert("INDEPENDENT"@[0] != 'D');
        reveal_strlit("DISTRUSTFUL");
        assert("INDEPENDENT"@[0] != 'D');
        reveal_strlit("ESTABLISHED");
        assert("INDEPENDENT"@[0] != 'E');
        reveal_strlit("EXPLORATORY");
        assert("INDEPENDENT"@[0] != 'E');
    }

    proof fn lemma_tag_industrious()
        ensures
            FactionTraitSymbol::of_tag("INDUSTRIOUS"@) == Some(FactionTraitSymbol::Industrious),
    {
        reveal_strlit("INDUSTRIOUS");
        reveal_strlit("COOPERATIVE");
        assert("INDUSTRIOUS"@[0] != 'C');
        reveal_strlit("DEMOCRACTIC");
        assert("INDUSTRIOUS"@[0] != 'D');
        reveal_strlit("DISTRUSTFUL");
        assert("INDUSTRIOUS"@[0] != 'D');
        reveal_strlit("ESTABLISHED");
        assert("INDUSTRIOUS"@[0] != 'E');
        reveal_strlit("EXPLORATORY");
        assert("INDUSTRIOUS"@[0] != 'E');
        reveal_strlit("INDEPENDENT");
        assert("INDUSTRIOUS"@[3] != 'E');
    }

    proof fn lemma_tag_inescapable()
        ensures
            FactionTraitSymbol::of_tag("INESCAPABLE"@) == Some(FactionTraitSymbol::Inescapable),
    {
        reveal_strlit("INESCAPABLE");
        reveal_strlit("COOPERATIVE");
        assert("INESCAPABLE"@[0] != 'C');
        reveal_strlit("DEMOCRACTIC");
        assert("INESCAPABLE"@[0] != 'D');
        reveal_strlit("DISTRUSTFUL");
        assert("INESCAPABLE"@[0] != 'D');
        reveal_strlit("ESTABLISHED");
        assert("INESCAPABLE"@[0] != 'E');
        reveal_strlit("EXPLORATORY");
        assert("INESCAPABLE"@[0] != 'E');
        reveal_strlit("INDEPENDENT");
        assert("INESCAPABLE"@[2] != 'D');
        reveal_strlit("INDUSTRIOUS");
        assert("INESCAPABLE"@[2] != 'D');
    }

    proof fn lemma_tag_innovative()
        ensures
            FactionTraitSymbol::of_tag("INNOVATIVE"@) == Some(FactionTraitSymbol::Innovative),
    {
        reveal_strlit("INNOVATIVE");
        reveal_strlit("AGGRESSIVE");
        assert("INNOVATIVE"@[0] != 'A');
        reveal_strlit("COMMERCIAL");
        assert("INNOVATIVE"@[0] != 'C');
        reveal_strlit("CONFLICTED");
        assert("INNOVATIVE"@[0] != 'C');
        reveal_strlit("FRAGMENTED");
        assert("INNOVATIVE"@[0] != 'F');
    }

    proof fn lemma_tag_intelligent()
        ensures
            FactionTraitSymbol::of_tag("INTELLIGENT"@) == Some(FactionTraitSymbol::Intelligent),
    {
        reveal_strlit("INTELLIGENT");
        reveal_strlit("COOPERATIVE");
        assert("INTELLIGENT"@[0] != 'C');
        reveal_strlit("DEMOCRACTIC");
        assert("INTELLIGENT"@[0] != 'D');
        reveal_strlit("DISTRUSTFUL");
        assert("INTELLIGENT"@[0] != 'D');
        reveal_strlit("ESTABLISHED");
        assert("INTELLIGENT"@[0] != 'E');
        reveal_strlit("EXPLORATORY");
        assert("INTELLIGENT"@[0] != 'E');
        reveal_strlit("INDEPENDENT");
        assert("INTELLIGENT"@[2] != 'D');
        reveal_strlit("INDUSTRIOUS");
        assert("INTELLIGENT"@[2] != 'D');
        reveal_strlit("INESCAPABLE");
        assert("INTELLIGENT"@[2] != 'E');
    }

    proof fn lemma_tag_isolated()
        ensures
            FactionTraitSymbol::of_tag("ISOLATED"@) == Some(FactionTraitSymbol::Isolated),
    {
        reveal_strlit("ISOLATED");
        reveal_strlit("DOMINANT");
        assert("ISOLATED"@[0] != 'D');
        reveal_strlit("DOMINION");
        assert("ISOLATED"@[0] != 'D');
        reveal_strlit("DYNASTIC");
        assert("ISOLATED"@[0] != 'D');
        reveal_strlit("FLEETING");
        assert("ISOLATED"@[0] != 'F');
        reveal_strlit("FLEXIBLE");
        assert("ISOLATED"@[0] != 'F');
        reveal_strlit("FORSAKEN");
        assert("ISOLATED"@[0] != 'F');
    }

    proof fn lemma_tag_localized()
        ensures
            FactionTraitSymbol::of_tag("LOCALIZED"@) == Some(FactionTraitSymbol::Localized),
    {
        reveal_strlit("LOCALIZED");
        reveal_strlit("ADAPTABLE");
        assert("LOCALIZED"@[0] != 'A');
        reveal_strlit("ANARCHIST");
        assert("LOCALIZED"@[0] != 'A');
        reveal_strlit("DEFENSIVE");
        assert("LOCALIZED"@[0] != 'D');
        reveal_strlit("DEXTEROUS");
        assert("LOCALIZED"@[0] != 'D');
    }

    proof fn lemma_tag_militaristic()
        ensures
            FactionTraitSymbol::of_tag("MILITARISTIC"@) == Some(FactionTraitSymbol::Militaristic),
    {
        reveal_strlit("MILITARISTIC");
        reveal_strlit("BUREAUCRATIC");
        assert("MILITARISTIC"@[0] != 'B');
        reveal_strlit("CAPITALISTIC");
        assert("MILITARISTIC"@[0] != 'C');
        reveal_strlit("FREE_MARKETS");
        assert("MILITARISTIC"@[0] != 'F');
    }

    proof fn lemma_tag_notable()
        ensures
            FactionTraitSymbol::of_tag("NOTABLE"@) == Some(FactionTraitSymbol::Notable),
    {
        reveal_strlit("NOTABLE");
        reveal_strlit("CURIOUS");
        assert("NOTABLE"@[0] != 'C');
        reveal_strlit("DIVERSE");
        assert("NOTABLE"@[0] != 'D');
    }

    proof fn lemma_tag_oligarchical()
        ensures
            FactionTraitSymbol::of_tag("OLIGARCHICAL"@) == Some(FactionTraitSymbol::Oligarchical),
    {
        reveal_strlit("OLIGARCHICAL");
        reveal_strlit("BUREAUCRATIC");
        assert("OLIGARCHICAL"@[0] != 'B');
        reveal_strlit("CAPITALISTIC");
        assert("OLIGARCHICAL"@[0] != 'C');
        reveal_strlit("FREE_MARKETS");
        assert("OLIGARCHICAL"@[0] != 'F');
        reveal_strlit("MILITARISTIC");
        assert("OLIGARCHICAL"@[0] != 'M');
    }

    proof fn lemma_tag_peaceful()
        ensures
            FactionTraitSymbol::of_tag("PEACEFUL"@) == Some(FactionTraitSymbol::Peaceful),
    {
        reveal_strlit("PEACEFUL");
        reveal_strlit("DOMINANT");
        assert("PEACEFUL"@[0] != 'D');
        reveal_strlit("DOMINION");
        assert("PEACEFUL"@[0] != 'D');
        reveal_strlit("DYNASTIC");
        assert("PEACEFUL"@[0] != 'D');
        reveal_strlit("FLEETING");
        assert("PEACEFUL"@[0] != 'F');
        reveal_strlit("FLEXIBLE");
        assert("PEACEFUL"@[0] != 'F');
        reveal_strlit("FORSAKEN");
        assert("PEACEFUL"@[0] != 'F');
        reveal_strlit("ISOLATED");
        assert("PEACEFUL"@[0] != 'I');
    }

    proof fn lemma_tag_pirates()
        ensures
            FactionTraitSymbol::of_tag("PIRATES"@) == Some(FactionTraitSymbol::Pirates),
    {
        reveal_strlit("PIRATES");
        reveal_strlit("CURIOUS");
        assert("PIRATES"@[0] != 'C');
        reveal_strlit("DIVERSE");
        assert("PIRATES"@[0] != 'D');
        reveal_strlit("NOTABLE");
        assert("PIRATES"@[0] != 'N');
    }

    proof fn lemma_tag_progressive()
        ensures
            FactionTraitSymbol::of_tag("PROGRESSIVE"@) == Some(FactionTraitSymbol::Progressive),
    {
        reveal_strlit("PROGRESSIVE");
        reveal_strlit("COOPERATIVE");
        assert("PROGRESSIVE"@[0] != 'C');
        reveal_strlit("DEMOCRACTIC");
        assert("PROGRESSIVE"@[0] != 'D');
        reveal_strlit("DISTRUSTFUL");
        assert("PROGRESSIVE"@[0] != 'D');
        reveal_strlit("ESTABLISHED");
        assert("PROGRESSIVE"@[0] != 'E');
        reveal_strlit("EXPLORATORY");
        assert("PROGRESSIVE"@[0] != 'E');
        reveal_strlit("INDEPENDENT");
        assert("PROGRESSIVE"@[0] != 'I');
        reveal_strlit("INDUSTRIOUS");
        assert("PROGRESSIVE"@[0] != 'I');
        reveal_strlit("INESCAPABLE");
        assert("PROGRESSIVE"@[0] != 'I');
        reveal_strlit("INTELLIGENT");
        assert("PROGRESSIVE"@[0] != 'I');
    }

    proof fn lemma_tag_proud()
        ensures
            FactionTraitSymbol::of_tag("PROUD"@) == Some(FactionTraitSymbol::Proud),
    {
        reveal_strlit("PROUD");
        reveal_strlit("GUILD");
        assert("PROUD"@[0] != 'G');
    }

    proof fn lemma_tag_r_e_s_e_a_r_c_hf_o_c_u_s_e_d()
        ensures
            FactionTraitSymbol::of_tag("RESEARCHF_OCUSED"@) == Some(FactionTraitSymbol::RESEARCHfOCUSED),
    {
        reveal_strlit("RESEARCHF_OCUSED");
    }

    proof fn lemma_tag_raiders()
        ensures
            FactionTraitSymbol::of_tag("RAIDERS"@) == Some(FactionTraitSymbol::Raiders),
    {
        reveal_strlit("RAIDERS");
        reveal_strlit("CURIOUS");
        assert("RAIDERS"@[0] != 'C');
        reveal_strlit("DIVERSE");
        assert("RAIDERS"@[0] != 'D');
        reveal_strlit("NOTABLE");
        assert("RAIDERS"@[0] != 'N');
        reveal_strlit("PIRATES");
        assert("RAIDERS"@[0] != 'P');
    }

    proof fn lemma_tag_rebellious()
        ensures
            FactionTraitSymbol::of_tag("REBELLIOUS"@) == Some(FactionTraitSymbol::Rebellious),
    {
        reveal_strlit("REBELLIOUS");
        reveal_strlit("AGGRESSIVE");
        assert("REBELLIOUS"@[0] != 'A');
        reveal_strlit("COMMERCIAL");
        assert("REBELLIOUS"@[0] != 'C');
        reveal_strlit("CONFLICTED");
        assert("REBELLIOUS"@[0] != 'C');
        reveal_strlit("FRAGMENTED");
        assert("REBELLIOUS"@[0] != 'F');
        reveal_strlit("INNOVATIVE");
        assert("REBELLIOUS"@[0] != 'I');
    }

    proof fn lemma_tag_resourceful()
        ensures
            FactionTraitSymbol::of_tag("RESOURCEFUL"@) == Some(FactionTraitSymbol::Resourceful),
    {
        reveal_strlit("RESOURCEFUL");
        reveal_strlit("COOPERATIVE");
        assert("RESOURCEFUL"@[0] != 'C');
        reveal_strlit("DEMOCRACTIC");
        assert("RESOURCEFUL"@[0] != 'D');
        reveal_strlit("DISTRUSTFUL");
        assert("RESOURCEFUL"@[0] != 'D');
        reveal_strlit("ESTABLISHED");
        assert("RESOURCEFUL"@[0] != 'E');
        reveal_strlit("EXPLORATORY");
        assert("RESOURCEFUL"@[0] != 'E');
        reveal_strlit("INDEPENDENT");
        assert("RESOURCEFUL"@[0] != 'I');
        reveal_strlit("INDUSTRIOUS");
        assert("RESOURCEFUL"@[0] != 'I');
        reveal_strlit("INESCAPABLE");
        assert("RESOURCEFUL"@[0] != 'I');
        reveal_strlit("INTELLIGENT");
        assert("RESOURCEFUL"@[0] != 'I');
        reveal_strlit("PROGRESSIVE");
        assert("RESOURCEFUL"@[0] != 'P');
    }

    proof fn lemma_tag_scavengers()
        ensures
            FactionTraitSymbol::of_tag("SCAVENGERS"@) == Some(FactionTraitSymbol::Scavengers),
    {
        reveal_strlit("SCAVENGERS");
        reveal_strlit("AGGRESSIVE");
        assert("SCAVENGERS"@[0] != 'A');
        reveal_strlit("COMMERCIAL");
        assert("SCAVENGERS"@[0] != 'C');
        reveal_strlit("CONFLICTED");
        assert("SCAVENGERS"@[0] != 'C');
        reveal_strlit("FRAGMENTED");
        assert("SCAVENGERS"@[0] != 'F');
        reveal_strlit("INNOVATIVE");
        assert("SCAVENGERS"@[0] != 'I');
        reveal_strlit("REBELLIOUS");
        assert("SCAVENGERS"@[0] != 'R');
    }

    proof fn lemma_tag_secretive()
        ensures
            FactionTraitSymbol::of_tag("SECRETIVE"@) == Some(FactionTraitSymbol::Secretive),
    {
        reveal_strlit("SECRETIVE");
        reveal_strlit("ADAPTABLE");
        assert("SECRETIVE"@[0] != 'A');
        reveal_strlit("ANARCHIST");
        assert("SECRETIVE"@[0] != 'A');
        reveal_strlit("DEFENSIVE");
        assert("SECRETIVE"@[0] != 'D');
        reveal_strlit("DEXTEROUS");
        assert("SECRETIVE"@[0] != 'D');
        reveal_strlit("LOCALIZED");
        assert("SECRETIVE"@[0] != 'L');
    }

    proof fn lemma_tag_self_interested()
        ensures
            FactionTraitSymbol::of_tag("SELF_INTERESTED"@) == Some(FactionTraitSymbol::SelfInterested),
    {
        reveal_strlit("SELF_INTERESTED");
        reveal_strlit("ENTREPRENEURIAL");
        assert("SELF_INTERESTED"@[0] != 'E');
    }

    proof fn lemma_tag_self_sufficient()
        ensures
            FactionTraitSymbol::of_tag("SELF_SUFFICIENT"@) == Some(FactionTraitSymbol::SelfSufficient),
    {
        reveal_strlit("SELF_SUFFICIENT");
        reveal_strlit("ENTREPRENEURIAL");
        assert("SELF_SUFFICIENT"@[0] != 'E');
        reveal_strlit("SELF_INTERESTED");
        assert("SELF_SUFFICIENT"@[5] != 'I');
    }

    proof fn lemma_tag_smugglers()
        ensures
            FactionTraitSymbol::of_tag("SMUGGLERS"@) == Some(FactionTraitSymbol::Smugglers),
    {
        reveal_strlit("SMUGGLERS");
        reveal_strlit("ADAPTABLE");
        assert("SMUGGLERS"@[0] != 'A');
        reveal_strlit("ANARCHIST");
        assert("SMUGGLERS"@[0] != 'A');
        reveal_strlit("DEFENSIVE");
        assert("SMUGGLERS"@[0] != 'D');
        reveal_strlit("DEXTEROUS");
        assert("SMUGGLERS"@[0] != 'D');
        reveal_strlit("LOCALIZED");
        assert("SMUGGLERS"@[0] != 'L');
        reveal_strlit("SECRETIVE");
        assert("SMUGGLERS"@[1] != 'E');
    }

    proof fn lemma_tag_strategic()
        ensures
            FactionTraitSymbol::of_tag("STRATEGIC"@) == Some(FactionTraitSymbol::Strategic),
    {
        reveal_strlit("STRATEGIC");
        reveal_strlit("ADAPTABLE");
        assert("STRATEGIC"@[0] != 'A');
        reveal_strlit("ANARCHIST");
        assert("STRATEGIC"@[0] != 'A');
        reveal_strlit("DEFENSIVE");
        assert("STRATEGIC"@[0] != 'D');
        reveal_strlit("DEXTEROUS");
        assert("STRATEGIC"@[0] != 'D');
        reveal_strlit("LOCALIZED");
        assert("STRATEGIC"@[0] != 'L');
        reveal_strlit("SECRETIVE");
        assert("STRATEGIC"@[1] != 'E');
        reveal_strlit("SMUGGLERS");
        assert("STRATEGIC"@[1] != 'M');
    }

    proof fn lemma_tag_technologically_advanced()
        ensures
            FactionTraitSymbol::of_tag("TECHNOLOGICALLY_ADVANCED"@) == Some(FactionTraitSymbol::TechnologicallyAdvanced),
    {
        reveal_strlit("TECHNOLOGICALLY_ADVANCED");
    }

    proof fn lemma_tag_treasure_hunters()
        ensures
            FactionTraitSymbol::of_tag("TREASURE_HUNTERS"@) == Some(FactionTraitSymbol::TreasureHunters),
    {
        reveal_strlit("TREASURE_HUNTERS");
        reveal_strlit("RESEARCHF_OCUSED");
        assert("TREASURE_HUNTERS"@[0] != 'R');
    }

    proof fn lemma_tag_united()
        ensures
            FactionTraitSymbol::of_tag("UNITED"@) == Some(FactionTraitSymbol::United),
    {
        reveal_strlit("UNITED");
        reveal_strlit("BRUTAL");
        assert("UNITED"@[0] != 'B');
        reveal_strlit("DARING");
        assert("UNITED"@[0] != 'D');
        reveal_strlit("EXILES");
        assert("UNITED"@[0] != 'E');
        reveal_strlit("FRINGE");
        assert("UNITED"@[0] != 'F');
    }

    proof fn lemma_tag_unpredictable()
        ensures
            FactionTraitSymbol::of_tag("UNPREDICTABLE"@) == Some(FactionTraitSymbol::Unpredictable),
    {
        reveal_strlit("UNPREDICTABLE");
        reveal_strlit("AUTHORITARIAN");
        assert("UNPREDICTABLE"@[0] != 'A');
        reveal_strlit("COLLABORATIVE");
        assert("UNPREDICTABLE"@[0] != 'C');
        reveal_strlit("DECENTRALIZED");
        assert("UNPREDICTABLE"@[0] != 'D');
        reveal_strlit("IMPERIALISTIC");
        assert("UNPREDICTABLE"@[0] != 'I');
    }

    proof fn lemma_tag_visionary()
        ensures
            FactionTraitSymbol::of_tag("VISIONARY"@) == Some(FactionTraitSymbol::Visionary),
    {
        reveal_strlit("VISIONARY");
        reveal_strlit("ADAPTABLE");
        assert("VISIONARY"@[0] != 'A');
        reveal_strlit("ANARCHIST");
        assert("VISIONARY"@[0] != 'A');
        reveal_strlit("DEFENSIVE");
        assert("VISIONARY"@[0] != 'D');
        reveal_strlit("DEXTEROUS");
        assert("VISIONARY"@[0] != 'D');
        reveal_strlit("LOCALIZED");
        assert("VISIONARY"@[0] != 'L');
        reveal_strlit("SECRETIVE");
        assert("VISIONARY"@[0] != 'S');
        reveal_strlit("SMUGGLERS");
        assert("VISIONARY"@[0] != 'S');
        reveal_strlit("STRATEGIC");
        assert("VISIONARY"@[0] != 'S');
    }

    proof fn lemma_tag_welcoming()
        ensures
            FactionTraitSymbol::of_tag("WELCOMING"@) == Some(FactionTraitSymbol::Welcoming),
    {
        reveal_strlit("WELCOMING");
        reveal_strlit("ADAPTABLE");
        assert("WELCOMING"@[0] != 'A');
        reveal_strlit("ANARCHIST");
        assert("WELCOMING"@[0] != 'A');
        reveal_strlit("DEFENSIVE");
        assert("WELCOMING"@[0] != 'D');
        reveal_strlit("DEXTEROUS");
        assert("WELCOMING"@[0] != 'D');
        reveal_strlit("LOCALIZED");
        assert("WELCOMING"@[0] != 'L');
        reveal_strlit("SECRETIVE");
        assert("WELCOMING"@[0] != 'S');
        reveal_strlit("SMUGGLERS");
        assert("WELCOMING"@[0] != 'S');
        reveal_strlit("STRATEGIC");
        assert("WELCOMING"@[0] != 'S');
        reveal_strlit("VISIONARY");
        assert("WELCOMING"@[0] != 'V');
    }

    /// Writing a value's tag and reading it back yields the value.
    pub proof fn lemma_tag_round_trip(self)
        ensures
            FactionTraitSymbol::of_tag(self.tag_spec()) == Some(self),
    {
        match self {
            FactionTraitSymbol::Adaptable => FactionTraitSymbol::lemma_tag_adaptable(),
            FactionTraitSymbol::Aggressive => FactionTraitSymbol::lemma_tag_aggressive(),
            FactionTraitSymbol::Anarchist => FactionTraitSymbol::lemma_tag_anarchist(),
            FactionTraitSymbol::Authoritarian => FactionTraitSymbol::lemma_tag_authoritarian(),
            FactionTraitSymbol::Bold => FactionTraitSymbol::lemma_tag_bold(),
            FactionTraitSymbol::Brutal => FactionTraitSymbol::lemma_tag_brutal(),
            FactionTraitSymbol::Bureaucratic => FactionTraitSymbol::lemma_tag_bureaucratic(),
            FactionTraitSymbol::Capitalistic => FactionTraitSymbol::lemma_tag_capitalistic(),
            FactionTraitSymbol::Clan => FactionTraitSymbol::lemma_tag_clan(),
            FactionTraitSymbol::Collaborative => FactionTraitSymbol::lemma_tag_collaborative(),
            FactionTraitSymbol::Commercial => FactionTraitSymbol::lemma_tag_commercial(),
            FactionTraitSymbol::Conflicted => FactionTraitSymbol::lemma_tag_conflicted(),
            FactionTraitSymbol::Cooperative => FactionTraitSymbol::lemma_tag_cooperative(),
            FactionTraitSymbol::Curious => FactionTraitSymbol::lemma_tag_curious(),
            FactionTraitSymbol::Daring => FactionTraitSymbol::lemma_tag_daring(),
            FactionTraitSymbol::Decentralized => FactionTraitSymbol::lemma_tag_decentralized(),
            FactionTraitSymbol::Defensive => FactionTraitSymbol::lemma_tag_defensive(),
            FactionTraitSymbol::Democractic => FactionTraitSymbol::lemma_tag_democractic(),
            FactionTraitSymbol::Dexterous => FactionTraitSymbol::lemma_tag_dexterous(),
            FactionTraitSymbol::Distrustful => FactionTraitSymbol::lemma_tag_distrustful(),
            FactionTraitSymbol::Diverse => FactionTraitSymbol::lemma_tag_diverse(),
            FactionTraitSymbol::Dominant => FactionTraitSymbol::lemma_tag_dominant(),
            FactionTraitSymbol::Dominion => FactionTraitSymbol::lemma_tag_dominion(),
            FactionTraitSymbol::Dynastic => FactionTraitSymbol::lemma_tag_dynastic(),
            FactionTraitSymbol::Entrepreneurial => FactionTraitSymbol::lemma_tag_entrepreneurial(),
            FactionTraitSymbol::Established => FactionTraitSymbol::lemma_tag_established(),
            FactionTraitSymbol::Exiles => FactionTraitSymbol::lemma_tag_exiles(),
            FactionTraitSymbol::Exploratory => FactionTraitSymbol::lemma_tag_exploratory(),
            FactionTraitSymbol::Fleeting => FactionTraitSymbol::lemma_tag_fleeting(),
            FactionTraitSymbol::Flexible => FactionTraitSymbol::lemma_tag_flexible(),
            FactionTraitSymbol::Forsaken => FactionTraitSymbol::lemma_tag_forsaken(),
            FactionTraitSymbol::Fragmented => FactionTraitSymbol::lemma_tag_fragmented(),
            FactionTraitSymbol::FreeMarkets => FactionTraitSymbol::lemma_tag_free_markets(),
            FactionTraitSymbol::Fringe => FactionTraitSymbol::lemma_tag_fringe(),
            FactionTraitSymbol::Guild => FactionTraitSymbol::lemma_tag_guild(),
            FactionTraitSymbol::Imperialistic => FactionTraitSymbol::lemma_tag_imperialistic(),
            FactionTraitSymbol::Independent => FactionTraitSymbol::lemma_tag_independent(),
            FactionTraitSymbol::Industrious => FactionTraitSymbol::lemma_tag_industrious(),
            FactionTraitSymbol::Inescapable => FactionTraitSymbol::lemma_tag_inescapable(),
            FactionTraitSymbol::Innovative => FactionTraitSymbol::lemma_tag_innovative(),
            FactionTraitSymbol::Intelligent => FactionTraitSymbol::lemma_tag_intelligent(),
            FactionTraitSymbol::Isolated => FactionTraitSymbol::lemma_tag_isolated(),
            FactionTraitSymbol::Localized => FactionTraitSymbol::lemma_tag_localized(),
            FactionTraitSymbol::Militaristic => FactionTraitSymbol::lemma_tag_militaristic(),
            FactionTraitSymbol::Notable => FactionTraitSymbol::lemma_tag_notable(),
            FactionTraitSymbol::Oligarchical => FactionTraitSymbol::lemma_tag_oligarchical(),
            FactionTraitSymbol::Peaceful => FactionTraitSymbol::lemma_tag_peaceful(),
            FactionTraitSymbol::Pirates => FactionTraitSymbol::lemma_tag_pirates(),
            FactionTraitSymbol::Progressive => FactionTraitSymbol::lemma_tag_progressive(),
            FactionTraitSymbol::Proud => FactionTraitSymbol::lemma_tag_proud(),
            FactionTraitSymbol::RESEARCHfOCUSED => FactionTraitSymbol::lemma_tag_r_e_s_e_a_r_c_hf_o_c_u_s_e_d(),
            FactionTraitSymbol::Raiders => FactionTraitSymbol::lemma_tag_raiders(),
            FactionTraitSymbol::Rebellious => FactionTraitSymbol::lemma_tag_rebellious(),
            FactionTraitSymbol::Resourceful => FactionTraitSymbol::lemma_tag_resourceful(),
            FactionTraitSymbol::Scavengers => FactionTraitSymbol::lemma_tag_scavengers(),
            FactionTraitSymbol::Secretive => FactionTraitSymbol::lemma_tag_secretive(),
            FactionTraitSymbol::SelfInterested => FactionTraitSymbol::lemma_tag_self_interested(),
            FactionTraitSymbol::SelfSufficient => FactionTraitSymbol::lemma_tag_self_sufficient(),
            FactionTraitSymbol::Smugglers => FactionTraitSymbol::lemma_tag_smugglers(),
            FactionTraitSymbol::Strategic => FactionTraitSymbol::lemma_tag_strategic(),
            FactionTraitSymbol::TechnologicallyAdvanced => FactionTraitSymbol::lemma_tag_technologically_advanced(),
            FactionTraitSymbol::TreasureHunters => FactionTraitSymbol::lemma_tag_treasure_hunters(),
            FactionTraitSymbol::United => FactionTraitSymbol::lemma_tag_united(),
            FactionTraitSymbol::Unpredictable => FactionTraitSymbol::lemma_tag_unpredictable(),
            FactionTraitSymbol::Visionary => FactionTraitSymbol::lemma_tag_visionary(),
            FactionTraitSymbol::Welcoming => FactionTraitSymbol::lemma_tag_welcoming(),
        }
    }
}

/// One trait of a faction.
#[derive(Debug)]
pub struct FactionTrait {
    pub symbol: FactionTraitSymbol,
    pub name: NonEmptyString,
    pub description: NonEmptyString,
}

/// The mathematical view of [`FactionTrait`].
pub struct FactionTraitV {
    pub symbol: FactionTraitSymbol,
    pub name: Seq<char>,
    pub description: Seq<char>,
}

impl DeepView for FactionTrait {
    type V = FactionTraitV;

    open spec fn deep_view(&self) -> FactionTraitV {
        FactionTraitV {
            symbol: self.symbol,
            name: self.name.deep_view(),
            description: self.description.deep_view(),
        }
    }
}

/// Every constrained leaf of the view is within its bounds.
pub open spec fn faction_trait_wf(v: FactionTraitV) -> bool {
    v.name.len() > 0
        && v.description.len() > 0
}

/// The JSON shape of a view.
pub open spec fn faction_trait_to_jv(v: FactionTraitV) -> JsonV {
    JsonV::Obj(seq![
        ("symbol"@, JsonV::Str(v.symbol.tag_spec())),
        ("name"@, JsonV::Str(v.name)),
        ("description"@, JsonV::Str(v.description)),
    ])
}

/// Extract a view from a JSON value.
pub open spec fn faction_trait_of_jv(j: JsonV) -> Option<FactionTraitV> {
    match j {
        JsonV::Obj(es) => faction_trait_of_obj(es),
        _ => None,
    }
}

/// Extract a view from an object's members.
pub open spec fn faction_trait_of_obj(es: Seq<(Seq<char>, JsonV)>) -> Option<FactionTraitV> {
    match (
        (match get_str(es, "symbol"@) { Some(s) => FactionTraitSymbol::of_tag(s), None => None }),
        get_nes(es, "name"@),
        get_nes(es, "description"@),
    ) {
        (Some(symbol), Some(name), Some(description)) => Some(FactionTraitV { symbol, name, description }),
        _ => None,
    }
}

/// Writing a well-formed view and reading it back yields the view.
pub proof fn lemma_faction_trait_round_trip(v: FactionTraitV)
    requires
        faction_trait_wf(v),
    ensures
        faction_trait_of_jv(faction_trait_to_jv(v)) == Some(v),
{
    reveal_strlit("symbol");
    reveal_strlit("name");
    reveal_strlit("description");
    v.symbol.lemma_tag_round_trip();
    let es = faction_trait_to_jv(v)->Obj_0;
    assert(es.len() == 3);
    assert(es[0].0 == "symbol"@);
    assert(es[1].0 == "name"@);
    assert(es[2].0 == "description"@);
    lemma_obj_get_at(es, 0);
    lemma_obj_get_at(es, 1);
    lemma_obj_get_at(es, 2);
}

/// The JSON shape of a well-formed view is representable: every integer
/// in it fits.
pub proof fn lemma_faction_trait_to_jv_wf(v: FactionTraitV)
    requires
        faction_trait_wf(v),
    ensures
        jv_wf(faction_trait_to_jv(v)),
{
    let es = faction_trait_to_jv(v)->Obj_0;
    assert forall|i: int| 0 <= i < es.len() implies jv_wf((#[trigger] es[i]).1) by {
        assert(jv_wf(es[0].1));
        assert(jv_wf(es[1].1));
        assert(jv_wf(es[2].1));
    }
}

impl FactionTrait {
    /// Encode this value as a JSON object.
    pub fn to_json(&self) -> (r: Json)
        ensures
            jv(r) == faction_trait_to_jv(self.deep_view()),
    {
        let mut entries: Vec<(String, Json)> = Vec::new();
        entries.push((String::from_str("symbol"), Json::Str(String::from_str(self.symbol.as_str()))));
        entries.push((String::from_str("name"), nes_json(&self.name)));
        entries.push((String::from_str("description"), nes_json(&self.description)));
        proof {
            lemma_entries_view(entries@);
            let ev = entries_view(entries@);
            let target = faction_trait_to_jv(self.deep_view())->Obj_0;
            assert(entries@.len() == 3);
            assert(target.len() == 3);
            assert(entries@[0].0@ == "symbol"@);
            assert(jv(entries@[0].1) == target[0].1);
            assert(ev[0] == target[0]);
            assert(entries@[1].0@ == "name"@);
            assert(jv(entries@[1].1) == target[1].1);
            assert(ev[1] == target[1]);
            assert(entries@[2].0@ == "description"@);
            assert(jv(entries@[2].1) == target[2].1);
            assert(ev[2] == target[2]);
            assert(ev =~= target);
        }
        Json::Obj(entries)
    }

    /// Decode a value; `None` exactly when the spec-level extraction
    /// fails, and every decoded value is well formed.
    pub fn from_json(j: &Json) -> (r: Option<FactionTrait>)
        ensures
            match r {
                Some(v) => faction_trait_of_jv(jv(*j)) == Some(v.deep_view()) && faction_trait_wf(v.deep_view()),
                None => faction_trait_of_jv(jv(*j)) is None,
            },
    {
        let entries = match j {
            Json::Obj(entries) => entries,
            _ => { return None; }
        };
        proof {
            assert(*j == Json::Obj(*entries));
        }
        let symbol = match json_get_str(entries, "symbol") {
            Some(s) => match FactionTraitSymbol::from_tag(s.as_str()) {
                Some(v) => v,
                None => { return None; }
            },
            None => { return None; }
        };
        let name = match json_get_nes(entries, "name") { Some(v) => v, None => { return None; } };
        let description = match json_get_nes(entries, "description") { Some(v) => v, None => { return None; } };
        Some(FactionTrait { symbol, name, description })
    }
}

/// The JSON array elements for a sequence of values.
pub open spec fn faction_trait_seq_to_jv(vs: Seq<FactionTraitV>) -> Seq<JsonV>
    decreases vs.len(),
{
    if vs.len() == 0 {
        Seq::empty()
    } else {
        seq![faction_trait_to_jv(vs[0])] + faction_trait_seq_to_jv(vs.drop_first())
    }
}

/// Extract a sequence of values from JSON array elements.
pub open spec fn faction_trait_seq_of_jv(items: Seq<JsonV>) -> Option<Seq<FactionTraitV>>
    decreases items.len(),
{
    if items.len() == 0 {
        Some(Seq::empty())
    } else {
        match (faction_trait_of_jv(items[0]), faction_trait_seq_of_jv(items.drop_first())) {
            (Some(v), Some(vs)) => Some(seq![v] + vs),
            _ => None,
        }
    }
}

/// Writing a sequence and reading it back yields the sequence.
pub proof fn lemma_faction_trait_seq_round_trip(vs: Seq<FactionTraitV>)
    requires
        forall|i: int| 0 <= i < vs.len() ==> faction_trait_wf(#[trigger] vs[i]),
    ensures
        faction_trait_seq_of_jv(faction_trait_seq_to_jv(vs)) == Some(vs),
    decreases vs.len(),
{
    if vs.len() > 0 {
        lemma_faction_trait_round_trip(vs[0]);
        lemma_faction_trait_seq_round_trip(vs.drop_first());
        assert(faction_trait_seq_to_jv(vs).drop_first() =~= faction_trait_seq_to_jv(vs.drop_first()));
        assert(seq![vs[0]] + vs.drop_first() =~= vs);
    }
}

/// The JSON array of well-formed views is representable: every integer
/// in it fits.
pub proof fn lemma_faction_trait_seq_to_jv_wf(vs: Seq<FactionTraitV>)
    requires
        forall|i: int| 0 <= i < vs.len() ==> faction_trait_wf(#[trigger] vs[i]),
    ensures
        forall|i: int| 0 <= i < faction_trait_seq_to_jv(vs).len() ==> jv_wf(
            #[trigger] faction_trait_seq_to_jv(vs)[i],
        ),
        jv_wf(JsonV::Arr(faction_trait_seq_to_jv(vs))),
    decreases vs.len(),
{
    if vs.len() > 0 {
        lemma_faction_trait_to_jv_wf(vs[0]);
        assert forall|i: int| 0 <= i < vs.drop_first().len() implies faction_trait_wf(
            #[trigger] vs.drop_first()[i],
        ) by {
            assert(vs.drop_first()[i] == vs[i + 1]);
        }
        lemma_faction_trait_seq_to_jv_wf(vs.drop_first());
        let ws = faction_trait_seq_to_jv(vs);
        let tl = faction_trait_seq_to_jv(vs.drop_first());
        assert(ws == seq![faction_trait_to_jv(vs[0])] + tl);
        assert(jv_wf(ws[0]));
        assert(jv_wf(JsonV::Arr(tl)));
        assert forall|i: int| 0 <= i < ws.len() implies jv_wf(#[trigger] ws[i]) by {
            if i > 0 {
                assert(ws[i] == tl[i - 1]);
                assert(jv_wf(tl[i - 1]));
            }
        }
    } else {
        assert(faction_trait_seq_to_jv(vs) =~= Seq::<JsonV>::empty());
    }
}

impl FactionTrait {
    /// Encode a vector tail (from `k` on) as JSON array elements.
    pub fn vec_to_json(items: &Vec<FactionTrait>, k: usize) -> (r: Vec<Json>)
        requires
            k <= items@.len(),
        ensures
            jv_seq(r@) == faction_trait_seq_to_jv(items.deep_view().skip(k as int)),
        decreases items@.len() - k,
    {
        let ghost dv = items.deep_view();
        if k == items.len() {
            let out: Vec<Json> = Vec::new();
            proof {
                assert(out@ =~= Seq::<Json>::empty());
                assert(jv_seq(out@) =~= Seq::<JsonV>::empty());
                assert(dv.skip(k as int) =~= Seq::<FactionTraitV>::empty());
            }
            out
        } else {
            let mut rest = Self::vec_to_json(items, k + 1);
            let hd = items[k].to_json();
            let ghost restv = rest@;
            rest.insert(0, hd);
            proof {
                assert(rest@[0] == hd);
                assert(rest@.drop_first() =~= restv);
                assert(jv_seq(rest@) =~= seq![jv(hd)] + jv_seq(restv));
                assert(dv.skip(k as int)[0] == dv[k as int]);
                assert(dv.skip(k as int).drop_first() =~= dv.skip(k as int + 1));
                assert(jv_seq(rest@) =~= faction_trait_seq_to_jv(dv.skip(k as int)));
            }
            rest
        }
    }

    /// Encode a whole vector as a JSON array.
    pub fn vec_json(items: &Vec<FactionTrait>) -> (r: Json)
        ensures
            jv(r) == JsonV::Arr(faction_trait_seq_to_jv(items.deep_view())),
    {
        let out = Self::vec_to_json(items, 0);
        proof {
            assert(items.deep_view().skip(0) =~= items.deep_view());
        }
        Json::Arr(out)
    }

    /// Decode a vector from JSON array elements, from `k` on.
    pub fn vec_from_json(items: &Vec<Json>, k: usize) -> (r: Option<Vec<FactionTrait>>)
        requires
            k <= items@.len(),
        ensures
            match r {
                Some(vs) => faction_trait_seq_of_jv(jv_seq(items@).skip(k as int)) == Some(vs.deep_view())
                    && (forall|i: int| 0 <= i < vs.deep_view().len() ==> faction_trait_wf(#[trigger] vs.deep_view()[i])),
                None => faction_trait_seq_of_jv(jv_seq(items@).skip(k as int)) is None,
            },
        decreases items@.len() - k,
    {
        let ghost sv = jv_seq(items@);
        proof {
            lemma_jv_seq(items@);
        }
        if k == items.len() {
            let out: Vec<FactionTrait> = Vec::new();
            proof {
                assert(sv.skip(k as int) =~= Seq::<JsonV>::empty());
                assert(out.deep_view() =~= Seq::<FactionTraitV>::empty());
            }
            return Some(out);
        }
        proof {
            assert(sv.skip(k as int)[0] == sv[k as int]);
            assert(sv.skip(k as int).drop_first() =~= sv.skip(k as int + 1));
        }
        let hd = match FactionTrait::from_json(&items[k]) {
            Some(v) => v,
            None => { return None; }
        };
        match Self::vec_from_json(items, k + 1) {
            Some(mut vs) => {
                let ghost older = vs.deep_view();
                vs.insert(0, hd);
                proof {
                    assert(vs.deep_view()[0] == hd.deep_view());
                    assert(vs.deep_view().drop_first() =~= older);
                    assert(vs.deep_view() =~= seq![hd.deep_view()] + older);
                }
                Some(vs)
            }
            None => None,
        }
    }

    /// Decode a vector from a JSON value that must be an array.
    pub fn vec_from_json_value(j: &Json) -> (r: Option<Vec<FactionTrait>>)
        ensures
            match r {
                Some(vs) => (match jv(*j) {
                    JsonV::Arr(items) => faction_trait_seq_of_jv(items) == Some(vs.deep_view()),
                    _ => false,
                }) && (forall|i: int| 0 <= i < vs.deep_view().len() ==> faction_trait_wf(#[trigger] vs.deep_view()[i])),
                None => (match jv(*j) {
                    JsonV::Arr(items) => faction_trait_seq_of_jv(items) is None,
                    _ => true,
                }),
            },
    {
        let items = match j {
            Json::Arr(items) => items,
            _ => { return None; }
        };
        proof {
            assert(*j == Json::Arr(*items));
            assert(jv_seq(items@).skip(0) =~= jv_seq(items@));
        }
        Self::vec_from_json(items, 0)
    }
}

/// A faction: the organization an agent registers with.
#[derive(Debug)]
pub struct Faction {
    pub symbol: FactionSymbol,
    pub name: NonEmptyString,
    pub description: NonEmptyString,
    pub headquarters: NonEmptyString,
    pub traits: Vec<FactionTrait>,
}

/// The mathematical view of [`Faction`].
pub struct FactionV {
    pub symbol: FactionSymbol,
    pub name: Seq<char>,
    pub description: Seq<char>,
    pub headquarters: Seq<char>,
    pub traits: Seq<FactionTraitV>,
}

impl DeepView for Faction {
    type V = FactionV;

    open spec fn deep_view(&self) -> FactionV {
        FactionV {
            symbol: self.symbol,
            name: self.name.deep_view(),
            description: self.description.deep_view(),
            headquarters: self.headquarters.deep_view(),
            traits: self.traits.deep_view(),
        }
    }
}

/// Every constrained leaf of the view is within its bounds.
pub open spec fn faction_wf(v: FactionV) -> bool {
    v.name.len() > 0
        && v.description.len() > 0
        && v.headquarters.len() > 0
        && (forall|i: int| 0 <= i < v.traits.len() ==> faction_trait_wf((#[trigger] v.traits[i])))
}

/// The JSON shape of a view.
pub open spec fn faction_to_jv(v: FactionV) -> JsonV {
    JsonV::Obj(seq![
        ("symbol"@, JsonV::Str(v.symbol.tag_spec())),
        ("name"@, JsonV::Str(v.name)),
        ("description"@, JsonV::Str(v.description)),
        ("headquarters"@, JsonV::Str(v.headquarters)),
        ("traits"@, JsonV::Arr(faction_trait_seq_to_jv(v.traits))),
    ])
}

/// Extract a view from a JSON value.
pub open spec fn faction_of_jv(j: JsonV) -> Option<FactionV> {
    match j {
        JsonV::Obj(es) => faction_of_obj(es),
        _ => None,
    }
}

/// Extract a view from an object's members.
pub open spec fn faction_of_obj(es: Seq<(Seq<char>, JsonV)>) -> Option<FactionV> {
    match (
        (match get_str(es, "symbol"@) { Some(s) => FactionSymbol::of_tag(s), None => None }),
        get_nes(es, "name"@),
        get_nes(es, "description"@),
        get_nes(es, "headquarters"@),
        (match obj_get(es, "traits"@) { Some(JsonV::Arr(items)) => faction_trait_seq_of_jv(items), _ => None }),
    ) {
        (Some(symbol), Some(name), Some(description), Some(headquarters), Some(traits)) => Some(FactionV { symbol, name, description, headquarters, traits }),
        _ => None,
    }
}

/// Writing a well-formed view and reading it back yields the view.
pub proof fn lemma_faction_round_trip(v: FactionV)
    requires
        faction_wf(v),
    ensures
        faction_of_jv(faction_to_jv(v)) == Some(v),
{
    reveal_strlit("symbol");
    reveal_strlit("name");
    reveal_strlit("description");
    reveal_strlit("headquarters");
    reveal_strlit("traits");
    v.symbol.lemma_tag_round_trip();
    lemma_faction_trait_seq_round_trip(v.traits);
    let es = faction_to_jv(v)->Obj_0;
    assert(es.len() == 5);
    assert(es[0].0 == "symbol"@);
    assert(es[1].0 == "name"@);
    assert(es[2].0 == "description"@);
    assert(es[3].0 == "headquarters"@);
    assert(es[4].0 == "traits"@);
    assert("traits"@[0] != 's');
    assert("symbol"@[0] == 's');
    lemma_obj_get_at(es, 0);
    lemma_obj_get_at(es, 1);
    lemma_obj_get_at(es, 2);
    lemma_obj_get_at(es, 3);
    lemma_obj_get_at(es, 4);
}

/// The JSON shape of a well-formed view is representable: every integer
/// in it fits.
pub proof fn lemma_faction_to_jv_wf(v: FactionV)
    requires
        faction_wf(v),
    ensures
        jv_wf(faction_to_jv(v)),
{
    lemma_faction_trait_seq_to_jv_wf(v.traits);
    let es = faction_to_jv(v)->Obj_0;
    assert forall|i: int| 0 <= i < es.len() implies jv_wf((#[trigger] es[i]).1) by {
        assert(jv_wf(es[0].1));
        assert(jv_wf(es[1].1));
        assert(jv_wf(es[2].1));
        assert(jv_wf(es[3].1));
        assert(jv_wf(es[4].1));
    }
}

impl Faction {
    /// Encode this value as a JSON object.
    pub fn to_json(&self) -> (r: Json)
        ensures
            jv(r) == faction_to_jv(self.deep_view()),
    {
        let mut entries: Vec<(String, Json)> = Vec::new();
        entries.push((String::from_str("symbol"), Json::Str(String::from_str(self.symbol.as_str()))));
        entries.push((String::from_str("name"), nes_json(&self.name)));
        entries.push((String::from_str("description"), nes_json(&self.description)));
        entries.push((String::from_str("headquarters"), nes_json(&self.headquarters)));
        entries.push((String::from_str("traits"), FactionTrait::vec_json(&self.traits)));
        proof {
            lemma_entries_view(entries@);
            let ev = entries_view(entries@);
            let target = faction_to_jv(self.deep_view())->Obj_0;
            assert(entries@.len() == 5);
            assert(target.len() == 5);
            assert(entries@[0].0@ == "symbol"@);
            assert(jv(entries@[0].1) == target[0].1);
            assert(ev[0] == target[0]);
            assert(entries@[1].0@ == "name"@);
            assert(jv(entries@[1].1) == target[1].1);
            assert(ev[1] == target[1]);
            assert(entries@[2].0@ == "description"@);
            assert(jv(entries@[2].1) == target[2].1);
            assert(ev[2] == target[2]);
            assert(entries@[3].0@ == "headquarters"@);
            assert(jv(entries@[3].1) == target[3].1);
            assert(ev[3] == target[3]);
            assert(entries@[4].0@ == "traits"@);
            assert(jv(entries@[4].1) == target[4].1);
            assert(ev[4] == target[4]);
            assert(ev =~= target);
        }
        Json::Obj(entries)
    }

    /// Decode a value; `None` exactly when the spec-level extraction
    /// fails, and every decoded value is well formed.
    pub fn from_json(j: &Json) -> (r: Option<Faction>)
        ensures
            match r {
                Some(v) => faction_of_jv(jv(*j)) == Some(v.deep_view()) && faction_wf(v.deep_view()),
                None => faction_of_jv(jv(*j)) is None,
            },
    {
        let entries = match j {
            Json::Obj(entries) => entries,
            _ => { return None; }
        };
        proof {
            assert(*j == Json::Obj(*entries));
        }
        let symbol = match json_get_str(entries, "symbol") {
            Some(s) => match FactionSymbol::from_tag(s.as_str()) {
                Some(v) => v,
                None => { return None; }
            },
            None => { return None; }
        };
        let name = match json_get_nes(entries, "name") { Some(v) => v, None => { return None; } };
        let description = match json_get_nes(entries, "description") { Some(v) => v, None => { return None; } };
        let headquarters = match json_get_nes(entries, "headquarters") { Some(v) => v, None => { return None; } };
        let traits = match json_get(entries, "traits") {
            Some(sj) => match FactionTrait::vec_from_json_value(sj) {
                Some(v) => v,
                None => { return None; }
            },
            None => { return None; }
        };
        Some(Faction { symbol, name, description, headquarters, traits })
    }
}

} // verus!
