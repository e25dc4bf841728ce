//! The games whose data can be read, and the per-game core state.

use crate::base::ig_core_platform::IG_CORE_PLATFORM;
use crate::meta::ig_metadata_manager::igMetadataManager;
use crate::util::text::{concat, spec_mark, text_equal};
use vstd::prelude::*;

verus! {

/// The games.
#[derive(Clone, Copy, Debug, PartialEq, Eq, Structural)]
pub enum EGame {
    EV_None,
    EV_MadagascarTMEscape2AfricaTMTheGameTM,
    EV_SkylandersSpyrosAdventure,
    EV_SkylandersSpyrosAdventure_3DS,
    EV_HatsuneMikuProjectDiva,
    EV_HatsuneMikuProjectDiva2nd,
    EV_HatsuneMikuProjectDivaExtend,
    EV_SkylandersBattlegrounds,
    EV_SkylandersCloudPatrol,
    EV_SkylandersGiants,
    EV_SkylandersGiants_3DS,
    EV_SkylandersLostIslands,
    EV_SkylandersSwapForce,
    EV_SkylandersSwapForce_3DS,
    EV_SkylandersTrapTeam,
    EV_SkylandersTrapTeam_3DS,
    EV_SkylandersSuperchargers,
    EV_SkylandersSuperchargersIos,
    EV_SkylandersImaginators,
    EV_SkylandersImaginatorsSwitch,
    EV_CrashNSaneTrilogy,
    EV_CrashTeamRacingNitroFueled,
}

/// The name of a game, as configuration files and folders write it.
pub open spec fn spec_game_name(game: EGame) -> Seq<char> {
    match game {
        EGame::EV_None => "EV_None"@,
        EGame::EV_MadagascarTMEscape2AfricaTMTheGameTM => "EV_MadagascarTMEscape2AfricaTMTheGameTM"@,
        EGame::EV_SkylandersSpyrosAdventure => "EV_SkylandersSpyrosAdventure"@,
        EGame::EV_SkylandersSpyrosAdventure_3DS => "EV_SkylandersSpyrosAdventure_3DS"@,
        EGame::EV_HatsuneMikuProjectDiva => "EV_HatsuneMikuProjectDiva"@,
        EGame::EV_HatsuneMikuProjectDiva2nd => "EV_HatsuneMikuProjectDiva2nd"@,
        EGame::EV_HatsuneMikuProjectDivaExtend => "EV_HatsuneMikuProjectDivaExtend"@,
        EGame::EV_SkylandersBattlegrounds => "EV_SkylandersBattlegrounds"@,
        EGame::EV_SkylandersCloudPatrol => "EV_SkylandersCloudPatrol"@,
        EGame::EV_SkylandersGiants => "EV_SkylandersGiants"@,
        EGame::EV_SkylandersGiants_3DS => "EV_SkylandersGiants_3DS"@,
        EGame::EV_SkylandersLostIslands => "EV_SkylandersLostIslands"@,
        EGame::EV_SkylandersSwapForce => "EV_SkylandersSwapForce"@,
        EGame::EV_SkylandersSwapForce_3DS => "EV_SkylandersSwapForce_3DS"@,
        EGame::EV_SkylandersTrapTeam => "EV_SkylandersTrapTeam"@,
        EGame::EV_SkylandersTrapTeam_3DS => "EV_SkylandersTrapTeam_3DS"@,
        EGame::EV_SkylandersSuperchargers => "EV_SkylandersSuperchargers"@,
        EGame::EV_SkylandersSuperchargersIos => "EV_SkylandersSuperchargersIos"@,
        EGame::EV_SkylandersImaginators => "EV_SkylandersImaginators"@,
        EGame::EV_SkylandersImaginatorsSwitch => "EV_SkylandersImaginatorsSwitch"@,
        EGame::EV_CrashNSaneTrilogy => "EV_CrashNSaneTrilogy"@,
        EGame::EV_CrashTeamRacingNitroFueled => "EV_CrashTeamRacingNitroFueled"@,
    }
}

/// The game that a name stands for, or `None` for a name of no game.
pub open spec fn spec_game_from_name(name: Seq<char>) -> Option<EGame> {
    if name == "EV_None"@ {
        Some(EGame::EV_None)
    } else if name == "EV_MadagascarTMEscape2AfricaTMTheGameTM"@ {
        Some(EGame::EV_MadagascarTMEscape2AfricaTMTheGameTM)
    } else if name == "EV_SkylandersSpyrosAdventure"@ {
        Some(EGame::EV_SkylandersSpyrosAdventure)
    } else if name == "EV_SkylandersSpyrosAdventure_3DS"@ {
        Some(EGame::EV_SkylandersSpyrosAdventure_3DS)
    } else if name == "EV_HatsuneMikuProjectDiva"@ {
        Some(EGame::EV_HatsuneMikuProjectDiva)
    } else if name == "EV_HatsuneMikuProjectDiva2nd"@ {
        Some(EGame::EV_HatsuneMikuProjectDiva2nd)
    } else if name == "EV_HatsuneMikuProjectDivaExtend"@ {
        Some(EGame::EV_HatsuneMikuProjectDivaExtend)
    } else if name == "EV_SkylandersBattlegrounds"@ {
        Some(EGame::EV_SkylandersBattlegrounds)
    } else if name == "EV_SkylandersCloudPatrol"@ {
        Some(EGame::EV_SkylandersCloudPatrol)
    } else if name == "EV_SkylandersGiants"@ {
        Some(EGame::EV_SkylandersGiants)
    } else if name == "EV_SkylandersGiants_3DS"@ {
        Some(EGame::EV_SkylandersGiants_3DS)
    } else if name == "EV_SkylandersLostIslands"@ {
        Some(EGame::EV_SkylandersLostIslands)
    } else if name == "EV_SkylandersSwapForce"@ {
        Some(EGame::EV_SkylandersSwapForce)
    } else if name == "EV_SkylandersSwapForce_3DS"@ {
        Some(EGame::EV_SkylandersSwapForce_3DS)
    } else if name == "EV_SkylandersTrapTeam"@ {
        Some(EGame::EV_SkylandersTrapTeam)
    } else if name == "EV_SkylandersTrapTeam_3DS"@ {
        Some(EGame::EV_SkylandersTrapTeam_3DS)
    } else if name == "EV_SkylandersSuperchargers"@ {
        Some(EGame::EV_SkylandersSuperchargers)
    } else if name == "EV_SkylandersSuperchargersIos"@ {
        Some(EGame::EV_SkylandersSuperchargersIos)
    } else if name == "EV_SkylandersImaginators"@ {
        Some(EGame::EV_SkylandersImaginators)
    } else if name == "EV_SkylandersImaginatorsSwitch"@ {
        Some(EGame::EV_SkylandersImaginatorsSwitch)
    } else if name == "EV_CrashNSaneTrilogy"@ {
        Some(EGame::EV_CrashNSaneTrilogy)
    } else if name == "EV_CrashTeamRacingNitroFueled"@ {
        Some(EGame::EV_CrashTeamRacingNitroFueled)
    } else {
        None
    }
}

/// The name of a game.
pub fn game_name(game: EGame) -> (name: String)
    ensures
        name@ == spec_game_name(game),
{
    match game {
        EGame::EV_None => "EV_None".to_owned(),
        EGame::EV_MadagascarTMEscape2AfricaTMTheGameTM => "EV_MadagascarTMEscape2AfricaTMTheGameTM".to_owned(),
        EGame::EV_SkylandersSpyrosAdventure => "EV_SkylandersSpyrosAdventure".to_owned(),
        EGame::EV_SkylandersSpyrosAdventure_3DS => "EV_SkylandersSpyrosAdventure_3DS".to_owned(),
        EGame::EV_HatsuneMikuProjectDiva => "EV_HatsuneMikuProjectDiva".to_owned(),
        EGame::EV_HatsuneMikuProjectDiva2nd => "EV_HatsuneMikuProjectDiva2nd".to_owned(),
        EGame::EV_HatsuneMikuProjectDivaExtend => "EV_HatsuneMikuProjectDivaExtend".to_owned(),
        EGame::EV_SkylandersBattlegrounds => "EV_SkylandersBattlegrounds".to_owned(),
        EGame::EV_SkylandersCloudPatrol => "EV_SkylandersCloudPatrol".to_owned(),
        EGame::EV_SkylandersGiants => "EV_SkylandersGiants".to_owned(),
        EGame::EV_SkylandersGiants_3DS => "EV_SkylandersGiants_3DS".to_owned(),
        EGame::EV_SkylandersLostIslands => "EV_SkylandersLostIslands".to_owned(),
        EGame::EV_SkylandersSwapForce => "EV_SkylandersSwapForce".to_owned(),
        EGame::EV_SkylandersSwapForce_3DS => "EV_SkylandersSwapForce_3DS".to_owned(),
        EGame::EV_SkylandersTrapTeam => "EV_SkylandersTrapTeam".to_owned(),
        EGame::EV_SkylandersTrapTeam_3DS => "EV_SkylandersTrapTeam_3DS".to_owned(),
        EGame::EV_SkylandersSuperchargers => "EV_SkylandersSuperchargers".to_owned(),
        EGame::EV_SkylandersSuperchargersIos => "EV_SkylandersSuperchargersIos".to_owned(),
        EGame::EV_SkylandersImaginators => "EV_SkylandersImaginators".to_owned(),
        EGame::EV_SkylandersImaginatorsSwitch => "EV_SkylandersImaginatorsSwitch".to_owned(),
        EGame::EV_CrashNSaneTrilogy => "EV_CrashNSaneTrilogy".to_owned(),
        EGame::EV_CrashTeamRacingNitroFueled => "EV_CrashTeamRacingNitroFueled".to_owned(),
    }
}

/// Parses the name of a game. Names are case-sensitive.
pub fn game_from_name(name: &str) -> (game: Option<EGame>)
    ensures
        game == spec_game_from_name(name@),
{
    if text_equal(name, "EV_None") {
        Some(EGame::EV_None)
    } else if text_equal(name, "EV_MadagascarTMEscape2AfricaTMTheGameTM") {
        Some(EGame::EV_MadagascarTMEscape2AfricaTMTheGameTM)
    } else if text_equal(name, "EV_SkylandersSpyrosAdventure") {
        Some(EGame::EV_SkylandersSpyrosAdventure)
    } else if text_equal(name, "EV_SkylandersSpyrosAdventure_3DS") {
        Some(EGame::EV_SkylandersSpyrosAdventure_3DS)
    } else if text_equal(name, "EV_HatsuneMikuProjectDiva") {
        Some(EGame::EV_HatsuneMikuProjectDiva)
    } else if text_equal(name, "EV_HatsuneMikuProjectDiva2nd") {
        Some(EGame::EV_HatsuneMikuProjectDiva2nd)
    } else if text_equal(name, "EV_HatsuneMikuProjectDivaExtend") {
        Some(EGame::EV_HatsuneMikuProjectDivaExtend)
    } else if text_equal(name, "EV_SkylandersBattlegrounds") {
        Some(EGame::EV_SkylandersBattlegrounds)
    } else if text_equal(name, "EV_SkylandersCloudPatrol") {
        Some(EGame::EV_SkylandersCloudPatrol)
    } else if text_equal(name, "EV_SkylandersGiants") {
        Some(EGame::EV_SkylandersGiants)
    } else if text_equal(name, "EV_SkylandersGiants_3DS") {
        Some(EGame::EV_SkylandersGiants_3DS)
    } else if text_equal(name, "EV_SkylandersLostIslands") {
        Some(EGame::EV_SkylandersLostIslands)
    } else if text_equal(name, "EV_SkylandersSwapForce") {
        Some(EGame::EV_SkylandersSwapForce)
    } else if text_equal(name, "EV_SkylandersSwapForce_3DS") {
        Some(EGame::EV_SkylandersSwapForce_3DS)
    } else if text_equal(name, "EV_SkylandersTrapTeam") {
        Some(EGame::EV_SkylandersTrapTeam)
    } else if text_equal(name, "EV_SkylandersTrapTeam_3DS") {
        Some(EGame::EV_SkylandersTrapTeam_3DS)
    } else if text_equal(name, "EV_SkylandersSuperchargers") {
        Some(EGame::EV_SkylandersSuperchargers)
    } else if text_equal(name, "EV_SkylandersSuperchargersIos") {
        Some(EGame::EV_SkylandersSuperchargersIos)
    } else if text_equal(name, "EV_SkylandersImaginators") {
        Some(EGame::EV_SkylandersImaginators)
    } else if text_equal(name, "EV_SkylandersImaginatorsSwitch") {
        Some(EGame::EV_SkylandersImaginatorsSwitch)
    } else if text_equal(name, "EV_CrashNSaneTrilogy") {
        Some(EGame::EV_CrashNSaneTrilogy)
    } else if text_equal(name, "EV_CrashTeamRacingNitroFueled") {
        Some(EGame::EV_CrashTeamRacingNitroFueled)
    } else {
        None
    }
}

/// A name written for a game is read back as that game.
pub proof fn lemma_game_name_roundtrip(game: EGame)
    ensures
        spec_game_from_name(spec_game_name(game)) == Some(game),
{
    reveal_strlit("EV_None");
    assert(spec_mark("EV_None"@) == (7nat, 'e', 'n'));
    reveal_strlit("EV_MadagascarTMEscape2AfricaTMTheGameTM");
    assert(spec_mark("EV_MadagascarTMEscape2AfricaTMTheGameTM"@) == (39nat, 'M', 'T'));
    reveal_strlit("EV_SkylandersSpyrosAdventure");
    assert(spec_mark("EV_SkylandersSpyrosAdventure"@) == (28nat, 'e', 'r'));
    reveal_strlit("EV_SkylandersSpyrosAdventure_3DS");
    assert(spec_mark("EV_SkylandersSpyrosAdventure_3DS"@) == (32nat, 'S', 'D'));
    reveal_strlit("EV_HatsuneMikuProjectDiva");
    assert(spec_mark("EV_HatsuneMikuProjectDiva"@) == (25nat, 'a', 'v'));
    reveal_strlit("EV_HatsuneMikuProjectDiva2nd");
    assert(spec_mark("EV_HatsuneMikuProjectDiva2nd"@) == (28nat, 'd', 'n'));
    reveal_strlit("EV_HatsuneMikuProjectDivaExtend");
    assert(spec_mark("EV_HatsuneMikuProjectDivaExtend"@) == (31nat, 'd', 'n'));
    reveal_strlit("EV_SkylandersBattlegrounds");
    assert(spec_mark("EV_SkylandersBattlegrounds"@) == (26nat, 's', 'd'));
    reveal_strlit("EV_SkylandersCloudPatrol");
    assert(spec_mark("EV_SkylandersCloudPatrol"@) == (24nat, 'l', 'o'));
    reveal_strlit("EV_SkylandersGiants");
    assert(spec_mark("EV_SkylandersGiants"@) == (19nat, 's', 't'));
    reveal_strlit("EV_SkylandersGiants_3DS");
    assert(spec_mark("EV_SkylandersGiants_3DS"@) == (23nat, 'S', 'D'));
    reveal_strlit("EV_SkylandersLostIslands");
    assert(spec_mark("EV_SkylandersLostIslands"@) == (24nat, 's', 'd'));
    reveal_strlit("EV_SkylandersSwapForce");
    assert(spec_mark("EV_SkylandersSwapForce"@) == (22nat, 'e', 'c'));
    reveal_strlit("EV_SkylandersSwapForce_3DS");
    assert(spec_mark("EV_SkylandersSwapForce_3DS"@) == (26nat, 'S', 'D'));
    reveal_strlit("EV_SkylandersTrapTeam");
    assert(spec_mark("EV_SkylandersTrapTeam"@) == (21nat, 'm', 'a'));
    reveal_strlit("EV_SkylandersTrapTeam_3DS");
    assert(spec_mark("EV_SkylandersTrapTeam_3DS"@) == (25nat, 'S', 'D'));
    reveal_strlit("EV_SkylandersSuperchargers");
    assert(spec_mark("EV_SkylandersSuperchargers"@) == (26nat, 's', 'r'));
    reveal_strlit("EV_SkylandersSuperchargersIos");
    assert(spec_mark("EV_SkylandersSuperchargersIos"@) == (29nat, 's', 'o'));
    reveal_strlit("EV_SkylandersImaginators");
    assert(spec_mark("EV_SkylandersImaginators"@) == (24nat, 's', 'r'));
    reveal_strlit("EV_SkylandersImaginatorsSwitch");
    assert(spec_mark("EV_SkylandersImaginatorsSwitch"@) == (30nat, 'h', 'c'));
    reveal_strlit("EV_CrashNSaneTrilogy");
    assert(spec_mark("EV_CrashNSaneTrilogy"@) == (20nat, 'y', 'g'));
    reveal_strlit("EV_CrashTeamRacingNitroFueled");
    assert(spec_mark("EV_CrashTeamRacingNitroFueled"@) == (29nat, 'd', 'e'));
}

/// Where the init script of a game lies, below the folder of the program.
pub open spec fn spec_init_script_path(game: EGame) -> Seq<char> {
    "ArkCore/"@ + spec_game_name(game) + "/initscript"@
}

/// Where the init script of a game lies: in the folder `ArkCore`, in a
/// folder of the game's name.
pub fn init_script_path(game: EGame) -> (path: String)
    ensures
        path@ == spec_init_script_path(game),
{
    let name = game_name(game);
    let folder = concat("ArkCore/", name.as_str());
    concat(folder.as_str(), "/initscript")
}

/// What is fixed once a game and a platform are chosen: the registry of the
/// game's types.
#[derive(Debug)]
pub struct igArkCore {
    pub metadata_manager: igMetadataManager,
    pub game: EGame,
    pub platform: IG_CORE_PLATFORM,
}

impl igArkCore {
    /// The core state of `game` on `platform`, with an empty registry of
    /// types.
    pub fn new(game: EGame, platform: IG_CORE_PLATFORM) -> (core: igArkCore)
        ensures
            core.game == game,
            core.platform == platform,
            core.metadata_manager.meta_objects@.len() == 0,
    {
        igArkCore { metadata_manager: igMetadataManager::new(), game, platform }
    }
}

} // verus!
