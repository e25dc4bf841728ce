//! Target platforms and byte order.

use crate::util::text::{spec_mark, text_equal};
use vstd::prelude::*;

verus! {

/// Byte order of a container, selected by its magic number.
#[derive(Clone, Copy, Debug, PartialEq, Eq, Structural)]
pub enum Endian {
    Unknown,
    Little,
    Big,
}

/// The platform a container was built for.
///
/// The position of a variant in this list is the number that stands for it in
/// a container header.
#[derive(Clone, Copy, Debug, PartialEq, Eq, Structural)]
pub enum IG_CORE_PLATFORM {
    IG_CORE_PLATFORM_DEFAULT,
    IG_CORE_PLATFORM_WIN32,
    IG_CORE_PLATFORM_WII,
    IG_CORE_PLATFORM_DURANGO,
    IG_CORE_PLATFORM_ASPEN,
    IG_CORE_PLATFORM_XENON,
    IG_CORE_PLATFORM_PS3,
    IG_CORE_PLATFORM_OSX,
    IG_CORE_PLATFORM_WIN64,
    IG_CORE_PLATFORM_CAFE,
    IG_CORE_PLATFORM_RASPI,
    IG_CORE_PLATFORM_ANDROID,
    IG_CORE_PLATFORM_ASPEN64,
    IG_CORE_PLATFORM_LGTV,
    IG_CORE_PLATFORM_PS4,
    IG_CORE_PLATFORM_WP8,
    IG_CORE_PLATFORM_LINUX,
    IG_CORE_PLATFORM_NX,
    IG_CORE_PLATFORM_NGP,
    IG_CORE_PLATFORM_MARMALADE,
    IG_CORE_PLATFORM_DEPRECATED,
}

/// The name of a platform, as configuration files and folders write it.
pub open spec fn spec_platform_name(platform: IG_CORE_PLATFORM) -> Seq<char> {
    match platform {
        IG_CORE_PLATFORM::IG_CORE_PLATFORM_DEFAULT => "IG_CORE_PLATFORM_DEFAULT"@,
        IG_CORE_PLATFORM::IG_CORE_PLATFORM_WIN32 => "IG_CORE_PLATFORM_WIN32"@,
        IG_CORE_PLATFORM::IG_CORE_PLATFORM_WII => "IG_CORE_PLATFORM_WII"@,
        IG_CORE_PLATFORM::IG_CORE_PLATFORM_DURANGO => "IG_CORE_PLATFORM_DURANGO"@,
        IG_CORE_PLATFORM::IG_CORE_PLATFORM_ASPEN => "IG_CORE_PLATFORM_ASPEN"@,
        IG_CORE_PLATFORM::IG_CORE_PLATFORM_XENON => "IG_CORE_PLATFORM_XENON"@,
        IG_CORE_PLATFORM::IG_CORE_PLATFORM_PS3 => "IG_CORE_PLATFORM_PS3"@,
        IG_CORE_PLATFORM::IG_CORE_PLATFORM_OSX => "IG_CORE_PLATFORM_OSX"@,
        IG_CORE_PLATFORM::IG_CORE_PLATFORM_WIN64 => "IG_CORE_PLATFORM_WIN64"@,
        IG_CORE_PLATFORM::IG_CORE_PLATFORM_CAFE => "IG_CORE_PLATFORM_CAFE"@,
        IG_CORE_PLATFORM::IG_CORE_PLATFORM_RASPI => "IG_CORE_PLATFORM_RASPI"@,
        IG_CORE_PLATFORM::IG_CORE_PLATFORM_ANDROID => "IG_CORE_PLATFORM_ANDROID"@,
        IG_CORE_PLATFORM::IG_CORE_PLATFORM_ASPEN64 => "IG_CORE_PLATFORM_ASPEN64"@,
        IG_CORE_PLATFORM::IG_CORE_PLATFORM_LGTV => "IG_CORE_PLATFORM_LGTV"@,
        IG_CORE_PLATFORM::IG_CORE_PLATFORM_PS4 => "IG_CORE_PLATFORM_PS4"@,
        IG_CORE_PLATFORM::IG_CORE_PLATFORM_WP8 => "IG_CORE_PLATFORM_WP8"@,
        IG_CORE_PLATFORM::IG_CORE_PLATFORM_LINUX => "IG_CORE_PLATFORM_LINUX"@,
        IG_CORE_PLATFORM::IG_CORE_PLATFORM_NX => "IG_CORE_PLATFORM_NX"@,
        IG_CORE_PLATFORM::IG_CORE_PLATFORM_NGP => "IG_CORE_PLATFORM_NGP"@,
        IG_CORE_PLATFORM::IG_CORE_PLATFORM_MARMALADE => "IG_CORE_PLATFORM_MARMALADE"@,
        IG_CORE_PLATFORM::IG_CORE_PLATFORM_DEPRECATED => "IG_CORE_PLATFORM_DEPRECATED"@,
    }
}

/// The platform that a name stands for, or `None` for a name of no platform.
pub open spec fn spec_platform_from_name(name: Seq<char>) -> Option<IG_CORE_PLATFORM> {
    if name == "IG_CORE_PLATFORM_DEFAULT"@ {
        Some(IG_CORE_PLATFORM::IG_CORE_PLATFORM_DEFAULT)
    } else if name == "IG_CORE_PLATFORM_WIN32"@ {
        Some(IG_CORE_PLATFORM::IG_CORE_PLATFORM_WIN32)
    } else if name == "IG_CORE_PLATFORM_WII"@ {
        Some(IG_CORE_PLATFORM::IG_CORE_PLATFORM_WII)
    } else if name == "IG_CORE_PLATFORM_DURANGO"@ {
        Some(IG_CORE_PLATFORM::IG_CORE_PLATFORM_DURANGO)
    } else if name == "IG_CORE_PLATFORM_ASPEN"@ {
        Some(IG_CORE_PLATFORM::IG_CORE_PLATFORM_ASPEN)
    } else if name == "IG_CORE_PLATFORM_XENON"@ {
        Some(IG_CORE_PLATFORM::IG_CORE_PLATFORM_XENON)
    } else if name == "IG_CORE_PLATFORM_PS3"@ {
        Some(IG_CORE_PLATFORM::IG_CORE_PLATFORM_PS3)
    } else if name == "IG_CORE_PLATFORM_OSX"@ {
        Some(IG_CORE_PLATFORM::IG_CORE_PLATFORM_OSX)
    } else if name == "IG_CORE_PLATFORM_WIN64"@ {
        Some(IG_CORE_PLATFORM::IG_CORE_PLATFORM_WIN64)
    } else if name == "IG_CORE_PLATFORM_CAFE"@ {
        Some(IG_CORE_PLATFORM::IG_CORE_PLATFORM_CAFE)
    } else if name == "IG_CORE_PLATFORM_RASPI"@ {
        Some(IG_CORE_PLATFORM::IG_CORE_PLATFORM_RASPI)
    } else if name == "IG_CORE_PLATFORM_ANDROID"@ {
        Some(IG_CORE_PLATFORM::IG_CORE_PLATFORM_ANDROID)
    } else if name == "IG_CORE_PLATFORM_ASPEN64"@ {
        Some(IG_CORE_PLATFORM::IG_CORE_PLATFORM_ASPEN64)
    } else if name == "IG_CORE_PLATFORM_LGTV"@ {
        Some(IG_CORE_PLATFORM::IG_CORE_PLATFORM_LGTV)
    } else if name == "IG_CORE_PLATFORM_PS4"@ {
        Some(IG_CORE_PLATFORM::IG_CORE_PLATFORM_PS4)
    } else if name == "IG_CORE_PLATFORM_WP8"@ {
        Some(IG_CORE_PLATFORM::IG_CORE_PLATFORM_WP8)
    } else if name == "IG_CORE_PLATFORM_LINUX"@ {
        Some(IG_CORE_PLATFORM::IG_CORE_PLATFORM_LINUX)
    } else if name == "IG_CORE_PLATFORM_NX"@ {
        Some(IG_CORE_PLATFORM::IG_CORE_PLATFORM_NX)
    } else if name == "IG_CORE_PLATFORM_NGP"@ {
        Some(IG_CORE_PLATFORM::IG_CORE_PLATFORM_NGP)
    } else if name == "IG_CORE_PLATFORM_MARMALADE"@ {
        Some(IG_CORE_PLATFORM::IG_CORE_PLATFORM_MARMALADE)
    } else if name == "IG_CORE_PLATFORM_DEPRECATED"@ {
        Some(IG_CORE_PLATFORM::IG_CORE_PLATFORM_DEPRECATED)
    } else {
        None
    }
}

/// The name of a platform.
pub fn platform_name(platform: IG_CORE_PLATFORM) -> (name: String)
    ensures
        name@ == spec_platform_name(platform),
{
    match platform {
        IG_CORE_PLATFORM::IG_CORE_PLATFORM_DEFAULT => "IG_CORE_PLATFORM_DEFAULT".to_owned(),
        IG_CORE_PLATFORM::IG_CORE_PLATFORM_WIN32 => "IG_CORE_PLATFORM_WIN32".to_owned(),
        IG_CORE_PLATFORM::IG_CORE_PLATFORM_WII => "IG_CORE_PLATFORM_WII".to_owned(),
        IG_CORE_PLATFORM::IG_CORE_PLATFORM_DURANGO => "IG_CORE_PLATFORM_DURANGO".to_owned(),
        IG_CORE_PLATFORM::IG_CORE_PLATFORM_ASPEN => "IG_CORE_PLATFORM_ASPEN".to_owned(),
        IG_CORE_PLATFORM::IG_CORE_PLATFORM_XENON => "IG_CORE_PLATFORM_XENON".to_owned(),
        IG_CORE_PLATFORM::IG_CORE_PLATFORM_PS3 => "IG_CORE_PLATFORM_PS3".to_owned(),
        IG_CORE_PLATFORM::IG_CORE_PLATFORM_OSX => "IG_CORE_PLATFORM_OSX".to_owned(),
        IG_CORE_PLATFORM::IG_CORE_PLATFORM_WIN64 => "IG_CORE_PLATFORM_WIN64".to_owned(),
        IG_CORE_PLATFORM::IG_CORE_PLATFORM_CAFE => "IG_CORE_PLATFORM_CAFE".to_owned(),
        IG_CORE_PLATFORM::IG_CORE_PLATFORM_RASPI => "IG_CORE_PLATFORM_RASPI".to_owned(),
        IG_CORE_PLATFORM::IG_CORE_PLATFORM_ANDROID => "IG_CORE_PLATFORM_ANDROID".to_owned(),
        IG_CORE_PLATFORM::IG_CORE_PLATFORM_ASPEN64 => "IG_CORE_PLATFORM_ASPEN64".to_owned(),
        IG_CORE_PLATFORM::IG_CORE_PLATFORM_LGTV => "IG_CORE_PLATFORM_LGTV".to_owned(),
        IG_CORE_PLATFORM::IG_CORE_PLATFORM_PS4 => "IG_CORE_PLATFORM_PS4".to_owned(),
        IG_CORE_PLATFORM::IG_CORE_PLATFORM_WP8 => "IG_CORE_PLATFORM_WP8".to_owned(),
        IG_CORE_PLATFORM::IG_CORE_PLATFORM_LINUX => "IG_CORE_PLATFORM_LINUX".to_owned(),
        IG_CORE_PLATFORM::IG_CORE_PLATFORM_NX => "IG_CORE_PLATFORM_NX".to_owned(),
        IG_CORE_PLATFORM::IG_CORE_PLATFORM_NGP => "IG_CORE_PLATFORM_NGP".to_owned(),
        IG_CORE_PLATFORM::IG_CORE_PLATFORM_MARMALADE => "IG_CORE_PLATFORM_MARMALADE".to_owned(),
        IG_CORE_PLATFORM::IG_CORE_PLATFORM_DEPRECATED => "IG_CORE_PLATFORM_DEPRECATED".to_owned(),
    }
}

/// Parses the name of a platform. Names are case-sensitive.
pub fn platform_from_name(name: &str) -> (platform: Option<IG_CORE_PLATFORM>)
    ensures
        platform == spec_platform_from_name(name@),
{
    if text_equal(name, "IG_CORE_PLATFORM_DEFAULT") {
        Some(IG_CORE_PLATFORM::IG_CORE_PLATFORM_DEFAULT)
    } else if text_equal(name, "IG_CORE_PLATFORM_WIN32") {
        Some(IG_CORE_PLATFORM::IG_CORE_PLATFORM_WIN32)
    } else if text_equal(name, "IG_CORE_PLATFORM_WII") {
        Some(IG_CORE_PLATFORM::IG_CORE_PLATFORM_WII)
    } else if text_equal(name, "IG_CORE_PLATFORM_DURANGO") {
        Some(IG_CORE_PLATFORM::IG_CORE_PLATFORM_DURANGO)
    } else if text_equal(name, "IG_CORE_PLATFORM_ASPEN") {
        Some(IG_CORE_PLATFORM::IG_CORE_PLATFORM_ASPEN)
    } else if text_equal(name, "IG_CORE_PLATFORM_XENON") {
        Some(IG_CORE_PLATFORM::IG_CORE_PLATFORM_XENON)
    } else if text_equal(name, "IG_CORE_PLATFORM_PS3") {
        Some(IG_CORE_PLATFORM::IG_CORE_PLATFORM_PS3)
    } else if text_equal(name, "IG_CORE_PLATFORM_OSX") {
        Some(IG_CORE_PLATFORM::IG_CORE_PLATFORM_OSX)
    } else if text_equal(name, "IG_CORE_PLATFORM_WIN64") {
        Some(IG_CORE_PLATFORM::IG_CORE_PLATFORM_WIN64)
    } else if text_equal(name, "IG_CORE_PLATFORM_CAFE") {
        Some(IG_CORE_PLATFORM::IG_CORE_PLATFORM_CAFE)
    } else if text_equal(name, "IG_CORE_PLATFORM_RASPI") {
        Some(IG_CORE_PLATFORM::IG_CORE_PLATFORM_RASPI)
    } else if text_equal(name, "IG_CORE_PLATFORM_ANDROID") {
        Some(IG_CORE_PLATFORM::IG_CORE_PLATFORM_ANDROID)
    } else if text_equal(name, "IG_CORE_PLATFORM_ASPEN64") {
        Some(IG_CORE_PLATFORM::IG_CORE_PLATFORM_ASPEN64)
    } else if text_equal(name, "IG_CORE_PLATFORM_LGTV") {
        Some(IG_CORE_PLATFORM::IG_CORE_PLATFORM_LGTV)
    } else if text_equal(name, "IG_CORE_PLATFORM_PS4") {
        Some(IG_CORE_PLATFORM::IG_CORE_PLATFORM_PS4)
    } else if text_equal(name, "IG_CORE_PLATFORM_WP8") {
        Some(IG_CORE_PLATFORM::IG_CORE_PLATFORM_WP8)
    } else if text_equal(name, "IG_CORE_PLATFORM_LINUX") {
        Some(IG_CORE_PLATFORM::IG_CORE_PLATFORM_LINUX)
    } else if text_equal(name, "IG_CORE_PLATFORM_NX") {
        Some(IG_CORE_PLATFORM::IG_CORE_PLATFORM_NX)
    } else if text_equal(name, "IG_CORE_PLATFORM_NGP") {
        Some(IG_CORE_PLATFORM::IG_CORE_PLATFORM_NGP)
    } else if text_equal(name, "IG_CORE_PLATFORM_MARMALADE") {
        Some(IG_CORE_PLATFORM::IG_CORE_PLATFORM_MARMALADE)
    } else if text_equal(name, "IG_CORE_PLATFORM_DEPRECATED") {
        Some(IG_CORE_PLATFORM::IG_CORE_PLATFORM_DEPRECATED)
    } else {
        None
    }
}

/// A name written for a platform is read back as that platform.
pub proof fn lemma_platform_name_roundtrip(platform: IG_CORE_PLATFORM)
    ensures
        spec_platform_from_name(spec_platform_name(platform)) == Some(platform),
{
    reveal_strlit("IG_CORE_PLATFORM_DEFAULT");
    assert(spec_mark("IG_CORE_PLATFORM_DEFAULT"@) == (24nat, 'T', 'L'));
    reveal_strlit("IG_CORE_PLATFORM_WIN32");
    assert(spec_mark("IG_CORE_PLATFORM_WIN32"@) == (22nat, '2', '3'));
    reveal_strlit("IG_CORE_PLATFORM_WII");
    assert(spec_mark("IG_CORE_PLATFORM_WII"@) == (20nat, 'I', 'I'));
    reveal_strlit("IG_CORE_PLATFORM_DURANGO");
    assert(spec_mark("IG_CORE_PLATFORM_DURANGO"@) == (24nat, 'O', 'G'));
    reveal_strlit("IG_CORE_PLATFORM_ASPEN");
    assert(spec_mark("IG_CORE_PLATFORM_ASPEN"@) == (22nat, 'N', 'E'));
    reveal_strlit("IG_CORE_PLATFORM_XENON");
    assert(spec_mark("IG_CORE_PLATFORM_XENON"@) == (22nat, 'N', 'O'));
    reveal_strlit("IG_CORE_PLATFORM_PS3");
    assert(spec_mark("IG_CORE_PLATFORM_PS3"@) == (20nat, '3', 'S'));
    reveal_strlit("IG_CORE_PLATFORM_OSX");
    assert(spec_mark("IG_CORE_PLATFORM_OSX"@) == (20nat, 'X', 'S'));
    reveal_strlit("IG_CORE_PLATFORM_WIN64");
    assert(spec_mark("IG_CORE_PLATFORM_WIN64"@) == (22nat, '4', '6'));
    reveal_strlit("IG_CORE_PLATFORM_CAFE");
    assert(spec_mark("IG_CORE_PLATFORM_CAFE"@) == (21nat, 'E', 'F'));
    reveal_strlit("IG_CORE_PLATFORM_RASPI");
    assert(spec_mark("IG_CORE_PLATFORM_RASPI"@) == (22nat, 'I', 'P'));
    reveal_strlit("IG_CORE_PLATFORM_ANDROID");
    assert(spec_mark("IG_CORE_PLATFORM_ANDROID"@) == (24nat, 'D', 'I'));
    reveal_strlit("IG_CORE_PLATFORM_ASPEN64");
    assert(spec_mark("IG_CORE_PLATFORM_ASPEN64"@) == (24nat, '4', '6'));
    reveal_strlit("IG_CORE_PLATFORM_LGTV");
    assert(spec_mark("IG_CORE_PLATFORM_LGTV"@) == (21nat, 'V', 'T'));
    reveal_strlit("IG_CORE_PLATFORM_PS4");
    assert(spec_mark("IG_CORE_PLATFORM_PS4"@) == (20nat, '4', 'S'));
    reveal_strlit("IG_CORE_PLATFORM_WP8");
    assert(spec_mark("IG_CORE_PLATFORM_WP8"@) == (20nat, '8', 'P'));
    reveal_strlit("IG_CORE_PLATFORM_LINUX");
    assert(spec_mark("IG_CORE_PLATFORM_LINUX"@) == (22nat, 'X', 'U'));
    reveal_strlit("IG_CORE_PLATFORM_NX");
    assert(spec_mark("IG_CORE_PLATFORM_NX"@) == (19nat, 'X', 'N'));
    reveal_strlit("IG_CORE_PLATFORM_NGP");
    assert(spec_mark("IG_CORE_PLATFORM_NGP"@) == (20nat, 'P', 'G'));
    reveal_strlit("IG_CORE_PLATFORM_MARMALADE");
    assert(spec_mark("IG_CORE_PLATFORM_MARMALADE"@) == (26nat, 'E', 'D'));
    reveal_strlit("IG_CORE_PLATFORM_DEPRECATED");
    assert(spec_mark("IG_CORE_PLATFORM_DEPRECATED"@) == (27nat, 'D', 'E'));
}

/// The platform that the number `index` stands for.
pub open spec fn spec_platform_from_index(index: u32) -> Option<IG_CORE_PLATFORM> {
    if index == 0 {
        Some(IG_CORE_PLATFORM::IG_CORE_PLATFORM_DEFAULT)
    } else if index == 1 {
        Some(IG_CORE_PLATFORM::IG_CORE_PLATFORM_WIN32)
    } else if index == 2 {
        Some(IG_CORE_PLATFORM::IG_CORE_PLATFORM_WII)
    } else if index == 3 {
        Some(IG_CORE_PLATFORM::IG_CORE_PLATFORM_DURANGO)
    } else if index == 4 {
        Some(IG_CORE_PLATFORM::IG_CORE_PLATFORM_ASPEN)
    } else if index == 5 {
        Some(IG_CORE_PLATFORM::IG_CORE_PLATFORM_XENON)
    } else if index == 6 {
        Some(IG_CORE_PLATFORM::IG_CORE_PLATFORM_PS3)
    } else if index == 7 {
        Some(IG_CORE_PLATFORM::IG_CORE_PLATFORM_OSX)
    } else if index == 8 {
        Some(IG_CORE_PLATFORM::IG_CORE_PLATFORM_WIN64)
    } else if index == 9 {
        Some(IG_CORE_PLATFORM::IG_CORE_PLATFORM_CAFE)
    } else if index == 10 {
        Some(IG_CORE_PLATFORM::IG_CORE_PLATFORM_RASPI)
    } else if index == 11 {
        Some(IG_CORE_PLATFORM::IG_CORE_PLATFORM_ANDROID)
    } else if index == 12 {
        Some(IG_CORE_PLATFORM::IG_CORE_PLATFORM_ASPEN64)
    } else if index == 13 {
        Some(IG_CORE_PLATFORM::IG_CORE_PLATFORM_LGTV)
    } else if index == 14 {
        Some(IG_CORE_PLATFORM::IG_CORE_PLATFORM_PS4)
    } else if index == 15 {
        Some(IG_CORE_PLATFORM::IG_CORE_PLATFORM_WP8)
    } else if index == 16 {
        Some(IG_CORE_PLATFORM::IG_CORE_PLATFORM_LINUX)
    } else if index == 17 {
        Some(IG_CORE_PLATFORM::IG_CORE_PLATFORM_NX)
    } else if index == 18 {
        Some(IG_CORE_PLATFORM::IG_CORE_PLATFORM_NGP)
    } else if index == 19 {
        Some(IG_CORE_PLATFORM::IG_CORE_PLATFORM_MARMALADE)
    } else if index == 20 {
        Some(IG_CORE_PLATFORM::IG_CORE_PLATFORM_DEPRECATED)
    } else {
        None
    }
}

/// Decodes the platform field of a container header.
pub fn platform_from_index(index: u32) -> (platform: Option<IG_CORE_PLATFORM>)
    ensures
        platform == spec_platform_from_index(index),
{
    match index {
        0 => Some(IG_CORE_PLATFORM::IG_CORE_PLATFORM_DEFAULT),
        1 => Some(IG_CORE_PLATFORM::IG_CORE_PLATFORM_WIN32),
        2 => Some(IG_CORE_PLATFORM::IG_CORE_PLATFORM_WII),
        3 => Some(IG_CORE_PLATFORM::IG_CORE_PLATFORM_DURANGO),
        4 => Some(IG_CORE_PLATFORM::IG_CORE_PLATFORM_ASPEN),
        5 => Some(IG_CORE_PLATFORM::IG_CORE_PLATFORM_XENON),
        6 => Some(IG_CORE_PLATFORM::IG_CORE_PLATFORM_PS3),
        7 => Some(IG_CORE_PLATFORM::IG_CORE_PLATFORM_OSX),
        8 => Some(IG_CORE_PLATFORM::IG_CORE_PLATFORM_WIN64),
        9 => Some(IG_CORE_PLATFORM::IG_CORE_PLATFORM_CAFE),
        10 => Some(IG_CORE_PLATFORM::IG_CORE_PLATFORM_RASPI),
        11 => Some(IG_CORE_PLATFORM::IG_CORE_PLATFORM_ANDROID),
        12 => Some(IG_CORE_PLATFORM::IG_CORE_PLATFORM_ASPEN64),
        13 => Some(IG_CORE_PLATFORM::IG_CORE_PLATFORM_LGTV),
        14 => Some(IG_CORE_PLATFORM::IG_CORE_PLATFORM_PS4),
        15 => Some(IG_CORE_PLATFORM::IG_CORE_PLATFORM_WP8),
        16 => Some(IG_CORE_PLATFORM::IG_CORE_PLATFORM_LINUX),
        17 => Some(IG_CORE_PLATFORM::IG_CORE_PLATFORM_NX),
        18 => Some(IG_CORE_PLATFORM::IG_CORE_PLATFORM_NGP),
        19 => Some(IG_CORE_PLATFORM::IG_CORE_PLATFORM_MARMALADE),
        20 => Some(IG_CORE_PLATFORM::IG_CORE_PLATFORM_DEPRECATED),
        _ => None,
    }
}

/// Whether pointers and sizes take eight bytes on `platform` (four otherwise).
pub open spec fn spec_is_64bit(platform: IG_CORE_PLATFORM) -> bool {
    platform == IG_CORE_PLATFORM::IG_CORE_PLATFORM_DURANGO
        || platform == IG_CORE_PLATFORM::IG_CORE_PLATFORM_OSX
        || platform == IG_CORE_PLATFORM::IG_CORE_PLATFORM_WIN64
        || platform == IG_CORE_PLATFORM::IG_CORE_PLATFORM_ASPEN64
        || platform == IG_CORE_PLATFORM::IG_CORE_PLATFORM_PS4
        || platform == IG_CORE_PLATFORM::IG_CORE_PLATFORM_LINUX
        || platform == IG_CORE_PLATFORM::IG_CORE_PLATFORM_NX
}

/// Whether pointers and sizes take eight bytes on `platform`.
pub fn is_64bit(platform: IG_CORE_PLATFORM) -> (wide: bool)
    ensures
        wide == spec_is_64bit(platform),
{
    match platform {
        IG_CORE_PLATFORM::IG_CORE_PLATFORM_DURANGO
        | IG_CORE_PLATFORM::IG_CORE_PLATFORM_OSX
        | IG_CORE_PLATFORM::IG_CORE_PLATFORM_WIN64
        | IG_CORE_PLATFORM::IG_CORE_PLATFORM_ASPEN64
        | IG_CORE_PLATFORM::IG_CORE_PLATFORM_PS4
        | IG_CORE_PLATFORM::IG_CORE_PLATFORM_LINUX
        | IG_CORE_PLATFORM::IG_CORE_PLATFORM_NX => true,
        _ => false,
    }
}

} // verus!
