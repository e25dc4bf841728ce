//! Memory pools: the tag that every object and every section carries.

use crate::util::text::text_equal;
use vstd::prelude::*;

verus! {

/// The memory pool of a section or an object, named as in a container's
/// section table.
#[derive(Clone, Copy, Debug, PartialEq, Eq, Structural)]
pub enum igMemoryPool {
    Default,
    Bootstrap,
    System,
    Static,
    Current,
    Temporary,
    Fast,
    String,
    List,
    MetaData,
    Handles,
    Image,
    Vertex,
    VertexObject,
    Kernel,
    VRAM,
    MEM1,
    MEM2,
}

/// The pool that a name stands for, or `None` for a name that is no pool.
pub open spec fn spec_pool_from_name(name: Seq<char>) -> Option<igMemoryPool> {
    if name == "Default"@ {
        Some(igMemoryPool::Default)
    } else if name == "Bootstrap"@ {
        Some(igMemoryPool::Bootstrap)
    } else if name == "System"@ {
        Some(igMemoryPool::System)
    } else if name == "Static"@ {
        Some(igMemoryPool::Static)
    } else if name == "Current"@ {
        Some(igMemoryPool::Current)
    } else if name == "Temporary"@ {
        Some(igMemoryPool::Temporary)
    } else if name == "Fast"@ {
        Some(igMemoryPool::Fast)
    } else if name == "String"@ {
        Some(igMemoryPool::String)
    } else if name == "List"@ {
        Some(igMemoryPool::List)
    } else if name == "MetaData"@ {
        Some(igMemoryPool::MetaData)
    } else if name == "Handles"@ {
        Some(igMemoryPool::Handles)
    } else if name == "Image"@ {
        Some(igMemoryPool::Image)
    } else if name == "Vertex"@ {
        Some(igMemoryPool::Vertex)
    } else if name == "VertexObject"@ {
        Some(igMemoryPool::VertexObject)
    } else if name == "Kernel"@ {
        Some(igMemoryPool::Kernel)
    } else if name == "VRAM"@ {
        Some(igMemoryPool::VRAM)
    } else if name == "MEM1"@ {
        Some(igMemoryPool::MEM1)
    } else if name == "MEM2"@ {
        Some(igMemoryPool::MEM2)
    } else {
        None
    }
}

impl igMemoryPool {
    /// Parses a pool name. Names are case-sensitive.
    pub fn from_str(name: &str) -> (pool: Option<igMemoryPool>)
        ensures
            pool == spec_pool_from_name(name@),
    {
        if text_equal(name, "Default") {
            Some(igMemoryPool::Default)
        } else if text_equal(name, "Bootstrap") {
            Some(igMemoryPool::Bootstrap)
        } else if text_equal(name, "System") {
            Some(igMemoryPool::System)
        } else if text_equal(name, "Static") {
            Some(igMemoryPool::Static)
        } else if text_equal(name, "Current") {
            Some(igMemoryPool::Current)
        } else if text_equal(name, "Temporary") {
            Some(igMemoryPool::Temporary)
        } else if text_equal(name, "Fast") {
            Some(igMemoryPool::Fast)
        } else if text_equal(name, "String") {
            Some(igMemoryPool::String)
        } else if text_equal(name, "List") {
            Some(igMemoryPool::List)
        } else if text_equal(name, "MetaData") {
            Some(igMemoryPool::MetaData)
        } else if text_equal(name, "Handles") {
            Some(igMemoryPool::Handles)
        } else if text_equal(name, "Image") {
            Some(igMemoryPool::Image)
        } else if text_equal(name, "Vertex") {
            Some(igMemoryPool::Vertex)
        } else if text_equal(name, "VertexObject") {
            Some(igMemoryPool::VertexObject)
        } else if text_equal(name, "Kernel") {
            Some(igMemoryPool::Kernel)
        } else if text_equal(name, "VRAM") {
            Some(igMemoryPool::VRAM)
        } else if text_equal(name, "MEM1") {
            Some(igMemoryPool::MEM1)
        } else if text_equal(name, "MEM2") {
            Some(igMemoryPool::MEM2)
        } else {
            None
        }
    }
}

/// The pools into which packages are cached, by purpose.
#[derive(Clone, Copy, Debug, PartialEq, Eq, Structural)]
pub enum EMemoryPoolID {
    MP_DEFAULT,
    MP_SYSTEM,
    MP_STATIC,
    MP_TEMPORARY,
    MP_PERSISTENT,
    MP_LEVEL,
    MP_ACTOR,
    MP_RENDER,
}

/// Number of pools of `EMemoryPoolID`.
pub const MP_POOL_COUNT: usize = 8;

impl EMemoryPoolID {
    /// Position of the pool in the list of pools.
    pub open spec fn spec_index(self) -> int {
        match self {
            EMemoryPoolID::MP_DEFAULT => 0,
            EMemoryPoolID::MP_SYSTEM => 1,
            EMemoryPoolID::MP_STATIC => 2,
            EMemoryPoolID::MP_TEMPORARY => 3,
            EMemoryPoolID::MP_PERSISTENT => 4,
            EMemoryPoolID::MP_LEVEL => 5,
            EMemoryPoolID::MP_ACTOR => 6,
            EMemoryPoolID::MP_RENDER => 7,
        }
    }

    /// Position of the pool in the list of pools.
    pub fn index(self) -> (i: usize)
        ensures
            i == self.spec_index(),
            i < MP_POOL_COUNT,
    {
        match self {
            EMemoryPoolID::MP_DEFAULT => 0,
            EMemoryPoolID::MP_SYSTEM => 1,
            EMemoryPoolID::MP_STATIC => 2,
            EMemoryPoolID::MP_TEMPORARY => 3,
            EMemoryPoolID::MP_PERSISTENT => 4,
            EMemoryPoolID::MP_LEVEL => 5,
            EMemoryPoolID::MP_ACTOR => 6,
            EMemoryPoolID::MP_RENDER => 7,
        }
    }
}

} // verus!
