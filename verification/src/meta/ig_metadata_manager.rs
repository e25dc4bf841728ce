//! The registry of type descriptors, and the creation of objects from them.

use crate::base::ig_core_platform::Endian;
use crate::base::ig_memory::igMemoryPool;
use crate::load::ig_igz_loader::IgzLoaderContext;
use crate::load::ig_load_error::igLoadError;
use crate::meta::ig_handle_meta_field::{
    igHandleMetaField, igMemoryRefMetaField, spec_handle_value, spec_memory_value,
};
use crate::meta::ig_object_ref_meta_field::{
    igObjectRefMetaField, spec_classify, spec_reference_value,
};
use crate::object::ig_handle::{igHandle, spec_resolved};
use crate::object::ig_objects::{
    igAny, igObject, igObjectContent, igObjectData, igObjectDirectoryId, igObjectStreamManager,
};
use crate::util::byteorder_fixes::{
    lemma_uint_bound, read_ptr, read_u16, read_u32, read_u64, read_u8, spec_ptr_width, spec_uint,
    ByteCursor,
};
use crate::util::ig_name::igName;
use crate::util::text::text_equal;
use vstd::prelude::*;

verus! {

/// The kinds of fields that can be decoded.
#[derive(Clone, Copy, Debug, PartialEq, Eq, Structural)]
pub enum igMetaFieldKind {
    U8,
    U16,
    U32,
    U64,
    I8,
    I16,
    I32,
    I64,
    F32,
    F64,
    Bool,
    /// An unsigned integer as wide as a pointer of the platform.
    SizeType,
    /// A 32-bit enumeration value.
    Enum,
    /// An index into the container's string table.
    StringRef,
    /// A reference to an object.
    ObjectRef,
    /// A reference to an object through a named handle.
    Handle,
    /// A reference to a block of memory of the file.
    MemoryHandle,
}

/// One field of a type: its name, its kind and where it lies in an object.
#[derive(Debug)]
pub struct igMetaFieldInfo {
    pub name: String,
    pub kind: igMetaFieldKind,
    /// Distance of the field from the start of the object, in bytes.
    pub offset: u32,
}

/// The shapes of objects that the engine itself reads.
#[derive(Clone, Copy, Debug, PartialEq, Eq, Structural)]
pub enum igMetaShape {
    /// Any type: a bag of fields.
    Fields,
    /// `igObjectList`.
    ObjectList,
    /// `igNameList`.
    NameList,
    /// `igStringRefList`.
    StringRefList,
}

/// A type descriptor.
#[derive(Debug)]
pub struct igMetaObject {
    pub name: String,
    /// Position of the parent type in the registry.
    pub parent: Option<usize>,
    pub shape: igMetaShape,
    pub fields: Vec<igMetaFieldInfo>,
}

/// Why an object could not be created.
#[derive(Debug)]
pub enum igMetaInstantiationError {
    /// The descriptor claims the shape of the named type without being it.
    TypeMismatchError(String),
    /// A field has no name under which a default could be installed.
    SetupDefaultFieldsError,
}

/// The name of the type that a shape belongs to; any name goes with a bag of
/// fields.
pub open spec fn spec_shape_name(shape: igMetaShape) -> Option<Seq<char>> {
    match shape {
        igMetaShape::Fields => None,
        igMetaShape::ObjectList => Some("igObjectList"@),
        igMetaShape::NameList => Some("igNameList"@),
        igMetaShape::StringRefList => Some("igStringRefList"@),
    }
}

/// Position of the first field without a name, at or after `from`; the
/// number of fields when every field has one.
pub open spec fn spec_first_nameless(fields: Seq<igMetaFieldInfo>, from: int) -> int
    decreases fields.len() - from,
{
    if from < 0 || from >= fields.len() {
        fields.len() as int
    } else if fields[from].name@.len() == 0 {
        from
    } else {
        spec_first_nameless(fields, from + 1)
    }
}

/// The content of a fresh object of a shape with `fields` fields: no field
/// set, no entry in a list.
pub open spec fn spec_fresh_content(shape: igMetaShape, fields: nat, content: igObjectContent)
    -> bool {
    match shape {
        igMetaShape::Fields => content matches igObjectContent::Fields(values) && values@.len()
            == fields && forall|i: int| 0 <= i < fields ==> (#[trigger] values@[i]).is_none(),
        igMetaShape::ObjectList => content matches igObjectContent::ObjectList(list)
            && list@.len() == 0,
        igMetaShape::NameList => content matches igObjectContent::NameList(list) && list@.len()
            == 0,
        igMetaShape::StringRefList => content matches igObjectContent::StringRefList(list)
            && list@.len() == 0,
    }
}

impl igMetaObject {
    /// Whether the descriptor is what its shape claims.
    pub open spec fn spec_shape_agrees(&self) -> bool {
        match spec_shape_name(self.shape) {
            Some(name) => self.name@ == name,
            None => true,
        }
    }

    /// Creates a fresh object of this type in `pool`, owned by the directory
    /// `owner`; `meta` is the position of the type in the registry.
    ///
    /// Fails with `TypeMismatchError`, naming the expected type, when the
    /// descriptor claims a shape that belongs to a type of another name.
    /// Unless `deferred_init` is set, it fails with `SetupDefaultFieldsError`
    /// when a field has no name.
    pub fn raw_instantiate(
        &self,
        meta: usize,
        pool: igMemoryPool,
        owner: igObjectDirectoryId,
        deferred_init: bool,
    ) -> (r: Result<igObjectData, igMetaInstantiationError>)
        ensures
            match r {
                Ok(object) => {
                    &&& self.spec_shape_agrees()
                    &&& deferred_init || spec_first_nameless(self.fields@, 0) == self.fields@.len()
                    &&& object.meta == meta
                    &&& object.pool == pool
                    &&& object.owner == owner
                    &&& spec_fresh_content(self.shape, self.fields@.len(), object.content)
                },
                Err(igMetaInstantiationError::TypeMismatchError(expected)) => {
                    &&& !self.spec_shape_agrees()
                    &&& Some(expected@) == spec_shape_name(self.shape)
                },
                Err(igMetaInstantiationError::SetupDefaultFieldsError) => {
                    &&& self.spec_shape_agrees()
                    &&& !deferred_init
                    &&& spec_first_nameless(self.fields@, 0) < self.fields@.len()
                },
            },
    {
        let expected: Option<&'static str> = match self.shape {
            igMetaShape::Fields => None,
            igMetaShape::ObjectList => Some("igObjectList"),
            igMetaShape::NameList => Some("igNameList"),
            igMetaShape::StringRefList => Some("igStringRefList"),
        };
        match expected {
            Some(name) => {
                if !text_equal(self.name.as_str(), name) {
                    return Err(igMetaInstantiationError::TypeMismatchError(name.to_owned()));
                }
            },
            None => {},
        }
        if !deferred_init {
            let mut i: usize = 0;
            while i < self.fields.len()
                invariant
                    i <= self.fields.len(),
                    self.spec_shape_agrees(),
                    !deferred_init,
                    spec_first_nameless(self.fields@, 0) == spec_first_nameless(
                        self.fields@,
                        i as int,
                    ),
                decreases self.fields.len() - i,
            {
                if self.fields[i].name.as_str().unicode_len() == 0 {
                    return Err(igMetaInstantiationError::SetupDefaultFieldsError);
                }
                i = i + 1;
            }
        }
        let content = match self.shape {
            igMetaShape::Fields => {
                let mut values: Vec<Option<crate::object::ig_objects::igAny>> = Vec::new();
                let mut k: usize = 0;
                while k < self.fields.len()
                    invariant
                        k <= self.fields.len(),
                        values@.len() == k,
                        forall|i: int| 0 <= i < k ==> (#[trigger] values@[i]).is_none(),
                    decreases self.fields.len() - k,
                {
                    values.push(None);
                    k = k + 1;
                }
                igObjectContent::Fields(values)
            },
            igMetaShape::ObjectList => igObjectContent::ObjectList(Vec::new()),
            igMetaShape::NameList => igObjectContent::NameList(Vec::new()),
            igMetaShape::StringRefList => igObjectContent::StringRefList(Vec::new()),
        };
        Ok(igObjectData { meta, pool, owner, content })
    }
}

/// Position of the first type named `name`, at or after `from`; the number
/// of types when there is none.
pub open spec fn spec_find_meta(metas: Seq<igMetaObject>, name: Seq<char>, from: int) -> int
    decreases metas.len() - from,
{
    if from < 0 || from >= metas.len() {
        metas.len() as int
    } else if metas[from].name@ == name {
        from
    } else {
        spec_find_meta(metas, name, from + 1)
    }
}

/// The registry of types, by name.
#[derive(Debug)]
pub struct igMetadataManager {
    pub meta_objects: Vec<igMetaObject>,
}

impl igMetadataManager {
    /// An empty registry.
    pub fn new() -> (manager: igMetadataManager)
        ensures
            manager.meta_objects@.len() == 0,
    {
        igMetadataManager { meta_objects: Vec::new() }
    }

    /// Registers a type behind those that are registered and returns its
    /// position.
    pub fn register(&mut self, meta: igMetaObject) -> (position: usize)
        ensures
            position == old(self).meta_objects@.len(),
            final(self).meta_objects@ == old(self).meta_objects@.push(meta),
    {
        self.meta_objects.push(meta);
        self.meta_objects.len() - 1
    }

    /// The position of the type named `name`: of the first, where several
    /// have that name.
    pub fn get_or_create_meta(&self, name: &str) -> (position: Option<usize>)
        ensures
            match position {
                Some(p) => p < self.meta_objects@.len() && p == spec_find_meta(
                    self.meta_objects@,
                    name@,
                    0,
                ),
                None => spec_find_meta(self.meta_objects@, name@, 0) == self.meta_objects@.len(),
            },
    {
        let mut i: usize = 0;
        while i < self.meta_objects.len()
            invariant
                i <= self.meta_objects.len(),
                spec_find_meta(self.meta_objects@, name@, 0) == spec_find_meta(
                    self.meta_objects@,
                    name@,
                    i as int,
                ),
            decreases self.meta_objects.len() - i,
        {
            if text_equal(self.meta_objects[i].name.as_str(), name) {
                return Some(i);
            }
            i = i + 1;
        }
        None
    }
}

/// Number of bytes that a field of a kind takes.
pub open spec fn spec_field_width(kind: igMetaFieldKind, ctx: IgzLoaderContext) -> nat {
    match kind {
        igMetaFieldKind::U8 | igMetaFieldKind::I8 | igMetaFieldKind::Bool => 1,
        igMetaFieldKind::U16 | igMetaFieldKind::I16 => 2,
        igMetaFieldKind::U32 | igMetaFieldKind::I32 | igMetaFieldKind::F32
        | igMetaFieldKind::Enum => 4,
        igMetaFieldKind::U64 | igMetaFieldKind::I64 | igMetaFieldKind::F64 => 8,
        igMetaFieldKind::SizeType | igMetaFieldKind::StringRef | igMetaFieldKind::ObjectRef
        | igMetaFieldKind::Handle | igMetaFieldKind::MemoryHandle => spec_ptr_width(ctx.platform),
    }
}

/// The signed reading of a number of `bits` bits.
pub open spec fn spec_signed(value: nat, half: nat) -> int {
    if value >= half {
        value - 2 * half
    } else {
        value as int
    }
}

/// The value of a field that holds the number `raw`, for the kinds whose
/// value is that number alone.
pub open spec fn spec_plain_value(kind: igMetaFieldKind, raw: nat) -> Option<igAny> {
    match kind {
        igMetaFieldKind::U8 | igMetaFieldKind::U16 | igMetaFieldKind::U32 | igMetaFieldKind::U64
        | igMetaFieldKind::SizeType | igMetaFieldKind::Enum => Some(igAny::Unsigned(raw as u64)),
        igMetaFieldKind::I8 => Some(igAny::Signed(spec_signed(raw, 0x80) as i64)),
        igMetaFieldKind::I16 => Some(igAny::Signed(spec_signed(raw, 0x8000) as i64)),
        igMetaFieldKind::I32 => Some(igAny::Signed(spec_signed(raw, 0x8000_0000) as i64)),
        igMetaFieldKind::I64 => Some(
            igAny::Signed(spec_signed(raw, 0x8000_0000_0000_0000) as i64),
        ),
        igMetaFieldKind::F32 => Some(igAny::Float32Bits(raw as u32)),
        igMetaFieldKind::F64 => Some(igAny::Float64Bits(raw as u64)),
        igMetaFieldKind::Bool => Some(igAny::Boolean(raw != 0)),
        igMetaFieldKind::StringRef | igMetaFieldKind::ObjectRef | igMetaFieldKind::Handle
        | igMetaFieldKind::MemoryHandle => None,
    }
}

/// Whether the value of a field of a kind is the number it holds alone.
pub open spec fn spec_is_plain(kind: igMetaFieldKind) -> bool {
    kind != igMetaFieldKind::StringRef && kind != igMetaFieldKind::ObjectRef && kind
        != igMetaFieldKind::Handle && kind != igMetaFieldKind::MemoryHandle
}

/// Reads the number that a field of a kind holds.
fn read_raw(kind: igMetaFieldKind, handle: &mut ByteCursor, endian: Endian, ctx: &IgzLoaderContext)
    -> (r: Option<u64>)
    requires
        kind != igMetaFieldKind::ObjectRef,
    ensures
        final(handle).data == old(handle).data,
        match r {
            Some(raw) => old(handle).spec_remaining() >= spec_field_width(kind, *ctx) && raw
                == spec_uint(
                old(handle).data@,
                old(handle).position as int,
                spec_field_width(kind, *ctx),
                endian,
            ) && final(handle).position == old(handle).position + spec_field_width(kind, *ctx),
            None => old(handle).spec_remaining() < spec_field_width(kind, *ctx)
                && final(handle).position == old(handle).position,
        },
{
    proof {
        lemma_uint_bound(handle.data@, handle.position as int, 1, endian);
        lemma_uint_bound(handle.data@, handle.position as int, 2, endian);
        lemma_uint_bound(handle.data@, handle.position as int, 4, endian);
        lemma_uint_bound(handle.data@, handle.position as int, 8, endian);
        reveal_with_fuel(crate::util::byteorder_fixes::spec_le, 2);
        reveal_with_fuel(crate::util::byteorder_fixes::spec_be, 2);
    }
    match kind {
        igMetaFieldKind::U8 | igMetaFieldKind::I8 | igMetaFieldKind::Bool => match read_u8(
            handle,
        ) {
            Ok(v) => Some(v as u64),
            Err(_) => None,
        },
        igMetaFieldKind::U16 | igMetaFieldKind::I16 => match read_u16(handle, endian) {
            Ok(v) => Some(v as u64),
            Err(_) => None,
        },
        igMetaFieldKind::U32 | igMetaFieldKind::I32 | igMetaFieldKind::F32
        | igMetaFieldKind::Enum => match read_u32(handle, endian) {
            Ok(v) => Some(v as u64),
            Err(_) => None,
        },
        igMetaFieldKind::U64 | igMetaFieldKind::I64 | igMetaFieldKind::F64 => match read_u64(
            handle,
            endian,
        ) {
            Ok(v) => Some(v),
            Err(_) => None,
        },
        _ => match read_ptr(handle, ctx.platform, endian) {
            Ok(v) => Some(v),
            Err(_) => None,
        },
    }
}

/// The value of a plain field from the number it holds.
fn plain_value(kind: igMetaFieldKind, raw: u64) -> (value: Option<igAny>)
    requires
        kind == igMetaFieldKind::U8 || kind == igMetaFieldKind::I8 || kind == igMetaFieldKind::Bool
            ==> raw < 0x100,
        kind == igMetaFieldKind::U16 || kind == igMetaFieldKind::I16 ==> raw < 0x1_0000,
        kind == igMetaFieldKind::U32 || kind == igMetaFieldKind::I32 || kind
            == igMetaFieldKind::F32 || kind == igMetaFieldKind::Enum ==> raw < 0x1_0000_0000,
    ensures
        value == spec_plain_value(kind, raw as nat),
{
    match kind {
        igMetaFieldKind::U8 | igMetaFieldKind::U16 | igMetaFieldKind::U32 | igMetaFieldKind::U64
        | igMetaFieldKind::SizeType | igMetaFieldKind::Enum => Some(igAny::Unsigned(raw)),
        igMetaFieldKind::I8 => Some(
            igAny::Signed(
                if raw >= 0x80 {
                    raw as i64 - 0x100
                } else {
                    raw as i64
                },
            ),
        ),
        igMetaFieldKind::I16 => Some(
            igAny::Signed(
                if raw >= 0x8000 {
                    raw as i64 - 0x1_0000
                } else {
                    raw as i64
                },
            ),
        ),
        igMetaFieldKind::I32 => Some(
            igAny::Signed(
                if raw >= 0x8000_0000 {
                    raw as i64 - 0x1_0000_0000
                } else {
                    raw as i64
                },
            ),
        ),
        igMetaFieldKind::I64 => Some(
            igAny::Signed(
                if raw >= 0x8000_0000_0000_0000 {
                    (raw - 0x8000_0000_0000_0000) as i64 - 0x4000_0000_0000_0000
                        - 0x4000_0000_0000_0000
                } else {
                    raw as i64
                },
            ),
        ),
        igMetaFieldKind::F32 => Some(igAny::Float32Bits(raw as u32)),
        igMetaFieldKind::F64 => Some(igAny::Float64Bits(raw)),
        igMetaFieldKind::Bool => Some(igAny::Boolean(raw != 0)),
        igMetaFieldKind::StringRef | igMetaFieldKind::ObjectRef | igMetaFieldKind::Handle
        | igMetaFieldKind::MemoryHandle => None,
    }
}

/// The string at position `index` of the container's string table.
pub open spec fn spec_string_at(ctx: IgzLoaderContext, index: u64) -> Option<Seq<char>> {
    if index < ctx.string_list@.len() {
        Some(ctx.string_list@[index as int]@)
    } else {
        None
    }
}

/// The string at position `index` of the container's string table.
pub fn string_at(ctx: &IgzLoaderContext, index: u64) -> (text: Option<String>)
    ensures
        match text {
            Some(t) => spec_string_at(*ctx, index) == Some(t@),
            None => spec_string_at(*ctx, index).is_none(),
        },
{
    if index < ctx.string_list.len() as u64 {
        Some(ctx.string_list[index as usize].clone())
    } else {
        None
    }
}

/// Whether the handles of `after` resolve, over the store `mgr`, to what
/// the handles of `before` resolve to.
pub open spec fn spec_resolutions_kept(
    before: Seq<igHandle>,
    after: Seq<igHandle>,
    mgr: igObjectStreamManager,
) -> bool {
    &&& after.len() == before.len()
    &&& forall|k: int|
        0 <= k < before.len() ==> spec_resolved(#[trigger] after[k], mgr) == spec_resolved(
            before[k],
            mgr,
        )
}

/// What decoding over the store `mgr` makes of the state `ctx`: nothing
/// changes, except that handles of the two lists of handles take what they
/// resolve to, which leaves what they resolve to as it is.
pub open spec fn spec_decoding_from(
    ctx: &IgzLoaderContext,
    later: &IgzLoaderContext,
    mgr: igObjectStreamManager,
) -> bool {
    &&& ctx.spec_fields_decoded(later)
    &&& spec_resolutions_kept(ctx.external_list@, later.external_list@, mgr)
    &&& spec_resolutions_kept(ctx.named_handle_list@, later.named_handle_list@, mgr)
}

/// The error of a decoding that failed.
pub open spec fn spec_decode_error<T>(r: Result<T, igLoadError>) -> Option<igLoadError> {
    match r {
        Ok(_) => None,
        Err(e) => Some(e),
    }
}

/// The error with which decoding a field of kind `kind` at position `place`
/// of the file fails, or `None` where it succeeds.
///
/// A field that the file does not hold in full fails with `UnexpectedEof`.
/// A string reference beyond the string table fails with `BadIndex`. A
/// reference fails as the rules of its kind say. Plain fields do not fail
/// otherwise.
pub open spec fn spec_field_error(
    kind: igMetaFieldKind,
    ctx: IgzLoaderContext,
    mgr: igObjectStreamManager,
    data: Seq<u8>,
    place: int,
    endian: Endian,
) -> Option<igLoadError> {
    let raw = spec_uint(data, place, spec_field_width(kind, ctx), endian) as u64;
    if place + spec_field_width(kind, ctx) > data.len() {
        Some(igLoadError::UnexpectedEof)
    } else {
        match kind {
            igMetaFieldKind::ObjectRef => spec_decode_error(
                spec_reference_value(
                    ctx,
                    mgr,
                    spec_classify(ctx.runtime_fields, place as u64, raw),
                    raw,
                ),
            ),
            igMetaFieldKind::Handle => spec_decode_error(
                spec_handle_value(ctx, mgr, place as u64, raw),
            ),
            igMetaFieldKind::MemoryHandle => spec_decode_error(
                spec_memory_value(ctx, place as u64, raw),
            ),
            igMetaFieldKind::StringRef => if spec_string_at(ctx, raw).is_none() {
                Some(igLoadError::BadIndex)
            } else {
                None
            },
            _ => None,
        }
    }
}

/// Whether `value` is the value of the field of kind `kind` at position
/// `place` of the file, for a field that decodes without error.
///
/// A plain field is the number it holds, read as its kind says. A string
/// reference is the string of the string table at the index it holds. A
/// reference to an object, through a handle or not, is the object that the
/// rules of its kind give, and a reference to memory the block they give;
/// a null reference is no value.
pub open spec fn spec_field_value_is(
    kind: igMetaFieldKind,
    ctx: IgzLoaderContext,
    mgr: igObjectStreamManager,
    data: Seq<u8>,
    place: int,
    endian: Endian,
    value: Option<igAny>,
) -> bool {
    let raw = spec_uint(data, place, spec_field_width(kind, ctx), endian) as u64;
    match kind {
        igMetaFieldKind::ObjectRef => match spec_reference_value(
            ctx,
            mgr,
            spec_classify(ctx.runtime_fields, place as u64, raw),
            raw,
        ) {
            Ok(Some(object)) => value == Some(igAny::Object(object)),
            _ => value.is_none(),
        },
        igMetaFieldKind::Handle => match spec_handle_value(ctx, mgr, place as u64, raw) {
            Ok(Some(object)) => value == Some(igAny::Object(object)),
            _ => value.is_none(),
        },
        igMetaFieldKind::MemoryHandle => match spec_memory_value(ctx, place as u64, raw) {
            Ok(Some(block)) => value == Some(igAny::Memory(block.0, block.1)),
            _ => value.is_none(),
        },
        igMetaFieldKind::StringRef => match spec_string_at(ctx, raw) {
            Some(text) => value.is_some() && value->0 is Text && value->0->Text_0@ == text,
            None => false,
        },
        _ => value == spec_plain_value(kind, raw as nat),
    }
}

/// Whether `r` is what decoding the field of kind `kind` at position
/// `place` of the file gives: its error where it fails, its value where it
/// does not.
pub open spec fn spec_field_read(
    kind: igMetaFieldKind,
    ctx: IgzLoaderContext,
    mgr: igObjectStreamManager,
    data: Seq<u8>,
    place: int,
    endian: Endian,
    r: Result<Option<igAny>, igLoadError>,
) -> bool {
    match spec_field_error(kind, ctx, mgr, data, place, endian) {
        Some(e) => r == Err::<Option<igAny>, igLoadError>(e),
        None => r.is_ok() && spec_field_value_is(kind, ctx, mgr, data, place, endian, r->Ok_0),
    }
}

/// Decoding goes on from where decoding has come.
pub proof fn lemma_decoding_transitive(
    a: &IgzLoaderContext,
    b: &IgzLoaderContext,
    c: &IgzLoaderContext,
    mgr: igObjectStreamManager,
)
    requires
        spec_decoding_from(a, b, mgr),
        spec_decoding_from(b, c, mgr),
    ensures
        spec_decoding_from(a, c, mgr),
{
    assert forall|k: int| 0 <= k < a.external_list@.len() implies spec_resolved(
        #[trigger] c.external_list@[k],
        mgr,
    ) == spec_resolved(a.external_list@[k], mgr) by {
        assert(spec_resolved(b.external_list@[k], mgr) == spec_resolved(a.external_list@[k], mgr));
    }
    assert forall|k: int| 0 <= k < a.named_handle_list@.len() implies spec_resolved(
        #[trigger] c.named_handle_list@[k],
        mgr,
    ) == spec_resolved(a.named_handle_list@[k], mgr) by {
        assert(spec_resolved(b.named_handle_list@[k], mgr) == spec_resolved(
            a.named_handle_list@[k],
            mgr,
        ));
    }
}

/// What a field decodes to does not depend on how far decoding has come:
/// a handle that has taken what it resolved to resolves to the same.
pub proof fn lemma_field_read_kept(
    kind: igMetaFieldKind,
    before: IgzLoaderContext,
    after: IgzLoaderContext,
    mgr: igObjectStreamManager,
    data: Seq<u8>,
    place: int,
    endian: Endian,
)
    requires
        spec_decoding_from(&before, &after, mgr),
    ensures
        spec_field_error(kind, after, mgr, data, place, endian) == spec_field_error(
            kind,
            before,
            mgr,
            data,
            place,
            endian,
        ),
        forall|value: Option<igAny>|
            spec_field_value_is(kind, before, mgr, data, place, endian, value)
                == #[trigger] spec_field_value_is(kind, after, mgr, data, place, endian, value),
{
    let raw = spec_uint(data, place, spec_field_width(kind, before), endian) as u64;
    assert(spec_field_width(kind, after) == spec_field_width(kind, before));
    assert(spec_string_at(after, raw) == spec_string_at(before, raw));
    let ref_kind = spec_classify(before.runtime_fields, place as u64, raw);
    assert(spec_reference_value(after, mgr, ref_kind, raw) == spec_reference_value(
        before,
        mgr,
        ref_kind,
        raw,
    )) by {
        let index = crate::meta::ig_object_ref_meta_field::spec_index_of(raw) as int;
        if index < before.external_list@.len() {
            assert(spec_resolved(after.external_list@[index], mgr) == spec_resolved(
                before.external_list@[index],
                mgr,
            ));
        }
    }
    assert(spec_handle_value(after, mgr, place as u64, raw) == spec_handle_value(
        before,
        mgr,
        place as u64,
        raw,
    )) by {
        let index = crate::meta::ig_object_ref_meta_field::spec_index_of(raw) as int;
        if index < before.named_handle_list@.len() {
            assert(spec_resolved(after.named_handle_list@[index], mgr) == spec_resolved(
                before.named_handle_list@[index],
                mgr,
            ));
        }
    }
    assert(spec_memory_value(after, place as u64, raw) == spec_memory_value(
        before,
        place as u64,
        raw,
    ));
}

impl igMetadataManager {
    /// Decodes one field of kind `kind` at the cursor.
    ///
    /// A plain field is the number it holds, read as its kind says. A string
    /// reference is the string of the container's string table at the index
    /// it holds. A reference to an object, through a handle or not, and a
    /// reference to memory are what the rules of their kind make of them; a
    /// null reference is no value.
    pub fn read_field(
        &self,
        kind: igMetaFieldKind,
        object_stream_manager: &igObjectStreamManager,
        handle: &mut ByteCursor,
        endian: Endian,
        ctx: &mut IgzLoaderContext,
    ) -> (r: Result<Option<igAny>, igLoadError>)
        requires
            old(ctx).runtime_fields.wf(),
            object_stream_manager.wf(),
        ensures
            final(handle).data == old(handle).data,
            old(ctx).spec_fields_decoded(final(ctx)),
            spec_decoding_from(old(ctx), final(ctx), *object_stream_manager),
            spec_field_read(
                kind,
                *old(ctx),
                *object_stream_manager,
                old(handle).data@,
                old(handle).position as int,
                endian,
                r,
            ),
            old(handle).spec_remaining() < spec_field_width(kind, *old(ctx)) ==> r == Err::<
                Option<igAny>,
                igLoadError,
            >(igLoadError::UnexpectedEof),
            r.is_ok() ==> final(handle).position == old(handle).position + spec_field_width(
                kind,
                *old(ctx),
            ),
            kind != igMetaFieldKind::ObjectRef
                ==> final(ctx).external_list == old(ctx).external_list,
            kind != igMetaFieldKind::Handle
                ==> final(ctx).named_handle_list == old(ctx).named_handle_list,
            kind == igMetaFieldKind::ObjectRef || kind == igMetaFieldKind::Handle ==> (
            r matches Ok(Some(value)) ==> value is Object),
            kind == igMetaFieldKind::MemoryHandle ==> (
            r matches Ok(Some(value)) ==> value is Memory),
            spec_is_plain(kind) && old(handle).spec_remaining() >= spec_field_width(
                kind,
                *old(ctx),
            ) ==> r == Ok::<Option<igAny>, igLoadError>(
                spec_plain_value(
                    kind,
                    spec_uint(
                        old(handle).data@,
                        old(handle).position as int,
                        spec_field_width(kind, *old(ctx)),
                        endian,
                    ),
                ),
            ),
            kind == igMetaFieldKind::StringRef && old(handle).spec_remaining() >= spec_field_width(
                kind,
                *old(ctx),
            ) ==> match spec_string_at(
                *old(ctx),
                spec_uint(
                    old(handle).data@,
                    old(handle).position as int,
                    spec_field_width(kind, *old(ctx)),
                    endian,
                ) as u64,
            ) {
                Some(text) => r matches Ok(Some(igAny::Text(t))) && t@ == text,
                None => r == Err::<Option<igAny>, igLoadError>(igLoadError::BadIndex),
            },
    {
        match kind {
            igMetaFieldKind::ObjectRef => {
                let field = igObjectRefMetaField;
                match field.value_from_igz(object_stream_manager, handle, endian, ctx) {
                    Ok(Some(object)) => Ok(Some(igAny::Object(object))),
                    Ok(None) => Ok(None),
                    Err(e) => Err(e),
                }
            },
            igMetaFieldKind::Handle => {
                let field = igHandleMetaField;
                match field.value_from_igz(object_stream_manager, handle, endian, ctx) {
                    Ok(Some(object)) => Ok(Some(igAny::Object(object))),
                    Ok(None) => Ok(None),
                    Err(e) => Err(e),
                }
            },
            igMetaFieldKind::MemoryHandle => {
                let field = igMemoryRefMetaField;
                match field.value_from_igz(handle, endian, ctx) {
                    Ok(Some((size, position))) => Ok(Some(igAny::Memory(size, position))),
                    Ok(None) => Ok(None),
                    Err(e) => Err(e),
                }
            },
            igMetaFieldKind::StringRef => {
                proof {
                    lemma_uint_bound(handle.data@, handle.position as int, 4, endian);
                    lemma_uint_bound(handle.data@, handle.position as int, 8, endian);
                }
                match read_raw(kind, handle, endian, ctx) {
                    Some(index) => match string_at(ctx, index) {
                        Some(text) => Ok(Some(igAny::Text(text))),
                        None => Err(igLoadError::BadIndex),
                    },
                    None => Err(igLoadError::UnexpectedEof),
                }
            },
            _ => {
                proof {
                    lemma_uint_bound(handle.data@, handle.position as int, 1, endian);
                    lemma_uint_bound(handle.data@, handle.position as int, 2, endian);
                    lemma_uint_bound(handle.data@, handle.position as int, 4, endian);
                    lemma_uint_bound(handle.data@, handle.position as int, 8, endian);
                }
                match read_raw(kind, handle, endian, ctx) {
                    Some(raw) => Ok(plain_value(kind, raw)),
                    None => Err(igLoadError::UnexpectedEof),
                }
            },
        }
    }
}

/// Whether `value` is what a field of kind `kind` at position `at` of the
/// file decodes to.
///
/// The file holds all of the field. A plain field is the number it holds,
/// read as its kind says; a string reference is the string of the string
/// table at the index it holds; a reference to an object is an object or
/// nothing, and a reference to memory a block of memory or nothing.
pub open spec fn spec_field_decoded(
    kind: igMetaFieldKind,
    data: Seq<u8>,
    at: int,
    endian: Endian,
    ctx: IgzLoaderContext,
    value: Option<igAny>,
) -> bool {
    let raw = spec_uint(data, at, spec_field_width(kind, ctx), endian);
    &&& 0 <= at
    &&& at + spec_field_width(kind, ctx) <= data.len()
    &&& match kind {
        igMetaFieldKind::ObjectRef | igMetaFieldKind::Handle => value.is_none() || value->0
            is Object,
        igMetaFieldKind::MemoryHandle => value.is_none() || value->0 is Memory,
        igMetaFieldKind::StringRef => match spec_string_at(ctx, raw as u64) {
            Some(text) => value.is_some() && value->0 is Text && value->0->Text_0@ == text,
            None => false,
        },
        _ => value == spec_plain_value(kind, raw),
    }
}

/// The number of entries that a list at position `at` of the file holds.
pub open spec fn spec_list_count(data: Seq<u8>, at: int, endian: Endian, ctx: IgzLoaderContext)
    -> nat {
    spec_uint(data, at, spec_ptr_width(ctx.platform), endian)
}

/// The string that entry `j` of a list of string references at position
/// `at` of the file stands for.
pub open spec fn spec_list_string(
    data: Seq<u8>,
    at: int,
    endian: Endian,
    ctx: IgzLoaderContext,
    j: int,
) -> Option<Seq<char>> {
    spec_string_at(
        ctx,
        spec_uint(
            data,
            at + spec_ptr_width(ctx.platform) * (j + 1),
            spec_ptr_width(ctx.platform),
            endian,
        ) as u64,
    )
}

/// Whether `texts` are the strings that the list of string references at
/// position `at` of the file stands for: as many as its count says, each
/// the string of the string table at the index the entry holds.
pub open spec fn spec_strings_decoded(
    data: Seq<u8>,
    at: int,
    endian: Endian,
    ctx: IgzLoaderContext,
    texts: Seq<Seq<char>>,
) -> bool {
    &&& texts.len() == spec_list_count(data, at, endian, ctx)
    &&& forall|j: int|
        0 <= j < texts.len() ==> spec_list_string(data, at, endian, ctx, j) == Some(
            #[trigger] texts[j],
        )
}

/// The first `n` strings of the list of string references at position `at`
/// of the file, or the error of the first of them that cannot be decoded:
/// `UnexpectedEof` for an entry that the file does not hold in full,
/// `BadIndex` for an entry beyond the string table.
pub open spec fn spec_list_strings(
    data: Seq<u8>,
    at: int,
    endian: Endian,
    ctx: IgzLoaderContext,
    n: nat,
) -> Result<Seq<Seq<char>>, igLoadError>
    decreases n,
{
    if n == 0 {
        Ok(Seq::empty())
    } else {
        match spec_list_strings(data, at, endian, ctx, (n - 1) as nat) {
            Err(e) => Err(e),
            Ok(texts) => if at + spec_ptr_width(ctx.platform) * (n + 1) > data.len() {
                Err(igLoadError::UnexpectedEof)
            } else {
                match spec_list_string(data, at, endian, ctx, n - 1) {
                    Some(text) => Ok(texts.push(text)),
                    None => Err(igLoadError::BadIndex),
                }
            },
        }
    }
}

/// What the list of string references at position `at` of the file decodes
/// to: the strings that its entries stand for, as many as the count in
/// front of them says, or the error of the first entry that cannot be
/// decoded. A file that ends inside the count gives `UnexpectedEof`.
pub open spec fn spec_decode_strings(data: Seq<u8>, at: int, endian: Endian, ctx: IgzLoaderContext)
    -> Result<Seq<Seq<char>>, igLoadError> {
    if at + spec_ptr_width(ctx.platform) > data.len() {
        Err(igLoadError::UnexpectedEof)
    } else {
        spec_list_strings(data, at, endian, ctx, spec_list_count(data, at, endian, ctx))
    }
}

/// An entry that cannot be decoded ends the decoding of a list of strings
/// with its error, however many entries follow.
pub proof fn lemma_list_strings_failed(
    data: Seq<u8>,
    at: int,
    endian: Endian,
    ctx: IgzLoaderContext,
    n: nat,
    m: nat,
)
    requires
        n <= m,
        spec_list_strings(data, at, endian, ctx, n) is Err,
    ensures
        spec_list_strings(data, at, endian, ctx, m) == spec_list_strings(data, at, endian, ctx, n),
    decreases m,
{
    if n < m {
        lemma_list_strings_failed(data, at, endian, ctx, n, (m - 1) as nat);
    }
}

/// What the object reference at position `place` of the file decodes to,
/// in the state `ctx` and over the store `mgr`: `UnexpectedEof` where the
/// file does not hold it in full, and else what its place and its number
/// stand for.
pub open spec fn spec_reference_at(
    ctx: IgzLoaderContext,
    mgr: igObjectStreamManager,
    data: Seq<u8>,
    place: int,
    endian: Endian,
) -> Result<Option<igObject>, igLoadError> {
    let raw = spec_uint(data, place, spec_ptr_width(ctx.platform), endian) as u64;
    if place + spec_ptr_width(ctx.platform) > data.len() {
        Err(igLoadError::UnexpectedEof)
    } else {
        spec_reference_value(ctx, mgr, spec_classify(ctx.runtime_fields, place as u64, raw), raw)
    }
}

/// The first `n` entries of the list of object references at position `at`
/// of the file, or the error of the first of them that cannot be decoded.
pub open spec fn spec_list_objects(
    ctx: IgzLoaderContext,
    mgr: igObjectStreamManager,
    data: Seq<u8>,
    at: int,
    endian: Endian,
    n: nat,
) -> Result<Seq<Option<igObject>>, igLoadError>
    decreases n,
{
    if n == 0 {
        Ok(Seq::empty())
    } else {
        match spec_list_objects(ctx, mgr, data, at, endian, (n - 1) as nat) {
            Err(e) => Err(e),
            Ok(entries) => match spec_reference_at(
                ctx,
                mgr,
                data,
                at + spec_ptr_width(ctx.platform) * n,
                endian,
            ) {
                Ok(entry) => Ok(entries.push(entry)),
                Err(e) => Err(e),
            },
        }
    }
}

/// What the list of object references at position `at` of the file decodes
/// to: what its entries stand for, as many as the count in front of them
/// says, or the error of the first entry that cannot be decoded. A file
/// that ends inside the count gives `UnexpectedEof`.
pub open spec fn spec_decode_objects(
    ctx: IgzLoaderContext,
    mgr: igObjectStreamManager,
    data: Seq<u8>,
    at: int,
    endian: Endian,
) -> Result<Seq<Option<igObject>>, igLoadError> {
    if at + spec_ptr_width(ctx.platform) > data.len() {
        Err(igLoadError::UnexpectedEof)
    } else {
        spec_list_objects(ctx, mgr, data, at, endian, spec_list_count(data, at, endian, ctx))
    }
}

/// An entry that cannot be decoded ends the decoding of a list of objects
/// with its error, however many entries follow.
pub proof fn lemma_list_objects_failed(
    ctx: IgzLoaderContext,
    mgr: igObjectStreamManager,
    data: Seq<u8>,
    at: int,
    endian: Endian,
    n: nat,
    m: nat,
)
    requires
        n <= m,
        spec_list_objects(ctx, mgr, data, at, endian, n) is Err,
    ensures
        spec_list_objects(ctx, mgr, data, at, endian, m) == spec_list_objects(
            ctx,
            mgr,
            data,
            at,
            endian,
            n,
        ),
    decreases m,
{
    if n < m {
        lemma_list_objects_failed(ctx, mgr, data, at, endian, n, (m - 1) as nat);
    }
}

/// What an object reference decodes to does not depend on how far decoding
/// has come.
pub proof fn lemma_reference_at_kept(
    before: IgzLoaderContext,
    after: IgzLoaderContext,
    mgr: igObjectStreamManager,
    data: Seq<u8>,
    place: int,
    endian: Endian,
)
    requires
        spec_decoding_from(&before, &after, mgr),
    ensures
        spec_reference_at(after, mgr, data, place, endian) == spec_reference_at(
            before,
            mgr,
            data,
            place,
            endian,
        ),
{
    let raw = spec_uint(data, place, spec_ptr_width(before.platform), endian) as u64;
    let index = crate::meta::ig_object_ref_meta_field::spec_index_of(raw) as int;
    if index < before.external_list@.len() {
        assert(spec_resolved(after.external_list@[index], mgr) == spec_resolved(
            before.external_list@[index],
            mgr,
        ));
    }
}

/// The texts of a list of names.
pub open spec fn spec_name_texts(names: Seq<igName>) -> Seq<Seq<char>> {
    Seq::new(names.len(), |j: int| names[j].string->0@)
}

/// The error of the first of the first `n` fields of an object at `base`
/// that cannot be decoded, or `None` where all of them can.
pub open spec fn spec_fields_error(
    fields: Seq<igMetaFieldInfo>,
    ctx: IgzLoaderContext,
    mgr: igObjectStreamManager,
    data: Seq<u8>,
    base: int,
    endian: Endian,
    n: nat,
) -> Option<igLoadError>
    decreases n,
{
    if n == 0 {
        None
    } else {
        match spec_fields_error(fields, ctx, mgr, data, base, endian, (n - 1) as nat) {
            Some(e) => Some(e),
            None => spec_field_error(
                fields[n - 1].kind,
                ctx,
                mgr,
                data,
                base + fields[n - 1].offset,
                endian,
            ),
        }
    }
}

/// A field that cannot be decoded ends the decoding of an object with its
/// error, however many fields follow.
pub proof fn lemma_fields_failed(
    fields: Seq<igMetaFieldInfo>,
    ctx: IgzLoaderContext,
    mgr: igObjectStreamManager,
    data: Seq<u8>,
    base: int,
    endian: Endian,
    n: nat,
    m: nat,
)
    requires
        n <= m,
        spec_fields_error(fields, ctx, mgr, data, base, endian, n) is Some,
    ensures
        spec_fields_error(fields, ctx, mgr, data, base, endian, m) == spec_fields_error(
            fields,
            ctx,
            mgr,
            data,
            base,
            endian,
            n,
        ),
    decreases m,
{
    if n < m {
        lemma_fields_failed(fields, ctx, mgr, data, base, endian, n, (m - 1) as nat);
    }
}

/// The error with which decoding an object of type `meta` at position `base`
/// of the file fails, or `None` where it succeeds: for a bag of fields the
/// error of its first field that fails, for a list that of its count or of
/// its first entry that fails. The entries of a list start one pointer
/// width behind `base`.
pub open spec fn spec_content_error(
    meta: igMetaObject,
    ctx: IgzLoaderContext,
    mgr: igObjectStreamManager,
    data: Seq<u8>,
    base: int,
    endian: Endian,
) -> Option<igLoadError> {
    let at = base + spec_ptr_width(ctx.platform);
    match meta.shape {
        igMetaShape::Fields => spec_fields_error(
            meta.fields@,
            ctx,
            mgr,
            data,
            base,
            endian,
            meta.fields@.len(),
        ),
        igMetaShape::ObjectList => spec_decode_error(
            spec_decode_objects(ctx, mgr, data, at, endian),
        ),
        igMetaShape::NameList | igMetaShape::StringRefList => spec_decode_error(
            spec_decode_strings(data, at, endian, ctx),
        ),
    }
}

/// Whether a field can be decoded does not depend on the store, nor on what
/// the handles of the load have resolved to: only on the file and on the
/// lists that the fixups brought.
pub proof fn lemma_field_error_kept(
    kind: igMetaFieldKind,
    before: IgzLoaderContext,
    mgr_before: igObjectStreamManager,
    after: IgzLoaderContext,
    mgr_after: igObjectStreamManager,
    data: Seq<u8>,
    place: int,
    endian: Endian,
)
    requires
        before.spec_fields_decoded(&after),
    ensures
        spec_field_error(kind, after, mgr_after, data, place, endian) == spec_field_error(
            kind,
            before,
            mgr_before,
            data,
            place,
            endian,
        ),
{
    let raw = spec_uint(data, place, spec_field_width(kind, before), endian) as u64;
    assert(spec_field_width(kind, after) == spec_field_width(kind, before));
    assert(spec_string_at(after, raw) == spec_string_at(before, raw));
    let ref_kind = spec_classify(before.runtime_fields, place as u64, raw);
    assert(spec_decode_error(spec_reference_value(after, mgr_after, ref_kind, raw))
        == spec_decode_error(spec_reference_value(before, mgr_before, ref_kind, raw)));
    assert(spec_decode_error(spec_handle_value(after, mgr_after, place as u64, raw))
        == spec_decode_error(spec_handle_value(before, mgr_before, place as u64, raw)));
    assert(spec_memory_value(after, place as u64, raw) == spec_memory_value(
        before,
        place as u64,
        raw,
    ));
}

/// Whether the fields of an object can be decoded does not depend on the
/// store, nor on what the handles of the load have resolved to.
pub proof fn lemma_fields_error_kept(
    fields: Seq<igMetaFieldInfo>,
    before: IgzLoaderContext,
    mgr_before: igObjectStreamManager,
    after: IgzLoaderContext,
    mgr_after: igObjectStreamManager,
    data: Seq<u8>,
    base: int,
    endian: Endian,
    n: nat,
)
    requires
        before.spec_fields_decoded(&after),
    ensures
        spec_fields_error(fields, after, mgr_after, data, base, endian, n) == spec_fields_error(
            fields,
            before,
            mgr_before,
            data,
            base,
            endian,
            n,
        ),
    decreases n,
{
    if n > 0 {
        lemma_fields_error_kept(
            fields,
            before,
            mgr_before,
            after,
            mgr_after,
            data,
            base,
            endian,
            (n - 1) as nat,
        );
        lemma_field_error_kept(
            fields[n - 1].kind,
            before,
            mgr_before,
            after,
            mgr_after,
            data,
            base + fields[n - 1].offset,
            endian,
        );
    }
}

/// Whether the entries of a list of objects can be decoded does not depend
/// on the store, nor on what the handles of the load have resolved to.
pub proof fn lemma_list_objects_error_kept(
    before: IgzLoaderContext,
    mgr_before: igObjectStreamManager,
    after: IgzLoaderContext,
    mgr_after: igObjectStreamManager,
    data: Seq<u8>,
    at: int,
    endian: Endian,
    n: nat,
)
    requires
        before.spec_fields_decoded(&after),
    ensures
        spec_decode_error(spec_list_objects(after, mgr_after, data, at, endian, n))
            == spec_decode_error(spec_list_objects(before, mgr_before, data, at, endian, n)),
    decreases n,
{
    if n > 0 {
        lemma_list_objects_error_kept(
            before,
            mgr_before,
            after,
            mgr_after,
            data,
            at,
            endian,
            (n - 1) as nat,
        );
        let place = at + spec_ptr_width(before.platform) * n;
        let raw = spec_uint(data, place, spec_ptr_width(before.platform), endian) as u64;
        let ref_kind = spec_classify(before.runtime_fields, place as u64, raw);
        assert(spec_decode_error(spec_reference_value(after, mgr_after, ref_kind, raw))
            == spec_decode_error(spec_reference_value(before, mgr_before, ref_kind, raw)));
        assert(spec_decode_error(spec_reference_at(after, mgr_after, data, place, endian))
            == spec_decode_error(spec_reference_at(before, mgr_before, data, place, endian)));
    }
}

/// What a list of strings decodes to does not depend on how far decoding
/// has come.
pub proof fn lemma_list_strings_kept(
    before: IgzLoaderContext,
    after: IgzLoaderContext,
    data: Seq<u8>,
    at: int,
    endian: Endian,
    n: nat,
)
    requires
        before.spec_fields_decoded(&after),
    ensures
        spec_list_strings(data, at, endian, after, n) == spec_list_strings(
            data,
            at,
            endian,
            before,
            n,
        ),
    decreases n,
{
    if n > 0 {
        lemma_list_strings_kept(before, after, data, at, endian, (n - 1) as nat);
        assert(spec_list_string(data, at, endian, after, n - 1) == spec_list_string(
            data,
            at,
            endian,
            before,
            n - 1,
        ));
    }
}

/// Whether an object can be decoded does not depend on the store, nor on
/// what the handles of the load have resolved to: it is the same at every
/// moment of the field pass.
pub proof fn lemma_content_error_kept(
    meta: igMetaObject,
    before: IgzLoaderContext,
    mgr_before: igObjectStreamManager,
    after: IgzLoaderContext,
    mgr_after: igObjectStreamManager,
    data: Seq<u8>,
    base: int,
    endian: Endian,
)
    requires
        before.spec_fields_decoded(&after),
    ensures
        spec_content_error(meta, after, mgr_after, data, base, endian) == spec_content_error(
            meta,
            before,
            mgr_before,
            data,
            base,
            endian,
        ),
{
    let at = base + spec_ptr_width(before.platform);
    lemma_fields_error_kept(
        meta.fields@,
        before,
        mgr_before,
        after,
        mgr_after,
        data,
        base,
        endian,
        meta.fields@.len(),
    );
    lemma_list_objects_error_kept(
        before,
        mgr_before,
        after,
        mgr_after,
        data,
        at,
        endian,
        spec_list_count(data, at, endian, before),
    );
    lemma_list_strings_kept(
        before,
        after,
        data,
        at,
        endian,
        spec_list_count(data, at, endian, before),
    );
    assert(spec_list_count(data, at, endian, after) == spec_list_count(data, at, endian, before));
}

/// Whether `content` is what an object of type `meta` at position `base` of
/// the file holds once it is decoded, in the state `ctx` and over the store
/// `mgr`, for an object that decodes without error.
///
/// A bag of fields holds the value of every field of its type. A list of
/// objects holds what its entries stand for, a list of strings the strings
/// of its entries, and a list of names those strings as names, each with
/// the hash of its text.
pub open spec fn spec_content_read(
    meta: igMetaObject,
    ctx: IgzLoaderContext,
    mgr: igObjectStreamManager,
    data: Seq<u8>,
    base: int,
    endian: Endian,
    content: igObjectContent,
) -> bool {
    let at = base + spec_ptr_width(ctx.platform);
    match meta.shape {
        igMetaShape::Fields => {
            &&& content is Fields
            &&& content->Fields_0@.len() == meta.fields@.len()
            &&& forall|k: int|
                0 <= k < meta.fields@.len() ==> spec_field_value_is(
                    meta.fields@[k].kind,
                    ctx,
                    mgr,
                    data,
                    base + meta.fields@[k].offset,
                    endian,
                    #[trigger] content->Fields_0@[k],
                )
        },
        igMetaShape::ObjectList => {
            &&& content is ObjectList
            &&& spec_decode_objects(ctx, mgr, data, at, endian) == Ok::<
                Seq<Option<igObject>>,
                igLoadError,
            >(content->ObjectList_0@)
        },
        igMetaShape::NameList => {
            &&& content is NameList
            &&& forall|j: int|
                0 <= j < content->NameList_0@.len() ==> (
                #[trigger] content->NameList_0@[j]).string.is_some()
                    && content->NameList_0@[j].hash == crate::util::ig_hash::spec_hash(
                    content->NameList_0@[j].string->0@,
                )
            &&& spec_decode_strings(data, at, endian, ctx) == Ok::<Seq<Seq<char>>, igLoadError>(
                spec_name_texts(content->NameList_0@),
            )
        },
        igMetaShape::StringRefList => {
            &&& content is StringRefList
            &&& spec_decode_strings(data, at, endian, ctx) == Ok::<Seq<Seq<char>>, igLoadError>(
                crate::vfs::ig_memory_storage::spec_texts(content->StringRefList_0@),
            )
        },
    }
}

/// Whether `content` is what an object of type `meta` decodes to from the
/// bytes at `base`.
///
/// A bag of fields holds one value for every field of its type, each
/// decoded at the field's distance from `base`. A list holds the entries
/// that stand one pointer width behind `base`: as many as the count in
/// front of them says; strings and names are those of the string table,
/// and every name carries the hash of its text.
pub open spec fn spec_content_decoded(
    meta: igMetaObject,
    data: Seq<u8>,
    base: int,
    endian: Endian,
    ctx: IgzLoaderContext,
    content: igObjectContent,
) -> bool {
    let at = base + spec_ptr_width(ctx.platform);
    match meta.shape {
        igMetaShape::Fields => {
            &&& content is Fields
            &&& content->Fields_0@.len() == meta.fields@.len()
            &&& forall|k: int|
                0 <= k < meta.fields@.len() ==> spec_field_decoded(
                    meta.fields@[k].kind,
                    data,
                    base + meta.fields@[k].offset,
                    endian,
                    ctx,
                    #[trigger] content->Fields_0@[k],
                )
        },
        igMetaShape::ObjectList => {
            &&& content is ObjectList
            &&& content->ObjectList_0@.len() == spec_list_count(data, at, endian, ctx)
        },
        igMetaShape::NameList => {
            &&& content is NameList
            &&& forall|j: int|
                0 <= j < content->NameList_0@.len() ==> (
                #[trigger] content->NameList_0@[j]).string.is_some()
                    && content->NameList_0@[j].hash == crate::util::ig_hash::spec_hash(
                    content->NameList_0@[j].string->0@,
                )
            &&& spec_strings_decoded(data, at, endian, ctx, spec_name_texts(content->NameList_0@))
        },
        igMetaShape::StringRefList => {
            &&& content is StringRefList
            &&& spec_strings_decoded(
                data,
                at,
                endian,
                ctx,
                crate::vfs::ig_memory_storage::spec_texts(content->StringRefList_0@),
            )
        },
    }
}

/// What an object decodes to does not depend on how far the field pass has
/// come: the pass changes nothing of the state that decoding reads.
pub proof fn lemma_content_decoded_kept(
    meta: igMetaObject,
    data: Seq<u8>,
    base: int,
    endian: Endian,
    before: IgzLoaderContext,
    after: IgzLoaderContext,
    content: igObjectContent,
)
    requires
        before.spec_fields_decoded(&after),
    ensures
        spec_content_decoded(meta, data, base, endian, before, content) == spec_content_decoded(
            meta,
            data,
            base,
            endian,
            after,
            content,
        ),
{
    let at = base + spec_ptr_width(before.platform);
    assert forall|kind: igMetaFieldKind, place: int, value: Option<igAny>|
        spec_field_decoded(kind, data, place, endian, before, value) == #[trigger] spec_field_decoded(
            kind,
            data,
            place,
            endian,
            after,
            value,
        ) by {
        assert(spec_field_width(kind, before) == spec_field_width(kind, after));
        let raw = spec_uint(data, place, spec_field_width(kind, before), endian);
        assert(spec_string_at(before, raw as u64) == spec_string_at(after, raw as u64));
    }
    assert forall|texts: Seq<Seq<char>>|
        spec_strings_decoded(data, at, endian, before, texts) == #[trigger] spec_strings_decoded(
            data,
            at,
            endian,
            after,
            texts,
        ) by {
        assert(spec_list_count(data, at, endian, before) == spec_list_count(
            data,
            at,
            endian,
            after,
        ));
        assert forall|j: int|
            spec_list_string(data, at, endian, before, j) == #[trigger] spec_list_string(
                data,
                at,
                endian,
                after,
                j,
            ) by {}
    }
}

/// What the field pass may do to the store when it decodes one object:
/// only what that object holds changes.
pub open spec fn spec_object_decoded(
    before: &igObjectStreamManager,
    after: &igObjectStreamManager,
    object: igObject,
) -> bool {
    &&& after.directories == before.directories
    &&& after.name_to_directory_lookup == before.name_to_directory_lookup
    &&& after.path_to_directory_lookup == before.path_to_directory_lookup
    &&& after.objects@.len() == before.objects@.len()
    &&& forall|i: int|
        0 <= i < before.objects@.len() && i != object ==> #[trigger] after.objects@[i]
            == before.objects@[i]
    &&& object < before.objects@.len() ==> after.objects@[object as int].meta
        == before.objects@[object as int].meta && after.objects@[object as int].pool
        == before.objects@[object as int].pool && after.objects@[object as int].owner
        == before.objects@[object as int].owner
}

impl igMetadataManager {
    /// Decodes the fields of a bag of fields that starts at `base`, in the
    /// order of the type: the value of every field, or the error of the
    /// first field that cannot be decoded.
    fn decode_fields(
        &self,
        meta: usize,
        object_stream_manager: &igObjectStreamManager,
        handle: &mut ByteCursor,
        endian: Endian,
        ctx: &mut IgzLoaderContext,
        base: u64,
    ) -> (r: Result<Vec<Option<igAny>>, igLoadError>)
        requires
            meta < self.meta_objects@.len(),
            old(ctx).runtime_fields.wf(),
            object_stream_manager.wf(),
        ensures
            final(handle).data == old(handle).data,
            old(ctx).spec_fields_decoded(final(ctx)),
            spec_decoding_from(old(ctx), final(ctx), *object_stream_manager),
            r matches Ok(values) ==> values@.len() == self.meta_objects@[meta as int].fields@.len()
                && forall|k: int|
                0 <= k < values@.len() ==> spec_field_decoded(
                    self.meta_objects@[meta as int].fields@[k].kind,
                    old(handle).data@,
                    base + self.meta_objects@[meta as int].fields@[k].offset,
                    endian,
                    *old(ctx),
                    #[trigger] values@[k],
                ),
            match r {
                Ok(values) => {
                    &&& spec_fields_error(
                        self.meta_objects@[meta as int].fields@,
                        *old(ctx),
                        *object_stream_manager,
                        old(handle).data@,
                        base as int,
                        endian,
                        self.meta_objects@[meta as int].fields@.len(),
                    ).is_none()
                    &&& forall|k: int|
                        0 <= k < values@.len() ==> spec_field_value_is(
                            self.meta_objects@[meta as int].fields@[k].kind,
                            *old(ctx),
                            *object_stream_manager,
                            old(handle).data@,
                            base + self.meta_objects@[meta as int].fields@[k].offset,
                            endian,
                            #[trigger] values@[k],
                        )
                },
                Err(e) => spec_fields_error(
                    self.meta_objects@[meta as int].fields@,
                    *old(ctx),
                    *object_stream_manager,
                    old(handle).data@,
                    base as int,
                    endian,
                    self.meta_objects@[meta as int].fields@.len(),
                ) == Some(e),
            },
    {
        let fields = &self.meta_objects[meta].fields;
        assert(handle.data@.len() == handle.data.len());
        let mut values: Vec<Option<igAny>> = Vec::new();
        let mut k: usize = 0;
        while k < fields.len()
            invariant
                k <= fields.len(),
                handle.data@.len() <= usize::MAX,
                meta < self.meta_objects@.len(),
                fields == &self.meta_objects@[meta as int].fields,
                values@.len() == k,
                handle.data == old(handle).data,
                old(ctx).spec_fields_decoded(ctx),
                ctx.runtime_fields.wf(),
                object_stream_manager.wf(),
                forall|j: int|
                    0 <= j < k ==> spec_field_decoded(
                        fields@[j].kind,
                        handle.data@,
                        base + fields@[j].offset,
                        endian,
                        *old(ctx),
                        #[trigger] values@[j],
                    ),
                spec_decoding_from(old(ctx), ctx, *object_stream_manager),
                spec_fields_error(
                    fields@,
                    *old(ctx),
                    *object_stream_manager,
                    handle.data@,
                    base as int,
                    endian,
                    k as nat,
                ).is_none(),
                forall|j: int|
                    0 <= j < k ==> spec_field_value_is(
                        fields@[j].kind,
                        *old(ctx),
                        *object_stream_manager,
                        handle.data@,
                        base + fields@[j].offset,
                        endian,
                        #[trigger] values@[j],
                    ),
            decreases fields.len() - k,
        {
            let ghost before = values@;
            let ghost ctx_before = *ctx;
            proof {
                lemma_field_read_kept(
                    fields@[k as int].kind,
                    *old(ctx),
                    ctx_before,
                    *object_stream_manager,
                    handle.data@,
                    base + fields@[k as int].offset,
                    endian,
                );
            }
            let at: u64 = match base.checked_add(fields[k].offset as u64) {
                Some(at) => at,
                None => {
                    proof {
                        lemma_fields_failed(
                            fields@,
                            *old(ctx),
                            *object_stream_manager,
                            handle.data@,
                            base as int,
                            endian,
                            (k + 1) as nat,
                            fields@.len(),
                        );
                    }
                    return Err(igLoadError::UnexpectedEof);
                },
            };
            handle.set_position(at);
            match self.read_field(fields[k].kind, object_stream_manager, handle, endian, ctx) {
                Ok(value) => {
                    values.push(value);
                    proof {
                        assert(spec_string_at(ctx_before, 0) == spec_string_at(*old(ctx), 0));
                        assert(ctx_before.string_list == old(ctx).string_list);
                        assert(ctx_before.platform == old(ctx).platform);
                        assert forall|j: int| 0
                            <= j < k implies #[trigger] values@[j] == before[j] by {}
                        lemma_decoding_transitive(
                            old(ctx),
                            &ctx_before,
                            ctx,
                            *object_stream_manager,
                        );
                    }
                },
                Err(e) => {
                    proof {
                        lemma_decoding_transitive(
                            old(ctx),
                            &ctx_before,
                            ctx,
                            *object_stream_manager,
                        );
                        lemma_fields_failed(
                            fields@,
                            *old(ctx),
                            *object_stream_manager,
                            handle.data@,
                            base as int,
                            endian,
                            (k + 1) as nat,
                            fields@.len(),
                        );
                    }
                    return Err(e);
                },
            }
            k = k + 1;
        }
        Ok(values)
    }

    /// Decodes the entries of a list: a count as wide as a pointer, then as
    /// many object references. Gives what the entries stand for, or the
    /// error of the count or of the first entry that cannot be decoded.
    fn decode_object_list(
        &self,
        object_stream_manager: &igObjectStreamManager,
        handle: &mut ByteCursor,
        endian: Endian,
        ctx: &mut IgzLoaderContext,
    ) -> (r: Result<Vec<Option<igObject>>, igLoadError>)
        requires
            old(ctx).runtime_fields.wf(),
            object_stream_manager.wf(),
        ensures
            final(handle).data == old(handle).data,
            old(ctx).spec_fields_decoded(final(ctx)),
            spec_decoding_from(old(ctx), final(ctx), *object_stream_manager),
            r matches Ok(entries) ==> entries@.len() == spec_list_count(
                old(handle).data@,
                old(handle).position as int,
                endian,
                *old(ctx),
            ),
            match r {
                Ok(entries) => spec_decode_objects(
                    *old(ctx),
                    *object_stream_manager,
                    old(handle).data@,
                    old(handle).position as int,
                    endian,
                ) == Ok::<Seq<Option<igObject>>, igLoadError>(entries@),
                Err(e) => spec_decode_objects(
                    *old(ctx),
                    *object_stream_manager,
                    old(handle).data@,
                    old(handle).position as int,
                    endian,
                ) == Err::<Seq<Option<igObject>>, igLoadError>(e),
            },
    {
        let ghost data = handle.data@;
        let ghost start = handle.position as int;
        let ghost width = spec_ptr_width(ctx.platform);
        proof {
            lemma_uint_bound(handle.data@, handle.position as int, 4, endian);
            lemma_uint_bound(handle.data@, handle.position as int, 8, endian);
        }
        let count: u64 = match read_ptr(handle, ctx.platform, endian) {
            Ok(count) => count,
            Err(_) => {
                return Err(igLoadError::UnexpectedEof);
            },
        };
        let field = igObjectRefMetaField;
        let mut entries: Vec<Option<igObject>> = Vec::new();
        let mut i: u64 = 0;
        while i < count
            invariant
                i <= count,
                count == spec_list_count(data, start, endian, *old(ctx)),
                width == spec_ptr_width(old(ctx).platform),
                width == 4 || width == 8,
                entries@.len() == i,
                handle.data == old(handle).data,
                data == handle.data@,
                start == old(handle).position,
                start + width <= data.len(),
                handle.position == start + width * (i + 1),
                old(ctx).spec_fields_decoded(ctx),
                spec_decoding_from(old(ctx), ctx, *object_stream_manager),
                ctx.runtime_fields.wf(),
                object_stream_manager.wf(),
                spec_list_objects(
                    *old(ctx),
                    *object_stream_manager,
                    data,
                    start,
                    endian,
                    i as nat,
                ) == Ok::<Seq<Option<igObject>>, igLoadError>(entries@),
            decreases count - i,
        {
            let ghost known = entries@;
            let ghost ctx_before = *ctx;
            proof {
                assert(width * (i + 2) == width * (i + 1) + width) by (nonlinear_arith);
                lemma_reference_at_kept(
                    *old(ctx),
                    ctx_before,
                    *object_stream_manager,
                    data,
                    start + width * (i + 1),
                    endian,
                );
            }
            let decoded = field.value_from_igz(object_stream_manager, handle, endian, ctx);
            proof {
                assert(spec_decoding_from(&ctx_before, ctx, *object_stream_manager));
                lemma_decoding_transitive(old(ctx), &ctx_before, ctx, *object_stream_manager);
                assert(decoded == spec_reference_at(
                    *old(ctx),
                    *object_stream_manager,
                    data,
                    start + width * (i + 1),
                    endian,
                ));
            }
            match decoded {
                Ok(entry) => entries.push(entry),
                Err(e) => {
                    proof {
                        lemma_list_objects_failed(
                            *old(ctx),
                            *object_stream_manager,
                            data,
                            start,
                            endian,
                            (i + 1) as nat,
                            count as nat,
                        );
                    }
                    return Err(e);
                },
            }
            assert(entries@ =~= known.push(entries@[i as int]));
            i = i + 1;
        }
        Ok(entries)
    }

    /// Decodes the entries of a list of strings: a count as wide as a
    /// pointer, then as many string references. Gives the strings of the
    /// entries, or the error of the count or of the first entry that cannot
    /// be decoded.
    fn decode_string_list(
        &self,
        handle: &mut ByteCursor,
        endian: Endian,
        ctx: &IgzLoaderContext,
    ) -> (r: Result<Vec<String>, igLoadError>)
        ensures
            final(handle).data == old(handle).data,
            r matches Ok(entries) ==> spec_strings_decoded(
                old(handle).data@,
                old(handle).position as int,
                endian,
                *ctx,
                crate::vfs::ig_memory_storage::spec_texts(entries@),
            ),
            match r {
                Ok(entries) => spec_decode_strings(
                    old(handle).data@,
                    old(handle).position as int,
                    endian,
                    *ctx,
                ) == Ok::<Seq<Seq<char>>, igLoadError>(
                    crate::vfs::ig_memory_storage::spec_texts(entries@),
                ),
                Err(e) => spec_decode_strings(
                    old(handle).data@,
                    old(handle).position as int,
                    endian,
                    *ctx,
                ) == Err::<Seq<Seq<char>>, igLoadError>(e),
            },
    {
        let ghost data = handle.data@;
        let ghost start = handle.position as int;
        let ghost width = spec_ptr_width(ctx.platform);
        proof {
            lemma_uint_bound(data, start, 4, endian);
            lemma_uint_bound(data, start, 8, endian);
        }
        let count: u64 = match read_ptr(handle, ctx.platform, endian) {
            Ok(count) => count,
            Err(_) => {
                return Err(igLoadError::UnexpectedEof);
            },
        };
        let mut entries: Vec<String> = Vec::new();
        assert(crate::vfs::ig_memory_storage::spec_texts(entries@) =~= Seq::empty());
        let mut i: u64 = 0;
        while i < count
            invariant
                i <= count,
                count == spec_list_count(data, start, endian, *ctx),
                width == spec_ptr_width(ctx.platform),
                width == 4 || width == 8,
                handle.data == old(handle).data,
                data == handle.data@,
                start == old(handle).position,
                handle.position == start + width * (i + 1),
                entries@.len() == i,
                forall|j: int|
                    0 <= j < i ==> spec_list_string(data, start, endian, *ctx, j) == Some(
                        (#[trigger] entries@[j])@,
                    ),
                start + width <= data.len(),
                spec_list_strings(data, start, endian, *ctx, i as nat) == Ok::<
                    Seq<Seq<char>>,
                    igLoadError,
                >(crate::vfs::ig_memory_storage::spec_texts(entries@)),
            decreases count - i,
        {
            proof {
                lemma_uint_bound(data, handle.position as int, 4, endian);
                lemma_uint_bound(data, handle.position as int, 8, endian);
                assert(width * (i + 2) == width * (i + 1) + width) by (nonlinear_arith);
            }
            let ghost known = entries@;
            let index: u64 = match read_ptr(handle, ctx.platform, endian) {
                Ok(index) => index,
                Err(_) => {
                    proof {
                        lemma_list_strings_failed(
                            data,
                            start,
                            endian,
                            *ctx,
                            (i + 1) as nat,
                            count as nat,
                        );
                    }
                    return Err(igLoadError::UnexpectedEof);
                },
            };
            match string_at(ctx, index) {
                Some(text) => entries.push(text),
                None => {
                    proof {
                        lemma_list_strings_failed(
                            data,
                            start,
                            endian,
                            *ctx,
                            (i + 1) as nat,
                            count as nat,
                        );
                    }
                    return Err(igLoadError::BadIndex);
                },
            }
            assert(crate::vfs::ig_memory_storage::spec_texts(entries@)
                =~= crate::vfs::ig_memory_storage::spec_texts(known).push(entries@[i as int]@));
            i = i + 1;
        }
        Ok(entries)
    }

    /// Decodes what the object `object` of directory `dir` holds, from the
    /// bytes at the cursor.
    ///
    /// A bag of fields reads every field of its type at the field's distance
    /// from the cursor. A list reads, one pointer width behind the cursor, a
    /// count and as many entries: object references, names (as string
    /// references) or string references. Only the decoded object changes,
    /// and only in what it holds. An object that does not exist, that
    /// another directory's loader created or whose type is not registered
    /// is refused with `BadIndex`. Any other object decodes unless one of
    /// its fields or entries cannot be decoded, and then fails with the
    /// error of the first of them. Every failure leaves the store as it
    /// was. Handles that were resolved on the way keep what they found.
    pub fn read_igz_fields(
        &self,
        object_stream_manager: &mut igObjectStreamManager,
        handle: &mut ByteCursor,
        endian: Endian,
        ctx: &mut IgzLoaderContext,
        object: igObject,
        dir: igObjectDirectoryId,
    ) -> (r: Result<(), igLoadError>)
        requires
            old(object_stream_manager).wf(),
            old(ctx).runtime_fields.wf(),
            dir < old(object_stream_manager).directories@.len(),
            !old(object_stream_manager).directories@[dir as int].use_name_list,
        ensures
            final(object_stream_manager).wf(),
            spec_object_decoded(old(object_stream_manager), final(object_stream_manager), object),
            final(handle).data == old(handle).data,
            old(ctx).spec_fields_decoded(final(ctx)),
            r.is_err()
                ==> final(object_stream_manager).objects == old(object_stream_manager).objects,
            object >= old(object_stream_manager).objects@.len()
                || old(object_stream_manager).objects@[object as int].owner != dir
                || old(object_stream_manager).objects@[object as int].meta
                    >= self.meta_objects@.len()
                ==> r == Err::<
                (),
                igLoadError,
            >(igLoadError::BadIndex),
            r.is_ok() ==> spec_content_decoded(
                self.meta_objects@[old(object_stream_manager).objects@[object as int].meta as int],
                old(handle).data@,
                old(handle).position as int,
                endian,
                *old(ctx),
                final(object_stream_manager).objects@[object as int].content,
            ),
            spec_decoding_from(old(ctx), final(ctx), *old(object_stream_manager)),
            object < old(object_stream_manager).objects@.len() && old(
                object_stream_manager,
            ).objects@[object as int].owner == dir && old(
                object_stream_manager,
            ).objects@[object as int].meta < self.meta_objects@.len() ==> match spec_content_error(
                self.meta_objects@[old(object_stream_manager).objects@[object as int].meta as int],
                *old(ctx),
                *old(object_stream_manager),
                old(handle).data@,
                old(handle).position as int,
                endian,
            ) {
                Some(e) => r == Err::<(), igLoadError>(e),
                None => r.is_ok() && spec_content_read(
                    self.meta_objects@[old(object_stream_manager).objects@[object as int].meta
                        as int],
                    *old(ctx),
                    *old(object_stream_manager),
                    old(handle).data@,
                    old(handle).position as int,
                    endian,
                    final(object_stream_manager).objects@[object as int].content,
                ),
            },
    {
        if object >= object_stream_manager.objects.len() {
            return Err(igLoadError::BadIndex);
        }
        if object_stream_manager.objects[object].owner != dir {
            return Err(igLoadError::BadIndex);
        }
        let meta: usize = object_stream_manager.objects[object].meta;
        if meta >= self.meta_objects.len() {
            return Err(igLoadError::BadIndex);
        }
        let base: u64 = handle.position();
        assert(handle.data@.len() == handle.data.len());
        let width: u64 = if crate::base::ig_core_platform::is_64bit(ctx.platform) {
            8
        } else {
            4
        };
        let content = match self.meta_objects[meta].shape {
            igMetaShape::Fields => {
                match self.decode_fields(meta, object_stream_manager, handle, endian, ctx, base) {
                    Ok(values) => igObjectContent::Fields(values),
                    Err(e) => {
                        return Err(e);
                    },
                }
            },
            igMetaShape::ObjectList => {
                match base.checked_add(width) {
                    Some(at) => handle.set_position(at),
                    None => {
                        return Err(igLoadError::UnexpectedEof);
                    },
                }
                match self.decode_object_list(object_stream_manager, handle, endian, ctx) {
                    Ok(entries) => igObjectContent::ObjectList(entries),
                    Err(e) => {
                        return Err(e);
                    },
                }
            },
            igMetaShape::NameList => {
                match base.checked_add(width) {
                    Some(at) => handle.set_position(at),
                    None => {
                        return Err(igLoadError::UnexpectedEof);
                    },
                }
                match self.decode_string_list(handle, endian, ctx) {
                    Ok(texts) => {
                        let mut names: Vec<igName> = Vec::new();
                        let mut i: usize = 0;
                        while i < texts.len()
                            invariant
                                i <= texts.len(),
                                names@.len() == i,
                                forall|j: int|
                                    0 <= j < i ==> (#[trigger] names@[j]).string.is_some()
                                        && names@[j].string->0@ == texts@[j]@ && names@[j].hash
                                        == crate::util::ig_hash::spec_hash(texts@[j]@),
                            decreases texts.len() - i,
                        {
                            names.push(igName::new(texts[i].clone()));
                            i = i + 1;
                        }
                        assert(spec_name_texts(names@)
                            =~= crate::vfs::ig_memory_storage::spec_texts(
                            texts@,
                        ));
                        igObjectContent::NameList(names)
                    },
                    Err(e) => {
                        return Err(e);
                    },
                }
            },
            igMetaShape::StringRefList => {
                match base.checked_add(width) {
                    Some(at) => handle.set_position(at),
                    None => {
                        return Err(igLoadError::UnexpectedEof);
                    },
                }
                match self.decode_string_list(handle, endian, ctx) {
                    Ok(texts) => igObjectContent::StringRefList(texts),
                    Err(e) => {
                        return Err(e);
                    },
                }
            },
        };
        object_stream_manager.set_object_content(object, dir, content);
        Ok(())
    }
}

} // verus!
