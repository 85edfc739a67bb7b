//! The constant pool.
//!
//! Entries come out of the class file in *raw* form, holding 16-bit indices
//! into the pool itself. Resolution replaces every entry by a *resolved*,
//! self-contained form holding the referenced strings directly. A composite
//! entry resolves through its referents, which are strictly simpler: member
//! references read a class entry and a name-and-type entry, those read UTF-8
//! entries, and UTF-8 entries are leaves.
//!
//! Indices are 1-based; index 0 is reserved and unused. A `Long` or `Double`
//! entry occupies two consecutive index slots and the second slot is unused.
//! Numeric entries store `Float` and `Double` payloads as raw bit patterns.

use vstd::prelude::*;

use crate::err::VmError;

verus! {

/// A raw constant-pool entry, as read from the class file.
#[derive(Debug)]
pub enum ConstInfoRaw {
    Unused,
    Class { name_index: u16 },
    Fieldref { class_index: u16, name_and_type_index: u16 },
    Methodref { class_index: u16, name_and_type_index: u16 },
    InterfaceMethodref { class_index: u16, name_and_type_index: u16 },
    Str { string_index: u16 },
    Integer { bytes: i32 },
    Float { bits: u32 },
    Long { bytes: i64 },
    Double { bits: u64 },
    NameAndType { name_index: u16, descriptor_index: u16 },
    Utf8 { bytes: String },
}

/// Mathematical value of a raw entry.
pub enum RawEntrySpec {
    Unused,
    Class { name_index: u16 },
    Fieldref { class_index: u16, name_and_type_index: u16 },
    Methodref { class_index: u16, name_and_type_index: u16 },
    InterfaceMethodref { class_index: u16, name_and_type_index: u16 },
    Str { string_index: u16 },
    Integer { bytes: i32 },
    Float { bits: u32 },
    Long { bytes: i64 },
    Double { bits: u64 },
    NameAndType { name_index: u16, descriptor_index: u16 },
    Utf8 { bytes: Seq<char> },
}

impl View for ConstInfoRaw {
    type V = RawEntrySpec;

    open spec fn view(&self) -> RawEntrySpec {
        match self {
            ConstInfoRaw::Unused => RawEntrySpec::Unused,
            ConstInfoRaw::Class { name_index } => RawEntrySpec::Class { name_index: *name_index },
            ConstInfoRaw::Fieldref { class_index, name_and_type_index } => RawEntrySpec::Fieldref {
                class_index: *class_index,
                name_and_type_index: *name_and_type_index,
            },
            ConstInfoRaw::Methodref { class_index, name_and_type_index } => RawEntrySpec::Methodref {
                class_index: *class_index,
                name_and_type_index: *name_and_type_index,
            },
            ConstInfoRaw::InterfaceMethodref {
                class_index,
                name_and_type_index,
            } => RawEntrySpec::InterfaceMethodref {
                class_index: *class_index,
                name_and_type_index: *name_and_type_index,
            },
            ConstInfoRaw::Str { string_index } => RawEntrySpec::Str { string_index: *string_index },
            ConstInfoRaw::Integer { bytes } => RawEntrySpec::Integer { bytes: *bytes },
            ConstInfoRaw::Float { bits } => RawEntrySpec::Float { bits: *bits },
            ConstInfoRaw::Long { bytes } => RawEntrySpec::Long { bytes: *bytes },
            ConstInfoRaw::Double { bits } => RawEntrySpec::Double { bits: *bits },
            ConstInfoRaw::NameAndType { name_index, descriptor_index } => RawEntrySpec::NameAndType {
                name_index: *name_index,
                descriptor_index: *descriptor_index,
            },
            ConstInfoRaw::Utf8 { bytes } => RawEntrySpec::Utf8 { bytes: bytes@ },
        }
    }
}

/// A resolved constant-pool entry, holding its payload strings directly.
#[derive(Debug, Clone)]
pub enum ConstInfo {
    Unused,
    Class { name: String },
    Fieldref { class: String, name: String, descriptor: String },
    Methodref { class: String, name: String, descriptor: String },
    InterfaceMethodref { class: String, name: String, descriptor: String },
    Str { string: String },
    Integer { bytes: i32 },
    Float { bits: u32 },
    Long { bytes: i64 },
    Double { bits: u64 },
    NameAndType { name: String, descriptor: String },
    Utf8 { bytes: String },
}

/// Mathematical value of a resolved entry.
pub enum CpEntrySpec {
    Unused,
    Class { name: Seq<char> },
    Fieldref { class: Seq<char>, name: Seq<char>, descriptor: Seq<char> },
    Methodref { class: Seq<char>, name: Seq<char>, descriptor: Seq<char> },
    InterfaceMethodref { class: Seq<char>, name: Seq<char>, descriptor: Seq<char> },
    Str { string: Seq<char> },
    Integer { bytes: i32 },
    Float { bits: u32 },
    Long { bytes: i64 },
    Double { bits: u64 },
    NameAndType { name: Seq<char>, descriptor: Seq<char> },
    Utf8 { bytes: Seq<char> },
}

impl View for ConstInfo {
    type V = CpEntrySpec;

    open spec fn view(&self) -> CpEntrySpec {
        match self {
            ConstInfo::Unused => CpEntrySpec::Unused,
            ConstInfo::Class { name } => CpEntrySpec::Class { name: name@ },
            ConstInfo::Fieldref { class, name, descriptor } => CpEntrySpec::Fieldref {
                class: class@,
                name: name@,
                descriptor: descriptor@,
            },
            ConstInfo::Methodref { class, name, descriptor } => CpEntrySpec::Methodref {
                class: class@,
                name: name@,
                descriptor: descriptor@,
            },
            ConstInfo::InterfaceMethodref { class, name, descriptor } => CpEntrySpec::InterfaceMethodref {
                class: class@,
                name: name@,
                descriptor: descriptor@,
            },
            ConstInfo::Str { string } => CpEntrySpec::Str { string: string@ },
            ConstInfo::Integer { bytes } => CpEntrySpec::Integer { bytes: *bytes },
            ConstInfo::Float { bits } => CpEntrySpec::Float { bits: *bits },
            ConstInfo::Long { bytes } => CpEntrySpec::Long { bytes: *bytes },
            ConstInfo::Double { bits } => CpEntrySpec::Double { bits: *bits },
            ConstInfo::NameAndType { name, descriptor } => CpEntrySpec::NameAndType {
                name: name@,
                descriptor: descriptor@,
            },
            ConstInfo::Utf8 { bytes } => CpEntrySpec::Utf8 { bytes: bytes@ },
        }
    }
}

/// View of a raw pool as entry values.
pub open spec fn raw_pool_view(s: Seq<ConstInfoRaw>) -> Seq<RawEntrySpec> {
    s.map_values(|e: ConstInfoRaw| e@)
}

/// The UTF-8 payload at index `i` of the raw pool, if that entry is UTF-8.
pub open spec fn spec_utf8_at(raw: Seq<RawEntrySpec>, i: int) -> Option<Seq<char>> {
    if 0 <= i < raw.len() {
        match raw[i] {
            RawEntrySpec::Utf8 { bytes } => Some(bytes),
            _ => None,
        }
    } else {
        None
    }
}

/// The class name reachable from a `Class` entry at index `i`.
pub open spec fn spec_class_name_at(raw: Seq<RawEntrySpec>, i: int) -> Option<Seq<char>> {
    if 0 <= i < raw.len() {
        match raw[i] {
            RawEntrySpec::Class { name_index } => spec_utf8_at(raw, name_index as int),
            _ => None,
        }
    } else {
        None
    }
}

/// The name and descriptor reachable from a `NameAndType` entry at index `i`.
pub open spec fn spec_name_and_type_at(raw: Seq<RawEntrySpec>, i: int) -> Option<
    (Seq<char>, Seq<char>),
> {
    if 0 <= i < raw.len() {
        match raw[i] {
            RawEntrySpec::NameAndType { name_index, descriptor_index } => {
                match (
                    spec_utf8_at(raw, name_index as int),
                    spec_utf8_at(raw, descriptor_index as int),
                ) {
                    (Some(n), Some(d)) => Some((n, d)),
                    _ => None,
                }
            },
            _ => None,
        }
    } else {
        None
    }
}

/// The resolved form of the raw entry at index `i`, or `None` when one of
/// its referents is missing or of the wrong kind.
pub open spec fn spec_resolve_entry(raw: Seq<RawEntrySpec>, i: int) -> Option<CpEntrySpec> {
    if 0 <= i < raw.len() {
        match raw[i] {
            RawEntrySpec::Unused => Some(CpEntrySpec::Unused),
            RawEntrySpec::Class { name_index } => match spec_utf8_at(raw, name_index as int) {
                Some(name) => Some(CpEntrySpec::Class { name }),
                None => None,
            },
            RawEntrySpec::Fieldref { class_index, name_and_type_index } => {
                match (
                    spec_class_name_at(raw, class_index as int),
                    spec_name_and_type_at(raw, name_and_type_index as int),
                ) {
                    (Some(class), Some((name, descriptor))) => Some(
                        CpEntrySpec::Fieldref { class, name, descriptor },
                    ),
                    _ => None,
                }
            },
            RawEntrySpec::Methodref { class_index, name_and_type_index } => {
                match (
                    spec_class_name_at(raw, class_index as int),
                    spec_name_and_type_at(raw, name_and_type_index as int),
                ) {
                    (Some(class), Some((name, descriptor))) => Some(
                        CpEntrySpec::Methodref { class, name, descriptor },
                    ),
                    _ => None,
                }
            },
            RawEntrySpec::InterfaceMethodref { class_index, name_and_type_index } => {
                match (
                    spec_class_name_at(raw, class_index as int),
                    spec_name_and_type_at(raw, name_and_type_index as int),
                ) {
                    (Some(class), Some((name, descriptor))) => Some(
                        CpEntrySpec::InterfaceMethodref { class, name, descriptor },
                    ),
                    _ => None,
                }
            },
            RawEntrySpec::Str { string_index } => match spec_utf8_at(raw, string_index as int) {
                Some(string) => Some(CpEntrySpec::Str { string }),
                None => None,
            },
            RawEntrySpec::Integer { bytes } => Some(CpEntrySpec::Integer { bytes }),
            RawEntrySpec::Float { bits } => Some(CpEntrySpec::Float { bits }),
            RawEntrySpec::Long { bytes } => Some(CpEntrySpec::Long { bytes }),
            RawEntrySpec::Double { bits } => Some(CpEntrySpec::Double { bits }),
            RawEntrySpec::NameAndType { name_index, descriptor_index } => {
                match (
                    spec_utf8_at(raw, name_index as int),
                    spec_utf8_at(raw, descriptor_index as int),
                ) {
                    (Some(name), Some(descriptor)) => Some(
                        CpEntrySpec::NameAndType { name, descriptor },
                    ),
                    _ => None,
                }
            },
            RawEntrySpec::Utf8 { bytes } => Some(CpEntrySpec::Utf8 { bytes }),
        }
    } else {
        None
    }
}

/// Whether every entry of the raw pool resolves.
pub open spec fn all_entries_resolve(raw: Seq<RawEntrySpec>) -> bool {
    forall|i: int| 0 <= i < raw.len() ==> spec_resolve_entry(raw, i) is Some
}

/// The fully resolved pool.
pub open spec fn spec_resolved_pool(raw: Seq<RawEntrySpec>) -> Seq<CpEntrySpec> {
    Seq::new(raw.len(), |i: int| spec_resolve_entry(raw, i).unwrap())
}

/// A slot is unused only at index 0 or as the second slot of a `Long` or
/// `Double` entry.
pub open spec fn pool_two_slot_rule(pool: Seq<CpEntrySpec>) -> bool {
    forall|i: int|
        1 <= i < pool.len() && #[trigger] pool[i] is Unused ==> (pool[i - 1] is Long || pool[
            i - 1
        ] is Double)
}

fn utf8_at(raw: &Vec<ConstInfoRaw>, idx: u16) -> (r: Result<String, VmError>)
    ensures
        r matches Ok(s) ==> spec_utf8_at(raw_pool_view(raw@), idx as int) == Some(s@),
        r is Err ==> spec_utf8_at(raw_pool_view(raw@), idx as int) is None && r == Err::<
            String,
            VmError,
        >(VmError::MalformedClassFile),
{
    if (idx as usize) < raw.len() {
        match &raw[idx as usize] {
            ConstInfoRaw::Utf8 { bytes } => Ok(bytes.clone()),
            _ => Err(VmError::MalformedClassFile),
        }
    } else {
        Err(VmError::MalformedClassFile)
    }
}

fn class_name_at(raw: &Vec<ConstInfoRaw>, idx: u16) -> (r: Result<String, VmError>)
    ensures
        r matches Ok(s) ==> spec_class_name_at(raw_pool_view(raw@), idx as int) == Some(s@),
        r is Err ==> spec_class_name_at(raw_pool_view(raw@), idx as int) is None && r == Err::<
            String,
            VmError,
        >(VmError::MalformedClassFile),
{
    if (idx as usize) < raw.len() {
        match &raw[idx as usize] {
            ConstInfoRaw::Class { name_index } => utf8_at(raw, *name_index),
            _ => Err(VmError::MalformedClassFile),
        }
    } else {
        Err(VmError::MalformedClassFile)
    }
}

fn name_and_type_at(raw: &Vec<ConstInfoRaw>, idx: u16) -> (r: Result<(String, String), VmError>)
    ensures
        r matches Ok(p) ==> spec_name_and_type_at(raw_pool_view(raw@), idx as int) == Some(
            (p.0@, p.1@),
        ),
        r is Err ==> spec_name_and_type_at(raw_pool_view(raw@), idx as int) is None && r == Err::<
            (String, String),
            VmError,
        >(VmError::MalformedClassFile),
{
    if (idx as usize) < raw.len() {
        match &raw[idx as usize] {
            ConstInfoRaw::NameAndType { name_index, descriptor_index } => {
                let name = utf8_at(raw, *name_index)?;
                let descriptor = utf8_at(raw, *descriptor_index)?;
                Ok((name, descriptor))
            },
            _ => Err(VmError::MalformedClassFile),
        }
    } else {
        Err(VmError::MalformedClassFile)
    }
}

/// Resolve the raw entry at index `i`.
fn resolve_entry(raw: &Vec<ConstInfoRaw>, i: usize) -> (r: Result<ConstInfo, VmError>)
    requires
        i < raw@.len(),
    ensures
        r matches Ok(e) ==> spec_resolve_entry(raw_pool_view(raw@), i as int) == Some(e@),
        r is Err ==> spec_resolve_entry(raw_pool_view(raw@), i as int) is None && r == Err::<
            ConstInfo,
            VmError,
        >(VmError::MalformedClassFile),
{
    match &raw[i] {
        ConstInfoRaw::Unused => Ok(ConstInfo::Unused),
        ConstInfoRaw::Class { name_index } => {
            let name = utf8_at(raw, *name_index)?;
            Ok(ConstInfo::Class { name })
        },
        ConstInfoRaw::Fieldref { class_index, name_and_type_index } => {
            let class = class_name_at(raw, *class_index)?;
            let (name, descriptor) = name_and_type_at(raw, *name_and_type_index)?;
            Ok(ConstInfo::Fieldref { class, name, descriptor })
        },
        ConstInfoRaw::Methodref { class_index, name_and_type_index } => {
            let class = class_name_at(raw, *class_index)?;
            let (name, descriptor) = name_and_type_at(raw, *name_and_type_index)?;
            Ok(ConstInfo::Methodref { class, name, descriptor })
        },
        ConstInfoRaw::InterfaceMethodref { class_index, name_and_type_index } => {
            let class = class_name_at(raw, *class_index)?;
            let (name, descriptor) = name_and_type_at(raw, *name_and_type_index)?;
            Ok(ConstInfo::InterfaceMethodref { class, name, descriptor })
        },
        ConstInfoRaw::Str { string_index } => {
            let string = utf8_at(raw, *string_index)?;
            Ok(ConstInfo::Str { string })
        },
        ConstInfoRaw::Integer { bytes } => Ok(ConstInfo::Integer { bytes: *bytes }),
        ConstInfoRaw::Float { bits } => Ok(ConstInfo::Float { bits: *bits }),
        ConstInfoRaw::Long { bytes } => Ok(ConstInfo::Long { bytes: *bytes }),
        ConstInfoRaw::Double { bits } => Ok(ConstInfo::Double { bits: *bits }),
        ConstInfoRaw::NameAndType { name_index, descriptor_index } => {
            let name = utf8_at(raw, *name_index)?;
            let descriptor = utf8_at(raw, *descriptor_index)?;
            Ok(ConstInfo::NameAndType { name, descriptor })
        },
        ConstInfoRaw::Utf8 { bytes } => Ok(ConstInfo::Utf8 { bytes: bytes.clone() }),
    }
}

/// A fully resolved constant pool.
#[derive(Debug)]
pub struct ConstantPool {
    pub pool: Vec<ConstInfo>,
}

impl View for ConstantPool {
    type V = Seq<CpEntrySpec>;

    open spec fn view(&self) -> Seq<CpEntrySpec> {
        self.pool@.map_values(|e: ConstInfo| e@)
    }
}

impl ConstantPool {
    /// Resolve a raw pool into a pool of self-contained entries. Fails with
    /// `VmError::MalformedClassFile` exactly when some entry has a referent
    /// that is missing or of the wrong kind.
    pub fn new(pool_raw: &Vec<ConstInfoRaw>) -> (r: Result<Self, VmError>)
        ensures
            r matches Ok(p) ==> all_entries_resolve(raw_pool_view(pool_raw@)) && p@
                == spec_resolved_pool(raw_pool_view(pool_raw@)),
            r is Err ==> !all_entries_resolve(raw_pool_view(pool_raw@)) && r == Err::<
                Self,
                VmError,
            >(VmError::MalformedClassFile),
    {
        let mut pool: Vec<ConstInfo> = Vec::new();
        let n = pool_raw.len();
        let mut i: usize = 0;
        while i < n
            invariant
                i <= n,
                n == pool_raw@.len(),
                pool@.len() == i,
                forall|k: int|
                    0 <= k < i ==> spec_resolve_entry(raw_pool_view(pool_raw@), k) == Some(
                        (#[trigger] pool@[k])@,
                    ),
            decreases n - i,
        {
            match resolve_entry(pool_raw, i) {
                Ok(e) => {
                    pool.push(e);
                },
                Err(e) => {
                    return Err(e);
                },
            }
            i = i + 1;
        }
        let r = ConstantPool { pool };
        proof {
            let ghost raw = raw_pool_view(pool_raw@);
            assert forall|k: int| 0 <= k < raw.len() implies spec_resolve_entry(
                raw,
                k,
            ) is Some by {
                assert(spec_resolve_entry(raw, k) == Some(r.pool@[k]@));
            }
            assert(all_entries_resolve(raw));
            assert forall|k: int| 0 <= k < n implies r@[k] == spec_resolved_pool(raw)[k] by {
                assert(r@[k] == r.pool@[k]@);
                assert(spec_resolve_entry(raw, k) == Some(r.pool@[k]@));
            }
            assert(r@ =~= spec_resolved_pool(raw));
        }
        Ok(r)
    }

    /// Number of index slots, the reserved slot 0 included.
    pub fn len(&self) -> (r: usize)
        ensures
            r == self@.len(),
    {
        self.pool.len()
    }

    /// The resolved entry at `idx`; `VmError::IndexOutOfRange` beyond the
    /// pool.
    pub fn get(&self, idx: u16) -> (r: Result<&ConstInfo, VmError>)
        ensures
            r matches Ok(e) ==> idx < self@.len() && e@ == self@[idx as int],
            r is Err ==> idx >= self@.len() && r == Err::<&ConstInfo, VmError>(
                VmError::IndexOutOfRange,
            ),
    {
        if (idx as usize) < self.pool.len() {
            Ok(&self.pool[idx as usize])
        } else {
            Err(VmError::IndexOutOfRange)
        }
    }

    /// The UTF-8 payload at `idx`. `VmError::IndexOutOfRange` beyond the
    /// pool; `VmError::MalformedClassFile` when the entry is not UTF-8.
    pub fn get_utf8(&self, idx: u16) -> (r: Result<String, VmError>)
        ensures
            r matches Ok(s) ==> idx < self@.len() && self@[idx as int] == (CpEntrySpec::Utf8 {
                bytes: s@,
            }),
            r is Err ==> (idx < self@.len() ==> !(self@[idx as int] is Utf8)),
            r is Err ==> r == Err::<String, VmError>(
                if idx < self@.len() {
                    VmError::MalformedClassFile
                } else {
                    VmError::IndexOutOfRange
                },
            ),
    {
        match self.get(idx)? {
            ConstInfo::Utf8 { bytes } => Ok(bytes.clone()),
            _ => Err(VmError::MalformedClassFile),
        }
    }

    /// The `(class, name, descriptor)` triple of the `Fieldref` entry at
    /// `idx`.
    pub fn get_field(&self, idx: u16) -> (r: Result<(String, String, String), VmError>)
        ensures
            r matches Ok(t) ==> idx < self@.len() && self@[idx as int] == (CpEntrySpec::Fieldref {
                class: t.0@,
                name: t.1@,
                descriptor: t.2@,
            }),
            r is Err ==> (idx < self@.len() ==> !(self@[idx as int] is Fieldref)),
            r is Err ==> r == Err::<(String, String, String), VmError>(
                if idx < self@.len() {
                    VmError::MalformedClassFile
                } else {
                    VmError::IndexOutOfRange
                },
            ),
    {
        match self.get(idx)? {
            ConstInfo::Fieldref { class, name, descriptor } => Ok(
                (class.clone(), name.clone(), descriptor.clone()),
            ),
            _ => Err(VmError::MalformedClassFile),
        }
    }

    /// The `(class, name, descriptor)` triple of the `Methodref` or
    /// `InterfaceMethodref` entry at `idx`; the two are not distinguished at
    /// this layer.
    pub fn get_method(&self, idx: u16) -> (r: Result<(String, String, String), VmError>)
        ensures
            r matches Ok(t) ==> idx < self@.len() && (self@[idx as int] == (CpEntrySpec::Methodref {
                class: t.0@,
                name: t.1@,
                descriptor: t.2@,
            }) || self@[idx as int] == (CpEntrySpec::InterfaceMethodref {
                class: t.0@,
                name: t.1@,
                descriptor: t.2@,
            })),
            r is Err ==> (idx < self@.len() ==> !(self@[idx as int] is Methodref) && !(self@[
                idx as int
            ] is InterfaceMethodref)),
            r is Err ==> r == Err::<(String, String, String), VmError>(
                if idx < self@.len() {
                    VmError::MalformedClassFile
                } else {
                    VmError::IndexOutOfRange
                },
            ),
    {
        match self.get(idx)? {
            ConstInfo::Methodref { class, name, descriptor } => Ok(
                (class.clone(), name.clone(), descriptor.clone()),
            ),
            ConstInfo::InterfaceMethodref { class, name, descriptor } => Ok(
                (class.clone(), name.clone(), descriptor.clone()),
            ),
            _ => Err(VmError::MalformedClassFile),
        }
    }
}

} // verus!
