//! The class-file parser.
//!
//! A class file is: the magic number `0xCAFEBABE`, two version words, the
//! constant pool, access flags, this- and super-class indices, the
//! implemented interfaces, the field records, the method records, and
//! class-level attributes; all multi-byte fields big-endian. Parsing fails
//! on a magic mismatch, an out-of-range index, a UTF-8 decode failure, a
//! length that overruns the input, a bad cross-reference in the constant
//! pool, and on trailing bytes after the declared structure.
//!
//! The `spec_parse_*` functions state what each section of the input means;
//! the executable parser returns exactly what they describe, and
//! `parse_class_file` consumes the whole input. Attributes other than
//! `Code` (on methods) and `ConstantValue` (on fields) are skipped by their
//! declared length; the contents of an attribute are read only inside its
//! declared extent.

use vstd::prelude::*;
use vstd::string::StringExecFns;
use vstd::utf8::valid_utf8;
use vstd::utf8::decode_utf8;

use crate::class::Code;
use crate::class::CodeSpec;
use crate::class::ExceptionTableEntry;
use crate::class::FieldInfo;
use crate::class::FieldInfoSpec;
use crate::class::JClass;
use crate::class::JClassSpec;
use crate::class::JValue;
use crate::class::MethodInfo;
use crate::class::MethodInfoSpec;
use crate::desc::parse_field_desc;
use crate::desc::parse_method_desc;
use crate::desc::JType;
use crate::err::VmError;
use crate::op::spec_be16;
use crate::op::spec_be32;
use crate::op::u32_to_i32;
use crate::op::u64_to_i64;
use crate::pool::all_entries_resolve;
use crate::pool::pool_two_slot_rule;
use crate::pool::raw_pool_view;
use crate::pool::spec_resolved_pool;
use crate::pool::ConstantPool;
use crate::pool::ConstInfoRaw;
use crate::pool::CpEntrySpec;
use crate::pool::RawEntrySpec;
use crate::reader::spec_be64;
use crate::reader::Reader;

verus! {

/// A 64-bit big-endian value reinterpreted as signed.
pub open spec fn spec_as_i64(v: u64) -> i64 {
    (if v < 0x8000000000000000 {
        v as int
    } else {
        v - 0x10000000000000000
    }) as i64
}

/// A 32-bit big-endian value reinterpreted as signed.
pub open spec fn spec_as_i32(v: u32) -> i32 {
    (if v < 0x80000000 {
        v as int
    } else {
        v - 0x100000000
    }) as i32
}

/// The UTF-8 payload of the resolved entry at `i`, if that entry is UTF-8.
pub open spec fn spec_pool_utf8(cp: Seq<CpEntrySpec>, i: int) -> Option<Seq<char>> {
    if 0 <= i < cp.len() {
        match cp[i] {
            CpEntrySpec::Utf8 { bytes } => Some(bytes),
            _ => None,
        }
    } else {
        None
    }
}

/// The name of the `Class` entry at `i` of the resolved pool.
pub open spec fn spec_pool_class_name(cp: Seq<CpEntrySpec>, i: int) -> Option<Seq<char>> {
    if 0 <= i < cp.len() {
        match cp[i] {
            CpEntrySpec::Class { name } => Some(name),
            _ => None,
        }
    } else {
        None
    }
}

/// The initializer value denoted by the pool entry a `ConstantValue`
/// attribute points at. String constants are reference values; object
/// handles are outside the executable core, so they initialize to `Null`.
pub open spec fn spec_constant_value(cp: Seq<CpEntrySpec>, i: int) -> Option<JValue> {
    if 0 <= i < cp.len() {
        match cp[i] {
            CpEntrySpec::Integer { bytes } => Some(JValue::Int(bytes)),
            CpEntrySpec::Long { bytes } => Some(JValue::Long(bytes)),
            CpEntrySpec::Float { bits } => Some(JValue::FloatBits(bits)),
            CpEntrySpec::Double { bits } => Some(JValue::DoubleBits(bits)),
            CpEntrySpec::Str { string } => Some(JValue::Null),
            _ => None,
        }
    } else {
        None
    }
}

/// One raw constant-pool entry at `pos`: the entry, the number of index
/// slots it occupies (2 for `Long` and `Double`, else 1), and the position
/// after it. `None` on an unknown tag, a truncated entry, or an invalid
/// UTF-8 payload.
pub open spec fn spec_parse_cp_entry(s: Seq<u8>, pos: int) -> Option<(RawEntrySpec, int, int)> {
    if pos + 1 <= s.len() {
        let tag = s[pos];
        if tag == 7 {
            if pos + 3 <= s.len() {
                Some((RawEntrySpec::Class { name_index: spec_be16(s, pos + 1) }, 1, pos + 3))
            } else {
                None
            }
        } else if tag == 9 {
            if pos + 5 <= s.len() {
                Some(
                    (
                        RawEntrySpec::Fieldref {
                            class_index: spec_be16(s, pos + 1),
                            name_and_type_index: spec_be16(s, pos + 3),
                        },
                        1,
                        pos + 5,
                    ),
                )
            } else {
                None
            }
        } else if tag == 10 {
            if pos + 5 <= s.len() {
                Some(
                    (
                        RawEntrySpec::Methodref {
                            class_index: spec_be16(s, pos + 1),
                            name_and_type_index: spec_be16(s, pos + 3),
                        },
                        1,
                        pos + 5,
                    ),
                )
            } else {
                None
            }
        } else if tag == 11 {
            if pos + 5 <= s.len() {
                Some(
                    (
                        RawEntrySpec::InterfaceMethodref {
                            class_index: spec_be16(s, pos + 1),
                            name_and_type_index: spec_be16(s, pos + 3),
                        },
                        1,
                        pos + 5,
                    ),
                )
            } else {
                None
            }
        } else if tag == 8 {
            if pos + 3 <= s.len() {
                Some((RawEntrySpec::Str { string_index: spec_be16(s, pos + 1) }, 1, pos + 3))
            } else {
                None
            }
        } else if tag == 3 {
            if pos + 5 <= s.len() {
                Some((RawEntrySpec::Integer { bytes: spec_as_i32(spec_be32(s, pos + 1)) }, 1, pos + 5))
            } else {
                None
            }
        } else if tag == 4 {
            if pos + 5 <= s.len() {
                Some((RawEntrySpec::Float { bits: spec_be32(s, pos + 1) }, 1, pos + 5))
            } else {
                None
            }
        } else if tag == 5 {
            if pos + 9 <= s.len() {
                Some((RawEntrySpec::Long { bytes: spec_as_i64(spec_be64(s, pos + 1)) }, 2, pos + 9))
            } else {
                None
            }
        } else if tag == 6 {
            if pos + 9 <= s.len() {
                Some((RawEntrySpec::Double { bits: spec_be64(s, pos + 1) }, 2, pos + 9))
            } else {
                None
            }
        } else if tag == 12 {
            if pos + 5 <= s.len() {
                Some(
                    (
                        RawEntrySpec::NameAndType {
                            name_index: spec_be16(s, pos + 1),
                            descriptor_index: spec_be16(s, pos + 3),
                        },
                        1,
                        pos + 5,
                    ),
                )
            } else {
                None
            }
        } else if tag == 1 {
            if pos + 3 <= s.len() {
                let l = spec_be16(s, pos + 1) as int;
                if pos + 3 + l <= s.len() && valid_utf8(s.subrange(pos + 3, pos + 3 + l)) {
                    Some(
                        (
                            RawEntrySpec::Utf8 {
                                bytes: decode_utf8(s.subrange(pos + 3, pos + 3 + l)),
                            },
                            1,
                            pos + 3 + l,
                        ),
                    )
                } else {
                    None
                }
            } else {
                None
            }
        } else {
            None
        }
    } else {
        None
    }
}

/// The raw entries filling exactly `slots` index slots from `pos` on, the
/// second slot of each `Long` or `Double` entry filled with `Unused`, and
/// the position after them.
pub open spec fn spec_parse_cp_items(s: Seq<u8>, pos: int, slots: int) -> Option<
    (Seq<RawEntrySpec>, int),
>
    decreases slots,
{
    if slots <= 0 {
        Some((Seq::empty(), pos))
    } else {
        match spec_parse_cp_entry(s, pos) {
            Some((e, k, pos2)) => if 1 <= k <= slots {
                match spec_parse_cp_items(s, pos2, slots - k) {
                    Some((rest, pend)) => Some(
                        (
                            (if k == 2 {
                                seq![e, RawEntrySpec::Unused]
                            } else {
                                seq![e]
                            }) + rest,
                            pend,
                        ),
                    ),
                    None => None,
                }
            } else {
                None
            },
            None => None,
        }
    }
}

/// The whole raw constant pool at `pos`: its 16-bit slot count (pool size
/// plus one, at least 1), then entries for the remaining slots, with the
/// reserved `Unused` entry in front.
pub open spec fn spec_parse_cp(s: Seq<u8>, pos: int) -> Option<(Seq<RawEntrySpec>, int)> {
    if pos + 2 <= s.len() {
        let count = spec_be16(s, pos) as int;
        if count >= 1 {
            match spec_parse_cp_items(s, pos + 2, count - 1) {
                Some((items, pend)) => Some((seq![RawEntrySpec::Unused] + items, pend)),
                None => None,
            }
        } else {
            None
        }
    } else {
        None
    }
}

/// The resolved constant pool at `pos` and the position after it; `None`
/// when the raw pool does not parse or some entry does not resolve.
pub open spec fn spec_parse_and_resolve_cp(s: Seq<u8>, pos: int) -> Option<
    (Seq<CpEntrySpec>, int),
> {
    match spec_parse_cp(s, pos) {
        Some((raw, pend)) => if all_entries_resolve(raw) {
            Some((spec_resolved_pool(raw), pend))
        } else {
            None
        },
        None => None,
    }
}

/// Decodes a UTF-8 byte vector.
///
/// Relies on std's `str::from_utf8`: it succeeds exactly on valid UTF-8
/// input and yields the string made of those bytes.
#[verifier::external_body]
fn utf8_to_string(v: &Vec<u8>) -> (r: Option<String>)
    ensures
        r is Some <==> valid_utf8(v@),
        r matches Some(s) ==> s@ == decode_utf8(v@),
{
    match std::str::from_utf8(v.as_slice()) {
        Ok(s) => Some(s.to_string()),
        Err(_) => None,
    }
}

/// Parse one raw constant-pool entry, returning it and the number of index
/// slots it occupies.
fn parse_cp_entry(r: &mut Reader<'_>) -> (res: Result<(ConstInfoRaw, usize), VmError>)
    requires
        old(r).wf(),
    ensures
        final(r).wf(),
        final(r).buf@ == old(r).buf@,
        res matches Ok((e, k)) ==> spec_parse_cp_entry(old(r).buf@, old(r).pos as int) == Some(
            (e@, k as int, final(r).pos as int),
        ),
        res is Err ==> spec_parse_cp_entry(old(r).buf@, old(r).pos as int) is None && res == Err::<
            (ConstInfoRaw, usize),
            VmError,
        >(VmError::MalformedClassFile),
{
    let tag = r.read_u8()?;
    if tag == 7 {
        let name_index = r.read_u16()?;
        Ok((ConstInfoRaw::Class { name_index }, 1))
    } else if tag == 9 {
        let class_index = r.read_u16()?;
        let name_and_type_index = r.read_u16()?;
        Ok((ConstInfoRaw::Fieldref { class_index, name_and_type_index }, 1))
    } else if tag == 10 {
        let class_index = r.read_u16()?;
        let name_and_type_index = r.read_u16()?;
        Ok((ConstInfoRaw::Methodref { class_index, name_and_type_index }, 1))
    } else if tag == 11 {
        let class_index = r.read_u16()?;
        let name_and_type_index = r.read_u16()?;
        Ok((ConstInfoRaw::InterfaceMethodref { class_index, name_and_type_index }, 1))
    } else if tag == 8 {
        let string_index = r.read_u16()?;
        Ok((ConstInfoRaw::Str { string_index }, 1))
    } else if tag == 3 {
        let v = r.read_u32()?;
        Ok((ConstInfoRaw::Integer { bytes: u32_to_i32(v) }, 1))
    } else if tag == 4 {
        let v = r.read_u32()?;
        Ok((ConstInfoRaw::Float { bits: v }, 1))
    } else if tag == 5 {
        let v = r.read_u64()?;
        Ok((ConstInfoRaw::Long { bytes: u64_to_i64(v) }, 2))
    } else if tag == 6 {
        let v = r.read_u64()?;
        Ok((ConstInfoRaw::Double { bits: v }, 2))
    } else if tag == 12 {
        let name_index = r.read_u16()?;
        let descriptor_index = r.read_u16()?;
        Ok((ConstInfoRaw::NameAndType { name_index, descriptor_index }, 1))
    } else if tag == 1 {
        let length = r.read_u16()?;
        let bytes = r.take(length as usize)?;
        match utf8_to_string(&bytes) {
            Some(s) => Ok((ConstInfoRaw::Utf8 { bytes: s }, 1)),
            None => Err(VmError::MalformedClassFile),
        }
    } else {
        Err(VmError::MalformedClassFile)
    }
}

/// Parse and resolve the constant pool. The returned pool satisfies the
/// two-slot rule: an unused slot stands only at index 0 or right after a
/// `Long` or `Double` entry.
pub fn parse_cp_info(r: &mut Reader<'_>) -> (res: Result<ConstantPool, VmError>)
    requires
        old(r).wf(),
    ensures
        final(r).wf(),
        final(r).buf@ == old(r).buf@,
        res matches Ok(cp) ==> spec_parse_and_resolve_cp(old(r).buf@, old(r).pos as int) == Some(
            (cp@, final(r).pos as int),
        ) && pool_two_slot_rule(cp@),
        res is Err ==> spec_parse_and_resolve_cp(old(r).buf@, old(r).pos as int) is None && res
            == Err::<ConstantPool, VmError>(VmError::MalformedClassFile),
{
    let ghost s = r.buf@;
    let ghost pos0 = r.pos as int;
    let count = r.read_u16()?;
    if count == 0 {
        return Err(VmError::MalformedClassFile);
    }
    let mut pool_raw: Vec<ConstInfoRaw> = Vec::new();
    pool_raw.push(ConstInfoRaw::Unused);
    let mut slots_left: usize = (count - 1) as usize;
    proof {
        assert(raw_pool_view(pool_raw@) =~= seq![RawEntrySpec::Unused]);
    }
    loop
        invariant
            r.wf(),
            r.buf@ == s,
            s == old(r).buf@,
            pos0 == old(r).pos as int,
            pos0 + 2 <= s.len(),
            count == spec_be16(s, pos0),
            count >= 1,
            pool_raw@.len() >= 1,
            raw_pool_view(pool_raw@)[0] == RawEntrySpec::Unused,
            pool_two_slot_rule_raw(raw_pool_view(pool_raw@)),
            match spec_parse_cp_items(s, r.pos as int, slots_left as int) {
                Some((rest, pend)) => spec_parse_cp_items(s, pos0 + 2, count - 1) == Some(
                    (raw_pool_view(pool_raw@).skip(1) + rest, pend),
                ),
                None => spec_parse_cp_items(s, pos0 + 2, count - 1) is None,
            },
        ensures
            slots_left == 0,
            r.wf(),
            r.buf@ == s,
            pool_raw@.len() >= 1,
            raw_pool_view(pool_raw@)[0] == RawEntrySpec::Unused,
            pool_two_slot_rule_raw(raw_pool_view(pool_raw@)),
            spec_parse_cp_items(s, pos0 + 2, count - 1) == Some(
                (raw_pool_view(pool_raw@).skip(1), r.pos as int),
            ),
        decreases slots_left,
    {
        if slots_left == 0 {
            proof {
                assert(raw_pool_view(pool_raw@).skip(1) + Seq::<RawEntrySpec>::empty()
                    =~= raw_pool_view(pool_raw@).skip(1));
            }
            break ;
        }
        let ghost prev = raw_pool_view(pool_raw@);
        let ghost slots_prev = slots_left as int;
        let ghost pos_prev = r.pos as int;
        let (e, k) = match parse_cp_entry(r) {
            Ok(p) => p,
            Err(err) => {
                return Err(err);
            },
        };
        if k > slots_left {
            return Err(VmError::MalformedClassFile);
        }
        let ghost ev = e@;
        pool_raw.push(e);
        if k == 2 {
            pool_raw.push(ConstInfoRaw::Unused);
        }
        slots_left = slots_left - k;
        proof {
            let cur = raw_pool_view(pool_raw@);
            if k == 2 {
                assert(cur =~= prev + seq![ev, RawEntrySpec::Unused]);
            } else {
                assert(cur =~= prev + seq![ev]);
            }
            assert(pool_two_slot_rule_raw(cur));
            match spec_parse_cp_items(s, r.pos as int, slots_left as int) {
                Some((rest, pend)) => {
                    assert(spec_parse_cp_items(s, pos_prev, slots_prev) == Some(
                        ((if k == 2 {
                            seq![ev, RawEntrySpec::Unused]
                        } else {
                            seq![ev]
                        }) + rest, pend),
                    ));
                    assert(cur.skip(1) + rest =~= prev.skip(1) + ((if k == 2 {
                        seq![ev, RawEntrySpec::Unused]
                    } else {
                        seq![ev]
                    }) + rest));
                },
                None => {},
            }
        }
    }
    proof {
        assert(seq![RawEntrySpec::Unused] + raw_pool_view(pool_raw@).skip(1) =~= raw_pool_view(
            pool_raw@,
        ));
        assert(spec_parse_cp(s, pos0) == Some((raw_pool_view(pool_raw@), r.pos as int)));
    }
    let cp = ConstantPool::new(&pool_raw)?;
    proof {
        lemma_resolved_two_slot(raw_pool_view(pool_raw@));
    }
    Ok(cp)
}

/// The two-slot rule over raw entries.
pub open spec fn pool_two_slot_rule_raw(pool: Seq<RawEntrySpec>) -> bool {
    forall|i: int|
        1 <= i < pool.len() && #[trigger] pool[i] is Unused ==> (pool[i - 1] is Long || pool[
            i - 1
        ] is Double)
}

proof fn lemma_resolved_two_slot(raw: Seq<RawEntrySpec>)
    requires
        pool_two_slot_rule_raw(raw),
        all_entries_resolve(raw),
    ensures
        pool_two_slot_rule(spec_resolved_pool(raw)),
{
    let res = spec_resolved_pool(raw);
    assert forall|i: int| 1 <= i < res.len() && #[trigger] res[i] is Unused implies (res[
        i - 1
    ] is Long || res[i - 1] is Double) by {
        assert(res[i] == crate::pool::spec_resolve_entry(raw, i).unwrap());
        assert(raw[i] is Unused);
        assert(res[i - 1] == crate::pool::spec_resolve_entry(raw, i - 1).unwrap());
    }
}


/// The position after skipping `n` attributes starting at `pos`, each a
/// 16-bit pool index of a UTF-8 name, a 32-bit length, and that many
/// content bytes, all inside `[pos, lim)`.
pub open spec fn spec_skip_attrs(s: Seq<u8>, pos: int, lim: int, cp: Seq<CpEntrySpec>, n: int) -> Option<int>
    decreases n,
{
    if n <= 0 {
        Some(pos)
    } else if pos + 6 <= lim {
        match spec_pool_utf8(cp, spec_be16(s, pos) as int) {
            Some(name) => {
                let l = spec_be32(s, pos + 2) as int;
                if pos + 6 + l <= lim {
                    spec_skip_attrs(s, pos + 6 + l, lim, cp, n - 1)
                } else {
                    None
                }
            },
            None => None,
        }
    } else {
        None
    }
}

/// The position after a count-prefixed attribute list whose contents are
/// all skipped.
pub open spec fn spec_skip_attributes(s: Seq<u8>, pos: int, lim: int, cp: Seq<CpEntrySpec>) -> Option<int> {
    if pos + 2 <= lim {
        spec_skip_attrs(s, pos + 2, lim, cp, spec_be16(s, pos) as int)
    } else {
        None
    }
}

/// The code block encoded by a `Code` attribute whose content occupies
/// `[pos, lim)`: max stack and locals, the instruction bytes, the exception
/// table, and nested attributes, which are skipped.
pub open spec fn spec_parse_code_attr(s: Seq<u8>, pos: int, lim: int, cp: Seq<CpEntrySpec>) -> Option<CodeSpec> {
    if pos + 8 <= lim {
        let max_stack = spec_be16(s, pos);
        let max_locals = spec_be16(s, pos + 2);
        let clen = spec_be32(s, pos + 4) as int;
        if pos + 8 + clen + 2 <= lim {
            let code = s.subrange(pos + 8, pos + 8 + clen);
            let q = pos + 8 + clen + 2;
            let etn = spec_be16(s, pos + 8 + clen) as int;
            if q + 8 * etn <= lim {
                let exception_table = Seq::new(
                    etn as nat,
                    |k: int| ExceptionTableEntry {
                        start_pc: spec_be16(s, q + 8 * k),
                        end_pc: spec_be16(s, q + 8 * k + 2),
                        handler_pc: spec_be16(s, q + 8 * k + 4),
                        catch_type: spec_be16(s, q + 8 * k + 6),
                    },
                );
                match spec_skip_attributes(s, q + 8 * etn, lim, cp) {
                    Some(pend) => Some(CodeSpec { max_stack, max_locals, code, exception_table }),
                    None => None,
                }
            } else {
                None
            }
        } else {
            None
        }
    } else {
        None
    }
}

/// The constant-value initializer gathered from `n` field attributes at
/// `pos`, the last `ConstantValue` attribute winning, and the position
/// after them.
pub open spec fn spec_field_attrs(s: Seq<u8>, pos: int, cp: Seq<CpEntrySpec>, n: int) -> Option<(Option<JValue>, int)>
    decreases n,
{
    if n <= 0 {
        Some((None, pos))
    } else if pos + 6 <= s.len() {
        match spec_pool_utf8(cp, spec_be16(s, pos) as int) {
            Some(name) => {
                let l = spec_be32(s, pos + 2) as int;
                if pos + 6 + l <= s.len() {
                    if name == "ConstantValue"@ {
                        if l == 2 {
                            match spec_constant_value(cp, spec_be16(s, pos + 6) as int) {
                                Some(v) => match spec_field_attrs(s, pos + 6 + l, cp, n - 1) {
                                    Some((v2, pend)) => Some(
                                        (
                                            if v2 is Some {
                                                v2
                                            } else {
                                                Some(v)
                                            },
                                            pend,
                                        ),
                                    ),
                                    None => None,
                                },
                                None => None,
                            }
                        } else {
                            None
                        }
                    } else {
                        spec_field_attrs(s, pos + 6 + l, cp, n - 1)
                    }
                } else {
                    None
                }
            },
            None => None,
        }
    } else {
        None
    }
}

/// The count-prefixed attribute list of a field record.
pub open spec fn spec_parse_field_attrs(s: Seq<u8>, pos: int, cp: Seq<CpEntrySpec>) -> Option<(Option<JValue>, int)> {
    if pos + 2 <= s.len() {
        spec_field_attrs(s, pos + 2, cp, spec_be16(s, pos) as int)
    } else {
        None
    }
}

/// The code block gathered from `n` method attributes at `pos`, the last
/// `Code` attribute winning, and the position after them.
pub open spec fn spec_method_attrs(s: Seq<u8>, pos: int, cp: Seq<CpEntrySpec>, n: int) -> Option<(Option<CodeSpec>, int)>
    decreases n,
{
    if n <= 0 {
        Some((None, pos))
    } else if pos + 6 <= s.len() {
        match spec_pool_utf8(cp, spec_be16(s, pos) as int) {
            Some(name) => {
                let l = spec_be32(s, pos + 2) as int;
                if pos + 6 + l <= s.len() {
                    if name == "Code"@ {
                        match spec_parse_code_attr(s, pos + 6, pos + 6 + l, cp) {
                            Some(code) => match spec_method_attrs(s, pos + 6 + l, cp, n - 1) {
                                Some((c2, pend)) => Some(
                                    (
                                        if c2 is Some {
                                            c2
                                        } else {
                                            Some(code)
                                        },
                                        pend,
                                    ),
                                ),
                                None => None,
                            },
                            None => None,
                        }
                    } else {
                        spec_method_attrs(s, pos + 6 + l, cp, n - 1)
                    }
                } else {
                    None
                }
            },
            None => None,
        }
    } else {
        None
    }
}

/// The count-prefixed attribute list of a method record.
pub open spec fn spec_parse_method_attrs(s: Seq<u8>, pos: int, cp: Seq<CpEntrySpec>) -> Option<(Option<CodeSpec>, int)> {
    if pos + 2 <= s.len() {
        spec_method_attrs(s, pos + 2, cp, spec_be16(s, pos) as int)
    } else {
        None
    }
}

/// One field record at `pos`: flags, pool indices of name and descriptor,
/// the parsed descriptor, and the attribute list.
pub open spec fn spec_parse_field_info(s: Seq<u8>, pos: int, cp: Seq<CpEntrySpec>) -> Option<(FieldInfoSpec, int)> {
    if pos + 6 <= s.len() {
        let access_flags = spec_be16(s, pos);
        match (
            spec_pool_utf8(cp, spec_be16(s, pos + 2) as int),
            spec_pool_utf8(cp, spec_be16(s, pos + 4) as int),
        ) {
            (Some(name), Some(descriptor)) => match crate::desc::spec_parse_field(descriptor) {
                Some(jtype) => match spec_parse_field_attrs(s, pos + 6, cp) {
                    Some((constant_value, pend)) => Some(
                        (
                            FieldInfoSpec {
                                access_flags,
                                name,
                                descriptor,
                                name_desc: name + descriptor,
                                constant_value,
                                jtype,
                            },
                            pend,
                        ),
                    ),
                    None => None,
                },
                None => None,
            },
            _ => None,
        }
    } else {
        None
    }
}

/// One method record at `pos`.
pub open spec fn spec_parse_method_info(s: Seq<u8>, pos: int, cp: Seq<CpEntrySpec>) -> Option<(MethodInfoSpec, int)> {
    if pos + 6 <= s.len() {
        let access_flags = spec_be16(s, pos);
        match (
            spec_pool_utf8(cp, spec_be16(s, pos + 2) as int),
            spec_pool_utf8(cp, spec_be16(s, pos + 4) as int),
        ) {
            (Some(name), Some(descriptor)) => match crate::desc::spec_parse_method(descriptor) {
                Some((param_types, ret_type)) => match spec_parse_method_attrs(s, pos + 6, cp) {
                    Some((code, pend)) => Some(
                        (
                            MethodInfoSpec {
                                access_flags,
                                name,
                                descriptor,
                                name_desc: name + descriptor,
                                code,
                                ret_type,
                                param_types,
                            },
                            pend,
                        ),
                    ),
                    None => None,
                },
                None => None,
            },
            _ => None,
        }
    } else {
        None
    }
}

/// `n` field records in a row.
pub open spec fn spec_parse_field_list(s: Seq<u8>, pos: int, cp: Seq<CpEntrySpec>, n: int) -> Option<(Seq<FieldInfoSpec>, int)>
    decreases n,
{
    if n <= 0 {
        Some((Seq::empty(), pos))
    } else {
        match spec_parse_field_info(s, pos, cp) {
            Some((f, pos2)) => match spec_parse_field_list(s, pos2, cp, n - 1) {
                Some((rest, pend)) => Some((seq![f] + rest, pend)),
                None => None,
            },
            None => None,
        }
    }
}

/// The count-prefixed field section.
pub open spec fn spec_parse_fields(s: Seq<u8>, pos: int, cp: Seq<CpEntrySpec>) -> Option<(Seq<FieldInfoSpec>, int)> {
    if pos + 2 <= s.len() {
        spec_parse_field_list(s, pos + 2, cp, spec_be16(s, pos) as int)
    } else {
        None
    }
}

/// `n` method records in a row.
pub open spec fn spec_parse_method_list(s: Seq<u8>, pos: int, cp: Seq<CpEntrySpec>, n: int) -> Option<(Seq<MethodInfoSpec>, int)>
    decreases n,
{
    if n <= 0 {
        Some((Seq::empty(), pos))
    } else {
        match spec_parse_method_info(s, pos, cp) {
            Some((m, pos2)) => match spec_parse_method_list(s, pos2, cp, n - 1) {
                Some((rest, pend)) => Some((seq![m] + rest, pend)),
                None => None,
            },
            None => None,
        }
    }
}

/// The count-prefixed method section.
pub open spec fn spec_parse_methods(s: Seq<u8>, pos: int, cp: Seq<CpEntrySpec>) -> Option<(Seq<MethodInfoSpec>, int)> {
    if pos + 2 <= s.len() {
        spec_parse_method_list(s, pos + 2, cp, spec_be16(s, pos) as int)
    } else {
        None
    }
}

/// Whether the `n` interface indices at `pos` all name `Class` entries.
pub open spec fn spec_interfaces_resolve(s: Seq<u8>, pos: int, cp: Seq<CpEntrySpec>, n: int) -> bool {
    forall|k: int|
        0 <= k < n ==> #[trigger] spec_pool_class_name(cp, spec_be16(s, pos + 2 * k) as int) is Some
}

/// No two elements equal.
pub open spec fn seq_unique<A>(s: Seq<A>) -> bool {
    forall|i: int, j: int| 0 <= i < j < s.len() ==> s[i] != s[j]
}

/// The interface names listed at `pos`.
pub open spec fn spec_interfaces(s: Seq<u8>, pos: int, cp: Seq<CpEntrySpec>, n: int) -> Seq<Seq<char>> {
    Seq::new(n as nat, |k: int| spec_pool_class_name(cp, spec_be16(s, pos + 2 * k) as int).unwrap())
}

/// The class record a whole class file denotes, or `None` on any
/// structural violation; the entire input must be consumed.
pub open spec fn spec_parse_class_file(s: Seq<u8>) -> Option<JClassSpec> {
    if 8 <= s.len() && spec_be32(s, 0) == 0xcafebabe {
        match spec_parse_and_resolve_cp(s, 8) {
            Some((cp, p1)) => if p1 + 8 <= s.len() {
                let access_flags = spec_be16(s, p1);
                let this_idx = spec_be16(s, p1 + 2) as int;
                let super_idx = spec_be16(s, p1 + 4) as int;
                let ifn = spec_be16(s, p1 + 6) as int;
                let p2 = p1 + 8;
                if p2 + 2 * ifn <= s.len() && spec_interfaces_resolve(s, p2, cp, ifn)
                    && seq_unique(spec_interfaces(s, p2, cp, ifn)) {
                    match spec_pool_class_name(cp, this_idx) {
                        Some(this_class) => {
                            let sup = if super_idx == 0 {
                                Some(None)
                            } else {
                                match spec_pool_class_name(cp, super_idx) {
                                    Some(n2) => Some(Some(n2)),
                                    None => None,
                                }
                            };
                            match sup {
                                Some(super_class) => match spec_parse_fields(s, p2 + 2 * ifn, cp) {
                                    Some((fields, p4)) => match spec_parse_methods(s, p4, cp) {
                                        Some((methods, p5)) => match spec_skip_attributes(
                                            s,
                                            p5,
                                            s.len() as int,
                                            cp,
                                        ) {
                                            Some(p6) => if p6 == s.len() {
                                                Some(
                                                    JClassSpec {
                                                        constant_pool: cp,
                                                        access_flags,
                                                        this_class,
                                                        super_class,
                                                        interfaces: spec_interfaces(s, p2, cp, ifn),
                                                        fields,
                                                        methods,
                                                    },
                                                )
                                            } else {
                                                None
                                            },
                                            None => None,
                                        },
                                        None => None,
                                    },
                                    None => None,
                                },
                                None => None,
                            }
                        },
                        None => None,
                    }
                } else {
                    None
                }
            } else {
                None
            },
            None => None,
        }
    } else {
        None
    }
}

/// Skip a count-prefixed attribute list, checking only that each name
/// index leads to a UTF-8 entry and that each length stays inside `lim`.
fn skip_attributes(r: &mut Reader<'_>, lim: usize, cp: &ConstantPool) -> (res: Result<
    (),
    VmError,
>)
    requires
        old(r).wf(),
        old(r).pos <= lim,
        lim <= old(r).buf@.len(),
    ensures
        final(r).wf(),
        final(r).buf@ == old(r).buf@,
        res matches Ok(u) ==> spec_skip_attributes(old(r).buf@, old(r).pos as int, lim as int, cp@)
            == Some(final(r).pos as int) && final(r).pos <= lim,
        res is Err ==> spec_skip_attributes(old(r).buf@, old(r).pos as int, lim as int, cp@) is None
            && res == Err::<(), VmError>(VmError::MalformedClassFile),
{
    let ghost s = r.buf@;
    let ghost pos0 = r.pos as int;
    if lim - r.pos < 2 {
        return Err(VmError::MalformedClassFile);
    }
    let n0 = r.read_u16()?;
    let mut k: usize = 0;
    while k < n0 as usize
        invariant
            r.wf(),
            r.buf@ == s,
            s == old(r).buf@,
            pos0 == old(r).pos as int,
            pos0 + 2 <= lim,
            lim <= s.len(),
            r.pos <= lim,
            n0 == spec_be16(s, pos0),
            k <= n0 as usize,
            match spec_skip_attrs(s, r.pos as int, lim as int, cp@, n0 - k) {
                Some(p) => spec_skip_attrs(s, pos0 + 2, lim as int, cp@, n0 as int) == Some(p),
                None => spec_skip_attrs(s, pos0 + 2, lim as int, cp@, n0 as int) is None,
            },
        decreases n0 as usize - k,
    {
        if lim - r.pos < 6 {
            return Err(VmError::MalformedClassFile);
        }
        let name_idx = r.read_u16()?;
        match cp.get_utf8(name_idx) {
            Ok(_) => {},
            Err(_) => {
                return Err(VmError::MalformedClassFile);
            },
        }
        let alen = r.read_u32()?;
        if lim - r.pos < alen as usize {
            return Err(VmError::MalformedClassFile);
        }
        r.skip(alen as usize)?;
        k = k + 1;
    }
    Ok(())
}

/// Parse the content of a `Code` attribute occupying `[r.pos, lim)`.
fn parse_attribute_code(r: &mut Reader<'_>, lim: usize, cp: &ConstantPool) -> (res: Result<
    Code,
    VmError,
>)
    requires
        old(r).wf(),
        old(r).pos <= lim,
        lim <= old(r).buf@.len(),
    ensures
        final(r).wf(),
        final(r).buf@ == old(r).buf@,
        res matches Ok(c) ==> spec_parse_code_attr(old(r).buf@, old(r).pos as int, lim as int, cp@)
            == Some(c@),
        res is Err ==> spec_parse_code_attr(old(r).buf@, old(r).pos as int, lim as int, cp@) is None
            && res == Err::<Code, VmError>(VmError::MalformedClassFile),
{
    let ghost s = r.buf@;
    let ghost pos0 = r.pos as int;
    if lim - r.pos < 8 {
        return Err(VmError::MalformedClassFile);
    }
    let max_stack = r.read_u16()?;
    let max_locals = r.read_u16()?;
    let clen = r.read_u32()?;
    if lim - r.pos < clen as usize {
        return Err(VmError::MalformedClassFile);
    }
    if (lim - r.pos - clen as usize) < 2 {
        return Err(VmError::MalformedClassFile);
    }
    let code = r.take(clen as usize)?;
    let etn = r.read_u16()?;
    let ghost q = r.pos as int;
    if (lim - r.pos) / 8 < etn as usize {
        return Err(VmError::MalformedClassFile);
    }
    let mut exception_table: Vec<ExceptionTableEntry> = Vec::new();
    let mut k: usize = 0;
    while k < etn as usize
        invariant
            r.wf(),
            r.buf@ == s,
            q + 8 * (etn as usize) <= lim,
            lim <= s.len(),
            r.pos == q + 8 * k,
            k <= etn as usize,
            exception_table@.len() == k,
            forall|t: int|
                0 <= t < k ==> exception_table@[t] == (ExceptionTableEntry {
                    start_pc: spec_be16(s, q + 8 * t),
                    end_pc: spec_be16(s, q + 8 * t + 2),
                    handler_pc: spec_be16(s, q + 8 * t + 4),
                    catch_type: spec_be16(s, q + 8 * t + 6),
                }),
        decreases etn as usize - k,
    {
        let start_pc = r.read_u16()?;
        let end_pc = r.read_u16()?;
        let handler_pc = r.read_u16()?;
        let catch_type = r.read_u16()?;
        exception_table.push(ExceptionTableEntry { start_pc, end_pc, handler_pc, catch_type });
        k = k + 1;
    }
    skip_attributes(r, lim, cp)?;
    let c = Code { max_stack, max_locals, code, exception_table };
    proof {
        let spec = spec_parse_code_attr(s, pos0, lim as int, cp@);
        assert(c@.exception_table =~= spec.unwrap().exception_table);
        assert(c@.code =~= spec.unwrap().code);
    }
    Ok(c)
}

/// View of an optional code block.
pub open spec fn opt_code_view(o: Option<Code>) -> Option<CodeSpec> {
    match o {
        Some(c) => Some(c@),
        None => None,
    }
}

/// View of a field list.
pub open spec fn fields_view(v: Seq<FieldInfo>) -> Seq<FieldInfoSpec> {
    v.map_values(|f: FieldInfo| f@)
}

/// View of a method list.
pub open spec fn methods_view(v: Seq<MethodInfo>) -> Seq<MethodInfoSpec> {
    v.map_values(|m: MethodInfo| m@)
}

fn pool_utf8(cp: &ConstantPool, idx: u16) -> (r: Result<String, VmError>)
    ensures
        r matches Ok(s) ==> spec_pool_utf8(cp@, idx as int) == Some(s@),
        r is Err ==> spec_pool_utf8(cp@, idx as int) is None && r == Err::<String, VmError>(
            VmError::MalformedClassFile,
        ),
{
    match cp.get_utf8(idx) {
        Ok(s) => Ok(s),
        Err(_) => Err(VmError::MalformedClassFile),
    }
}

fn pool_class_name(cp: &ConstantPool, idx: u16) -> (r: Result<String, VmError>)
    ensures
        r matches Ok(s) ==> spec_pool_class_name(cp@, idx as int) == Some(s@),
        r is Err ==> spec_pool_class_name(cp@, idx as int) is None && r == Err::<String, VmError>(
            VmError::MalformedClassFile,
        ),
{
    match cp.get(idx) {
        Ok(e) => match e {
            crate::pool::ConstInfo::Class { name } => Ok(name.clone()),
            _ => Err(VmError::MalformedClassFile),
        },
        Err(_) => Err(VmError::MalformedClassFile),
    }
}

/// Parse a field's attribute list, keeping the initializer of the last
/// `ConstantValue` attribute.
fn parse_field_attrs(r: &mut Reader<'_>, cp: &ConstantPool) -> (res: Result<Option<JValue>, VmError>)
    requires
        old(r).wf(),
    ensures
        final(r).wf(),
        final(r).buf@ == old(r).buf@,
        res matches Ok(v) ==> spec_parse_field_attrs(old(r).buf@, old(r).pos as int, cp@) == Some(
            (v, final(r).pos as int),
        ),
        res is Err ==> spec_parse_field_attrs(old(r).buf@, old(r).pos as int, cp@) is None && res
            == Err::<Option<JValue>, VmError>(VmError::MalformedClassFile),
{
    let ghost s = r.buf@;
    let ghost pos0 = r.pos as int;
    let n0 = r.read_u16()?;
    let mut value: Option<JValue> = None;
    let mut k: usize = 0;
    while k < n0 as usize
        invariant
            r.wf(),
            r.buf@ == s,
            s == old(r).buf@,
            pos0 == old(r).pos as int,
            pos0 + 2 <= s.len(),
            n0 == spec_be16(s, pos0),
            k <= n0 as usize,
            match spec_field_attrs(s, r.pos as int, cp@, n0 - k) {
                Some((v2, pend)) => spec_parse_field_attrs(s, pos0, cp@) == Some(
                    (
                        if v2 is Some {
                            v2
                        } else {
                            value
                        },
                        pend,
                    ),
                ),
                None => spec_parse_field_attrs(s, pos0, cp@) is None,
            },
        decreases n0 as usize - k,
    {
        if r.remaining() < 6 {
            return Err(VmError::MalformedClassFile);
        }
        let name_idx = r.read_u16()?;
        let name = pool_utf8(cp, name_idx)?;
        let alen = r.read_u32()?;
        if r.remaining() < alen as usize {
            return Err(VmError::MalformedClassFile);
        }
        let cv_lit: String = "ConstantValue".to_owned();
        if name == cv_lit {
            if alen != 2 {
                return Err(VmError::MalformedClassFile);
            }
            let cvi = r.read_u16()?;
            let v = match cp.get(cvi) {
                Ok(e) => match e {
                    crate::pool::ConstInfo::Integer { bytes } => JValue::Int(*bytes),
                    crate::pool::ConstInfo::Long { bytes } => JValue::Long(*bytes),
                    crate::pool::ConstInfo::Float { bits } => JValue::FloatBits(*bits),
                    crate::pool::ConstInfo::Double { bits } => JValue::DoubleBits(*bits),
                    crate::pool::ConstInfo::Str { string } => JValue::Null,
                    _ => {
                        return Err(VmError::MalformedClassFile);
                    },
                },
                Err(_) => {
                    return Err(VmError::MalformedClassFile);
                },
            };
            value = Some(v);
        } else {
            r.skip(alen as usize)?;
        }
        k = k + 1;
    }
    Ok(value)
}

/// Parse a method's attribute list, keeping the code block of the last
/// `Code` attribute.
fn parse_method_attrs(r: &mut Reader<'_>, cp: &ConstantPool) -> (res: Result<Option<Code>, VmError>)
    requires
        old(r).wf(),
    ensures
        final(r).wf(),
        final(r).buf@ == old(r).buf@,
        res matches Ok(c) ==> spec_parse_method_attrs(old(r).buf@, old(r).pos as int, cp@) == Some(
            (opt_code_view(c), final(r).pos as int),
        ),
        res is Err ==> spec_parse_method_attrs(old(r).buf@, old(r).pos as int, cp@) is None && res
            == Err::<Option<Code>, VmError>(VmError::MalformedClassFile),
{
    let ghost s = r.buf@;
    let ghost pos0 = r.pos as int;
    let n0 = r.read_u16()?;
    let mut code_val: Option<Code> = None;
    let mut k: usize = 0;
    while k < n0 as usize
        invariant
            r.wf(),
            r.buf@ == s,
            s == old(r).buf@,
            pos0 == old(r).pos as int,
            pos0 + 2 <= s.len(),
            n0 == spec_be16(s, pos0),
            k <= n0 as usize,
            match spec_method_attrs(s, r.pos as int, cp@, n0 - k) {
                Some((c2, pend)) => spec_parse_method_attrs(s, pos0, cp@) == Some(
                    (
                        if c2 is Some {
                            c2
                        } else {
                            opt_code_view(code_val)
                        },
                        pend,
                    ),
                ),
                None => spec_parse_method_attrs(s, pos0, cp@) is None,
            },
        decreases n0 as usize - k,
    {
        if r.remaining() < 6 {
            return Err(VmError::MalformedClassFile);
        }
        let name_idx = r.read_u16()?;
        let name = pool_utf8(cp, name_idx)?;
        let alen = r.read_u32()?;
        if r.remaining() < alen as usize {
            return Err(VmError::MalformedClassFile);
        }
        let code_lit: String = "Code".to_owned();
        if name == code_lit {
            let blen = r.buf.len();
            proof {
                assert(r.pos + alen <= blen);
            }
            let end = r.pos + alen as usize;
            let c = parse_attribute_code(r, end, cp)?;
            r.seek(end);
            code_val = Some(c);
        } else {
            r.skip(alen as usize)?;
        }
        k = k + 1;
    }
    Ok(code_val)
}

/// Parse one field record.
fn parse_field_info(r: &mut Reader<'_>, cp: &ConstantPool) -> (res: Result<FieldInfo, VmError>)
    requires
        old(r).wf(),
    ensures
        final(r).wf(),
        final(r).buf@ == old(r).buf@,
        res matches Ok(f) ==> spec_parse_field_info(old(r).buf@, old(r).pos as int, cp@) == Some(
            (f@, final(r).pos as int),
        ),
        res is Err ==> spec_parse_field_info(old(r).buf@, old(r).pos as int, cp@) is None && (res
            == Err::<FieldInfo, VmError>(VmError::MalformedClassFile) || res == Err::<
            FieldInfo,
            VmError,
        >(VmError::MalformedDescriptor)),
{
    let access_flags = r.read_u16()?;
    let name_idx = r.read_u16()?;
    let desc_idx = r.read_u16()?;
    let name = pool_utf8(cp, name_idx)?;
    let descriptor = pool_utf8(cp, desc_idx)?;
    let jtype = match parse_field_desc(descriptor.as_str()) {
        Ok(t) => t,
        Err(e) => {
            return Err(e);
        },
    };
    let constant_value = parse_field_attrs(r, cp)?;
    let mut name_desc = name.clone();
    name_desc.append(descriptor.as_str());
    let f = FieldInfo { access_flags, name, descriptor, name_desc, constant_value, jtype };
    proof {
        let spec = spec_parse_field_info(old(r).buf@, old(r).pos as int, cp@);
        assert(f@ =~= spec.unwrap().0);
    }
    Ok(f)
}

/// Parse one method record.
fn parse_method_info(r: &mut Reader<'_>, cp: &ConstantPool) -> (res: Result<MethodInfo, VmError>)
    requires
        old(r).wf(),
    ensures
        final(r).wf(),
        final(r).buf@ == old(r).buf@,
        res matches Ok(m) ==> spec_parse_method_info(old(r).buf@, old(r).pos as int, cp@) == Some(
            (m@, final(r).pos as int),
        ),
        res is Err ==> spec_parse_method_info(old(r).buf@, old(r).pos as int, cp@) is None && (res
            == Err::<MethodInfo, VmError>(VmError::MalformedClassFile) || res == Err::<
            MethodInfo,
            VmError,
        >(VmError::MalformedDescriptor)),
{
    let access_flags = r.read_u16()?;
    let name_idx = r.read_u16()?;
    let desc_idx = r.read_u16()?;
    let name = pool_utf8(cp, name_idx)?;
    let descriptor = pool_utf8(cp, desc_idx)?;
    let (param_types, ret_type) = match parse_method_desc(descriptor.as_str()) {
        Ok(p) => p,
        Err(e) => {
            return Err(e);
        },
    };
    let code = parse_method_attrs(r, cp)?;
    let mut name_desc = name.clone();
    name_desc.append(descriptor.as_str());
    let m = MethodInfo { access_flags, name, descriptor, name_desc, code, ret_type, param_types };
    proof {
        let spec = spec_parse_method_info(old(r).buf@, old(r).pos as int, cp@);
        assert(m@.param_types =~= spec.unwrap().0.param_types);
        assert(m@ =~= spec.unwrap().0);
    }
    Ok(m)
}

/// Parse the count-prefixed field section.
pub fn parse_fields(r: &mut Reader<'_>, cp: &ConstantPool) -> (res: Result<Vec<FieldInfo>, VmError>)
    requires
        old(r).wf(),
    ensures
        final(r).wf(),
        final(r).buf@ == old(r).buf@,
        res matches Ok(v) ==> spec_parse_fields(old(r).buf@, old(r).pos as int, cp@) == Some(
            (fields_view(v@), final(r).pos as int),
        ),
        res is Err ==> spec_parse_fields(old(r).buf@, old(r).pos as int, cp@) is None && (res
            == Err::<Vec<FieldInfo>, VmError>(VmError::MalformedClassFile) || res == Err::<
            Vec<FieldInfo>,
            VmError,
        >(VmError::MalformedDescriptor)),
{
    let ghost s = r.buf@;
    let ghost pos0 = r.pos as int;
    let n0 = r.read_u16()?;
    let mut fields: Vec<FieldInfo> = Vec::new();
    let mut k: usize = 0;
    proof {
        assert(fields_view(fields@) =~= Seq::<FieldInfoSpec>::empty());
    }
    while k < n0 as usize
        invariant
            r.wf(),
            r.buf@ == s,
            s == old(r).buf@,
            pos0 == old(r).pos as int,
            pos0 + 2 <= s.len(),
            n0 == spec_be16(s, pos0),
            k <= n0 as usize,
            fields@.len() == k,
            match spec_parse_field_list(s, r.pos as int, cp@, n0 - k) {
                Some((rest, pend)) => spec_parse_fields(s, pos0, cp@) == Some(
                    (fields_view(fields@) + rest, pend),
                ),
                None => spec_parse_fields(s, pos0, cp@) is None,
            },
        decreases n0 as usize - k,
    {
        let ghost prev = fields_view(fields@);
        let f = parse_field_info(r, cp)?;
        let ghost fv = f@;
        fields.push(f);
        proof {
            assert(fields_view(fields@) =~= prev + seq![fv]);
            match spec_parse_field_list(s, r.pos as int, cp@, n0 - k - 1) {
                Some((rest, pend)) => {
                    assert((prev + seq![fv]) + rest =~= prev + (seq![fv] + rest));
                },
                None => {},
            }
        }
        k = k + 1;
    }
    proof {
        assert(fields_view(fields@) + Seq::<FieldInfoSpec>::empty() =~= fields_view(fields@));
    }
    Ok(fields)
}

/// Parse the count-prefixed method section.
pub fn parse_methods(r: &mut Reader<'_>, cp: &ConstantPool) -> (res: Result<
    Vec<MethodInfo>,
    VmError,
>)
    requires
        old(r).wf(),
    ensures
        final(r).wf(),
        final(r).buf@ == old(r).buf@,
        res matches Ok(v) ==> spec_parse_methods(old(r).buf@, old(r).pos as int, cp@) == Some(
            (methods_view(v@), final(r).pos as int),
        ),
        res is Err ==> spec_parse_methods(old(r).buf@, old(r).pos as int, cp@) is None && (res
            == Err::<Vec<MethodInfo>, VmError>(VmError::MalformedClassFile) || res == Err::<
            Vec<MethodInfo>,
            VmError,
        >(VmError::MalformedDescriptor)),
{
    let ghost s = r.buf@;
    let ghost pos0 = r.pos as int;
    let n0 = r.read_u16()?;
    let mut methods: Vec<MethodInfo> = Vec::new();
    let mut k: usize = 0;
    proof {
        assert(methods_view(methods@) =~= Seq::<MethodInfoSpec>::empty());
    }
    while k < n0 as usize
        invariant
            r.wf(),
            r.buf@ == s,
            s == old(r).buf@,
            pos0 == old(r).pos as int,
            pos0 + 2 <= s.len(),
            n0 == spec_be16(s, pos0),
            k <= n0 as usize,
            methods@.len() == k,
            match spec_parse_method_list(s, r.pos as int, cp@, n0 - k) {
                Some((rest, pend)) => spec_parse_methods(s, pos0, cp@) == Some(
                    (methods_view(methods@) + rest, pend),
                ),
                None => spec_parse_methods(s, pos0, cp@) is None,
            },
        decreases n0 as usize - k,
    {
        let ghost prev = methods_view(methods@);
        let m = parse_method_info(r, cp)?;
        let ghost mv = m@;
        methods.push(m);
        proof {
            assert(methods_view(methods@) =~= prev + seq![mv]);
            match spec_parse_method_list(s, r.pos as int, cp@, n0 - k - 1) {
                Some((rest, pend)) => {
                    assert((prev + seq![mv]) + rest =~= prev + (seq![mv] + rest));
                },
                None => {},
            }
        }
        k = k + 1;
    }
    proof {
        assert(methods_view(methods@) + Seq::<MethodInfoSpec>::empty() =~= methods_view(methods@));
    }
    Ok(methods)
}

/// Parse `ifn` interface indices, each the pool index of a `Class` entry.
fn parse_interfaces(r: &mut Reader<'_>, cp: &ConstantPool, ifn: u16) -> (res: Result<
    Vec<String>,
    VmError,
>)
    requires
        old(r).wf(),
    ensures
        final(r).wf(),
        final(r).buf@ == old(r).buf@,
        res matches Ok(v) ==> old(r).pos + 2 * ifn <= old(r).buf@.len() && final(r).pos == old(
            r,
        ).pos + 2 * ifn && spec_interfaces_resolve(old(r).buf@, old(r).pos as int, cp@, ifn as int)
            && seq_unique(spec_interfaces(old(r).buf@, old(r).pos as int, cp@, ifn as int))
            && v@.map_values(|x: String| x@) == spec_interfaces(
            old(r).buf@,
            old(r).pos as int,
            cp@,
            ifn as int,
        ),
        res is Err ==> !(old(r).pos + 2 * ifn <= old(r).buf@.len() && spec_interfaces_resolve(
            old(r).buf@,
            old(r).pos as int,
            cp@,
            ifn as int,
        ) && seq_unique(spec_interfaces(old(r).buf@, old(r).pos as int, cp@, ifn as int))) && res
            == Err::<Vec<String>, VmError>(VmError::MalformedClassFile),
{
    let ghost s = r.buf@;
    let ghost p2 = r.pos as int;
    let mut interfaces: Vec<String> = Vec::new();
    let mut k: usize = 0;
    while k < ifn as usize
        invariant
            r.wf(),
            r.buf@ == s,
            s == old(r).buf@,
            p2 == old(r).pos as int,
            r.pos == p2 + 2 * k,
            k <= ifn as usize,
            interfaces@.len() == k,
            forall|t: int|
                0 <= t < k ==> spec_pool_class_name(cp@, spec_be16(s, p2 + 2 * t) as int) == Some(
                    (#[trigger] interfaces@[t])@,
                ),
            forall|t1: int, t2: int|
                0 <= t1 < t2 < k ==> (#[trigger] interfaces@[t1])@ != (
                #[trigger] interfaces@[t2])@,
        decreases ifn as usize - k,
    {
        let idx = r.read_u16()?;
        let name = pool_class_name(cp, idx)?;
        let mut t: usize = 0;
        while t < k
            invariant
                t <= k,
                k == interfaces@.len(),
                k < ifn as usize,
                r.wf(),
                r.buf@ == s,
                s == old(r).buf@,
                p2 == old(r).pos as int,
                spec_pool_class_name(cp@, spec_be16(s, p2 + 2 * k) as int) == Some(name@),
                forall|u: int|
                    0 <= u < k ==> spec_pool_class_name(cp@, spec_be16(s, p2 + 2 * u) as int)
                        == Some((#[trigger] interfaces@[u])@),
                forall|u: int| 0 <= u < t ==> (#[trigger] interfaces@[u])@ != name@,
            decreases k - t,
        {
            let dup = interfaces[t] == name;
            if dup {
                proof {
                    let si = spec_interfaces(s, p2, cp@, ifn as int);
                    assert(si[t as int] == interfaces@[t as int]@);
                    assert(si[k as int] == name@);
                    assert(!seq_unique(si));
                }
                return Err(VmError::MalformedClassFile);
            }
            t = t + 1;
        }
        interfaces.push(name);
        k = k + 1;
    }
    proof {
        assert forall|t: int| 0 <= t < ifn as int implies #[trigger] spec_pool_class_name(
            cp@,
            spec_be16(s, p2 + 2 * t) as int,
        ) is Some by {
            assert(spec_pool_class_name(cp@, spec_be16(s, p2 + 2 * t) as int) == Some(
                interfaces@[t]@,
            ));
        }
        assert(interfaces@.map_values(|x: String| x@) =~= spec_interfaces(s, p2, cp@, ifn as int));
        assert forall|i: int, j: int|
            0 <= i < j < ifn as int implies spec_interfaces(s, p2, cp@, ifn as int)[i]
            != spec_interfaces(s, p2, cp@, ifn as int)[j] by {
            assert(spec_interfaces(s, p2, cp@, ifn as int)[i] == interfaces@[i]@);
            assert(spec_interfaces(s, p2, cp@, ifn as int)[j] == interfaces@[j]@);
        }
    }
    Ok(interfaces)
}

/// Parse a whole class file into a class record. The entire input must be
/// consumed; any structural violation fails with
/// `VmError::MalformedClassFile`, and a descriptor that violates the
/// descriptor grammar with `VmError::MalformedDescriptor`. The resolved
/// pool of the returned class satisfies the two-slot rule.
#[verifier::rlimit(100)]
pub fn parse_class_file(bin: &[u8]) -> (res: Result<JClass, VmError>)
    ensures
        res matches Ok(c) ==> spec_parse_class_file(bin@) == Some(c@) && pool_two_slot_rule(
            c@.constant_pool,
        ),
        res is Err ==> spec_parse_class_file(bin@) is None && (res == Err::<JClass, VmError>(
            VmError::MalformedClassFile,
        ) || res == Err::<JClass, VmError>(VmError::MalformedDescriptor)),
{
    let mut r = Reader::new(bin);
    let magic = r.read_u32()?;
    if magic != 0xcafebabe {
        return Err(VmError::MalformedClassFile);
    }
    let _minor = r.read_u16()?;
    let _major = r.read_u16()?;
    let cp = parse_cp_info(&mut r)?;
    let ghost p1 = r.pos as int;
    let access_flags = r.read_u16()?;
    let this_idx = r.read_u16()?;
    let super_idx = r.read_u16()?;
    let ifn = r.read_u16()?;
    let this_class = pool_class_name(&cp, this_idx)?;
    let super_class = if super_idx == 0 {
        None
    } else {
        Some(pool_class_name(&cp, super_idx)?)
    };
    let interfaces = parse_interfaces(&mut r, &cp, ifn)?;
    let fields = parse_fields(&mut r, &cp)?;
    let methods = parse_methods(&mut r, &cp)?;
    let n = bin.len();
    skip_attributes(&mut r, n, &cp)?;
    if !r.done() {
        return Err(VmError::MalformedClassFile);
    }
    let c = JClass { constant_pool: cp, access_flags, this_class, super_class, interfaces, fields, methods };
    proof {
        let spec = spec_parse_class_file(bin@);
        assert(c@ =~= spec.unwrap());
    }
    Ok(c)
}

/// Parsing a well-formed class file is deterministic: identical bytes give
/// identical class records.
pub proof fn lemma_parse_deterministic(b1: Seq<u8>, b2: Seq<u8>)
    requires
        b1 == b2,
    ensures
        spec_parse_class_file(b1) == spec_parse_class_file(b2),
{
}

} // verus!
