//! Type-descriptor strings.
//!
//! A field descriptor encodes one type: zero or more `[` array dimensions
//! followed by a one-letter base type or `L<internal-name>;`. A method
//! descriptor is `(` followed by field descriptors for the parameters, `)`,
//! and a return field descriptor or `V` for void.
//!
//! The grammar is stated by the `spec_parse_*` functions over character
//! sequences; the executable parsers return exactly what those functions
//! describe, and `lemma_field_desc_round_trip` shows that rendering a parsed
//! descriptor reproduces the accepted input.

use vstd::prelude::*;
use vstd::string::StrSliceExecFns;

use crate::err::VmError;

verus! {

/// The component type of a descriptor: a primitive, or a reference type
/// carrying a slash-separated internal class name.
#[derive(Debug, Clone, PartialEq, Eq)]
pub enum JComponentType {
    Byte,
    Char,
    Double,
    Float,
    Int,
    Long,
    Short,
    Boolean,
    Object(String),
}

/// A parsed type descriptor: an array-dimension count (0 for a scalar,
/// at most 255) and a component type.
#[derive(Debug, Clone, PartialEq, Eq)]
pub struct JType {
    pub array_dim: usize,
    pub ctype: JComponentType,
}

/// Mathematical value of a component type.
pub enum CompTypeSpec {
    Byte,
    Char,
    Double,
    Float,
    Int,
    Long,
    Short,
    Boolean,
    Object(Seq<char>),
}

/// Mathematical value of a type descriptor.
#[verifier::ext_equal]
pub struct JTypeSpec {
    pub array_dim: nat,
    pub ctype: CompTypeSpec,
}

impl View for JComponentType {
    type V = CompTypeSpec;

    open spec fn view(&self) -> CompTypeSpec {
        match self {
            JComponentType::Byte => CompTypeSpec::Byte,
            JComponentType::Char => CompTypeSpec::Char,
            JComponentType::Double => CompTypeSpec::Double,
            JComponentType::Float => CompTypeSpec::Float,
            JComponentType::Int => CompTypeSpec::Int,
            JComponentType::Long => CompTypeSpec::Long,
            JComponentType::Short => CompTypeSpec::Short,
            JComponentType::Boolean => CompTypeSpec::Boolean,
            JComponentType::Object(name) => CompTypeSpec::Object(name@),
        }
    }
}

impl View for JType {
    type V = JTypeSpec;

    open spec fn view(&self) -> JTypeSpec {
        JTypeSpec { array_dim: self.array_dim as nat, ctype: self.ctype@ }
    }
}

impl JType {
    /// A descriptor with no array dimensions.
    pub fn scalar_of(ctype: JComponentType) -> (r: Self)
        ensures
            r@ == (JTypeSpec { array_dim: 0, ctype: ctype@ }),
    {
        Self { array_dim: 0, ctype }
    }

    /// A descriptor with the given array-dimension count.
    pub fn array_of(ctype: JComponentType, array_dim: usize) -> (r: Self)
        ensures
            r@ == (JTypeSpec { array_dim: array_dim as nat, ctype: ctype@ }),
    {
        Self { array_dim, ctype }
    }
}

/// The component type a one-letter base descriptor denotes, if any.
pub open spec fn base_ctype(c: char) -> Option<CompTypeSpec> {
    if c == 'B' {
        Some(CompTypeSpec::Byte)
    } else if c == 'C' {
        Some(CompTypeSpec::Char)
    } else if c == 'D' {
        Some(CompTypeSpec::Double)
    } else if c == 'F' {
        Some(CompTypeSpec::Float)
    } else if c == 'I' {
        Some(CompTypeSpec::Int)
    } else if c == 'J' {
        Some(CompTypeSpec::Long)
    } else if c == 'S' {
        Some(CompTypeSpec::Short)
    } else if c == 'Z' {
        Some(CompTypeSpec::Boolean)
    } else {
        None
    }
}

/// Position of the first `;` in `s`, if one occurs.
pub open spec fn find_semi(s: Seq<char>) -> Option<int>
    decreases s.len(),
{
    if s.len() == 0 {
        None
    } else if s[0] == ';' {
        Some(0int)
    } else {
        match find_semi(s.skip(1)) {
            Some(i) => Some(i + 1),
            None => None,
        }
    }
}

pub proof fn lemma_find_semi(s: Seq<char>)
    ensures
        match find_semi(s) {
            Some(i) => 0 <= i < s.len() && s[i] == ';' && (forall|k: int|
                0 <= k < i ==> s[k] != ';'),
            None => forall|k: int| 0 <= k < s.len() ==> s[k] != ';',
        },
    decreases s.len(),
{
    if s.len() == 0 {
    } else if s[0] == ';' {
    } else {
        lemma_find_semi(s.skip(1));
        assert(forall|k: int| 1 <= k < s.len() ==> s[k] == s.skip(1)[k - 1]);
    }
}

/// One field descriptor read from the front of `s`: the type it denotes and
/// the unconsumed remainder. `None` when `s` does not begin with a
/// well-formed descriptor: over 255 array dimensions, an unknown base letter,
/// an unterminated or empty object name, or an empty input.
pub open spec fn spec_parse_field_one(s: Seq<char>) -> Option<(JTypeSpec, Seq<char>)>
    decreases s.len(),
{
    if s.len() == 0 {
        None
    } else if s[0] == '[' {
        match spec_parse_field_one(s.skip(1)) {
            Some((jt, rem)) => if jt.array_dim < 255 {
                Some((JTypeSpec { array_dim: jt.array_dim + 1, ctype: jt.ctype }, rem))
            } else {
                None
            },
            None => None,
        }
    } else if s[0] == 'L' {
        match find_semi(s.skip(1)) {
            Some(i) => if i >= 1 {
                Some(
                    (
                        JTypeSpec { array_dim: 0, ctype: CompTypeSpec::Object(s.skip(1).take(i)) },
                        s.skip(1).skip(i + 1),
                    ),
                )
            } else {
                None
            },
            None => None,
        }
    } else {
        match base_ctype(s[0]) {
            Some(ct) => Some((JTypeSpec { array_dim: 0, ctype: ct }, s.skip(1))),
            None => None,
        }
    }
}

/// A whole field descriptor: `spec_parse_field_one` with nothing left over.
pub open spec fn spec_parse_field(s: Seq<char>) -> Option<JTypeSpec> {
    match spec_parse_field_one(s) {
        Some((jt, rem)) => if rem.len() == 0 {
            Some(jt)
        } else {
            None
        },
        None => None,
    }
}

/// A successful parse consumes at least one character and yields at most 255
/// array dimensions.
pub proof fn lemma_parse_field_one_consumes(s: Seq<char>)
    ensures
        spec_parse_field_one(s) matches Some((jt, rem)) ==> rem.len() < s.len() && jt.array_dim
            <= 255,
    decreases s.len(),
{
    if s.len() == 0 {
    } else if s[0] == '[' {
        lemma_parse_field_one_consumes(s.skip(1));
    } else if s[0] == 'L' {
        lemma_find_semi(s.skip(1));
    } else {
    }
}

/// The parameter descriptors read up to and including a closing `)`, and the
/// unconsumed remainder.
pub open spec fn spec_parse_params(s: Seq<char>) -> Option<(Seq<JTypeSpec>, Seq<char>)>
    decreases s.len(),
{
    if s.len() == 0 {
        None
    } else if s[0] == ')' {
        Some((Seq::empty(), s.skip(1)))
    } else {
        match spec_parse_field_one(s) {
            Some((jt, rem)) => if rem.len() < s.len() {
                match spec_parse_params(rem) {
                    Some((ps, rem2)) => Some((seq![jt] + ps, rem2)),
                    None => None,
                }
            } else {
                None
            },
            None => None,
        }
    }
}

/// A whole method descriptor: the parameter types (fewer than 255) and the
/// return type, `None` standing for void.
pub open spec fn spec_parse_method(s: Seq<char>) -> Option<(Seq<JTypeSpec>, Option<JTypeSpec>)> {
    if s.len() == 0 || s[0] != '(' {
        None
    } else {
        match spec_parse_params(s.skip(1)) {
            Some((ps, rem)) => if ps.len() < 255 {
                if rem.len() == 1 && rem[0] == 'V' {
                    Some((ps, None))
                } else {
                    match spec_parse_field_one(rem) {
                        Some((jt, rem2)) => if rem2.len() == 0 {
                            Some((ps, Some(jt)))
                        } else {
                            None
                        },
                        None => None,
                    }
                }
            } else {
                None
            },
            None => None,
        }
    }
}

/// View of a parameter list as descriptor values.
pub open spec fn jtypes_view(ps: Seq<JType>) -> Seq<JTypeSpec> {
    ps.map_values(|t: JType| t@)
}

/// View of an optional descriptor.
pub open spec fn opt_jtype_view(o: Option<JType>) -> Option<JTypeSpec> {
    match o {
        Some(jt) => Some(jt@),
        None => None,
    }
}

/// Parse one field descriptor from the front of `s`, returning the parsed
/// type and the unconsumed remainder.
pub fn parse_field_desc_one<'a>(s: &'a str) -> (r: Result<(JType, &'a str), VmError>)
    ensures
        r matches Ok((jt, rem)) ==> spec_parse_field_one(s@) == Some((jt@, rem@)) && jt.array_dim
            <= 255,
        r is Err ==> spec_parse_field_one(s@) is None && r == Err::<(JType, &'a str),
            VmError,
        >(VmError::MalformedDescriptor),
    decreases s@.len(),
{
    let n = s.unicode_len();
    if n == 0 {
        return Err(VmError::MalformedDescriptor);
    }
    let c = s.get_char(0);
    if c == '[' {
        let rest = s.substring_char(1, n);
        proof {
            assert(rest@ =~= s@.skip(1));
        }
        match parse_field_desc_one(rest) {
            Ok((jt, rem)) => {
                if jt.array_dim < 255 {
                    Ok((JType { array_dim: jt.array_dim + 1, ctype: jt.ctype }, rem))
                } else {
                    Err(VmError::MalformedDescriptor)
                }
            },
            Err(e) => Err(e),
        }
    } else if c == 'L' {
        let mut j: usize = 1;
        while j < n && s.get_char(j) != ';'
            invariant
                1 <= j <= n,
                n == s@.len(),
                forall|k: int| 1 <= k < j ==> s@[k] != ';',
            decreases n - j,
        {
            j = j + 1;
        }
        proof {
            lemma_find_semi(s@.skip(1));
            assert(forall|k: int| 0 <= k < s@.len() - 1 ==> s@.skip(1)[k] == s@[k + 1]);
        }
        if j == n {
            // no terminating ';'
            return Err(VmError::MalformedDescriptor);
        }
        proof {
            assert(s@.skip(1)[j - 1] == ';');
            assert(find_semi(s@.skip(1)) == Some(j - 1)) by {
                match find_semi(s@.skip(1)) {
                    Some(i0) => {
                        if i0 < j - 1 {
                            assert(s@[i0 + 1] != ';');
                        }
                        if i0 > j - 1 {
                            assert(s@.skip(1)[j - 1] != ';');
                        }
                    },
                    None => {
                        assert(s@.skip(1)[j - 1] != ';');
                    },
                }
            }
        }
        if j == 1 {
            // empty internal name
            return Err(VmError::MalformedDescriptor);
        }
        let name = s.substring_char(1, j);
        let rem = s.substring_char(j + 1, n);
        proof {
            assert(name@ =~= s@.skip(1).take(j - 1));
            assert(rem@ =~= s@.skip(1).skip(j - 1 + 1));
        }
        Ok((JType { array_dim: 0, ctype: JComponentType::Object(name.to_owned()) }, rem))
    } else {
        let ct = if c == 'B' {
            Some(JComponentType::Byte)
        } else if c == 'C' {
            Some(JComponentType::Char)
        } else if c == 'D' {
            Some(JComponentType::Double)
        } else if c == 'F' {
            Some(JComponentType::Float)
        } else if c == 'I' {
            Some(JComponentType::Int)
        } else if c == 'J' {
            Some(JComponentType::Long)
        } else if c == 'S' {
            Some(JComponentType::Short)
        } else if c == 'Z' {
            Some(JComponentType::Boolean)
        } else {
            None
        };
        match ct {
            Some(ctype) => {
                let rem = s.substring_char(1, n);
                proof {
                    assert(rem@ =~= s@.skip(1));
                }
                Ok((JType { array_dim: 0, ctype }, rem))
            },
            None => Err(VmError::MalformedDescriptor),
        }
    }
}

/// Parse a complete field descriptor; the whole input must be consumed.
pub fn parse_field_desc(s: &str) -> (r: Result<JType, VmError>)
    ensures
        r matches Ok(jt) ==> spec_parse_field(s@) == Some(jt@) && jt.array_dim <= 255,
        r is Err ==> spec_parse_field(s@) is None && r == Err::<JType,
            VmError,
        >(VmError::MalformedDescriptor),
{
    match parse_field_desc_one(s) {
        Ok((jt, rem)) => {
            if rem.unicode_len() == 0 {
                Ok(jt)
            } else {
                Err(VmError::MalformedDescriptor)
            }
        },
        Err(e) => Err(e),
    }
}

/// Parse a complete method descriptor into its parameter types and its
/// return type (`None` for void). The whole input must be consumed and
/// fewer than 255 parameters are accepted.
pub fn parse_method_desc(s: &str) -> (r: Result<(Vec<JType>, Option<JType>), VmError>)
    ensures
        r matches Ok((ps, ret)) ==> spec_parse_method(s@) == Some(
            (jtypes_view(ps@), opt_jtype_view(ret)),
        ),
        r is Err ==> spec_parse_method(s@) is None && r == Err::<(Vec<JType>, Option<JType>),
            VmError,
        >(VmError::MalformedDescriptor),
{
    let n = s.unicode_len();
    if n == 0 || s.get_char(0) != '(' {
        return Err(VmError::MalformedDescriptor);
    }
    let mut rem: &str = s.substring_char(1, n);
    proof {
        assert(rem@ =~= s@.skip(1));
    }
    let mut params: Vec<JType> = Vec::new();
    proof {
        assert(jtypes_view(params@) =~= Seq::<JTypeSpec>::empty());
    }
    loop
        invariant
            params@.len() <= 254,
            match spec_parse_params(rem@) {
                Some((ps, r2)) => spec_parse_params(s@.skip(1)) == Some(
                    (jtypes_view(params@) + ps, r2),
                ),
                None => spec_parse_params(s@.skip(1)) is None,
            },
            s@.len() > 0 && s@[0] == '(',
        ensures
            rem@.len() > 0 && rem@[0] == ')',
        decreases rem@.len(),
    {
        let rn = rem.unicode_len();
        if rn == 0 {
            return Err(VmError::MalformedDescriptor);
        }
        if rem.get_char(0) == ')' {
            break ;
        }
        if params.len() >= 254 {
            // at least 255 parameters would follow
            proof {
                lemma_parse_field_one_consumes(rem@);
                match spec_parse_field_one(rem@) {
                    Some((jt0, rem0)) => {
                        assert(spec_parse_params(rem@) matches Some((ps, _)) ==> ps.len() >= 1);
                    },
                    None => {},
                }
            }
            return Err(VmError::MalformedDescriptor);
        }
        match parse_field_desc_one(rem) {
            Ok((jt, rem2)) => {
                proof {
                    lemma_parse_field_one_consumes(rem@);
                    let ghost old_params = params@;
                    assert(jtypes_view(old_params.push(jt)) =~= jtypes_view(old_params).push(jt@));
                }
                let ghost prev = params@;
                params.push(jt);
                proof {
                    match spec_parse_params(rem2@) {
                        Some((ps, r2)) => {
                            assert(spec_parse_params(rem@) == Some((seq![jt@] + ps, r2)));
                            assert(jtypes_view(prev) + (seq![jt@] + ps) =~= jtypes_view(
                                params@,
                            ) + ps);
                        },
                        None => {},
                    }
                }
                rem = rem2;
            },
            Err(e) => {
                return Err(e);
            },
        }
    }
    // rem starts with ')'
    let rn = rem.unicode_len();
    let rest = rem.substring_char(1, rn);
    proof {
        assert(rest@ =~= rem@.skip(1));
        assert(spec_parse_params(rem@) == Some((Seq::<JTypeSpec>::empty(), rem@.skip(1))));
        assert(jtypes_view(params@) + Seq::<JTypeSpec>::empty() =~= jtypes_view(params@));
        assert(spec_parse_params(s@.skip(1)) == Some((jtypes_view(params@), rest@)));
    }
    let restn = rest.unicode_len();
    if restn == 1 && rest.get_char(0) == 'V' {
        return Ok((params, None));
    }
    match parse_field_desc_one(rest) {
        Ok((jt, rem2)) => {
            if rem2.unicode_len() == 0 {
                Ok((params, Some(jt)))
            } else {
                Err(VmError::MalformedDescriptor)
            }
        },
        Err(e) => {
            proof {
                if restn == 1 {
                    assert(rest@[0] != 'V');
                }
            }
            Err(e)
        },
    }
}

/// `n` copies of `[`.
pub open spec fn brackets(n: nat) -> Seq<char>
    decreases n,
{
    if n == 0 {
        Seq::empty()
    } else {
        seq!['['] + brackets((n - 1) as nat)
    }
}

/// The descriptor string that denotes a component type.
pub open spec fn spec_render_comp(ct: CompTypeSpec) -> Seq<char> {
    match ct {
        CompTypeSpec::Byte => seq!['B'],
        CompTypeSpec::Char => seq!['C'],
        CompTypeSpec::Double => seq!['D'],
        CompTypeSpec::Float => seq!['F'],
        CompTypeSpec::Int => seq!['I'],
        CompTypeSpec::Long => seq!['J'],
        CompTypeSpec::Short => seq!['S'],
        CompTypeSpec::Boolean => seq!['Z'],
        CompTypeSpec::Object(name) => seq!['L'] + name + seq![';'],
    }
}

/// The descriptor string that denotes a type.
pub open spec fn spec_render_field(jt: JTypeSpec) -> Seq<char> {
    brackets(jt.array_dim) + spec_render_comp(jt.ctype)
}

proof fn lemma_parse_render_field_one(s: Seq<char>)
    ensures
        spec_parse_field_one(s) matches Some((jt, rem)) ==> s == spec_render_field(jt) + rem,
    decreases s.len(),
{
    if s.len() == 0 {
    } else if s[0] == '[' {
        lemma_parse_render_field_one(s.skip(1));
        match spec_parse_field_one(s.skip(1)) {
            Some((jt0, rem)) => {
                if jt0.array_dim < 255 {
                    let jt = JTypeSpec { array_dim: jt0.array_dim + 1, ctype: jt0.ctype };
                    assert(brackets(jt.array_dim) == seq!['['] + brackets(jt0.array_dim));
                    assert(s =~= seq!['['] + s.skip(1));
                    assert(spec_render_field(jt) + rem =~= seq!['['] + (spec_render_field(jt0)
                        + rem));
                    assert(s =~= spec_render_field(jt) + rem);
                }
            },
            None => {},
        }
    } else if s[0] == 'L' {
        lemma_find_semi(s.skip(1));
        assert(forall|k: int| 0 <= k < s.len() - 1 ==> s.skip(1)[k] == s[k + 1]);
        match find_semi(s.skip(1)) {
            Some(i) => {
                if i >= 1 {
                    let name = s.skip(1).take(i);
                    let rem = s.skip(1).skip(i + 1);
                    let jt = JTypeSpec { array_dim: 0, ctype: CompTypeSpec::Object(name) };
                    assert(brackets(0) =~= Seq::<char>::empty());
                    assert(spec_render_field(jt) =~= seq!['L'] + name + seq![';']);
                    assert(s =~= (seq!['L'] + name + seq![';']) + rem);
                }
            },
            None => {},
        }
    } else {
        match base_ctype(s[0]) {
            Some(ct) => {
                let jt = JTypeSpec { array_dim: 0, ctype: ct };
                assert(brackets(0) =~= Seq::<char>::empty());
                assert(s =~= spec_render_field(jt) + s.skip(1));
            },
            None => {},
        }
    }
}

/// Round trip: every string the field-descriptor grammar accepts is
/// reproduced, character for character, by rendering the descriptor it
/// parses to.
pub proof fn lemma_field_desc_round_trip(s: Seq<char>)
    ensures
        spec_parse_field(s) matches Some(jt) ==> spec_render_field(jt) == s,
{
    lemma_parse_render_field_one(s);
    match spec_parse_field_one(s) {
        Some((jt, rem)) => {
            if rem.len() == 0 {
                assert(spec_render_field(jt) + rem =~= spec_render_field(jt));
            }
        },
        None => {},
    }
}

proof fn lemma_brackets_snoc(n: nat)
    ensures
        brackets(n + 1) == brackets(n).push('['),
    decreases n,
{
    if n == 0 {
        assert(brackets(1) =~= brackets(0).push('['));
    } else {
        lemma_brackets_snoc((n - 1) as nat);
        assert(brackets(n + 1) =~= brackets(n).push('['));
    }
}

/// Render a type descriptor back to its string form.
pub fn render_field_desc(jt: &JType) -> (r: String)
    ensures
        r@ == spec_render_field(jt@),
{
    let mut out = String::new();
    let mut i: usize = 0;
    while i < jt.array_dim
        invariant
            i <= jt.array_dim,
            out@ == brackets(i as nat),
        decreases jt.array_dim - i,
    {
        out.append("[");
        proof {
            reveal_strlit("[");
            lemma_brackets_snoc(i as nat);
            assert(brackets((i + 1) as nat) =~= brackets(i as nat) + "["@);
        }
        i = i + 1;
    }
    match &jt.ctype {
        JComponentType::Byte => {
            out.append("B");
            proof {
                reveal_strlit("B");
                assert(out@ =~= spec_render_field(jt@));
            }
        },
        JComponentType::Char => {
            out.append("C");
            proof {
                reveal_strlit("C");
                assert(out@ =~= spec_render_field(jt@));
            }
        },
        JComponentType::Double => {
            out.append("D");
            proof {
                reveal_strlit("D");
                assert(out@ =~= spec_render_field(jt@));
            }
        },
        JComponentType::Float => {
            out.append("F");
            proof {
                reveal_strlit("F");
                assert(out@ =~= spec_render_field(jt@));
            }
        },
        JComponentType::Int => {
            out.append("I");
            proof {
                reveal_strlit("I");
                assert(out@ =~= spec_render_field(jt@));
            }
        },
        JComponentType::Long => {
            out.append("J");
            proof {
                reveal_strlit("J");
                assert(out@ =~= spec_render_field(jt@));
            }
        },
        JComponentType::Short => {
            out.append("S");
            proof {
                reveal_strlit("S");
                assert(out@ =~= spec_render_field(jt@));
            }
        },
        JComponentType::Boolean => {
            out.append("Z");
            proof {
                reveal_strlit("Z");
                assert(out@ =~= spec_render_field(jt@));
            }
        },
        JComponentType::Object(name) => {
            out.append("L");
            out.append(name.as_str());
            out.append(";");
            proof {
                reveal_strlit("L");
                reveal_strlit(";");
                assert(out@ =~= spec_render_field(jt@));
            }
        },
    }
    out
}

} // verus!

