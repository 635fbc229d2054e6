//! Reading function signatures from the `contractspecv0` custom section of a
//! compiled contract.
//!
//! The section is a stream of XDR-encoded spec entries. Only function
//! entries are read: reading stops at the first entry of another kind, or at
//! the first entry that does not read as a function with the supported types.
use vstd::prelude::*;
use vstd::utf8::{decode_utf8, valid_utf8};
use crate::text::{concat3, decimal, decimal_string, str_eq, string_of};
use crate::types::{ContractSpec, FunctionSpec, FunctionSpecView, ParamInfo, ParamInfoView};

verus! {

// ---------------------------------------------------------------------------
// Model of the section
// ---------------------------------------------------------------------------

/// The little-endian 32-bit number at `off`.
pub open spec fn le_u32(d: Seq<u8>, off: int) -> nat {
    (d[off] + d[off + 1] * 256 + d[off + 2] * 65536 + d[off + 3] * 16777216) as nat
}

/// `n` rounded up to a multiple of four.
pub open spec fn pad4(n: nat) -> nat {
    ((n + 3) / 4 * 4) as nat
}

/// The XDR string at `off`: a 32-bit length, that many bytes of UTF-8, then
/// padding to four bytes. Gives the text and the offset after the padding
/// (which may lie past the end when the padding is missing).
pub open spec fn xdr_string_at(d: Seq<u8>, off: nat) -> Option<(Seq<char>, nat)> {
    if off + 4 > d.len() {
        None
    } else {
        let len = le_u32(d, off as int);
        if off + 4 + len > d.len() {
            None
        } else {
            let bytes = d.subrange(off + 4 as int, off + 4 + len as int);
            if valid_utf8(bytes) {
                Some((decode_utf8(bytes), (off + 4 + pad4(len)) as nat))
            } else {
                None
            }
        }
    }
}

/// The name of a type given by its discriminant alone; `BytesN` (15)
/// carries a size and unknown discriminants have no name.
pub open spec fn scalar_type_name(disc: nat) -> Option<Seq<char>> {
    if disc == 0 {
        Some("Val"@)
    } else if disc == 1 {
        Some("Void"@)
    } else if disc == 2 {
        Some("Bool"@)
    } else if disc == 3 {
        Some("Error"@)
    } else if disc == 4 {
        Some("u32"@)
    } else if disc == 5 {
        Some("i32"@)
    } else if disc == 6 {
        Some("u64"@)
    } else if disc == 7 {
        Some("i64"@)
    } else if disc == 8 {
        Some("Timestamp"@)
    } else if disc == 9 {
        Some("Duration"@)
    } else if disc == 10 {
        Some("u128"@)
    } else if disc == 11 {
        Some("i128"@)
    } else if disc == 12 {
        Some("u256"@)
    } else if disc == 13 {
        Some("i256"@)
    } else if disc == 14 {
        Some("Bytes"@)
    } else if disc == 16 {
        Some("Address"@)
    } else if disc == 17 {
        Some("String"@)
    } else if disc == 18 {
        Some("Symbol"@)
    } else if disc == 19 {
        Some("Vec<...>"@)
    } else if disc == 20 {
        Some("Map<...>"@)
    } else if disc == 21 {
        Some("Contract<...>"@)
    } else if disc == 22 {
        Some("Option<...>"@)
    } else {
        None
    }
}

/// The type at `off` and the offset after it. Composite types are named
/// without their parameters, whose encoding is not read.
pub open spec fn scalar_type_at(d: Seq<u8>, off: nat) -> Option<(Seq<char>, nat)> {
    if off + 4 > d.len() {
        None
    } else {
        let disc = le_u32(d, off as int);
        if disc == 15 {
            if off + 8 > d.len() {
                None
            } else {
                Some(("BytesN("@ + decimal(le_u32(d, off + 4 as int)) + ")"@, (off + 8) as nat))
            }
        } else {
            match scalar_type_name(disc) {
                Some(name) => Some((name, (off + 4) as nat)),
                None => None,
            }
        }
    }
}

/// `count` parameters from `off`: each a type, followed by a name when
/// `named`; unnamed parameters get the empty name.
pub open spec fn params_at(d: Seq<u8>, off: nat, count: nat, named: bool) -> Option<
    (Seq<ParamInfoView>, nat),
>
    decreases count,
{
    if count == 0 {
        Some((Seq::empty(), off))
    } else {
        match params_at(d, off, (count - 1) as nat, named) {
            None => None,
            Some((ps, o)) => match scalar_type_at(d, o) {
                None => None,
                Some((ty, o2)) => if named {
                    match xdr_string_at(d, o2) {
                        None => None,
                        Some((name, o3)) => Some((ps.push(ParamInfoView { name, ty }), o3)),
                    }
                } else {
                    Some((ps.push(ParamInfoView { name: Seq::empty(), ty }), o2))
                },
            },
        }
    }
}

/// A function entry at the start of `d` (after its discriminant): a doc
/// string, the name, the counted named inputs, the counted unnamed outputs.
/// Gives the function and the number of bytes it takes.
#[verifier::opaque]
pub open spec fn function_entry(d: Seq<u8>) -> Option<(FunctionSpecView, nat)> {
    match xdr_string_at(d, 0) {
        None => None,
        Some((_doc, o1)) => match xdr_string_at(d, o1) {
            None => None,
            Some((name, o2)) => if o2 + 4 > d.len() {
                None
            } else {
                match params_at(d, o2 + 4, le_u32(d, o2 as int), true) {
                    None => None,
                    Some((inputs, o3)) => if o3 + 4 > d.len() {
                        None
                    } else {
                        match params_at(d, o3 + 4, le_u32(d, o3 as int), false) {
                            None => None,
                            Some((outputs, o4)) => Some((FunctionSpecView { name, inputs, outputs }, o4)),
                        }
                    },
                }
            },
        },
    }
}

/// The functions that a section (from some point on) yields: entries with
/// discriminant 0 read as functions, up to the first one that does not.
pub open spec fn section_entries(rest: Seq<u8>) -> Seq<FunctionSpecView>
    decreases rest.len(),
{
    if rest.len() < 4 || le_u32(rest, 0) != 0 {
        Seq::empty()
    } else {
        match function_entry(rest.subrange(4, rest.len() as int)) {
            None => Seq::empty(),
            Some((f, n)) => seq![f] + if 4 + n <= rest.len() {
                section_entries(rest.subrange(4 + n as int, rest.len() as int))
            } else {
                Seq::empty()
            },
        }
    }
}

/// An XDR string takes its 4-byte length, its bytes and padding to a
/// multiple of four: the offset after it keeps the alignment of the offset
/// before it, and it is read only when its bytes lie within `d` and are
/// UTF-8.
pub proof fn lemma_xdr_string_layout(d: Seq<u8>, off: nat)
    ensures
        xdr_string_at(d, off) matches Some((s, o)) ==> {
            let len = le_u32(d, off as int);
            &&& off + 4 + len <= d.len()
            &&& o == off + 4 + pad4(len)
            &&& len <= pad4(len) < len + 4
            &&& (o - off) % 4 == 0
            &&& valid_utf8(d.subrange(off + 4 as int, off + 4 + len as int))
            &&& s == decode_utf8(d.subrange(off + 4 as int, off + 4 + len as int))
        },
        xdr_string_at(d, off) is None <==> (off + 4 > d.len() || off + 4 + le_u32(d, off as int)
            > d.len() || !valid_utf8(
            d.subrange(off + 4 as int, off + 4 + le_u32(d, off as int) as int),
        )),
{
}

/// Which types are read: discriminants 0 to 22, where 15 (`BytesN`) takes
/// four more bytes for its size; any other discriminant stops reading.
pub proof fn lemma_scalar_type_table(d: Seq<u8>, off: nat)
    requires
        off + 4 <= d.len(),
    ensures
        le_u32(d, off as int) > 22 ==> scalar_type_at(d, off) is None,
        le_u32(d, off as int) <= 22 && le_u32(d, off as int) != 15 ==> scalar_type_at(d, off)
            == Some((scalar_type_name(le_u32(d, off as int))->0, (off + 4) as nat)),
        le_u32(d, off as int) == 15 ==> (scalar_type_at(d, off) is None <==> off + 8 > d.len()),
        le_u32(d, off as int) == 15 && off + 8 <= d.len() ==> scalar_type_at(d, off) == Some(
            ("BytesN("@ + decimal(le_u32(d, off + 4 as int)) + ")"@, (off + 8) as nat),
        ),
{
}

proof fn lemma_pad4_aligned(n: nat)
    ensures
        pad4(n) % 4 == 0,
{
    let q: int = ((n + 3) / 4) as int;
    assert((q * 4) % 4 == 0) by (nonlinear_arith);
}

proof fn lemma_params_layout(d: Seq<u8>, off: nat, count: nat, named: bool)
    ensures
        params_at(d, off, count, named) matches Some((ps, o)) ==> {
            &&& ps.len() == count
            &&& off <= o
            &&& (o - off) % 4 == 0
            &&& !named ==> forall|i: int| 0 <= i < ps.len() ==> (#[trigger] ps[i]).name == Seq::<char>::empty()
        },
    decreases count,
{
    if count > 0 {
        lemma_params_layout(d, off, (count - 1) as nat, named);
        if let Some((ps, o)) = params_at(d, off, (count - 1) as nat, named) {
            if let Some((ty, o2)) = scalar_type_at(d, o) {
                if named {
                    if let Some((name, o3)) = xdr_string_at(d, o2) {
                        lemma_pad4_aligned(le_u32(d, o2 as int));
                    }
                } else {
                    let qs = ps.push(ParamInfoView { name: Seq::empty(), ty });
                    assert forall|i: int| 0 <= i < qs.len() implies (#[trigger] qs[i]).name == Seq::<
                        char,
                    >::empty() by {
                        if i < ps.len() {
                            assert(qs[i] == ps[i]);
                        }
                    }
                }
            }
        }
    }
}

/// The layout of a function entry: a doc string, the name, the number of
/// inputs and the named inputs, the number of outputs and the unnamed
/// outputs. An entry that reads takes a multiple of four bytes, at least
/// sixteen.
pub proof fn lemma_function_entry_layout(d: Seq<u8>)
    ensures
        function_entry(d) matches Some((_f, n)) ==> {
            &&& n % 4 == 0
            &&& 16 <= n
        },
{
    if function_entry(d) is Some {
        let x1 = xdr_string_at(d, 0);
        assert(x1 is Some) by {
            reveal(function_entry);
        }
        let o1 = (x1->0).1;
        lemma_xdr_string_layout(d, 0);
        let x2 = xdr_string_at(d, o1);
        assert(x2 is Some) by {
            reveal(function_entry);
        }
        let o2 = (x2->0).1;
        lemma_xdr_string_layout(d, o1);
        assert(o2 + 4 <= d.len()) by {
            reveal(function_entry);
        }
        let p1 = params_at(d, o2 + 4, le_u32(d, o2 as int), true);
        assert(p1 is Some) by {
            reveal(function_entry);
        }
        lemma_params_layout(d, o2 + 4, le_u32(d, o2 as int), true);
        let o3 = (p1->0).1;
        assert(o3 + 4 <= d.len()) by {
            reveal(function_entry);
        }
        let p2 = params_at(d, o3 + 4, le_u32(d, o3 as int), false);
        assert(p2 is Some) by {
            reveal(function_entry);
        }
        lemma_params_layout(d, o3 + 4, le_u32(d, o3 as int), false);
        let o4 = (p2->0).1;
        assert((function_entry(d)->0).1 == o4) by {
            reveal(function_entry);
        }
        lemma_aligned_step(0, o1 as int);
        lemma_aligned_step(o1 as int, o2 as int);
        lemma_aligned_step(o2 as int, (o2 + 4) as int);
        lemma_aligned_step((o2 + 4) as int, o3 as int);
        lemma_aligned_step(o3 as int, (o3 + 4) as int);
        lemma_aligned_step((o3 + 4) as int, o4 as int);
    }
}

proof fn lemma_aligned_step(a: int, b: int)
    requires
        a % 4 == 0,
        (b - a) % 4 == 0,
    ensures
        b % 4 == 0,
{
}

/// What a function entry holds: its name is the second string (after the
/// doc string), it has as many inputs and outputs as their counts say, and
/// its outputs have no names.
pub proof fn lemma_function_entry_fields(d: Seq<u8>)
    ensures
        function_entry(d) matches Some((f, _n)) ==> {
            let o1 = (xdr_string_at(d, 0)->0).1;
            let o2 = (xdr_string_at(d, o1)->0).1;
            let o3 = (params_at(d, o2 + 4, le_u32(d, o2 as int), true)->0).1;
            &&& f.name == (xdr_string_at(d, o1)->0).0
            &&& f.inputs.len() == le_u32(d, o2 as int)
            &&& f.outputs.len() == le_u32(d, o3 as int)
            &&& forall|i: int| 0 <= i < f.outputs.len() ==> (#[trigger] f.outputs[i]).name == Seq::<char>::empty()
        },
{
    if let Some((f, n)) = function_entry(d) {
        reveal(function_entry);
        let x1 = xdr_string_at(d, 0);
        assert(x1 is Some);
        let o1 = (x1->0).1;
        let x2 = xdr_string_at(d, o1);
        assert(x2 is Some);
        let o2 = (x2->0).1;
        assert(o2 + 4 <= d.len());
        let p1 = params_at(d, o2 + 4, le_u32(d, o2 as int), true);
        assert(p1 is Some);
        lemma_params_layout(d, o2 + 4, le_u32(d, o2 as int), true);
        let o3 = (p1->0).1;
        assert(o3 + 4 <= d.len());
        let p2 = params_at(d, o3 + 4, le_u32(d, o3 as int), false);
        assert(p2 is Some);
        lemma_params_layout(d, o3 + 4, le_u32(d, o3 as int), false);
        assert(f.name == (x2->0).0);
        assert(f.inputs == (p1->0).0);
        assert(f.outputs == (p2->0).0);
    }
}

/// The names of the types that a discriminant alone gives, as the spec
/// format numbers them; 15 (`BytesN`) carries a size and is named with it,
/// and discriminants past 22 name nothing.
pub proof fn lemma_scalar_type_names(d: nat)
    ensures
        scalar_type_name(0) == Some("Val"@),
        scalar_type_name(1) == Some("Void"@),
        scalar_type_name(2) == Some("Bool"@),
        scalar_type_name(3) == Some("Error"@),
        scalar_type_name(4) == Some("u32"@),
        scalar_type_name(5) == Some("i32"@),
        scalar_type_name(6) == Some("u64"@),
        scalar_type_name(7) == Some("i64"@),
        scalar_type_name(8) == Some("Timestamp"@),
        scalar_type_name(9) == Some("Duration"@),
        scalar_type_name(10) == Some("u128"@),
        scalar_type_name(11) == Some("i128"@),
        scalar_type_name(12) == Some("u256"@),
        scalar_type_name(13) == Some("i256"@),
        scalar_type_name(14) == Some("Bytes"@),
        scalar_type_name(15) is None,
        scalar_type_name(16) == Some("Address"@),
        scalar_type_name(17) == Some("String"@),
        scalar_type_name(18) == Some("Symbol"@),
        scalar_type_name(19) == Some("Vec<...>"@),
        scalar_type_name(20) == Some("Map<...>"@),
        scalar_type_name(21) == Some("Contract<...>"@),
        scalar_type_name(22) == Some("Option<...>"@),
        d > 22 ==> scalar_type_name(d) is None,
{
}

/// Reading a section stops at the first entry that is not a function (its
/// discriminant is not 0) or does not read as one.
pub proof fn lemma_section_stops(rest: Seq<u8>)
    ensures
        rest.len() >= 4 && le_u32(rest, 0) != 0 ==> section_entries(rest) == Seq::<
            FunctionSpecView,
        >::empty(),
        rest.len() >= 4 && le_u32(rest, 0) == 0 && function_entry(rest.subrange(4, rest.len() as int))
            is None ==> section_entries(rest) == Seq::<FunctionSpecView>::empty(),
        rest.len() < 4 ==> section_entries(rest) == Seq::<FunctionSpecView>::empty(),
{
}

/// Reading a section yields its function entries in order: an entry with
/// discriminant 0 that reads as a function comes first, followed by what
/// the bytes after it yield (nothing, when its padding runs past the end).
pub proof fn lemma_section_in_order(rest: Seq<u8>)
    requires
        rest.len() >= 4,
        le_u32(rest, 0) == 0,
        function_entry(rest.subrange(4, rest.len() as int)) is Some,
    ensures
        ({
            let (f, n) = function_entry(rest.subrange(4, rest.len() as int))->0;
            section_entries(rest) == seq![f] + if 4 + n <= rest.len() {
                section_entries(rest.subrange(4 + n as int, rest.len() as int))
            } else {
                Seq::empty()
            }
        }),
{
}

// ---------------------------------------------------------------------------
// Reading
// ---------------------------------------------------------------------------

/// Decodes UTF-8, as `std::str::from_utf8` does, into an owned string.
///
/// Trusted: the body calls `std::str::from_utf8`, documented to succeed
/// exactly on well-formed UTF-8; the contract states that over vstd's model
/// of UTF-8.
#[verifier::external_body]
fn utf8_to_string(bytes: &[u8]) -> (r: Option<String>)
    ensures
        r is Some <==> valid_utf8(bytes@),
        r matches Some(s) ==> s@ == decode_utf8(bytes@),
{
    std::str::from_utf8(bytes).ok().map(|s| s.to_string())
}

fn read_u32_le(data: &[u8], off: usize) -> (r: u32)
    requires
        off + 4 <= data@.len(),
    ensures
        r as nat == le_u32(data@, off as int),
{
    (data[off] as u32) + (data[off + 1] as u32) * 256 + (data[off + 2] as u32) * 65536 + (data[off
        + 3] as u32) * 16777216
}

/// Reads an XDR length-prefixed string at `offset`.
pub fn read_xdr_string(data: &[u8], offset: usize) -> (r: Option<(String, usize)>)
    requires
        data@.len() <= isize::MAX,
        offset + 4 <= usize::MAX,
    ensures
        match r {
            Some((s, o)) => xdr_string_at(data@, offset as nat) == Some((s@, o as nat)) && o
                <= data@.len() + 3,
            None => xdr_string_at(data@, offset as nat) is None,
        },
{
    if offset + 4 > data.len() {
        return None;
    }
    let len = read_u32_le(data, offset) as usize;
    if len > data.len() - offset - 4 {
        return None;
    }
    let start = offset + 4;
    let end = offset + 4 + len;
    let bytes = &data[start..end];
    assert(bytes@ == data@.subrange(start as int, end as int));
    match utf8_to_string(bytes) {
        None => None,
        Some(s) => {
            let padded = 4 + (len + 3) / 4 * 4;
            Some((s, offset + padded))
        },
    }
}

fn discriminant_name(disc: u32) -> (r: Option<&'static str>)
    ensures
        match r {
            Some(s) => scalar_type_name(disc as nat) == Some(s@),
            None => scalar_type_name(disc as nat) is None,
        },
{
    if disc == 0 {
        Some("Val")
    } else if disc == 1 {
        Some("Void")
    } else if disc == 2 {
        Some("Bool")
    } else if disc == 3 {
        Some("Error")
    } else if disc == 4 {
        Some("u32")
    } else if disc == 5 {
        Some("i32")
    } else if disc == 6 {
        Some("u64")
    } else if disc == 7 {
        Some("i64")
    } else if disc == 8 {
        Some("Timestamp")
    } else if disc == 9 {
        Some("Duration")
    } else if disc == 10 {
        Some("u128")
    } else if disc == 11 {
        Some("i128")
    } else if disc == 12 {
        Some("u256")
    } else if disc == 13 {
        Some("i256")
    } else if disc == 14 {
        Some("Bytes")
    } else if disc == 16 {
        Some("Address")
    } else if disc == 17 {
        Some("String")
    } else if disc == 18 {
        Some("Symbol")
    } else if disc == 19 {
        Some("Vec<...>")
    } else if disc == 20 {
        Some("Map<...>")
    } else if disc == 21 {
        Some("Contract<...>")
    } else if disc == 22 {
        Some("Option<...>")
    } else {
        None
    }
}

/// Reads a type at `offset`; gives its name and the offset after it.
pub fn read_scalar_type(data: &[u8], offset: usize) -> (r: Option<(String, usize)>)
    requires
        data@.len() <= isize::MAX,
        offset + 4 <= usize::MAX,
    ensures
        match r {
            Some((s, o)) => scalar_type_at(data@, offset as nat) == Some((s@, o as nat)) && o
                <= data@.len() + 3,
            None => scalar_type_at(data@, offset as nat) is None,
        },
{
    if offset + 4 > data.len() {
        return None;
    }
    let disc = read_u32_le(data, offset);
    if disc == 15 {
        if offset + 8 > data.len() {
            return None;
        }
        let n = read_u32_le(data, offset + 4);
        let digits = decimal_string(n);
        return Some((concat3("BytesN(", digits.as_str(), ")"), offset + 8));
    }
    match discriminant_name(disc) {
        Some(name) => Some((string_of(name), offset + 4)),
        None => None,
    }
}

/// Once reading some parameters fails, reading more fails too.
proof fn lemma_params_fail_stays(d: Seq<u8>, off: nat, i: nat, count: nat, named: bool)
    requires
        i <= count,
        params_at(d, off, i, named) is None,
    ensures
        params_at(d, off, count, named) is None,
    decreases count,
{
    if count > i {
        lemma_params_fail_stays(d, off, i, (count - 1) as nat, named);
    }
}

/// Reads `count` parameters from `offset`.
fn read_params(data: &[u8], offset: usize, count: u32, named: bool) -> (r: Option<(Vec<ParamInfo>, usize)>)
    requires
        data@.len() <= isize::MAX,
        offset <= data@.len() + 3,
    ensures
        match r {
            Some((ps, o)) => params_at(data@, offset as nat, count as nat, named) == Some(
                (ps.deep_view(), o as nat),
            ) && o <= data@.len() + 3,
            None => params_at(data@, offset as nat, count as nat, named) is None,
        },
{
    let mut ps: Vec<ParamInfo> = Vec::new();
    let mut o = offset;
    let mut i: u32 = 0;
    assert(ps.deep_view() =~= Seq::<ParamInfoView>::empty());
    while i < count
        invariant
            data@.len() <= isize::MAX,
            i <= count,
            o <= data@.len() + 3,
            params_at(data@, offset as nat, i as nat, named) == Some((ps.deep_view(), o as nat)),
        decreases count - i,
    {
        let ghost prev = ps.deep_view();
        match read_scalar_type(data, o) {
            None => {
                proof {
                    lemma_params_fail_stays(data@, offset as nat, (i + 1) as nat, count as nat, named);
                }
                return None;
            },
            Some((ty, o2)) => {
                if named {
                    match read_xdr_string(data, o2) {
                        None => {
                            proof {
                                lemma_params_fail_stays(
                                    data@,
                                    offset as nat,
                                    (i + 1) as nat,
                                    count as nat,
                                    named,
                                );
                            }
                            return None;
                        },
                        Some((name, o3)) => {
                            let p = ParamInfo { name, ty };
                            ps.push(p);
                            assert(ps.deep_view() =~= prev.push(p@));
                            o = o3;
                        },
                    }
                } else {
                    let p = ParamInfo { name: String::new(), ty };
                    ps.push(p);
                    assert(ps.deep_view() =~= prev.push(p@));
                    o = o2;
                }
            },
        }
        i = i + 1;
    }
    Some((ps, o))
}

/// Reads a function entry from the start of `data` (after its
/// discriminant); gives the function and the number of bytes it takes.
pub fn parse_function_entry(data: &[u8]) -> (r: Option<(FunctionSpec, usize)>)
    requires
        data@.len() <= isize::MAX,
    ensures
        match r {
            Some((f, n)) => function_entry(data@) == Some((f@, n as nat)) && n <= data@.len() + 3,
            None => function_entry(data@) is None,
        },
{
    reveal(function_entry);
    let (_doc, o1) = match read_xdr_string(data, 0) {
        Some(x) => x,
        None => return None,
    };
    let (name, o2) = match read_xdr_string(data, o1) {
        Some(x) => x,
        None => return None,
    };
    if o2 + 4 > data.len() {
        return None;
    }
    let input_count = read_u32_le(data, o2);
    let (inputs, o3) = match read_params(data, o2 + 4, input_count, true) {
        Some(x) => x,
        None => return None,
    };
    if o3 + 4 > data.len() {
        return None;
    }
    let output_count = read_u32_le(data, o3);
    let (outputs, o4) = match read_params(data, o3 + 4, output_count, false) {
        Some(x) => x,
        None => return None,
    };
    Some((FunctionSpec { name, inputs, outputs }, o4))
}

/// Reads the function entries of a `contractspecv0` section and appends
/// them to `spec`.
pub fn parse_contractspec_section(data: &[u8], spec: &mut ContractSpec)
    requires
        data@.len() <= isize::MAX,
    ensures
        final(spec)@ == old(spec)@ + section_entries(data@),
{
    let ghost d = data@;
    let ghost start = spec@;
    let mut offset: usize = 0;
    assert(d.subrange(0, d.len() as int) =~= d);
    loop
        invariant
            d == data@,
            d.len() <= isize::MAX,
            offset <= d.len(),
            spec@ + section_entries(d.subrange(offset as int, d.len() as int)) == start
                + section_entries(d),
        ensures
            offset <= d.len(),
            spec@ + section_entries(d.subrange(offset as int, d.len() as int)) == start
                + section_entries(d),
            section_entries(d.subrange(offset as int, d.len() as int)) == Seq::<FunctionSpecView>::empty(),
        decreases d.len() - offset,
    {
        let ghost rest = d.subrange(offset as int, d.len() as int);
        if offset + 4 > data.len() {
            assert(section_entries(rest) =~= Seq::<FunctionSpecView>::empty());
            break;
        }
        let disc = read_u32_le(data, offset);
        assert(le_u32(rest, 0) == le_u32(d, offset as int));
        if disc != 0 {
            assert(section_entries(rest) =~= Seq::<FunctionSpecView>::empty());
            break;
        }
        let tail = &data[offset + 4..data.len()];
        assert(tail@ =~= rest.subrange(4, rest.len() as int));
        match parse_function_entry(tail) {
            None => {
                assert(section_entries(rest) =~= Seq::<FunctionSpecView>::empty());
                break;
            },
            Some((f, n)) => {
                let ghost fv = f@;
                let ghost before = spec@;
                spec.functions.push(f);
                assert(spec@ =~= before.push(fv));
                if n > data.len() - offset - 4 {
                    assert(section_entries(rest) =~= seq![fv]);
                    assert(spec@ + section_entries(d.subrange(d.len() as int, d.len() as int))
                        =~= start + section_entries(d));
                    offset = data.len();
                    assert(section_entries(d.subrange(offset as int, d.len() as int)) =~= Seq::<FunctionSpecView>::empty());
                    break;
                }
                assert(rest.subrange(4 + n, rest.len() as int) =~= d.subrange(
                    offset + 4 + n,
                    d.len() as int,
                ));
                assert(section_entries(rest) =~= seq![fv] + section_entries(
                    d.subrange(offset + 4 + n, d.len() as int),
                ));
                offset = offset + 4 + n;
            },
        }
    }
    assert(spec@ =~= start + section_entries(d));
}

// ---------------------------------------------------------------------------
// The module around the section
// ---------------------------------------------------------------------------

/// Why reading a contract spec failed.
#[derive(Debug, Clone, PartialEq, Eq)]
pub enum SpecExtractError {
    /// The module could not be read.
    Io { path: String, message: String },
    /// The module is not usable as WebAssembly.
    InvalidWasm { path: String, message: String },
    /// The module is malformed.
    WasmParse(WasmError),
}

/// A malformation found in a module: what and where.
#[derive(Debug, Clone, PartialEq, Eq)]
pub struct WasmError {
    pub message: String,
    pub offset: u64,
}

/// Mathematical model of a [`WasmError`].
pub struct WasmErrorView {
    pub message: Seq<char>,
    pub offset: u64,
}

impl View for WasmError {
    type V = WasmErrorView;

    open spec fn view(&self) -> WasmErrorView {
        WasmErrorView { message: self.message@, offset: self.offset }
    }
}

/// One payload of a module, as far as the spec reading looks at it: a
/// custom section with its name and contents, or anything else.
#[derive(Debug, Clone, PartialEq, Eq)]
pub enum WasmPayload {
    Custom { name: String, data: Vec<u8> },
    Other,
}

/// Mathematical model of a [`WasmPayload`].
pub enum WasmPayloadView {
    Custom { name: Seq<char>, data: Seq<u8> },
    Other,
}

impl View for WasmPayload {
    type V = WasmPayloadView;

    open spec fn view(&self) -> WasmPayloadView {
        match self {
            WasmPayload::Custom { name, data } => WasmPayloadView::Custom { name: name@, data: data@ },
            WasmPayload::Other => WasmPayloadView::Other,
        }
    }
}

pub open spec fn payload_result_view(r: Result<WasmPayload, WasmError>) -> Result<
    WasmPayloadView,
    WasmErrorView,
> {
    match r {
        Ok(p) => Ok(p@),
        Err(e) => Err(e@),
    }
}

pub open spec fn payload_results_view(rs: Seq<Result<WasmPayload, WasmError>>) -> Seq<
    Result<WasmPayloadView, WasmErrorView>,
> {
    Seq::new(rs.len(), |i: int| payload_result_view(rs[i]))
}

/// The spec that a module's payloads give: the functions of the first
/// `contractspecv0` custom section, none when there is no such section, or
/// the first error met before it.
pub open spec fn spec_from_payloads<E>(ps: Seq<Result<WasmPayloadView, E>>) -> Result<
    Seq<FunctionSpecView>,
    E,
>
    decreases ps.len(),
{
    if ps.len() == 0 {
        Ok(Seq::empty())
    } else {
        match ps[0] {
            Err(e) => Err(e),
            Ok(p) => match p {
                WasmPayloadView::Custom { name, data } => if name == "contractspecv0"@ {
                    Ok(section_entries(data))
                } else {
                    spec_from_payloads(ps.drop_first())
                },
                WasmPayloadView::Other => spec_from_payloads(ps.drop_first()),
            },
        }
    }
}

/// Reads the contract spec from a module's payloads, in the order the
/// parser gives them.
pub fn extract_spec_from_payloads(payloads: &Vec<Result<WasmPayload, WasmError>>) -> (r: Result<
    ContractSpec,
    SpecExtractError,
>)
    requires
        forall|i: int|
            0 <= i < payloads@.len() ==> (#[trigger] payloads@[i] matches Ok(
                WasmPayload::Custom { data, .. },
            ) ==> data@.len() <= isize::MAX),
    ensures
        match spec_from_payloads(payload_results_view(payloads@)) {
            Ok(fs) => r matches Ok(s) && s@ == fs,
            Err(e) => r matches Err(SpecExtractError::WasmParse(w)) && w@ == e,
        },
{
    let ghost all = payload_results_view(payloads@);
    let mut i: usize = 0;
    assert(all.subrange(0, all.len() as int) =~= all);
    while i < payloads.len()
        invariant
            all == payload_results_view(payloads@),
            i <= payloads.len(),
            forall|k: int|
                0 <= k < payloads@.len() ==> (#[trigger] payloads@[k] matches Ok(
                    WasmPayload::Custom { data, .. },
                ) ==> data@.len() <= isize::MAX),
            spec_from_payloads(all) == spec_from_payloads(all.subrange(i as int, all.len() as int)),
        decreases payloads.len() - i,
    {
        let ghost rest = all.subrange(i as int, all.len() as int);
        assert(rest[0] == payload_result_view(payloads@[i as int]));
        assert(rest.drop_first() =~= all.subrange(i + 1, all.len() as int));
        match &payloads[i] {
            Err(e) => {
                let w = WasmError { message: e.message.clone(), offset: e.offset };
                return Err(SpecExtractError::WasmParse(w));
            },
            Ok(WasmPayload::Custom { name, data }) => {
                if str_eq(name.as_str(), "contractspecv0") {
                    let mut spec = ContractSpec::default();
                    parse_contractspec_section(data.as_slice(), &mut spec);
                    assert(spec@ =~= section_entries(data@));
                    return Ok(spec);
                }
            },
            Ok(WasmPayload::Other) => {},
        }
        i = i + 1;
    }
    assert(all.subrange(i as int, all.len() as int) =~= Seq::<Result<WasmPayloadView, WasmErrorView>>::empty());
    Ok(ContractSpec::default())
}

/// The payloads that `wasmparser` reads from a module, in order, each as a
/// [`WasmPayloadView`], or the error where reading failed (reading ends
/// there).
pub uninterp spec fn wasm_payloads(wasm: Seq<u8>) -> Seq<Result<WasmPayloadView, WasmErrorView>>;

/// Parses a module with `wasmparser::Parser::parse_all`, keeping the name
/// and contents of custom sections, and the message and offset of an error
/// (`Error::message`, `Error::offset`).
///
/// Trusted: the results are named, one for one, by `wasm_payloads`; a
/// custom section's contents are a slice of the module and so hold at most
/// `isize::MAX` bytes.
#[verifier::external_body]
fn parse_payloads(wasm: &[u8]) -> (r: Vec<Result<WasmPayload, WasmError>>)
    ensures
        payload_results_view(r@) == wasm_payloads(wasm@),
        forall|i: int|
            0 <= i < r@.len() ==> (#[trigger] r@[i] matches Ok(WasmPayload::Custom { data, .. })
                ==> data@.len() <= isize::MAX),
{
    wasmparser::Parser::new(0).parse_all(wasm).map(|p| match p {
        Ok(wasmparser::Payload::CustomSection(s)) => Ok(
            WasmPayload::Custom { name: s.name().to_string(), data: s.data().to_vec() },
        ),
        Ok(_) => Ok(WasmPayload::Other),
        Err(e) => Err(WasmError { message: e.message().to_string(), offset: e.offset() }),
    }).collect()
}

/// Extracts the contract spec from a compiled module: the function
/// signatures in its `contractspecv0` custom section.
pub fn extract_spec(wasm: &[u8]) -> (r: Result<ContractSpec, SpecExtractError>)
    ensures
        match spec_from_payloads(wasm_payloads(wasm@)) {
            Ok(fs) => r matches Ok(s) && s@ == fs,
            Err(e) => r matches Err(SpecExtractError::WasmParse(w)) && w@ == e,
        },
{
    let payloads = parse_payloads(wasm);
    extract_spec_from_payloads(&payloads)
}

} // verus!
