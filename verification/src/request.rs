//! Decoding of the requests that the policy looks into.
//!
//! Only a handful of opcodes are recognized; every other request is opaque.
//! A decoder reads the body of a framed request, that is the bytes after the
//! header, and fails when the body is too short for the fields it declares.

use crate::wire::{le_u16_value, le_u32_value, read_le_u16, read_le_u32, Opcode, Request};
use vstd::prelude::*;
use vstd::slice::slice_subrange;

verus! {

/// Whether a body is long enough for the fields of a request with this
/// opcode, those of variable length included.
pub open spec fn body_fits(op: Opcode, body: Seq<u8>) -> bool {
    match op {
        Opcode::ChangeWindowAttributes => true,
        Opcode::InternAtom => InternAtom::fits(body),
        Opcode::ChangeProperty => ChangeProperty::fits(body),
        Opcode::GetProperty => GetProperty::fits(body),
        Opcode::GrabButton => GrabButton::fits(body),
        Opcode::QueryExtension => QueryExtension::fits(body),
    }
}

/// A body that holds the fixed fields of its opcode can only fail to decode
/// by a name or by data that it declares and does not hold.
pub proof fn lemma_fixed_fields_decode(op: Opcode, body: Seq<u8>)
    requires
        body.len() >= op.fixed_len(),
    ensures
        op == Opcode::ChangeWindowAttributes || op == Opcode::GetProperty || op
            == Opcode::GrabButton ==> body_fits(op, body),
        op == Opcode::InternAtom || op == Opcode::QueryExtension ==> (body_fits(op, body) <==> 4
            + le_u16_value(body) <= body.len()),
        op == Opcode::ChangeProperty ==> (body_fits(op, body) <==> 20 + le_u32_value(
            body.subrange(16, 20),
        ) <= body.len()),
{
}

/// A body that starts with a 16-bit name length, two bytes of padding and
/// then the name holds all of the name.
pub open spec fn name_fits(body: Seq<u8>) -> bool {
    body.len() >= 4 && 4 + le_u16_value(body) <= body.len()
}

/// `InternAtom`: asks for the atom of a name.
#[derive(Clone, Copy, Debug, PartialEq, Eq)]
pub struct InternAtom<'a> {
    /// The data byte is 1.
    pub only_if_exists: bool,
    /// Bytes in the name.
    pub name_length: u16,
    /// The name as it stands on the wire.
    pub name: &'a [u8],
}

impl<'a> InternAtom<'a> {
    /// The body holds the name length and the whole name.
    pub open spec fn fits(body: Seq<u8>) -> bool {
        name_fits(body)
    }

    /// `self` is what the data byte and the body encode.
    pub open spec fn describes(self, datab: u8, body: Seq<u8>) -> bool {
        &&& self.only_if_exists == (datab == 1)
        &&& self.name_length == le_u16_value(body)
        &&& self.name@ == body.subrange(4, 4 + le_u16_value(body))
    }
}

/// `GetProperty`: reads a window property.
#[derive(Clone, Copy, Debug, PartialEq, Eq, Structural)]
pub struct GetProperty {
    /// The data byte is 1.
    pub delete: bool,
    pub window: u32,
    pub property: u32,
    pub atom_prop_type: u32,
    pub offset: u32,
    pub length: u32,
}

impl GetProperty {
    /// The body holds the five 32-bit fields.
    pub open spec fn fits(body: Seq<u8>) -> bool {
        body.len() >= 20
    }

    /// `self` is what the data byte and the body encode.
    pub open spec fn describes(self, datab: u8, body: Seq<u8>) -> bool {
        &&& self.delete == (datab == 1)
        &&& self.window == le_u32_value(body.subrange(0, 4))
        &&& self.property == le_u32_value(body.subrange(4, 8))
        &&& self.atom_prop_type == le_u32_value(body.subrange(8, 12))
        &&& self.offset == le_u32_value(body.subrange(12, 16))
        &&& self.length == le_u32_value(body.subrange(16, 20))
    }
}

/// `QueryExtension`: asks whether an extension is present.
#[derive(Clone, Copy, Debug, PartialEq, Eq)]
pub struct QueryExtension<'a> {
    /// Bytes in the name.
    pub name_length: u16,
    /// The name as it stands on the wire.
    pub name: &'a [u8],
}

impl<'a> QueryExtension<'a> {
    /// The body holds the name length and the whole name.
    pub open spec fn fits(body: Seq<u8>) -> bool {
        name_fits(body)
    }

    /// `self` is what the body encodes.
    pub open spec fn describes(self, body: Seq<u8>) -> bool {
        &&& self.name_length == le_u16_value(body)
        &&& self.name@ == body.subrange(4, 4 + le_u16_value(body))
    }
}

/// `ChangeProperty`: writes a window property.
#[derive(Clone, Copy, Debug, PartialEq, Eq)]
pub struct ChangeProperty<'a> {
    /// The data byte: replace, prepend or append.
    pub mode: u8,
    pub window: u32,
    pub property: u32,
    pub prop_type: u32,
    pub format: u8,
    /// Bytes in `data`.
    pub data_length: u32,
    pub data: &'a [u8],
}

impl<'a> ChangeProperty<'a> {
    /// The body holds the fixed fields and all of the data.
    pub open spec fn fits(body: Seq<u8>) -> bool {
        body.len() >= 20 && 20 + le_u32_value(body.subrange(16, 20)) <= body.len()
    }

    /// `self` is what the data byte and the body encode.
    pub open spec fn describes(self, datab: u8, body: Seq<u8>) -> bool {
        &&& self.mode == datab
        &&& self.window == le_u32_value(body.subrange(0, 4))
        &&& self.property == le_u32_value(body.subrange(4, 8))
        &&& self.prop_type == le_u32_value(body.subrange(8, 12))
        &&& self.format == body[12]
        &&& self.data_length == le_u32_value(body.subrange(16, 20))
        &&& self.data@ == body.subrange(20, 20 + le_u32_value(body.subrange(16, 20)))
    }
}

/// `GrabButton`: grabs a pointer button on a window. Only the fields that a
/// policy may look at are kept.
#[derive(Clone, Copy, Debug, PartialEq, Eq, Structural)]
pub struct GrabButton {
    /// The data byte is 1.
    pub owner_events: bool,
    pub window: u32,
}

impl GrabButton {
    /// The body holds the window.
    pub open spec fn fits(body: Seq<u8>) -> bool {
        body.len() >= 4
    }

    /// `self` is what the data byte and the body encode.
    pub open spec fn describes(self, datab: u8, body: Seq<u8>) -> bool {
        &&& self.owner_events == (datab == 1)
        &&& self.window == le_u32_value(body.subrange(0, 4))
    }
}

/// A request as the policy sees it: one variant for each recognized opcode,
/// and one for all the others.
#[derive(Clone, Copy, Debug, PartialEq, Eq)]
pub enum Decoded<'a> {
    ChangeWindowAttributes,
    InternAtom(InternAtom<'a>),
    ChangeProperty(ChangeProperty<'a>),
    GetProperty(GetProperty),
    GrabButton(GrabButton),
    QueryExtension(QueryExtension<'a>),
    /// An opcode that the decoder does not know.
    Opaque,
}

impl<'a> Decoded<'a> {
    /// The recognized opcode of this request, if it has one.
    pub open spec fn opcode(self) -> Option<Opcode> {
        match self {
            Decoded::ChangeWindowAttributes => Some(Opcode::ChangeWindowAttributes),
            Decoded::InternAtom(_) => Some(Opcode::InternAtom),
            Decoded::ChangeProperty(_) => Some(Opcode::ChangeProperty),
            Decoded::GetProperty(_) => Some(Opcode::GetProperty),
            Decoded::GrabButton(_) => Some(Opcode::GrabButton),
            Decoded::QueryExtension(_) => Some(Opcode::QueryExtension),
            Decoded::Opaque => None,
        }
    }

    /// `self` is what the data byte and the body encode.
    pub open spec fn describes(self, datab: u8, body: Seq<u8>) -> bool {
        match self {
            Decoded::ChangeWindowAttributes => true,
            Decoded::InternAtom(a) => a.describes(datab, body),
            Decoded::ChangeProperty(c) => c.describes(datab, body),
            Decoded::GetProperty(g) => g.describes(datab, body),
            Decoded::GrabButton(g) => g.describes(datab, body),
            Decoded::QueryExtension(q) => q.describes(body),
            Decoded::Opaque => true,
        }
    }
}

/// Reads the 32-bit field that starts at `at`, if the body reaches that far.
fn field_u32(body: &[u8], at: usize) -> (r: Option<u32>)
    ensures
        r is Some <==> at + 4 <= body@.len(),
        r matches Some(v) ==> v == le_u32_value(body@.subrange(at as int, at + 4)),
{
    if body.len() < 4 || body.len() - 4 < at {
        return None;
    }
    read_le_u32(slice_subrange(body, at, at + 4))
}

/// Reads a name that follows its 16-bit length and two bytes of padding.
fn counted_name<'a>(body: &'a [u8]) -> (r: Option<(u16, &'a [u8])>)
    ensures
        r is Some <==> name_fits(body@),
        r matches Some(p) ==> p.0 == le_u16_value(body@) && p.1@ == body@.subrange(
            4,
            4 + le_u16_value(body@),
        ),
{
    let name_length: u16 = match read_le_u16(body) {
        Some(v) => v,
        None => {
            return None;
        },
    };
    if body.len() < 4 {
        return None;
    }
    let n: usize = name_length as usize;
    if body.len() - 4 < n {
        return None;
    }
    Some((name_length, slice_subrange(body, 4, 4 + n)))
}

/// Decodes the body of an `InternAtom` request.
pub fn intern_atom<'a>(req: &Request<'a>) -> (r: Option<InternAtom<'a>>)
    ensures
        r is Some <==> InternAtom::fits(req.data@),
        r matches Some(a) ==> a.describes(req.datab, req.data@),
{
    match counted_name(req.data) {
        Some((name_length, name)) => Some(
            InternAtom { only_if_exists: req.datab == 1, name_length, name },
        ),
        None => None,
    }
}

/// Decodes the body of a `QueryExtension` request.
pub fn query_extension<'a>(req: &Request<'a>) -> (r: Option<QueryExtension<'a>>)
    ensures
        r is Some <==> QueryExtension::fits(req.data@),
        r matches Some(q) ==> q.describes(req.data@),
{
    match counted_name(req.data) {
        Some((name_length, name)) => Some(QueryExtension { name_length, name }),
        None => None,
    }
}

/// Decodes the body of a `GetProperty` request.
pub fn get_property(req: &Request) -> (r: Option<GetProperty>)
    ensures
        r is Some <==> GetProperty::fits(req.data@),
        r matches Some(g) ==> g.describes(req.datab, req.data@),
{
    let body = req.data;
    let length: u32 = field_u32(body, 16)?;
    Some(
        GetProperty {
            delete: req.datab == 1,
            window: field_u32(body, 0)?,
            property: field_u32(body, 4)?,
            atom_prop_type: field_u32(body, 8)?,
            offset: field_u32(body, 12)?,
            length,
        },
    )
}

/// Decodes the body of a `ChangeProperty` request.
pub fn change_property<'a>(req: &Request<'a>) -> (r: Option<ChangeProperty<'a>>)
    ensures
        r is Some <==> ChangeProperty::fits(req.data@),
        r matches Some(c) ==> c.describes(req.datab, req.data@),
{
    let body: &'a [u8] = req.data;
    let data_length: u32 = field_u32(body, 16)?;
    let n: usize = data_length as usize;
    if body.len() - 20 < n {
        return None;
    }
    Some(
        ChangeProperty {
            mode: req.datab,
            window: field_u32(body, 0)?,
            property: field_u32(body, 4)?,
            prop_type: field_u32(body, 8)?,
            format: body[12],
            data_length,
            data: slice_subrange(body, 20, 20 + n),
        },
    )
}

/// Decodes the body of a `GrabButton` request.
pub fn grab_button(req: &Request) -> (r: Option<GrabButton>)
    ensures
        r is Some <==> GrabButton::fits(req.data@),
        r matches Some(g) ==> g.describes(req.datab, req.data@),
{
    Some(GrabButton { owner_events: req.datab == 1, window: field_u32(req.data, 0)? })
}

/// Decodes a framed request by its opcode.
///
/// An unrecognized opcode gives `Opaque`. A recognized one gives its variant
/// when the body fits, and `None` when it does not.
pub fn decode<'a>(req: &Request<'a>) -> (r: Option<Decoded<'a>>)
    ensures
        match Opcode::recognized(req.opcode) {
            None => r == Some(Decoded::Opaque),
            Some(op) => if body_fits(op, req.data@) {
                r matches Some(d) && d.opcode() == Some(op) && d.describes(req.datab, req.data@)
            } else {
                r is None
            },
        },
{
    match Opcode::from_u8(req.opcode) {
        None => Some(Decoded::Opaque),
        Some(Opcode::ChangeWindowAttributes) => Some(Decoded::ChangeWindowAttributes),
        Some(Opcode::InternAtom) => match intern_atom(req) {
            Some(a) => Some(Decoded::InternAtom(a)),
            None => None,
        },
        Some(Opcode::ChangeProperty) => match change_property(req) {
            Some(c) => Some(Decoded::ChangeProperty(c)),
            None => None,
        },
        Some(Opcode::GetProperty) => match get_property(req) {
            Some(g) => Some(Decoded::GetProperty(g)),
            None => None,
        },
        Some(Opcode::GrabButton) => match grab_button(req) {
            Some(g) => Some(Decoded::GrabButton(g)),
            None => None,
        },
        Some(Opcode::QueryExtension) => match query_extension(req) {
            Some(q) => Some(Decoded::QueryExtension(q)),
            None => None,
        },
    }
}

} // verus!
