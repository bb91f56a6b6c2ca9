//! The schema registry and validation of parsed documents against it.
//!
//! The registry holds object types with named, typed fields. The service's
//! schema is fixed: `type Query { users: [User!]! }` and
//! `type User { age: Int! name: String! }`, with empty mutation and
//! subscription roots. Validation walks a selection set and reports the
//! first offence in document order: an unknown field, a selection set on a
//! scalar field, or an object field without one.

use vstd::prelude::*;

use crate::parse::Field;
use crate::parse::FieldV;
use crate::parse::field_view;
use crate::parse::fields_view;
use crate::text::append_chars;
use crate::text::append_str;
use crate::text::chars_eq;
use crate::text::str_chars;

verus! {

/// The type of one schema field, as far as this service's schema needs.
pub enum FieldTy {
    /// A non-null `Int`.
    IntScalar,
    /// A non-null `String`.
    StringScalar,
    /// A non-null list of the named object type.
    ListOf(Vec<char>),
}

/// One field of an object type.
pub struct FieldDef {
    pub name: Vec<char>,
    pub ty: FieldTy,
}

/// An object type: a name and its fields.
pub struct ObjectType {
    pub name: Vec<char>,
    pub fields: Vec<FieldDef>,
}

/// The schema registry: the query root's type name and all object types.
pub struct Schema {
    pub query_type: Vec<char>,
    pub types: Vec<ObjectType>,
}

/// First object type with the given name, if any.
pub open spec fn lookup_type(types: Seq<ObjectType>, name: Seq<char>, i: int) -> Option<ObjectType>
    decreases types.len() - i,
{
    if i < 0 || i >= types.len() {
        None
    } else if types[i].name@ == name {
        Some(types[i])
    } else {
        lookup_type(types, name, i + 1)
    }
}

/// First field with the given name, if any.
pub open spec fn lookup_field(fields: Seq<FieldDef>, name: Seq<char>, i: int) -> Option<FieldDef>
    decreases fields.len() - i,
{
    if i < 0 || i >= fields.len() {
        None
    } else if fields[i].name@ == name {
        Some(fields[i])
    } else {
        lookup_field(fields, name, i + 1)
    }
}

/// Message for a field that the parent type does not define.
pub open spec fn msg_unknown_field(name: Seq<char>, ty: Seq<char>) -> Seq<char> {
    "Unknown field \""@ + name + "\" on type \""@ + ty + "\""@
}

/// Message for a selection set on a scalar field.
pub open spec fn msg_scalar_selection(name: Seq<char>) -> Seq<char> {
    "Field \""@ + name + "\" must not have a selection set"@
}

/// Message for an object field without a selection set.
pub open spec fn msg_missing_selection(name: Seq<char>) -> Seq<char> {
    "Field \""@ + name + "\" must have a selection set"@
}

/// Message for a type name the registry does not define.
pub open spec fn msg_unknown_type(name: Seq<char>) -> Seq<char> {
    "Unknown type \""@ + name + "\""@
}

/// The first validation offence of one field against its parent type, in
/// document order, as an error message.
pub open spec fn field_error(f: FieldV, ty: ObjectType, sch: Schema) -> Option<Seq<char>>
    decreases f, 0int,
{
    match lookup_field(ty.fields@, f.name, 0) {
        None => Some(msg_unknown_field(f.name, ty.name@)),
        Some(fd) => match fd.ty {
            FieldTy::IntScalar => if f.selections.len() > 0 {
                Some(msg_scalar_selection(f.name))
            } else {
                None
            },
            FieldTy::StringScalar => if f.selections.len() > 0 {
                Some(msg_scalar_selection(f.name))
            } else {
                None
            },
            FieldTy::ListOf(tn) => if f.selections.len() == 0 {
                Some(msg_missing_selection(f.name))
            } else {
                match lookup_type(sch.types@, tn@, 0) {
                    None => Some(msg_unknown_type(tn@)),
                    Some(t2) => sel_error(f.selections, 0, t2, sch),
                }
            },
        },
    }
}

/// The first validation offence among the fields at indices `i..` of a
/// selection set against their parent type.
pub open spec fn sel_error(sels: Seq<FieldV>, i: int, ty: ObjectType, sch: Schema) -> Option<
    Seq<char>,
>
    decreases sels, sels.len() - i,
{
    if i < 0 || i >= sels.len() {
        None
    } else {
        match field_error(sels[i], ty, sch) {
            Some(m) => Some(m),
            None => sel_error(sels, i + 1, ty, sch),
        }
    }
}

/// Law: a field its parent type does not define is an offence, and its
/// message names the field and the type.
pub proof fn lemma_unknown_field_error(f: FieldV, ty: ObjectType, sch: Schema)
    requires
        lookup_field(ty.fields@, f.name, 0) is None,
    ensures
        field_error(f, ty, sch) == Some(msg_unknown_field(f.name, ty.name@)),
{
}

/// Law: a field of a list type whose selection set holds an offending
/// subfield is itself an offence; in particular a `users` field whose
/// selection set references a field that `User` does not define is
/// rejected.
pub proof fn lemma_nested_field_error(f: FieldV, ty: ObjectType, sch: Schema, k: int)
    requires
        lookup_field(ty.fields@, f.name, 0) matches Some(fd) && fd.ty matches FieldTy::ListOf(tn)
            && lookup_type(sch.types@, tn@, 0) matches Some(t2) && 0 <= k < f.selections.len()
            && field_error(f.selections[k], t2, sch) is Some,
    ensures
        field_error(f, ty, sch) is Some,
{
    let fd = lookup_field(ty.fields@, f.name, 0)->Some_0;
    let tn = fd.ty->ListOf_0;
    let t2 = lookup_type(sch.types@, tn@, 0)->Some_0;
    lemma_sel_error_nonempty(f.selections, 0, k, t2, sch);
}

/// Law: a selection set holding any offending field does not validate;
/// in particular one that references a field its parent type does not
/// define is rejected.
pub proof fn lemma_sel_error_nonempty(sels: Seq<FieldV>, i: int, k: int, ty: ObjectType, sch: Schema)
    requires
        0 <= i <= k < sels.len(),
        field_error(sels[k], ty, sch) is Some,
    ensures
        sel_error(sels, i, ty, sch) is Some,
    decreases k - i,
{
    if i < k && field_error(sels[i], ty, sch) is None {
        lemma_sel_error_nonempty(sels, i + 1, k, ty, sch);
    }
}

/// The first validation offence of a document's root selection set.
pub open spec fn doc_error(sels: Seq<FieldV>, sch: Schema) -> Option<Seq<char>> {
    match lookup_type(sch.types@, sch.query_type@, 0) {
        None => Some(msg_unknown_type(sch.query_type@)),
        Some(qt) => sel_error(sels, 0, qt, sch),
    }
}

/// Does this registry hold exactly the service's schema?
pub open spec fn is_service_schema(s: Schema) -> bool {
    &&& s.query_type@ == "Query"@
    &&& s.types@.len() == 2
    &&& s.types@[0].name@ == "Query"@
    &&& s.types@[0].fields@.len() == 1
    &&& s.types@[0].fields@[0].name@ == "users"@
    &&& (s.types@[0].fields@[0].ty matches FieldTy::ListOf(t) && t@ == "User"@)
    &&& s.types@[1].name@ == "User"@
    &&& s.types@[1].fields@.len() == 2
    &&& s.types@[1].fields@[0].name@ == "age"@
    &&& s.types@[1].fields@[0].ty is IntScalar
    &&& s.types@[1].fields@[1].name@ == "name"@
    &&& s.types@[1].fields@[1].ty is StringScalar
}

/// Build the service's schema registry.
pub fn service_schema() -> (s: Schema)
    ensures
        is_service_schema(s),
{
    let users_field = FieldDef { name: str_chars("users"), ty: FieldTy::ListOf(str_chars("User")) };
    let mut query_fields: Vec<FieldDef> = Vec::new();
    query_fields.push(users_field);
    let query_ty = ObjectType { name: str_chars("Query"), fields: query_fields };

    let age_field = FieldDef { name: str_chars("age"), ty: FieldTy::IntScalar };
    let name_field = FieldDef { name: str_chars("name"), ty: FieldTy::StringScalar };
    let mut user_fields: Vec<FieldDef> = Vec::new();
    user_fields.push(age_field);
    user_fields.push(name_field);
    let user_ty = ObjectType { name: str_chars("User"), fields: user_fields };

    let mut types: Vec<ObjectType> = Vec::new();
    types.push(query_ty);
    types.push(user_ty);
    Schema { query_type: str_chars("Query"), types }
}

/// First object type with the given name, if any.
fn lookup_type_x<'a>(types: &'a Vec<ObjectType>, name: &Vec<char>) -> (r: Option<&'a ObjectType>)
    ensures
        match r {
            None => lookup_type(types@, name@, 0) is None,
            Some(t) => lookup_type(types@, name@, 0) == Some(*t),
        },
{
    let n = types.len();
    let mut i: usize = 0;
    while i < n
        invariant
            n == types@.len(),
            i <= n,
            lookup_type(types@, name@, 0) == lookup_type(types@, name@, i as int),
        decreases n - i,
    {
        if chars_eq(&types[i].name, name) {
            return Some(&types[i]);
        }
        i = i + 1;
    }
    None
}

/// First field with the given name, if any.
fn lookup_field_x<'a>(fields: &'a Vec<FieldDef>, name: &Vec<char>) -> (r: Option<&'a FieldDef>)
    ensures
        match r {
            None => lookup_field(fields@, name@, 0) is None,
            Some(fd) => lookup_field(fields@, name@, 0) == Some(*fd),
        },
{
    let n = fields.len();
    let mut i: usize = 0;
    while i < n
        invariant
            n == fields@.len(),
            i <= n,
            lookup_field(fields@, name@, 0) == lookup_field(fields@, name@, i as int),
        decreases n - i,
    {
        if chars_eq(&fields[i].name, name) {
            return Some(&fields[i]);
        }
        i = i + 1;
    }
    None
}

/// Build the message for a field the parent type does not define.
fn msg_unknown_field_x(name: &Vec<char>, ty: &Vec<char>) -> (r: Vec<char>)
    ensures
        r@ == msg_unknown_field(name@, ty@),
{
    let mut out = str_chars("Unknown field \"");
    append_chars(&mut out, name);
    append_str(&mut out, "\" on type \"");
    append_chars(&mut out, ty);
    append_str(&mut out, "\"");
    out
}

/// Build the message for a selection set on a scalar field.
fn msg_scalar_selection_x(name: &Vec<char>) -> (r: Vec<char>)
    ensures
        r@ == msg_scalar_selection(name@),
{
    let mut out = str_chars("Field \"");
    append_chars(&mut out, name);
    append_str(&mut out, "\" must not have a selection set");
    out
}

/// Build the message for an object field without a selection set.
fn msg_missing_selection_x(name: &Vec<char>) -> (r: Vec<char>)
    ensures
        r@ == msg_missing_selection(name@),
{
    let mut out = str_chars("Field \"");
    append_chars(&mut out, name);
    append_str(&mut out, "\" must have a selection set");
    out
}

/// Build the message for a type name the registry does not define.
fn msg_unknown_type_x(name: &Vec<char>) -> (r: Vec<char>)
    ensures
        r@ == msg_unknown_type(name@),
{
    let mut out = str_chars("Unknown type \"");
    append_chars(&mut out, name);
    append_str(&mut out, "\"");
    out
}

/// The first validation offence of one field, as an error message.
fn field_error_x(f: &Field, ty: &ObjectType, sch: &Schema) -> (r: Option<Vec<char>>)
    ensures
        match r {
            None => field_error(field_view(*f), *ty, *sch) is None,
            Some(m) => field_error(field_view(*f), *ty, *sch) == Some(m@),
        },
    decreases *f, 0int,
{
    match lookup_field_x(&ty.fields, &f.name) {
        None => Some(msg_unknown_field_x(&f.name, &ty.name)),
        Some(fd) => match &fd.ty {
            FieldTy::IntScalar => if f.selections.len() > 0 {
                Some(msg_scalar_selection_x(&f.name))
            } else {
                None
            },
            FieldTy::StringScalar => if f.selections.len() > 0 {
                Some(msg_scalar_selection_x(&f.name))
            } else {
                None
            },
            FieldTy::ListOf(tn) => if f.selections.len() == 0 {
                Some(msg_missing_selection_x(&f.name))
            } else {
                match lookup_type_x(&sch.types, tn) {
                    None => Some(msg_unknown_type_x(tn)),
                    Some(t2) => sel_error_x(&f.selections, 0, t2, sch),
                }
            },
        },
    }
}

/// The first validation offence among the fields at indices `i..`.
fn sel_error_x(sels: &Vec<Field>, i: usize, ty: &ObjectType, sch: &Schema) -> (r: Option<
    Vec<char>,
>)
    requires
        i <= sels@.len(),
    ensures
        match r {
            None => sel_error(fields_view(sels@), i as int, *ty, *sch) is None,
            Some(m) => sel_error(fields_view(sels@), i as int, *ty, *sch) == Some(m@),
        },
    decreases *sels, sels@.len() - i,
{
    if i >= sels.len() {
        proof {
            crate::parse::lemma_fields_view_len(sels@, 0);
        }
        None
    } else {
        proof {
            crate::parse::lemma_fields_view_index(sels@, i as int);
            crate::parse::lemma_fields_view_len(sels@, 0);
        }
        match field_error_x(&sels[i], ty, sch) {
            Some(m) => Some(m),
            None => sel_error_x(sels, i + 1, ty, sch),
        }
    }
}

/// The first validation offence of a document's root selection set.
pub fn doc_error_x(sels: &Vec<Field>, sch: &Schema) -> (r: Option<Vec<char>>)
    ensures
        match r {
            None => doc_error(fields_view(sels@), *sch) is None,
            Some(m) => doc_error(fields_view(sels@), *sch) == Some(m@),
        },
{
    match lookup_type_x(&sch.types, &sch.query_type) {
        None => Some(msg_unknown_type_x(&sch.query_type)),
        Some(qt) => sel_error_x(sels, 0, qt, sch),
    }
}

} // verus!
