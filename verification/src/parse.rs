//! Parsing of GraphQL documents.
//!
//! The grammar covered is the executable subset this service accepts:
//! a document is one or more operations; an operation is a bare selection
//! set, or one of the keywords `query`, `mutation`, `subscription`, an
//! optional operation name, and a selection set; a selection set is one or
//! more fields inside braces; a field is a name with an optional nested
//! selection set. Commas and whitespace are ignored between tokens.
//!
//! The specification-level parser ([`parse_document`]) is the reference;
//! the executable parser is proved to return exactly its result. The
//! helper `adv` keeps every recursive call of the specification moving
//! forward through the input, which makes termination evident; since the
//! parser in fact only moves forward, `adv` never alters a position, as
//! the executable parser's bounds show.

use vstd::prelude::*;

verus! {

/// One field of a selection set: a name and the nested selection set,
/// empty when none was written.
pub struct Field {
    pub name: Vec<char>,
    pub selections: Vec<Field>,
}

/// Mathematical value of a [`Field`].
pub ghost struct FieldV {
    pub name: Seq<char>,
    pub selections: Seq<FieldV>,
}

/// The kind of operation an operation keyword announces.
#[derive(PartialEq, Eq, Structural, Clone, Copy, Debug)]
pub enum OpKind {
    Query,
    Mutation,
    Subscription,
}

/// One operation of a document.
pub struct Operation {
    pub kind: OpKind,
    pub name: Option<Vec<char>>,
    pub selections: Vec<Field>,
}

/// Mathematical value of an [`Operation`].
pub ghost struct OperationV {
    pub kind: OpKind,
    pub name: Option<Seq<char>>,
    pub selections: Seq<FieldV>,
}

/// The mathematical value of a field.
pub open spec fn field_view(f: Field) -> FieldV
    decreases f, 0int,
{
    FieldV { name: f.name@, selections: fields_view_from(f.selections@, 0) }
}

/// The mathematical values of the fields at indices `i..`.
pub open spec fn fields_view_from(s: Seq<Field>, i: int) -> Seq<FieldV>
    decreases s, s.len() - i,
{
    if i < 0 || i >= s.len() {
        Seq::empty()
    } else {
        seq![field_view(s[i])] + fields_view_from(s, i + 1)
    }
}

/// The mathematical values of a vector of fields.
pub open spec fn fields_view(s: Seq<Field>) -> Seq<FieldV> {
    fields_view_from(s, 0)
}

/// The mathematical value of an operation.
pub open spec fn op_view(o: Operation) -> OperationV {
    OperationV {
        kind: o.kind,
        name: match o.name {
            Some(n) => Some(n@),
            None => None,
        },
        selections: fields_view(o.selections@),
    }
}

/// The mathematical values of the operations at indices `i..`.
pub open spec fn ops_view_from(s: Seq<Operation>, i: int) -> Seq<OperationV>
    decreases s.len() - i,
{
    if i < 0 || i >= s.len() {
        Seq::empty()
    } else {
        seq![op_view(s[i])] + ops_view_from(s, i + 1)
    }
}

/// The mathematical values of a vector of operations.
pub open spec fn ops_view(s: Seq<Operation>) -> Seq<OperationV> {
    ops_view_from(s, 0)
}

/// Characters the grammar ignores between tokens.
pub open spec fn is_ignored(c: char) -> bool {
    c == ' ' || c == '\t' || c == '\n' || c == '\r' || c == ','
}

/// Characters a name may start with.
pub open spec fn is_name_start(c: char) -> bool {
    c == '_' || ('A' <= c && c <= 'Z') || ('a' <= c && c <= 'z')
}

/// Characters a name may continue with.
pub open spec fn is_name_char(c: char) -> bool {
    is_name_start(c) || ('0' <= c && c <= '9')
}

/// The first index at or after `i` holding a character that is not ignored.
pub open spec fn skip_ign(s: Seq<char>, i: int) -> int
    decreases s.len() - i,
{
    if 0 <= i < s.len() && is_ignored(s[i]) {
        skip_ign(s, i + 1)
    } else {
        i
    }
}

/// The first index at or after `i` holding a character that cannot continue
/// a name.
pub open spec fn name_end(s: Seq<char>, i: int) -> int
    decreases s.len() - i,
{
    if 0 <= i < s.len() && is_name_char(s[i]) {
        name_end(s, i + 1)
    } else {
        i
    }
}

/// A position strictly after `i`, and `j` itself whenever `j` already is.
pub open spec fn adv(i: int, j: int) -> int {
    if j > i {
        j
    } else {
        i + 1
    }
}

/// Parse one field at `i`: a name with an optional nested selection set.
/// Returns the field and the position just after it.
pub open spec fn parse_field(s: Seq<char>, i: int) -> Option<(FieldV, int)>
    decreases s.len() - i, 0int,
{
    let j = skip_ign(s, i);
    if 0 <= j < s.len() && is_name_start(s[j]) {
        let k = name_end(s, j);
        let name = s.subrange(j, k);
        let j2 = skip_ign(s, k);
        if 0 <= j2 < s.len() && s[j2] == '{' {
            if adv(i, k) > s.len() {
                None
            } else {
                match parse_selection_set(s, adv(i, k)) {
                    None => None,
                    Some((sels, m)) => Some((FieldV { name, selections: sels }, m)),
                }
            }
        } else {
            Some((FieldV { name, selections: Seq::empty() }, k))
        }
    } else {
        None
    }
}

/// Parse one or more fields at `i`, then a closing brace.
/// Returns the fields and the position just after the brace.
pub open spec fn parse_fields(s: Seq<char>, i: int) -> Option<(Seq<FieldV>, int)>
    decreases s.len() - i, 1int,
{
    match parse_field(s, i) {
        None => None,
        Some((f, k)) => {
            let k2 = adv(i, k);
            if k2 > s.len() {
                None
            } else {
                let j = skip_ign(s, k2);
                if 0 <= j < s.len() && s[j] == '}' {
                    Some((seq![f], j + 1))
                } else {
                    match parse_fields(s, k2) {
                        None => None,
                        Some((rest, m)) => Some((seq![f] + rest, m)),
                    }
                }
            }
        },
    }
}

/// Parse a selection set at `i`: an opening brace, one or more fields, and
/// a closing brace. Returns the fields and the position just after.
pub open spec fn parse_selection_set(s: Seq<char>, i: int) -> Option<(Seq<FieldV>, int)>
    decreases s.len() - i, 2int,
{
    let j = skip_ign(s, i);
    if 0 <= j < s.len() && s[j] == '{' && adv(i, j + 1) <= s.len() {
        parse_fields(s, adv(i, j + 1))
    } else {
        None
    }
}

/// The operation kind a keyword names, if any.
pub open spec fn kind_of_keyword(w: Seq<char>) -> Option<OpKind> {
    if w == "query"@ {
        Some(OpKind::Query)
    } else if w == "mutation"@ {
        Some(OpKind::Mutation)
    } else if w == "subscription"@ {
        Some(OpKind::Subscription)
    } else {
        None
    }
}

/// Parse one operation at `i`. Returns it and the position just after.
pub open spec fn parse_operation(s: Seq<char>, i: int) -> Option<(OperationV, int)> {
    let j = skip_ign(s, i);
    if 0 <= j < s.len() && s[j] == '{' {
        match parse_selection_set(s, i) {
            None => None,
            Some((sels, m)) => Some(
                (OperationV { kind: OpKind::Query, name: None, selections: sels }, m),
            ),
        }
    } else if 0 <= j < s.len() && is_name_start(s[j]) {
        let k = name_end(s, j);
        match kind_of_keyword(s.subrange(j, k)) {
            None => None,
            Some(kind) => {
                let j2 = skip_ign(s, k);
                if 0 <= j2 < s.len() && is_name_start(s[j2]) {
                    let k2 = name_end(s, j2);
                    match parse_selection_set(s, k2) {
                        None => None,
                        Some((sels, m)) => Some(
                            (
                                OperationV {
                                    kind,
                                    name: Some(s.subrange(j2, k2)),
                                    selections: sels,
                                },
                                m,
                            ),
                        ),
                    }
                } else {
                    match parse_selection_set(s, k) {
                        None => None,
                        Some((sels, m)) => Some(
                            (OperationV { kind, name: None, selections: sels }, m),
                        ),
                    }
                }
            },
        }
    } else {
        None
    }
}

/// Parse the operations at `i` up to the end of the input.
pub open spec fn parse_operations(s: Seq<char>, i: int) -> Option<Seq<OperationV>>
    decreases s.len() - i,
{
    match parse_operation(s, i) {
        None => None,
        Some((o, m)) => {
            let m2 = adv(i, m);
            if m2 > s.len() || skip_ign(s, m2) >= s.len() {
                Some(seq![o])
            } else {
                match parse_operations(s, m2) {
                    None => None,
                    Some(rest) => Some(seq![o] + rest),
                }
            }
        },
    }
}

/// Parse a whole document: one or more operations and nothing else.
pub open spec fn parse_document(s: Seq<char>) -> Option<Seq<OperationV>> {
    parse_operations(s, 0)
}

/// A viewed field sequence is as long as the sequence itself.
pub proof fn lemma_fields_view_len(s: Seq<Field>, i: int)
    requires
        0 <= i <= s.len(),
    ensures
        fields_view_from(s, i).len() == s.len() - i,
    decreases s.len() - i,
{
    if i < s.len() {
        lemma_fields_view_len(s, i + 1);
    }
}

/// The viewed field sequence holds the view of each field, in order.
pub proof fn lemma_fields_view_index(s: Seq<Field>, i: int)
    requires
        0 <= i < s.len(),
    ensures
        fields_view(s).len() == s.len(),
        fields_view(s)[i] == field_view(s[i]),
{
    lemma_fields_view_len(s, 0);
    lemma_fields_view_index_from(s, 0, i);
}

/// The viewed tail at `j` holds the view of each later field, in order.
proof fn lemma_fields_view_index_from(s: Seq<Field>, j: int, i: int)
    requires
        0 <= j <= i < s.len(),
    ensures
        fields_view_from(s, j).len() == s.len() - j,
        fields_view_from(s, j)[i - j] == field_view(s[i]),
    decreases i - j,
{
    lemma_fields_view_len(s, j);
    lemma_fields_view_len(s, j + 1);
    if j < i {
        lemma_fields_view_index_from(s, j + 1, i);
    }
}

/// A viewed operation sequence is as long as the sequence itself.
pub proof fn lemma_ops_view_len(s: Seq<Operation>, i: int)
    requires
        0 <= i <= s.len(),
    ensures
        ops_view_from(s, i).len() == s.len() - i,
    decreases s.len() - i,
{
    if i < s.len() {
        lemma_ops_view_len(s, i + 1);
    }
}

/// The viewed operation sequence holds the view of each operation.
pub proof fn lemma_ops_view_index(s: Seq<Operation>, i: int)
    requires
        0 <= i < s.len(),
    ensures
        ops_view(s).len() == s.len(),
        ops_view(s)[i] == op_view(s[i]),
{
    lemma_ops_view_len(s, 0);
    lemma_ops_view_index_from(s, 0, i);
}

/// The viewed tail at `j` holds the view of each later operation.
proof fn lemma_ops_view_index_from(s: Seq<Operation>, j: int, i: int)
    requires
        0 <= j <= i < s.len(),
    ensures
        ops_view_from(s, j).len() == s.len() - j,
        ops_view_from(s, j)[i - j] == op_view(s[i]),
    decreases i - j,
{
    lemma_ops_view_len(s, j);
    lemma_ops_view_len(s, j + 1);
    if j < i {
        lemma_ops_view_index_from(s, j + 1, i);
    }
}

/// Views distribute over concatenation: the fields of `b` viewed inside
/// `a + b` are the fields of `b` viewed alone.
pub proof fn lemma_fields_view_concat(a: Seq<Field>, b: Seq<Field>, i: int)
    requires
        0 <= i <= b.len(),
    ensures
        fields_view_from(a + b, a.len() + i) == fields_view_from(b, i),
    decreases b.len() - i,
{
    if i < b.len() {
        assert((a + b)[a.len() + i] == b[i]);
        lemma_fields_view_concat(a, b, i + 1);
    }
}

/// Views distribute over concatenation, for operations.
pub proof fn lemma_ops_view_concat(a: Seq<Operation>, b: Seq<Operation>, i: int)
    requires
        0 <= i <= b.len(),
    ensures
        ops_view_from(a + b, a.len() + i) == ops_view_from(b, i),
    decreases b.len() - i,
{
    if i < b.len() {
        assert((a + b)[a.len() + i] == b[i]);
        lemma_ops_view_concat(a, b, i + 1);
    }
}

/// `name_end` stays within bounds and moves only forward.
pub proof fn lemma_name_end(s: Seq<char>, i: int)
    requires
        0 <= i <= s.len(),
    ensures
        i <= name_end(s, i) <= s.len(),
    decreases s.len() - i,
{
    if i < s.len() && is_name_char(s[i]) {
        lemma_name_end(s, i + 1);
    }
}

/// Is this a character the grammar ignores between tokens?
fn is_ignored_x(c: char) -> (r: bool)
    ensures
        r == is_ignored(c),
{
    c == ' ' || c == '\t' || c == '\n' || c == '\r' || c == ','
}

/// May a name start with this character?
fn is_name_start_x(c: char) -> (r: bool)
    ensures
        r == is_name_start(c),
{
    c == '_' || ('A' <= c && c <= 'Z') || ('a' <= c && c <= 'z')
}

/// May a name continue with this character?
fn is_name_char_x(c: char) -> (r: bool)
    ensures
        r == is_name_char(c),
{
    is_name_start_x(c) || ('0' <= c && c <= '9')
}

/// Skip ignored characters, starting at `i`.
fn skip_ign_x(s: &Vec<char>, i: usize) -> (r: usize)
    requires
        i <= s@.len(),
    ensures
        r == skip_ign(s@, i as int),
        i <= r <= s@.len(),
{
    let mut j = i;
    while j < s.len() && is_ignored_x(s[j])
        invariant
            i <= j <= s@.len(),
            skip_ign(s@, i as int) == skip_ign(s@, j as int),
        decreases s@.len() - j,
    {
        j = j + 1;
    }
    j
}

/// Find the end of the name starting at `i`.
fn name_end_x(s: &Vec<char>, i: usize) -> (r: usize)
    requires
        i <= s@.len(),
    ensures
        r == name_end(s@, i as int),
        i <= r <= s@.len(),
{
    let mut j = i;
    while j < s.len() && is_name_char_x(s[j])
        invariant
            i <= j <= s@.len(),
            name_end(s@, i as int) == name_end(s@, j as int),
        decreases s@.len() - j,
    {
        j = j + 1;
    }
    j
}

/// Copy the characters at indices `a..b` into a fresh vector.
fn copy_range(s: &Vec<char>, a: usize, b: usize) -> (r: Vec<char>)
    requires
        a <= b <= s@.len(),
    ensures
        r@ == s@.subrange(a as int, b as int),
{
    let mut out: Vec<char> = Vec::new();
    let mut j = a;
    while j < b
        invariant
            a <= j <= b <= s@.len(),
            out@ == s@.subrange(a as int, j as int),
        decreases b - j,
    {
        out.push(s[j]);
        proof {
            assert(out@ =~= s@.subrange(a as int, j + 1 as int));
        }
        j = j + 1;
    }
    out
}

/// Parse one field at `i`; returns it and the position just after.
fn parse_field_x(s: &Vec<char>, i: usize) -> (r: Option<(Field, usize)>)
    requires
        i <= s@.len(),
    ensures
        match r {
            None => parse_field(s@, i as int) is None,
            Some((f, k)) => {
                &&& parse_field(s@, i as int) == Some((field_view(f), k as int))
                &&& i < k <= s@.len()
            },
        },
    decreases s@.len() - i, 0int,
{
    let j = skip_ign_x(s, i);
    if j < s.len() && is_name_start_x(s[j]) {
        let k = name_end_x(s, j);
        proof {
            assert(name_end(s@, j as int) == name_end(s@, j + 1 as int));
            lemma_name_end(s@, j + 1 as int);
        }
        let name = copy_range(s, j, k);
        let j2 = skip_ign_x(s, k);
        if j2 < s.len() && s[j2] == '{' {
            match parse_selection_set_x(s, k) {
                None => {
                    assert(parse_field(s@, i as int) is None);
                    None
                },
                Some((sels, m)) => {
                    let f = Field { name, selections: sels };
                    proof {
                        assert(field_view(f) == FieldV {
                            name: s@.subrange(j as int, k as int),
                            selections: fields_view(f.selections@),
                        });
                    }
                    Some((f, m))
                },
            }
        } else {
            let f = Field { name, selections: Vec::new() };
            proof {
                assert(fields_view_from(f.selections@, 0) =~= Seq::<FieldV>::empty());
            }
            Some((f, k))
        }
    } else {
        None
    }
}

/// Parse one or more fields and the closing brace.
fn parse_fields_x(s: &Vec<char>, i: usize) -> (r: Option<(Vec<Field>, usize)>)
    requires
        i <= s@.len(),
    ensures
        match r {
            None => parse_fields(s@, i as int) is None,
            Some((fs, m)) => {
                &&& parse_fields(s@, i as int) == Some((fields_view(fs@), m as int))
                &&& i < m <= s@.len()
            },
        },
    decreases s@.len() - i, 1int,
{
    match parse_field_x(s, i) {
        None => None,
        Some((f, k)) => {
            let j = skip_ign_x(s, k);
            if j < s.len() && s[j] == '}' {
                let mut out: Vec<Field> = Vec::new();
                out.push(f);
                proof {
                    assert(out@[0] == f);
                    assert(fields_view_from(out@, 1) =~= Seq::<FieldV>::empty());
                    assert(fields_view_from(out@, 0) =~= seq![field_view(f)]);
                }
                Some((out, j + 1))
            } else {
                match parse_fields_x(s, k) {
                    None => None,
                    Some((rest, m)) => {
                        let ghost rest_snap = rest@;
                        let mut out: Vec<Field> = Vec::new();
                        out.push(f);
                        let mut tail = rest;
                        out.append(&mut tail);
                        proof {
                            assert(out@ =~= seq![f] + rest_snap);
                            lemma_fields_view_concat(seq![f], rest_snap, 0);
                            assert(fields_view(out@) =~= seq![field_view(f)] + fields_view(
                                rest_snap,
                            ));
                        }
                        Some((out, m))
                    },
                }
            }
        },
    }
}

/// Parse a selection set: braces around one or more fields.
fn parse_selection_set_x(s: &Vec<char>, i: usize) -> (r: Option<(Vec<Field>, usize)>)
    requires
        i <= s@.len(),
    ensures
        match r {
            None => parse_selection_set(s@, i as int) is None,
            Some((fs, m)) => {
                &&& parse_selection_set(s@, i as int) == Some((fields_view(fs@), m as int))
                &&& i < m <= s@.len()
            },
        },
    decreases s@.len() - i, 2int,
{
    let j = skip_ign_x(s, i);
    if j < s.len() && s[j] == '{' {
        parse_fields_x(s, j + 1)
    } else {
        None
    }
}

/// Parse one operation at `i`; returns it and the position just after.
fn parse_operation_x(s: &Vec<char>, i: usize) -> (r: Option<(Operation, usize)>)
    requires
        i <= s@.len(),
    ensures
        match r {
            None => parse_operation(s@, i as int) is None,
            Some((o, m)) => {
                &&& parse_operation(s@, i as int) == Some((op_view(o), m as int))
                &&& i < m <= s@.len()
            },
        },
{
    let j = skip_ign_x(s, i);
    if j < s.len() && s[j] == '{' {
        match parse_selection_set_x(s, i) {
            None => None,
            Some((sels, m)) => Some(
                (Operation { kind: OpKind::Query, name: None, selections: sels }, m),
            ),
        }
    } else if j < s.len() && is_name_start_x(s[j]) {
        let k = name_end_x(s, j);
        let kw = copy_range(s, j, k);
        let kind: OpKind;
        if crate::text::chars_eq_str(&kw, "query") {
            kind = OpKind::Query;
        } else if crate::text::chars_eq_str(&kw, "mutation") {
            kind = OpKind::Mutation;
        } else if crate::text::chars_eq_str(&kw, "subscription") {
            kind = OpKind::Subscription;
        } else {
            return None;
        }
        let j2 = skip_ign_x(s, k);
        if j2 < s.len() && is_name_start_x(s[j2]) {
            let k2 = name_end_x(s, j2);
            proof {
                assert(name_end(s@, j2 as int) == name_end(s@, j2 + 1 as int));
                lemma_name_end(s@, j2 + 1 as int);
            }
            let opname = copy_range(s, j2, k2);
            match parse_selection_set_x(s, k2) {
                None => None,
                Some((sels, m)) => Some(
                    (Operation { kind, name: Some(opname), selections: sels }, m),
                ),
            }
        } else {
            match parse_selection_set_x(s, k) {
                None => None,
                Some((sels, m)) => Some((Operation { kind, name: None, selections: sels }, m)),
            }
        }
    } else {
        None
    }
}

/// Parse the operations from `i` to the end of the input.
fn parse_operations_x(s: &Vec<char>, i: usize) -> (r: Option<Vec<Operation>>)
    requires
        i <= s@.len(),
    ensures
        match r {
            None => parse_operations(s@, i as int) is None,
            Some(ops) => parse_operations(s@, i as int) == Some(ops_view(ops@)),
        },
    decreases s@.len() - i,
{
    match parse_operation_x(s, i) {
        None => None,
        Some((o, m)) => {
            let j = skip_ign_x(s, m);
            if j >= s.len() {
                let mut out: Vec<Operation> = Vec::new();
                out.push(o);
                proof {
                    assert(out@[0] == o);
                    assert(ops_view_from(out@, 1) =~= Seq::<OperationV>::empty());
                    assert(ops_view_from(out@, 0) =~= seq![op_view(o)]);
                }
                Some(out)
            } else {
                match parse_operations_x(s, m) {
                    None => None,
                    Some(rest) => {
                        let ghost rest_snap = rest@;
                        let mut out: Vec<Operation> = Vec::new();
                        out.push(o);
                        let mut tail = rest;
                        out.append(&mut tail);
                        proof {
                            assert(out@ =~= seq![o] + rest_snap);
                            lemma_ops_view_concat(seq![o], rest_snap, 0);
                            assert(ops_view(out@) =~= seq![op_view(o)] + ops_view(rest_snap));
                        }
                        Some(out)
                    },
                }
            }
        },
    }
}

/// Parse a whole GraphQL document.
///
/// Returns the document's operations exactly when the input conforms to the
/// grammar described at the top of this module, and `None` on any syntax
/// error.
pub fn parse_document_x(s: &Vec<char>) -> (r: Option<Vec<Operation>>)
    ensures
        match r {
            None => parse_document(s@) is None,
            Some(ops) => parse_document(s@) == Some(ops_view(ops@)),
        },
{
    parse_operations_x(s, 0)
}

} // verus!
