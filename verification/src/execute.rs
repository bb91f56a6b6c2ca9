//! The request executor.
//!
//! [`plan_request`] takes a request envelope and the schema and either
//! answers at once (syntax error, operation-selection error, validation
//! error) or asks the caller to run the one SQL statement the schema
//! needs, `SELECT age, name FROM users`. [`complete_users`] then turns the
//! statement's outcome into the response envelope: a mapped row list
//! becomes the `data` tree, a database or mapping failure becomes a field
//! error with `data.users` null.
//!
//! Every step is pinned to a specification-level function of the inputs,
//! so the whole pipeline is a mathematical function of the request, the
//! schema, and the query outcome.

use vstd::prelude::*;

use crate::json::Json;
use crate::json::JsonV;
use crate::json::json_view;
use crate::json::items_view_from;
use crate::json::members_view_from;
use crate::json::lemma_items_view;
use crate::json::lemma_members_view;
use crate::parse::Operation;
use crate::parse::OperationV;
use crate::parse::OpKind;
use crate::parse::Field;
use crate::parse::FieldV;
use crate::parse::fields_view;
use crate::parse::ops_view;
use crate::parse::op_view;
use crate::parse::parse_document;
use crate::parse::parse_document_x;
use crate::parse::lemma_ops_view_index;
use crate::parse::lemma_ops_view_len;
use crate::parse::lemma_fields_view_index;
use crate::parse::lemma_fields_view_len;
use crate::respond::ErrV;
use crate::respond::GqlError;
use crate::respond::Response;
use crate::respond::ResponseV;
use crate::respond::errors_view;
use crate::respond::path_view;
use crate::respond::response_view;
use crate::rows::Cell;
use crate::rows::ColDesc;
use crate::rows::MapError;
use crate::rows::User;
use crate::rows::UserV;
use crate::rows::map_rows;
use crate::rows::spec_map_rows;
use crate::rows::users_view;
use crate::schema::Schema;
use crate::schema::doc_error;
use crate::schema::doc_error_x;
use crate::text::chars_eq;
use crate::text::chars_eq_str;
use crate::text::clone_chars;
use crate::text::str_chars;

verus! {

/// One selected column of the `users` field's selection set.
#[derive(PartialEq, Eq, Structural, Clone, Copy, Debug)]
pub enum UserFieldSel {
    Age,
    Name,
}

/// A request envelope: the document text and the optional operation name.
pub struct GqlRequest {
    pub query: Vec<char>,
    pub operation_name: Option<Vec<char>>,
}

/// The column layout and rows an executed SELECT produced.
pub struct QueryOutput {
    pub cols: Vec<ColDesc>,
    pub rows: Vec<Vec<Cell>>,
}

/// What to do with a request: answer at once, or fetch the users and then
/// answer with the selected columns.
pub enum Plan {
    Respond(Response),
    FetchUsers(Vec<UserFieldSel>),
}

/// Mathematical value of a [`Plan`].
pub ghost enum PlanV {
    Respond(ResponseV),
    FetchUsers(Seq<UserFieldSel>),
}

/// The mathematical value of a plan.
pub open spec fn plan_view(p: Plan) -> PlanV {
    match p {
        Plan::Respond(r) => PlanV::Respond(response_view(r)),
        Plan::FetchUsers(f) => PlanV::FetchUsers(f@),
    }
}

/// The mathematical value of an optional character vector.
pub open spec fn opt_chars_view(o: Option<Vec<char>>) -> Option<Seq<char>> {
    match o {
        None => None,
        Some(v) => Some(v@),
    }
}

/// Message of a response to a document that does not parse.
pub open spec fn msg_syntax() -> Seq<char> {
    "Syntax error in GraphQL document"@
}

/// Message when no operation name picks among several operations.
pub open spec fn msg_ambiguous() -> Seq<char> {
    "Operation name required in a document with multiple operations"@
}

/// Message when the named operation is not in the document.
pub open spec fn msg_unknown_operation(n: Seq<char>) -> Seq<char> {
    "Unknown operation \""@ + n + "\""@
}

/// Message for a mutation against the empty mutation root.
pub open spec fn msg_mutations() -> Seq<char> {
    "Schema is not configured for mutations"@
}

/// Message for a subscription against the empty subscription root.
pub open spec fn msg_subscriptions() -> Seq<char> {
    "Schema is not configured for subscriptions"@
}

/// A response that carries one request-level error and no data.
pub open spec fn error_response(m: Seq<char>) -> ResponseV {
    ResponseV { data: None, errors: seq![ErrV { message: m, path: Seq::empty() }] }
}

/// A response to a failure of the `users` resolver: `data.users` is null
/// and one error names the field in its path.
pub open spec fn resolver_error_response(m: Seq<char>) -> ResponseV {
    ResponseV {
        data: Some(JsonV::Obj(seq![("users"@, JsonV::Null)])),
        errors: seq![ErrV { message: m, path: seq!["users"@] }],
    }
}

/// The first operation at an index in `i..` bearing the given name.
pub open spec fn select_op(ops: Seq<OperationV>, i: int, name: Seq<char>) -> Option<OperationV>
    decreases ops.len() - i,
{
    if i < 0 || i >= ops.len() {
        None
    } else if ops[i].name == Some(name) {
        Some(ops[i])
    } else {
        select_op(ops, i + 1, name)
    }
}

/// The operation a request designates: the named one when a name is given,
/// the only one otherwise.
pub open spec fn chosen_op(ops: Seq<OperationV>, opname: Option<Seq<char>>) -> Option<OperationV> {
    match opname {
        None => if ops.len() == 1 {
            Some(ops[0])
        } else {
            None
        },
        Some(n) => select_op(ops, 0, n),
    }
}

/// The selected `User` columns of a validated selection set, in document
/// order, each at its first occurrence.
pub open spec fn user_fields_from(
    sub: Seq<FieldV>,
    i: int,
    has_age: bool,
    has_name: bool,
) -> Seq<UserFieldSel>
    decreases sub.len() - i,
{
    if i < 0 || i >= sub.len() {
        Seq::empty()
    } else if sub[i].name == "age"@ && !has_age {
        seq![UserFieldSel::Age] + user_fields_from(sub, i + 1, true, has_name)
    } else if sub[i].name == "name"@ && !has_name {
        seq![UserFieldSel::Name] + user_fields_from(sub, i + 1, has_age, true)
    } else {
        user_fields_from(sub, i + 1, has_age, has_name)
    }
}

/// The fetch plan of a validated root selection set: the columns selected
/// under its first `users` field.
pub open spec fn users_plan(sels: Seq<FieldV>) -> Seq<UserFieldSel> {
    if sels.len() == 0 {
        Seq::empty()
    } else {
        user_fields_from(sels[0].selections, 0, false, false)
    }
}

/// What the executor does with a request, as a function of the document
/// text, the optional operation name, and the schema.
pub open spec fn spec_plan(q: Seq<char>, opname: Option<Seq<char>>, sch: Schema) -> PlanV {
    match parse_document(q) {
        None => PlanV::Respond(error_response(msg_syntax())),
        Some(ops) => match chosen_op(ops, opname) {
            None => PlanV::Respond(
                error_response(
                    match opname {
                        None => msg_ambiguous(),
                        Some(n) => msg_unknown_operation(n),
                    },
                ),
            ),
            Some(op) => if op.kind is Mutation {
                PlanV::Respond(error_response(msg_mutations()))
            } else if op.kind is Subscription {
                PlanV::Respond(error_response(msg_subscriptions()))
            } else {
                match doc_error(op.selections, sch) {
                    Some(m) => PlanV::Respond(error_response(m)),
                    None => PlanV::FetchUsers(users_plan(op.selections)),
                }
            },
        },
    }
}

/// The JSON object one user renders to under the selected columns.
pub open spec fn user_json(u: UserV, fields: Seq<UserFieldSel>) -> JsonV {
    JsonV::Obj(
        Seq::new(
            fields.len(),
            |j: int|
                match fields[j] {
                    UserFieldSel::Age => ("age"@, JsonV::Int(u.age)),
                    UserFieldSel::Name => ("name"@, JsonV::Chars(u.name)),
                },
        ),
    )
}

/// The JSON array all users render to.
pub open spec fn users_json(us: Seq<UserV>, fields: Seq<UserFieldSel>) -> Seq<JsonV> {
    Seq::new(us.len(), |i: int| user_json(us[i], fields))
}

/// The response to a successfully mapped row list.
pub open spec fn data_response(us: Seq<UserV>, fields: Seq<UserFieldSel>) -> ResponseV {
    ResponseV {
        data: Some(JsonV::Obj(seq![("users"@, JsonV::Arr(users_json(us, fields)))])),
        errors: Seq::empty(),
    }
}

/// The response the executor assembles from the SELECT's outcome.
pub open spec fn spec_complete(
    fields: Seq<UserFieldSel>,
    outcome: Result<(Seq<ColDesc>, Seq<Vec<Cell>>), Seq<char>>,
) -> ResponseV {
    match outcome {
        Err(m) => resolver_error_response(m),
        Ok((cols, rows)) => match spec_map_rows(cols, rows) {
            Err(e) => resolver_error_response(e.spec_text()),
            Ok(us) => data_response(us, fields),
        },
    }
}

/// The mathematical value of an exec-level query outcome.
pub open spec fn outcome_view(o: Result<QueryOutput, Vec<char>>) -> Result<
    (Seq<ColDesc>, Seq<Vec<Cell>>),
    Seq<char>,
> {
    match o {
        Ok(q) => Ok((q.cols@, q.rows@)),
        Err(m) => Err(m@),
    }
}

/// Law: a validated `users` selection of exactly the columns age then
/// name, against any table contents that map, yields a response whose
/// error list is empty and whose `data.users` is an array in which every
/// element is an object with exactly the members `age` and `name`, in
/// that order, holding the row's values.
pub proof fn lemma_age_name_response(cols: Seq<ColDesc>, rows: Seq<Vec<Cell>>)
    requires
        spec_map_rows(cols, rows) is Ok,
    ensures
        ({
            let fields = seq![UserFieldSel::Age, UserFieldSel::Name];
            let r = spec_complete(fields, Ok((cols, rows)));
            let us = spec_map_rows(cols, rows)->Ok_0;
            &&& r.errors.len() == 0
            &&& r.data == Some(JsonV::Obj(seq![("users"@, JsonV::Arr(users_json(us, fields)))]))
            &&& users_json(us, fields).len() == us.len()
            &&& forall|i: int|
                0 <= i < us.len() ==> users_json(us, fields)[i] == JsonV::Obj(
                    seq![("age"@, JsonV::Int(us[i].age)), ("name"@, JsonV::Chars(us[i].name))],
                )
        }),
{
    let fields = seq![UserFieldSel::Age, UserFieldSel::Name];
    let us = spec_map_rows(cols, rows)->Ok_0;
    assert forall|i: int| 0 <= i < us.len() implies users_json(us, fields)[i] == JsonV::Obj(
        seq![("age"@, JsonV::Int(us[i].age)), ("name"@, JsonV::Chars(us[i].name))],
    ) by {
        assert(user_json(us[i], fields)->Obj_0 =~= seq![
            ("age"@, JsonV::Int(us[i].age)),
            ("name"@, JsonV::Chars(us[i].name)),
        ]);
    }
}

/// Law: a selection of the `users` field with exactly the subfields
/// `age` then `name` plans a fetch of those two columns in that order.
pub proof fn lemma_age_name_plan(sels: Seq<FieldV>)
    requires
        sels.len() >= 1,
        sels[0].selections.len() == 2,
        sels[0].selections[0].name == "age"@,
        sels[0].selections[1].name == "name"@,
    ensures
        users_plan(sels) == seq![UserFieldSel::Age, UserFieldSel::Name],
{
    reveal_strlit("age");
    reveal_strlit("name");
    assert("age"@.len() == 3);
    assert("name"@.len() == 4);
    let sub = sels[0].selections;
    assert(user_fields_from(sub, 2, true, true) =~= Seq::<UserFieldSel>::empty());
    assert(user_fields_from(sub, 1, true, false) =~= seq![UserFieldSel::Name] + user_fields_from(
        sub,
        2,
        true,
        true,
    ));
    assert(users_plan(sels) =~= seq![UserFieldSel::Age, UserFieldSel::Name]);
}

/// Law: a request whose document parses and designates a query operation
/// that does not validate is answered with no data and a non-empty error
/// list.
pub proof fn lemma_validation_failure_response(
    q: Seq<char>,
    opname: Option<Seq<char>>,
    sch: Schema,
)
    requires
        parse_document(q) is Some,
        chosen_op(parse_document(q)->Some_0, opname) is Some,
        chosen_op(parse_document(q)->Some_0, opname)->Some_0.kind is Query,
        doc_error(chosen_op(parse_document(q)->Some_0, opname)->Some_0.selections, sch) is Some,
    ensures
        ({
            let p = spec_plan(q, opname, sch);
            &&& p is Respond
            &&& p->Respond_0.data is None
            &&& p->Respond_0.errors.len() > 0
        }),
{
}

/// Law: a request whose chosen query operation selects, at the root, a
/// field the query type does not define is answered with no data and a
/// non-empty error list.
pub proof fn lemma_unknown_root_field_response(
    q: Seq<char>,
    opname: Option<Seq<char>>,
    sch: Schema,
    k: int,
)
    requires
        parse_document(q) is Some,
        chosen_op(parse_document(q)->Some_0, opname) is Some,
        chosen_op(parse_document(q)->Some_0, opname)->Some_0.kind is Query,
        crate::schema::lookup_type(sch.types@, sch.query_type@, 0) is Some,
        ({
            let op = chosen_op(parse_document(q)->Some_0, opname)->Some_0;
            let qt = crate::schema::lookup_type(sch.types@, sch.query_type@, 0)->Some_0;
            &&& 0 <= k < op.selections.len()
            &&& crate::schema::lookup_field(qt.fields@, op.selections[k].name, 0) is None
        }),
    ensures
        ({
            let p = spec_plan(q, opname, sch);
            &&& p is Respond
            &&& p->Respond_0.data is None
            &&& p->Respond_0.errors.len() > 0
        }),
{
    let op = chosen_op(parse_document(q)->Some_0, opname)->Some_0;
    let qt = crate::schema::lookup_type(sch.types@, sch.query_type@, 0)->Some_0;
    crate::schema::lemma_unknown_field_error(op.selections[k], qt, sch);
    crate::schema::lemma_sel_error_nonempty(op.selections, 0, k, qt, sch);
    lemma_validation_failure_response(q, opname, sch);
}

/// Law: an assembled response is never empty on both sides: it carries a
/// data tree, a non-empty error list, or both. And when its error list is
/// empty, its data tree is fully populated: one `users` array entry per
/// mapped row.
pub proof fn lemma_response_never_empty(
    fields: Seq<UserFieldSel>,
    outcome: Result<(Seq<ColDesc>, Seq<Vec<Cell>>), Seq<char>>,
)
    ensures
        ({
            let r = spec_complete(fields, outcome);
            &&& r.data is Some || r.errors.len() > 0
            &&& r.errors.len() == 0 ==> {
                &&& outcome is Ok
                &&& spec_map_rows(outcome->Ok_0.0, outcome->Ok_0.1) is Ok
                &&& r.data == Some(
                    JsonV::Obj(
                        seq![
                            (
                                "users"@,
                                JsonV::Arr(
                                    users_json(
                                        spec_map_rows(outcome->Ok_0.0, outcome->Ok_0.1)->Ok_0,
                                        fields,
                                    ),
                                ),
                            ),
                        ],
                    ),
                )
                &&& users_json(spec_map_rows(outcome->Ok_0.0, outcome->Ok_0.1)->Ok_0, fields).len()
                    == spec_map_rows(outcome->Ok_0.0, outcome->Ok_0.1)->Ok_0.len()
            }
        }),
{
}

/// Law: whatever a request's document holds, the planned immediate
/// response, when there is one, also is never empty on both sides.
pub proof fn lemma_planned_response_never_empty(
    q: Seq<char>,
    opname: Option<Seq<char>>,
    sch: Schema,
)
    ensures
        spec_plan(q, opname, sch) matches PlanV::Respond(r) ==> r.data is Some || r.errors.len()
            > 0,
{
}

/// Law: two executions of the same plan against the same query outcome
/// yield the same response, rendered to the same text. Together with the
/// contracts of [`plan_request`] and [`complete_users`], which pin both
/// to functions of their inputs, the same query against an unchanged
/// table always answers identically.
pub proof fn lemma_pipeline_deterministic(
    fields: Seq<UserFieldSel>,
    outcome: Result<(Seq<ColDesc>, Seq<Vec<Cell>>), Seq<char>>,
    r1: ResponseV,
    r2: ResponseV,
)
    requires
        r1 == spec_complete(fields, outcome),
        r2 == spec_complete(fields, outcome),
    ensures
        r1 == r2,
        crate::respond::response_chars(r1) == crate::respond::response_chars(r2),
{
}

/// Build a response that carries one request-level error and no data.
fn error_response_x(m: Vec<char>) -> (r: Response)
    ensures
        response_view(r) == error_response(m@),
{
    let mut errors: Vec<GqlError> = Vec::new();
    errors.push(GqlError { message: m, path: Vec::new() });
    let r = Response { data: None, errors };
    proof {
        assert(path_view(r.errors@[0].path@) =~= Seq::<Seq<char>>::empty());
        assert(errors_view(r.errors@) =~= error_response(r.errors@[0].message@).errors);
    }
    r
}

/// Build the response to a failure of the `users` resolver.
fn resolver_error_x(m: Vec<char>) -> (r: Response)
    ensures
        response_view(r) == resolver_error_response(m@),
{
    let mut members: Vec<(Vec<char>, Json)> = Vec::new();
    members.push((str_chars("users"), Json::Null));
    let data = Json::Obj(members);
    let mut path: Vec<Vec<char>> = Vec::new();
    path.push(str_chars("users"));
    let mut errors: Vec<GqlError> = Vec::new();
    errors.push(GqlError { message: m, path });
    let r = Response { data: Some(data), errors };
    proof {
        let target = resolver_error_response(r.errors@[0].message@);
        let s = r.data->Some_0->Obj_0@;
        assert(members_view_from(s, 1) =~= Seq::<(Seq<char>, JsonV)>::empty());
        assert(members_view_from(s, 0) =~= seq![(s[0].0@, json_view(s[0].1))]);
        assert(members_view_from(s, 0) =~= seq![("users"@, JsonV::Null)]);
        assert(path_view(r.errors@[0].path@) =~= seq!["users"@]);
        assert(errors_view(r.errors@) =~= target.errors);
    }
    r
}

/// The index of the first operation bearing the given name, if any.
fn find_op(ops: &Vec<Operation>, n: &Vec<char>) -> (r: Option<usize>)
    ensures
        match r {
            None => select_op(ops_view(ops@), 0, n@) is None,
            Some(k) => k < ops@.len() && select_op(ops_view(ops@), 0, n@) == Some(
                op_view(ops@[k as int]),
            ),
        },
{
    let ghost opsv = ops_view(ops@);
    proof {
        lemma_ops_view_len(ops@, 0);
    }
    let count = ops.len();
    let mut i: usize = 0;
    while i < count
        invariant
            count == ops@.len(),
            i <= count,
            opsv == ops_view(ops@),
            opsv.len() == count,
            select_op(opsv, 0, n@) == select_op(opsv, i as int, n@),
        decreases count - i,
    {
        proof {
            lemma_ops_view_index(ops@, i as int);
        }
        let matches_name = match &ops[i].name {
            Some(nm) => chars_eq(nm, n),
            None => false,
        };
        if matches_name {
            proof {
                assert(select_op(opsv, i as int, n@) == Some(opsv[i as int]));
            }
            return Some(i);
        }
        i = i + 1;
    }
    proof {
        assert(select_op(opsv, count as int, n@) is None);
    }
    None
}

/// Decide what to do with a request: answer at once, or fetch the users.
pub fn plan_request(req: &GqlRequest, sch: &Schema) -> (p: Plan)
    ensures
        plan_view(p) == spec_plan(req.query@, opt_chars_view(req.operation_name), *sch),
{
    let ops = match parse_document_x(&req.query) {
        None => {
            return Plan::Respond(error_response_x(str_chars("Syntax error in GraphQL document")));
        },
        Some(ops) => ops,
    };
    let ghost opsv = ops_view(ops@);
    let op: &Operation = match &req.operation_name {
        None => {
            proof {
                lemma_ops_view_len(ops@, 0);
            }
            if ops.len() == 1 {
                proof {
                    lemma_ops_view_index(ops@, 0);
                }
                &ops[0]
            } else {
                return Plan::Respond(
                    error_response_x(
                        str_chars("Operation name required in a document with multiple operations"),
                    ),
                );
            }
        },
        Some(n) => {
            match find_op(&ops, n) {
                Some(k) => {
                    proof {
                        lemma_ops_view_index(ops@, k as int);
                    }
                    &ops[k]
                },
                None => {
                    let mut m = str_chars("Unknown operation \"");
                    crate::text::append_chars(&mut m, n);
                    crate::text::append_str(&mut m, "\"");
                    proof {
                        assert(m@ =~= msg_unknown_operation(n@));
                    }
                    return Plan::Respond(error_response_x(m));
                },
            }
        },
    };
    match op.kind {
        OpKind::Mutation => Plan::Respond(
            error_response_x(str_chars("Schema is not configured for mutations")),
        ),
        OpKind::Subscription => Plan::Respond(
            error_response_x(str_chars("Schema is not configured for subscriptions")),
        ),
        OpKind::Query => match doc_error_x(&op.selections, sch) {
            Some(m) => Plan::Respond(error_response_x(m)),
            None => Plan::FetchUsers(users_plan_x(&op.selections)),
        },
    }
}

/// The selected `User` columns of a validated root selection set.
fn users_plan_x(sels: &Vec<Field>) -> (r: Vec<UserFieldSel>)
    ensures
        r@ == users_plan(fields_view(sels@)),
{
    proof {
        lemma_fields_view_len(sels@, 0);
    }
    if sels.len() == 0 {
        let empty_out: Vec<UserFieldSel> = Vec::new();
        return empty_out;
    }
    proof {
        lemma_fields_view_index(sels@, 0);
    }
    let sub: &Vec<Field> = &sels[0].selections;
    let ghost subv = fields_view(sub@);
    proof {
        lemma_fields_view_len(sub@, 0);
    }
    let mut out: Vec<UserFieldSel> = Vec::new();
    let mut has_age = false;
    let mut has_name = false;
    let n = sub.len();
    let mut i: usize = 0;
    while i < n
        invariant
            n == sub@.len(),
            i <= n,
            subv == fields_view(sub@),
            subv.len() == n,
            out@ + user_fields_from(subv, i as int, has_age, has_name) == user_fields_from(
                subv,
                0,
                false,
                false,
            ),
        decreases n - i,
    {
        proof {
            lemma_fields_view_index(sub@, i as int);
        }
        let ghost prev = out@;
        let ghost prev_age = has_age;
        let ghost prev_name = has_name;
        if chars_eq_str(&sub[i].name, "age") {
            if !has_age {
                out.push(UserFieldSel::Age);
                has_age = true;
            }
        } else if chars_eq_str(&sub[i].name, "name") {
            if !has_name {
                out.push(UserFieldSel::Name);
                has_name = true;
            }
        }
        proof {
            reveal_strlit("age");
            reveal_strlit("name");
            if subv[i as int].name == "age"@ && !prev_age {
                assert(user_fields_from(subv, i as int, prev_age, prev_name) == seq![
                    UserFieldSel::Age,
                ] + user_fields_from(subv, i + 1 as int, true, prev_name));
                assert(out@ =~= prev + seq![UserFieldSel::Age]);
            } else if subv[i as int].name == "name"@ && !prev_name {
                assert(user_fields_from(subv, i as int, prev_age, prev_name) == seq![
                    UserFieldSel::Name,
                ] + user_fields_from(subv, i + 1 as int, prev_age, true));
                assert("name"@.len() == 4);
                assert("age"@.len() == 3);
                assert(sub@[i as int].name@ != "age"@);
                assert(out@.len() == prev.len() + 1);
                assert(out@ =~= prev + seq![UserFieldSel::Name]);
            } else {
                assert(user_fields_from(subv, i as int, prev_age, prev_name) == user_fields_from(
                    subv,
                    i + 1 as int,
                    prev_age,
                    prev_name,
                ));
            }
            assert(out@ + user_fields_from(subv, i + 1 as int, has_age, has_name) =~= prev
                + user_fields_from(subv, i as int, prev_age, prev_name));
        }
        i = i + 1;
    }
    proof {
        assert(out@ =~= users_plan(fields_view(sels@)));
    }
    out
}

/// The JSON object one user renders to under the selected columns.
fn user_json_x(u: &User, fields: &Vec<UserFieldSel>) -> (j: Json)
    ensures
        json_view(j) == user_json(u@, fields@),
{
    let mut members: Vec<(Vec<char>, Json)> = Vec::new();
    let n = fields.len();
    let mut i: usize = 0;
    while i < n
        invariant
            n == fields@.len(),
            i <= n,
            members@.len() == i,
            forall|k: int|
                0 <= k < i ==> (members@[k].0@, json_view(members@[k].1)) == (match fields@[k] {
                    UserFieldSel::Age => ("age"@, JsonV::Int(u.age as int)),
                    UserFieldSel::Name => ("name"@, JsonV::Chars(u.name@)),
                }),
        decreases n - i,
    {
        match fields[i] {
            UserFieldSel::Age => {
                members.push((str_chars("age"), Json::Int(u.age)));
            },
            UserFieldSel::Name => {
                members.push((str_chars("name"), Json::Chars(clone_chars(&u.name))));
            },
        }
        i = i + 1;
    }
    let j = Json::Obj(members);
    proof {
        let s = j->Obj_0@;
        let target = user_json(u@, fields@)->Obj_0;
        lemma_members_view(s, 0);
        assert forall|k: int| 0 <= k < s.len() implies members_view_from(s, 0)[k] == target[k] by {
            assert(members_view_from(s, 0)[k - 0] == (s[k].0@, json_view(s[k].1)));
        }
        assert(members_view_from(s, 0) =~= target);
    }
    j
}

/// Assemble the response envelope from the SELECT's outcome.
pub fn complete_users(fields: &Vec<UserFieldSel>, outcome: Result<QueryOutput, Vec<char>>) -> (r:
    Response)
    ensures
        response_view(r) == spec_complete(fields@, outcome_view(outcome)),
{
    let q = match outcome {
        Err(m) => {
            return resolver_error_x(m);
        },
        Ok(q) => q,
    };
    let us = match map_rows(&q.cols, &q.rows) {
        Err(e) => {
            return resolver_error_x(e.text());
        },
        Ok(us) => us,
    };
    let ghost usv = users_view(us@);
    let mut items: Vec<Json> = Vec::new();
    let n = us.len();
    let mut i: usize = 0;
    while i < n
        invariant
            n == us@.len(),
            i <= n,
            usv == users_view(us@),
            usv.len() == n,
            items@.len() == i,
            forall|k: int| 0 <= k < i ==> json_view(items@[k]) == user_json(usv[k], fields@),
        decreases n - i,
    {
        items.push(user_json_x(&us[i], fields));
        i = i + 1;
    }
    let arr = Json::Arr(items);
    proof {
        let s = arr->Arr_0@;
        lemma_items_view(s, 0);
        assert forall|k: int| 0 <= k < s.len() implies items_view_from(s, 0)[k] == users_json(
            usv,
            fields@,
        )[k] by {
            assert(items_view_from(s, 0)[k - 0] == json_view(s[k]));
        }
        assert(items_view_from(s, 0) =~= users_json(usv, fields@));
        assert(json_view(arr) == JsonV::Arr(users_json(usv, fields@)));
    }
    let mut members: Vec<(Vec<char>, Json)> = Vec::new();
    members.push((str_chars("users"), arr));
    let data = Json::Obj(members);
    let r = Response { data: Some(data), errors: Vec::new() };
    proof {
        let target = data_response(usv, fields@);
        let s = r.data->Some_0->Obj_0@;
        assert(members_view_from(s, 1) =~= Seq::<(Seq<char>, JsonV)>::empty());
        assert(members_view_from(s, 0) =~= seq![(s[0].0@, json_view(s[0].1))]);
        assert(members_view_from(s, 0) =~= target.data->Some_0->Obj_0);
        assert(errors_view(r.errors@) =~= Seq::<ErrV>::empty());
    }
    r
}

} // verus!
