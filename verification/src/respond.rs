//! The GraphQL response envelope and its serialised form.
//!
//! A response carries an optional `data` tree and a list of errors; a
//! response with an empty error list renders without an `errors` key, and
//! one without data renders without a `data` key. An error carries a
//! message and an optional `path`, here a list of field names, empty when
//! absent.

use vstd::prelude::*;

use crate::json::Json;
use crate::json::JsonV;
use crate::json::json_chars;
use crate::json::json_str;
use crate::json::json_view;
use crate::json::push_json;
use crate::json::push_json_str;
use crate::text::append_str;

verus! {

/// One entry of a response's error list.
pub struct GqlError {
    pub message: Vec<char>,
    pub path: Vec<Vec<char>>,
}

/// Mathematical value of a [`GqlError`].
pub ghost struct ErrV {
    pub message: Seq<char>,
    pub path: Seq<Seq<char>>,
}

/// A GraphQL response envelope.
pub struct Response {
    pub data: Option<Json>,
    pub errors: Vec<GqlError>,
}

/// Mathematical value of a [`Response`].
pub ghost struct ResponseV {
    pub data: Option<JsonV>,
    pub errors: Seq<ErrV>,
}

/// The mathematical value of an error's path.
pub open spec fn path_view(p: Seq<Vec<char>>) -> Seq<Seq<char>> {
    Seq::new(p.len(), |i: int| p[i]@)
}

/// The mathematical value of an error.
pub open spec fn err_view(e: GqlError) -> ErrV {
    ErrV { message: e.message@, path: path_view(e.path@) }
}

/// The mathematical values of an error list.
pub open spec fn errors_view(es: Seq<GqlError>) -> Seq<ErrV> {
    Seq::new(es.len(), |i: int| err_view(es[i]))
}

/// The mathematical value of a response.
pub open spec fn response_view(r: Response) -> ResponseV {
    ResponseV {
        data: match r.data {
            None => None,
            Some(d) => Some(json_view(d)),
        },
        errors: errors_view(r.errors@),
    }
}

/// The comma-separated path segments at indices `i..`, each a JSON string.
pub open spec fn path_chars(p: Seq<Seq<char>>, i: int) -> Seq<char>
    decreases p.len() - i,
{
    if i < 0 || i >= p.len() {
        Seq::empty()
    } else if i + 1 < p.len() {
        json_str(p[i]) + seq![','] + path_chars(p, i + 1)
    } else {
        json_str(p[i])
    }
}

/// The serialised form of one error entry.
pub open spec fn error_chars(e: ErrV) -> Seq<char> {
    seq!['{'] + "\"message\":"@ + json_str(e.message) + (if e.path.len() > 0 {
        ",\"path\":["@ + path_chars(e.path, 0) + seq![']']
    } else {
        Seq::empty()
    }) + seq!['}']
}

/// The comma-separated error entries at indices `i..`.
pub open spec fn errors_chars(es: Seq<ErrV>, i: int) -> Seq<char>
    decreases es.len() - i,
{
    if i < 0 || i >= es.len() {
        Seq::empty()
    } else if i + 1 < es.len() {
        error_chars(es[i]) + seq![','] + errors_chars(es, i + 1)
    } else {
        error_chars(es[i])
    }
}

/// The serialised form of a whole response: `data` first when present,
/// then `errors` when non-empty.
pub open spec fn response_chars(r: ResponseV) -> Seq<char> {
    let data_part = match r.data {
        None => Seq::<char>::empty(),
        Some(d) => "\"data\":"@ + json_chars(d),
    };
    let err_part = if r.errors.len() > 0 {
        "\"errors\":["@ + errors_chars(r.errors, 0) + seq![']']
    } else {
        Seq::<char>::empty()
    };
    let comma = if r.data is Some && r.errors.len() > 0 {
        seq![',']
    } else {
        Seq::<char>::empty()
    };
    seq!['{'] + data_part + comma + err_part + seq!['}']
}

/// Append the serialised form of one error entry.
fn push_error(out: &mut Vec<char>, e: &GqlError)
    ensures
        final(out)@ == old(out)@ + error_chars(err_view(*e)),
{
    out.push('{');
    append_str(out, "\"message\":");
    push_json_str(out, &e.message);
    if e.path.len() > 0 {
        append_str(out, ",\"path\":[");
        let n = e.path.len();
        let ghost pv = path_view(e.path@);
        let mut i: usize = 0;
        while i < n
            invariant
                n == e.path@.len(),
                i <= n,
                pv == path_view(e.path@),
                pv.len() == n,
                forall|k: int| 0 <= k < n ==> pv[k] == e.path@[k]@,
                out@ + path_chars(pv, i as int) == old(out)@ + seq!['{'] + "\"message\":"@
                    + json_str(e.message@) + ",\"path\":["@ + path_chars(pv, 0),
            decreases n - i,
        {
            let ghost before = out@;
            push_json_str(out, &e.path[i]);
            if i + 1 < n {
                out.push(',');
            }
            proof {
                assert(out@ + path_chars(pv, i + 1 as int) =~= before + path_chars(pv, i as int));
            }
            i = i + 1;
        }
        out.push(']');
        out.push('}');
        proof {
            assert(path_chars(pv, n as int) =~= Seq::<char>::empty());
            assert(final(out)@ =~= old(out)@ + error_chars(err_view(*e)));
        }
    } else {
        out.push('}');
        proof {
            assert(err_view(*e).path.len() == 0);
            assert(final(out)@ =~= old(out)@ + error_chars(err_view(*e)));
        }
    }
}

/// Serialise a response envelope to its JSON text.
pub fn render_response(r: &Response) -> (out: Vec<char>)
    ensures
        out@ == response_chars(response_view(*r)),
{
    let mut out: Vec<char> = Vec::new();
    out.push('{');
    match &r.data {
        Some(d) => {
            append_str(&mut out, "\"data\":");
            push_json(&mut out, d);
            if r.errors.len() > 0 {
                out.push(',');
            }
        },
        None => {
        },
    }
    let ghost ev = errors_view(r.errors@);
    let ghost head = out@;
    if r.errors.len() > 0 {
        append_str(&mut out, "\"errors\":[");
        let n = r.errors.len();
        let mut i: usize = 0;
        while i < n
            invariant
                n == r.errors@.len(),
                i <= n,
                ev == errors_view(r.errors@),
                ev.len() == n,
                forall|k: int| 0 <= k < n ==> ev[k] == err_view(r.errors@[k]),
                out@ + errors_chars(ev, i as int) == head + "\"errors\":["@ + errors_chars(ev, 0),
            decreases n - i,
        {
            let ghost before = out@;
            push_error(&mut out, &r.errors[i]);
            if i + 1 < n {
                out.push(',');
            }
            proof {
                assert(out@ + errors_chars(ev, i + 1 as int) =~= before + errors_chars(
                    ev,
                    i as int,
                ));
            }
            i = i + 1;
        }
        proof {
            assert(errors_chars(ev, n as int) =~= Seq::<char>::empty());
        }
        out.push(']');
    }
    out.push('}');
    proof {
        assert(out@ =~= response_chars(response_view(*r)));
    }
    out
}

} // verus!
