//! The query-execution protocol: the session configuration sent with every
//! request, the handshake check, and the normalization of a raw query
//! response into an ordered, per-statement result.
//!
//! `norm` is the specification of normalization: a response is either a list
//! of row lists, one per statement and in statement order, or a single
//! diagnostic — the first statement failure fails the whole call and no
//! partial result is handed out. `normalize_response` is the executable
//! normalizer, pinned to `norm` by `result_matches`.

use vstd::prelude::*;

use vstd::string::StringExecFns;
use vstd::string::StringSliceAdditionalSpecFns;

use crate::codec::b64_encode;
use crate::codec::base64_encode;
use crate::err::Error;
use crate::json::{
    is_ok_json, json_is_ok, key_index, lemma_obj_get_after_without, obj_get, obj_remove,
    obj_without, Json, Row,
};

verus! {

/// The normalized result of one query call: for each statement, in order,
/// the ordered rows it returned.
pub type QueryResponse = Vec<Vec<Row>>;

/// Why a response (or one statement of it) was refused.
pub enum Diag {
    /// The top level was neither an array nor an object carrying a message.
    Incomprehensible,
    /// The top level was an error object; its `information` field.
    Info(Json),
    /// A statement entry was not an object.
    NotAnObject,
    /// A statement object had no `status` field.
    NoStatus,
    /// A statement's status was not the OK sentinel (or its result was not
    /// an array); the statement object without its `result` field.
    StatusNotOk(Seq<(String, Json)>),
    /// A row of a successful statement was not an object.
    BadRow,
}

/// The outcome of normalizing one statement entry.
pub enum StmtNorm {
    Rows(Seq<Row>),
    Fail(Diag),
}

/// The outcome of normalizing a whole response.
pub enum QueryNorm {
    Rows(Seq<Seq<Row>>),
    Fail(Diag),
}

/// The rows of one statement: every element must be an object; the first
/// non-object fails the statement.
pub open spec fn rows_norm(rows: Seq<Json>) -> Option<Seq<Row>>
    decreases rows.len(),
{
    if rows.len() == 0 {
        Some(Seq::empty())
    } else {
        match rows[0] {
            Json::Obj(f) => match rows_norm(rows.drop_first()) {
                Some(rest) => Some(seq![f] + rest),
                None => None,
            },
            _ => None,
        }
    }
}

/// One statement entry: an object whose `status` is the OK sentinel and
/// whose `result` is an array of row objects succeeds with those rows; any
/// other shape fails with the matching diagnostic.
pub open spec fn norm_stmt(s: Json) -> StmtNorm {
    match s {
        Json::Obj(fields) => match obj_get(fields@, "status"@) {
            None => StmtNorm::Fail(Diag::NoStatus),
            Some(st) => match obj_get(fields@, "result"@) {
                Some(Json::Arr(rows)) => if is_ok_json(st) {
                    match rows_norm(rows@) {
                        Some(rs) => StmtNorm::Rows(rs),
                        None => StmtNorm::Fail(Diag::BadRow),
                    }
                } else {
                    StmtNorm::Fail(Diag::StatusNotOk(obj_without(fields@, "result"@)))
                },
                _ => StmtNorm::Fail(Diag::StatusNotOk(obj_without(fields@, "result"@))),
            },
        },
        _ => StmtNorm::Fail(Diag::NotAnObject),
    }
}

/// Statements are normalized in order; the first failure fails the call.
pub open spec fn norm_stmts(stmts: Seq<Json>) -> QueryNorm
    decreases stmts.len(),
{
    if stmts.len() == 0 {
        QueryNorm::Rows(Seq::empty())
    } else {
        match norm_stmt(stmts[0]) {
            StmtNorm::Fail(d) => QueryNorm::Fail(d),
            StmtNorm::Rows(rs) => match norm_stmts(stmts.drop_first()) {
                QueryNorm::Rows(rest) => QueryNorm::Rows(seq![rs] + rest),
                QueryNorm::Fail(d) => QueryNorm::Fail(d),
            },
        }
    }
}

/// The whole response: an array is normalized per statement; an object is a
/// call-level error whose `information` field, if any, is the diagnostic;
/// anything else is incomprehensible.
pub open spec fn norm(v: Json) -> QueryNorm {
    match v {
        Json::Arr(stmts) => norm_stmts(stmts@),
        Json::Obj(fields) => match obj_get(fields@, "information"@) {
            Some(msg) => QueryNorm::Fail(Diag::Info(msg)),
            None => QueryNorm::Fail(Diag::Incomprehensible),
        },
        _ => QueryNorm::Fail(Diag::Incomprehensible),
    }
}

/// Which diagnostic payload each refusal carries.
pub open spec fn diag_matches(d: Diag, j: Json) -> bool {
    match d {
        Diag::Incomprehensible => j matches Json::Str(m) && m@ == "incomprehensible response"@,
        Diag::Info(v) => j == v,
        Diag::NotAnObject => j matches Json::Str(m) && m@ == "not an object"@,
        Diag::NoStatus => j matches Json::Str(m) && m@ == "no status given"@,
        Diag::StatusNotOk(fields) => j matches Json::Obj(f) && f@ == fields,
        Diag::BadRow => j matches Json::Str(m) && m@ == "database improperly configured"@,
    }
}

/// The row lists a response value holds, seen abstractly.
pub open spec fn resp_view(resp: Seq<Vec<Row>>) -> Seq<Seq<Row>> {
    resp.map_values(|rv: Vec<Row>| rv@)
}

/// The executable normalizer agrees with `norm`: the row lists on success,
/// the `BadQuery` diagnostic on failure.
pub open spec fn result_matches(v: Json, r: Result<QueryResponse, Error>) -> bool {
    match r {
        Ok(resp) => norm(v) == QueryNorm::Rows(resp_view(resp@)),
        Err(e) => e matches Error::BadQuery(j) && (norm(v) matches QueryNorm::Fail(d)
            && diag_matches(d, j)),
    }
}

/// Rows already collected, prepended to the outcome of the statements that
/// remain.
pub open spec fn norm_prepend(acc: Seq<Seq<Row>>, rest: QueryNorm) -> QueryNorm {
    match rest {
        QueryNorm::Rows(t) => QueryNorm::Rows(acc + t),
        QueryNorm::Fail(d) => QueryNorm::Fail(d),
    }
}

/// Row objects already collected, prepended to the rows that remain.
pub open spec fn rows_prepend(acc: Seq<Row>, rest: Option<Seq<Row>>) -> Option<Seq<Row>> {
    match rest {
        Some(t) => Some(acc + t),
        None => None,
    }
}

proof fn lemma_norm_prepend_assoc(a: Seq<Seq<Row>>, b: Seq<Seq<Row>>, rest: QueryNorm)
    ensures
        norm_prepend(a + b, rest) == norm_prepend(a, norm_prepend(b, rest)),
{
    match rest {
        QueryNorm::Rows(t) => {
            assert((a + b) + t =~= a + (b + t));
        },
        QueryNorm::Fail(_) => {},
    }
}

proof fn lemma_rows_prepend_assoc(a: Seq<Row>, b: Seq<Row>, rest: Option<Seq<Row>>)
    ensures
        rows_prepend(a + b, rest) == rows_prepend(a, rows_prepend(b, rest)),
{
    match rest {
        Some(t) => {
            assert((a + b) + t =~= a + (b + t));
        },
        None => {},
    }
}

/// Turns one raw response value into the per-statement row lists, exactly as
/// `norm` describes: everything or a single `BadQuery` diagnostic.
#[verifier::loop_isolation(false)]
pub fn normalize_response(v: Json) -> (r: Result<QueryResponse, Error>)
    ensures
        result_matches(v, r),
{
    let ghost gv = v;
    match v {
        Json::Arr(stmts) => {
            let mut stmts = stmts;
            let ghost all = stmts@;
            let mut out: Vec<Vec<Row>> = Vec::new();
            proof {
                assert(resp_view(out@) =~= Seq::<Seq<Row>>::empty());
                match norm_stmts(all) {
                    QueryNorm::Rows(t) => {
                        assert(Seq::<Seq<Row>>::empty() + t =~= t);
                    },
                    QueryNorm::Fail(_) => {},
                }
            }
            while stmts.len() > 0
                invariant
                    norm_prepend(resp_view(out@), norm_stmts(stmts@)) == norm_stmts(all),
                decreases stmts@.len(),
            {
                let ghost pre_stmts = stmts@;
                let s = stmts.remove(0);
                proof {
                    assert(s == pre_stmts[0]);
                    assert(pre_stmts.drop_first() =~= stmts@);
                }
                match s {
                    Json::Obj(mut fields) => {
                        let ghost orig_fields = fields@;
                        proof {
                            assert(s == Json::Obj(fields));
                        }
                        let res = obj_remove(&mut fields, "result");
                        proof {
                            reveal_strlit("result");
                            reveal_strlit("status");
                            assert("result"@[0] != "status"@[0]);
                            lemma_obj_get_after_without(orig_fields, "result"@, "status"@);
                        }
                        match key_index(&fields, "status") {
                            None => {
                                proof {
                                    assert(norm_stmt(s) == StmtNorm::Fail(Diag::NoStatus));
                                    assert(norm_stmts(pre_stmts) == QueryNorm::Fail(
                                        Diag::NoStatus,
                                    ));
                                }
                                return Err(Error::BadQuery(Json::Str("no status given".to_owned())));
                            },
                            Some(ix) => {
                                let ok = json_is_ok(&fields[ix].1);
                                if ok {
                                    match res {
                                        Some(Json::Arr(rows)) => {
                                            let mut rows = rows;
                                            let ghost all_rows = rows@;
                                            let mut row_out: Vec<Row> = Vec::new();
                                            proof {
                                                match rows_norm(all_rows) {
                                                    Some(t) => {
                                                        assert(Seq::<Row>::empty() + t =~= t);
                                                    },
                                                    None => {},
                                                }
                                            }
                                            while rows.len() > 0
                                                invariant
                                                    rows_prepend(row_out@, rows_norm(rows@))
                                                        == rows_norm(all_rows),
                                                decreases rows@.len(),
                                            {
                                                let ghost pre_rows = rows@;
                                                let rj = rows.remove(0);
                                                proof {
                                                    assert(rj == pre_rows[0]);
                                                    assert(pre_rows.drop_first() =~= rows@);
                                                }
                                                match rj {
                                                    Json::Obj(f) => {
                                                        let ghost pre_out = row_out@;
                                                        let ghost gf = f;
                                                        row_out.push(f);
                                                        proof {
                                                            assert(row_out@ =~= pre_out + seq![gf]);
                                                            lemma_rows_prepend_assoc(
                                                                pre_out,
                                                                seq![gf],
                                                                rows_norm(rows@),
                                                            );
                                                        }
                                                    },
                                                    _ => {
                                                        proof {
                                                            assert(rows_norm(pre_rows) is None);
                                                            assert(rows_norm(all_rows) is None);
                                                            assert(norm_stmt(s) == StmtNorm::Fail(
                                                                Diag::BadRow,
                                                            ));
                                                            assert(norm_stmts(pre_stmts)
                                                                == QueryNorm::Fail(Diag::BadRow));
                                                        }
                                                        return Err(
                                                            Error::BadQuery(
                                                                Json::Str(
                                                                    "database improperly configured".to_owned(),
                                                                ),
                                                            ),
                                                        );
                                                    },
                                                }
                                            }
                                            proof {
                                                assert(rows@.len() == 0);
                                                assert(rows_norm(rows@) == Some(
                                                    Seq::<Row>::empty(),
                                                ));
                                                assert(row_out@ + Seq::<Row>::empty() =~= row_out@);
                                                assert(rows_norm(all_rows) == Some(row_out@));
                                                assert(norm_stmt(s) == StmtNorm::Rows(row_out@));
                                            }
                                            let ghost pre_resp = out@;
                                            let ghost grows = row_out@;
                                            out.push(row_out);
                                            proof {
                                                assert(resp_view(out@) =~= resp_view(pre_resp)
                                                    + seq![grows]);
                                                lemma_norm_prepend_assoc(
                                                    resp_view(pre_resp),
                                                    seq![grows],
                                                    norm_stmts(stmts@),
                                                );
                                                assert(norm_stmts(pre_stmts) == norm_prepend(
                                                    seq![grows],
                                                    norm_stmts(stmts@),
                                                ));
                                            }
                                        },
                                        _ => {
                                            proof {
                                                assert(norm_stmt(s) == StmtNorm::Fail(
                                                    Diag::StatusNotOk(
                                                        obj_without(orig_fields, "result"@),
                                                    ),
                                                ));
                                                assert(norm_stmts(pre_stmts) == QueryNorm::Fail(
                                                    Diag::StatusNotOk(
                                                        obj_without(orig_fields, "result"@),
                                                    ),
                                                ));
                                            }
                                            return Err(Error::BadQuery(Json::Obj(fields)));
                                        },
                                    }
                                } else {
                                    proof {
                                        assert(norm_stmt(s) == StmtNorm::Fail(
                                            Diag::StatusNotOk(
                                                obj_without(orig_fields, "result"@),
                                            ),
                                        ));
                                        assert(norm_stmts(pre_stmts) == QueryNorm::Fail(
                                            Diag::StatusNotOk(obj_without(orig_fields, "result"@)),
                                        ));
                                    }
                                    return Err(Error::BadQuery(Json::Obj(fields)));
                                }
                            },
                        }
                    },
                    _ => {
                        proof {
                            assert(norm_stmt(s) == StmtNorm::Fail(Diag::NotAnObject));
                            assert(norm_stmts(pre_stmts) == QueryNorm::Fail(Diag::NotAnObject));
                        }
                        return Err(Error::BadQuery(Json::Str("not an object".to_owned())));
                    },
                }
            }
            proof {
                assert(stmts@.len() == 0);
                assert(norm_stmts(stmts@) == QueryNorm::Rows(Seq::<Seq<Row>>::empty()));
                assert(resp_view(out@) + Seq::<Seq<Row>>::empty() =~= resp_view(out@));
                assert(norm(gv) == QueryNorm::Rows(resp_view(out@)));
            }
            Ok(out)
        },
        Json::Obj(mut fields) => {
            match obj_remove(&mut fields, "information") {
                Some(msg) => Err(Error::BadQuery(msg)),
                None => Err(Error::BadQuery(Json::Str("incomprehensible response".to_owned()))),
            }
        },
        _ => Err(Error::BadQuery(Json::Str("incomprehensible response".to_owned()))),
    }
}

/// A response of statement objects that all carry the OK sentinel and an
/// array of row objects normalizes to exactly one row list per statement, in
/// the same order.
pub proof fn lemma_all_ok_statements(stmts: Seq<Json>)
    requires
        forall|k: int| 0 <= k < stmts.len() ==> #[trigger] norm_stmt(stmts[k]) is Rows,
    ensures
        norm_stmts(stmts) is Rows,
        norm_stmts(stmts)->Rows_0.len() == stmts.len(),
        forall|k: int|
            0 <= k < stmts.len() ==> norm_stmts(stmts)->Rows_0[k] == #[trigger] norm_stmt(
                stmts[k],
            )->Rows_0,
    decreases stmts.len(),
{
    if stmts.len() > 0 {
        lemma_all_ok_statements(stmts.drop_first());
        assert(forall|k: int|
            0 <= k < stmts.drop_first().len() ==> #[trigger] stmts.drop_first()[k] == stmts[k
                + 1]);
    }
}

/// A statement with a failing outcome fails the whole call, whatever comes
/// after it: the outcome equals the outcome of the response cut just past
/// that statement.
pub proof fn lemma_statement_failure_fails_call(stmts: Seq<Json>, k: int)
    requires
        0 <= k < stmts.len(),
        norm_stmt(stmts[k]) is Fail,
    ensures
        norm_stmts(stmts) is Fail,
        norm_stmts(stmts) == norm_stmts(stmts.take(k + 1)),
    decreases stmts.len(),
{
    let cut = stmts.take(k + 1);
    assert(cut[0] == stmts[0]);
    if norm_stmt(stmts[0]) is Fail {
    } else {
        assert(k > 0);
        lemma_statement_failure_fails_call(stmts.drop_first(), k - 1);
        assert(stmts.drop_first()[k - 1] == stmts[k]);
        assert(cut.drop_first() =~= stmts.drop_first().take(k));
    }
}

/// The HTTP status codes the transport counts as success.
pub fn http_status_ok(code: u16) -> (r: bool)
    ensures
        r == (200 <= code && code < 300),
{
    200 <= code && code < 300
}

/// The immutable session configuration: the endpoint and the fixed headers
/// sent with the handshake and with every query.
pub struct Database {
    pub url: String,
    pub headers: Vec<(String, String)>,
}

/// The value of the `Authorization` header: the Basic scheme over the
/// padding-free encoding of the raw credential bytes.
pub open spec fn auth_value(credentials: Seq<u8>) -> Seq<char> {
    "Basic "@ + b64_encode(credentials)
}

impl Database {
    /// Builds the session configuration: the four fixed headers, with the
    /// credential string encoded into the Basic authorization value.
    pub fn configure(url: String, namespace: &str, database: &str, credentials: &str) -> (d:
        Database)
        ensures
            d.url == url,
            d.headers@.len() == 4,
            d.headers@[0].0@ == "Accept"@ && d.headers@[0].1@ == "application/json"@,
            d.headers@[1].0@ == "NS"@ && d.headers@[1].1@ == namespace@,
            d.headers@[2].0@ == "DB"@ && d.headers@[2].1@ == database@,
            d.headers@[3].0@ == "Authorization"@ && d.headers@[3].1@ == auth_value(
                credentials.spec_bytes(),
            ),
    {
        let encoded = base64_encode(credentials.as_bytes());
        let auth = "Basic ".to_owned().concat(encoded.as_str());
        let mut headers: Vec<(String, String)> = Vec::new();
        headers.push(("Accept".to_owned(), "application/json".to_owned()));
        headers.push(("NS".to_owned(), namespace.to_owned()));
        headers.push(("DB".to_owned(), database.to_owned()));
        headers.push(("Authorization".to_owned(), auth));
        Database { url, headers }
    }
}

/// A handshake response is accepted exactly when it is a nonempty array
/// whose first element is an object with the OK status sentinel.
pub open spec fn handshake_ok(v: Json) -> bool {
    v matches Json::Arr(a) && a@.len() >= 1 && (a@[0] matches Json::Obj(f) && (obj_get(
        f@,
        "status"@,
    ) matches Some(st) && is_ok_json(st)))
}

/// The payload a rejected handshake carries: the first statement object when
/// there is one, else the whole response value.
pub open spec fn handshake_diag(v: Json) -> Json {
    match v {
        Json::Arr(a) => if a@.len() >= 1 {
            a@[0]
        } else {
            Json::Arr(a)
        },
        _ => v,
    }
}

/// Checks the handshake response; on refusal the raw diagnostic payload
/// comes back in `DatabaseLogin`.
pub fn check_handshake(v: Json) -> (r: Result<(), Error>)
    ensures
        r is Ok <==> handshake_ok(v),
        r matches Err(e) ==> e == Error::DatabaseLogin(handshake_diag(v)),
{
    let ghost gv = v;
    match v {
        Json::Arr(mut a) => {
            if a.len() == 0 {
                return Err(Error::DatabaseLogin(Json::Arr(a)));
            }
            let ghost ga = a@;
            let first = a.remove(0);
            proof {
                assert(first == ga[0]);
            }
            match first {
                Json::Obj(fields) => {
                    match key_index(&fields, "status") {
                        Some(i) => {
                            if json_is_ok(&fields[i].1) {
                                Ok(())
                            } else {
                                Err(Error::DatabaseLogin(Json::Obj(fields)))
                            }
                        },
                        None => Err(Error::DatabaseLogin(Json::Obj(fields))),
                    }
                },
                other => Err(Error::DatabaseLogin(other)),
            }
        },
        other => Err(Error::DatabaseLogin(other)),
    }
}

/// Whether an object carries the OK status sentinel.
pub fn check_obj_status(obj: &Vec<(String, Json)>) -> (r: bool)
    ensures
        r == (obj_get(obj@, "status"@) matches Some(st) && is_ok_json(st)),
{
    match key_index(obj, "status") {
        Some(i) => json_is_ok(&obj[i].1),
        None => false,
    }
}

} // verus!
