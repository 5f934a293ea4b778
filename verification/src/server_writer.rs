//! The server writer: a handler-capability trait and a single dispatch
//! function that matches the request path against each declared pattern,
//! discriminates by method, parses path parameters and body, invokes the
//! handler, and translates the result to a status and a JSON body.
//! Operations under the same path pattern share one outer path match.

use vstd::prelude::*;

use crate::analyzer::{
    collected_view, op_defs_view, operations_s, path_params_rec, responses_map_view,
    AnalysisResult, OperationDef, OperationDefV, ParameterDefV, ANALYZE_FUEL,
};
use crate::chars::{dec_of, digits_value, parse_u16, parses_as_u16, str_eq, u64_to_string};
use crate::model::Method;
use crate::{SegmentOrParameter, SegmentOrParameterV};

verus! {

/// The `actix_web` constant for a method.
pub open spec fn actix_method_s(m: Method) -> Seq<char> {
    match m {
        Method::Connect => "actix_web::http::Method::CONNECT"@,
        Method::Delete => "actix_web::http::Method::DELETE"@,
        Method::Get => "actix_web::http::Method::GET"@,
        Method::Head => "actix_web::http::Method::HEAD"@,
        Method::Options => "actix_web::http::Method::OPTIONS"@,
        Method::Patch => "actix_web::http::Method::PATCH"@,
        Method::Post => "actix_web::http::Method::POST"@,
        Method::Put => "actix_web::http::Method::PUT"@,
        Method::Trace => "actix_web::http::Method::TRACE"@,
    }
}

fn actix_method_text(m: Method) -> (r: &'static str)
    ensures
        r@ == actix_method_s(m),
{
    match m {
        Method::Connect => "actix_web::http::Method::CONNECT",
        Method::Delete => "actix_web::http::Method::DELETE",
        Method::Get => "actix_web::http::Method::GET",
        Method::Head => "actix_web::http::Method::HEAD",
        Method::Options => "actix_web::http::Method::OPTIONS",
        Method::Patch => "actix_web::http::Method::PATCH",
        Method::Post => "actix_web::http::Method::POST",
        Method::Put => "actix_web::http::Method::PUT",
        Method::Trace => "actix_web::http::Method::TRACE",
    }
}

/// The numeric status of a status key: its value when it is a number,
/// `500` otherwise, as for the `default` key.
pub open spec fn status_code_of(s: Seq<char>) -> int {
    if parses_as_u16(s) {
        digits_value(s)
    } else {
        500
    }
}

fn status_code_text(s: &str) -> (r: String)
    ensures
        r@ == dec_of(status_code_of(s@) as nat),
{
    match parse_u16(s) {
        Some(v) => u64_to_string(v as u64),
        None => u64_to_string(500),
    }
}

/// The slice pattern of a path: its non-separator elements, literals
/// quoted and placeholders binding, comma-separated.
pub open spec fn pattern_rec(path: Seq<SegmentOrParameterV>, first: bool) -> Seq<char>
    decreases path.len(),
{
    if path.len() == 0 {
        Seq::empty()
    } else {
        match path[0] {
            SegmentOrParameterV::Segment(s) => {
                if s.len() == 0 {
                    pattern_rec(path.drop_first(), first)
                } else {
                    (if first {
                        Seq::<char>::empty()
                    } else {
                        ", "@
                    }) + "\""@ + s + "\""@ + pattern_rec(path.drop_first(), false)
                }
            },
            SegmentOrParameterV::Parameter(p) => (if first {
                Seq::<char>::empty()
            } else {
                ", "@
            }) + p + pattern_rec(path.drop_first(), false),
        }
    }
}

pub open spec fn pattern_s(path: Seq<SegmentOrParameterV>) -> Seq<char> {
    pattern_rec(path, true)
}

fn write_pattern(path: &Vec<SegmentOrParameter>, i: usize, first: bool) -> (r: String)
    requires
        i <= path.len(),
    ensures
        r@ == pattern_rec(crate::analyzer::seg_list_view(path@).skip(i as int), first),
    decreases path.len() - i,
{
    let ghost pv = crate::analyzer::seg_list_view(path@);
    if i == path.len() {
        proof {
            assert(pv.skip(i as int) =~= Seq::<SegmentOrParameterV>::empty());
        }
        return String::new();
    }
    proof {
        assert(pv.skip(i as int)[0] == pv[i as int]);
        assert(pv.skip(i as int).drop_first() =~= pv.skip(i + 1));
    }
    match &path[i] {
        SegmentOrParameter::Segment(s) => {
            if s.as_str().is_empty() {
                proof {
                    assert(pv[i as int]->Segment_0 =~= Seq::<char>::empty());
                }
                write_pattern(path, i + 1, first)
            } else {
                let sep: String = if first {
                    String::new()
                } else {
                    ", ".to_owned()
                };
                let piece = sep.concat("\"").concat(s.as_str()).concat("\"");
                let rest = write_pattern(path, i + 1, false);
                piece.concat(rest.as_str())
            }
        },
        SegmentOrParameter::Parameter(p) => {
            let sep: String = if first {
                String::new()
            } else {
                ", ".to_owned()
            };
            let piece = sep.concat(p.as_str());
            let rest = write_pattern(path, i + 1, false);
            piece.concat(rest.as_str())
        },
    }
}

/// The parameter parsing lines of one operation.
pub open spec fn param_lines_s(pp: Seq<(Seq<char>, ParameterDefV)>) -> Seq<char>
    decreases pp.len(),
{
    if pp.len() == 0 {
        Seq::empty()
    } else {
        "            let "@ + pp[0].1.name + " = "@ + pp[0].1.schema_type + "::from_str("@
            + pp[0].1.name + ").expect(\"should deserialize\")"@ + ";\n"@ + param_lines_s(
            pp.drop_first(),
        )
    }
}

fn write_param_lines(d: &OperationDef) -> (r: String)
    ensures
        r@ == param_lines_s(path_params_rec(d@.path, d@.parameters)),
{
    let pp = d.path_params();
    let ghost ppv = path_params_rec(d@.path, d@.parameters);
    let n = pp.len();
    let mut out = String::new();
    proof {
        assert(ppv.skip(0) =~= ppv);
        assert(out@ + param_lines_s(ppv) =~= param_lines_s(ppv));
    }
    let mut i: usize = 0;
    while i < n
        invariant
            n == pp.len(),
            i <= n,
            ppv == path_params_rec(d@.path, d@.parameters),
            ppv.len() == n,
            forall|j: int|
                0 <= j < n ==> #[trigger] pp@[j].0@ == ppv[j].0 && pp@[j].1@ == ppv[j].1,
            out@ + param_lines_s(ppv.skip(i as int)) == param_lines_s(ppv),
        decreases n - i,
    {
        proof {
            assert(ppv.skip(i as int)[0] == ppv[i as int]);
            assert(ppv.skip(i as int).drop_first() =~= ppv.skip(i + 1));
        }
        let ghost before = out@;
        let piece = "            let ".to_owned().concat(pp[i].1.name.as_str()).concat(
            " = ",
        ).concat(pp[i].1.schema_type.as_str()).concat("::from_str(").concat(
            pp[i].1.name.as_str(),
        ).concat(").expect(\"should deserialize\")").concat(";\n");
        out = out.concat(piece.as_str());
        proof {
            assert(pp@[i as int].0@ == ppv[i as int].0);
            assert(pp@[i as int].1@ == ppv[i as int].1);
            assert(piece@ == "            let "@ + ppv[i as int].1.name + " = "@
                + ppv[i as int].1.schema_type + "::from_str("@ + ppv[i as int].1.name
                + ").expect(\"should deserialize\")"@ + ";\n"@);
            assert(param_lines_s(ppv.skip(i as int)) == "            let "@
                + ppv[i as int].1.name + " = "@ + ppv[i as int].1.schema_type + "::from_str("@
                + ppv[i as int].1.name + ").expect(\"should deserialize\")"@ + ";\n"@
                + param_lines_s(ppv.skip(i as int).drop_first()));
            assert((before + piece@) + param_lines_s(ppv.skip(i + 1)) =~= before + (piece@
                + param_lines_s(ppv.skip(i + 1))));
        }
        i = i + 1;
    }
    proof {
        assert(ppv.skip(n as int) =~= Seq::<(Seq<char>, ParameterDefV)>::empty());
    }
    out
}

/// The handler call arguments: the path parameters, then the body.
pub open spec fn call_args_s(
    pp: Seq<(Seq<char>, ParameterDefV)>,
    body: Option<Seq<char>>,
) -> Seq<char> {
    let names = arg_names_rec(pp, true);
    match body {
        Some(_) => if pp.len() > 0 {
            names + ", body"@
        } else {
            "body"@
        },
        None => names,
    }
}

pub open spec fn arg_names_rec(pp: Seq<(Seq<char>, ParameterDefV)>, first: bool) -> Seq<char>
    decreases pp.len(),
{
    if pp.len() == 0 {
        Seq::empty()
    } else {
        (if first {
            Seq::<char>::empty()
        } else {
            ", "@
        }) + pp[0].1.name + arg_names_rec(pp.drop_first(), false)
    }
}

fn write_call_args(d: &OperationDef) -> (r: String)
    ensures
        r@ == call_args_s(path_params_rec(d@.path, d@.parameters), d@.request_body),
{
    let pp = d.path_params();
    let ghost ppv = path_params_rec(d@.path, d@.parameters);
    let n = pp.len();
    let mut out = String::new();
    proof {
        assert(ppv.skip(0) =~= ppv);
        assert(out@ + arg_names_rec(ppv, true && n == 0) =~= arg_names_rec(ppv, true && n == 0));
    }
    let mut i: usize = 0;
    let mut first = true;
    while i < n
        invariant
            n == pp.len(),
            i <= n,
            ppv == path_params_rec(d@.path, d@.parameters),
            ppv.len() == n,
            forall|j: int|
                0 <= j < n ==> #[trigger] pp@[j].0@ == ppv[j].0 && pp@[j].1@ == ppv[j].1,
            first == (i == 0),
            out@ + arg_names_rec(ppv.skip(i as int), i == 0) == arg_names_rec(ppv, true),
        decreases n - i,
    {
        proof {
            assert(ppv.skip(i as int)[0] == ppv[i as int]);
            assert(ppv.skip(i as int).drop_first() =~= ppv.skip(i + 1));
        }
        let ghost before = out@;
        let sep: String = if first {
            String::new()
        } else {
            ", ".to_owned()
        };
        let piece = sep.concat(pp[i].1.name.as_str());
        out = out.concat(piece.as_str());
        first = false;
        proof {
            assert(pp@[i as int].0@ == ppv[i as int].0);
            assert(pp@[i as int].1@ == ppv[i as int].1);
            assert((before + piece@) + arg_names_rec(ppv.skip(i + 1), false) =~= before + (
            piece@ + arg_names_rec(ppv.skip(i + 1), false)));
        }
        i = i + 1;
    }
    proof {
        assert(ppv.skip(n as int) =~= Seq::<(Seq<char>, ParameterDefV)>::empty());
    }
    let has_body = match &d.request_body {
        Some(_) => true,
        None => false,
    };
    if has_body {
        if n > 0 {
            out.concat(", body")
        } else {
            proof {
                assert(out@ =~= Seq::<char>::empty());
                assert(out@ + "body"@ =~= "body"@);
            }
            out.concat("body")
        }
    } else {
        out
    }
}

/// The response translation of one operation: a direct status and body
/// for a single response, a match over the envelope otherwise.
pub open spec fn respond_s(d: OperationDefV) -> Seq<char> {
    if d.responses.len() == 1 {
        let st = dec_of(status_code_of(d.responses[0].0) as nat);
        if d.response == "()"@ {
            "            return Ok(actix_web::HttpResponseBuilder::new(actix_web::http::StatusCode::from_u16("@
                + st + ").expect(\"valid status code\")).finish());\n"@
        } else {
            "            return Ok(actix_web::HttpResponseBuilder::new(actix_web::http::StatusCode::from_u16("@
                + st + ").expect(\"valid status code\")).json(response));\n"@
        }
    } else {
        "            match response {\n"@ + respond_arms_s(d.response, d.responses)
            + "            }\n"@
    }
}

pub open spec fn respond_arms_s(
    envelope: Seq<char>,
    responses: Seq<(Seq<char>, Option<Seq<char>>)>,
) -> Seq<char>
    decreases responses.len(),
{
    if responses.len() == 0 {
        Seq::empty()
    } else {
        let st = dec_of(status_code_of(responses[0].0) as nat);
        "                "@ + envelope + "::S"@ + responses[0].0 + (match responses[0].1 {
            Some(_) => "(body)"@,
            None => Seq::<char>::empty(),
        })
            + " => {\n                    return Ok(actix_web::HttpResponseBuilder::new(actix_web::http::StatusCode::from_u16("@
            + st + ").expect(\"valid status code\"))"@ + (match responses[0].1 {
            Some(_) => ".json(body)"@,
            None => ".finish()"@,
        }) + ");\n                }\n"@ + respond_arms_s(envelope, responses.drop_first())
    }
}

fn write_respond_arms(d: &OperationDef, i: usize) -> (r: String)
    requires
        i <= d.responses.len(),
    ensures
        r@ == respond_arms_s(d@.response, responses_map_view(d.responses@).skip(i as int)),
    decreases d.responses.len() - i,
{
    let ghost rv = responses_map_view(d.responses@);
    if i == d.responses.len() {
        proof {
            assert(rv.skip(i as int) =~= Seq::<(Seq<char>, Option<Seq<char>>)>::empty());
        }
        return String::new();
    }
    proof {
        assert(rv.skip(i as int)[0] == rv[i as int]);
        assert(rv.skip(i as int).drop_first() =~= rv.skip(i + 1));
    }
    let st = status_code_text(d.responses[i].0.as_str());
    let head = "                ".to_owned().concat(d.response.as_str()).concat("::S").concat(
        d.responses[i].0.as_str(),
    );
    let head = match &d.responses[i].1 {
        Some(_) => head.concat("(body)"),
        None => head,
    };
    let head = head.concat(
        " => {\n                    return Ok(actix_web::HttpResponseBuilder::new(actix_web::http::StatusCode::from_u16(",
    ).concat(st.as_str()).concat(").expect(\"valid status code\"))");
    let head = match &d.responses[i].1 {
        Some(_) => head.concat(".json(body)"),
        None => head.concat(".finish()"),
    };
    let line = head.concat(");\n                }\n");
    let rest = write_respond_arms(d, i + 1);
    line.concat(rest.as_str())
}

/// The dispatch block of one operation under a matched path.
pub open spec fn op_dispatch_s(d: OperationDefV) -> Seq<char> {
    "        if method == "@ + actix_method_s(d.method) + " {\n"@ + param_lines_s(
        path_params_rec(d.path, d.parameters),
    ) + (match d.request_body {
        Some(t) => "            let body: "@ + t
            + " = serde_json::from_slice(&body).expect(\"body should deserialize\")"@ + ";\n"@,
        None => Seq::<char>::empty(),
    }) + "            let response = handlers."@ + d.name + "("@ + call_args_s(
        path_params_rec(d.path, d.parameters),
        d.request_body,
    ) + ").await.expect(\"should execute\")"@ + ";\n"@ + respond_s(d) + "        }\n"@
}

fn write_op_dispatch(d: &OperationDef) -> (r: String)
    ensures
        r@ == op_dispatch_s(d@),
{
    proof {
        assert(responses_map_view(d.responses@).skip(0) =~= responses_map_view(d.responses@));
    }
    let params = write_param_lines(d);
    let args = write_call_args(d);
    let out = "        if method == ".to_owned().concat(actix_method_text(d.method)).concat(
        " {\n",
    ).concat(params.as_str());
    let out = match &d.request_body {
        Some(t) => out.concat("            let body: ").concat(t.as_str()).concat(
            " = serde_json::from_slice(&body).expect(\"body should deserialize\")",
        ).concat(";\n"),
        None => out,
    };
    let out = out.concat("            let response = handlers.").concat(d.name.as_str()).concat(
        "(",
    ).concat(args.as_str()).concat(").await.expect(\"should execute\")").concat(";\n");
    let resp: String = if d.responses.len() == 1 {
        let st = status_code_text(d.responses[0].0.as_str());
        proof {
            assert(responses_map_view(d.responses@)[0].0 == d.responses@[0].0@);
        }
        let one = if str_eq(d.response.as_str(), "()") {
            "            return Ok(actix_web::HttpResponseBuilder::new(actix_web::http::StatusCode::from_u16(".to_owned().concat(
                st.as_str(),
            ).concat(").expect(\"valid status code\")).finish());\n")
        } else {
            "            return Ok(actix_web::HttpResponseBuilder::new(actix_web::http::StatusCode::from_u16(".to_owned().concat(
                st.as_str(),
            ).concat(").expect(\"valid status code\")).json(response));\n")
        };
        one
    } else {
        let arms = write_respond_arms(d, 0);
        "            match response {\n".to_owned().concat(arms.as_str()).concat(
            "            }\n",
        )
    };
    out.concat(resp.as_str()).concat("        }\n")
}

/// The first group whose representative's path equals the path of `d`.
pub open spec fn find_group(
    ops: Seq<OperationDefV>,
    gs: Seq<Seq<int>>,
    j: int,
    k: int,
) -> Option<int>
    decreases gs.len() - k,
{
    if k < 0 || k >= gs.len() {
        None
    } else if gs[k].len() > 0 && ops[gs[k][0]].path == ops[j].path {
        Some(k)
    } else {
        find_group(ops, gs, j, k + 1)
    }
}

/// One operation added to the path groups: appended to the first group
/// with its path, or opening a new group at the end.
pub open spec fn add_to_groups(ops: Seq<OperationDefV>, gs: Seq<Seq<int>>, j: int) -> Seq<
    Seq<int>,
> {
    match find_group(ops, gs, j, 0) {
        Some(gi) => gs.update(gi, gs[gi].push(j)),
        None => gs.push(seq![j]),
    }
}

/// The path groups of the first `n` operations, in first-appearance order.
pub open spec fn groups_upto(ops: Seq<OperationDefV>, n: int) -> Seq<Seq<int>>
    decreases n,
{
    if n <= 0 {
        Seq::empty()
    } else {
        add_to_groups(ops, groups_upto(ops, n - 1), n - 1)
    }
}

/// The views of an index-group list.
pub open spec fn idx_groups_view(xs: Seq<Vec<usize>>) -> Seq<Seq<int>> {
    Seq::new(xs.len(), |i: int| Seq::new(xs[i]@.len(), |k: int| xs[i]@[k] as int))
}

/// Whether two parsed paths are the same element for element.
fn path_list_eq(a: &Vec<SegmentOrParameter>, b: &Vec<SegmentOrParameter>) -> (r: bool)
    ensures
        r == (crate::analyzer::seg_list_view(a@) == crate::analyzer::seg_list_view(b@)),
{
    let ghost av = crate::analyzer::seg_list_view(a@);
    let ghost bv = crate::analyzer::seg_list_view(b@);
    let n = a.len();
    if n != b.len() {
        proof {
            assert(av.len() != bv.len());
        }
        return false;
    }
    let mut i: usize = 0;
    while i < n
        invariant
            n == a.len(),
            n == b.len(),
            i <= n,
            av == crate::analyzer::seg_list_view(a@),
            bv == crate::analyzer::seg_list_view(b@),
            av.len() == n,
            bv.len() == n,
            forall|j: int| 0 <= j < n ==> #[trigger] av[j] == a@[j]@,
            forall|j: int| 0 <= j < n ==> #[trigger] bv[j] == b@[j]@,
            forall|j: int| 0 <= j < i ==> #[trigger] av[j] == bv[j],
        decreases n - i,
    {
        let same = match (&a[i], &b[i]) {
            (SegmentOrParameter::Segment(x), SegmentOrParameter::Segment(y)) => str_eq(
                x.as_str(),
                y.as_str(),
            ),
            (SegmentOrParameter::Parameter(x), SegmentOrParameter::Parameter(y)) => str_eq(
                x.as_str(),
                y.as_str(),
            ),
            _ => false,
        };
        if !same {
            proof {
                assert(av[i as int] != bv[i as int]);
            }
            return false;
        }
        i = i + 1;
    }
    proof {
        assert(av =~= bv);
    }
    true
}

/// The first group whose representative has the same path as `ops[j]`.
fn scan_groups(ops: &Vec<OperationDef>, groups: &Vec<Vec<usize>>, j: usize) -> (r: Option<
    usize,
>)
    requires
        j < ops.len(),
        forall|g: int|
            0 <= g < groups@.len() ==> (#[trigger] groups@[g])@.len() > 0 && forall|k: int|
                0 <= k < groups@[g]@.len() ==> (#[trigger] groups@[g]@[k]) < ops@.len(),
    ensures
        match r {
            Some(g) => g < groups@.len() && find_group(
                op_defs_view(ops@),
                idx_groups_view(groups@),
                j as int,
                0,
            ) == Some(g as int),
            None => find_group(
                op_defs_view(ops@),
                idx_groups_view(groups@),
                j as int,
                0,
            ) is None,
        },
{
    let ghost ov = op_defs_view(ops@);
    let ghost gv = idx_groups_view(groups@);
    let gcount = groups.len();
    let mut gi: usize = 0;
    while gi < gcount
        invariant
            gcount == groups.len(),
            gi <= gcount,
            j < ops.len(),
            ov == op_defs_view(ops@),
            gv == idx_groups_view(groups@),
            gv.len() == gcount,
            forall|g: int|
                0 <= g < groups@.len() ==> (#[trigger] groups@[g])@.len() > 0 && forall|k: int|
                    0 <= k < groups@[g]@.len() ==> (#[trigger] groups@[g]@[k]) < ops@.len(),
            find_group(ov, gv, j as int, 0) == find_group(ov, gv, j as int, gi as int),
        decreases gcount - gi,
    {
        proof {
            assert(groups@[gi as int]@.len() > 0);
            assert(gv[gi as int].len() == groups@[gi as int]@.len());
            assert(gv[gi as int][0] == groups@[gi as int]@[0] as int);
            assert(groups@[gi as int]@[0] < ops@.len());
        }
        if path_list_eq(&ops[groups[gi][0]].path, &ops[j].path) {
            proof {
                assert(ov[gv[gi as int][0]].path == ops@[gv[gi as int][0]]@.path);
                assert(ov[j as int].path == ops@[j as int]@.path);
                assert(find_group(ov, gv, j as int, gi as int) == Some(gi as int));
            }
            return Some(gi);
        }
        proof {
            assert(ov[gv[gi as int][0]].path == ops@[gv[gi as int][0]]@.path);
            assert(ov[j as int].path == ops@[j as int]@.path);
            assert(!(gv[gi as int].len() > 0 && ov[gv[gi as int][0]].path == ov[j as int].path));
        }
        gi = gi + 1;
    }
    None
}

/// Groups the operations by identical path pattern.
fn compute_groups(ops: &Vec<OperationDef>) -> (r: Vec<Vec<usize>>)
    ensures
        idx_groups_view(r@) == groups_upto(op_defs_view(ops@), ops@.len() as int),
        forall|g: int|
            0 <= g < r@.len() ==> (#[trigger] r@[g])@.len() > 0 && forall|k: int|
                0 <= k < r@[g]@.len() ==> (#[trigger] r@[g]@[k]) < ops@.len(),
{
    let ghost ov = op_defs_view(ops@);
    let n = ops.len();
    let mut groups: Vec<Vec<usize>> = Vec::new();
    proof {
        assert(idx_groups_view(groups@) =~= Seq::<Seq<int>>::empty());
        assert(idx_groups_view(groups@) =~= groups_upto(ov, 0));
    }
    let mut j: usize = 0;
    while j < n
        invariant
            n == ops.len(),
            j <= n,
            ov == op_defs_view(ops@),
            ov.len() == n,
            idx_groups_view(groups@) == groups_upto(ov, j as int),
            forall|g: int|
                0 <= g < groups@.len() ==> (#[trigger] groups@[g])@.len() > 0 && forall|k: int|
                    0 <= k < groups@[g]@.len() ==> (#[trigger] groups@[g]@[k]) < n,
        decreases n - j,
    {
        let ghost gv = idx_groups_view(groups@);
        let gcount = groups.len();
        let found_opt = scan_groups(ops, &groups, j);
        let found: usize = match found_opt {
            Some(g) => g,
            None => gcount,
        };
        if found < gcount {
            let ghost prev = groups@;
            let mut g = groups.remove(found);
            g.push(j);
            groups.insert(found, g);
            proof {
                assert(groups@.len() == gcount);
                assert forall|x: int| 0 <= x < gcount && x != found implies groups@[x]
                    == prev[x] by {
                    if x < found {
                        assert(groups@[x] == prev.remove(found as int).insert(
                            found as int,
                            groups@[found as int],
                        )[x]);
                    }
                }
                let newg = groups@[found as int];
                assert(newg@ =~= prev[found as int]@.push(j));
                assert forall|x: int| 0 <= x < gcount implies idx_groups_view(groups@)[x]
                    == gv.update(found as int, gv[found as int].push(j as int))[x] by {
                    if x == found {
                        assert forall|k: int| 0 <= k < newg@.len() implies Seq::new(
                            newg@.len(),
                            |k2: int| newg@[k2] as int,
                        )[k] == gv[found as int].push(j as int)[k] by {
                            if k < prev[found as int]@.len() {
                                assert(newg@[k] == prev[found as int]@[k]);
                            }
                        }
                        assert(Seq::new(newg@.len(), |k: int| newg@[k] as int) =~= gv[
                        found as int].push(j as int));
                    } else {
                        assert(groups@[x] == prev[x]);
                    }
                }
                assert(idx_groups_view(groups@) =~= gv.update(
                    found as int,
                    gv[found as int].push(j as int),
                ));
                assert(groups_upto(ov, j + 1) == add_to_groups(ov, gv, j as int));
            }
        } else {
            proof {
                assert(find_group(ov, gv, j as int, gcount as int) is None);
            }
            let mut g: Vec<usize> = Vec::new();
            g.push(j);
            let ghost prev = groups@;
            groups.push(g);
            proof {
                assert forall|x: int| 0 <= x < groups@.len() implies idx_groups_view(groups@)[x]
                    == gv.push(seq![j as int])[x] by {
                    if x < prev.len() {
                        assert(groups@[x] == prev[x]);
                    }
                }
                assert(idx_groups_view(groups@) =~= gv.push(seq![j as int]));
                assert(groups_upto(ov, j + 1) == add_to_groups(ov, gv, j as int));
            }
        }
        j = j + 1;
    }
    groups
}

/// The dispatch blocks of the operations of one group, in group order.
pub open spec fn ops_dispatch_list_s(ops: Seq<OperationDefV>, g: Seq<int>) -> Seq<char>
    decreases g.len(),
{
    if g.len() == 0 {
        Seq::empty()
    } else {
        op_dispatch_s(ops[g[0]]) + ops_dispatch_list_s(ops, g.drop_first())
    }
}

/// One outer path match with its operations.
pub open spec fn group_s(ops: Seq<OperationDefV>, g: Seq<int>) -> Seq<char> {
    "    if let &["@ + pattern_s(ops[g[0]].path) + "] = path.as_slice() {\n"@
        + ops_dispatch_list_s(ops, g) + "    }\n"@
}

/// Every path group, in first-appearance order.
pub open spec fn groups_render_s(ops: Seq<OperationDefV>, gs: Seq<Seq<int>>) -> Seq<char>
    decreases gs.len(),
{
    if gs.len() == 0 {
        Seq::empty()
    } else {
        group_s(ops, gs[0]) + groups_render_s(ops, gs.drop_first())
    }
}

/// The fixed head of the dispatch function.
pub open spec fn handler_head_s() -> Seq<char> {
    "pub async fn handler<T, E>(\n    req: actix_web::HttpRequest,\n    mut payload: actix_web::web::Payload,\n) -> Result<actix_web::HttpResponse, actix_web::Error>\nwhere\n    T: Handlers + actix_web::FromRequest<Error = E>,\n    E: std::fmt::Debug,\n{\n    let handlers = T::extract(&req).await.expect(\"handler data should be set\");\n    let method = req.method();\n    let path: Vec<&str> = req.path().split('/').skip(1).collect();\n    let mut body = actix_web::web::BytesMut::new();\n    while let Some(item) = payload.next().await {\n        body.extend_from_slice(&item.expect(\"should read\"));\n    }\n"@
}

/// The fixed tail: an unmatched path or method is a not-found error.
pub open spec fn handler_tail_s() -> Seq<char> {
    "    Err(actix_web::error::ErrorNotFound(\"no declared operation matches\"))\n}\n"@
}

/// The whole server module.
pub open spec fn server_output_s(ops: Seq<OperationDefV>) -> Seq<char> {
    "use futures::StreamExt;\nuse std::str::FromStr;\n\n#[async_trait::async_trait(?Send)]\npub trait Handlers {\n    type Error: std::fmt::Debug;\n\n"@
        + crate::client_writer::trait_methods_s(ops) + "}\n\n"@ + handler_head_s()
        + groups_render_s(ops, groups_upto(ops, ops.len() as int)) + handler_tail_s()
}

fn write_ops_dispatch_list(ops: &Vec<OperationDef>, g: &Vec<usize>, i: usize) -> (r: String)
    requires
        i <= g.len(),
        forall|k: int| 0 <= k < g@.len() ==> (#[trigger] g@[k]) < ops@.len(),
    ensures
        r@ == ops_dispatch_list_s(
            op_defs_view(ops@),
            Seq::new(g@.len(), |k: int| g@[k] as int).skip(i as int),
        ),
    decreases g.len() - i,
{
    let ghost ov = op_defs_view(ops@);
    let ghost giv = Seq::new(g@.len(), |k: int| g@[k] as int);
    if i == g.len() {
        proof {
            assert(giv.skip(i as int) =~= Seq::<int>::empty());
        }
        return String::new();
    }
    proof {
        assert(giv.skip(i as int)[0] == giv[i as int]);
        assert(giv.skip(i as int).drop_first() =~= giv.skip(i + 1));
    }
    let d = write_op_dispatch(&ops[g[i]]);
    let rest = write_ops_dispatch_list(ops, g, i + 1);
    d.concat(rest.as_str())
}

fn write_groups(ops: &Vec<OperationDef>, groups: &Vec<Vec<usize>>, i: usize) -> (r: String)
    requires
        i <= groups.len(),
        forall|g: int|
            0 <= g < groups@.len() ==> (#[trigger] groups@[g])@.len() > 0 && forall|k: int|
                0 <= k < groups@[g]@.len() ==> (#[trigger] groups@[g]@[k]) < ops@.len(),
    ensures
        r@ == groups_render_s(op_defs_view(ops@), idx_groups_view(groups@).skip(i as int)),
    decreases groups.len() - i,
{
    let ghost ov = op_defs_view(ops@);
    let ghost gv = idx_groups_view(groups@);
    if i == groups.len() {
        proof {
            assert(gv.skip(i as int) =~= Seq::<Seq<int>>::empty());
        }
        return String::new();
    }
    proof {
        assert(gv.skip(i as int)[0] == gv[i as int]);
        assert(gv.skip(i as int).drop_first() =~= gv.skip(i + 1));
        assert(gv[i as int].len() == groups@[i as int]@.len());
        assert(gv[i as int][0] == groups@[i as int]@[0] as int);
        assert(groups@[i as int]@[0] < ops@.len());
        assert(crate::analyzer::seg_list_view(ops@[gv[i as int][0]].path@).skip(0)
            =~= crate::analyzer::seg_list_view(ops@[gv[i as int][0]].path@));
    }
    let rep = groups[i][0];
    let pat = write_pattern(&ops[rep].path, 0, true);
    let body = write_ops_dispatch_list(ops, &groups[i], 0);
    proof {
        assert(Seq::new(groups@[i as int]@.len(), |k: int| groups@[i as int]@[k] as int).skip(0)
            =~= gv[i as int]);
    }
    let piece = "    if let &[".to_owned().concat(pat.as_str()).concat(
        "] = path.as_slice() {\n",
    ).concat(body.as_str()).concat("    }\n");
    let rest = write_groups(ops, groups, i + 1);
    piece.concat(rest.as_str())
}

/// Why the server writer could not emit: a failed analysis.
#[derive(Debug)]
pub enum ServerWriterError {
    Naming,
}

/// Emits the server module of an analysis.
pub struct ServerWriter<'a> {
    pub analysis: &'a AnalysisResult,
}

impl<'a> ServerWriter<'a> {
    pub fn new(analysis: &'a AnalysisResult) -> (r: ServerWriter<'a>)
        ensures
            r.analysis == analysis,
    {
        ServerWriter { analysis }
    }

    /// The server module: the handler trait and the dispatch function.
    pub fn write(&self) -> (r: Result<String, ServerWriterError>)
        ensures
            match r {
                Ok(t) => match operations_s(
                    self.analysis.spec@,
                    collected_view(self.analysis.schemas@),
                    self.analysis.spec@.paths,
                    ANALYZE_FUEL as nat,
                ) {
                    Some(ops) => t@ == server_output_s(ops),
                    None => false,
                },
                Err(_) => operations_s(
                    self.analysis.spec@,
                    collected_view(self.analysis.schemas@),
                    self.analysis.spec@.paths,
                    ANALYZE_FUEL as nat,
                ) is None,
            },
    {
        let ops = match self.analysis.operations() {
            Ok(o) => o,
            Err(_) => {
                return Err(ServerWriterError::Naming);
            },
        };
        proof {
            assert(op_defs_view(ops@).skip(0) =~= op_defs_view(ops@));
        }
        let traits = crate::client_writer::write_trait_methods(&ops, 0);
        let groups = compute_groups(&ops);
        proof {
            assert(idx_groups_view(groups@).skip(0) =~= idx_groups_view(groups@));
        }
        let body = write_groups(&ops, &groups, 0);
        let out =
            "use futures::StreamExt;\nuse std::str::FromStr;\n\n#[async_trait::async_trait(?Send)]\npub trait Handlers {\n    type Error: std::fmt::Debug;\n\n".to_owned();
        let out = out.concat(traits.as_str()).concat("}\n\n").concat(
            handler_head_text().as_str(),
        ).concat(body.as_str()).concat(handler_tail_text().as_str());
        Ok(out)
    }
}

fn handler_head_text() -> (r: String)
    ensures
        r@ == handler_head_s(),
{
    "pub async fn handler<T, E>(\n    req: actix_web::HttpRequest,\n    mut payload: actix_web::web::Payload,\n) -> Result<actix_web::HttpResponse, actix_web::Error>\nwhere\n    T: Handlers + actix_web::FromRequest<Error = E>,\n    E: std::fmt::Debug,\n{\n    let handlers = T::extract(&req).await.expect(\"handler data should be set\");\n    let method = req.method();\n    let path: Vec<&str> = req.path().split('/').skip(1).collect();\n    let mut body = actix_web::web::BytesMut::new();\n    while let Some(item) = payload.next().await {\n        body.extend_from_slice(&item.expect(\"should read\"));\n    }\n".to_owned()
}

fn handler_tail_text() -> (r: String)
    ensures
        r@ == handler_tail_s(),
{
    "    Err(actix_web::error::ErrorNotFound(\"no declared operation matches\"))\n}\n".to_owned()
}

} // verus!
