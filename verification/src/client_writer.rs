//! The client writer: a capability trait with one method per operation,
//! an unexpected-response error record, and one concrete implementation
//! against the `awc` HTTP client.

use vstd::prelude::*;

use crate::analyzer::{
    collected_view, op_defs_view, operations_s, path_params_rec, AnalysisResult, OperationDef,
    OperationDefV, ANALYZE_FUEL,
};
use crate::chars::{parse_u16, parses_as_u16, str_eq};
use crate::model::Method;
use crate::SegmentOrParameterV;

verus! {

/// The `awc` constant for a method.
pub open spec fn awc_method_s(m: Method) -> Seq<char> {
    match m {
        Method::Connect => "awc::http::Method::CONNECT"@,
        Method::Delete => "awc::http::Method::DELETE"@,
        Method::Get => "awc::http::Method::GET"@,
        Method::Head => "awc::http::Method::HEAD"@,
        Method::Options => "awc::http::Method::OPTIONS"@,
        Method::Patch => "awc::http::Method::PATCH"@,
        Method::Post => "awc::http::Method::POST"@,
        Method::Put => "awc::http::Method::PUT"@,
        Method::Trace => "awc::http::Method::TRACE"@,
    }
}

fn awc_method_text(m: Method) -> (r: &'static str)
    ensures
        r@ == awc_method_s(m),
{
    match m {
        Method::Connect => "awc::http::Method::CONNECT",
        Method::Delete => "awc::http::Method::DELETE",
        Method::Get => "awc::http::Method::GET",
        Method::Head => "awc::http::Method::HEAD",
        Method::Options => "awc::http::Method::OPTIONS",
        Method::Patch => "awc::http::Method::PATCH",
        Method::Post => "awc::http::Method::POST",
        Method::Put => "awc::http::Method::PUT",
        Method::Trace => "awc::http::Method::TRACE",
    }
}

/// The format-string body of a URL: each separator keeps its slash, each
/// placeholder becomes a `{}` hole.
pub open spec fn url_format_s(path: Seq<SegmentOrParameterV>) -> Seq<char>
    decreases path.len(),
{
    if path.len() == 0 {
        Seq::empty()
    } else {
        (match path[0] {
            SegmentOrParameterV::Segment(s) => if s.len() == 0 {
                "/"@
            } else {
                s
            },
            SegmentOrParameterV::Parameter(_) => "{}"@,
        }) + url_format_s(path.drop_first())
    }
}

/// The path-parameter arguments of a URL format call, in path order.
pub open spec fn url_args_s(pp: Seq<(Seq<char>, crate::analyzer::ParameterDefV)>) -> Seq<char>
    decreases pp.len(),
{
    if pp.len() == 0 {
        Seq::empty()
    } else {
        ", "@ + pp[0].1.name + url_args_s(pp.drop_first())
    }
}

/// The signature shared by the client and handler traits.
pub open spec fn signature_s(d: OperationDefV) -> Seq<char> {
    "async fn "@ + d.name + "(&self"@ + sig_params_s(path_params_rec(d.path, d.parameters)) + (
    match d.request_body {
        Some(t) => ", body: "@ + t,
        None => Seq::<char>::empty(),
    }) + ") -> Result<"@ + d.response + ", Self::Error>"@
}

/// The typed path parameters of a signature.
pub open spec fn sig_params_s(pp: Seq<(Seq<char>, crate::analyzer::ParameterDefV)>) -> Seq<char>
    decreases pp.len(),
{
    if pp.len() == 0 {
        Seq::empty()
    } else {
        ", "@ + pp[0].1.name + ": "@ + pp[0].1.schema_type + sig_params_s(pp.drop_first())
    }
}

/// One match arm of the response dispatch.
pub open spec fn response_arm_s(d: OperationDefV, status: Seq<char>, body: Option<Seq<char>>) -> Option<
    Seq<char>,
> {
    let arm_value = if parses_as_u16(status) {
        Some(status)
    } else if status == "default"@ {
        Some("_"@)
    } else {
        None
    };
    match arm_value {
        None => None,
        Some(v) => {
            let arm_body = if d.responses.len() == 1 {
                if d.response == "()"@ {
                    "Ok(())"@
                } else {
                    "{\n                let body: "@ + d.response
                        + " = res.json().await?;\n                Ok(body)\n            }"@
                }
            } else {
                match body {
                    Some(t) => "{\n                let body: "@ + t
                        + " = res.json().await?;\n                Ok("@ + d.response + "::S"@
                        + status + "(body))\n            }"@,
                    None => "Ok("@ + d.response + "::S"@ + status + ")"@,
                }
            };
            Some("            "@ + v + " => "@ + arm_body + ",\n"@)
        },
    }
}

/// The response arms of one operation, in status order.
pub open spec fn response_arms_s(
    d: OperationDefV,
    responses: Seq<(Seq<char>, Option<Seq<char>>)>,
) -> Option<Seq<char>>
    decreases responses.len(),
{
    if responses.len() == 0 {
        Some(Seq::empty())
    } else {
        match response_arm_s(d, responses[0].0, responses[0].1) {
            None => None,
            Some(a) => match response_arms_s(d, responses.drop_first()) {
                Some(r) => Some(a + r),
                None => None,
            },
        }
    }
}

/// The fallback arm returning the unexpected-response error.
pub open spec fn wildcard_arm_s() -> Seq<char> {
    "            _ => Err(Box::new(UnexpectedResponse {\n                method: method.to_string(),\n                url: url.to_owned(),\n                status_code: res.status().as_u16(),\n            })),\n"@
}

/// The body of one generated client method.
pub open spec fn awc_method_body_s(d: OperationDefV) -> Option<Seq<char>> {
    match response_arms_s(d, d.responses) {
        None => None,
        Some(arms) => Some(
            "        let method = "@ + awc_method_s(d.method)
                + ";\n        let url = format!(\"{}"@ + url_format_s(d.path)
                + "\", self.base_url"@ + url_args_s(path_params_rec(d.path, d.parameters))
                + ");\n        let "@ + (if any_body(d.responses) {
                "mut "@
            } else {
                Seq::<char>::empty()
            }) + "res = self.c.request(method.clone(), url.clone())."@ + (
            match d.request_body {
                Some(_) => "send_json(&body)"@,
                None => "send()"@,
            }) + ".await?;\n        match res.status().as_u16() {\n"@ + arms + (
            if has_default(d.responses) {
                Seq::<char>::empty()
            } else {
                wildcard_arm_s()
            }) + "        }\n"@,
        ),
    }
}

/// Whether any response of the map carries a body.
pub open spec fn any_body(responses: Seq<(Seq<char>, Option<Seq<char>>)>) -> bool {
    crate::analyzer::any_response_body(responses)
}

/// Whether the map declares a `default` response.
pub open spec fn has_default(responses: Seq<(Seq<char>, Option<Seq<char>>)>) -> bool {
    crate::analyzer::has_status(responses, "default"@)
}

/// The trait method lines of the capability trait.
pub open spec fn trait_methods_s(ops: Seq<OperationDefV>) -> Seq<char>
    decreases ops.len(),
{
    if ops.len() == 0 {
        Seq::empty()
    } else {
        "    "@ + signature_s(ops[0]) + ";\n"@ + trait_methods_s(ops.drop_first())
    }
}

/// The generated client methods.
pub open spec fn awc_methods_s(ops: Seq<OperationDefV>) -> Option<Seq<char>>
    decreases ops.len(),
{
    if ops.len() == 0 {
        Some(Seq::empty())
    } else {
        match awc_method_body_s(ops[0]) {
            None => None,
            Some(b) => match awc_methods_s(ops.drop_first()) {
                Some(r) => Some(
                    "    "@ + signature_s(ops[0]) + " {\n"@ + b + "    }\n"@ + r,
                ),
                None => None,
            },
        }
    }
}

/// The fixed error record the client reports unexpected statuses with.
pub open spec fn unexpected_response_s() -> Seq<char> {
    "#[derive(Debug, Clone)]\npub struct UnexpectedResponse {\n    method: String,\n    url: String,\n    status_code: u16,\n}\n\nimpl std::fmt::Display for UnexpectedResponse {\n    fn fmt(&self, f: &mut std::fmt::Formatter<'_>) -> std::fmt::Result {\n        write!(\n            f,\n            \"unexpected status code {} from {} {}\",\n            self.status_code, self.method, self.url\n        )\n    }\n}\n\nimpl std::error::Error for UnexpectedResponse {}\n\n"@
}

/// The whole client module.
pub open spec fn client_output_s(ops: Seq<OperationDefV>) -> Option<Seq<char>> {
    match awc_methods_s(ops) {
        None => None,
        Some(methods) => Some(
            "#[async_trait::async_trait(?Send)]\npub trait Client {\n    type Error;\n\n"@
                + trait_methods_s(ops) + "}\n\n"@ + unexpected_response_s()
                + "pub struct AwcClient {\n    c: awc::Client,\n    base_url: String,\n}\n\nimpl AwcClient {\n    pub fn new(c: &awc::Client, base_url: &str) -> Self {\n        Self {\n            c: c.clone(),\n            base_url: base_url.to_owned(),\n        }\n    }\n}\n\n#[async_trait::async_trait(?Send)]\nimpl Client for AwcClient {\n    type Error = Box<dyn std::error::Error>;\n\n"@
                + methods + "}\n"@,
        ),
    }
}

/// Why the client writer could not emit: a status key that is neither a
/// number nor `default`, or a failed analysis.
#[derive(Debug)]
pub enum ClientWriterError {
    Status,
    Naming,
}

/// Emits the client module of an analysis.
pub struct ClientWriter<'a> {
    pub analysis: &'a AnalysisResult,
}

/// The typed path-parameter list of a signature, as text.
fn write_sig_params(d: &OperationDef) -> (r: String)
    ensures
        r@ == sig_params_s(path_params_rec(d@.path, d@.parameters)),
{
    let pp = d.path_params();
    let ghost ppv = path_params_rec(d@.path, d@.parameters);
    let n = pp.len();
    let mut out = String::new();
    proof {
        assert(ppv.skip(0) =~= ppv);
        assert(out@ + sig_params_s(ppv) =~= sig_params_s(ppv));
    }
    let mut i: usize = 0;
    while i < n
        invariant
            n == pp.len(),
            i <= n,
            ppv == path_params_rec(d@.path, d@.parameters),
            ppv.len() == n,
            forall|j: int|
                0 <= j < n ==> #[trigger] pp@[j].0@ == ppv[j].0 && pp@[j].1@ == ppv[j].1,
            out@ + sig_params_s(ppv.skip(i as int)) == sig_params_s(ppv),
        decreases n - i,
    {
        proof {
            assert(ppv.skip(i as int)[0] == ppv[i as int]);
            assert(ppv.skip(i as int).drop_first() =~= ppv.skip(i + 1));
        }
        let ghost before = out@;
        let piece = ", ".to_owned().concat(pp[i].1.name.as_str()).concat(": ").concat(
            pp[i].1.schema_type.as_str(),
        );
        out = out.concat(piece.as_str());
        proof {
            assert(pp@[i as int].0@ == ppv[i as int].0);
            assert(pp@[i as int].1@ == ppv[i as int].1);
            assert(piece@ == ", "@ + ppv[i as int].1.name + ": "@ + ppv[i as int].1.schema_type);
            assert(sig_params_s(ppv.skip(i as int)) == ", "@ + ppv[i as int].1.name + ": "@
                + ppv[i as int].1.schema_type + sig_params_s(ppv.skip(i as int).drop_first()));
            assert((before + piece@) + sig_params_s(ppv.skip(i + 1)) =~= before + (piece@
                + sig_params_s(ppv.skip(i + 1))));
        }
        i = i + 1;
    }
    proof {
        assert(ppv.skip(n as int) =~= Seq::<(Seq<char>, crate::analyzer::ParameterDefV)>::empty());
    }
    out
}

/// The URL format text of a parsed path.
fn write_url_format(path: &Vec<crate::SegmentOrParameter>, i: usize) -> (r: String)
    requires
        i <= path.len(),
    ensures
        r@ == url_format_s(crate::analyzer::seg_list_view(path@).skip(i as int)),
    decreases path.len() - i,
{
    let ghost pv = crate::analyzer::seg_list_view(path@);
    if i == path.len() {
        proof {
            assert(pv.skip(i as int) =~= Seq::<SegmentOrParameterV>::empty());
        }
        return String::new();
    }
    proof {
        assert(pv.skip(i as int)[0] == pv[i as int]);
        assert(pv.skip(i as int).drop_first() =~= pv.skip(i + 1));
    }
    let piece: String = match &path[i] {
        crate::SegmentOrParameter::Segment(s) => {
            if s.as_str().is_empty() {
                proof {
                    assert(pv[i as int]->Segment_0 =~= Seq::<char>::empty());
                }
                "/".to_owned()
            } else {
                s.clone()
            }
        },
        crate::SegmentOrParameter::Parameter(_) => "{}".to_owned(),
    };
    let rest = write_url_format(path, i + 1);
    piece.concat(rest.as_str())
}

/// The URL format arguments of an operation.
fn write_url_args(d: &OperationDef) -> (r: String)
    ensures
        r@ == url_args_s(path_params_rec(d@.path, d@.parameters)),
{
    let pp = d.path_params();
    let ghost ppv = path_params_rec(d@.path, d@.parameters);
    let n = pp.len();
    let mut out = String::new();
    proof {
        assert(ppv.skip(0) =~= ppv);
        assert(out@ + url_args_s(ppv) =~= url_args_s(ppv));
    }
    let mut i: usize = 0;
    while i < n
        invariant
            n == pp.len(),
            i <= n,
            ppv == path_params_rec(d@.path, d@.parameters),
            ppv.len() == n,
            forall|j: int|
                0 <= j < n ==> #[trigger] pp@[j].0@ == ppv[j].0 && pp@[j].1@ == ppv[j].1,
            out@ + url_args_s(ppv.skip(i as int)) == url_args_s(ppv),
        decreases n - i,
    {
        proof {
            assert(ppv.skip(i as int)[0] == ppv[i as int]);
            assert(ppv.skip(i as int).drop_first() =~= ppv.skip(i + 1));
        }
        let ghost before = out@;
        let piece = ", ".to_owned().concat(pp[i].1.name.as_str());
        out = out.concat(piece.as_str());
        proof {
            assert(pp@[i as int].0@ == ppv[i as int].0);
            assert(pp@[i as int].1@ == ppv[i as int].1);
            assert(piece@ == ", "@ + ppv[i as int].1.name);
            assert(url_args_s(ppv.skip(i as int)) == ", "@ + ppv[i as int].1.name + url_args_s(
                ppv.skip(i as int).drop_first(),
            ));
            assert((before + piece@) + url_args_s(ppv.skip(i + 1)) =~= before + (piece@
                + url_args_s(ppv.skip(i + 1))));
        }
        i = i + 1;
    }
    proof {
        assert(ppv.skip(n as int) =~= Seq::<(Seq<char>, crate::analyzer::ParameterDefV)>::empty());
    }
    out
}

impl<'a> ClientWriter<'a> {
    pub fn new(analysis: &'a AnalysisResult) -> (r: ClientWriter<'a>)
        ensures
            r.analysis == analysis,
    {
        ClientWriter { analysis }
    }

    /// The method signature shared by the client and handler traits.
    pub fn write_operation_function_signature(o: &OperationDef) -> (r: String)
        ensures
            r@ == signature_s(o@),
    {
        let params = write_sig_params(o);
        let head = "async fn ".to_owned().concat(o.name.as_str()).concat("(&self").concat(
            params.as_str(),
        );
        let head = match &o.request_body {
            Some(t) => head.concat(", body: ").concat(t.as_str()),
            None => head,
        };
        head.concat(") -> Result<").concat(o.response.as_str()).concat(", Self::Error>")
    }

    /// The client module: the capability trait, the unexpected-response
    /// record, and the `awc` implementation.
    pub fn write(&self) -> (r: Result<String, ClientWriterError>)
        ensures
            match r {
                Ok(t) => match operations_s(
                    self.analysis.spec@,
                    collected_view(self.analysis.schemas@),
                    self.analysis.spec@.paths,
                    ANALYZE_FUEL as nat,
                ) {
                    Some(ops) => client_output_s(ops) == Some(t@),
                    None => false,
                },
                Err(_) => match operations_s(
                    self.analysis.spec@,
                    collected_view(self.analysis.schemas@),
                    self.analysis.spec@.paths,
                    ANALYZE_FUEL as nat,
                ) {
                    Some(ops) => client_output_s(ops) is None,
                    None => true,
                },
            },
    {
        let ops = match self.analysis.operations() {
            Ok(o) => o,
            Err(_) => {
                return Err(ClientWriterError::Naming);
            },
        };
        proof {
            assert(op_defs_view(ops@).skip(0) =~= op_defs_view(ops@));
        }
        let methods = match write_awc_methods(&ops, 0) {
            Some(m) => m,
            None => {
                return Err(ClientWriterError::Status);
            },
        };
        let traits = write_trait_methods(&ops, 0);
        let out =
            "#[async_trait::async_trait(?Send)]\npub trait Client {\n    type Error;\n\n".to_owned();
        let out = out.concat(traits.as_str()).concat("}\n\n").concat(unexpected_text().as_str());
        let out = out.concat(
            "pub struct AwcClient {\n    c: awc::Client,\n    base_url: String,\n}\n\nimpl AwcClient {\n    pub fn new(c: &awc::Client, base_url: &str) -> Self {\n        Self {\n            c: c.clone(),\n            base_url: base_url.to_owned(),\n        }\n    }\n}\n\n#[async_trait::async_trait(?Send)]\nimpl Client for AwcClient {\n    type Error = Box<dyn std::error::Error>;\n\n",
        );
        let out = out.concat(methods.as_str()).concat("}\n");
        Ok(out)
    }
}

/// The fixed unexpected-response record as text.
fn unexpected_text() -> (r: String)
    ensures
        r@ == unexpected_response_s(),
{
    "#[derive(Debug, Clone)]\npub struct UnexpectedResponse {\n    method: String,\n    url: String,\n    status_code: u16,\n}\n\nimpl std::fmt::Display for UnexpectedResponse {\n    fn fmt(&self, f: &mut std::fmt::Formatter<'_>) -> std::fmt::Result {\n        write!(\n            f,\n            \"unexpected status code {} from {} {}\",\n            self.status_code, self.method, self.url\n        )\n    }\n}\n\nimpl std::error::Error for UnexpectedResponse {}\n\n".to_owned()
}

/// The trait method lines.
pub(crate) fn write_trait_methods(ops: &Vec<OperationDef>, i: usize) -> (r: String)
    requires
        i <= ops.len(),
    ensures
        r@ == trait_methods_s(op_defs_view(ops@).skip(i as int)),
    decreases ops.len() - i,
{
    let ghost ov = op_defs_view(ops@);
    if i == ops.len() {
        proof {
            assert(ov.skip(i as int) =~= Seq::<OperationDefV>::empty());
        }
        return String::new();
    }
    proof {
        assert(ov.skip(i as int)[0] == ov[i as int]);
        assert(ov.skip(i as int).drop_first() =~= ov.skip(i + 1));
    }
    let sig = ClientWriter::write_operation_function_signature(&ops[i]);
    let line = "    ".to_owned().concat(sig.as_str()).concat(";\n");
    let rest = write_trait_methods(ops, i + 1);
    line.concat(rest.as_str())
}

/// The response match arms of one operation, from index `i` on.
fn write_response_arms(d: &OperationDef, i: usize) -> (r: Option<String>)
    requires
        i <= d.responses.len(),
    ensures
        match r {
            Some(t) => response_arms_s(
                d@,
                crate::analyzer::responses_map_view(d.responses@).skip(i as int),
            ) == Some(t@),
            None => response_arms_s(
                d@,
                crate::analyzer::responses_map_view(d.responses@).skip(i as int),
            ) is None,
        },
    decreases d.responses.len() - i,
{
    let ghost rv = crate::analyzer::responses_map_view(d.responses@);
    if i == d.responses.len() {
        proof {
            assert(rv.skip(i as int) =~= Seq::<(Seq<char>, Option<Seq<char>>)>::empty());
        }
        return Some(String::new());
    }
    proof {
        assert(rv.skip(i as int)[0] == rv[i as int]);
        assert(rv.skip(i as int).drop_first() =~= rv.skip(i + 1));
    }
    let status = &d.responses[i].0;
    let arm_value: String = match parse_u16(status.as_str()) {
        Some(_) => status.clone(),
        None => {
            if str_eq(status.as_str(), "default") {
                "_".to_owned()
            } else {
                return None;
            }
        },
    };
    let arm_body: String = if d.responses.len() == 1 {
        if str_eq(d.response.as_str(), "()") {
            "Ok(())".to_owned()
        } else {
            "{\n                let body: ".to_owned().concat(d.response.as_str()).concat(
                " = res.json().await?;\n                Ok(body)\n            }",
            )
        }
    } else {
        match &d.responses[i].1 {
            Some(t) => "{\n                let body: ".to_owned().concat(t.as_str()).concat(
                " = res.json().await?;\n                Ok(",
            ).concat(d.response.as_str()).concat("::S").concat(status.as_str()).concat(
                "(body))\n            }",
            ),
            None => "Ok(".to_owned().concat(d.response.as_str()).concat("::S").concat(
                status.as_str(),
            ).concat(")"),
        }
    };
    let line = "            ".to_owned().concat(arm_value.as_str()).concat(" => ").concat(
        arm_body.as_str(),
    ).concat(",\n");
    match write_response_arms(d, i + 1) {
        Some(rest) => Some(line.concat(rest.as_str())),
        None => None,
    }
}

/// The generated client methods, from index `i` on.
fn write_awc_methods(ops: &Vec<OperationDef>, i: usize) -> (r: Option<String>)
    requires
        i <= ops.len(),
    ensures
        match r {
            Some(t) => awc_methods_s(op_defs_view(ops@).skip(i as int)) == Some(t@),
            None => awc_methods_s(op_defs_view(ops@).skip(i as int)) is None,
        },
    decreases ops.len() - i,
{
    let ghost ov = op_defs_view(ops@);
    if i == ops.len() {
        proof {
            assert(ov.skip(i as int) =~= Seq::<OperationDefV>::empty());
        }
        return Some(String::new());
    }
    proof {
        assert(ov.skip(i as int)[0] == ov[i as int]);
        assert(ov.skip(i as int).drop_first() =~= ov.skip(i + 1));
        assert(crate::analyzer::responses_map_view(ops@[i as int].responses@).skip(0)
            =~= crate::analyzer::responses_map_view(ops@[i as int].responses@));
    }
    let d = &ops[i];
    let arms = match write_response_arms(d, 0) {
        Some(a) => a,
        None => {
            return None;
        },
    };
    let fmt = write_url_format(&d.path, 0);
    proof {
        assert(crate::analyzer::seg_list_view(d.path@).skip(0) =~= crate::analyzer::seg_list_view(
            d.path@,
        ));
    }
    let args = write_url_args(d);
    let body = "        let method = ".to_owned().concat(awc_method_text(d.method)).concat(
        ";\n        let url = format!(\"{}",
    ).concat(fmt.as_str()).concat("\", self.base_url").concat(args.as_str()).concat(
        ");\n        let ",
    );
    let body = if d.has_any_response_body() {
        body.concat("mut ")
    } else {
        body
    };
    let body = body.concat("res = self.c.request(method.clone(), url.clone()).");
    let body = match &d.request_body {
        Some(_) => body.concat("send_json(&body)"),
        None => body.concat("send()"),
    };
    let body = body.concat(".await?;\n        match res.status().as_u16() {\n").concat(
        arms.as_str(),
    );
    let body = if d.has_default_response() {
        body
    } else {
        body.concat(wildcard_text().as_str())
    };
    let body = body.concat("        }\n");
    let sig = ClientWriter::write_operation_function_signature(d);
    let method_text = "    ".to_owned().concat(sig.as_str()).concat(" {\n").concat(
        body.as_str(),
    ).concat("    }\n");
    match write_awc_methods(ops, i + 1) {
        Some(rest) => Some(method_text.concat(rest.as_str())),
        None => None,
    }
}

/// The fallback arm as text.
fn wildcard_text() -> (r: String)
    ensures
        r@ == wildcard_arm_s(),
{
    "            _ => Err(Box::new(UnexpectedResponse {\n                method: method.to_string(),\n                url: url.to_owned(),\n                status_code: res.status().as_u16(),\n            })),\n".to_owned()
}

} // verus!
