//! The renamer: a deterministic map from locations in the document to
//! target-language identifiers, for operations, components, properties,
//! array items and composite branches.

use vstd::prelude::*;

use crate::case::{pascal_of, snake_of, to_pascal, to_snake};
use crate::chars::{
    exec_is_ascii_alnum, exec_is_ascii_digit, exec_upper_char, is_ascii_alnum, is_ascii_digit,
    push_char, str_eq, upper_char,
};
use crate::model::{vassoc, Method, OperationV, Spec, SpecV};
use crate::pointer::{find_slash, lemma_find_slash_bounds, Pointer};

verus! {

/// The characters of a name with everything but ASCII letters and digits
/// dropped.
pub open spec fn keep_alnum(s: Seq<char>) -> Seq<char>
    decreases s.len(),
{
    if s.len() == 0 {
        Seq::empty()
    } else {
        keep_alnum(s.drop_last()) + (if is_ascii_alnum(s.last()) {
            seq![s.last()]
        } else {
            Seq::empty()
        })
    }
}

/// A component name as an identifier: Pascal case, alphanumerics only.
pub open spec fn filtered_pascal(s: Seq<char>) -> Seq<char> {
    keep_alnum(pascal_of(s))
}

/// Drops a single level of braces around a path segment, turning a
/// placeholder into its parameter name.
pub open spec fn unwrap_braces(seg: Seq<char>) -> Seq<char> {
    if seg.len() >= 2 && seg[0] == '{' && seg.last() == '}' {
        seg.subrange(1, seg.len() - 1)
    } else {
        seg
    }
}

/// The segment with its first character upper-cased and the rest kept.
pub open spec fn cap_first(seg: Seq<char>) -> Seq<char> {
    if seg.len() == 0 {
        Seq::empty()
    } else {
        seq![upper_char(seg[0])] + seg.drop_first()
    }
}

/// The segments of a path pattern, split on `/`.
pub open spec fn split_slash(s: Seq<char>) -> Seq<Seq<char>>
    decreases s.len(),
    via split_slash_decreases
{
    let k = find_slash(s);
    if k == s.len() {
        seq![s]
    } else {
        seq![s.take(k)] + split_slash(s.skip(k + 1))
    }
}

#[via_fn]
proof fn split_slash_decreases(s: Seq<char>) {
    lemma_find_slash_bounds(s);
}

/// Each segment unwrapped and capitalized, concatenated.
pub open spec fn cat_segs(segs: Seq<Seq<char>>) -> Seq<char>
    decreases segs.len(),
{
    if segs.len() == 0 {
        Seq::empty()
    } else {
        cap_first(unwrap_braces(segs[0])) + cat_segs(segs.drop_first())
    }
}

/// The operation name synthesized from a path pattern and a method token.
pub open spec fn synth_operation_name(path_tok: Seq<char>, m_tok: Seq<char>) -> Seq<char> {
    pascal_of(m_tok) + pascal_of(cat_segs(split_slash(path_tok)))
}

/// The first operation under a path item with the given method token.
pub open spec fn find_op(ops: Seq<(Method, OperationV)>, m_tok: Seq<char>) -> Option<OperationV>
    decreases ops.len(),
{
    if ops.len() == 0 {
        None
    } else if ops[0].0.spec_token() == m_tok {
        Some(ops[0].1)
    } else {
        find_op(ops.drop_first(), m_tok)
    }
}

/// The operation at `/paths/<pattern>/<method>`, when the document has it.
pub open spec fn op_lookup(spec: SpecV, path_tok: Seq<char>, m_tok: Seq<char>) -> Option<
    OperationV,
> {
    match vassoc(spec.paths, path_tok) {
        Some(item) => find_op(item.ops, m_tok),
        None => None,
    }
}

/// The name of the operation at a `/paths/<pattern>/<method>` pointer:
/// its `operationId` in Pascal case when it declares one, else the name
/// synthesized from method and path. `None` when the pointer does not
/// start with `paths` or is too short.
pub open spec fn operation_name_of(spec: SpecV, ptr: Seq<Seq<char>>) -> Option<Seq<char>> {
    if ptr.len() >= 3 && ptr[0] == "paths"@ {
        Some(
            match op_lookup(spec, ptr[1], ptr[2]) {
                Some(op) => match op.operation_id {
                    Some(id) => pascal_of(id),
                    None => synth_operation_name(ptr[1], ptr[2]),
                },
                None => synth_operation_name(ptr[1], ptr[2]),
            },
        )
    } else {
        None
    }
}

/// Whether a token is one of the composite keywords.
pub open spec fn is_composite_token(s: Seq<char>) -> bool {
    s == "anyOf"@ || s == "allOf"@ || s == "oneOf"@
}

/// Whether a token is a non-empty run of decimal digits.
pub open spec fn all_digits(s: Seq<char>) -> bool {
    s.len() > 0 && forall|i: int| 0 <= i < s.len() ==> is_ascii_digit(#[trigger] s[i])
}

/// The type name at a pointer. The shapes are tried in a fixed order:
/// component schemas, request bodies, parameters and responses; operation
/// request bodies, parameters and responses; then, recursively on the
/// parent pointer, properties, array items and composite branches.
pub open spec fn type_name_of(spec: SpecV, ptr: Seq<Seq<char>>) -> Option<Seq<char>>
    decreases ptr.len(),
{
    let n = ptr.len() as int;
    if n == 3 && ptr[0] == "components"@ && ptr[1] == "schemas"@ {
        Some(filtered_pascal(ptr[2]))
    } else if n == 6 && ptr[0] == "components"@ && ptr[1] == "requestBodies"@ && ptr[3]
        == "content"@ && ptr[5] == "schema"@ {
        Some(filtered_pascal(ptr[2]))
    } else if n == 4 && ptr[0] == "components"@ && ptr[1] == "parameters"@ && ptr[3]
        == "schema"@ {
        Some(filtered_pascal(ptr[2]))
    } else if n == 6 && ptr[0] == "components"@ && ptr[1] == "responses"@ && ptr[3] == "content"@
        && ptr[5] == "schema"@ {
        Some(filtered_pascal(ptr[2]))
    } else if n == 7 && ptr[0] == "paths"@ && ptr[3] == "requestBody"@ && ptr[4] == "content"@
        && ptr[6] == "schema"@ {
        match operation_name_of(spec, ptr) {
            Some(op) => Some(op + "Request"@),
            None => None,
        }
    } else if n == 6 && ptr[0] == "paths"@ && ptr[3] == "parameters"@ && ptr[5] == "schema"@ {
        match operation_name_of(spec, ptr) {
            Some(op) => Some(op + "Parameter"@ + ptr[4]),
            None => None,
        }
    } else if n == 8 && ptr[0] == "paths"@ && ptr[3] == "responses"@ && ptr[5] == "content"@
        && ptr[7] == "schema"@ {
        match operation_name_of(spec, ptr) {
            Some(op) => Some(op + "Response"@ + ptr[4]),
            None => None,
        }
    } else if n >= 2 && ptr[n - 2] == "properties"@ {
        match type_name_of(spec, ptr.take(n - 2)) {
            Some(parent) => Some(parent + pascal_of(ptr[n - 1])),
            None => None,
        }
    } else if n >= 1 && ptr[n - 1] == "items"@ {
        match type_name_of(spec, ptr.take(n - 1)) {
            Some(parent) => Some(parent + "Item"@),
            None => None,
        }
    } else if n >= 2 && is_composite_token(ptr[n - 2]) && all_digits(ptr[n - 1]) {
        match type_name_of(spec, ptr.take(n - 2)) {
            Some(parent) => Some(parent + "V"@ + ptr[n - 1]),
            None => None,
        }
    } else {
        None
    }
}

/// A source of identifiers for generated code. The default naming is
/// [`DefaultRenamer`]; an implementation may name things differently.
pub trait Renamer {
    /// The identifier for the type at a pointer, when the pointer has a
    /// recognised shape.
    fn name_type(&self, spec: &Spec, ptr: &Pointer) -> Option<String>;

    /// The Pascal-case identifier for the operation at a pointer under
    /// `paths`.
    fn name_operation(&self, spec: &Spec, ptr: &Pointer) -> Option<String>;

    /// The field identifier for a property name.
    fn name_property(&self, name: &str) -> String;

    /// The binding identifier for a parameter name.
    fn name_parameter(&self, name: &str) -> String;
}

/// The pointer-shape naming convention described by the generator.
#[derive(Debug, Clone, Copy, PartialEq, Eq, Structural, Default)]
pub struct DefaultRenamer {}

fn keep_alnum_str(s: &str) -> (r: String)
    ensures
        r@ == keep_alnum(s@),
{
    let n = s.unicode_len();
    let mut out = String::new();
    let mut i: usize = 0;
    while i < n
        invariant
            n == s@.len(),
            i <= n,
            out@ == keep_alnum(s@.take(i as int)),
        decreases n - i,
    {
        let c = s.get_char(i);
        if exec_is_ascii_alnum(c) {
            push_char(&mut out, c);
        }
        proof {
            assert(s@.take(i + 1).drop_last() =~= s@.take(i as int));
            assert(s@.take(i + 1).last() == s@[i as int]);
        }
        i = i + 1;
    }
    proof {
        assert(s@.take(n as int) =~= s@);
    }
    out
}

/// The segment with braces dropped and its first character capitalized.
fn cap_unwrap(seg: &str) -> (r: String)
    ensures
        r@ == cap_first(unwrap_braces(seg@)),
{
    let n = seg.unicode_len();
    let inner = if n >= 2 && seg.get_char(0) == '{' && seg.get_char(n - 1) == '}' {
        let s = seg.substring_char(1, n - 1);
        proof {
            assert(s@ =~= unwrap_braces(seg@));
        }
        s
    } else {
        seg
    };
    let m = inner.unicode_len();
    if m == 0 {
        return String::new();
    }
    let mut out = String::new();
    push_char(&mut out, exec_upper_char(inner.get_char(0)));
    let rest = inner.substring_char(1, m);
    let r = out.concat(rest);
    proof {
        assert(rest@ =~= inner@.drop_first());
        assert(r@ == seq![upper_char(inner@[0])] + inner@.drop_first());
    }
    r
}

/// The concatenation of the capitalized, unwrapped segments of a path.
fn cat_path_segments(s: &str) -> (r: String)
    ensures
        r@ == cat_segs(split_slash(s@)),
    decreases s@.len(),
{
    let n = s.unicode_len();
    let mut k: usize = 0;
    while k < n && s.get_char(k) != '/'
        invariant
            n == s@.len(),
            k <= n,
            forall|j: int| 0 <= j < k ==> s@[j] != '/',
        decreases n - k,
    {
        k = k + 1;
    }
    proof {
        crate::pointer::lemma_find_first_slash(s@, k as int);
    }
    let seg = s.substring_char(0, k);
    proof {
        assert(seg@ =~= s@.take(k as int));
    }
    let piece = cap_unwrap(seg);
    if k == n {
        proof {
            assert(split_slash(s@) == seq![s@]);
            assert(s@.take(k as int) =~= s@);
            assert(seq![s@].drop_first() =~= Seq::<Seq<char>>::empty());
            assert(cat_segs(seq![s@]) == cap_first(unwrap_braces(s@)) + cat_segs(
                Seq::<Seq<char>>::empty(),
            ));
            assert(cap_first(unwrap_braces(s@)) + Seq::<char>::empty() =~= cap_first(
                unwrap_braces(s@),
            ));
        }
        piece
    } else {
        let rest = s.substring_char(k + 1, n);
        proof {
            assert(rest@ =~= s@.skip(k + 1));
        }
        let rs = cat_path_segments(rest);
        let r = piece.concat(rs.as_str());
        proof {
            let segs = split_slash(s@);
            assert(segs == seq![s@.take(k as int)] + split_slash(s@.skip(k + 1)));
            assert(segs.drop_first() =~= split_slash(s@.skip(k + 1)));
            assert(cat_segs(segs) == cap_first(unwrap_braces(segs[0])) + cat_segs(
                segs.drop_first(),
            ));
        }
        r
    }
}

/// Finds the first operation in a path item with the given method token.
fn find_op_in<'a>(ops: &'a Vec<(Method, crate::model::Operation)>, m_tok: &str) -> (r: Option<
    &'a crate::model::Operation,
>)
    ensures
        match r {
            Some(op) => find_op(crate::model::ops_view(ops@), m_tok@) == Some(op@),
            None => find_op(crate::model::ops_view(ops@), m_tok@) is None,
        },
{
    let ghost opsv = crate::model::ops_view(ops@);
    proof {
        assert(opsv.skip(0) =~= opsv);
    }
    let count = ops.len();
    let mut oi: usize = 0;
    while oi < count
        invariant
            count == ops.len(),
            oi <= count,
            opsv == crate::model::ops_view(ops@),
            opsv.len() == count,
            forall|j: int| 0 <= j < count ==> #[trigger] opsv[j] == (ops@[j].0, ops@[j].1@),
            find_op(opsv, m_tok@) == find_op(opsv.skip(oi as int), m_tok@),
        decreases count - oi,
    {
        proof {
            let ms = opsv.skip(oi as int);
            assert(ms[0] == opsv[oi as int]);
            assert(ms.drop_first() =~= opsv.skip(oi + 1));
        }
        if str_eq(ops[oi].0.token(), m_tok) {
            return Some(&ops[oi].1);
        }
        oi = oi + 1;
    }
    proof {
        assert(opsv.skip(count as int) =~= Seq::<(Method, crate::model::OperationV)>::empty());
    }
    None
}

impl DefaultRenamer {
    /// The synthesized `{MethodPascal}{PathPascal}` operation name.
    fn synth_name(path_tok: &str, m_tok: &str) -> (r: String)
        ensures
            r@ == synth_operation_name(path_tok@, m_tok@),
    {
        let m = to_pascal(m_tok);
        let cat = cat_path_segments(path_tok);
        let p = to_pascal(cat.as_str());
        m.concat(p.as_str())
    }

    /// The operation name at a `/paths/<pattern>/<method>` pointer.
    pub fn operation_name(&self, spec: &Spec, ptr: &Pointer) -> (r: Option<String>)
        ensures
            match r {
                Some(s) => operation_name_of(spec@, ptr@) == Some(s@),
                None => operation_name_of(spec@, ptr@) is None,
            },
    {
        if ptr.len() < 3 || !str_eq(ptr.token(0).as_str(), "paths") {
            return None;
        }
        let path_tok = ptr.token(1);
        let m_tok = ptr.token(2);
        proof {
            crate::model::lemma_vassoc_entries(spec.paths@, path_tok@);
            crate::model::lemma_assoc_find(spec.paths@, path_tok@);
        }
        match crate::model::assoc_index(&spec.paths, path_tok.as_str()) {
            Some(pi) => {
                let item = &spec.paths[pi].1;
                proof {
                    assert(vassoc(spec@.paths, ptr@[1]) == Some(item@));
                }
                match find_op_in(&item.ops, m_tok.as_str()) {
                    Some(op) => match &op.operation_id {
                        Some(id) => Some(to_pascal(id.as_str())),
                        None => Some(Self::synth_name(path_tok.as_str(), m_tok.as_str())),
                    },
                    None => Some(Self::synth_name(path_tok.as_str(), m_tok.as_str())),
                }
            },
            None => Some(Self::synth_name(path_tok.as_str(), m_tok.as_str())),
        }
    }

    /// The type name at a pointer, following the naming convention.
    pub fn type_ident(&self, spec: &Spec, ptr: &Pointer) -> (r: Option<String>)
        ensures
            match r {
                Some(s) => type_name_of(spec@, ptr@) == Some(s@),
                None => type_name_of(spec@, ptr@) is None,
            },
        decreases ptr@.len(),
    {
        let n = ptr.len();
        if n == 3 && str_eq(ptr.token(0).as_str(), "components") && str_eq(
            ptr.token(1).as_str(),
            "schemas",
        ) {
            let p = to_pascal(ptr.token(2).as_str());
            return Some(keep_alnum_str(p.as_str()));
        }
        if n == 6 && str_eq(ptr.token(0).as_str(), "components") && str_eq(
            ptr.token(1).as_str(),
            "requestBodies",
        ) && str_eq(ptr.token(3).as_str(), "content") && str_eq(
            ptr.token(5).as_str(),
            "schema",
        ) {
            let p = to_pascal(ptr.token(2).as_str());
            return Some(keep_alnum_str(p.as_str()));
        }
        if n == 4 && str_eq(ptr.token(0).as_str(), "components") && str_eq(
            ptr.token(1).as_str(),
            "parameters",
        ) && str_eq(ptr.token(3).as_str(), "schema") {
            let p = to_pascal(ptr.token(2).as_str());
            return Some(keep_alnum_str(p.as_str()));
        }
        if n == 6 && str_eq(ptr.token(0).as_str(), "components") && str_eq(
            ptr.token(1).as_str(),
            "responses",
        ) && str_eq(ptr.token(3).as_str(), "content") && str_eq(
            ptr.token(5).as_str(),
            "schema",
        ) {
            let p = to_pascal(ptr.token(2).as_str());
            return Some(keep_alnum_str(p.as_str()));
        }
        if n == 7 && str_eq(ptr.token(0).as_str(), "paths") && str_eq(
            ptr.token(3).as_str(),
            "requestBody",
        ) && str_eq(ptr.token(4).as_str(), "content") && str_eq(
            ptr.token(6).as_str(),
            "schema",
        ) {
            return match self.operation_name(spec, ptr) {
                Some(op) => Some(op.concat("Request")),
                None => None,
            };
        }
        if n == 6 && str_eq(ptr.token(0).as_str(), "paths") && str_eq(
            ptr.token(3).as_str(),
            "parameters",
        ) && str_eq(ptr.token(5).as_str(), "schema") {
            return match self.operation_name(spec, ptr) {
                Some(op) => {
                    let withp = op.concat("Parameter");
                    Some(withp.concat(ptr.token(4).as_str()))
                },
                None => None,
            };
        }
        if n == 8 && str_eq(ptr.token(0).as_str(), "paths") && str_eq(
            ptr.token(3).as_str(),
            "responses",
        ) && str_eq(ptr.token(5).as_str(), "content") && str_eq(
            ptr.token(7).as_str(),
            "schema",
        ) {
            return match self.operation_name(spec, ptr) {
                Some(op) => {
                    let withp = op.concat("Response");
                    Some(withp.concat(ptr.token(4).as_str()))
                },
                None => None,
            };
        }
        if n >= 2 && str_eq(ptr.token(n - 2).as_str(), "properties") {
            let parent = ptr.prefix(n - 2);
            return match self.type_ident(spec, &parent) {
                Some(p) => {
                    let prop = to_pascal(ptr.token(n - 1).as_str());
                    Some(p.concat(prop.as_str()))
                },
                None => None,
            };
        }
        if n >= 1 && str_eq(ptr.token(n - 1).as_str(), "items") {
            let parent = ptr.prefix(n - 1);
            return match self.type_ident(spec, &parent) {
                Some(p) => Some(p.concat("Item")),
                None => None,
            };
        }
        if n >= 2 && (str_eq(ptr.token(n - 2).as_str(), "anyOf") || str_eq(
            ptr.token(n - 2).as_str(),
            "allOf",
        ) || str_eq(ptr.token(n - 2).as_str(), "oneOf")) {
            let idx = ptr.token(n - 1);
            let m = idx.as_str().unicode_len();
            let mut ok = m > 0;
            let mut i: usize = 0;
            while i < m
                invariant
                    m == idx@.len(),
                    i <= m,
                    ok == (m > 0 && forall|j: int|
                        0 <= j < i ==> is_ascii_digit(#[trigger] idx@[j])),
                decreases m - i,
            {
                if !exec_is_ascii_digit(idx.as_str().get_char(i)) {
                    ok = false;
                }
                i = i + 1;
            }
            if ok {
                let parent = ptr.prefix(n - 2);
                return match self.type_ident(spec, &parent) {
                    Some(p) => {
                        let withv = p.concat("V");
                        Some(withv.concat(idx.as_str()))
                    },
                    None => None,
                };
            }
            return None;
        }
        None
    }
}

impl Renamer for DefaultRenamer {
    fn name_type(&self, spec: &Spec, ptr: &Pointer) -> (r: Option<String>)
        ensures
            match r {
                Some(s) => type_name_of(spec@, ptr@) == Some(s@),
                None => type_name_of(spec@, ptr@) is None,
            },
    {
        self.type_ident(spec, ptr)
    }

    fn name_operation(&self, spec: &Spec, ptr: &Pointer) -> (r: Option<String>)
        ensures
            match r {
                Some(s) => operation_name_of(spec@, ptr@) == Some(s@),
                None => operation_name_of(spec@, ptr@) is None,
            },
    {
        self.operation_name(spec, ptr)
    }

    fn name_property(&self, name: &str) -> (r: String)
        ensures
            r@ == snake_of(name@),
    {
        to_snake(name)
    }

    fn name_parameter(&self, name: &str) -> (r: String)
        ensures
            r@ == snake_of(name@),
    {
        to_snake(name)
    }
}

} // verus!
