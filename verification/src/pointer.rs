//! JSON pointers: token sequences naming a location in a JSON document,
//! with the RFC 6901 text form (`~0`/`~1` escaping) for printing and for
//! reading `$ref` strings.

use vstd::prelude::*;

use crate::chars::{push_char, str_eq};

verus! {

/// A JSON pointer as its sequence of reference tokens, unescaped.
#[derive(Debug, Clone, PartialEq, Eq)]
pub struct Pointer {
    pub tokens: Vec<String>,
}

impl View for Pointer {
    type V = Seq<Seq<char>>;

    open spec fn view(&self) -> Seq<Seq<char>> {
        self.tokens.deep_view()
    }
}

/// One token in escaped text form: `~` as `~0` and `/` as `~1`.
pub open spec fn escape_token(t: Seq<char>) -> Seq<char>
    decreases t.len(),
{
    if t.len() == 0 {
        Seq::empty()
    } else {
        escape_token(t.drop_last()) + (if t.last() == '~' {
            seq!['~', '0']
        } else if t.last() == '/' {
            seq!['~', '1']
        } else {
            seq![t.last()]
        })
    }
}

/// The text form of a pointer: each token escaped and preceded by `/`.
pub open spec fn pointer_text(toks: Seq<Seq<char>>) -> Seq<char>
    decreases toks.len(),
{
    if toks.len() == 0 {
        Seq::empty()
    } else {
        pointer_text(toks.drop_last()) + seq!['/'] + escape_token(toks.last())
    }
}

impl Pointer {
    /// The root pointer, with no tokens.
    pub fn root() -> (r: Pointer)
        ensures
            r@ == Seq::<Seq<char>>::empty(),
    {
        let r = Pointer { tokens: Vec::new() };
        proof {
            assert(r@ =~= Seq::<Seq<char>>::empty());
        }
        r
    }

    pub open spec fn spec_len(&self) -> nat {
        self@.len()
    }

    pub fn len(&self) -> (r: usize)
        ensures
            r == self@.len(),
    {
        self.tokens.len()
    }

    /// The token at an index.
    pub fn token(&self, i: usize) -> (r: &String)
        requires
            i < self@.len(),
        ensures
            r@ == self@[i as int],
    {
        &self.tokens[i]
    }

    /// Appends one reference token.
    pub fn push_back(&mut self, token: String)
        ensures
            final(self)@ == old(self)@ + seq![token@],
    {
        self.tokens.push(token);
        proof {
            assert(self@ =~= old(self)@ + seq![token@]);
        }
    }

    /// A copy with the same tokens.
    pub fn duplicate(&self) -> (r: Pointer)
        ensures
            r@ == self@,
    {
        let mut tokens: Vec<String> = Vec::new();
        let n = self.tokens.len();
        let mut i: usize = 0;
        while i < n
            invariant
                n == self.tokens.len(),
                i <= n,
                tokens@.len() == i,
                forall|j: int| 0 <= j < i ==> tokens@[j]@ == self.tokens@[j]@,
            decreases n - i,
        {
            tokens.push(self.tokens[i].clone());
            i = i + 1;
        }
        let r = Pointer { tokens };
        proof {
            assert forall|j: int| 0 <= j < n implies r@[j] == self@[j] by {
                assert(r@[j] == tokens@[j]@);
                assert(self@[j] == self.tokens@[j]@);
            }
            assert(r@ =~= self@);
        }
        r
    }

    /// A copy of the first `n` tokens.
    pub fn prefix(&self, n: usize) -> (r: Pointer)
        requires
            n <= self@.len(),
        ensures
            r@ == self@.take(n as int),
    {
        let mut tokens: Vec<String> = Vec::new();
        let mut i: usize = 0;
        while i < n
            invariant
                n <= self.tokens.len(),
                i <= n,
                tokens@.len() == i,
                forall|j: int| 0 <= j < i ==> tokens@[j]@ == self.tokens@[j]@,
            decreases n - i,
        {
            tokens.push(self.tokens[i].clone());
            i = i + 1;
        }
        let r = Pointer { tokens };
        proof {
            assert forall|j: int| 0 <= j < n implies r@[j] == self@.take(n as int)[j] by {
                assert(r@[j] == tokens@[j]@);
                assert(self@[j] == self.tokens@[j]@);
            }
            assert(r@ =~= self@.take(n as int));
        }
        r
    }

    /// A copy extended by one token.
    pub fn join(&self, token: &str) -> (r: Pointer)
        ensures
            r@ == self@ + seq![token@],
    {
        let mut r = self.duplicate();
        r.push_back(token.to_owned());
        r
    }

    /// Whether two pointers name the same location.
    pub fn same_as(&self, other: &Pointer) -> (r: bool)
        ensures
            r == (self@ == other@),
    {
        let n = self.tokens.len();
        if n != other.tokens.len() {
            proof {
                assert(self@.len() == n);
                assert(other@.len() == other.tokens.len());
            }
            return false;
        }
        let mut i: usize = 0;
        while i < n
            invariant
                n == self.tokens.len(),
                n == other.tokens.len(),
                i <= n,
                forall|j: int| 0 <= j < i ==> self@[j] == other@[j],
            decreases n - i,
        {
            if !str_eq(self.tokens[i].as_str(), other.tokens[i].as_str()) {
                proof {
                    assert(self@[i as int] != other@[i as int]);
                }
                return false;
            }
            i = i + 1;
        }
        proof {
            assert(self@ =~= other@);
        }
        true
    }

    /// The RFC 6901 text form of this pointer.
    pub fn to_text(&self) -> (r: String)
        ensures
            r@ == pointer_text(self@),
    {
        let mut out = String::new();
        let n = self.tokens.len();
        let mut i: usize = 0;
        while i < n
            invariant
                n == self.tokens.len(),
                i <= n,
                out@ == pointer_text(self@.take(i as int)),
            decreases n - i,
        {
            out.append("/");
            proof {
                reveal_strlit("/");
                assert("/"@ =~= seq!['/']);
            }
            let t = self.tokens[i].as_str();
            let m = t.unicode_len();
            let mut j: usize = 0;
            while j < m
                invariant
                    m == t@.len(),
                    j <= m,
                    out@ == pointer_text(self@.take(i as int)) + seq!['/'] + escape_token(
                        t@.take(j as int),
                    ),
                decreases m - j,
            {
                let c = t.get_char(j);
                if c == '~' {
                    push_char(&mut out, '~');
                    push_char(&mut out, '0');
                } else if c == '/' {
                    push_char(&mut out, '~');
                    push_char(&mut out, '1');
                }  else {
                    push_char(&mut out, c);
                }
                proof {
                    assert(t@.take(j + 1).drop_last() =~= t@.take(j as int));
                    assert(t@.take(j + 1).last() == t@[j as int]);
                }
                j = j + 1;
            }
            proof {
                assert(t@.take(m as int) =~= t@);
                assert(self@.take(i + 1).drop_last() =~= self@.take(i as int));
                assert(self@.take(i + 1).last() == self@[i as int]);
                assert(self@[i as int] == t@);
            }
            i = i + 1;
        }
        proof {
            assert(self@.take(n as int) =~= self@);
        }
        out
    }
}

/// One unescaped token read from escaped text; `None` on a stray `~`.
pub open spec fn unescape_token(t: Seq<char>) -> Option<Seq<char>>
    decreases t.len(),
{
    if t.len() == 0 {
        Some(Seq::empty())
    } else if t[0] == '~' {
        if t.len() >= 2 && t[1] == '0' {
            match unescape_token(t.skip(2)) {
                Some(r) => Some(seq!['~'] + r),
                None => None,
            }
        } else if t.len() >= 2 && t[1] == '1' {
            match unescape_token(t.skip(2)) {
                Some(r) => Some(seq!['/'] + r),
                None => None,
            }
        } else {
            None
        }
    } else {
        match unescape_token(t.drop_first()) {
            Some(r) => Some(seq![t[0]] + r),
            None => None,
        }
    }
}

/// Index of the first `/` in a sequence, or its length when there is none.
pub open spec fn find_slash(s: Seq<char>) -> int
    decreases s.len(),
{
    if s.len() == 0 {
        0
    } else if s[0] == '/' {
        0
    } else {
        1 + find_slash(s.drop_first())
    }
}

pub proof fn lemma_find_slash_bounds(s: Seq<char>)
    ensures
        0 <= find_slash(s) <= s.len(),
        forall|j: int| 0 <= j < find_slash(s) ==> s[j] != '/',
        find_slash(s) < s.len() ==> s[find_slash(s)] == '/',
    decreases s.len(),
{
    if s.len() > 0 && s[0] != '/' {
        lemma_find_slash_bounds(s.drop_first());
        assert forall|j: int| 0 <= j < find_slash(s) implies s[j] != '/' by {
            if j > 0 {
                assert(s.drop_first()[j - 1] == s[j]);
            }
        }
    }
}

/// The token list read from the text after the leading `/`.
pub open spec fn parse_rest(s: Seq<char>) -> Option<Seq<Seq<char>>>
    decreases s.len(),
    via parse_rest_decreases
{
    let k = find_slash(s);
    match unescape_token(s.take(k)) {
        None => None,
        Some(t) => {
            if k == s.len() {
                Some(seq![t])
            } else {
                match parse_rest(s.skip(k + 1)) {
                    Some(r) => Some(seq![t] + r),
                    None => None,
                }
            }
        },
    }
}

#[via_fn]
proof fn parse_rest_decreases(s: Seq<char>) {
    lemma_find_slash_bounds(s);
}

/// The token list of a pointer text: empty for the empty text, else a `/`
/// followed by `/`-separated escaped tokens. A leading `#`, as in a `$ref`
/// URI fragment, is accepted and dropped.
pub open spec fn parse_pointer_text(s: Seq<char>) -> Option<Seq<Seq<char>>> {
    let body = if s.len() > 0 && s[0] == '#' {
        s.drop_first()
    } else {
        s
    };
    if body.len() == 0 {
        Some(Seq::empty())
    } else if body[0] == '/' {
        parse_rest(body.drop_first())
    } else {
        None
    }
}

impl Pointer {
    /// Reads a pointer from its text form.
    pub fn parse(s: &str) -> (r: Option<Pointer>)
        ensures
            match r {
                Some(p) => parse_pointer_text(s@) == Some(p@),
                None => parse_pointer_text(s@) is None,
            },
    {
        let n = s.unicode_len();
        let body = if n > 0 && s.get_char(0) == '#' {
            s.substring_char(1, n)
        } else {
            s
        };
        proof {
            if n > 0 && s@[0] == '#' {
                assert(body@ =~= s@.drop_first());
            }
        }
        let bn = body.unicode_len();
        if bn == 0 {
            return Some(Pointer::root());
        }
        if body.get_char(0) != '/' {
            return None;
        }
        let rest = body.substring_char(1, bn);
        proof {
            assert(rest@ =~= body@.drop_first());
        }
        match Self::parse_rest_exec(rest) {
            Some(tokens) => {
                let r = Pointer { tokens };
                Some(r)
            },
            None => None,
        }
    }

    fn parse_rest_exec(s: &str) -> (r: Option<Vec<String>>)
        ensures
            match r {
                Some(toks) => parse_rest(s@) == Some(toks.deep_view()),
                None => parse_rest(s@) is None,
            },
        decreases s@.len(),
    {
        let n = s.unicode_len();
        let mut k: usize = 0;
        while k < n && s.get_char(k) != '/'
            invariant
                n == s@.len(),
                k <= n,
                forall|j: int| 0 <= j < k ==> s@[j] != '/',
            decreases n - k,
        {
            k = k + 1;
        }
        proof {
            lemma_find_first_slash(s@, k as int);
        }
        let tok_text = s.substring_char(0, k);
        proof {
            assert(tok_text@ =~= s@.take(k as int));
        }
        let t = match Self::unescape_exec(tok_text) {
            Some(t) => t,
            None => {
                return None;
            },
        };
        if k == n {
            let ghost tv = t@;
            let mut toks: Vec<String> = Vec::new();
            toks.push(t);
            proof {
                assert(toks.deep_view()[0] == toks@[0]@);
                assert(toks.deep_view() =~= seq![tv]);
            }
            Some(toks)
        } else {
            let rest = s.substring_char(k + 1, n);
            proof {
                assert(rest@ =~= s@.skip(k + 1));
            }
            match Self::parse_rest_exec(rest) {
                Some(more) => {
                    let ghost tv = t@;
                    let mut toks: Vec<String> = Vec::new();
                    toks.push(t);
                    let mut i: usize = 0;
                    while i < more.len()
                        invariant
                            i <= more.len(),
                            toks@.len() == i + 1,
                            toks@[0]@ == tv,
                            forall|j: int| 1 <= j < i + 1 ==> toks@[j]@ == more@[j - 1]@,
                        decreases more.len() - i,
                    {
                        toks.push(more[i].clone());
                        i = i + 1;
                    }
                    proof {
                        assert forall|j: int| 0 <= j < toks@.len() implies toks.deep_view()[j]
                            == (seq![tv] + more.deep_view())[j] by {
                            assert(toks.deep_view()[j] == toks@[j]@);
                            if j > 0 {
                                assert(more.deep_view()[j - 1] == more@[j - 1]@);
                            }
                        }
                        assert(toks.deep_view() =~= seq![tv] + more.deep_view());
                    }
                    Some(toks)
                },
                None => None,
            }
        }
    }

    fn unescape_exec(s: &str) -> (r: Option<String>)
        ensures
            match r {
                Some(t) => unescape_token(s@) == Some(t@),
                None => unescape_token(s@) is None,
            },
        decreases s@.len(),
    {
        let n = s.unicode_len();
        if n == 0 {
            return Some(String::new());
        }
        let c = s.get_char(0);
        if c == '~' {
            if n >= 2 && s.get_char(1) == '0' {
                let rest = s.substring_char(2, n);
                proof {
                    assert(rest@ =~= s@.skip(2));
                }
                match Self::unescape_exec(rest) {
                    Some(r) => {
                        let mut out = String::new();
                        push_char(&mut out, '~');
                        let out2 = out.concat(r.as_str());
                        proof {
                            assert(out2@ =~= seq!['~'] + r@);
                        }
                        Some(out2)
                    },
                    None => None,
                }
            } else if n >= 2 && s.get_char(1) == '1' {
                let rest = s.substring_char(2, n);
                proof {
                    assert(rest@ =~= s@.skip(2));
                }
                match Self::unescape_exec(rest) {
                    Some(r) => {
                        let mut out = String::new();
                        push_char(&mut out, '/');
                        let out2 = out.concat(r.as_str());
                        proof {
                            assert(out2@ =~= seq!['/'] + r@);
                        }
                        Some(out2)
                    },
                    None => None,
                }
            } else {
                None
            }
        } else {
            let rest = s.substring_char(1, n);
            proof {
                assert(rest@ =~= s@.drop_first());
            }
            match Self::unescape_exec(rest) {
                Some(r) => {
                    let mut out = String::new();
                    push_char(&mut out, c);
                    let out2 = out.concat(r.as_str());
                    proof {
                        assert(out2@ =~= seq![s@[0]] + r@);
                    }
                    Some(out2)
                },
                None => None,
            }
        }
    }
}

/// A scan that stopped at the first `/`, or at the end, found [`find_slash`].
pub proof fn lemma_find_first_slash(s: Seq<char>, k: int)
    requires
        0 <= k <= s.len(),
        forall|j: int| 0 <= j < k ==> s[j] != '/',
        k < s.len() ==> s[k] == '/',
    ensures
        find_slash(s) == k,
    decreases s.len(),
{
    if s.len() > 0 && s[0] != '/' {
        let t = s.drop_first();
        assert forall|j: int| 0 <= j < k - 1 implies t[j] != '/' by {
            assert(t[j] == s[j + 1]);
        }
        if k - 1 < t.len() {
            assert(t[k - 1] == s[k]);
        }
        lemma_find_first_slash(t, k - 1);
    }
}

} // verus!
