//! The interface parser: reads `service <Name> { rpc <Name> (<Req>) returns
//! (<Resp>); ... }` blocks out of definition text, in source order.
//!
//! The text is first cut into tokens: runs of word characters, and single
//! characters for everything else but white space. A service block starts at
//! the tokens `service <word> {` and ends at the next `}`; nested braces are
//! not supported. Inside a block, every token run
//! `rpc <word> ( <word> ) returns ( <word> )` declares one RPC. Anything else,
//! inside or outside a block, is ignored.
use crate::text::{chars_of, owned_range};
use vstd::prelude::*;
use vstd::string::*;

verus! {

/// One remote-callable method of a service.
#[derive(Debug, Clone)]
pub struct ProtoRPC {
    pub name: String,
    pub request_name: String,
    pub response_name: String,
}

/// A service and its RPCs, in declaration order.
#[derive(Debug, Clone)]
pub struct ProtoService {
    pub name: String,
    pub rpcs: Vec<ProtoRPC>,
}

/// Every service found in a set of definition files, in discovery order.
#[derive(Debug, Clone)]
pub struct ProtoData {
    pub services: Vec<ProtoService>,
}

/// An RPC as (name, request type, response type).
pub type RpcView = (Seq<char>, Seq<char>, Seq<char>);

/// A service as (name, RPCs).
pub type ServiceView = (Seq<char>, Seq<RpcView>);

impl View for ProtoRPC {
    type V = RpcView;

    open spec fn view(&self) -> RpcView {
        (self.name@, self.request_name@, self.response_name@)
    }
}

impl View for ProtoService {
    type V = ServiceView;

    open spec fn view(&self) -> ServiceView {
        (self.name@, self.rpcs@.map_values(|r: ProtoRPC| r@))
    }
}

impl View for ProtoData {
    type V = Seq<ServiceView>;

    open spec fn view(&self) -> Seq<ServiceView> {
        self.services@.map_values(|s: ProtoService| s@)
    }
}

/// A token of definition text: a run of word characters (`word`), or a
/// single other character, covering the characters from `start` up to `end`.
#[derive(Debug, Clone, Copy)]
pub struct Token {
    pub word: bool,
    pub start: usize,
    pub end: usize,
}

pub open spec fn is_word_char(c: char) -> bool {
    ('a' <= c && c <= 'z') || ('A' <= c && c <= 'Z') || ('0' <= c && c <= '9') || c == '_'
}

pub open spec fn is_space(c: char) -> bool {
    c == ' ' || c == '\t' || c == '\n' || c == '\r'
}

/// The end of the run of word characters that starts at `i`.
pub open spec fn word_end(s: Seq<char>, i: int) -> int
    decreases s.len() - i,
{
    if 0 <= i < s.len() && is_word_char(s[i]) {
        word_end(s, i + 1)
    } else {
        i
    }
}

proof fn lemma_word_end(s: Seq<char>, i: int)
    requires
        0 <= i <= s.len(),
    ensures
        i <= word_end(s, i) <= s.len(),
        i < s.len() && is_word_char(s[i]) ==> i < word_end(s, i),
    decreases s.len() - i,
{
    if i < s.len() && is_word_char(s[i]) {
        lemma_word_end(s, i + 1);
    }
}

/// The tokens of `s` from position `i` on.
pub open spec fn tokens_from(s: Seq<char>, i: int) -> Seq<Token>
    decreases s.len() - i,
    via tokens_from_decreases
{
    if i < 0 || i >= s.len() {
        Seq::empty()
    } else if is_space(s[i]) {
        tokens_from(s, i + 1)
    } else if is_word_char(s[i]) {
        seq![Token { word: true, start: i as usize, end: word_end(s, i) as usize }]
            + tokens_from(s, word_end(s, i))
    } else {
        seq![Token { word: false, start: i as usize, end: (i + 1) as usize }] + tokens_from(s, i + 1)
    }
}

#[via_fn]
proof fn tokens_from_decreases(s: Seq<char>, i: int) {
    if 0 <= i < s.len() {
        lemma_word_end(s, i);
    }
}


/// Every token of `toks` covers a non-empty range of `s`.
pub open spec fn tokens_wf(s: Seq<char>, toks: Seq<Token>) -> bool {
    forall|k: int| 0 <= k < toks.len() ==> #[trigger] toks[k].start < toks[k].end <= s.len()
}

proof fn lemma_tokens_wf(s: Seq<char>, i: int)
    requires
        0 <= i <= s.len(),
        s.len() <= usize::MAX,
    ensures
        tokens_wf(s, tokens_from(s, i)),
    decreases s.len() - i,
{
    if i < s.len() {
        lemma_word_end(s, i);
        let toks = tokens_from(s, i);
        if is_space(s[i]) {
            lemma_tokens_wf(s, i + 1);
            assert(toks == tokens_from(s, i + 1));
        } else {
            let e = if is_word_char(s[i]) { word_end(s, i) } else { i + 1 };
            let t = Token { word: is_word_char(s[i]), start: i as usize, end: e as usize };
            let rest = tokens_from(s, e);
            lemma_tokens_wf(s, e);
            assert(toks == seq![t] + rest);
            assert forall|k: int| 0 <= k < toks.len() implies #[trigger] toks[k].start < toks[k].end <= s.len() by {
                if k > 0 {
                    assert(toks[k] == rest[k - 1]);
                    assert(rest[k - 1].start < rest[k - 1].end <= s.len());
                }
            }
        }
    }
}

pub open spec fn token_text(s: Seq<char>, t: Token) -> Seq<char> {
    s.subrange(t.start as int, t.end as int)
}

/// `t` is the word `w`.
pub open spec fn is_keyword(s: Seq<char>, t: Token, w: Seq<char>) -> bool {
    t.word && token_text(s, t) == w
}

/// `t` is the single character `c`.
pub open spec fn is_symbol(s: Seq<char>, t: Token, c: char) -> bool {
    !t.word && s[t.start as int] == c
}

/// The tokens from `j` on read `rpc <word> ( <word> ) returns ( <word> )`.
pub open spec fn rpc_at(s: Seq<char>, toks: Seq<Token>, j: int) -> bool {
    &&& 0 <= j
    &&& j + 9 <= toks.len()
    &&& is_keyword(s, toks[j], "rpc"@)
    &&& toks[j + 1].word
    &&& is_symbol(s, toks[j + 2], '(')
    &&& toks[j + 3].word
    &&& is_symbol(s, toks[j + 4], ')')
    &&& is_keyword(s, toks[j + 5], "returns"@)
    &&& is_symbol(s, toks[j + 6], '(')
    &&& toks[j + 7].word
    &&& is_symbol(s, toks[j + 8], ')')
}

/// The RPCs declared between token `j` and token `end`.
pub open spec fn rpcs_in(s: Seq<char>, toks: Seq<Token>, j: int, end: int) -> Seq<RpcView>
    decreases end - j,
{
    if j < 0 || j >= end {
        Seq::empty()
    } else if j + 9 <= end && rpc_at(s, toks, j) {
        seq![(token_text(s, toks[j + 1]), token_text(s, toks[j + 3]), token_text(s, toks[j + 7]))]
            + rpcs_in(s, toks, j + 9, end)
    } else {
        rpcs_in(s, toks, j + 1, end)
    }
}

/// The index of the first `}` token at or after `j`, or the number of tokens.
pub open spec fn close_brace(s: Seq<char>, toks: Seq<Token>, j: int) -> int
    decreases toks.len() - j,
{
    if j < 0 || j >= toks.len() {
        toks.len() as int
    } else if is_symbol(s, toks[j], '}') {
        j
    } else {
        close_brace(s, toks, j + 1)
    }
}

proof fn lemma_close_brace(s: Seq<char>, toks: Seq<Token>, j: int)
    requires
        0 <= j <= toks.len(),
    ensures
        j <= close_brace(s, toks, j) <= toks.len(),
    decreases toks.len() - j,
{
    if j < toks.len() && !is_symbol(s, toks[j], '}') {
        lemma_close_brace(s, toks, j + 1);
    }
}

/// The tokens from `i` on open a block: `service <word> {`.
pub open spec fn service_header(s: Seq<char>, toks: Seq<Token>, i: int) -> bool {
    &&& 0 <= i
    &&& i + 3 <= toks.len()
    &&& is_keyword(s, toks[i], "service"@)
    &&& toks[i + 1].word
    &&& is_symbol(s, toks[i + 2], '{')
}

/// The services declared from token `i` on. A block with no closing brace
/// declares nothing.
pub open spec fn services_in(s: Seq<char>, toks: Seq<Token>, i: int) -> Seq<ServiceView>
    decreases toks.len() - i,
    via services_in_decreases
{
    if i < 0 || i >= toks.len() {
        Seq::empty()
    } else if service_header(s, toks, i) {
        let c = close_brace(s, toks, i + 3);
        if c >= toks.len() {
            Seq::empty()
        } else {
            seq![(token_text(s, toks[i + 1]), rpcs_in(s, toks, i + 3, c))] + services_in(s, toks, c + 1)
        }
    } else {
        services_in(s, toks, i + 1)
    }
}

#[via_fn]
proof fn services_in_decreases(s: Seq<char>, toks: Seq<Token>, i: int) {
    if 0 <= i < toks.len() && service_header(s, toks, i) {
        lemma_close_brace(s, toks, i + 3);
    }
}

/// The services that the definition text `s` declares, in source order.
pub open spec fn definitions_of(s: Seq<char>) -> Seq<ServiceView> {
    services_in(s, tokens_from(s, 0), 0)
}

fn word_char(c: char) -> (r: bool)
    ensures
        r == is_word_char(c),
{
    ('a' <= c && c <= 'z') || ('A' <= c && c <= 'Z') || ('0' <= c && c <= '9') || c == '_'
}

/// Cuts `v` into tokens.
pub fn tokenize(v: &Vec<char>) -> (r: Vec<Token>)
    ensures
        r@ == tokens_from(v@, 0),
        tokens_wf(v@, r@),
{
    let ghost s = v@;
    let n = v.len();
    let mut toks: Vec<Token> = Vec::new();
    let mut i: usize = 0;
    assert(toks@ + tokens_from(s, 0) =~= tokens_from(s, 0));
    while i < n
        invariant
            s == v@,
            n == s.len(),
            i <= n,
            toks@ + tokens_from(s, i as int) == tokens_from(s, 0),
        decreases n - i,
    {
        let c = v[i];
        if c == ' ' || c == '\t' || c == '\n' || c == '\r' {
            i = i + 1;
        } else if word_char(c) {
            let mut j: usize = i;
            while j < n && word_char(v[j])
                invariant
                    s == v@,
                    n == s.len(),
                    i <= j <= n,
                    word_end(s, i as int) == word_end(s, j as int),
                decreases n - j,
            {
                j = j + 1;
            }
            let t = Token { word: true, start: i, end: j };
            assert(tokens_from(s, i as int) == seq![t] + tokens_from(s, j as int));
            assert(toks@.push(t) + tokens_from(s, j as int) =~= toks@ + (seq![t] + tokens_from(s, j as int)));
            toks.push(t);
            i = j;
        } else {
            let t = Token { word: false, start: i, end: i + 1 };
            assert(toks@.push(t) + tokens_from(s, i + 1) =~= toks@ + (seq![t] + tokens_from(s, i + 1)));
            toks.push(t);
            i = i + 1;
        }
    }
    assert(toks@ =~= toks@ + tokens_from(s, n as int));
    proof {
        lemma_tokens_wf(s, 0);
    }
    toks
}

/// Whether `t` is the word `lit`.
fn token_is(v: &Vec<char>, t: Token, lit: &str) -> (r: bool)
    requires
        t.start < t.end <= v@.len(),
    ensures
        r == is_keyword(v@, t, lit@),
{
    if !t.word {
        return false;
    }
    let m = lit.unicode_len();
    if t.end - t.start != m {
        assert(token_text(v@, t).len() != lit@.len());
        return false;
    }
    let mut k: usize = 0;
    while k < m
        invariant
            m == lit@.len(),
            t.end - t.start == m,
            t.start < t.end <= v@.len(),
            k <= m,
            forall|q: int| 0 <= q < k ==> v@[t.start + q] == lit@[q],
        decreases m - k,
    {
        if v[t.start + k] != lit.get_char(k) {
            assert(token_text(v@, t)[k as int] != lit@[k as int]);
            return false;
        }
        k = k + 1;
    }
    assert(token_text(v@, t) =~= lit@);
    true
}

/// Whether `t` is the single character `c`.
fn token_sym(v: &Vec<char>, t: Token, c: char) -> (r: bool)
    requires
        t.start < t.end <= v@.len(),
    ensures
        r == is_symbol(v@, t, c),
{
    !t.word && v[t.start] == c
}

fn rpc_here(v: &Vec<char>, toks: &Vec<Token>, j: usize) -> (r: bool)
    requires
        tokens_wf(v@, toks@),
        j + 9 <= toks@.len(),
    ensures
        r == rpc_at(v@, toks@, j as int),
{
    let n = toks.len();
    assert(j + 9 <= n);
    token_is(v, toks[j], "rpc") && toks[j + 1].word && token_sym(v, toks[j + 2], '(')
        && toks[j + 3].word && token_sym(v, toks[j + 4], ')') && token_is(v, toks[j + 5], "returns")
        && token_sym(v, toks[j + 6], '(') && toks[j + 7].word && token_sym(v, toks[j + 8], ')')
}

/// The RPCs declared between token `from` and token `end`.
fn parse_rpcs(text: &str, v: &Vec<char>, toks: &Vec<Token>, from: usize, end: usize) -> (r: Vec<ProtoRPC>)
    requires
        v@ == text@,
        tokens_wf(v@, toks@),
        from <= end <= toks@.len(),
    ensures
        r@.map_values(|p: ProtoRPC| p@) == rpcs_in(v@, toks@, from as int, end as int),
{
    let ghost s = v@;
    let mut out: Vec<ProtoRPC> = Vec::new();
    let mut j: usize = from;
    assert(out@.map_values(|p: ProtoRPC| p@) + rpcs_in(s, toks@, from as int, end as int)
        =~= rpcs_in(s, toks@, from as int, end as int));
    while j < end
        invariant
            s == v@,
            v@ == text@,
            tokens_wf(s, toks@),
            from <= j <= end,
            end <= toks@.len(),
            out@.map_values(|p: ProtoRPC| p@) + rpcs_in(s, toks@, j as int, end as int)
                == rpcs_in(s, toks@, from as int, end as int),
        decreases end - j,
    {
        if end - j >= 9 && rpc_here(v, toks, j) {
            let rpc = ProtoRPC {
                name: owned_range(text, toks[j + 1].start, toks[j + 1].end),
                request_name: owned_range(text, toks[j + 3].start, toks[j + 3].end),
                response_name: owned_range(text, toks[j + 7].start, toks[j + 7].end),
            };
            let ghost before = out@;
            out.push(rpc);
            assert(out@.map_values(|p: ProtoRPC| p@) =~= before.map_values(|p: ProtoRPC| p@).push(rpc@));
            assert(before.map_values(|p: ProtoRPC| p@).push(rpc@) + rpcs_in(s, toks@, j + 9, end as int)
                =~= before.map_values(|p: ProtoRPC| p@) + rpcs_in(s, toks@, j as int, end as int));
            j = j + 9;
        } else {
            j = j + 1;
        }
    }
    assert(out@.map_values(|p: ProtoRPC| p@) =~= out@.map_values(|p: ProtoRPC| p@) + rpcs_in(s, toks@, j as int, end as int));
    out
}

fn find_close(v: &Vec<char>, toks: &Vec<Token>, from: usize) -> (r: usize)
    requires
        tokens_wf(v@, toks@),
        from <= toks@.len(),
    ensures
        r == close_brace(v@, toks@, from as int),
{
    let mut j: usize = from;
    while j < toks.len() && !token_sym(v, toks[j], '}')
        invariant
            tokens_wf(v@, toks@),
            from <= j <= toks@.len(),
            close_brace(v@, toks@, from as int) == close_brace(v@, toks@, j as int),
        decreases toks@.len() - j,
    {
        j = j + 1;
    }
    j
}

/// Reads the services that one definition text declares, in source order.
/// Text that holds no well-formed block contributes no service.
pub fn parse_definitions(text: &str) -> (r: Vec<ProtoService>)
    ensures
        r@.map_values(|p: ProtoService| p@) == definitions_of(text@),
{
    let v = chars_of(text);
    let toks = tokenize(&v);
    let ghost s = v@;
    let ghost t = toks@;
    let n = toks.len();
    let mut out: Vec<ProtoService> = Vec::new();
    let mut i: usize = 0;
    assert(out@.map_values(|p: ProtoService| p@) + services_in(s, t, 0) =~= services_in(s, t, 0));
    while i < n
        invariant
            s == v@,
            v@ == text@,
            t == toks@,
            n == t.len(),
            tokens_wf(s, t),
            i <= n,
            out@.map_values(|p: ProtoService| p@) + services_in(s, t, i as int) == services_in(s, t, 0),
        decreases n - i,
    {
        if n - i >= 3 && token_is(&v, toks[i], "service") && toks[i + 1].word && token_sym(&v, toks[i + 2], '{') {
            let c = find_close(&v, &toks, i + 3);
            if c >= n {
                i = n;
            } else {
                proof {
                    lemma_close_brace(s, t, i + 3);
                }
                let rpcs = parse_rpcs(text, &v, &toks, i + 3, c);
                let svc = ProtoService { name: owned_range(text, toks[i + 1].start, toks[i + 1].end), rpcs };
                let ghost before = out@;
                out.push(svc);
                assert(out@.map_values(|p: ProtoService| p@) =~= before.map_values(|p: ProtoService| p@).push(svc@));
                assert(before.map_values(|p: ProtoService| p@).push(svc@) + services_in(s, t, c + 1)
                    =~= before.map_values(|p: ProtoService| p@) + services_in(s, t, i as int));
                i = c + 1;
            }
        } else {
            i = i + 1;
        }
    }
    assert(out@.map_values(|p: ProtoService| p@) =~= out@.map_values(|p: ProtoService| p@) + services_in(s, t, n as int));
    out
}


/// The services that the definition texts `fs` declare: file by file, each in
/// source order.
pub open spec fn services_of_files(fs: Seq<Seq<char>>) -> Seq<ServiceView>
    decreases fs.len(),
{
    if fs.len() == 0 {
        Seq::empty()
    } else {
        services_of_files(fs.drop_last()) + definitions_of(fs.last())
    }
}

/// Some service of `ss` is called `name`.
pub open spec fn has_name(ss: Seq<ServiceView>, name: Seq<char>) -> bool {
    exists|k: int| 0 <= k < ss.len() && #[trigger] ss[k].0 == name
}

/// `ss` without the services whose name an earlier service already has.
pub open spec fn first_by_name(ss: Seq<ServiceView>) -> Seq<ServiceView>
    decreases ss.len(),
{
    if ss.len() == 0 {
        Seq::empty()
    } else {
        let prev = first_by_name(ss.drop_last());
        if has_name(prev, ss.last().0) {
            prev
        } else {
            prev.push(ss.last())
        }
    }
}

/// A copy of `r` with the same view.
pub fn copy_rpc(r: &ProtoRPC) -> (c: ProtoRPC)
    ensures
        c@ == r@,
{
    ProtoRPC {
        name: r.name.clone(),
        request_name: r.request_name.clone(),
        response_name: r.response_name.clone(),
    }
}

/// A copy of `s` with the same view.
pub fn copy_service(s: &ProtoService) -> (c: ProtoService)
    ensures
        c@ == s@,
{
    let mut rpcs: Vec<ProtoRPC> = Vec::new();
    let mut i: usize = 0;
    while i < s.rpcs.len()
        invariant
            i <= s.rpcs@.len(),
            rpcs@.map_values(|p: ProtoRPC| p@) == s.rpcs@.subrange(0, i as int).map_values(|p: ProtoRPC| p@),
        decreases s.rpcs@.len() - i,
    {
        let r = copy_rpc(&s.rpcs[i]);
        let ghost before = rpcs@;
        rpcs.push(r);
        assert(rpcs@.map_values(|p: ProtoRPC| p@) =~= before.map_values(|p: ProtoRPC| p@).push(r@));
        assert(s.rpcs@.subrange(0, i + 1) =~= s.rpcs@.subrange(0, i as int).push(s.rpcs@[i as int]));
        assert(rpcs@.map_values(|p: ProtoRPC| p@) =~= s.rpcs@.subrange(0, i + 1).map_values(|p: ProtoRPC| p@));
        i = i + 1;
    }
    assert(s.rpcs@.subrange(0, i as int) =~= s.rpcs@);
    ProtoService { name: s.name.clone(), rpcs }
}

fn has_service_named(out: &Vec<ProtoService>, name: &String) -> (r: bool)
    ensures
        r == has_name(out@.map_values(|p: ProtoService| p@), name@),
{
    let ghost ss = out@.map_values(|p: ProtoService| p@);
    let mut k: usize = 0;
    while k < out.len()
        invariant
            ss == out@.map_values(|p: ProtoService| p@),
            k <= out@.len(),
            forall|q: int| 0 <= q < k ==> #[trigger] ss[q].0 != name@,
        decreases out@.len() - k,
    {
        if out[k].name == *name {
            assert(ss[k as int].0 == name@);
            return true;
        }
        k = k + 1;
    }
    false
}

/// Collects the services of several definition texts, file by file and each
/// in source order. Where two services share a name, the first one found is
/// kept and the later one is left out.
pub fn get_proto_data(files: &Vec<String>) -> (r: ProtoData)
    ensures
        r@ == first_by_name(services_of_files(files@.map_values(|f: String| f@))),
{
    let ghost fs = files@.map_values(|f: String| f@);
    let mut out: Vec<ProtoService> = Vec::new();
    let mut i: usize = 0;
    assert(fs.subrange(0, 0) =~= Seq::<Seq<char>>::empty());
    while i < files.len()
        invariant
            fs == files@.map_values(|f: String| f@),
            i <= files@.len(),
            out@.map_values(|p: ProtoService| p@) == first_by_name(services_of_files(fs.subrange(0, i as int))),
        decreases files@.len() - i,
    {
        let defs = parse_definitions(files[i].as_str());
        let ghost base = services_of_files(fs.subrange(0, i as int));
        let ghost dv = defs@.map_values(|p: ProtoService| p@);
        let mut j: usize = 0;
        assert(base + dv.subrange(0, 0) =~= base);
        while j < defs.len()
            invariant
                fs == files@.map_values(|f: String| f@),
                i < files@.len(),
                dv == defs@.map_values(|p: ProtoService| p@),
                j <= defs@.len(),
                out@.map_values(|p: ProtoService| p@) == first_by_name(base + dv.subrange(0, j as int)),
            decreases defs@.len() - j,
        {
            let ghost prev = base + dv.subrange(0, j as int);
            let ghost next = base + dv.subrange(0, j + 1);
            assert(next.drop_last() =~= prev);
            assert(next.last() == dv[j as int]);
            if !has_service_named(&out, &defs[j].name) {
                let svc = copy_service(&defs[j]);
                let ghost before = out@;
                out.push(svc);
                assert(out@.map_values(|p: ProtoService| p@) =~= before.map_values(|p: ProtoService| p@).push(svc@));
            }
            j = j + 1;
        }
        assert(fs.subrange(0, i + 1).drop_last() =~= fs.subrange(0, i as int));
        assert(dv.subrange(0, j as int) =~= dv);
        i = i + 1;
    }
    assert(fs.subrange(0, i as int) =~= fs);
    ProtoData { services: out }
}

} // verus!
