//! Named sets of substitution variables, their application to a composed
//! request, and the `KEY=VALUE` file format they can be loaded from.
use vstd::prelude::*;
use crate::key_value_editor::pair_views;
use crate::request::{HttpRequest, opt_view};
use crate::text::{
    chars_of, first_index_from, first_index_of, replace_all, replace_all_exec, string_of, sub_vec,
    trim, trim_bounds,
};

verus! {

/// A named set of variables, with an optional default base URL. `id` is
/// assigned by the store that keeps environments.
#[derive(Debug, Clone)]
pub struct Environment {
    pub id: i32,
    pub name: String,
    pub variables: Vec<(String, String)>,
    pub default_endpoint: Option<String>,
}

/// The placeholder `{{key}}`.
pub open spec fn token_of(key: Seq<char>) -> Seq<char> {
    seq!['{', '{'] + key + seq!['}', '}']
}

/// `s` with the variables applied one after the other, each by a single scan
/// that replaces every `{{key}}` by its value and never rescans what it put in.
pub open spec fn substitute(s: Seq<char>, vars: Seq<(Seq<char>, Seq<char>)>) -> Seq<char>
    decreases vars.len(),
{
    if vars.len() == 0 {
        s
    } else {
        replace_all(substitute(s, vars.drop_last()), token_of(vars.last().0), vars.last().1)
    }
}

/// Headers with the variables applied to each value; names are kept.
pub open spec fn substitute_headers(
    h: Seq<(Seq<char>, Seq<char>)>,
    vars: Seq<(Seq<char>, Seq<char>)>,
) -> Seq<(Seq<char>, Seq<char>)> {
    h.map_values(|p: (Seq<char>, Seq<char>)| (p.0, substitute(p.1, vars)))
}

/// `s` with the variables of `vars` applied.
pub fn substitute_text(s: &str, vars: &Vec<(String, String)>) -> (r: String)
    ensures
        r@ == substitute(s@, pair_views(vars@)),
{
    let mut cur = chars_of(s);
    let mut i: usize = 0;
    while i < vars.len()
        invariant
            i <= vars@.len(),
            cur@ == substitute(s@, pair_views(vars@.take(i as int))),
        decreases vars@.len() - i,
    {
        let mut tok: Vec<char> = vec!['{', '{'];
        let k = chars_of(vars[i].0.as_str());
        crate::text::append_chars(&mut tok, &k);
        tok.push('}');
        tok.push('}');
        let v = chars_of(vars[i].1.as_str());
        assert(tok@ =~= token_of(vars@[i as int].0@));
        assert(pair_views(vars@.take(i + 1)).drop_last() =~= pair_views(vars@.take(i as int)));
        cur = replace_all_exec(&cur, &tok, &v);
        i = i + 1;
    }
    assert(vars@.take(i as int) =~= vars@);
    string_of(&cur)
}

/// `request` with the variables of `env` applied to its URL, to each header
/// value and to its body.
pub fn apply_environment(request: HttpRequest, env: &Environment) -> (r: HttpRequest)
    ensures
        r.method == request.method,
        r.url@ == substitute(request.url@, pair_views(env.variables@)),
        pair_views(r.headers@) == substitute_headers(
            pair_views(request.headers@),
            pair_views(env.variables@),
        ),
        opt_view(r.body) == match opt_view(request.body) {
            Some(b) => Some(substitute(b, pair_views(env.variables@))),
            None => None,
        },
{
    let ghost vars = pair_views(env.variables@);
    let url = substitute_text(request.url.as_str(), &env.variables);
    let mut headers: Vec<(String, String)> = Vec::new();
    let mut i: usize = 0;
    while i < request.headers.len()
        invariant
            i <= request.headers@.len(),
            vars == pair_views(env.variables@),
            pair_views(headers@) == substitute_headers(
                pair_views(request.headers@.take(i as int)),
                vars,
            ),
        decreases request.headers@.len() - i,
    {
        let ghost before = headers@;
        let name = request.headers[i].0.clone();
        let value = substitute_text(request.headers[i].1.as_str(), &env.variables);
        headers.push((name, value));
        assert(pair_views(headers@) =~= pair_views(before).push(
            (request.headers@[i as int].0@, substitute(request.headers@[i as int].1@, vars)),
        ));
        assert(substitute_headers(pair_views(request.headers@.take(i + 1)), vars)
            =~= substitute_headers(pair_views(request.headers@.take(i as int)), vars).push(
            (request.headers@[i as int].0@, substitute(request.headers@[i as int].1@, vars)),
        ));
        i = i + 1;
    }
    assert(request.headers@.take(i as int) =~= request.headers@);
    let body = match &request.body {
        Some(b) => Some(substitute_text(b.as_str(), &env.variables)),
        None => None,
    };
    HttpRequest { method: request.method, url, headers, body }
}

/// The entry of one line of a variables file: none for a blank line, a line
/// whose first visible character is `#`, or a line without `=`; otherwise the
/// trimmed text before the first `=` and the trimmed text after it.
pub open spec fn line_entry(line: Seq<char>) -> Seq<(Seq<char>, Seq<char>)> {
    let t = trim(line);
    let k = first_index_of(t, '=');
    if t.len() == 0 || t[0] == '#' || !(0 <= k < t.len()) {
        seq![]
    } else {
        seq![(trim(t.take(k)), trim(t.skip(k + 1)))]
    }
}

/// The entries of a variables file, line by line in order.
pub open spec fn env_file_entries(s: Seq<char>) -> Seq<(Seq<char>, Seq<char>)>
    decreases s.len(),
{
    let n = first_index_of(s, '\n');
    if 0 <= n < s.len() {
        line_entry(s.take(n)) + env_file_entries(s.skip(n + 1))
    } else {
        line_entry(s)
    }
}

fn line_entry_exec(v: &Vec<char>, lo: usize, hi: usize) -> (r: Option<(String, String)>)
    requires
        lo <= hi <= v.len(),
    ensures
        line_entry(v@.subrange(lo as int, hi as int)) == match r {
            Some(p) => seq![(p.0@, p.1@)],
            None => Seq::<(Seq<char>, Seq<char>)>::empty(),
        },
{
    let (a, b) = trim_bounds(v, lo, hi);
    let ghost t = v@.subrange(a as int, b as int);
    if a == b || v[a] == '#' {
        return None;
    }
    let e = first_index_from(v, '=', a, b);
    if e == b {
        return None;
    }
    assert(t.take(e - a) =~= v@.subrange(a as int, e as int));
    assert(t.skip(e - a + 1) =~= v@.subrange(e + 1, b as int));
    let (ka, kb) = trim_bounds(v, a, e);
    let (va, vb) = trim_bounds(v, e + 1, b);
    let key = string_of(&sub_vec(v, ka, kb));
    let value = string_of(&sub_vec(v, va, vb));
    Some((key, value))
}

/// The variables that a `KEY=VALUE` file holds, in order: blank lines, lines
/// starting with `#` and lines without `=` are skipped; key and value are
/// trimmed of surrounding white space.
pub fn parse_env_file(content: &str) -> (r: Vec<(String, String)>)
    ensures
        pair_views(r@) == env_file_entries(content@),
{
    let v = chars_of(content);
    let mut out: Vec<(String, String)> = Vec::new();
    let mut lo: usize = 0;
    assert(v@.skip(0) =~= v@);
    loop
        invariant
            lo <= v@.len(),
            v@ == content@,
            env_file_entries(v@) == pair_views(out@) + env_file_entries(v@.skip(lo as int)),
        decreases v@.len() - lo,
    {
        let j = first_index_from(&v, '\n', lo, v.len());
        let ghost rest = v@.skip(lo as int);
        assert(rest =~= v@.subrange(lo as int, v@.len() as int));
        let ghost before = out@;
        let entry = line_entry_exec(&v, lo, j);
        match entry {
            Some(p) => {
                out.push(p);
            },
            None => {},
        }
        if j < v.len() {
            assert(rest.take(j - lo) =~= v@.subrange(lo as int, j as int));
            assert(rest.skip(j - lo + 1) =~= v@.skip(j + 1));
            assert(pair_views(out@) =~= pair_views(before) + line_entry(
                v@.subrange(lo as int, j as int),
            ));
            lo = j + 1;
        } else {
            assert(first_index_of(rest, '\n') == rest.len());
            assert(env_file_entries(rest) == line_entry(rest));
            assert(v@.subrange(lo as int, j as int) =~= rest);
            assert(pair_views(out@) =~= pair_views(before) + line_entry(rest));
            assert(env_file_entries(v@) == pair_views(before) + env_file_entries(rest));
            return out;
        }
    }
}

} // verus!

verus! {

proof fn lemma_replace_leading(pat: Seq<char>, rest: Seq<char>, rep: Seq<char>)
    requires
        pat.len() > 0,
    ensures
        replace_all(pat + rest, pat, rep) == rep + replace_all(rest, pat, rep),
{
    let s = pat + rest;
    assert(s.subrange(0, pat.len() as int) =~= pat);
    assert(s.skip(pat.len() as int) =~= rest);
}

/// Placeholders are replaced in one scan: `{{k}}{{k}}` becomes the value of
/// `k` twice over, and a value that itself holds `{{k}}` is not substituted
/// again.
pub proof fn lemma_single_pass_substitution(k: Seq<char>, v: Seq<char>)
    ensures
        substitute(token_of(k) + token_of(k), seq![(k, v)]) == v + v,
{
    let t = token_of(k);
    let vars = seq![(k, v)];
    assert(vars.drop_last() =~= Seq::<(Seq<char>, Seq<char>)>::empty());
    lemma_replace_leading(t, t, v);
    lemma_replace_leading(t, Seq::<char>::empty(), v);
    assert(t + Seq::<char>::empty() =~= t);
    assert(v + Seq::<char>::empty() =~= v);
    assert(substitute(t + t, vars.drop_last()) == t + t);
    assert(vars.last() == (k, v));
    assert(replace_all(Seq::<char>::empty(), t, v) == Seq::<char>::empty());
    assert(replace_all(t, t, v) == v);
    assert(replace_all(t + t, t, v) == v + v);
}

} // verus!

verus! {

/// `a` and `b` hold the same id, name, variables and default base URL.
pub open spec fn same_environment(a: Environment, b: Environment) -> bool {
    &&& a.id == b.id
    &&& a.name@ == b.name@
    &&& pair_views(a.variables@) == pair_views(b.variables@)
    &&& opt_view(a.default_endpoint) == opt_view(b.default_endpoint)
}

/// `a` and `b` hold the same environments in the same order.
pub open spec fn same_environments(a: Seq<Environment>, b: Seq<Environment>) -> bool {
    a.len() == b.len() && forall|i: int| 0 <= i < a.len() ==> same_environment(a[i], b[i])
}

/// The first environment of `envs` whose id is `id`.
pub open spec fn find_by_id(envs: Seq<Environment>, id: i32) -> Option<Environment>
    decreases envs.len(),
{
    if envs.len() == 0 {
        None
    } else if envs[0].id == id {
        Some(envs[0])
    } else {
        find_by_id(envs.drop_first(), id)
    }
}

/// A copy of owned pairs.
pub fn copy_pairs(v: &Vec<(String, String)>) -> (r: Vec<(String, String)>)
    ensures
        pair_views(r@) == pair_views(v@),
{
    let mut r: Vec<(String, String)> = Vec::new();
    let mut i: usize = 0;
    while i < v.len()
        invariant
            i <= v@.len(),
            pair_views(r@) == pair_views(v@.take(i as int)),
        decreases v@.len() - i,
    {
        let ghost before = r@;
        r.push((v[i].0.clone(), v[i].1.clone()));
        assert(pair_views(r@) =~= pair_views(before).push((v@[i as int].0@, v@[i as int].1@)));
        assert(pair_views(v@.take(i + 1)) =~= pair_views(v@.take(i as int)).push(
            (v@[i as int].0@, v@[i as int].1@),
        ));
        i = i + 1;
    }
    assert(v@.take(i as int) =~= v@);
    r
}

impl Environment {
    /// A copy of this environment.
    pub fn copy(&self) -> (r: Environment)
        ensures
            same_environment(r, *self),
    {
        Environment {
            id: self.id,
            name: self.name.clone(),
            variables: copy_pairs(&self.variables),
            default_endpoint: match &self.default_endpoint {
                Some(u) => Some(u.clone()),
                None => None,
            },
        }
    }

    /// A newly stored environment: the given id and name, no variables, no
    /// default base URL.
    pub fn created(id: i32, name: String) -> (r: Environment)
        ensures
            r.id == id,
            r.name == name,
            r.variables@.len() == 0,
            r.default_endpoint is None,
    {
        Environment { id, name, variables: Vec::new(), default_endpoint: None }
    }
}

/// A copy of a list of environments.
pub fn copy_environments(v: &Vec<Environment>) -> (r: Vec<Environment>)
    ensures
        same_environments(r@, v@),
{
    let mut r: Vec<Environment> = Vec::new();
    let mut i: usize = 0;
    while i < v.len()
        invariant
            i <= v@.len(),
            same_environments(r@, v@.take(i as int)),
        decreases v@.len() - i,
    {
        r.push(v[i].copy());
        i = i + 1;
    }
    assert(v@.take(i as int) =~= v@);
    r
}

/// A copy of the first environment of `envs` whose id is `id`.
pub fn find_environment(envs: &Vec<Environment>, id: i32) -> (r: Option<Environment>)
    ensures
        match (r, find_by_id(envs@, id)) {
            (Some(a), Some(b)) => same_environment(a, b),
            (None, None) => true,
            _ => false,
        },
{
    let mut i: usize = 0;
    assert(envs@.skip(0) =~= envs@);
    while i < envs.len()
        invariant
            i <= envs@.len(),
            find_by_id(envs@, id) == find_by_id(envs@.skip(i as int), id),
        decreases envs@.len() - i,
    {
        assert(envs@.skip(i as int)[0] == envs@[i as int]);
        if envs[i].id == id {
            return Some(envs[i].copy());
        }
        assert(envs@.skip(i as int).drop_first() =~= envs@.skip(i + 1));
        i = i + 1;
    }
    None
}

} // verus!

verus! {

/// What `serde_json` writes for a list of string pairs.
pub uninterp spec fn pairs_json(p: Seq<(Seq<char>, Seq<char>)>) -> Seq<char>;

/// What `serde_json` reads from `s` as a list of string pairs; none where `s`
/// is not such a list.
pub uninterp spec fn pairs_from_json(s: Seq<char>) -> Option<Seq<(Seq<char>, Seq<char>)>>;

/// Relies on `serde_json::to_string` of a list of string pairs: the text
/// depends on the pairs alone, and the call succeeds, since it fails only
/// where a `Serialize` impl chooses to or a map has keys that are not
/// strings, and neither happens for string pairs.
#[verifier::external_body]
fn encode_pairs(p: &Vec<(String, String)>) -> (r: Option<String>)
    ensures
        r is Some,
        r matches Some(s) ==> s@ == pairs_json(pair_views(p@)),
{
    serde_json::to_string(p).ok()
}

/// Relies on `serde_json::from_str` into a list of string pairs: the result
/// depends on `s` alone.
#[verifier::external_body]
fn decode_pairs(s: &str) -> (r: Option<Vec<(String, String)>>)
    ensures
        match r {
            Some(v) => pairs_from_json(s@) == Some(pair_views(v@)),
            None => pairs_from_json(s@) is None,
        },
{
    serde_json::from_str::<Vec<(String, String)>>(s).ok()
}

/// The stored form of the variables of `env`, in order.
pub fn variables_json(env: &Environment) -> (r: String)
    ensures
        r@ == pairs_json(pair_views(env.variables@)),
{
    match encode_pairs(&env.variables) {
        Some(s) => s,
        None => String::new(),
    }
}

/// The environment that a stored row describes; none where the stored
/// variables are not a list of string pairs.
pub fn environment_from_row(
    id: i32,
    name: String,
    variables: &str,
    default_endpoint: Option<String>,
) -> (r: Option<Environment>)
    ensures
        match (r, pairs_from_json(variables@)) {
            (Some(e), Some(p)) => e.id == id && e.name == name && pair_views(e.variables@) == p
                && e.default_endpoint == default_endpoint,
            (None, None) => true,
            _ => false,
        },
{
    match decode_pairs(variables) {
        Some(v) => Some(Environment { id, name, variables: v, default_endpoint }),
        None => None,
    }
}

} // verus!
