use vstd::prelude::*;
use vstd::string::{StrSliceExecFns, StringExecFns};

use crate::environment::{EnvValueModel, EnvironmentFile, EnvironmentValue, env_values_view};

verus! {

/// The text `{{key}}` that stands for a variable in an address.
pub open spec fn placeholder(key: Seq<char>) -> Seq<char> {
    seq!['{', '{'] + key + seq!['}', '}']
}

/// Every occurrence of `pat` in `s` replaced by `rep`, scanning from the left
/// and never reusing replaced text: the literal replacement of `str::replace`.
pub open spec fn replace_all(s: Seq<char>, pat: Seq<char>, rep: Seq<char>) -> Seq<char>
    decreases s.len(),
{
    if pat.len() == 0 || s.len() < pat.len() {
        s
    } else if s.subrange(0, pat.len() as int) == pat {
        rep + replace_all(s.subrange(pat.len() as int, s.len() as int), pat, rep)
    } else {
        seq![s[0]] + replace_all(s.drop_first(), pat, rep)
    }
}

/// The address after each variable, in list order, has replaced its
/// placeholder in the text left by the variables before it.
pub open spec fn substitute_all(values: Seq<EnvValueModel>, url: Seq<char>) -> Seq<char>
    decreases values.len(),
{
    if values.len() == 0 {
        url
    } else {
        replace_all(
            substitute_all(values.drop_last(), url),
            placeholder(values.last().key),
            values.last().value,
        )
    }
}

/// The address with an environment's variables substituted; an environment
/// without a variable list leaves it unchanged. A variable takes part whether
/// or not it is enabled.
pub open spec fn substitute(env: Option<Seq<EnvValueModel>>, url: Seq<char>) -> Seq<char> {
    match env {
        Some(values) => substitute_all(values, url),
        None => url,
    }
}

/// Replaces every occurrence of `pat` in `s` by `rep`.
pub fn replace_literal(s: &str, pat: &str, rep: &str) -> (r: String)
    requires
        pat@.len() > 0,
    ensures
        r@ == replace_all(s@, pat@, rep@),
{
    let n = s.unicode_len();
    let m = pat.unicode_len();
    let pat_owned = String::from_str(pat);
    let mut out = String::new();
    let mut i: usize = 0;
    assert(s@.subrange(0, n as int) =~= s@);
    assert(out@ + s@ =~= s@);
    while m <= n - i && i <= n
        invariant
            n == s@.len(),
            m == pat@.len(),
            m > 0,
            pat_owned@ == pat@,
            0 <= i <= n,
            out@ + replace_all(s@.subrange(i as int, n as int), pat@, rep@) == replace_all(
                s@,
                pat@,
                rep@,
            ),
        decreases n - i,
    {
        let ghost rest = s@.subrange(i as int, n as int);
        let window = String::from_str(s.substring_char(i, i + m));
        if window == pat_owned {
            assert(rest.subrange(0, m as int) =~= s@.subrange(i as int, i + m));
            assert(rest.subrange(m as int, rest.len() as int) =~= s@.subrange(i + m, n as int));
            let ghost before = out@;
            out.append(rep);
            assert(out@ + replace_all(s@.subrange(i + m, n as int), pat@, rep@) =~= before + (rep@
                + replace_all(s@.subrange(i + m, n as int), pat@, rep@)));
            i = i + m;
        } else {
            assert(rest.subrange(0, m as int) =~= s@.subrange(i as int, i + m));
            assert(rest.drop_first() =~= s@.subrange(i + 1, n as int));
            let c = s.substring_char(i, i + 1);
            assert(c@ =~= seq![rest[0]]);
            let ghost before = out@;
            out.append(c);
            assert(out@ + replace_all(s@.subrange(i + 1, n as int), pat@, rep@) =~= before + (seq![
                rest[0],
            ] + replace_all(s@.subrange(i + 1, n as int), pat@, rep@)));
            i = i + 1;
        }
    }
    let tail = s.substring_char(i, n);
    assert(replace_all(s@.subrange(i as int, n as int), pat@, rep@) == s@.subrange(i as int, n as int));
    let ghost before = out@;
    out.append(tail);
    assert(out@ =~= before + s@.subrange(i as int, n as int));
    out
}

/// The placeholder text for a variable name.
pub fn placeholder_of(key: &String) -> (r: String)
    ensures
        r@ == placeholder(key@),
{
    let open = String::from_str("{{");
    let with_key = open.concat(key.as_str());
    let r = with_key.concat("}}");
    proof {
        reveal_strlit("{{");
        reveal_strlit("}}");
        assert(r@ =~= placeholder(key@));
    }
    r
}

/// Substitutes each variable of the list, in order, into the address.
pub fn substitute_values(values: &Vec<EnvironmentValue>, raw_url: String) -> (r: String)
    ensures
        r@ == substitute_all(values@.map_values(|v: EnvironmentValue| v@), raw_url@),
{
    let ghost vs = values@.map_values(|v: EnvironmentValue| v@);
    let mut url = raw_url;
    let mut i: usize = 0;
    assert(vs.take(0) =~= Seq::<EnvValueModel>::empty());
    while i < values.len()
        invariant
            0 <= i <= values.len(),
            vs == values@.map_values(|v: EnvironmentValue| v@),
            url@ == substitute_all(vs.take(i as int), raw_url@),
        decreases values.len() - i,
    {
        let pat = placeholder_of(&values[i].key);
        let next = replace_literal(url.as_str(), pat.as_str(), values[i].value.as_str());
        assert(vs.take(i + 1).drop_last() =~= vs.take(i as int));
        assert(vs.take(i + 1).last() == values@[i as int]@);
        url = next;
        i = i + 1;
    }
    assert(vs.take(values.len() as int) =~= vs);
    url
}

/// Substitutes an environment's variables into an address.
pub fn substitute_env(environment: &EnvironmentFile, raw_url: String) -> (r: String)
    ensures
        r@ == substitute(env_values_view(environment.values), raw_url@),
{
    match &environment.values {
        Some(values) => substitute_values(values, raw_url),
        None => raw_url,
    }
}

/// Whether `pat` occurs anywhere in `s`.
pub open spec fn occurs(s: Seq<char>, pat: Seq<char>) -> bool {
    exists|i: int| 0 <= i && i + pat.len() <= s.len() && #[trigger] s.subrange(i, i + pat.len()) == pat
}

/// Replacing a text that does not occur leaves the string as it is.
pub proof fn lemma_replace_absent(s: Seq<char>, pat: Seq<char>, rep: Seq<char>)
    requires
        !occurs(s, pat),
    ensures
        replace_all(s, pat, rep) == s,
    decreases s.len(),
{
    if pat.len() == 0 || s.len() < pat.len() {
    } else {
        assert(s.subrange(0, pat.len() as int) != pat) by {
            if s.subrange(0, pat.len() as int) == pat {
                let z: int = 0;
                assert(s.subrange(z, z + pat.len()) == pat);
                assert(occurs(s, pat));
            }
        }
        let t = s.drop_first();
        assert(!occurs(t, pat)) by {
            if occurs(t, pat) {
                let i = choose|i: int|
                    0 <= i && i + pat.len() <= t.len() && #[trigger] t.subrange(i, i + pat.len())
                        == pat;
                let j = i + 1;
                assert(s.subrange(j, j + pat.len()) =~= t.subrange(i, i + pat.len()));
                assert(s.subrange(j, j + pat.len()) == pat);
                assert(0 <= j && j + pat.len() <= s.len());
                assert(occurs(s, pat));
            }
        }
        lemma_replace_absent(t, pat, rep);
        assert(seq![s[0]] + t =~= s);
    }
}

/// Substitution is literal: an address with no `{{` in it comes back
/// unchanged, whatever the variables are.
pub proof fn lemma_no_placeholder_unchanged(env: Option<Seq<EnvValueModel>>, url: Seq<char>)
    requires
        !occurs(url, seq!['{', '{']),
    ensures
        substitute(env, url) == url,
{
    if let Some(values) = env {
        lemma_substitute_all_absent(values, url);
    }
}

proof fn lemma_substitute_all_absent(values: Seq<EnvValueModel>, url: Seq<char>)
    requires
        !occurs(url, seq!['{', '{']),
    ensures
        substitute_all(values, url) == url,
    decreases values.len(),
{
    if values.len() > 0 {
        lemma_substitute_all_absent(values.drop_last(), url);
        let pat = placeholder(values.last().key);
        assert(!occurs(url, pat)) by {
            if occurs(url, pat) {
                let i = choose|i: int|
                    0 <= i && i + pat.len() <= url.len() && #[trigger] url.subrange(i, i + pat.len())
                        == pat;
                assert(url.subrange(i, i + 2) =~= seq!['{', '{']) by {
                    assert(url.subrange(i, i + pat.len())[0] == '{');
                    assert(url.subrange(i, i + pat.len())[1] == '{');
                }
                assert(occurs(url, seq!['{', '{']));
            }
        }
        lemma_replace_absent(url, pat, values.last().value);
    }
}

} // verus!
