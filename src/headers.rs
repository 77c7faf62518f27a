use vstd::prelude::*;
use vstd::string::StringExecFns;

use crate::ui::AuthMode;

verus! {

pub open spec fn pairs_view(v: Seq<(String, String)>) -> Seq<(Seq<char>, Seq<char>)> {
    v.map_values(|p: (String, String)| (p.0@, p.1@))
}

/// The header list with, for each key, only its last entry kept; keys are
/// compared exactly, and the kept entries stay in their order.
pub open spec fn dedupe(s: Seq<(Seq<char>, Seq<char>)>) -> Seq<(Seq<char>, Seq<char>)>
    decreases s.len(),
{
    if s.len() == 0 {
        s
    } else if exists|j: int| 0 < j < s.len() && (#[trigger] s[j]).0 == s[0].0 {
        dedupe(s.drop_first())
    } else {
        seq![s[0]] + dedupe(s.drop_first())
    }
}

/// The entries of the editor's header table that are switched on.
pub open spec fn enabled_headers(rows: Seq<(bool, String, String)>) -> Seq<(Seq<char>, Seq<char>)>
    decreases rows.len(),
{
    if rows.len() == 0 {
        Seq::empty()
    } else {
        let front = enabled_headers(rows.drop_last());
        let r = rows.last();
        if r.0 {
            front.push((r.1@, r.2@))
        } else {
            front
        }
    }
}

/// The header that an auth mode adds, if any.
pub open spec fn auth_header(
    mode: AuthMode,
    api_key_name: Seq<char>,
    api_key: Seq<char>,
    bearer_token: Seq<char>,
    oauth_token: Seq<char>,
) -> Seq<(Seq<char>, Seq<char>)> {
    match mode {
        AuthMode::APIKEY => seq![(api_key_name, api_key)],
        AuthMode::BEARER => seq![("Authorization"@, "Bearer "@ + bearer_token)],
        AuthMode::OAUTH2 => seq![("Authorization"@, "Bearer "@ + oauth_token)],
        AuthMode::NONE => Seq::empty(),
    }
}

/// Keeps, for each key, only the last entry with that key.
pub fn remove_duplicate_headers(headers: Vec<(String, String)>) -> (r: Vec<(String, String)>)
    ensures
        pairs_view(r@) == dedupe(pairs_view(headers@)),
{
    let ghost s = pairs_view(headers@);
    let n = headers.len();
    let mut out: Vec<(String, String)> = Vec::new();
    let mut i: usize = 0;
    assert(s.subrange(0, n as int) =~= s);
    assert(pairs_view(out@) + s =~= s);
    while i < n
        invariant
            n == headers.len(),
            s == pairs_view(headers@),
            0 <= i <= n,
            pairs_view(out@) + dedupe(s.subrange(i as int, n as int)) == dedupe(s),
        decreases n - i,
    {
        let ghost rest = s.subrange(i as int, n as int);
        let mut later = false;
        let mut j: usize = i + 1;
        while j < n
            invariant
                n == headers.len(),
                s == pairs_view(headers@),
                i < n,
                i + 1 <= j <= n,
                later == exists|k: int| i < k < j && (#[trigger] s[k]).0 == s[i as int].0,
            decreases n - j,
        {
            let same = headers[j].0 == headers[i].0;
            assert(s[j as int] == (headers@[j as int].0@, headers@[j as int].1@));
            assert(s[i as int] == (headers@[i as int].0@, headers@[i as int].1@));
            assert(same == (s[j as int].0 == s[i as int].0));
            if same {
                later = true;
            }
            j = j + 1;
        }
        assert(rest.drop_first() =~= s.subrange(i + 1, n as int));
        if later {
            proof {
                let k = choose|k: int| i < k < n && (#[trigger] s[k]).0 == s[i as int].0;
                assert(rest[k - i] == s[k]);
            }
        } else {
            assert forall|k: int| 0 < k < rest.len() implies (#[trigger] rest[k]).0 != rest[0].0 by {
                assert(rest[k] == s[i + k]);
            }
            let ghost before = out@;
            out.push((headers[i].0.clone(), headers[i].1.clone()));
            assert(pairs_view(out@) =~= pairs_view(before).push(rest[0]));
            assert(pairs_view(out@) + dedupe(s.subrange(i + 1, n as int)) =~= pairs_view(before) + (
            seq![rest[0]] + dedupe(rest.drop_first())));
        }
        i = i + 1;
    }
    assert(s.subrange(n as int, n as int) =~= Seq::<(Seq<char>, Seq<char>)>::empty());
    assert(pairs_view(out@) + Seq::<(Seq<char>, Seq<char>)>::empty() =~= pairs_view(out@));
    out
}

/// The headers a request is sent with: the enabled rows of the editor, then
/// the header of the auth mode, with only the last entry of each key kept.
pub fn process_headers(
    headers: &Vec<(bool, String, String)>,
    auth_mode: AuthMode,
    api_key_name: String,
    api_key: String,
    bearer_token: String,
    oauth_token: String,
) -> (r: Vec<(String, String)>)
    ensures
        pairs_view(r@) == dedupe(
            enabled_headers(headers@) + auth_header(
                auth_mode,
                api_key_name@,
                api_key@,
                bearer_token@,
                oauth_token@,
            ),
        ),
{
    let mut rows: Vec<(String, String)> = Vec::new();
    let mut i: usize = 0;
    assert(headers@.take(0) =~= Seq::<(bool, String, String)>::empty());
    while i < headers.len()
        invariant
            0 <= i <= headers.len(),
            pairs_view(rows@) == enabled_headers(headers@.take(i as int)),
        decreases headers.len() - i,
    {
        let ghost before = rows@;
        assert(headers@.take(i + 1).drop_last() =~= headers@.take(i as int));
        if headers[i].0 {
            rows.push((headers[i].1.clone(), headers[i].2.clone()));
            assert(pairs_view(rows@) =~= pairs_view(before).push((headers@[i as int].1@, headers@[i as int].2@)));
        }
        i = i + 1;
    }
    assert(headers@.take(headers.len() as int) =~= headers@);
    let ghost enabled = pairs_view(rows@);
    let ghost extra = auth_header(auth_mode, api_key_name@, api_key@, bearer_token@, oauth_token@);
    match auth_mode {
        AuthMode::APIKEY => {
            rows.push((api_key_name, api_key));
        },
        AuthMode::BEARER => {
            let v = String::from_str("Bearer ").concat(bearer_token.as_str());
            rows.push((String::from_str("Authorization"), v));
        },
        AuthMode::OAUTH2 => {
            let v = String::from_str("Bearer ").concat(oauth_token.as_str());
            rows.push((String::from_str("Authorization"), v));
        },
        AuthMode::NONE => {},
    }
    assert(pairs_view(rows@) =~= enabled + extra);
    remove_duplicate_headers(rows)
}

} // verus!
