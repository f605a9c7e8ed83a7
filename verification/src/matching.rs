//! The find rule: a free-text query matches an action when the lowercased
//! name equals the lowercased query, or when every space-separated token of
//! the lowercased query occurs somewhere in the lowercased name.

use vstd::assert_by_contradiction;
use vstd::prelude::*;

use crate::catalog::{builtin_text, tools, user_load_outcome, user_loads, user_model, Action,
    UserSource};
use crate::codec::{parsed_model, parses_to, text_parses, LoadError};

verus! {

/// What str::to_lowercase returns for these characters.
pub uninterp spec fn lower_of(s: Seq<char>) -> Seq<char>;

/// Relies on str::to_lowercase: the lowercase form depends on the characters
/// alone, and the empty string stays empty. The result is handed out as its
/// characters.
#[verifier::external_body]
fn lowercase_chars(s: &str) -> (r: Vec<char>)
    ensures
        r@ == lower_of(s@),
        s@.len() == 0 ==> r@.len() == 0,
{
    s.to_lowercase().chars().collect()
}

/// Whether `needle` occurs contiguously in `hay`. The empty needle occurs in
/// everything.
pub open spec fn is_substring(needle: Seq<char>, hay: Seq<char>) -> bool {
    exists|i: int|
        0 <= i && i + needle.len() <= hay.len() && #[trigger] hay.subrange(i, i + needle.len())
            == needle
}

/// The position of the first space, or the length if there is none.
pub open spec fn first_space(s: Seq<char>) -> int
    decreases s.len(),
{
    if s.len() == 0 {
        0
    } else if s[0] == ' ' {
        0
    } else {
        1 + first_space(s.drop_first())
    }
}

/// The first-space position is within the text, points at a space when it is
/// not the length, and nothing before it is a space.
pub proof fn lemma_first_space_bounds(s: Seq<char>)
    ensures
        0 <= first_space(s) <= s.len(),
        first_space(s) < s.len() ==> s[first_space(s)] == ' ',
        forall|j: int| 0 <= j < first_space(s) ==> s[j] != ' ',
    decreases s.len(),
{
    if s.len() != 0 && s[0] != ' ' {
        lemma_first_space_bounds(s.drop_first());
        assert forall|j: int| 0 <= j < first_space(s) implies s[j] != ' ' by {
            if j > 0 {
                assert(s.drop_first()[j - 1] == s[j]);
            }
        }
    }
}

/// The query split on single spaces, empty tokens kept: the text before the
/// first space, then the split of the text after it.
pub open spec fn split_spec(s: Seq<char>) -> Seq<Seq<char>>
    decreases s.len(),
    via split_spec_decreases
{
    let fs = first_space(s);
    if fs == s.len() {
        seq![s]
    } else {
        seq![s.subrange(0, fs)] + split_spec(s.subrange(fs + 1, s.len() as int))
    }
}

#[via_fn]
proof fn split_spec_decreases(s: Seq<char>) {
    lemma_first_space_bounds(s);
}

/// Whether every token occurs in the name.
pub open spec fn all_tokens_match(name: Seq<char>, tokens: Seq<Seq<char>>) -> bool {
    forall|i: int| 0 <= i < tokens.len() ==> is_substring(#[trigger] tokens[i], name)
}

/// The find rule over already-lowercased text: the name is the query itself,
/// or every space-separated token of the query occurs in the name.
pub open spec fn query_matches(lname: Seq<char>, lquery: Seq<char>) -> bool {
    lname == lquery || all_tokens_match(lname, split_spec(lquery))
}

/// Whether an action, by its name as authored, matches the lowered query.
pub open spec fn action_matches(name: Seq<char>, lquery: Seq<char>) -> bool {
    query_matches(lower_of(name), lquery)
}

/// The matching actions, in source order, each emitted at most once however
/// many rules it satisfies.
pub open spec fn matched_of(
    actions: Seq<(Seq<char>, Seq<Seq<char>>)>,
    lquery: Seq<char>,
) -> Seq<(Seq<char>, Seq<Seq<char>>)>
    decreases actions.len(),
{
    if actions.len() == 0 {
        Seq::empty()
    } else {
        let rest = matched_of(actions.drop_last(), lquery);
        if action_matches(actions.last().0, lquery) {
            rest.push(actions.last())
        } else {
            rest
        }
    }
}

/// Whether two character vectors hold the same text.
fn chars_eq(a: &Vec<char>, b: &Vec<char>) -> (r: bool)
    ensures
        r == (a@ == b@),
{
    if a.len() != b.len() {
        return false;
    }
    let n = a.len();
    for i in 0..n
        invariant
            n == a@.len() == b@.len(),
            forall|j: int| 0 <= j < i ==> a@[j] == b@[j],
    {
        if a[i] != b[i] {
            return false;
        }
    }
    proof {
        assert(a@ =~= b@);
    }
    true
}

/// Whether `needle` occurs contiguously in `hay`, by scanning every start
/// position.
fn contains_sub(hay: &Vec<char>, needle: &Vec<char>) -> (r: bool)
    ensures
        r == is_substring(needle@, hay@),
{
    let n = hay.len();
    let m = needle.len();
    if m > n {
        return false;
    }
    if m == 0 {
        proof {
            assert(hay@.subrange(0, 0 + needle@.len() as int) =~= needle@);
        }
        return true;
    }
    let mut i: usize = 0;
    while i <= n - m
        invariant
            n == hay@.len(),
            m == needle@.len(),
            1 <= m <= n,
            i <= n - m + 1,
            forall|j: int|
                0 <= j < i ==> #[trigger] hay@.subrange(j, j + needle@.len() as int) != needle@,
        decreases n - m - i + 1,
    {
        let mut k: usize = 0;
        let mut eq = true;
        while k < m && eq
            invariant
                n == hay@.len(),
                m == needle@.len(),
                i + m <= n,
                k <= m,
                eq ==> forall|l: int| 0 <= l < k ==> hay@[i + l] == needle@[l],
                !eq ==> hay@.subrange(i as int, i as int + m as int) != needle@,
            decreases m - k,
        {
            if hay[i + k] != needle[k] {
                proof {
                    assert(hay@.subrange(i as int, i as int + m as int)[k as int] == hay@[i + k]);
                }
                eq = false;
            }
            k += 1;
        }
        if eq {
            proof {
                assert(hay@.subrange(i as int, i as int + m as int) =~= needle@);
            }
            return true;
        }
        i += 1;
    }
    proof {
        assert_by_contradiction!(!is_substring(needle@, hay@), {
            let w = choose|w: int|
                0 <= w && w + needle@.len() <= hay@.len() && #[trigger] hay@.subrange(
                    w,
                    w + needle@.len(),
                ) == needle@;
            assert(w < i);
        });
    }
    false
}

proof fn lemma_first_space_at(s: Seq<char>, k: int)
    requires
        0 <= k <= s.len(),
        forall|j: int| 0 <= j < k ==> s[j] != ' ',
        k < s.len() ==> s[k] == ' ',
    ensures
        first_space(s) == k,
    decreases k,
{
    if k > 0 {
        assert forall|j: int| 0 <= j < k - 1 implies s.drop_first()[j] != ' ' by {
            assert(s.drop_first()[j] == s[j + 1]);
        }
        if k - 1 < s.drop_first().len() {
            assert(s.drop_first()[k - 1] == s[k]);
        }
        lemma_first_space_at(s.drop_first(), k - 1);
    }
}

/// The query's characters split on single spaces, empty tokens kept, exactly
/// as `split_spec` has them.
fn split_tokens(q: &Vec<char>) -> (toks: Vec<Vec<char>>)
    ensures
        toks.deep_view() == split_spec(q@),
{
    let n = q.len();
    let mut toks: Vec<Vec<char>> = Vec::new();
    let mut tok: Vec<char> = Vec::new();
    let mut start: usize = 0;
    let mut i: usize = 0;
    proof {
        assert(tok@ =~= q@.subrange(0, 0));
        assert(q@.subrange(0, n as int) =~= q@);
        assert(toks.deep_view() =~= Seq::<Seq<char>>::empty());
        assert(split_spec(q@) =~= toks.deep_view() + split_spec(q@.subrange(0, n as int)));
    }
    while i < n
        invariant
            n == q@.len(),
            start <= i <= n,
            tok@ == q@.subrange(start as int, i as int),
            forall|j: int| start <= j < i ==> q@[j] != ' ',
            split_spec(q@) == toks.deep_view() + split_spec(q@.subrange(start as int, n as int)),
        decreases n - i,
    {
        if q[i] == ' ' {
            proof {
                let suffix = q@.subrange(start as int, n as int);
                let fs = i as int - start as int;
                assert forall|j: int| 0 <= j < fs implies suffix[j] != ' ' by {
                    assert(suffix[j] == q@[start + j]);
                }
                assert(suffix[fs] == q@[i as int]);
                lemma_first_space_at(suffix, fs);
                assert(suffix.subrange(0, fs) =~= tok@);
                assert(suffix.subrange(fs + 1, suffix.len() as int) =~= q@.subrange(
                    i as int + 1,
                    n as int,
                ));
            }
            let ghost old_dv = toks.deep_view();
            let ghost done_tok = tok@;
            toks.push(tok);
            proof {
                assert(toks.deep_view() =~~= old_dv.push(done_tok));
                assert(old_dv.push(done_tok) + split_spec(q@.subrange(i as int + 1, n as int))
                    =~= old_dv + (seq![done_tok] + split_spec(
                    q@.subrange(i as int + 1, n as int),
                )));
            }
            tok = Vec::new();
            start = i + 1;
            proof {
                assert(tok@ =~= q@.subrange(start as int, start as int));
            }
        } else {
            tok.push(q[i]);
            proof {
                assert(tok@ =~= q@.subrange(start as int, i as int + 1));
            }
        }
        i += 1;
    }
    proof {
        let suffix = q@.subrange(start as int, n as int);
        assert forall|j: int| 0 <= j < suffix.len() implies suffix[j] != ' ' by {
            assert(suffix[j] == q@[start + j]);
        }
        lemma_first_space_at(suffix, suffix.len() as int);
        assert(suffix =~= tok@);
    }
    let ghost old_dv = toks.deep_view();
    let ghost done_tok = tok@;
    toks.push(tok);
    proof {
        assert(toks.deep_view() =~~= old_dv.push(done_tok));
        assert(old_dv.push(done_tok) =~= old_dv + seq![done_tok]);
    }
    toks
}

/// The lowercase form of a query, as its characters: `lower_of` of the text,
/// and empty text stays empty — which is what makes an empty query match
/// every action.
pub fn lowercase_query(s: &str) -> (r: Vec<char>)
    ensures
        r@ == lower_of(s@),
        s@.len() == 0 ==> r@.len() == 0,
{
    lowercase_chars(s)
}

/// The find rule on lowercased text, exactly as `query_matches` states it.
pub fn matches_lowered(lname: &Vec<char>, lquery: &Vec<char>) -> (r: bool)
    ensures
        r == query_matches(lname@, lquery@),
{
    if chars_eq(lname, lquery) {
        return true;
    }
    let toks = split_tokens(lquery);
    let n = toks.len();
    for k in 0..n
        invariant
            n == toks@.len(),
            toks.deep_view() == split_spec(lquery@),
            lname@ != lquery@,
            forall|j: int|
                0 <= j < k ==> is_substring(#[trigger] split_spec(lquery@)[j], lname@),
    {
        proof {
            assert(toks.deep_view()[k as int] == toks@[k as int].deep_view());
            assert(toks@[k as int].deep_view() =~= toks@[k as int]@);
        }
        if !contains_sub(lname, &toks[k]) {
            return false;
        }
    }
    true
}

/// The step from one prefix of the actions to the next.
proof fn lemma_matched_of_step(
    actions: Seq<(Seq<char>, Seq<Seq<char>>)>,
    lquery: Seq<char>,
    i: int,
)
    requires
        0 <= i < actions.len(),
    ensures
        matched_of(actions.take(i + 1), lquery) == if action_matches(actions[i].0, lquery) {
            matched_of(actions.take(i), lquery).push(actions[i])
        } else {
            matched_of(actions.take(i), lquery)
        },
{
    assert(actions.take(i + 1).drop_last() =~= actions.take(i));
    assert(actions.take(i + 1).last() == actions[i]);
}

/// The actions matching the query, in source order, each at most once —
/// exactly `matched_of` over the lowercased query.
pub fn find_actions(actions: &Vec<Action>, query: &str) -> (r: Vec<Action>)
    ensures
        r.deep_view() == matched_of(actions.deep_view(), lower_of(query@)),
{
    let lq = lowercase_chars(query);
    let mut out: Vec<Action> = Vec::new();
    let n = actions.len();
    proof {
        assert(actions.deep_view().take(0) =~= Seq::<(Seq<char>, Seq<Seq<char>>)>::empty());
        assert(out.deep_view() =~= Seq::<(Seq<char>, Seq<Seq<char>>)>::empty());
    }
    for i in 0..n
        invariant
            n == actions@.len(),
            lq@ == lower_of(query@),
            out.deep_view() == matched_of(actions.deep_view().take(i as int), lower_of(query@)),
    {
        let a = &actions[i];
        let lname = lowercase_chars(a.action());
        proof {
            lemma_matched_of_step(actions.deep_view(), lower_of(query@), i as int);
            assert(actions.deep_view()[i as int] == a@);
        }
        if matches_lowered(&lname, &lq) {
            out.push(a.clone());
            proof {
                assert(out.deep_view() =~= matched_of(
                    actions.deep_view().take(i as int + 1),
                    lower_of(query@),
                ));
            }
        }
    }
    proof {
        assert(actions.deep_view().take(n as int) =~= actions.deep_view());
    }
    out
}

/// The find command's core: loads both catalogs, flattens them built-in
/// first, and keeps the actions matching the query. Success is owed exactly
/// when both catalogs load, the result is `matched_of` over the two parsed
/// models in that order, an empty match set is a success, and a fault is the
/// load's own.
pub fn find_tool(query: &str, user: UserSource) -> (r: Result<Vec<Action>, LoadError>)
    ensures
        r matches Ok(v) ==> text_parses(builtin_text()) && user_loads(user) && v.deep_view()
            == matched_of(parsed_model(builtin_text()) + user_model(user), lower_of(query@)),
        r matches Err(e) ==> !(text_parses(builtin_text()) && user_loads(user)) && (parses_to(
            builtin_text(),
            Err(e),
        ) || (text_parses(builtin_text()) && user_load_outcome(user, Err(e)))),
{
    let pair = match tools(user) {
        Ok(p) => p,
        Err(e) => {
            return Err(e);
        },
    };
    let (builtin, usr) = pair;
    let ghost builtin_model = builtin@;
    let ghost from_user_model = usr@;
    let mut all = builtin.into_actions();
    let mut from_user = usr.into_actions();
    all.append(&mut from_user);
    proof {
        assert(all.deep_view() =~= builtin_model + from_user_model);
        assert(builtin_model == parsed_model(builtin_text()));
        assert(from_user_model == user_model(user));
    }
    let matched = find_actions(&all, query);
    Ok(matched)
}

/// Law: a query whose lowered form is empty matches every action, in source
/// order — any text contains the empty token.
pub proof fn lemma_empty_query_matches_all(
    actions: Seq<(Seq<char>, Seq<Seq<char>>)>,
    lquery: Seq<char>,
)
    requires
        lquery.len() == 0,
    ensures
        matched_of(actions, lquery) == actions,
    decreases actions.len(),
{
    assert(first_space(lquery) == 0);
    assert(split_spec(lquery) =~= seq![lquery]);
    assert forall|name: Seq<char>| #[trigger] is_substring(lquery, name) by {
        assert(name.subrange(0, 0 + lquery.len() as int) =~= lquery);
    }
    if actions.len() == 0 {
        assert(matched_of(actions, lquery) =~= actions);
    } else {
        lemma_empty_query_matches_all(actions.drop_last(), lquery);
        assert(action_matches(actions.last().0, lquery));
        assert(actions.drop_last().push(actions.last()) =~= actions);
    }
}

/// Law: matching is case-insensitive — two queries with the same lowered form
/// match exactly the same actions.
pub proof fn lemma_case_insensitive(
    actions: Seq<(Seq<char>, Seq<Seq<char>>)>,
    q1: Seq<char>,
    q2: Seq<char>,
)
    requires
        lower_of(q1) == lower_of(q2),
    ensures
        matched_of(actions, lower_of(q1)) == matched_of(actions, lower_of(q2)),
{
}

/// Law: an action whose lowered name is exactly the lowered query is matched,
/// whatever its tokens would have said.
pub proof fn lemma_exact_match(
    actions: Seq<(Seq<char>, Seq<Seq<char>>)>,
    lquery: Seq<char>,
    i: int,
)
    requires
        0 <= i < actions.len(),
        lower_of(actions[i].0) == lquery,
    ensures
        matched_of(actions, lquery).contains(actions[i]),
    decreases actions.len(),
{
    let matched = matched_of(actions, lquery);
    if i == actions.len() - 1 {
        assert(matched.last() == actions[i]);
    } else {
        lemma_exact_match(actions.drop_last(), lquery, i);
        let rest = matched_of(actions.drop_last(), lquery);
        let w = choose|w: int| 0 <= w < rest.len() && rest[w] == actions.drop_last()[i];
        assert(matched[w] == actions[i]);
    }
}

/// Law: for a query other than the exact name, matching is exactly "every
/// space-separated token occurs in the name".
pub proof fn lemma_token_and(lname: Seq<char>, lquery: Seq<char>)
    requires
        lname != lquery,
    ensures
        query_matches(lname, lquery) == all_tokens_match(lname, split_spec(lquery)),
{
}

/// Law: the built-in scenario — a catalog holding one action named
/// "compress files", queried with "compress" — matches that one action with
/// everything it holds, once the name's lowercase form is itself (the fact
/// the tests witness at run time).
pub proof fn lemma_builtin_scenario(m: Seq<(Seq<char>, Seq<Seq<char>>)>, lq: Seq<char>)
    requires
        m.len() == 1,
        lower_of(m[0].0) == "compress files"@,
        lq == "compress"@,
    ensures
        matched_of(m, lq) == m,
{
    reveal_strlit("compress files");
    reveal_strlit("compress");
    assert("compress files"@.subrange(0, 0 + "compress"@.len() as int) =~= "compress"@);
    assert(is_substring("compress"@, "compress files"@));
    assert forall|j: int| 0 <= j < lq.len() implies lq[j] != ' ' by {
        assert(lq.len() == 8);
    }
    lemma_first_space_at(lq, lq.len() as int);
    assert(split_spec(lq) =~= seq![lq]);
    assert(action_matches(m[0].0, lq));
    assert(m.drop_last() =~= Seq::<(Seq<char>, Seq<Seq<char>>)>::empty());
    assert(matched_of(Seq::<(Seq<char>, Seq<Seq<char>>)>::empty(), lq) == Seq::<
        (Seq<char>, Seq<Seq<char>>),
    >::empty());
    assert(matched_of(m, lq) == matched_of(m.drop_last(), lq).push(m.last()));
    assert(matched_of(m, lq) =~= m);
}

/// Law: everything `matched_of` keeps does match the query.
pub proof fn lemma_matched_sound(actions: Seq<(Seq<char>, Seq<Seq<char>>)>, lquery: Seq<char>)
    ensures
        forall|i: int|
            0 <= i < matched_of(actions, lquery).len() ==> action_matches(
                (#[trigger] matched_of(actions, lquery)[i]).0,
                lquery,
            ),
    decreases actions.len(),
{
    if actions.len() > 0 {
        lemma_matched_sound(actions.drop_last(), lquery);
        let rest = matched_of(actions.drop_last(), lquery);
        let matched = matched_of(actions, lquery);
        assert forall|i: int| 0 <= i < matched.len() implies action_matches(
            matched[i].0,
            lquery,
        ) by {
            if i < rest.len() {
                assert(matched[i] == rest[i]);
            } else {
                assert(matched[i] == actions.last());
            }
        }
    }
}

} // verus!
