//! Joining a base URL and an endpoint.

use vstd::prelude::*;

use crate::text::{
    contains_part, contains_text, replace_all, replace_part, starts_with, trim_end_char,
    trim_end_of, trim_start_char, trim_start_of,
};

verus! {

/// The version segment `/v1`.
pub open spec fn version_segment() -> Seq<char> {
    seq!['/', 'v', '1']
}

/// Two version segments in a row, `/v1/v1`.
pub open spec fn double_version() -> Seq<char> {
    version_segment() + version_segment()
}

/// `url` without each version segment that another one follows directly: of every run of version
/// segments only the last is left.
pub open spec fn single_versions(url: Seq<char>) -> Seq<char>
    decreases url.len(),
{
    if url.len() == 0 {
        url
    } else if starts_with(url, double_version()) {
        single_versions(url.skip(3))
    } else {
        seq![url[0]] + single_versions(url.skip(1))
    }
}

/// The base without slashes at its end, one slash, and the endpoint without slashes at its start.
pub open spec fn joined(base_url: Seq<char>, endpoint: Seq<char>) -> Seq<char> {
    trim_end_of(base_url, '/') + seq!['/'] + trim_start_of(endpoint, '/')
}

/// Requests to `endpoint` ask for the beta interface.
pub open spec fn asks_for_beta(endpoint: Seq<char>) -> bool {
    &&& contains_text(endpoint, "/v1/messages"@)
    &&& !contains_text(endpoint, "/v1/chat/completions"@)
    &&& !endpoint.contains('?')
}

/// The URL of `endpoint` under `base_url`.
pub open spec fn request_url(base_url: Seq<char>, endpoint: Seq<char>) -> Seq<char> {
    let url = single_versions(joined(base_url, endpoint));
    if asks_for_beta(endpoint) {
        url + "?beta=true"@
    } else {
        url
    }
}

/// One doubled segment counts as much as a single one, wherever it stands.
#[verifier::spinoff_prover]
pub(crate) proof fn lemma_double_is_single(before: Seq<char>, after: Seq<char>)
    ensures
        single_versions(before + double_version() + after) == single_versions(
            before + version_segment() + after,
        ),
    decreases before.len(),
{
    let doubled = before + double_version() + after;
    let single = before + version_segment() + after;
    if before.len() == 0 {
        assert(doubled.take(6) =~= double_version());
        assert(doubled.skip(3) =~= single);
    } else {
        assert(starts_with(doubled, double_version()) == starts_with(single, double_version())) by {
            if before.len() >= 3 {
                assert(doubled.take(6) =~= single.take(6));
            } else {
                assert(doubled[before.len() as int] == '/');
                assert(single[before.len() as int] == '/');
                if starts_with(doubled, double_version()) {
                    assert(doubled.take(6)[before.len() as int] == '/');
                    assert(double_version()[1] == 'v' && double_version()[2] == '1');
                }
                if starts_with(single, double_version()) {
                    assert(single.take(6)[before.len() as int] == '/');
                    assert(double_version()[1] == 'v' && double_version()[2] == '1');
                }
            }
        }
        if starts_with(doubled, double_version()) {
            if before.len() < 3 {
                assert(doubled.take(6)[before.len() as int] == '/');
                assert(double_version()[1] == 'v' && double_version()[2] == '1');
            }
            lemma_double_is_single(before.skip(3), after);
            assert(doubled.skip(3) =~= before.skip(3) + double_version() + after);
            assert(single.skip(3) =~= before.skip(3) + version_segment() + after);
        } else {
            lemma_double_is_single(before.skip(1), after);
            assert(doubled.skip(1) =~= before.skip(1) + double_version() + after);
            assert(single.skip(1) =~= before.skip(1) + version_segment() + after);
            assert(doubled[0] == single[0]);
        }
    }
}

/// Replacing doubled segments by single ones leaves the same text once all runs are collapsed.
#[verifier::spinoff_prover]
proof fn lemma_replace_keeps_single(before: Seq<char>, url: Seq<char>)
    ensures
        single_versions(
            before + replace_all(url, double_version(), version_segment()),
        ) == single_versions(before + url),
    decreases url.len(),
{
    let replaced = replace_all(url, double_version(), version_segment());
    if url.len() == 0 {
    } else if starts_with(url, double_version()) {
        let rest = url.skip(6);
        let rest_replaced = replace_all(rest, double_version(), version_segment());
        lemma_replace_keeps_single(before + version_segment(), rest);
        lemma_double_is_single(before, rest);
        assert(before + replaced =~= before + version_segment() + rest_replaced);
        assert(url =~= url.take(6) + rest);
        assert(before + url =~= before + double_version() + rest);
    } else {
        let rest = url.skip(1);
        let rest_replaced = replace_all(rest, double_version(), version_segment());
        lemma_replace_keeps_single(before + seq![url[0]], rest);
        assert(before + replaced =~= before + seq![url[0]] + rest_replaced);
        assert(before + url =~= before + seq![url[0]] + rest);
    }
}

/// Replacing never lengthens, and shortens where there is something to replace.
proof fn lemma_replace_shortens(url: Seq<char>)
    ensures
        replace_all(url, double_version(), version_segment()).len() <= url.len(),
        contains_text(url, double_version()) ==> replace_all(
            url,
            double_version(),
            version_segment(),
        ).len() < url.len(),
    decreases url.len(),
{
    if url.len() == 0 {
        assert forall|at: int| 0 <= at <= url.len() implies !(#[trigger] starts_with(
            url.skip(at),
            double_version(),
        )) by {}
    } else if starts_with(url, double_version()) {
        lemma_replace_shortens(url.skip(6));
    } else {
        lemma_replace_shortens(url.skip(1));
        if contains_text(url, double_version()) {
            let at = choose|at: int|
                0 <= at <= url.len() && #[trigger] starts_with(url.skip(at), double_version());
            assert(at != 0) by {
                assert(url.skip(0) =~= url);
            }
            assert(url.skip(1).skip(at - 1) =~= url.skip(at));
            assert(contains_text(url.skip(1), double_version()));
        }
    }
}

/// A text without a doubled segment is left as it is.
pub(crate) proof fn lemma_single_unchanged(url: Seq<char>)
    requires
        !contains_text(url, double_version()),
    ensures
        single_versions(url) == url,
    decreases url.len(),
{
    if url.len() > 0 {
        assert(url.skip(0) =~= url);
        assert(!starts_with(url.skip(0), double_version()));
        assert forall|at: int| 0 <= at <= url.skip(1).len() implies !(#[trigger] starts_with(
            url.skip(1).skip(at),
            double_version(),
        )) by {
            assert(url.skip(1).skip(at) =~= url.skip(at + 1));
            assert(!starts_with(url.skip(at + 1), double_version()));
        }
        lemma_single_unchanged(url.skip(1));
        assert(seq![url[0]] + url.skip(1) =~= url);
    }
}

/// Collapsing keeps the first character, and removes nothing before a character that cannot
/// start a version segment.
proof fn lemma_single_first_char(url: Seq<char>)
    ensures
        (single_versions(url).len() == 0) == (url.len() == 0),
        url.len() > 0 ==> single_versions(url)[0] == url[0],
        url.len() > 0 && url[0] != '/' ==> single_versions(url) == seq![url[0]] + single_versions(
            url.skip(1),
        ),
    decreases url.len(),
{
    if url.len() > 0 && starts_with(url, double_version()) {
        lemma_single_first_char(url.skip(3));
        assert(url.take(6)[0] == '/' && url.take(6)[3] == '/');
    }
}

/// Where a text does not start with a doubled segment, its collapsed form starts with a version
/// segment exactly if the text does.
#[verifier::spinoff_prover]
proof fn lemma_single_second(url: Seq<char>)
    requires
        url.len() > 0,
        !starts_with(url, double_version()),
    ensures
        starts_with(single_versions(url), version_segment()) == starts_with(url, version_segment()),
{
    let single = single_versions(url);
    let rest = url.skip(1);
    assert(single[0] == url[0]);
    lemma_single_first_char(rest);
    if starts_with(url, version_segment()) {
        assert(url.take(3)[0] == '/' && url.take(3)[1] == 'v' && url.take(3)[2] == '1');
        assert(rest[0] == 'v');
        lemma_single_first_char(rest.skip(1));
        assert(rest.skip(1)[0] == '1');
        assert(single[1] == 'v' && single[2] == '1');
        assert(single.take(3) =~= version_segment());
    }
    if starts_with(single, version_segment()) {
        assert(single.take(3)[0] == '/' && single.take(3)[1] == 'v' && single.take(3)[2] == '1');
        assert(single_versions(rest)[0] == 'v');
        assert(rest[0] == 'v');
        lemma_single_first_char(rest.skip(1));
        assert(single_versions(rest)[1] == '1');
        assert(rest.skip(1)[0] == '1');
        assert(url.take(3) =~= version_segment());
    }
}

/// Collapsing runs neither takes away nor adds a version segment at the start.
proof fn lemma_single_keeps_start(url: Seq<char>)
    ensures
        starts_with(single_versions(url), version_segment()) == starts_with(url, version_segment()),
    decreases url.len(),
{
    let single = single_versions(url);
    if url.len() == 0 {
    } else if starts_with(url, double_version()) {
        lemma_single_keeps_start(url.skip(3));
        assert(url.take(6)[0] == '/' && url.take(6)[1] == 'v' && url.take(6)[2] == '1');
        assert(url.take(6)[3] == '/' && url.take(6)[4] == 'v' && url.take(6)[5] == '1');
        assert(url.take(3) =~= version_segment());
        assert(url.skip(3).take(3) =~= version_segment());
    } else {
        lemma_single_second(url);
    }
}

/// A collapsed text that did not start with a doubled segment does not do so now.
#[verifier::spinoff_prover]
proof fn lemma_single_starts_without_double(url: Seq<char>)
    requires
        url.len() > 0,
        !starts_with(url, double_version()),
    ensures
        !starts_with(single_versions(url), double_version()),
{
    let single = single_versions(url);
    if starts_with(single, double_version()) {
        let head = single.take(6);
        assert(head[0] == '/' && head[1] == 'v' && head[2] == '1');
        assert(head[3] == '/' && head[4] == 'v' && head[5] == '1');
        let rest = url.skip(1);
        let after = url.skip(3);
        lemma_single_first_char(rest);
        assert(rest[0] == 'v');
        assert(rest.skip(1) =~= url.skip(2));
        lemma_single_first_char(url.skip(2));
        assert(single_versions(rest)[1] == '1');
        assert(url.skip(2)[0] == '1');
        assert(url.skip(2).skip(1) =~= after);
        assert(single =~= seq!['/', 'v', '1'] + single_versions(after));
        assert(single_versions(after).take(3) =~= version_segment());
        lemma_single_keeps_start(after);
        assert(after.take(3)[0] == '/' && after.take(3)[1] == 'v' && after.take(3)[2] == '1');
        assert(url.take(6) =~= double_version());
    }
}

/// No collapsed text holds a doubled segment.
pub(crate) proof fn lemma_single_has_no_double(url: Seq<char>)
    ensures
        !contains_text(single_versions(url), double_version()),
    decreases url.len(),
{
    let single = single_versions(url);
    if url.len() == 0 {
    } else if starts_with(url, double_version()) {
        lemma_single_has_no_double(url.skip(3));
    } else {
        let collapsed = single_versions(url.skip(1));
        lemma_single_has_no_double(url.skip(1));
        lemma_single_starts_without_double(url);
        assert forall|at: int| 0 <= at <= single.len() implies !(#[trigger] starts_with(
            single.skip(at),
            double_version(),
        )) by {
            if at > 0 {
                assert(single.skip(at) =~= collapsed.skip(at - 1));
                assert(!starts_with(collapsed.skip(at - 1), double_version()));
            } else {
                assert(single.skip(0) =~= single);
            }
        }
    }
}

/// A text of one character occurs where the character does.
proof fn lemma_contains_one(text: Seq<char>, part: Seq<char>)
    requires
        part.len() == 1,
    ensures
        contains_text(text, part) == text.contains(part[0]),
{
    if text.contains(part[0]) {
        let at = text.index_of(part[0]);
        assert(text.skip(at).take(1) =~= part);
        assert(starts_with(text.skip(at), part));
    }
    if contains_text(text, part) {
        let at = choose|at: int|
            0 <= at <= text.len() && #[trigger] starts_with(text.skip(at), part);
        assert(text.skip(at).take(1)[0] == part[0]);
        assert(text[at] == part[0]);
    }
}

/// Collapsing a collapsed URL changes nothing.
pub proof fn law_collapsing_is_stable(url: Seq<char>)
    ensures
        single_versions(single_versions(url)) == single_versions(url),
{
    lemma_single_has_no_double(url);
    lemma_single_unchanged(single_versions(url));
}

/// However often the version segment is repeated, the URL of a request never holds it twice in a
/// row.
pub proof fn law_no_repeated_version(base_url: Seq<char>, endpoint: Seq<char>)
    ensures
        !contains_text(request_url(base_url, endpoint), double_version()),
{
    let url = single_versions(joined(base_url, endpoint));
    lemma_single_has_no_double(joined(base_url, endpoint));
    if asks_for_beta(endpoint) {
        reveal_strlit("?beta=true");
        let full = url + "?beta=true"@;
        assert forall|at: int| 0 <= at <= full.len() implies !(#[trigger] starts_with(
            full.skip(at),
            double_version(),
        )) by {
            if starts_with(full.skip(at), double_version()) {
                let head = full.skip(at).take(6);
                assert(head[5] == '1' && head[4] == 'v' && head[3] == '/' && head[2] == '1');
                assert(head[1] == 'v' && head[0] == '/');
                assert(full[at + 5] == '1');
                if at + 6 <= url.len() {
                    assert(url.skip(at).take(6) =~= head);
                    assert(starts_with(url.skip(at), double_version()));
                }
            }
        }
    }
}

/// Slashes at the end of the base and at the start of the endpoint do not matter to the path.
pub proof fn law_slashes_at_the_seam(base_url: Seq<char>, endpoint: Seq<char>)
    ensures
        joined(base_url + seq!['/'], endpoint) == joined(base_url, endpoint),
        joined(base_url, seq!['/'] + endpoint) == joined(base_url, endpoint),
{
    assert((base_url + seq!['/']).drop_last() =~= base_url);
    assert((seq!['/'] + endpoint).skip(1) =~= endpoint);
}

/// Joins `base_url` and `endpoint` with one slash, leaves one of each run of version segments,
/// and asks for the beta interface where the endpoint has it.
#[verifier::spinoff_prover]
pub(crate) fn join_url(base_url: &str, endpoint: &str) -> (url: String)
    ensures
        url@ == request_url(base_url@, endpoint@),
{
    let mut url = String::new();
    url.append(trim_end_char(base_url, '/'));
    url.append("/");
    url.append(trim_start_char(endpoint, '/'));
    proof {
        reveal_strlit("/");
        reveal_strlit("/v1");
        reveal_strlit("/v1/v1");
        assert("/"@ =~= seq!['/']);
        assert("/v1"@ =~= version_segment());
        assert("/v1/v1"@ =~= double_version());
        assert(url@ =~= joined(base_url@, endpoint@));
    }
    while contains_part(url.as_str(), "/v1/v1")
        invariant
            "/v1"@ == version_segment(),
            "/v1/v1"@ == double_version(),
            single_versions(url@) == single_versions(joined(base_url@, endpoint@)),
        ensures
            !contains_text(url@, double_version()),
        decreases url@.len(),
    {
        let ghost before = url@;
        url = replace_part(url.as_str(), "/v1/v1", "/v1");
        proof {
            lemma_replace_shortens(before);
            lemma_replace_keeps_single(Seq::empty(), before);
            assert(Seq::<char>::empty() + before =~= before);
            assert(Seq::<char>::empty() + url@ =~= url@);
        }
    }
    proof {
        lemma_single_unchanged(url@);
        reveal_strlit("?");
        lemma_contains_one(endpoint@, "?"@);
    }
    if contains_part(endpoint, "/v1/messages") && !contains_part(endpoint, "/v1/chat/completions")
        && !contains_part(endpoint, "?") {
        url.append("?beta=true");
    }
    url
}

} // verus!
