//! Where the redirects of a page that is read through the proxy lead.

use vstd::prelude::*;
use crate::fetch_proxy::{
    before_query, directory, has_scheme, lemma_after_last, lemma_host, lemma_through_last,
    origin_part, path_part, rewritten, without_dots,
};
use crate::laws::proxies::texts_are_split_at_separators;
use crate::laws::text::lemma_first_of;
use crate::path::{left_segments, segments_of, tidied, tidied_segments};
use crate::text::{
    first_index, joined, lemma_first_index, lemma_pieces_nonempty, lemma_pieces_of_one, pieces,
};

verus! {

/// Whether a character parts the host, the path, the query and the fragment of a URL.
pub open spec fn parts_urls(c: char) -> bool {
    c == '/' || c == '?' || c == '#'
}

/// Whether a text is a path: empty, or behind a slash, and without query and fragment.
pub open spec fn is_path(s: Seq<char>) -> bool {
    &&& s.len() == 0 || s[0] == '/'
    &&& holds_no_query(s)
}

/// Whether a text holds neither a question mark nor a number sign.
pub open spec fn holds_no_query(s: Seq<char>) -> bool {
    forall|i: int| 0 <= i < s.len() ==> #[trigger] s[i] != '?' && s[i] != '#'
}

/// Whether a text is a query and a fragment, each of which may be left out.
pub open spec fn is_tail(s: Seq<char>) -> bool {
    s.len() == 0 || s[0] == '?' || s[0] == '#'
}

/// Whether `url` is the one over HTTPS with the given parts. What it says of a user ends with
/// an at sign.
pub open spec fn is_url(
    url: Seq<char>,
    user: Seq<char>,
    host: Seq<char>,
    path: Seq<char>,
    query: Seq<char>,
    fragment: Seq<char>,
) -> bool {
    &&& url == "https://"@ + (user + host + (path + query + fragment))
    &&& user.len() == 0 || user.last() == '@'
    &&& forall|i: int| 0 <= i < user.len() ==> !parts_urls(#[trigger] user[i])
    &&& host.len() > 0
    &&& forall|i: int| 0 <= i < host.len() ==> !parts_urls(#[trigger] host[i]) && host[i] != '@'
    &&& is_path(path)
    &&& query.len() == 0 || query[0] == '?'
    &&& forall|i: int| 0 <= i < query.len() ==> #[trigger] query[i] != '#'
    &&& fragment.len() == 0 || fragment[0] == '#'
}

/// Whether a text begins with the name of a scheme that ends before the colon at `i`: a letter,
/// and behind it letters, digits, plus signs, hyphens and dots.
pub open spec fn scheme_ends(s: Seq<char>, i: int) -> bool {
    &&& 0 < i < s.len()
    &&& s[i] == ':'
    &&& 'a' <= s[0] <= 'z' || 'A' <= s[0] <= 'Z'
    &&& forall|j: int|
        0 <= j < i ==> 'a' <= #[trigger] s[j] <= 'z' || 'A' <= s[j] <= 'Z' || '0' <= s[j] <= '9'
            || s[j] == '+' || s[j] == '-' || s[j] == '.'
}

/// Whether a location is relative: without a scheme.
pub open spec fn is_relative(s: Seq<char>) -> bool {
    forall|i: int| !#[trigger] scheme_ends(s, i)
}

proof fn lemma_scheme(s: Seq<char>)
    ensures
        has_scheme(s) <==> !is_relative(s),
{
    lemma_first_of(s, ':');
    let k = first_index(s, ':');
    if has_scheme(s) {
        assert forall|j: int| 0 <= j < k implies crate::fetch_proxy::is_scheme_char(
            #[trigger] s[j],
        ) by {
            assert(s.take(k)[j] == s[j]);
        }
        assert(s.take(k)[0] == s[0]);
        assert(scheme_ends(s, k));
    }
    if !is_relative(s) {
        let i = choose|i: int| #[trigger] scheme_ends(s, i);
        lemma_first_index(s, ':', i);
        assert(s.contains(s[i]));
        let name = s.take(i);
        assert forall|j: int| 0 <= j < name.len() implies crate::fetch_proxy::is_scheme_char(
            #[trigger] name[j],
        ) by {
            assert(name[j] == s[j]);
        }
        assert(crate::fetch_proxy::is_scheme(name));
    }
}

proof fn lemma_url(
    url: Seq<char>,
    user: Seq<char>,
    host: Seq<char>,
    path: Seq<char>,
    query: Seq<char>,
    fragment: Seq<char>,
)
    requires
        is_url(url, user, host, path, query, fragment),
    ensures
        origin_part(url) == Some("https://"@ + host),
        path_part(url) == path + query + fragment,
        crate::fetch_proxy::before_fragment(path_part(url)) == path + query,
        before_query(path_part(url)) == path,
{
    let behind = path + query + fragment;
    let front = user + host;
    let rest = front + behind;
    assert("https://"@ =~= url.subrange(0, "https://"@.len() as int));
    assert(url.skip("https://"@.len() as int) =~= rest);
    let n = front.len() as int;
    lemma_host(rest, n);
    assert(rest.take(n) =~= front);
    let u = user.len() as int;
    assert forall|j: int| u <= j < front.len() implies front[j] != '@' by {
        assert(front[j] == host[j - u]);
    }
    lemma_after_last(front, '@', u);
    assert(front.skip(u) =~= host);
    assert(rest.skip(n) =~= behind);
    let k = (path + query).len() as int;
    assert forall|j: int| 0 <= j < k implies behind[j] != '#' by {
        if j < path.len() {
            assert(behind[j] == path[j]);
        } else {
            assert(behind[j] == query[j - path.len()]);
        }
    }
    lemma_first_index(behind, '#', k);
    let bare = behind.take(k);
    assert(bare =~= path + query);
    assert forall|j: int| 0 <= j < path.len() implies bare[j] != '?' by {
        assert(bare[j] == path[j]);
    }
    lemma_first_index(bare, '?', path.len() as int);
    assert(bare.take(path.len() as int) =~= path);
}

proof fn lemma_without_dots(path: Seq<char>, tail: Seq<char>)
    requires
        holds_no_query(path),
        is_tail(tail),
    ensures
        without_dots(path + tail) == tidied(path) + tail,
{
    let s = path + tail;
    let n = path.len() as int;
    lemma_first_of(s, '#');
    let k = first_index(s, '#');
    assert forall|j: int| 0 <= j < n implies s[j] != '#' && s[j] != '?' by {
        assert(s[j] == path[j]);
    }
    if s.contains('#') {
        assert(k >= n);
    } else {
        lemma_first_index(s, '#', s.len() as int);
    }
    let bare = s.take(k);
    if bare.len() > n {
        assert(s[n] == tail[0]);
        assert(s[n] != '#');
    }
    lemma_first_index(bare, '?', n);
    assert(bare.take(n) =~= path);
    assert(s.skip(n) =~= tail);
}

/// A redirect to a URL over HTTPS comes back to the proxy, with the URL behind its own path. A
/// redirect to a URL of another scheme stays as it is.
pub proof fn redirects_with_a_scheme(target: Seq<char>, location: Seq<char>, i: int)
    ensures
        "https://"@.is_prefix_of(location) ==> rewritten(target, location) == "/fetch/"@ + location,
        !"https://"@.is_prefix_of(location) && scheme_ends(location, i) ==> rewritten(
            target,
            location,
        ) == location,
{
    lemma_scheme(location);
}

/// Where the URL of the page names no host, a relative redirect stays as it is.
pub proof fn redirects_of_pages_without_a_host(
    target: Seq<char>,
    user: Seq<char>,
    behind: Seq<char>,
    location: Seq<char>,
)
    requires
        target == "https://"@ + (user + behind),
        user.len() == 0 || user.last() == '@',
        forall|i: int| 0 <= i < user.len() ==> !parts_urls(#[trigger] user[i]),
        behind.len() == 0 || parts_urls(behind[0]),
        is_relative(location),
    ensures
        rewritten(target, location) == location,
{
    lemma_scheme(location);
    lemma_https_has_scheme(location);
    let rest = user + behind;
    assert("https://"@ =~= target.subrange(0, "https://"@.len() as int));
    assert(target.skip("https://"@.len() as int) =~= rest);
    let n = user.len() as int;
    lemma_host(rest, n);
    assert(rest.take(n) =~= user);
    lemma_after_last(user, '@', n);
    assert(user.skip(n) =~= Seq::empty());
}

/// A redirect that is relative to the page comes back to the proxy, as the URL over HTTPS that
/// it stands for: on the host of the page, without what its URL says of a user. One that begins
/// with a slash names a path of that host, one with a question mark another query of the page,
/// one with a number sign, or an empty one, another fragment.
pub proof fn relative_redirects(
    target: Seq<char>,
    user: Seq<char>,
    host: Seq<char>,
    path: Seq<char>,
    query: Seq<char>,
    fragment: Seq<char>,
    other: Seq<char>,
    tail: Seq<char>,
)
    requires
        is_url(target, user, host, path, query, fragment),
        is_tail(tail),
    ensures
        is_path(other) && other.len() > 0 && !(other.len() > 1 && other[1] == '/') ==> rewritten(
            target,
            other + tail,
        ) == "/fetch/https://"@ + (host + tidied(other) + tail),
        tail.len() > 0 && tail[0] == '?' ==> rewritten(target, tail) == "/fetch/https://"@ + (host
            + path + tail),
        tail.len() == 0 || tail[0] == '#' ==> rewritten(target, tail) == "/fetch/https://"@ + (host
            + path + query + tail),
{
    lemma_url(target, user, host, path, query, fragment);
    lemma_literals();
    let front = "https://"@ + host;
    if is_path(other) && other.len() > 0 && !(other.len() > 1 && other[1] == '/') {
        let location = other + tail;
        assert(location[0] == other[0]);
        lemma_unschemed(location);
        lemma_starts(location);
        lemma_without_dots(other, tail);
        assert("/fetch/"@ + (front + (tidied(other) + tail)) =~= "/fetch/https://"@ + (host
            + tidied(other) + tail));
    }
    lemma_unschemed(tail);
    lemma_starts(tail);
    assert("/fetch/"@ + (front + path + tail) =~= "/fetch/https://"@ + (host + path + tail));
    assert("/fetch/"@ + (front + (path + query) + tail) =~= "/fetch/https://"@ + (host + path
        + query + tail));
}

/// A redirect that begins with two slashes comes back to the proxy, as the URL over HTTPS of the
/// host, the path and the rest that it names.
pub proof fn redirects_to_another_host(
    target: Seq<char>,
    user: Seq<char>,
    host: Seq<char>,
    path: Seq<char>,
    query: Seq<char>,
    fragment: Seq<char>,
    other_host: Seq<char>,
    other: Seq<char>,
    tail: Seq<char>,
)
    requires
        is_url(target, user, host, path, query, fragment),
        forall|i: int| 0 <= i < other_host.len() ==> !parts_urls(#[trigger] other_host[i]),
        is_path(other),
        is_tail(tail),
    ensures
        rewritten(target, "//"@ + (other_host + other + tail)) == "/fetch/https://"@ + (other_host
            + tidied(other) + tail),
{
    lemma_url(target, user, host, path, query, fragment);
    lemma_literals();
    let rest = other_host + other + tail;
    let location = "//"@ + rest;
    assert(location[0] == '/' && location[1] == '/');
    lemma_unschemed(location);
    lemma_starts(location);
    assert(location.skip(2) =~= rest);
    let n = other_host.len() as int;
    if n < rest.len() {
        if other.len() > 0 {
            assert(rest[n] == other[0]);
        } else {
            assert(rest[n] == tail[0]);
        }
    }
    lemma_host(rest, n);
    assert(rest.take(n) =~= other_host);
    assert(rest.skip(n) =~= other + tail);
    lemma_without_dots(other, tail);
    assert("/fetch/"@ + ("https://"@ + other_host + (tidied(other) + tail))
        =~= "/fetch/https://"@ + (other_host + tidied(other) + tail));
}

/// A redirect to a name beside the page comes back to the proxy, as that name in the directory of
/// the page.
pub proof fn redirects_beside_the_page(
    target: Seq<char>,
    user: Seq<char>,
    host: Seq<char>,
    dir: Seq<char>,
    page: Seq<char>,
    query: Seq<char>,
    fragment: Seq<char>,
    name: Seq<char>,
    tail: Seq<char>,
)
    requires
        is_url(target, user, host, dir + page, query, fragment),
        dir.len() > 0 ==> dir.last() == '/',
        dir.len() == 0 ==> page.len() == 0,
        !page.contains('/'),
        name.len() > 0,
        name[0] != '/',
        holds_no_query(name),
        is_tail(tail),
        is_relative(name + tail),
    ensures
        dir.len() > 0 ==> rewritten(target, name + tail) == "/fetch/https://"@ + (host + tidied(
            dir + name,
        ) + tail),
        dir.len() == 0 ==> rewritten(target, name + tail) == "/fetch/https://"@ + (host + tidied(
            "/"@ + name,
        ) + tail),
{
    let path = dir + page;
    lemma_url(target, user, host, path, query, fragment);
    lemma_literals();
    let location = name + tail;
    assert(location[0] == name[0]);
    lemma_scheme(location);
    lemma_starts(location);
    lemma_https_has_scheme(location);
    let front = "https://"@ + host;
    let base = if dir.len() > 0 {
        dir
    } else {
        "/"@
    };
    assert(directory(path) == base) by {
        if dir.len() > 0 {
            assert(path[dir.len() - 1] == '/');
            assert(path.contains('/'));
            assert forall|j: int| dir.len() <= j < path.len() implies path[j] != '/' by {
                assert(path[j] == page[j - dir.len()]);
                assert(page.contains(page[j - dir.len()]));
            }
            lemma_through_last(path, '/', dir.len() as int);
            assert(path.take(dir.len() as int) =~= dir);
        } else {
            assert(path =~= Seq::empty());
            assert(path.push('/') =~= "/"@);
        }
    }
    let whole = base + name;
    assert(holds_no_query(whole)) by {
        assert forall|i: int| 0 <= i < whole.len() implies #[trigger] whole[i] != '?' && whole[i]
            != '#' by {
            if i < base.len() {
                if dir.len() > 0 {
                    assert(whole[i] == path[i]);
                }
            } else {
                assert(whole[i] == name[i - base.len()]);
            }
        }
    }
    lemma_without_dots(whole, tail);
    assert(base + location =~= whole + tail);
    assert("/fetch/"@ + (front + (tidied(whole) + tail)) =~= "/fetch/https://"@ + (host + tidied(
        whole,
    ) + tail));
}

proof fn lemma_literals()
    ensures
        "/fetch/https://"@ == "/fetch/"@ + "https://"@,
        "//"@ == seq!['/', '/'],
        "/"@ == seq!['/'],
        "?"@ == seq!['?'],
        "#"@ == seq!['#'],
{
    reveal_strlit("/fetch/https://");
    reveal_strlit("/fetch/");
    reveal_strlit("https://");
    reveal_strlit("//");
    reveal_strlit("/");
    reveal_strlit("?");
    reveal_strlit("#");
    assert("/fetch/https://"@ =~= "/fetch/"@ + "https://"@);
    assert("//"@ =~= seq!['/', '/']);
    assert("/"@ =~= seq!['/']);
    assert("?"@ =~= seq!['?']);
    assert("#"@ =~= seq!['#']);
}

/// What does not begin with a letter has no scheme.
proof fn lemma_unschemed(location: Seq<char>)
    requires
        location.len() > 0 ==> parts_urls(location[0]),
    ensures
        !has_scheme(location),
        !"https://"@.is_prefix_of(location),
{
    lemma_scheme(location);
    reveal_strlit("https://");
    if "https://"@.is_prefix_of(location) {
        assert(location.subrange(0, 8)[0] == location[0]);
    }
}

proof fn lemma_https_has_scheme(location: Seq<char>)
    ensures
        "https://"@.is_prefix_of(location) ==> !is_relative(location),
{
    reveal_strlit("https://");
    if "https://"@.is_prefix_of(location) {
        assert forall|j: int| 0 <= j < 8 implies location[j] == "https://"@[j] by {
            assert(location.subrange(0, 8)[j] == location[j]);
        }
        assert(scheme_ends(location, 5));
    }
}

proof fn lemma_starts(s: Seq<char>)
    ensures
        "//"@.len() == 2,
        "//"@.is_prefix_of(s) <==> s.len() > 1 && s[0] == '/' && s[1] == '/',
        "/"@.is_prefix_of(s) <==> s.len() > 0 && s[0] == '/',
        "?"@.is_prefix_of(s) <==> s.len() > 0 && s[0] == '?',
        "#"@.is_prefix_of(s) <==> s.len() > 0 && s[0] == '#',
{
    lemma_literals();
    if "//"@.is_prefix_of(s) {
        assert(s.subrange(0, 2)[0] == s[0]);
        assert(s.subrange(0, 2)[1] == s[1]);
    }
    if s.len() > 1 && s[0] == '/' && s[1] == '/' {
        assert("//"@ =~= s.subrange(0, 2));
    }
    if s.len() > 0 {
        assert(s.subrange(0, 1)[0] == s[0]);
        assert(s.subrange(0, 1) =~= seq![s[0]]);
        if "/"@.is_prefix_of(s) {
            assert("/"@[0] == s.subrange(0, 1)[0]);
        }
        if "?"@.is_prefix_of(s) {
            assert("?"@[0] == s.subrange(0, 1)[0]);
        }
        if "#"@.is_prefix_of(s) {
            assert("#"@[0] == s.subrange(0, 1)[0]);
        }
    }
}

/// The segments of a path behind which others follow.
spec fn front_segments(path: Seq<char>) -> Seq<Seq<char>> {
    if path.len() == 0 {
        Seq::empty()
    } else {
        segments_of(path)
    }
}

proof fn lemma_segments(path: Seq<char>, rest: Seq<char>)
    requires
        path.len() == 0 || path[0] == '/',
    ensures
        segments_of(path + seq!['/'] + rest) == front_segments(path) + pieces(rest, '/'),
{
    let s = path + seq!['/'] + rest;
    if path.len() == 0 {
        assert(s.skip(1) =~= rest);
        assert(Seq::<Seq<char>>::empty() + pieces(rest, '/') =~= pieces(rest, '/'));
    } else {
        assert(s.skip(1) =~= path.skip(1) + seq!['/'] + rest);
        texts_are_split_at_separators(path.skip(1), '/', rest);
    }
}

proof fn lemma_left_after(a: Seq<Seq<char>>, b: Seq<Seq<char>>, rest: Seq<Seq<char>>)
    requires
        left_segments(a) == left_segments(b),
    ensures
        left_segments(a + rest) == left_segments(b + rest),
    decreases rest.len(),
{
    if rest.len() == 0 {
        assert(a + rest =~= a);
        assert(b + rest =~= b);
    } else {
        lemma_left_after(a, b, rest.drop_last());
        assert((a + rest).drop_last() =~= a + rest.drop_last());
        assert((b + rest).drop_last() =~= b + rest.drop_last());
    }
}

/// Two paths whose segments come to the same in front of a common rest come to the same.
proof fn lemma_same_tidied(p: Seq<char>, q: Seq<char>, rest: Seq<char>)
    requires
        p.len() == 0 || p[0] == '/',
        q.len() == 0 || q[0] == '/',
        left_segments(front_segments(p)) == left_segments(front_segments(q)),
    ensures
        tidied(p + seq!['/'] + rest) == tidied(q + seq!['/'] + rest),
{
    lemma_segments(p, rest);
    lemma_segments(q, rest);
    lemma_left_after(front_segments(p), front_segments(q), pieces(rest, '/'));
    lemma_pieces_nonempty(rest, '/');
    let a = front_segments(p) + pieces(rest, '/');
    let b = front_segments(q) + pieces(rest, '/');
    assert(a.last() == pieces(rest, '/').last());
    assert(b.last() == pieces(rest, '/').last());
    lemma_starts(p + seq!['/'] + rest);
    lemma_starts(q + seq!['/'] + rest);
    assert((p + seq!['/'] + rest)[0] == '/');
    assert((q + seq!['/'] + rest)[0] == '/');
}

/// A segment of one dot says nothing, and one of two dots takes the segment before it back,
/// where there is one. At the end of a path they leave the slash in front of them, or of the
/// segment that is taken back.
pub proof fn dots_are_taken_out(path: Seq<char>, segment: Seq<char>, rest: Seq<char>)
    requires
        path.len() == 0 || path[0] == '/',
        !segment.contains('/'),
        segment != "."@,
        segment != ".."@,
    ensures
        tidied(path + "/."@ + seq!['/'] + rest) == tidied(path + seq!['/'] + rest),
        tidied(path + seq!['/'] + segment + "/.."@ + seq!['/'] + rest) == tidied(
            path + seq!['/'] + rest,
        ),
        tidied("/.."@ + seq!['/'] + rest) == tidied(seq!['/'] + rest),
        tidied(path + "/."@) == tidied(path + seq!['/']),
        tidied(path + seq!['/'] + segment + "/.."@) == tidied(path + seq!['/']),
        tidied("/.."@) == "/"@,
{
    lemma_dots();
    let none = Seq::<char>::empty();
    let left = left_segments(front_segments(path));
    let p1 = path + "/."@;
    assert(p1 =~= path + seq!['/'] + "."@);
    lemma_segments(path, "."@);
    lemma_pieces_of_one("."@, '/');
    assert(front_segments(p1).drop_last() =~= front_segments(path));
    assert(front_segments(p1).last() == "."@);
    lemma_same_tidied(p1, path, rest);
    let p2 = path + seq!['/'] + segment;
    lemma_segments(path, segment);
    lemma_pieces_of_one(segment, '/');
    assert(front_segments(p2).drop_last() =~= front_segments(path));
    assert(front_segments(p2).last() == segment);
    let p3 = p2 + "/.."@;
    assert(p3 =~= p2 + seq!['/'] + ".."@);
    lemma_segments(p2, ".."@);
    lemma_pieces_of_one(".."@, '/');
    assert(front_segments(p3).drop_last() =~= front_segments(p2));
    assert(front_segments(p3).last() == ".."@);
    assert(left_segments(front_segments(p2)) == left.push(segment));
    assert(left.push(segment).drop_last() =~= left);
    lemma_same_tidied(p3, path, rest);
    let p4 = "/.."@;
    assert(p4 =~= none + seq!['/'] + ".."@);
    lemma_segments(none, ".."@);
    assert(front_segments(p4) =~= seq![".."@]);
    assert(front_segments(p4).drop_last() =~= Seq::<Seq<char>>::empty());
    reveal_with_fuel(left_segments, 2);
    assert(left_segments(front_segments(p4)) =~= Seq::<Seq<char>>::empty());
    assert(left_segments(front_segments(none)) =~= Seq::<Seq<char>>::empty());
    lemma_same_tidied(p4, none, rest);
    assert(none + seq!['/'] + rest =~= seq!['/'] + rest);
    let end = path + seq!['/'];
    assert(end =~= path + seq!['/'] + none);
    lemma_segments(path, none);
    lemma_pieces_of_one(none, '/');
    assert(segments_of(end).drop_last() =~= front_segments(path));
    assert(segments_of(end).last() == none);
    lemma_starts(end);
    lemma_starts(p1);
    lemma_starts(p3);
    lemma_starts(p4);
    assert(end[0] == '/' && p1[0] == '/' && p3[0] == '/' && p4[0] == '/');
    assert(tidied_segments(segments_of(end)) == left.push(none));
    assert(tidied_segments(segments_of(p1)) == left.push(none));
    assert(tidied_segments(segments_of(p3)) == left.push(none));
    assert(tidied_segments(segments_of(p4)) =~= seq![none]);
    assert("/"@ + joined(seq![none], "/"@) =~= "/"@);
}

proof fn lemma_dots()
    ensures
        "/."@ == seq!['/'] + "."@,
        "/.."@ == seq!['/'] + ".."@,
        "."@ != ".."@,
        "."@.len() == 1,
        ".."@.len() == 2,
        !"."@.contains('/'),
        !".."@.contains('/'),
{
    reveal_strlit("/.");
    reveal_strlit("/..");
    reveal_strlit(".");
    reveal_strlit("..");
    assert("/."@ =~= seq!['/'] + "."@);
    assert("/.."@ =~= seq!['/'] + ".."@);
    assert("."@.len() == 1 && ".."@.len() == 2);
}

} // verus!
