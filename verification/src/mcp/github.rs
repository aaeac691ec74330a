//! Which remotes are hosted on GitHub.

use vstd::prelude::*;

use crate::text::chars;
use crate::text::chars::{chars_of, text_of, text_of_bytes};
use crate::text::lines;
use crate::text::lines::lines;
use crate::text::search;
use crate::text::search::find_text;
use crate::text::words;
use crate::text::words::trimmed;

verus! {

/// A letter of the ASCII alphabet in lower case.
pub open spec fn ascii_lower(c: char) -> char {
    if 'A' <= c <= 'Z' {
        (c as int + 32) as char
    } else {
        c
    }
}

/// A text with the letters of the ASCII alphabet in lower case.
pub open spec fn ascii_lowered(text: Seq<char>) -> Seq<char> {
    Seq::new(text.len(), |i: int| ascii_lower(text[i]))
}

/// The text before the first slash or colon.
pub open spec fn before_path(text: Seq<char>) -> Seq<char>
    decreases text.len(),
{
    if text.len() == 0 || text[0] == '/' || text[0] == ':' {
        Seq::empty()
    } else {
        seq![text[0]] + before_path(text.skip(1))
    }
}

/// The text behind the last at sign, all of it where there is none.
pub open spec fn after_user(text: Seq<char>) -> Seq<char>
    decreases text.len(),
{
    if text.len() == 0 {
        text
    } else if text.last() == '@' {
        Seq::empty()
    } else {
        after_user(text.drop_last()).push(text.last())
    }
}

/// The host of a remote, with the user before it: behind a scheme what comes
/// before the path or the port, else what comes before a colon.
pub open spec fn host_part(url: Seq<char>) -> Option<Seq<char>> {
    match search::find(url, "://"@) {
        Some(at) => Some(before_path(url.skip(at as int + 3))),
        None => match search::find(url, ":"@) {
            Some(at) => Some(url.take(at as int)),
            None => None,
        },
    }
}

/// Whether a URL is that of a remote on GitHub itself: its host is
/// `github.com`, in any case of letters.
pub open spec fn is_github_url(url: Seq<char>) -> bool {
    match host_part(words::trim(url)) {
        Some(host) => ascii_lowered(after_user(host)) == "github.com"@,
        None => false,
    }
}

fn lower_ascii(c: char) -> (lower: char)
    ensures
        lower == ascii_lower(c),
{
    if 'A' <= c && c <= 'Z' {
        ((c as u8) + 32) as char
    } else {
        c
    }
}

/// Strict github.com host match covering https://, ssh:// and scp-style
/// `git@github.com:` URLs while excluding GitHub Enterprise hosts.
pub fn is_github_remote_url(url: &str) -> (is: bool)
    ensures
        is == is_github_url(url@),
{
    let url = trimmed(url);
    let chars = chars_of(url.as_str());
    let ghost all = chars@;
    proof {
        reveal_strlit("://");
        reveal_strlit(":");
    }
    let (from, to): (usize, usize) = match find_text(url.as_str(), "://") {
        Some(at) => {
            assert(at + 3 <= chars.len());
            let start: usize = at + 3;
            let mut end: usize = start;
            let ghost rest = all.skip(start as int);
            assert(all.subrange(start as int, start as int) =~= Seq::<char>::empty());
            assert(all.subrange(start as int, start as int) + before_path(rest) =~= before_path(
                rest,
            ));
            while end < chars.len() && chars[end] != '/' && chars[end] != ':'
                invariant
                    chars@ == all,
                    start <= end <= chars.len(),
                    rest == all.skip(start as int),
                    all.subrange(start as int, end as int) + before_path(all.skip(end as int))
                        == before_path(rest),
                decreases chars.len() - end,
            {
                let ghost tail = all.skip(end as int);
                assert(tail.skip(1) =~= all.skip(end + 1));
                assert(all.subrange(start as int, end + 1) + before_path(all.skip(end + 1))
                    =~= all.subrange(start as int, end as int) + (seq![tail[0]] + before_path(
                    tail.skip(1),
                )));
                end = end + 1;
            }
            assert(before_path(all.skip(end as int)) =~= Seq::<char>::empty());
            assert(all.subrange(start as int, end as int) + Seq::<char>::empty() =~= all.subrange(
                start as int,
                end as int,
            ));
            (start, end)
        },
        None => match find_text(url.as_str(), ":") {
            Some(at) => {
                assert(all.subrange(0, at as int) =~= all.take(at as int));
                (0, at)
            },
            None => {
                return false;
            },
        },
    };
    let ghost host = all.subrange(from as int, to as int);
    let mut start: usize = to;
    assert(host.take(host.len() as int) =~= host);
    assert(host.skip(host.len() as int) =~= Seq::<char>::empty());
    assert(after_user(host) + Seq::<char>::empty() =~= after_user(host));
    while start > from && chars[start - 1] != '@'
        invariant
            chars@ == all,
            from <= start <= to <= chars.len(),
            host == all.subrange(from as int, to as int),
            after_user(host.take(start - from)) + host.skip(start - from) == after_user(host),
        decreases start - from,
    {
        let ghost before = host.take(start - from);
        assert(before.drop_last() =~= host.take(start - from - 1));
        assert(before.last() == all[start - 1]);
        assert(after_user(before.drop_last()).push(before.last()) + host.skip(start - from)
            =~= after_user(before.drop_last()) + host.skip(start - from - 1));
        start = start - 1;
    }
    assert(after_user(host.take(start - from)) =~= Seq::<char>::empty());
    assert(after_user(host) =~= host.skip(start - from));
    let mut lowered = String::new();
    let mut i: usize = start;
    while i < to
        invariant
            chars@ == all,
            from <= start <= i <= to <= chars.len(),
            host == all.subrange(from as int, to as int),
            lowered@ == ascii_lowered(all.subrange(start as int, i as int)),
        decreases to - i,
    {
        lowered.push(lower_ascii(chars[i]));
        assert(lowered@ =~= ascii_lowered(all.subrange(start as int, i + 1)));
        i = i + 1;
    }
    assert(all.subrange(start as int, to as int) =~= host.skip(start - from));
    chars::same_text(lowered.as_str(), "github.com")
}

/// The text behind the first space, none of it where there is none.
pub open spec fn after_space(line: Seq<char>) -> Seq<char> {
    match search::find(line, " "@) {
        Some(at) => line.skip(at as int + 1),
        None => Seq::empty(),
    }
}

/// Whether a listing of remotes, one to a line behind its key, names one on
/// GitHub.
pub open spec fn lists_github(listing: Seq<char>) -> bool {
    exists|i: int|
        0 <= i < lines::lines_of(listing).len() && is_github_url(
            after_space(#[trigger] lines::lines_of(listing)[i]),
        )
}

/// Whether a listing of remotes names one on GitHub.
pub fn lists_github_remote(listing: &str) -> (found: bool)
    ensures
        found == lists_github(listing@),
{
    let found = lines(listing);
    let ghost all = chars::texts(found@);
    let mut i: usize = 0;
    proof {
        reveal_strlit(" ");
    }
    while i < found.len()
        invariant
            all == chars::texts(found@),
            all == lines::lines_of(listing@),
            " "@.len() == 1,
            i <= found.len(),
            forall|k: int| 0 <= k < i ==> !is_github_url(after_space(#[trigger] all[k])),
        decreases found.len() - i,
    {
        assert(all[i as int] == found@[i as int]@);
        let line = found[i].as_str();
        let url = match find_text(line, " ") {
            Some(at) => {
                let chars = chars_of(line);
                assert(chars@.subrange(at + 1, chars@.len() as int) =~= line@.skip(at as int + 1));
                let end: usize = chars.len();
                text_of(&chars, at + 1, end)
            },
            None => {
                let none = String::new();
                assert(none@ =~= Seq::<char>::empty());
                none
            },
        };
        if is_github_remote_url(url.as_str()) {
            return true;
        }
        i = i + 1;
    }
    false
}

/// Whether a repository has a remote on GitHub, from how its listing of
/// remotes ended and what it printed.
pub fn git_repo_has_github_remote(succeeded: bool, output: &[u8]) -> (has: bool)
    ensures
        has == (succeeded && lists_github(chars::lossy_text(output@))),
{
    succeeded && lists_github_remote(text_of_bytes(output).as_str())
}

proof fn lemma_before_path(host: Seq<char>, rest: Seq<char>)
    requires
        !host.contains('/'),
        !host.contains(':'),
        rest.len() == 0 || rest[0] == '/' || rest[0] == ':',
    ensures
        before_path(host + rest) == host,
    decreases host.len(),
{
    let all = host + rest;
    if host.len() == 0 {
        assert(all =~= rest);
        assert(before_path(all) =~= host);
    } else {
        assert(host.contains(host[0]));
        let tail = host.skip(1);
        assert forall|c: char| tail.contains(c) implies host.contains(c) by {
            let i = choose|i: int| 0 <= i < tail.len() && tail[i] == c;
            assert(host[i + 1] == c);
        }
        lemma_before_path(tail, rest);
        assert(all.skip(1) =~= tail + rest);
        assert(seq![host[0]] + tail =~= host);
    }
}

/// The host of a URL stands behind its scheme, before the path or the port; that
/// of a remote without a scheme stands before the colon; and what has neither has
/// no host.
pub proof fn hosts_stand_before_the_path(
    scheme: Seq<char>,
    host: Seq<char>,
    rest: Seq<char>,
)
    requires
        !scheme.contains(':'),
        !host.contains('/'),
        !host.contains(':'),
        rest.len() == 0 || rest[0] == '/' || rest[0] == ':',
    ensures
        host_part(scheme + "://"@ + (host + rest)) == Some(host),
        !search::contains(host + ":"@ + rest, "://"@) ==> host_part(host + ":"@ + rest) == Some(host),
        host_part(scheme) is None,
{
    reveal_strlit("://");
    reveal_strlit(":");
    let url = scheme + "://"@ + (host + rest);
    search::found_at_the_first_character(scheme, "://"@, host + rest);
    search::found_at_the_first_character(scheme, ":"@, Seq::empty());
    assert(url.skip(scheme.len() + 3int) =~= host + rest);
    lemma_before_path(host, rest);
    let short = host + ":"@ + rest;
    search::found_at_the_first_character(host, ":"@, rest);
    assert(short.take(host.len() as int) =~= host);
}

/// The user before a host is no part of it.
pub proof fn users_are_no_part_of_the_host(user: Seq<char>, host: Seq<char>)
    requires
        !host.contains('@'),
    ensures
        after_user(user + seq!['@'] + host) == host,
        after_user(host) == host,
    decreases host.len(),
{
    let all = user + seq!['@'] + host;
    if host.len() == 0 {
        assert(after_user(all) =~= host);
    } else {
        let head = host.drop_last();
        assert(host.contains(host.last()));
        assert(!head.contains('@')) by {
            if head.contains('@') {
                let i = choose|i: int| 0 <= i < head.len() && head[i] == '@';
                assert(host[i] == '@');
            }
        }
        users_are_no_part_of_the_host(user, head);
        assert(all.drop_last() =~= user + seq!['@'] + head);
        assert(head.push(host.last()) =~= host);
    }
}

/// A remote is on GitHub exactly where its host is `github.com`, in whatever case
/// its letters are, whoever the user and whatever the path.
pub proof fn github_is_known_by_its_host(
    scheme: Seq<char>,
    user: Seq<char>,
    host: Seq<char>,
    rest: Seq<char>,
)
    requires
        !scheme.contains(':'),
        !user.contains('/') && !user.contains(':'),
        !host.contains('/') && !host.contains(':') && !host.contains('@'),
        rest.len() == 0 || rest[0] == '/' || rest[0] == ':',
    ensures
        ({
            let at_host = user + seq!['@'] + host;
            let plain = scheme + "://"@ + (host + rest);
            let with_user = scheme + "://"@ + (at_host + rest);
            let short = at_host + ":"@ + rest;
            &&& words::trim(plain) == plain ==> (is_github_url(plain) <==> ascii_lowered(host)
                == "github.com"@)
            &&& words::trim(with_user) == with_user ==> (is_github_url(with_user)
                <==> ascii_lowered(host) == "github.com"@)
            &&& words::trim(short) == short && !search::contains(short, "://"@) ==> (is_github_url(
                short,
            ) <==> ascii_lowered(host) == "github.com"@)
        }),
{
    let at_host = user + seq!['@'] + host;
    assert forall|c: char| at_host.contains(c) && c != '@' implies user.contains(c)
        || host.contains(c) by {
        let i = choose|i: int| 0 <= i < at_host.len() && at_host[i] == c;
        if i < user.len() {
            assert(user[i] == c);
        } else {
            assert(host[i - user.len() - 1] == c);
        }
    }
    hosts_stand_before_the_path(scheme, host, rest);
    hosts_stand_before_the_path(scheme, at_host, rest);
    users_are_no_part_of_the_host(user, host);
}

/// Lowering changes the capitals of the ASCII alphabet alone, each to its own
/// small letter.
pub proof fn lowering_changes_capitals_alone(text: Seq<char>, index: int)
    requires
        0 <= index < text.len(),
    ensures
        ascii_lowered(text).len() == text.len(),
        'A' <= text[index] <= 'Z' ==> 'a' <= ascii_lowered(text)[index] <= 'z' && ascii_lowered(
            text,
        )[index] as int - 'a' as int == text[index] as int - 'A' as int,
        !('A' <= text[index] <= 'Z') ==> ascii_lowered(text)[index] == text[index],
{
}

/// The URL of a listed remote stands behind its key, and one line that names a
/// remote on GitHub is enough.
pub proof fn one_remote_on_github_is_enough(key: Seq<char>, url: Seq<char>, rest: Seq<char>)
    requires
        !key.contains(' ') && !key.contains('\n'),
        !url.contains('\n'),
        url.len() > 0 && url.last() != '\r',
    ensures
        after_space(key + " "@ + url) == url,
        lists_github(key + " "@ + url + seq!['\n'] + rest) <==> is_github_url(url) || lists_github(
            rest,
        ),
{
    reveal_strlit(" ");
    let line = key + " "@ + url;
    search::found_at_the_first_character(key, " "@, url);
    assert(line.skip(key.len() + 1int) =~= url);
    assert(!line.contains('\n')) by {
        if line.contains('\n') {
            let i = choose|i: int| 0 <= i < line.len() && line[i] == '\n';
            if i < key.len() {
                assert(key[i] == '\n');
            } else if i > key.len() {
                assert(url[i - key.len() - 1] == '\n');
            }
        }
    }
    assert(line.last() == url.last());
    lines::lines_end_at_line_feeds(line, rest);
    let all = lines::lines_of(line + seq!['\n'] + rest);
    let others = lines::lines_of(rest);
    assert(all =~= seq![line] + others);
    assert(all[0] == line);
    if lists_github(line + seq!['\n'] + rest) && !is_github_url(url) {
        let i = choose|i: int| 0 <= i < all.len() && is_github_url(after_space(#[trigger] all[i]));
        assert(others[i - 1] == all[i]);
    }
    if lists_github(rest) {
        let i = choose|i: int|
            0 <= i < others.len() && is_github_url(after_space(#[trigger] others[i]));
        assert(all[i + 1] == others[i]);
    }
}

/// What has no host is not on GitHub.
pub proof fn paths_are_not_on_github(url: Seq<char>)
    requires
        !words::trim(url).contains(':'),
    ensures
        !is_github_url(url),
{
    reveal_strlit("://");
    reveal_strlit(":");
    let text = words::trim(url);
    search::found_at_the_first_character(text, "://"@, Seq::empty());
    search::found_at_the_first_character(text, ":"@, Seq::empty());
}

} // verus!
