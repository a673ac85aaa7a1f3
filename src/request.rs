use vstd::prelude::*;
use vstd::string::StrSliceExecFns;
use crate::status::ServerError;
use crate::text::{
    find_char, find_from, lemma_find_at_most, lemma_find_none, same_text, split_words, substring, views,
    words,
};

verus! {

/// A parsed request head. `headers` holds the well-formed header lines in the
/// order they arrived; a later line with the same name overrides an earlier one.
#[derive(Debug)]
pub struct HttpRequest {
    pub method: String,
    pub version: String,
    pub path: String,
    pub query: String,
    pub headers: Vec<(String, String)>,
    pub body: Option<String>,
}

/// The views of a list of name/value pairs.
pub open spec fn pair_views(v: Seq<(String, String)>) -> Seq<(Seq<char>, Seq<char>)> {
    v.map_values(|p: (String, String)| (p.0@, p.1@))
}

/// The mapping given by a list of pairs, a later pair overriding an earlier one.
pub open spec fn map_of(s: Seq<(Seq<char>, Seq<char>)>) -> Map<Seq<char>, Seq<char>>
    decreases s.len(),
{
    if s.len() == 0 {
        Map::empty()
    } else {
        map_of(s.drop_last()).insert(s.last().0, s.last().1)
    }
}

/// The path of a request-target: what precedes the first `?`, without its leading `/`.
pub open spec fn target_path(t: Seq<char>) -> Seq<char> {
    let q = find_from(t, '?', 0);
    if q > 0 && t[0] == '/' {
        t.subrange(1, q)
    } else {
        t.subrange(0, q)
    }
}

/// The query of a request-target: what follows the first `?`, or nothing.
pub open spec fn target_query(t: Seq<char>) -> Seq<char> {
    let q = find_from(t, '?', 0);
    if q < t.len() {
        t.subrange(q + 1, t.len() as int)
    } else {
        Seq::empty()
    }
}

/// A header line holding exactly one colon, split into name and value.
pub open spec fn header_of(l: Seq<char>) -> Option<(Seq<char>, Seq<char>)> {
    let p = find_from(l, ':', 0);
    if p < l.len() && find_from(l, ':', p + 1) == l.len() {
        Some((l.subrange(0, p), l.subrange(p + 1, l.len() as int)))
    } else {
        None
    }
}

/// The headers of the lines from `i` on, added to `m`: reading stops at the
/// first empty line; unreadable lines and lines without exactly one colon are skipped.
pub open spec fn headers_from(
    lines: Seq<Option<Seq<char>>>,
    i: int,
    m: Map<Seq<char>, Seq<char>>,
) -> Map<Seq<char>, Seq<char>>
    decreases lines.len() - i,
{
    if i < 0 || i >= lines.len() {
        m
    } else {
        match lines[i] {
            None => headers_from(lines, i + 1, m),
            Some(l) => if l.len() == 0 {
                m
            } else {
                match header_of(l) {
                    Some(h) => headers_from(lines, i + 1, m.insert(h.0, h.1)),
                    None => headers_from(lines, i + 1, m),
                }
            },
        }
    }
}

/// The header mapping of a request made of `lines`.
pub open spec fn headers_of(lines: Seq<Option<Seq<char>>>) -> Map<Seq<char>, Seq<char>> {
    headers_from(lines, 1, Map::empty())
}

/// The three words of a well-formed request line, if the first line is one.
pub open spec fn request_line(lines: Seq<Option<Seq<char>>>) -> Option<Seq<Seq<char>>> {
    if lines.len() > 0 && lines[0] is Some && words(lines[0]->0).len() == 3 {
        Some(words(lines[0]->0))
    } else {
        None
    }
}

pub open spec fn line_views(lines: Seq<Option<String>>) -> Seq<Option<Seq<char>>> {
    lines.map_values(
        |o: Option<String>|
            match o {
                Some(s) => Some(s@),
                None => None,
            },
    )
}

impl HttpRequest {
    /// The header mapping of this request.
    pub open spec fn header_map(&self) -> Map<Seq<char>, Seq<char>> {
        map_of(pair_views(self.headers@))
    }

    /// Parses a request head from the lines read off a connection (`None` for a
    /// line that could not be read). The first line must consist of exactly three
    /// words: method, request-target and version.
    pub fn parse(lines: &Vec<Option<String>>) -> (r: Result<HttpRequest, ServerError>)
        ensures
            request_line(line_views(lines@)) is None ==> r == Err::<HttpRequest, ServerError>(
                ServerError::RequestParseError,
            ),
            request_line(line_views(lines@)) matches Some(w) ==> r matches Ok(req) && req.method@
                == w[0] && req.version@ == w[2] && req.path@ == target_path(w[1]) && req.query@
                == target_query(w[1]) && req.header_map() == headers_of(line_views(lines@))
                && req.body is None,
    {
        let ghost lv = line_views(lines@);
        if lines.len() == 0 {
            return Err(ServerError::RequestParseError);
        }
        let first = match &lines[0] {
            Some(l) => l,
            None => {
                assert(lv[0] is None);
                return Err(ServerError::RequestParseError);
            },
        };
        assert(lv[0] == Some(first@));
        let parts = split_words(first.as_str());
        if parts.len() != 3 {
            return Err(ServerError::RequestParseError);
        }
        assert(views(parts@)[0] == parts@[0]@ && views(parts@)[1] == parts@[1]@ && views(
            parts@,
        )[2] == parts@[2]@);
        let method = parts[0].clone();
        let url = parts[1].as_str();
        let version = parts[2].clone();
        let mut headers: Vec<(String, String)> = Vec::new();
        let mut i: usize = 1;
        while i < lines.len()
            invariant
                lv == line_views(lines@),
                1 <= i <= lines.len(),
                headers_from(lv, i as int, map_of(pair_views(headers@))) == headers_of(lv),
            ensures
                headers_of(lv) == map_of(pair_views(headers@)),
            decreases lines.len() - i,
        {
            if let Some(l) = &lines[i] {
                assert(lv[i as int] == Some(l@));
                let ls = l.as_str();
                if ls.unicode_len() == 0 {
                    assert(headers_from(lv, i as int, map_of(pair_views(headers@))) == map_of(
                        pair_views(headers@),
                    ));
                    break;
                }
                let p = find_char(ls, ':', 0);
                let n = ls.unicode_len();
                if p < n && find_char(ls, ':', p + 1) == n {
                    let ghost old_pairs = pair_views(headers@);
                    let name = substring(ls, 0, p);
                    let value = substring(ls, p + 1, n);
                    headers.push((name, value));
                    assert(pair_views(headers@).drop_last() == old_pairs);
                }
            } else {
                assert(lv[i as int] is None);
            }
            i = i + 1;
        }
        assert(headers_of(lv) == map_of(pair_views(headers@)));
        let n = url.unicode_len();
        let q = find_char(url, '?', 0);
        let path = if q > 0 && url.get_char(0) == '/' {
            substring(url, 1, q)
        } else {
            substring(url, 0, q)
        };
        let query = if q < n {
            substring(url, q + 1, n)
        } else {
            String::new()
        };
        Ok(HttpRequest { method, version, path, query, headers, body: None })
    }
}

/// A line with no colon, or with two or more, is not a header.
pub proof fn lemma_not_one_colon(l: Seq<char>)
    requires
        (forall|k: int| 0 <= k < l.len() ==> l[k] != ':') || exists|j: int, k: int|
            0 <= j < k < l.len() && l[j] == ':' && l[k] == ':',
    ensures
        header_of(l) is None,
{
    if forall|k: int| 0 <= k < l.len() ==> l[k] != ':' {
        lemma_find_none(l, ':', 0);
    } else {
        let (j, k) = choose|j: int, k: int| 0 <= j < k < l.len() && l[j] == ':' && l[k] == ':';
        lemma_find_at_most(l, ':', 0, j);
        let p = find_from(l, ':', 0);
        if p < l.len() {
            lemma_find_at_most(l, ':', p + 1, k);
        }
    }
}

proof fn lemma_headers_shift(
    lines: Seq<Option<Seq<char>>>,
    i: int,
    k: int,
    m: Map<Seq<char>, Seq<char>>,
)
    requires
        0 <= i < lines.len(),
        i <= k,
    ensures
        headers_from(lines, k + 1, m) == headers_from(lines.remove(i), k, m),
    decreases lines.len() - k,
{
    if k + 1 < lines.len() {
        assert(lines.remove(i)[k] == lines[k + 1]);
        let m2 = match lines[k + 1] {
            Some(l) => match header_of(l) {
                Some(h) => m.insert(h.0, h.1),
                None => m,
            },
            None => m,
        };
        lemma_headers_shift(lines, i, k + 1, m2);
    }
}

proof fn lemma_headers_skip(
    lines: Seq<Option<Seq<char>>>,
    i: int,
    j: int,
    m: Map<Seq<char>, Seq<char>>,
)
    requires
        1 <= j <= i < lines.len(),
        lines[i] matches Some(l) && l.len() > 0 && header_of(l) is None,
    ensures
        headers_from(lines, j, m) == headers_from(lines.remove(i), j, m),
    decreases i - j,
{
    if j == i {
        lemma_headers_shift(lines, i, i, m);
    } else {
        assert(lines.remove(i)[j] == lines[j]);
        let m2 = match lines[j] {
            Some(l) => match header_of(l) {
                Some(h) => m.insert(h.0, h.1),
                None => m,
            },
            None => m,
        };
        lemma_headers_skip(lines, i, j + 1, m2);
    }
}

/// A header line with no colon, or with more than one, is dropped: the headers
/// of the request are those it would have without that line, so the lines after
/// it are still read.
pub proof fn lemma_bad_header_dropped(lines: Seq<Option<Seq<char>>>, i: int)
    requires
        1 <= i < lines.len(),
        lines[i] matches Some(l) && l.len() > 0 && ((forall|k: int|
            0 <= k < l.len() ==> l[k] != ':') || exists|j: int, k: int|
            0 <= j < k < l.len() && l[j] == ':' && l[k] == ':'),
    ensures
        headers_of(lines) == headers_of(lines.remove(i)),
{
    lemma_not_one_colon(lines[i]->0);
    lemma_headers_skip(lines, i, 1, Map::empty());
}

proof fn lemma_map_of_absent(s: Seq<(Seq<char>, Seq<char>)>, k: Seq<char>)
    requires
        forall|j: int| 0 <= j < s.len() ==> s[j].0 != k,
    ensures
        !map_of(s).contains_key(k),
    decreases s.len(),
{
    if s.len() > 0 {
        lemma_map_of_absent(s.drop_last(), k);
    }
}

proof fn lemma_map_of_latest(s: Seq<(Seq<char>, Seq<char>)>, k: Seq<char>, j: int)
    requires
        0 <= j < s.len(),
        s[j].0 == k,
        forall|l: int| j < l < s.len() ==> s[l].0 != k,
    ensures
        map_of(s).contains_key(k),
        map_of(s)[k] == s[j].1,
    decreases s.len(),
{
    if j < s.len() - 1 {
        lemma_map_of_latest(s.drop_last(), k, j);
    }
}

impl HttpRequest {
    /// The value of header `name`, as the last line with that exact name gave it.
    pub fn header(&self, name: &str) -> (r: Option<String>)
        ensures
            r is Some <==> self.header_map().contains_key(name@),
            r matches Some(v) ==> v@ == self.header_map()[name@],
    {
        let ghost s = pair_views(self.headers@);
        let mut i: usize = self.headers.len();
        while i > 0
            invariant
                s == pair_views(self.headers@),
                i <= self.headers.len(),
                forall|l: int| i <= l < s.len() ==> s[l].0 != name@,
            decreases i,
        {
            i = i - 1;
            if same_text(self.headers[i].0.as_str(), name) {
                proof {
                    lemma_map_of_latest(s, name@, i as int);
                }
                return Some(self.headers[i].1.clone());
            }
        }
        proof {
            lemma_map_of_absent(s, name@);
        }
        None
    }
}

} // verus!
