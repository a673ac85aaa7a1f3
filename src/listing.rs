use vstd::prelude::*;
use vstd::string::{StrSliceExecFns, StringExecFns};
use crate::text::substring;

verus! {

/// One child of a listed directory, as read from the filesystem.
#[derive(Debug)]
pub struct DirEntry {
    /// The child's absolute path.
    pub path: String,
    /// Its size in bytes.
    pub size: u64,
    /// Whether it is itself a directory.
    pub is_dir: bool,
}

/// `s` from position `i` on, with each occurrence of `pat` replaced by `rep`,
/// scanning left to right without overlap.
pub open spec fn replace_from(s: Seq<char>, pat: Seq<char>, rep: Seq<char>, i: int) -> Seq<
    char,
>
    decreases s.len() - i,
{
    if i < 0 || i >= s.len() || pat.len() == 0 {
        s.subrange(if i < 0 { 0 } else if i > s.len() { s.len() as int } else { i }, s.len() as int)
    } else if i + pat.len() <= s.len() && s.subrange(i, i + pat.len()) == pat {
        rep + replace_from(s, pat, rep, i + pat.len())
    } else {
        seq![s[i]] + replace_from(s, pat, rep, i + 1)
    }
}

/// `s` with every occurrence of `pat` replaced by `rep`.
pub open spec fn replace_all(s: Seq<char>, pat: Seq<char>, rep: Seq<char>) -> Seq<char> {
    replace_from(s, pat, rep, 0)
}

/// The decimal digits of `n`.
pub open spec fn dec_chars(n: nat) -> Seq<char>
    decreases n,
{
    if n < 10 {
        seq![digit_char(n)]
    } else {
        dec_chars(n / 10).push(digit_char(n % 10))
    }
}

pub open spec fn digit_char(d: nat) -> char {
    "0123456789"@[d as int]
}

/// One table row of the listing.
pub open spec fn row(root: Seq<char>, e: DirEntry) -> Seq<char> {
    let s = replace_all(e.path@, root, Seq::empty());
    "<tr><td>"@ + dec_chars(e.size as nat) + "</td><td><a href='"@ + s + "'>"@ + s + (if e.is_dir {
        "/"@
    } else {
        Seq::empty()
    }) + "</a></td></tr>"@
}

/// The rows of the listing, in the order the entries were read.
pub open spec fn rows(root: Seq<char>, es: Seq<DirEntry>) -> Seq<char>
    decreases es.len(),
{
    if es.len() == 0 {
        Seq::empty()
    } else {
        rows(root, es.drop_last()) + row(root, es.last())
    }
}

/// The HTML page listing directory `dir`.
pub open spec fn listing(root: Seq<char>, dir: Seq<char>, es: Seq<DirEntry>) -> Seq<char> {
    "<h1>"@ + replace_all(dir, root, "root"@) + "</h1><br><br><table styling='width:50%'>"@
        + "<tr><th>Size</th><th>Name</th></tr>"@ + rows(root, es) + "</table>"@
}

/// Appends `s` with each occurrence of `pat` replaced by `rep` to `out`.
pub fn push_replaced(out: &mut String, s: &str, pat: &str, rep: &str)
    requires
        pat@.len() > 0,
    ensures
        final(out)@ == old(out)@ + replace_all(s@, pat@, rep@),
{
    let n = s.unicode_len();
    let k = pat.unicode_len();
    let mut i: usize = 0;
    while i < n
        invariant
            n == s@.len(),
            k == pat@.len(),
            k > 0,
            i <= n,
            out@ + replace_from(s@, pat@, rep@, i as int) == old(out)@ + replace_all(
                s@,
                pat@,
                rep@,
            ),
        decreases n - i,
    {
        let mut matched = k <= n - i;
        let mut j: usize = 0;
        while matched && j < k
            invariant
                n == s@.len(),
                k == pat@.len(),
                i < n,
                j <= k,
                matched ==> i + k <= n,
                matched ==> forall|t: int| 0 <= t < j ==> s@[i + t] == pat@[t],
                !matched ==> !(i + k <= n && s@.subrange(i as int, i + k) == pat@),
            decreases k - j + (if matched { 1int } else { 0 }),
        {
            if s.get_char(i + j) != pat.get_char(j) {
                assert(i + k <= n ==> s@.subrange(i as int, i + k)[j as int] != pat@[j as int]);
                matched = false;
            } else {
                j = j + 1;
            }
        }
        if matched {
            assert(s@.subrange(i as int, i + k) == pat@);
            out.append(rep);
            i = i + k;
        } else {
            let c = substring(s, i, i + 1);
            assert(c@ == seq![s@[i as int]]);
            out.append(c.as_str());
            i = i + 1;
        }
    }
}

/// Appends the decimal digits of `n` to `out`.
pub fn push_dec(out: &mut String, n: u64)
    ensures
        final(out)@ == old(out)@ + dec_chars(n as nat),
    decreases n,
{
    if n >= 10 {
        push_dec(out, n / 10);
    }
    let d = (n % 10) as usize;
    proof {
        reveal_strlit("0123456789");
    }
    let c = substring("0123456789", d, d + 1);
    assert(c@ == seq![digit_char(d as nat)]);
    out.append(c.as_str());
}

/// Renders the HTML listing of directory `dir` with its `entries`, showing paths
/// relative to `root`.
pub fn render_directory(root: &str, dir: &str, entries: &Vec<DirEntry>) -> (r: String)
    requires
        root@.len() > 0,
    ensures
        r@ == listing(root@, dir@, entries@),
{
    let mut out = String::new();
    out.append("<h1>");
    push_replaced(&mut out, dir, root, "root");
    out.append("</h1><br><br><table styling='width:50%'>");
    out.append("<tr><th>Size</th><th>Name</th></tr>");
    let ghost top = out@;
    let mut i: usize = 0;
    while i < entries.len()
        invariant
            root@.len() > 0,
            i <= entries.len(),
            out@ == top + rows(root@, entries@.subrange(0, i as int)),
        decreases entries.len() - i,
    {
        let e = &entries[i];
        let ghost before = out@;
        out.append("<tr><td>");
        push_dec(&mut out, e.size);
        out.append("</td><td><a href='");
        push_replaced(&mut out, e.path.as_str(), root, "");
        out.append("'>");
        push_replaced(&mut out, e.path.as_str(), root, "");
        if e.is_dir {
            out.append("/");
        }
        out.append("</a></td></tr>");
        proof {
            reveal_strlit("");
            assert(""@ =~= Seq::<char>::empty());
        }
        assert(out@ =~= before + row(root@, *e));
        assert(entries@.subrange(0, i + 1).drop_last() == entries@.subrange(0, i as int));
        i = i + 1;
    }
    assert(entries@.subrange(0, i as int) == entries@);
    out.append("</table>");
    out
}

} // verus!
