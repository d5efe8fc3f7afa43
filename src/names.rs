//! Display names of catalog items in the filesystem.
use vstd::prelude::*;
use crate::api::Item;

verus! {

/// `s` with every path separator replaced by an underscore.
pub open spec fn escaped(s: Seq<char>) -> Seq<char> {
    Seq::new(s.len(), |i: int| if s[i] == '/' { '_' } else { s[i] })
}

/// What follows the last path separator of `s`; all of `s` if it has none.
pub open spec fn last_segment(s: Seq<char>) -> Seq<char>
    decreases s.len(),
{
    if s.len() == 0 {
        s
    } else if s.last() == '/' {
        Seq::empty()
    } else {
        last_segment(s.drop_last()).push(s.last())
    }
}

/// The name under which an item is shown: the escaped title of a container or
/// video; the file name of a track's source path, which must not be empty.
pub open spec fn name_spec(item: Item) -> Option<Seq<char>> {
    match item {
        Item::Directory { title, .. } => Some(escaped(title@)),
        Item::Video { title, .. } => Some(escaped(title@)),
        Item::Track { media, .. } => {
            let seg = last_segment(media.part.file@);
            if seg.len() > 0 {
                Some(seg)
            } else {
                None
            }
        },
    }
}

/// Relies on str::replace: every "/" of `s` becomes "_", the rest is kept.
#[verifier::external_body]
fn replace_separators(s: &str) -> (r: String)
    ensures
        r@ == escaped(s@),
{
    s.replace("/", "_")
}

/// Relies on str::rsplit_once: the text after the last '/', if `s` has one.
#[verifier::external_body]
fn after_last_separator(s: &str) -> (r: Option<String>)
    ensures
        r is None <==> !s@.contains('/'),
        r matches Some(t) ==> {
            &&& t@.len() < s@.len()
            &&& s@[s@.len() - t@.len() - 1] == '/'
            &&& s@.subrange(s@.len() - t@.len(), s@.len() as int) == t@
            &&& !t@.contains('/')
        },
{
    s.rsplit_once('/').map(|(_, t)| t.to_string())
}

proof fn lemma_last_segment_no_separator(s: Seq<char>)
    requires
        !s.contains('/'),
    ensures
        last_segment(s) == s,
    decreases s.len(),
{
    if s.len() > 0 {
        assert(!s.drop_last().contains('/')) by {
            if s.drop_last().contains('/') {
                let i = choose|i: int| 0 <= i < s.drop_last().len() && s.drop_last()[i] == '/';
                assert(s[i] == '/');
            }
        }
        lemma_last_segment_no_separator(s.drop_last());
        assert(s.drop_last().push(s.last()) =~= s);
    }
}

proof fn lemma_last_segment_suffix(s: Seq<char>, n: int)
    requires
        0 <= n < s.len(),
        s[s.len() - n - 1] == '/',
        !s.subrange(s.len() - n, s.len() as int).contains('/'),
    ensures
        last_segment(s) == s.subrange(s.len() - n, s.len() as int),
    decreases n,
{
    if n == 0 {
        assert(s.subrange(s.len() - n, s.len() as int) =~= Seq::<char>::empty());
    } else {
        let t = s.subrange(s.len() - n, s.len() as int);
        let d = s.drop_last();
        assert(t.last() == s.last());
        assert(d.subrange(d.len() - (n - 1), d.len() as int) =~= t.drop_last());
        assert(!t.drop_last().contains('/')) by {
            if t.drop_last().contains('/') {
                let i = choose|i: int| 0 <= i < t.drop_last().len() && t.drop_last()[i] == '/';
                assert(t[i] == '/');
            }
        }
        assert(s.last() != '/') by {
            assert(t[n - 1] == s.last());
        }
        lemma_last_segment_suffix(d, n - 1);
        assert(t.drop_last().push(t.last()) =~= t);
    }
}

/// Replaces every path separator of a title by an underscore.
pub fn escape_name(s: &str) -> (r: String)
    ensures
        r@ == escaped(s@),
{
    replace_separators(s)
}

/// The file name of a source path: what follows its last separator.
pub fn file_name(path: &str) -> (r: String)
    ensures
        r@ == last_segment(path@),
{
    match after_last_separator(path) {
        Some(t) => {
            proof {
                lemma_last_segment_suffix(path@, t@.len() as int);
            }
            t
        },
        None => {
            proof {
                lemma_last_segment_no_separator(path@);
            }
            path.to_string()
        },
    }
}

/// The name under which an item is shown, or none for a track whose source
/// path ends without a file name.
pub fn resolve_name(item: &Item) -> (r: Option<String>)
    ensures
        r matches Some(n) ==> name_spec(*item) == Some(n@),
        r is None <==> name_spec(*item) is None,
{
    match item {
        Item::Directory { title, .. } => Some(escape_name(title.as_str())),
        Item::Video { title, .. } => Some(escape_name(title.as_str())),
        Item::Track { media, .. } => {
            let name = file_name(media.part.file.as_str());
            if !name.as_str().is_empty() {
                Some(name)
            } else {
                None
            }
        },
    }
}

} // verus!
