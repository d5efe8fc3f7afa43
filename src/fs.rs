//! The filesystem driver: directory listings per parent inode, and the answers
//! to lookup, attribute queries, reads and enumeration.
//!
//! The driver makes no remote call itself. Each operation says what it needs
//! from the catalog (a listing to crawl, one item's metadata, a byte range) and
//! takes what came back as an argument; a failed fetch is passed in as `None`.
use std::collections::HashMap;
use vstd::prelude::*;
use crate::api::{Item, MediaContainer, MediaKind, Part};
use crate::attr::{attr_spec, key_of, key_of_inode, root_attr, root_attr_spec, to_attr, Attr, FileKind, INO_ROOT};
use crate::names::{name_spec, resolve_name};

verus! {

broadcast use vstd::std_specs::hash::group_hash_axioms;

/// One name in a directory listing.
pub struct Entry {
    pub name: String,
    pub attr: Attr,
}

/// What an entry holds, with its name as characters.
pub ghost struct EntryView {
    pub name: Seq<char>,
    pub attr: Attr,
}

impl View for Entry {
    type V = EntryView;

    open spec fn view(&self) -> EntryView {
        EntryView { name: self.name@, attr: self.attr }
    }
}

/// The entries of a vector, as views.
pub open spec fn view_entries(v: Seq<Entry>) -> Seq<EntryView> {
    v.map_values(|e: Entry| e@)
}

/// The entry that an item gives: it needs both a name and attributes.
pub open spec fn entry_spec(item: Item) -> Option<EntryView> {
    match (name_spec(item), attr_spec(item)) {
        (Some(n), Some(a)) => Some(EntryView { name: n, attr: a }),
        _ => None,
    }
}

/// Whether some entry of `es` is named `n`.
pub open spec fn has_name(es: Seq<EntryView>, n: Seq<char>) -> bool {
    exists|i: int| 0 <= i < es.len() && #[trigger] es[i].name == n
}

/// The position of the entry named `n` (meaningful when `has_name(es, n)`).
pub open spec fn index_of_name(es: Seq<EntryView>, n: Seq<char>) -> int {
    choose|i: int| 0 <= i < es.len() && #[trigger] es[i].name == n
}

/// No two entries share a name.
pub open spec fn unique_names(es: Seq<EntryView>) -> bool {
    forall|i: int, j: int|
        0 <= i < es.len() && 0 <= j < es.len() && #[trigger] es[i].name == #[trigger] es[j].name
            ==> i == j
}

/// `es` with `e` added: an entry of the same name is replaced in its place,
/// otherwise `e` goes at the end.
pub open spec fn upsert(es: Seq<EntryView>, e: EntryView) -> Seq<EntryView> {
    if has_name(es, e.name) {
        es.update(index_of_name(es, e.name), e)
    } else {
        es.push(e)
    }
}

/// The listing that a directory's items give, in order of first appearance of
/// each name; of items that share a name, the last one wins.
pub open spec fn listing(items: Seq<Item>) -> Seq<EntryView>
    decreases items.len(),
{
    if items.len() == 0 {
        Seq::empty()
    } else {
        let prev = listing(items.drop_last());
        match entry_spec(items.last()) {
            Some(e) => upsert(prev, e),
            None => prev,
        }
    }
}

/// The attributes of the entry named `n` in `es`, if there is one.
pub open spec fn find_attr(es: Seq<EntryView>, n: Seq<char>) -> Option<Attr> {
    if has_name(es, n) {
        Some(es[index_of_name(es, n)].attr)
    } else {
        None
    }
}

proof fn lemma_upsert_unique(es: Seq<EntryView>, e: EntryView)
    requires
        unique_names(es),
    ensures
        unique_names(upsert(es, e)),
{
    if has_name(es, e.name) {
        let k = index_of_name(es, e.name);
        let u = upsert(es, e);
        assert forall|i: int, j: int|
            0 <= i < u.len() && 0 <= j < u.len() && #[trigger] u[i].name == #[trigger] u[j].name
            implies i == j by {
            if i == k && j != k {
                assert(es[j].name == es[k].name);
            } else if j == k && i != k {
                assert(es[i].name == es[k].name);
            } else if i != k && j != k {
                assert(es[i].name == es[j].name);
            }
        }
    } else {
        let u = upsert(es, e);
        assert forall|i: int, j: int|
            0 <= i < u.len() && 0 <= j < u.len() && #[trigger] u[i].name == #[trigger] u[j].name
            implies i == j by {
            if i < es.len() && j < es.len() {
                assert(es[i].name == es[j].name);
            } else if i < es.len() {
                assert(es[i].name == e.name);
            } else if j < es.len() {
                assert(es[j].name == e.name);
            }
        }
    }
}

/// A directory listing never holds two entries of one name.
pub proof fn lemma_listing_unique(items: Seq<Item>)
    ensures
        unique_names(listing(items)),
    decreases items.len(),
{
    if items.len() > 0 {
        lemma_listing_unique(items.drop_last());
        if let Some(e) = entry_spec(items.last()) {
            lemma_upsert_unique(listing(items.drop_last()), e);
        }
    }
}

/// The entry that an item gives, if it has both a name and attributes.
fn entry_of(item: &Item) -> (r: Option<Entry>)
    ensures
        match r {
            Some(e) => entry_spec(*item) == Some(e@),
            None => entry_spec(*item) is None,
        },
{
    match resolve_name(item) {
        Some(name) => match to_attr(item) {
            Some(attr) => Some(Entry { name, attr }),
            None => None,
        },
        None => None,
    }
}

/// Adds an entry to a listing, replacing one of the same name.
fn upsert_entry(es: &mut Vec<Entry>, e: Entry)
    requires
        unique_names(view_entries(old(es)@)),
    ensures
        view_entries(final(es)@) == upsert(view_entries(old(es)@), e@),
{
    let ghost v0 = view_entries(es@);
    let mut i: usize = 0;
    while i < es.len()
        invariant
            i <= es.len(),
            es@ == old(es)@,
            v0 == view_entries(es@),
            unique_names(v0),
            forall|j: int| 0 <= j < i ==> v0[j].name != e@.name,
        decreases es.len() - i,
    {
        if es[i].name == e.name {
            proof {
                assert(v0[i as int].name == e@.name);
                let k = index_of_name(v0, e@.name);
                assert(v0[k].name == v0[i as int].name);
            }
            let ghost ev = e@;
            es.set(i, e);
            proof {
                assert(view_entries(es@) =~= v0.update(i as int, ev));
            }
            return;
        }
        i = i + 1;
    }
    let ghost ev = e@;
    es.push(e);
    proof {
        assert(!has_name(v0, ev.name));
        assert(view_entries(es@) =~= v0.push(ev));
    }
}

/// Builds the listing of a directory from its items.
fn build_listing(items: &Vec<Item>) -> (r: Vec<Entry>)
    ensures
        view_entries(r@) == listing(items@),
{
    let mut es: Vec<Entry> = Vec::new();
    let mut k: usize = 0;
    proof {
        assert(view_entries(es@) =~= Seq::<EntryView>::empty());
        assert(items@.subrange(0, 0) =~= Seq::<Item>::empty());
    }
    while k < items.len()
        invariant
            k <= items.len(),
            view_entries(es@) == listing(items@.subrange(0, k as int)),
        decreases items.len() - k,
    {
        proof {
            let s = items@.subrange(0, k as int + 1);
            assert(s.drop_last() =~= items@.subrange(0, k as int));
            assert(s.last() == items@[k as int]);
            lemma_listing_unique(items@.subrange(0, k as int));
        }
        match entry_of(&items[k]) {
            Some(e) => {
                upsert_entry(&mut es, e);
            },
            None => {},
        }
        k = k + 1;
    }
    proof {
        assert(items@.subrange(0, items@.len() as int) =~= items@);
    }
    es
}

/// The cache after directory `p` is filled from `items`: a directory that is
/// already there keeps its listing.
pub open spec fn filled(c: Map<u64, Seq<EntryView>>, p: u64, items: Seq<Item>) -> Map<u64, Seq<EntryView>> {
    if c.contains_key(p) {
        c
    } else {
        c.insert(p, listing(items))
    }
}

/// The rating key of an item; videos carry none.
pub open spec fn item_key(item: Item) -> Option<u64> {
    match item {
        Item::Directory { rating_key, .. } => Some(rating_key),
        Item::Track { rating_key, .. } => Some(rating_key),
        Item::Video { .. } => None,
    }
}

/// The items of a metadata response, if the fetch succeeded.
pub open spec fn fetched_items(metadata: Option<&MediaContainer>) -> Option<Seq<Item>> {
    match metadata {
        Some(c) => Some(c.items@),
        None => None,
    }
}

/// The attributes reported for inode `ino`, given the items that the
/// metadata fetch for its rating key returned (none if it failed): fixed ones
/// for the root; otherwise those synthesized from the first item.
pub open spec fn getattr_spec(ino: u64, fetched: Option<Seq<Item>>) -> Option<Attr> {
    if ino == INO_ROOT {
        Some(root_attr_spec())
    } else if key_of_inode(ino) is None {
        None
    } else {
        match fetched {
            Some(items) => if items.len() > 0 {
                attr_spec(items[0])
            } else {
                None
            },
            None => None,
        }
    }
}

/// Whether the first fetched item is a track: only tracks can be read.
pub open spec fn readable(ino: u64, fetched: Option<Seq<Item>>) -> bool {
    &&& key_of_inode(ino) is Some
    &&& fetched matches Some(items)
    &&& items.len() > 0
    &&& items[0] is Track
}

/// The first `size` bytes of `body`, or all of it if it is shorter.
pub open spec fn clamped(body: Seq<u8>, size: u32) -> Seq<u8> {
    if size < body.len() {
        body.subrange(0, size as int)
    } else {
        body
    }
}

/// Whether `d` shows entry `e` at position `pos`.
pub open spec fn shows(d: DirEntry, e: EntryView, pos: int) -> bool {
    &&& d.ino == e.attr.ino
    &&& d.position == pos
    &&& d.kind == e.attr.kind
    &&& d.name@ == e.name
}

/// The catalog listing whose items fill a directory.
#[derive(Debug, Clone, Copy, PartialEq, Eq, Structural)]
pub enum Listing {
    /// The configured library section, for the root.
    Section { section: u64, kind: MediaKind },
    /// The children of the item with this rating key.
    Children { rating_key: u64 },
}

/// One entry handed out by `readdir`.
pub struct DirEntry {
    pub ino: u64,
    /// Position of the entry: one past its index in the listing.
    pub position: usize,
    pub kind: FileKind,
    pub name: String,
}

/// The driver's state: the section it shows and the listings crawled so far.
pub struct PlexFS {
    section: u64,
    kind: MediaKind,
    entries: HashMap<u64, Vec<Entry>>,
}

impl PlexFS {
    /// The listing of each directory crawled so far, by its inode.
    pub closed spec fn cache(&self) -> Map<u64, Seq<EntryView>> {
        Map::new(|p: u64| self.entries@.contains_key(p), |p: u64| view_entries(self.entries@[p]@))
    }

    /// Every cached listing holds each name once.
    pub closed spec fn wf(&self) -> bool {
        forall|p: u64| #[trigger] self.cache().contains_key(p) ==> unique_names(self.cache()[p])
    }

    /// The library section shown at the root.
    pub closed spec fn section_spec(&self) -> u64 {
        self.section
    }

    /// The media kind of that section.
    pub closed spec fn kind_spec(&self) -> MediaKind {
        self.kind
    }

    /// A driver for one library section, with nothing crawled yet.
    pub fn new(section: u64, kind: MediaKind) -> (r: PlexFS)
        ensures
            r.wf(),
            r.cache() == Map::<u64, Seq<EntryView>>::empty(),
            r.section_spec() == section,
            r.kind_spec() == kind,
    {
        let r = PlexFS { section, kind, entries: HashMap::new() };
        proof {
            assert(r.cache() =~= Map::<u64, Seq<EntryView>>::empty());
        }
        r
    }

    /// Whether the directory `ino` has been crawled, so that its listing is
    /// answered without remote calls.
    pub fn is_cached(&self, ino: u64) -> (r: bool)
        ensures
            r == self.cache().contains_key(ino),
    {
        self.entries.contains_key(&ino)
    }

    /// The catalog listing to crawl for directory `ino`: the section for the
    /// root, the children of its item otherwise, none for inode 0.
    pub fn listing_source(&self, ino: u64) -> (r: Option<Listing>)
        ensures
            r == (if ino == INO_ROOT {
                Some(Listing::Section { section: self.section_spec(), kind: self.kind_spec() })
            } else {
                match key_of_inode(ino) {
                    Some(k) => Some(Listing::Children { rating_key: k }),
                    None => None,
                }
            }),
    {
        if ino == INO_ROOT {
            Some(Listing::Section { section: self.section, kind: self.kind })
        } else {
            match key_of(ino) {
                Some(k) => Some(Listing::Children { rating_key: k }),
                None => None,
            }
        }
    }

    /// Stores the listing built from the crawled items of directory `ino`. A
    /// directory already crawled keeps its listing.
    pub fn fill(&mut self, ino: u64, items: &Vec<Item>)
        requires
            old(self).wf(),
        ensures
            final(self).wf(),
            final(self).cache() == filled(old(self).cache(), ino, items@),
            final(self).section_spec() == old(self).section_spec(),
            final(self).kind_spec() == old(self).kind_spec(),
    {
        if !self.entries.contains_key(&ino) {
            let es = build_listing(items);
            self.entries.insert(ino, es);
            proof {
                assert(self.cache() =~= old(self).cache().insert(ino, listing(items@)));
                lemma_listing_unique(items@);
            }
        }
    }

    /// The attributes of the entry `name` of directory `parent`; none if the
    /// directory has not been crawled or has no such entry.
    pub fn lookup(&self, parent: u64, name: &String) -> (r: Option<Attr>)
        requires
            self.wf(),
        ensures
            r == (if self.cache().contains_key(parent) {
                find_attr(self.cache()[parent], name@)
            } else {
                None
            }),
    {
        match self.entries.get(&parent) {
            None => None,
            Some(es) => {
                let ghost v = view_entries(es@);
                proof {
                    assert(self.cache().contains_key(parent));
                    assert(v == self.cache()[parent]);
                }
                let mut i: usize = 0;
                while i < es.len()
                    invariant
                        i <= es.len(),
                        v == view_entries(es@),
                        self.cache().contains_key(parent),
                        v == self.cache()[parent],
                        unique_names(v),
                        forall|j: int| 0 <= j < i ==> v[j].name != name@,
                    decreases es.len() - i,
                {
                    if es[i].name == *name {
                        proof {
                            assert(v[i as int].name == name@);
                            assert(has_name(v, name@));
                            let k = index_of_name(v, name@);
                            assert(v[k].name == v[i as int].name);
                            assert(k == i as int);
                            assert(v[i as int] == es@[i as int]@);
                        }
                        return Some(es[i].attr);
                    }
                    i = i + 1;
                }
                None
            },
        }
    }

    /// The entries of directory `ino` from position `offset` on; none if the
    /// directory has not been crawled.
    pub fn readdir(&self, ino: u64, offset: usize) -> (r: Vec<DirEntry>)
        ensures
            ({
                let es = if self.cache().contains_key(ino) {
                    self.cache()[ino]
                } else {
                    Seq::empty()
                };
                &&& r@.len() == (if offset < es.len() { es.len() - offset } else { 0 })
                &&& forall|j: int|
                    0 <= j < r@.len() ==> shows(#[trigger] r@[j], es[offset + j], offset + j + 1)
            }),
    {
        let mut r: Vec<DirEntry> = Vec::new();
        match self.entries.get(&ino) {
            None => r,
            Some(es) => {
                let ghost v = view_entries(es@);
                proof {
                    assert(self.cache().contains_key(ino));
                    assert(v == self.cache()[ino]);
                }
                let mut i: usize = offset;
                while i < es.len()
                    invariant
                        offset <= i,
                        offset < es.len() ==> i <= es.len(),
                        offset >= es.len() ==> i == offset,
                        v == view_entries(es@),
                        v.len() == es@.len(),
                        self.cache().contains_key(ino),
                        v == self.cache()[ino],
                        r@.len() == i - offset,
                        forall|j: int|
                            0 <= j < r@.len() ==> shows(#[trigger] r@[j], v[offset + j], offset + j + 1),
                    decreases es.len() - i,
                {
                    let e = &es[i];
                    proof {
                        assert(v[i as int] == es@[i as int]@);
                    }
                    let d = DirEntry { ino: e.attr.ino, position: i + 1, kind: e.attr.kind, name: e.name.clone() };
                    let ghost r0 = r@;
                    r.push(d);
                    proof {
                        assert forall|j: int| 0 <= j < r@.len() implies shows(
                            #[trigger] r@[j],
                            v[offset + j],
                            offset + j + 1,
                        ) by {
                            if j < r0.len() {
                                assert(r@[j] == r0[j]);
                            }
                        }
                    }
                    i = i + 1;
                }
                r
            },
        }
    }

    /// The attributes of inode `ino`. For an inode other than the root,
    /// `metadata` is what the metadata fetch for its rating key (`key_of`)
    /// returned, or none if it failed; the root needs no fetch.
    pub fn getattr(&self, ino: u64, metadata: Option<&MediaContainer>) -> (r: Option<Attr>)
        ensures
            r == getattr_spec(ino, fetched_items(metadata)),
    {
        if ino == INO_ROOT {
            return Some(root_attr());
        }
        match key_of(ino) {
            None => None,
            Some(_) => match metadata {
                None => None,
                Some(c) => {
                    if c.items.len() > 0 {
                        to_attr(&c.items[0])
                    } else {
                        None
                    }
                },
            },
        }
    }

    /// The part to read for inode `ino`, given what the metadata fetch for its
    /// rating key returned: the part of the first item if that is a track.
    pub fn read_part<'a>(&self, ino: u64, metadata: Option<&'a MediaContainer>) -> (r: Option<&'a Part>)
        ensures
            r is Some <==> readable(ino, fetched_items(metadata)),
            r matches Some(p) ==> (metadata matches Some(c) && c.items@[0] matches Item::Track { media, .. } && *p == media.part),
    {
        match key_of(ino) {
            None => None,
            Some(_) => match metadata {
                None => None,
                Some(c) => {
                    if c.items.len() > 0 {
                        match &c.items[0] {
                            Item::Track { media, .. } => Some(&media.part),
                            _ => None,
                        }
                    } else {
                        None
                    }
                },
            },
        }
    }

    /// What a read of `size` bytes answers, given the bytes that the ranged
    /// fetch returned: at most `size` of them, fewer at the end of the content.
    pub fn clamp_read(&self, body: Vec<u8>, size: u32) -> (r: Vec<u8>)
        ensures
            r@ == clamped(body@, size),
    {
        let mut body = body;
        if (size as usize) < body.len() {
            body.truncate(size as usize);
        }
        body
    }
}

/// For every rating key `k` of at least 1, the attributes reported for inode
/// `INO_ROOT + k` are those synthesized from the item that the metadata fetch
/// for `k` returned, and carry that inode.
pub proof fn lemma_getattr_by_key(k: u64, items: Seq<Item>)
    requires
        1 <= k < u64::MAX,
        items.len() > 0,
        item_key(items[0]) == Some(k),
    ensures
        key_of_inode((INO_ROOT + k) as u64) == Some(k),
        getattr_spec((INO_ROOT + k) as u64, Some(items)) == attr_spec(items[0]),
        attr_spec(items[0]) matches Some(a) ==> a.ino == INO_ROOT + k,
{
}

/// The root's attributes are the fixed ones whatever was fetched, and the root
/// names no rating key, so nothing is fetched for it.
pub proof fn lemma_root_attr(fetched: Option<Seq<Item>>)
    ensures
        key_of_inode(INO_ROOT) is None,
        getattr_spec(INO_ROOT, fetched) == Some(root_attr_spec()),
{
}

/// Once a directory is filled it stays cached with its first listing: a second
/// fill, from whatever a later crawl would return, changes nothing.
pub proof fn lemma_fill_memoized(
    c: Map<u64, Seq<EntryView>>,
    p: u64,
    first: Seq<Item>,
    second: Seq<Item>,
)
    ensures
        filled(c, p, first).contains_key(p),
        filled(filled(c, p, first), p, second) == filled(c, p, first),
        !c.contains_key(p) ==> filled(c, p, first)[p] == listing(first),
{
}

} // verus!
