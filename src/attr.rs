//! Filesystem attributes synthesized from catalog items.
use vstd::prelude::*;
use crate::api::Item;

verus! {

/// The inode of the mount root, which stands for no catalog item.
pub const INO_ROOT: u64 = 1;

/// Permission bits of every node: read-only for everyone.
pub const PERM: u16 = 0o444;

/// Owner of every node.
pub const UID: u32 = 501;

/// Group of every node.
pub const GID: u32 = 20;

/// The kind of a filesystem node.
#[derive(Debug, Clone, Copy, PartialEq, Eq, Structural)]
pub enum FileKind {
    Directory,
    RegularFile,
}

/// Attributes of a filesystem node. Times are whole seconds since the Unix epoch.
#[derive(Debug, Clone, Copy, PartialEq, Eq, Structural)]
pub struct Attr {
    pub ino: u64,
    pub size: u64,
    pub blocks: u64,
    pub atime: u64,
    pub mtime: u64,
    pub ctime: u64,
    pub crtime: u64,
    pub kind: FileKind,
    pub perm: u16,
    pub nlink: u32,
    pub uid: u32,
    pub gid: u32,
    pub rdev: u32,
    pub flags: u32,
}

/// The inode of the item with rating key `k`.
pub open spec fn inode_of(k: u64) -> int {
    INO_ROOT + k
}

/// The rating key that inode `ino` stands for; none for the root (and for 0).
pub open spec fn key_of_inode(ino: u64) -> Option<u64> {
    if ino > INO_ROOT {
        Some((ino - INO_ROOT) as u64)
    } else {
        None
    }
}

/// Attributes of the mount root.
pub open spec fn root_attr_spec() -> Attr {
    Attr {
        ino: INO_ROOT,
        size: 0,
        blocks: 0,
        atime: 0,
        mtime: 0,
        ctime: 0,
        crtime: 0,
        kind: FileKind::Directory,
        perm: PERM,
        nlink: 2,
        uid: UID,
        gid: GID,
        rdev: 0,
        flags: 0,
    }
}

/// Attributes of a node for an item with the given key and times.
pub open spec fn node_attr(
    k: u64,
    size: u64,
    blocks: u64,
    kind: FileKind,
    last_viewed_at: u64,
    added_at: u64,
    updated_at: u64,
) -> Attr {
    Attr {
        ino: inode_of(k) as u64,
        size,
        blocks,
        atime: last_viewed_at,
        mtime: updated_at,
        ctime: added_at,
        crtime: added_at,
        kind,
        perm: PERM,
        nlink: 1,
        uid: UID,
        gid: GID,
        rdev: 0,
        flags: 0,
    }
}

/// What attributes an item has: a directory for a container, a regular file of
/// the part's size for a track, none for a video or for an item whose inode
/// would not fit in 64 bits.
pub open spec fn attr_spec(item: Item) -> Option<Attr> {
    match item {
        Item::Directory { rating_key, last_viewed_at, added_at, updated_at, .. } => {
            if rating_key < u64::MAX {
                Some(node_attr(rating_key, 0, 0, FileKind::Directory, last_viewed_at, added_at, updated_at))
            } else {
                None
            }
        },
        Item::Track { rating_key, last_viewed_at, added_at, updated_at, media, .. } => {
            if rating_key < u64::MAX {
                Some(node_attr(rating_key, media.part.size, 1, FileKind::RegularFile, last_viewed_at, added_at, updated_at))
            } else {
                None
            }
        },
        Item::Video { .. } => None,
    }
}

/// Attributes of the mount root.
pub fn root_attr() -> (r: Attr)
    ensures
        r == root_attr_spec(),
{
    Attr {
        ino: INO_ROOT,
        size: 0,
        blocks: 0,
        atime: 0,
        mtime: 0,
        ctime: 0,
        crtime: 0,
        kind: FileKind::Directory,
        perm: PERM,
        nlink: 2,
        uid: UID,
        gid: GID,
        rdev: 0,
        flags: 0,
    }
}

/// The rating key that an inode stands for, or none for the root.
pub fn key_of(ino: u64) -> (r: Option<u64>)
    ensures
        r == key_of_inode(ino),
{
    if ino > INO_ROOT {
        Some(ino - INO_ROOT)
    } else {
        None
    }
}

/// Synthesizes the attributes of a catalog item.
pub fn to_attr(item: &Item) -> (r: Option<Attr>)
    ensures
        r == attr_spec(*item),
{
    match item {
        Item::Directory { rating_key, last_viewed_at, added_at, updated_at, .. } => {
            if *rating_key < u64::MAX {
                Some(Attr {
                    ino: INO_ROOT + *rating_key,
                    size: 0,
                    blocks: 0,
                    atime: *last_viewed_at,
                    mtime: *updated_at,
                    ctime: *added_at,
                    crtime: *added_at,
                    kind: FileKind::Directory,
                    perm: PERM,
                    nlink: 1,
                    uid: UID,
                    gid: GID,
                    rdev: 0,
                    flags: 0,
                })
            } else {
                None
            }
        },
        Item::Track { rating_key, last_viewed_at, added_at, updated_at, media, .. } => {
            if *rating_key < u64::MAX {
                Some(Attr {
                    ino: INO_ROOT + *rating_key,
                    size: media.part.size,
                    blocks: 1,
                    atime: *last_viewed_at,
                    mtime: *updated_at,
                    ctime: *added_at,
                    crtime: *added_at,
                    kind: FileKind::RegularFile,
                    perm: PERM,
                    nlink: 1,
                    uid: UID,
                    gid: GID,
                    rdev: 0,
                    flags: 0,
                })
            } else {
                None
            }
        },
        Item::Video { .. } => None,
    }
}

/// Distinct rating keys give distinct inodes, none of them the root's, and
/// each inode leads back to its rating key.
pub proof fn lemma_inode_bijection(k1: u64, k2: u64)
    requires
        k1 >= 1,
        k2 >= 1,
        k1 < u64::MAX,
        k2 < u64::MAX,
    ensures
        k1 != k2 ==> inode_of(k1) != inode_of(k2),
        inode_of(k1) != INO_ROOT,
        key_of_inode(inode_of(k1) as u64) == Some(k1),
{
}

} // verus!
