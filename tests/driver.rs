use plexfs::api::{Item, Media, MediaContainer, MediaKind, Part};
use plexfs::attr::{key_of, root_attr, to_attr, FileKind, INO_ROOT};
use plexfs::crawl::{Crawl, PAGE_SIZE};
use plexfs::fs::{Listing, PlexFS};

fn collection(rating_key: u64, title: &str) -> Item {
    Item::Directory {
        rating_key,
        guid: String::new(),
        title: title.to_string(),
        parent_title: String::new(),
        summary: String::new(),
        last_viewed_at: 0,
        added_at: 0,
        updated_at: 0,
    }
}

fn track(rating_key: u64, file: &str, size: u64) -> Item {
    let mut media = Media::default();
    media.part = Part { key: format!("/library/parts/{}/file", rating_key), file: file.to_string(), size, container: None };
    Item::Track {
        rating_key,
        guid: String::new(),
        title: "t".to_string(),
        parent_title: String::new(),
        summary: String::new(),
        last_viewed_at: 0,
        added_at: 0,
        updated_at: 0,
        media,
    }
}

/// A fake listing of `total` collections, served page by page.
fn fake_page(total: u64, start: u64, size: u64) -> (Vec<Item>, u64) {
    let end = std::cmp::min(total, start + size);
    let items = (start..end).map(|k| collection(k + 1, &format!("c{}", k + 1))).collect();
    (items, total)
}

/// Runs a crawl against a fake whose pages fail from `fail_at` on; returns the
/// starts requested and the items gathered.
fn run_crawl(total: u64, fail_at: Option<u64>) -> (Vec<u64>, Vec<Item>) {
    let mut crawl = Crawl::new();
    let mut starts = vec![];
    while let Some(start) = crawl.next_start() {
        starts.push(start);
        if fail_at.map_or(false, |f| start >= f) {
            crawl.on_page(None);
        } else {
            crawl.on_page(Some(fake_page(total, start, PAGE_SIZE)));
        }
    }
    (starts, crawl.into_items())
}

fn crawl_into(fs: &mut PlexFS, ino: u64, pages: &dyn Fn(Listing, u64) -> Option<(Vec<Item>, u64)>) -> usize {
    let mut fetches = 0;
    if !fs.is_cached(ino) {
        let mut crawl = Crawl::new();
        if let Some(source) = fs.listing_source(ino) {
            while let Some(start) = crawl.next_start() {
                fetches += 1;
                crawl.on_page(pages(source, start));
            }
        }
        let items = crawl.into_items();
        fs.fill(ino, &items);
    }
    fetches
}

fn jazz_catalog(source: Listing, start: u64) -> Option<(Vec<Item>, u64)> {
    match source {
        Listing::Section { .. } if start == 0 => Some((vec![collection(5, "Jazz")], 1)),
        Listing::Children { rating_key: 5 } if start == 0 => Some((vec![track(9, "/x/song.mp3", 12345)], 1)),
        _ => None,
    }
}

#[test]
fn pagination_fetches_every_page() {
    let (starts, items) = run_crawl(130, None);
    assert_eq!(starts, vec![0, 50, 100]);
    assert_eq!(items.len(), 130);
    assert_eq!(items[0], collection(1, "c1"));
    assert_eq!(items[129], collection(130, "c130"));
}

#[test]
fn pagination_of_short_and_exact_listings() {
    assert_eq!(run_crawl(0, None), (vec![0], vec![]));
    assert_eq!(run_crawl(50, None).0, vec![0]);
    assert_eq!(run_crawl(51, None).0, vec![0, 50]);
    assert_eq!(run_crawl(100, None).0, vec![0, 50]);
}

#[test]
fn first_page_failure_gives_empty_crawl() {
    let (starts, items) = run_crawl(130, Some(0));
    assert_eq!(starts, vec![0]);
    assert!(items.is_empty());
}

#[test]
fn later_page_failure_keeps_earlier_items() {
    let (starts, items) = run_crawl(130, Some(50));
    assert_eq!(starts, vec![0, 50]);
    assert_eq!(items.len(), 50);
}

#[test]
fn listing_sources() {
    let fs = PlexFS::new(10, MediaKind::Music);
    assert_eq!(fs.listing_source(INO_ROOT), Some(Listing::Section { section: 10, kind: MediaKind::Music }));
    assert_eq!(fs.listing_source(INO_ROOT + 5), Some(Listing::Children { rating_key: 5 }));
    assert_eq!(fs.listing_source(0), None);
}

#[test]
fn end_to_end_listing() {
    let mut fs = PlexFS::new(10, MediaKind::Music);
    crawl_into(&mut fs, INO_ROOT, &jazz_catalog);
    let root = fs.readdir(INO_ROOT, 0);
    assert_eq!(root.len(), 1);
    assert_eq!(root[0].name, "Jazz");
    assert_eq!(root[0].ino, INO_ROOT + 5);
    assert_eq!(root[0].kind, FileKind::Directory);
    assert_eq!(root[0].position, 1);
    let attr = fs.lookup(INO_ROOT, &"Jazz".to_string()).unwrap();
    assert_eq!(attr.ino, root[0].ino);
    assert_eq!(Some(attr), to_attr(&collection(5, "Jazz")));

    crawl_into(&mut fs, INO_ROOT + 5, &jazz_catalog);
    let jazz = fs.readdir(INO_ROOT + 5, 0);
    assert_eq!(jazz.len(), 1);
    assert_eq!(jazz[0].name, "song.mp3");
    assert_eq!(jazz[0].ino, INO_ROOT + 9);
    assert_eq!(jazz[0].kind, FileKind::RegularFile);
    let song = fs.lookup(INO_ROOT + 5, &"song.mp3".to_string()).unwrap();
    assert_eq!(song.size, 12345);
    assert_eq!(song.kind, FileKind::RegularFile);
}

#[test]
fn listing_is_crawled_once() {
    let mut fs = PlexFS::new(10, MediaKind::Music);
    assert!(!fs.is_cached(INO_ROOT));
    assert_eq!(crawl_into(&mut fs, INO_ROOT, &jazz_catalog), 1);
    assert!(fs.is_cached(INO_ROOT));
    assert_eq!(crawl_into(&mut fs, INO_ROOT, &jazz_catalog), 0);
    fs.fill(INO_ROOT, &vec![collection(7, "Blues")]);
    let root = fs.readdir(INO_ROOT, 0);
    assert_eq!(root.len(), 1);
    assert_eq!(root[0].name, "Jazz");
}

#[test]
fn failed_crawl_gives_empty_directory() {
    let mut fs = PlexFS::new(10, MediaKind::Music);
    crawl_into(&mut fs, INO_ROOT + 77, &jazz_catalog);
    assert!(fs.is_cached(INO_ROOT + 77));
    assert!(fs.readdir(INO_ROOT + 77, 0).is_empty());
    assert_eq!(fs.lookup(INO_ROOT + 77, &"Jazz".to_string()), None);
}

#[test]
fn unresolvable_items_are_left_out() {
    let mut fs = PlexFS::new(10, MediaKind::Music);
    let video = Item::Video { title: "Film".to_string(), grandparent_title: String::new(), media: Media::default() };
    let items = vec![video, track(3, "/x/dir/", 5), collection(u64::MAX, "Far"), collection(4, "Kept")];
    fs.fill(INO_ROOT, &items);
    let root = fs.readdir(INO_ROOT, 0);
    assert_eq!(root.len(), 1);
    assert_eq!(root[0].name, "Kept");
    assert_eq!(fs.lookup(INO_ROOT, &"Film".to_string()), None);
}

#[test]
fn duplicate_names_last_one_wins() {
    let mut fs = PlexFS::new(10, MediaKind::Music);
    let items = vec![collection(1, "A/B"), collection(2, "Other"), collection(3, "A_B")];
    fs.fill(INO_ROOT, &items);
    let root = fs.readdir(INO_ROOT, 0);
    assert_eq!(root.len(), 2);
    assert_eq!(root[0].name, "A_B");
    assert_eq!(root[0].ino, INO_ROOT + 3);
    assert_eq!(root[1].name, "Other");
    assert_eq!(fs.lookup(INO_ROOT, &"A_B".to_string()).unwrap().ino, INO_ROOT + 3);
}

#[test]
fn readdir_from_offset() {
    let mut fs = PlexFS::new(10, MediaKind::Music);
    fs.fill(INO_ROOT, &vec![collection(1, "a"), collection(2, "b"), collection(3, "c")]);
    let rest = fs.readdir(INO_ROOT, 1);
    assert_eq!(rest.len(), 2);
    assert_eq!((rest[0].name.as_str(), rest[0].position), ("b", 2));
    assert_eq!((rest[1].name.as_str(), rest[1].position), ("c", 3));
    assert!(fs.readdir(INO_ROOT, 3).is_empty());
    assert!(fs.readdir(INO_ROOT, 10).is_empty());
    assert!(fs.readdir(INO_ROOT + 1, 0).is_empty());
}

#[test]
fn lookup_before_crawl_finds_nothing() {
    let fs = PlexFS::new(10, MediaKind::Music);
    assert_eq!(fs.lookup(INO_ROOT, &"Jazz".to_string()), None);
}

#[test]
fn getattr_of_root_needs_no_fetch() {
    let fs = PlexFS::new(10, MediaKind::Music);
    assert_eq!(key_of(INO_ROOT), None);
    assert_eq!(fs.getattr(INO_ROOT, None), Some(root_attr()));
    let other = MediaContainer { items: vec![collection(3, "x")] };
    assert_eq!(fs.getattr(INO_ROOT, Some(&other)), Some(root_attr()));
}

#[test]
fn getattr_by_rating_key() {
    let fs = PlexFS::new(10, MediaKind::Music);
    for k in [1u64, 5, 9, 1000] {
        let ino = INO_ROOT + k;
        assert_eq!(key_of(ino), Some(k));
        let md = MediaContainer { items: vec![track(k, "/m/f.mp3", 7 * k)] };
        let a = fs.getattr(ino, Some(&md)).unwrap();
        assert_eq!(a.ino, ino);
        assert_eq!(a.size, 7 * k);
        assert_eq!(Some(a), to_attr(&md.items[0]));
    }
}

#[test]
fn getattr_not_found() {
    let fs = PlexFS::new(10, MediaKind::Music);
    assert_eq!(fs.getattr(INO_ROOT + 4, None), None);
    assert_eq!(fs.getattr(INO_ROOT + 4, Some(&MediaContainer { items: vec![] })), None);
    let video = Item::Video { title: "v".to_string(), grandparent_title: String::new(), media: Media::default() };
    assert_eq!(fs.getattr(INO_ROOT + 4, Some(&MediaContainer { items: vec![video] })), None);
    assert_eq!(fs.getattr(0, Some(&MediaContainer { items: vec![collection(1, "x")] })), None);
}

#[test]
fn read_is_clamped_to_returned_bytes() {
    let fs = PlexFS::new(10, MediaKind::Music);
    let body = vec![7u8; 400];
    assert_eq!(fs.clamp_read(body.clone(), 1000).len(), 400);
    let short: Vec<u8> = (0..10u8).collect();
    assert_eq!(fs.clamp_read(short.clone(), 4), vec![0, 1, 2, 3]);
    assert_eq!(fs.clamp_read(short, 0), Vec::<u8>::new());
}

#[test]
fn read_needs_a_track() {
    let fs = PlexFS::new(10, MediaKind::Music);
    let md = MediaContainer { items: vec![track(9, "/x/song.mp3", 12345)] };
    let part = fs.read_part(INO_ROOT + 9, Some(&md)).unwrap();
    assert_eq!(part.key, "/library/parts/9/file");
    assert_eq!(part.size, 12345);
    assert!(fs.read_part(INO_ROOT, Some(&md)).is_none());
    assert!(fs.read_part(INO_ROOT + 9, None).is_none());
    let dir = MediaContainer { items: vec![collection(9, "d")] };
    assert!(fs.read_part(INO_ROOT + 9, Some(&dir)).is_none());
    assert!(fs.read_part(INO_ROOT + 9, Some(&MediaContainer { items: vec![] })).is_none());
}
