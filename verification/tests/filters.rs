//! The filter surface: pending requests, slicing, the crop transform
//! and the mirror listing logic.

use effs::attr::Timestamp;
use effs::effect::HostKind;
use effs::effect::Mirror;
use effs::effs::Effs;
use effs::entry::Entry;
use effs::error::EffectError;
use effs::error::SourceError;
use effs::filter::Filter;
use effs::filter::PreciseFilter;
use effs::filtrate::Filtrate;
use effs::node::ReadOutcome;
use effs::node::filtered_slice;
use effs::node::finish_precise;
use effs::traits::EffsSource;
use effs::transform::Crop;
use effs::transform::crop_bytes;

#[test]
fn crop() {
    let crop = Crop::new(1, 1, 4, 4);
    let result = crop.plan("source", 9).unwrap();
    assert_eq!(result.len(), 1);
    assert_eq!(result[0].0, "source");
    let filtrate = match &result[0].1 {
        Entry::Filter(filter) => filter.filtrate(),
        _ => unreachable!(),
    };
    assert_eq!(filtrate, Filtrate { token: 9, range: None });
    // the producer behind the filter reads the origin and crops it
    let data = b"0123456789\n".to_vec();
    assert_eq!(crop_bytes(&data, crop.x, crop.w), b"1234".to_vec());
}

#[test]
fn crop_plan_takes_final_component() {
    let crop = Crop::new(0, 0, 2, 2);
    let result = crop.plan("/images/cat.png", 3).unwrap();
    assert_eq!(result.len(), 1);
    assert_eq!(result[0].0, "cat.png");

    for bad in ["", "/", "//", ".", "..", "a/.."] {
        match Crop::new(0, 0, 1, 1).plan(bad, 0) {
            Err(EffectError::BadSourcePath(p, _)) => assert_eq!(p, bad),
            other => panic!("expected BadSourcePath for {:?}, got ok={}", bad, other.is_ok()),
        }
    }
}

#[test]
fn crop_bytes_zero_fills() {
    let data = b"abc".to_vec();
    assert_eq!(crop_bytes(&data, 1, 5), vec![b'b', b'c', 0, 0, 0]);
    assert_eq!(crop_bytes(&data, 10, 3), vec![0, 0, 0]);
    assert_eq!(crop_bytes(&data, 0, 0), Vec::<u8>::new());
}

#[test]
fn mirror_listing_classifies_children() {
    let children = vec![
        ("docs".to_string(), HostKind::Directory, 0),
        ("a.txt".to_string(), HostKind::File, 41),
        ("link".to_string(), HostKind::Other, 0),
        ("b.bin".to_string(), HostKind::File, 42),
    ];
    let listing = Mirror::listing(&children);
    assert_eq!(listing.len(), 3);
    assert_eq!(listing[0].0, "docs");
    assert!(matches!(&listing[0].1, Entry::Dir(d) if d.len() == 0));
    assert_eq!(listing[1].0, "a.txt");
    assert!(matches!(&listing[1].1, Entry::Filter(f) if f.token == 41));
    assert_eq!(listing[2].0, "b.bin");
    assert!(matches!(&listing[2].1, Entry::Filter(f) if f.token == 42));
}

/// A source exposing one lazy file and one range-taking file.
struct LazySource;

impl EffsSource for LazySource {
    fn dir(&mut self, _request: &str) -> Result<Vec<(String, Entry)>, SourceError> {
        Ok(vec![
            ("lazy".to_string(), Entry::Filter(Filter::new(7))),
            ("ranged".to_string(), Entry::PreciseFilter(PreciseFilter::new(8))),
        ])
    }
}

#[test]
fn read_hands_out_pending_requests() {
    let mut fs: Effs<LazySource> = Effs::new(Timestamp::new(0, 0));
    fs.push_source(LazySource);
    fs.build_nodes("", Timestamp::new(0, 0)).unwrap();

    let lazy = fs.path_to_node_id("lazy").unwrap();
    match fs.read(lazy, 5, 10).unwrap() {
        ReadOutcome::Pending(f) => assert_eq!(f, Filtrate { token: 7, range: None }),
        ReadOutcome::Data(_) => panic!("a filter must be driven by the runtime"),
    }

    let ranged = fs.path_to_node_id("ranged").unwrap();
    match fs.read(ranged, 5, 10).unwrap() {
        ReadOutcome::Pending(f) => assert_eq!(f, Filtrate { token: 8, range: Some((5, 10)) }),
        ReadOutcome::Data(_) => panic!("a precise filter must be driven by the runtime"),
    }

    // what the runtime does once the whole-output producer returns
    let produced = b"hello world".to_vec();
    assert_eq!(filtered_slice(&produced, 5, 10), b" world".to_vec());
}

#[test]
fn slicing_is_clamped_and_short_means_eof() {
    let data = b"abcdef".to_vec();
    assert_eq!(filtered_slice(&data, 0, 6), b"abcdef".to_vec());
    assert_eq!(filtered_slice(&data, 0, 4), b"abcd".to_vec());
    assert_eq!(filtered_slice(&data, 2, 100), b"cdef".to_vec());
    assert_eq!(filtered_slice(&data, 6, 1), Vec::<u8>::new());
    assert_eq!(filtered_slice(&data, 100, 1), Vec::<u8>::new());
    // at most `size` bytes; fewer only at the end of the data
    for offset in 0..10u64 {
        for size in 0..10u32 {
            let r = filtered_slice(&data, offset, size);
            assert!(r.len() <= size as usize);
            if (r.len() as u32) < size {
                assert!(offset + r.len() as u64 >= data.len() as u64);
            }
        }
    }
}

#[test]
fn precise_output_is_trimmed() {
    assert_eq!(finish_precise(b"abcdef".to_vec(), 4), b"abcd".to_vec());
    assert_eq!(finish_precise(b"ab".to_vec(), 4), b"ab".to_vec());
    assert_eq!(finish_precise(Vec::new(), 4), Vec::<u8>::new());
}

#[test]
fn filter_handles_are_stable() {
    let f = Filter::new(3);
    assert_eq!(f.filtrate(), Filtrate::new(3, None));
    assert_eq!(f.filtrate(), f.filtrate(), "a filter serves any number of fresh requests");
    let p = PreciseFilter::new(4);
    assert_eq!(p.filtrate(1, 2), Filtrate::new(4, Some((1, 2))));
    let e: Entry = f.into();
    assert!(matches!(e, Entry::Filter(inner) if inner.token == 3));
    let b: Entry = b"xyz".to_vec().into();
    assert!(matches!(&b, Entry::Filtrated(v) if v == &b"xyz".to_vec()));
}
