use qingjian::fetch::download::{check_digest, hex};
use qingjian::fetch::{installed, join, looks_like_model, model_roots, Asset, AssetFetch, Catalog, FetchError, RootSurvey, Tier, TierFetch};

const MIB: u64 = 1024 * 1024;

fn asset(name: &str, sha256: &str, size: u64) -> Asset {
    Asset { name: name.to_owned(), url: format!("https://example.invalid/{name}"), sha256: sha256.to_owned(), size }
}

fn tier(label: &str, sizes: &[u64]) -> Tier {
    Tier {
        label: label.to_owned(),
        note: "note".to_owned(),
        files: sizes.iter().enumerate().map(|(i, size)| asset(&format!("f{i}.onnx"), "00", *size)).collect(),
    }
}

#[test]
fn an_unknown_tier_is_none() {
    // The catalog shipped with this build lists no tiers yet.
    let catalog = Catalog::new();
    assert!(catalog.tier("no-such-tier").is_none());
}

#[test]
fn tiers_come_back_by_name_in_order_and_a_later_insert_replaces() {
    let mut catalog = Catalog::new();
    assert!(catalog.insert("standard".to_owned(), tier("标准", &[1])).is_none());
    assert!(catalog.insert("compact".to_owned(), tier("精简", &[2])).is_none());
    assert!(catalog.insert("large".to_owned(), tier("大", &[3])).is_none());
    let names: Vec<&str> = catalog.tiers().iter().map(|(name, _)| name.as_str()).collect();
    assert_eq!(names, ["compact", "large", "standard"]);

    let replaced = catalog.insert("large".to_owned(), tier("更大", &[4])).unwrap();
    assert_eq!(replaced.label, "大");
    assert_eq!(catalog.tiers().len(), 3);
    assert_eq!(catalog.tier("large").unwrap().label, "更大");
    assert_eq!(catalog.tier("compact").unwrap().label, "精简");
}

#[test]
fn total_bytes_adds_the_declared_sizes() {
    assert_eq!(tier("t", &[100, 200, 300]).total_bytes(), 600);
    assert_eq!(tier("t", &[]).total_bytes(), 0);
}

#[test]
fn size_text_rounds_to_whole_mebibytes() {
    assert_eq!(tier("t", &[100 * MIB, 110 * MIB]).size_text(), "约 210 MB");
    assert_eq!(tier("t", &[MIB + MIB / 2]).size_text(), "约 2 MB");
    // A tie goes to the even neighbour, as `{:.0}` rounds.
    assert_eq!(tier("t", &[2 * MIB + MIB / 2]).size_text(), "约 2 MB");
    assert_eq!(tier("t", &[2 * MIB + MIB / 2 + 1]).size_text(), "约 3 MB");
    assert_eq!(tier("t", &[]).size_text(), "约 0 MB");
}

#[test]
fn size_text_goes_through_a_double_like_the_float_formatting() {
    for total in [u64::MAX, (1 << 54) + (1 << 19) + 1, (1 << 53) + 1, 123_456_789_012_345_678] {
        let expected = format!("约 {:.0} MB", total as f64 / (1024.0 * 1024.0));
        assert_eq!(tier("t", &[total]).size_text(), expected);
    }
    assert_eq!(tier("t", &[u64::MAX]).size_text(), "约 17592186044416 MB");
    assert_eq!(tier("t", &[(1 << 54) + (1 << 19) + 1]).size_text(), "约 17179869184 MB");
}

#[test]
fn hex_writes_two_lowercase_digits_per_byte() {
    assert_eq!(hex(&[0x00, 0xab, 0x10, 0xff]), "00ab10ff");
    assert_eq!(hex(&[]), "");
}

const ABC_SHA256: &str = "ba7816bf8f01cfea414140de5dae2223b00361a396177a9cb410ff61f20015ad";

#[test]
fn a_matching_checksum_keeps_the_file() {
    // The catalog's checksum may be written in capitals.
    let a = asset("model.onnx", &ABC_SHA256.to_uppercase(), 3);
    let mut fetch = AssetFetch::begin(&a, 10, 13);
    assert_eq!(fetch.take_chunk(b"ab", false).unwrap(), (12, 13));
    assert_eq!(fetch.take_chunk(b"c", false).unwrap(), (13, 13));
    assert_eq!(fetch.finish().unwrap(), 3);
}

#[test]
fn a_checksum_mismatch_fails_the_file() {
    let a = asset("model.onnx", ABC_SHA256, 3);
    let mut fetch = AssetFetch::begin(&a, 0, 3);
    fetch.take_chunk(b"abd", false).unwrap();
    match fetch.finish() {
        Err(FetchError::Mismatch { name, expected, actual }) => {
            assert_eq!(name, "model.onnx");
            assert_eq!(expected, ABC_SHA256);
            assert_ne!(actual, ABC_SHA256);
            assert_eq!(actual.len(), 64);
        }
        other => panic!("expected a mismatch, got {other:?}"),
    }
}

#[test]
fn a_cancelled_download_refuses_the_chunk() {
    let a = asset("model.onnx", ABC_SHA256, 3);
    let mut fetch = AssetFetch::begin(&a, 0, 3);
    assert!(matches!(fetch.take_chunk(b"abc", true), Err(FetchError::Cancelled)));
    assert_eq!(fetch.written, 0);
}

#[test]
fn a_tier_fetch_walks_the_files_and_counts_progress() {
    let t = tier("t", &[5, 7]);
    let mut run = TierFetch::start(&t);
    assert_eq!(run.total, 12);
    let first = run.next_asset(&t).unwrap();
    assert_eq!(first.name, "f0.onnx");
    assert_eq!(first.already, 0);
    assert_eq!(run.asset_done(5), (5, 12));
    let second = run.next_asset(&t).unwrap();
    assert_eq!(second.name, "f1.onnx");
    assert_eq!(second.already, 5);
    assert_eq!(run.asset_done(7), (12, 12));
    assert!(run.next_asset(&t).is_none());
}

#[test]
fn a_model_directory_has_an_onnx_file() {
    assert!(looks_like_model(&vec!["tokens.txt".to_owned(), "base-encoder.int8.onnx".to_owned()]));
    assert!(!looks_like_model(&vec!["tokens.txt".to_owned(), "onnx".to_owned()]));
    assert!(!looks_like_model(&Vec::new()));
}

#[test]
fn models_are_looked_for_under_the_user_directory_first() {
    assert_eq!(model_roots(Some("/home/u"), "/opt/qj"), ["/home/u/voice", "/opt/qj/data/voice"]);
    assert_eq!(model_roots(None, "/opt/qj"), ["/opt/qj/data/voice"]);
    assert_eq!(join("a", "b"), "a/b");
}

fn survey(root: &str, wanted_is_model: bool, models: &[&str]) -> RootSurvey {
    RootSurvey { root: root.to_owned(), wanted_is_model, models: models.iter().map(|m| m.to_string()).collect() }
}

#[test]
fn installed_finds_by_tier_and_falls_back_to_scanning() {
    let roots = vec![survey("/u/voice", true, &["base"]), survey("/b/data/voice", false, &[])];
    assert_eq!(installed(&roots, "base", None), Some("/u/voice/base".to_owned()));
    // No tier asked for and an empty catalog: the first model directory found.
    let roots = vec![survey("/u/voice", false, &["zeta", "base"]), survey("/b/data/voice", false, &["alpha"])];
    assert_eq!(installed(&roots, "", None), Some("/u/voice/base".to_owned()));
    // A tier asked for that is not there is not found, even with other models around.
    assert_eq!(installed(&roots, "small", None), None);
    // No tier asked for: the catalog's first tier when it is installed.
    let roots = vec![survey("/u/voice", true, &["zeta"])];
    assert_eq!(installed(&roots, "", Some("standard")), Some("/u/voice/standard".to_owned()));
    // The bundled root answers when the user's has nothing.
    let roots = vec![survey("/u/voice", false, &[]), survey("/b/data/voice", true, &[])];
    assert_eq!(installed(&roots, "base", None), Some("/b/data/voice/base".to_owned()));
}

#[test]
fn a_digest_is_checked_against_the_catalog_in_any_case() {
    let digest: Vec<u8> = (0..32).map(|i| (i * 8) as u8).collect();
    let expected = hex(&digest);
    assert_eq!(check_digest("m".to_owned(), expected.to_uppercase(), &digest, 42).unwrap(), 42);
    match check_digest("m".to_owned(), "00".to_owned(), &digest, 42) {
        Err(FetchError::Mismatch { name, expected: listed, actual }) => {
            assert_eq!(name, "m");
            assert_eq!(listed, "00");
            assert_eq!(actual, expected);
        }
        other => panic!("expected a mismatch, got {other:?}"),
    }
}
