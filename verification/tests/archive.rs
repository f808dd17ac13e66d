use std::io::Read;

use atlas_packer::{
    write_zip, PackError, WLAnimation, WLAtlas, WLFrame, WLModel, WLPoint, WLRect,
};

fn model(model_id: &str, frames: usize, animations: Vec<(&str, Vec<u32>)>) -> WLModel {
    WLModel {
        frames: (0..frames)
            .map(|i| WLFrame {
                rect: WLRect {
                    x: (i as i32) * 8,
                    y: 0,
                    w: 8,
                    h: 8,
                },
                duration: 100,
            })
            .collect(),
        animations: animations
            .into_iter()
            .map(|(id, idxs)| WLAnimation {
                animation_id: id.to_string(),
                frames: idxs,
            })
            .collect(),
        model_id: model_id.to_string(),
        anchor_point: WLPoint { x: 0, y: 0 },
    }
}

fn entry_bytes(archive: &mut zip::ZipArchive<std::io::Cursor<Vec<u8>>>, i: usize) -> (String, Vec<u8>) {
    let mut f = archive.by_index(i).unwrap();
    let name = f.name().to_string();
    let mut bytes = Vec::new();
    f.read_to_end(&mut bytes).unwrap();
    (name, bytes)
}

#[test]
fn archive_order_matches_model_order() {
    let atlas = WLAtlas {
        models: vec![
            model("hero", 2, vec![("walk", vec![0, 1])]),
            model("rock", 1, vec![("idle", vec![0])]),
        ],
    };
    let index_json = b"[\"placeholder\"]".to_vec();
    let images = vec![b"hero-image".to_vec(), b"rock-image".to_vec()];
    let bytes = write_zip(&index_json, &atlas, &images).unwrap();

    let mut archive = zip::ZipArchive::new(std::io::Cursor::new(bytes)).unwrap();
    assert_eq!(archive.len(), 3);
    let (name0, bytes0) = entry_bytes(&mut archive, 0);
    assert_eq!(name0, "index.json");
    assert_eq!(bytes0, index_json);
    let (name1, bytes1) = entry_bytes(&mut archive, 1);
    assert_eq!(name1, "hero.png");
    assert_eq!(bytes1, b"hero-image");
    let (name2, bytes2) = entry_bytes(&mut archive, 2);
    assert_eq!(name2, "rock.png");
    assert_eq!(bytes2, b"rock-image");
}

#[test]
fn empty_atlas_gives_only_the_index() {
    let atlas = WLAtlas { models: vec![] };
    let index_json = b"[]".to_vec();
    let images: Vec<Vec<u8>> = vec![];
    let bytes = write_zip(&index_json, &atlas, &images).unwrap();
    let mut archive = zip::ZipArchive::new(std::io::Cursor::new(bytes)).unwrap();
    assert_eq!(archive.len(), 1);
    let (name, contents) = entry_bytes(&mut archive, 0);
    assert_eq!(name, "index.json");
    assert_eq!(contents, b"[]");
}

#[test]
fn unanimated_multi_frame_model_is_rejected() {
    let atlas = WLAtlas {
        models: vec![
            model("fine", 1, vec![]),
            model("bad", 2, vec![]),
        ],
    };
    let index_json = b"[]".to_vec();
    let images = vec![b"a".to_vec(), b"b".to_vec()];
    let e = write_zip(&index_json, &atlas, &images).unwrap_err();
    match e {
        PackError::Validation {
            model_id,
            frame_count,
            animation_count,
        } => {
            assert_eq!(model_id, "bad");
            assert_eq!(frame_count, 2);
            assert_eq!(animation_count, 0);
        }
        other => panic!("expected a validation error, got {:?}", other),
    }
}

#[test]
fn duplicate_model_ids_fail_the_archive() {
    // Identifier uniqueness is caller-enforced; a duplicate surfaces
    // as an archive-level error when the second entry is started.
    let atlas = WLAtlas {
        models: vec![
            model("dup", 1, vec![("idle", vec![0])]),
            model("dup", 1, vec![("idle", vec![0])]),
        ],
    };
    let index_json = b"[]".to_vec();
    let images = vec![b"a".to_vec(), b"b".to_vec()];
    let e = write_zip(&index_json, &atlas, &images).unwrap_err();
    assert!(matches!(e, PackError::Archive(_)));
}

#[test]
fn single_frame_unanimated_model_is_accepted() {
    let atlas = WLAtlas {
        models: vec![model("lonely", 1, vec![])],
    };
    let index_json = b"[]".to_vec();
    let images = vec![b"img".to_vec()];
    let bytes = write_zip(&index_json, &atlas, &images).unwrap();
    let mut archive = zip::ZipArchive::new(std::io::Cursor::new(bytes)).unwrap();
    assert_eq!(archive.len(), 2);
    let (name, contents) = entry_bytes(&mut archive, 1);
    assert_eq!(name, "lonely.png");
    assert_eq!(contents, b"img");
}
