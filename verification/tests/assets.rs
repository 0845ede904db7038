use zali_server::assets::{
    asset_file_paths, asset_files, asset_root_dir, attach_statement, canonical_data_dir, choose_image,
    decoded_image, hex_encode, image_from_files, is_asset_kind, is_usable, legacy_data_dir,
    needs_copy, needs_image_file, needs_migration, normalize_data_url, server_asset_dir,
    set_server_image, split_data_url, sqlite_literal, user_avatar_asset_dir, AssetMeta,
    DataUrlError, StoragePath,
};
use zali_server::records::Timestamp;
use zali_server::refusal::Refusal;

fn path(names: &[&str]) -> StoragePath {
    StoragePath {
        root: "/".to_string(),
        names: names.iter().map(|s| s.to_string()).collect(),
    }
}

fn image(mime: &str, data: &[u8]) -> Option<(String, Vec<u8>)> {
    Some((mime.to_string(), data.to_vec()))
}

#[test]
fn hexadecimal() {
    assert_eq!(hex_encode(&[]), "");
    assert_eq!(hex_encode(&[0, 9, 10, 15, 16, 255]), "00090a0f10ff");
    assert_eq!(hex_encode("яz".as_bytes()), "d18f7a");
}

#[test]
fn directories() {
    let data = path(&["data"]);
    assert_eq!(asset_root_dir(&data).names, vec!["data", "assets"]);
    assert_eq!(
        user_avatar_asset_dir(&data, " ann ").names,
        vec!["data", "assets", "avatars", "616e6e"]
    );
    assert_eq!(
        server_asset_dir(&data, "ann").names,
        vec!["data", "assets", "servers", "616e6e"]
    );
    let (bin, json) = asset_file_paths(path(&["x"]), "avatar");
    assert_eq!(bin.names, vec!["x", "avatar.bin"]);
    assert_eq!(json.names, vec!["x", "avatar.json"]);
    assert_eq!(bin.root, "/");
}

#[test]
fn data_directories() {
    assert_eq!(legacy_data_dir(&path(&["a", "b"])).names, vec!["a"]);
    assert!(legacy_data_dir(&path(&[])).names.is_empty());
    assert_eq!(canonical_data_dir(Some(path(&["x"])), &path(&["y"])).names, vec!["x"]);
    assert_eq!(canonical_data_dir(None, &path(&["y"])).names, vec!["y"]);
    assert!(needs_migration(&path(&["a"]), &path(&["b"]), true));
    assert!(needs_migration(&path(&["a"]), &path(&["a", "b"]), true));
    assert!(!needs_migration(&path(&["a"]), &path(&["a"]), true));
    assert!(!needs_migration(&path(&["a"]), &path(&["b"]), false));
    assert!(needs_copy(true, false));
    assert!(!needs_copy(false, false));
    assert!(!needs_copy(true, true));
}

#[test]
fn sql_strings() {
    assert_eq!(sqlite_literal("/a/b.db"), "'/a/b.db'");
    assert_eq!(sqlite_literal("it's ''"), "'it''s '''''");
    assert_eq!(sqlite_literal(""), "''");
    assert_eq!(attach_statement("o'k"), "ATTACH DATABASE 'o''k' AS legacy");
}

#[test]
fn data_urls() {
    let (mime, data) = normalize_data_url("  data:image/png;base64,aGVsbG8=  ").unwrap();
    assert_eq!(mime, "image/png");
    assert_eq!(data, b"hello".to_vec());
    assert_eq!(normalize_data_url("data:;base64,").unwrap(), (String::new(), Vec::new()));
    assert_eq!(normalize_data_url("data:base64,aGk=").unwrap().0, "base64");
    assert_eq!(normalize_data_url("image/png;base64,aGk=").unwrap_err(), DataUrlError::Format);
    assert_eq!(normalize_data_url("data:image/png;base64").unwrap_err(), DataUrlError::Format);
    assert_eq!(normalize_data_url("data:text/plain,hi").unwrap_err(), DataUrlError::NotBase64);
    assert_eq!(
        normalize_data_url("data:text/plain;base64 ,hi").unwrap_err(),
        DataUrlError::NotBase64
    );
    assert_eq!(
        normalize_data_url("data:image/png;base64,a!b").unwrap_err(),
        DataUrlError::Undecodable
    );
    assert_eq!(
        normalize_data_url("data:image/png;base64,aGk").unwrap_err(),
        DataUrlError::Undecodable
    );
    assert_eq!(DataUrlError::Format.message(), "Неверный формат data URL");
    assert_eq!(
        DataUrlError::NotBase64.message(),
        "Поддерживается только base64 data URL"
    );
    assert_eq!(DataUrlError::Undecodable.message(), "Не удалось декодировать base64");
}

#[test]
fn parts_of_data_urls() {
    assert_eq!(
        split_data_url("data:a;b;base64,x,y").unwrap(),
        ("a".to_string(), "x,y".to_string())
    );
    assert!(decoded_image("a".to_string(), None).is_err());
    assert_eq!(decoded_image("a".to_string(), Some(vec![1])).unwrap().1, vec![1]);
}

#[test]
fn new_images_of_servers() {
    let url = "data:image/png;base64,aGk=";
    assert_eq!(set_server_image(true, url).unwrap().1, b"hi".to_vec());
    assert_eq!(set_server_image(false, url).unwrap_err(), Refusal::Forbidden);
    assert_eq!(set_server_image(true, "  ").unwrap_err(), Refusal::DataUrlMissing);
    assert_eq!(set_server_image(true, "x").unwrap_err(), Refusal::Internal);
}

fn meta(mime_type: &str, updated_at: Option<Timestamp>) -> AssetMeta {
    AssetMeta { mime_type: mime_type.to_string(), updated_at }
}

#[test]
fn images_that_are_written_are_read_back() {
    let at = Some(Timestamp { secs: 7, nanos: 8 });
    let files = asset_files(path(&["d"]), "avatar", "image/png", vec![1, 2], at);
    assert_eq!(files.bin_path.names, vec!["d", "avatar.bin"]);
    assert_eq!(files.meta_path.names, vec!["d", "avatar.json"]);
    assert_eq!(
        image_from_files(files.data, Some(files.meta)).unwrap(),
        ("image/png".to_string(), vec![1, 2], at)
    );
    let empty = asset_files(path(&["d"]), "avatar", "image/png", vec![], None);
    assert!(image_from_files(empty.data, Some(empty.meta)).is_none());
}

#[test]
fn images_in_files() {
    assert!(image_from_files(vec![], Some(meta("image/png", None))).is_none());
    assert_eq!(
        image_from_files(vec![1], None).unwrap(),
        ("application/octet-stream".to_string(), vec![1], None)
    );
    let at = Some(Timestamp { secs: 7, nanos: 8 });
    assert_eq!(
        image_from_files(vec![1], Some(meta("a", at))).unwrap(),
        ("a".to_string(), vec![1], at)
    );
    assert!(is_usable(&image("a", &[1])));
    assert!(!is_usable(&image("", &[1])));
    assert!(!is_usable(&image("a", &[])));
    assert!(!is_usable(&None));
    assert!(is_asset_kind("avatar") && is_asset_kind("banner") && !is_asset_kind("icon"));
}

#[test]
fn images_of_servers() {
    let kept = || (Some("b".to_string()), Some(vec![2u8]));
    let (m, d) = kept();
    assert_eq!(
        choose_image("avatar", image("a", &[1]), m, d).unwrap(),
        ("a".to_string(), vec![1], false)
    );
    let (m, d) = kept();
    assert_eq!(
        choose_image("banner", image("", &[1]), m, d).unwrap(),
        ("b".to_string(), vec![2], true)
    );
    let (m, d) = kept();
    assert!(choose_image("icon", image("a", &[1]), m, d).is_none());
    assert!(choose_image("avatar", None, Some("b".to_string()), Some(vec![])).is_none());
    assert!(choose_image("avatar", None, None, Some(vec![1])).is_none());
    assert!(needs_image_file(&Some("a".to_string()), &Some(vec![]), false));
    assert!(!needs_image_file(&Some("a".to_string()), &Some(vec![]), true));
    assert!(!needs_image_file(&None, &Some(vec![]), false));
}
