use rustypaste::config::{PasteConfig, PetNamesConfig, RandomConfig};
use rustypaste::paste::{
    ClassificationError, ContentDisposition, Paste, PasteType, ValidationError,
};
use std::path::PathBuf;

fn paste_config(pet_names: bool, random: bool, default_extension: &str) -> PasteConfig {
    PasteConfig {
        pet_names: PetNamesConfig {
            enabled: pet_names,
            words: 3,
            separator: String::from("_"),
        },
        random: RandomConfig {
            enabled: random,
            length: 10,
        },
        default_extension: String::from(default_extension),
    }
}

fn file_paste(data: Vec<u8>) -> Paste {
    Paste {
        data,
        type_: PasteType::File,
    }
}

fn url_paste(text: &str) -> Paste {
    Paste {
        data: text.as_bytes().to_vec(),
        type_: PasteType::Url,
    }
}

fn extension(name: &str) -> Option<String> {
    PathBuf::from(name)
        .extension()
        .and_then(|v| v.to_str())
        .map(String::from)
}

#[test]
fn test_paste_data() {
    let mut config = paste_config(true, false, "txt");

    let paste = Paste {
        data: vec![65, 66, 67],
        type_: PasteType::File,
    };
    let stored = paste.store_file("test.txt", &config, Some(String::from("calm_brave_otter")));
    assert_eq!("ABC", String::from_utf8(stored.contents).unwrap());
    assert_eq!(Some(String::from("txt")), extension(&stored.name));

    config.default_extension = String::from("bin");
    config.pet_names.enabled = false;
    config.random.enabled = true;
    let paste = Paste {
        data: vec![120, 121, 122],
        type_: PasteType::File,
    };
    let stored = paste.store_file("random", &config, Some(String::from("Ab3dE6gH9k")));
    assert_eq!("xyz", String::from_utf8(stored.contents).unwrap());
    assert_eq!(Some(String::from("bin")), extension(&stored.name));

    config.random.enabled = false;
    let paste = Paste {
        data: vec![116, 101, 115, 116],
        type_: PasteType::File,
    };
    let stored = paste.store_file("test.file", &config, None);
    assert_eq!("test.file", &stored.name);
    assert_eq!("test", String::from_utf8(stored.contents).unwrap());

    config.random.enabled = true;
    let url = String::from("https://orhun.dev/");
    let paste = Paste {
        data: url.as_bytes().to_vec(),
        type_: PasteType::Url,
    };
    let stored = paste.store_url(&config, Some(String::from("x1y2z3w4v5"))).unwrap();
    assert_eq!("x1y2z3w4v5", stored.name);
    assert_eq!(url, stored.url);

    let url = String::from("testurl.com");
    let paste = Paste {
        data: url.as_bytes().to_vec(),
        type_: PasteType::Url,
    };
    assert!(paste.store_url(&config, None).is_err());
}

#[test]
fn extension_kept_without_generated_name() {
    let config = paste_config(false, false, "bin");
    let stored = file_paste(vec![1, 2, 3]).store_file("dir/report.csv", &config, None);
    assert_eq!("report.csv", stored.name);
    let stored = file_paste(vec![1, 2, 3]).store_file("a.tar.gz", &config, None);
    assert_eq!("a.tar.gz", stored.name);
}

#[test]
fn dash_becomes_stdin() {
    let config = paste_config(false, false, "txt");
    let stored = file_paste(b"hello".to_vec()).store_file("-", &config, None);
    assert_eq!("stdin.txt", stored.name);
    let stored = file_paste(b"hello".to_vec()).store_file("some/dir/-", &config, None);
    assert_eq!("stdin.txt", stored.name);
}

#[test]
fn default_extension_when_content_unknown() {
    let config = paste_config(false, true, "bin");
    let stored = file_paste(vec![120, 121, 122]).store_file("random", &config, None);
    assert_eq!("random.bin", stored.name);
    assert_eq!(vec![120, 121, 122], stored.contents);
    let stored =
        file_paste(vec![120, 121, 122]).store_file("random", &config, Some(String::from("q7")));
    assert_eq!("q7.bin", stored.name);
}

#[test]
fn generated_name_keeps_requested_extension() {
    let config = paste_config(true, false, "bin");
    let stored = file_paste(b"ABC".to_vec()).store_file("test.txt", &config, Some(String::from("xyz")));
    assert_eq!("xyz.txt", stored.name);
}

#[test]
fn generated_name_with_extension_is_cut_to_its_stem() {
    let config = paste_config(true, false, "bin");
    let stored =
        file_paste(b"ABC".to_vec()).store_file("notes", &config, Some(String::from("calm.otter")));
    assert_eq!("calm.bin", stored.name);
}

#[test]
fn improper_generated_names_are_ignored() {
    let config = paste_config(true, false, "bin");
    for generated in ["", ".", "..", "a/b"] {
        let stored =
            file_paste(b"ABC".to_vec()).store_file("test.txt", &config, Some(String::from(generated)));
        assert_eq!("test.txt", stored.name);
    }
}

#[test]
fn missing_file_name_falls_back_to_file() {
    let config = paste_config(false, false, "bin");
    for requested in ["", "/", ".", "..", "dir/..", "./"] {
        let stored = file_paste(b"ABC".to_vec()).store_file(requested, &config, None);
        assert_eq!("file.bin", stored.name, "requested {:?}", requested);
    }
}

#[test]
fn trailing_separators_and_dots_are_skipped() {
    let config = paste_config(false, false, "bin");
    let stored = file_paste(b"ABC".to_vec()).store_file("dir/name/./", &config, None);
    assert_eq!("name.bin", stored.name);
    let stored = file_paste(b"ABC".to_vec()).store_file("/abs//path.md", &config, None);
    assert_eq!("path.md", stored.name);
}

#[test]
fn hidden_file_gets_an_extension() {
    let config = paste_config(false, false, "bin");
    let stored = file_paste(b"ABC".to_vec()).store_file(".bashrc", &config, None);
    assert_eq!(".bashrc.bin", stored.name);
}

#[test]
fn trailing_dot_is_an_empty_extension() {
    let config = paste_config(false, false, "bin");
    let stored = file_paste(b"ABC".to_vec()).store_file("name.", &config, None);
    assert_eq!("name.", stored.name);
    let stored = file_paste(b"ABC".to_vec()).store_file("name.", &config, Some(String::from("gen")));
    assert_eq!("gen", stored.name);
}

#[test]
fn empty_default_extension_adds_none() {
    let config = paste_config(false, false, "");
    let stored = file_paste(b"ABC".to_vec()).store_file("plain", &config, None);
    assert_eq!("plain", stored.name);
}

#[test]
fn sniffed_extension_wins_over_default() {
    let config = paste_config(false, false, "bin");
    let png = vec![0x89, 0x50, 0x4E, 0x47, 0x0D, 0x0A, 0x1A, 0x0A, 0, 0, 0, 0];
    let stored = file_paste(png.clone()).store_file("image", &config, None);
    assert_eq!("image.png", stored.name);
    assert_eq!(png, stored.contents);
    let stored = file_paste(png).store_file("image.dat", &config, None);
    assert_eq!("image.dat", stored.name);
}

#[test]
fn stored_bytes_are_the_paste_bytes() {
    let config = paste_config(false, false, "bin");
    let data: Vec<u8> = (0..=255u8).rev().collect();
    let stored = file_paste(data.clone()).store_file("blob", &config, None);
    assert_eq!("blob.bin", stored.name);
    assert_eq!(data, stored.contents);
}

#[test]
fn different_generated_names_give_different_files() {
    let config = paste_config(false, true, "bin");
    let a = file_paste(b"ABC".to_vec()).store_file("x.txt", &config, Some(String::from("one")));
    let b = file_paste(b"ABC".to_vec()).store_file("x.txt", &config, Some(String::from("two")));
    assert_ne!(a.name, b.name);
}

#[test]
fn url_is_stored_canonically() {
    let config = paste_config(false, false, "bin");
    let stored = url_paste("https://orhun.dev/").store_url(&config, None).unwrap();
    assert_eq!("url", stored.name);
    assert_eq!("https://orhun.dev/", stored.url);
    let stored = url_paste("HTTPS://Orhun.DEV").store_url(&config, None).unwrap();
    assert_eq!("https://orhun.dev/", stored.url);
    let stored = url_paste("https://orhun.dev/").store_url(&config, Some(String::from("pet"))).unwrap();
    assert_eq!("pet", stored.name);
}

#[test]
fn url_without_scheme_is_rejected() {
    let config = paste_config(false, false, "bin");
    let r = url_paste("testurl.com").store_url(&config, None);
    assert_eq!(ValidationError::NotUrl, r.unwrap_err());
}

#[test]
fn url_that_is_not_text_is_rejected() {
    let config = paste_config(false, false, "bin");
    let paste = Paste {
        data: vec![0xff, 0xfe, 0x41],
        type_: PasteType::Url,
    };
    assert_eq!(ValidationError::NotText, paste.store_url(&config, None).unwrap_err());
}

fn disposition(form_data: bool, name: Option<&str>) -> ContentDisposition {
    ContentDisposition {
        form_data,
        name: name.map(String::from),
    }
}

#[test]
fn classify_file_and_url_fields() {
    assert_eq!(Ok(PasteType::File), PasteType::try_from(&disposition(true, Some("file"))));
    assert_eq!(Ok(PasteType::Url), PasteType::try_from(&disposition(true, Some("url"))));
}

#[test]
fn classify_rejects_other_fields() {
    assert_eq!(Err(ClassificationError), PasteType::try_from(&disposition(true, Some("files"))));
    assert_eq!(Err(ClassificationError), PasteType::try_from(&disposition(true, None)));
    assert_eq!(Err(ClassificationError), PasteType::try_from(&disposition(false, Some("file"))));
}

#[test]
fn form_field_match_is_exact() {
    let d = disposition(true, Some("file"));
    assert!(d.has_form_field("file"));
    assert!(!d.has_form_field("fil"));
    assert!(!d.has_form_field("url"));
}
