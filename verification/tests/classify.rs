use static_serve::category::{
    category_for_extension, category_for_media_type, file_extension, get_file_type, FileCategory,
};
use static_serve::config::{display_path, ServerConfig};

#[test]
fn table_entries_map_to_their_category() {
    assert_eq!(get_file_type("backup.zip"), FileCategory::Archive);
    assert_eq!(get_file_type("a.tar.gz"), FileCategory::Archive);
    assert_eq!(get_file_type("letter.docx"), FileCategory::Word);
    assert_eq!(get_file_type("slides.ppt"), FileCategory::Powerpoint);
    assert_eq!(get_file_type("sheet.xlsx"), FileCategory::Excel);
    assert_eq!(get_file_type("photo.heic"), FileCategory::Image);
    assert_eq!(get_file_type("paper.pdf"), FileCategory::Pdf);
    assert_eq!(get_file_type("main.rs"), FileCategory::Code);
    assert_eq!(get_file_type("index.html"), FileCategory::Code);
    assert_eq!(get_file_type("build.gradle"), FileCategory::Code);
    assert_eq!(get_file_type("app.properties"), FileCategory::Code);
    assert_eq!(get_file_type("Cargo.lock"), FileCategory::Alt);
}

#[test]
fn unknown_extensions_fall_back_to_the_media_type() {
    assert_eq!(get_file_type("song.mp3"), FileCategory::Audio);
    assert_eq!(get_file_type("photo.png"), FileCategory::Image);
    assert_eq!(get_file_type("clip.mp4"), FileCategory::Video);
    assert_eq!(get_file_type("notes.txt"), FileCategory::Alt);
    assert_eq!(get_file_type("blob.bin"), FileCategory::File);
    assert_eq!(get_file_type("strange.qqqzzz"), FileCategory::File);
}

#[test]
fn a_pdf_by_media_type_is_a_pdf() {
    assert_eq!(get_file_type("report.PDF"), FileCategory::Pdf);
    assert_eq!(get_file_type("report.Pdf"), FileCategory::Pdf);
    assert_eq!(category_for_media_type("application/pdf"), FileCategory::Pdf);
}

#[test]
fn media_types_are_guessed_whatever_the_case_of_the_extension() {
    assert_eq!(get_file_type("SONG.MP3"), FileCategory::Audio);
    assert_eq!(get_file_type("Photo.JPG"), FileCategory::Image);
    assert_eq!(get_file_type("README.TXT"), FileCategory::Alt);
}

#[test]
fn the_table_is_matched_as_written() {
    assert_eq!(get_file_type("BACKUP.ZIP"), FileCategory::File);
    assert_eq!(category_for_extension("ZIP"), None);
    assert_eq!(category_for_extension("zip"), Some(FileCategory::Archive));
    assert_eq!(category_for_extension("zipp"), None);
}

#[test]
fn names_without_extension_are_plain_files() {
    assert_eq!(get_file_type("Makefile"), FileCategory::File);
    assert_eq!(get_file_type(".bashrc"), FileCategory::File);
    assert_eq!(get_file_type(".."), FileCategory::File);
    assert_eq!(get_file_type(""), FileCategory::File);
}

#[test]
fn extension_is_what_follows_the_last_dot() {
    assert_eq!(file_extension("a.tar.gz"), Some("gz".to_string()));
    assert_eq!(file_extension("name."), Some(String::new()));
    assert_eq!(file_extension(".hidden"), None);
    assert_eq!(file_extension(".hidden.txt"), Some("txt".to_string()));
    assert_eq!(file_extension("plain"), None);
    assert_eq!(file_extension(".."), None);
    assert_eq!(file_extension("..."), Some(String::new()));
}

#[test]
fn media_types_map_to_categories() {
    assert_eq!(category_for_media_type("audio/mpeg"), FileCategory::Audio);
    assert_eq!(category_for_media_type("image/png"), FileCategory::Image);
    assert_eq!(category_for_media_type("video/mp4"), FileCategory::Video);
    assert_eq!(category_for_media_type("text/plain"), FileCategory::Alt);
    assert_eq!(category_for_media_type("application/octet-stream"), FileCategory::File);
    assert_eq!(category_for_media_type("application/zip"), FileCategory::File);
    assert_eq!(category_for_media_type("Audio/mpeg"), FileCategory::File);
    assert_eq!(category_for_media_type("audio"), FileCategory::Audio);
    assert_eq!(category_for_media_type("application/pdfx"), FileCategory::File);
    assert_eq!(category_for_media_type("pdf"), FileCategory::File);
    assert_eq!(category_for_media_type(""), FileCategory::File);
}

#[test]
fn category_names() {
    assert_eq!(FileCategory::Archive.as_str(), "archive");
    assert_eq!(FileCategory::Powerpoint.as_str(), "powerpoint");
    assert_eq!(FileCategory::File.as_str(), "file");
}

#[test]
fn display_path_strips_the_verbatim_prefix() {
    assert_eq!(display_path("\\\\?\\C:\\srv"), "C:\\srv");
    assert_eq!(display_path("/srv/www"), "/srv/www");
    assert_eq!(display_path("\\\\?"), "\\\\?");
    assert_eq!(display_path("\\\\?\\"), "");
    assert_eq!(display_path(""), "");
}

#[test]
fn a_new_configuration_has_listings_on_and_nothing_else() {
    let c = ServerConfig::new("/srv".to_string());
    assert_eq!(c.root, "/srv");
    assert!(c.show_index);
    assert!(!c.show_dotfiles && !c.spa_mode && !c.no_cache && !c.cors_enabled);
    assert!(c.cors_origin.is_none() && c.auth.is_none());
}
