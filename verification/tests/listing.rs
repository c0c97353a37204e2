use punks::listing::list_directory;
use punks::listing::scan_directory;
use punks::listing::supported_extensions;
use punks::RawEntry;

fn raw_file(name: &str, size: u64) -> RawEntry {
    RawEntry {
        path: format!("/samples/{name}"),
        name: name.to_string(),
        size_bytes: size,
        is_directory: false,
    }
}

fn raw_dir(name: &str) -> RawEntry {
    RawEntry {
        path: format!("/samples/{name}"),
        name: name.to_string(),
        size_bytes: 0,
        is_directory: true,
    }
}

fn make_audio_dir() -> Vec<RawEntry> {
    vec![
        raw_file("kick.wav", 8),
        raw_file("snare.flac", 9),
        raw_file("hihat.mp3", 8),
        raw_file("pad.ogg", 8),
        raw_file("readme.txt", 9),
        raw_file("data.json", 9),
        raw_dir("Loops"),
        raw_dir("One-Shots"),
    ]
}

#[test]
fn list_includes_subdirs_and_audio_files() {
    let raw = make_audio_dir();
    let result = list_directory("/samples", &raw);
    assert_eq!(result.entries.len(), 6);
}

#[test]
fn list_dirs_appear_before_files() {
    let raw = make_audio_dir();
    let result = list_directory("/samples", &raw);
    let is_dir_flags: Vec<bool> = result.entries.iter().map(|e| e.is_directory).collect();
    let first_file = is_dir_flags.iter().position(|&d| !d).unwrap_or(0);
    assert!(is_dir_flags[..first_file].iter().all(|&d| d));
    assert!(is_dir_flags[first_file..].iter().all(|&d| !d));
}

#[test]
fn list_dirs_sorted_alphabetically() {
    let raw = make_audio_dir();
    let result = list_directory("/samples", &raw);
    let dir_names: Vec<&str> = result
        .entries
        .iter()
        .filter(|e| e.is_directory)
        .map(|e| e.name.as_str())
        .collect();
    assert_eq!(dir_names, vec!["Loops", "One-Shots"]);
}

#[test]
fn list_files_sorted_alphabetically() {
    let raw = make_audio_dir();
    let result = list_directory("/samples", &raw);
    let file_names: Vec<&str> = result
        .entries
        .iter()
        .filter(|e| !e.is_directory)
        .map(|e| e.name.as_str())
        .collect();
    assert_eq!(
        file_names,
        vec!["hihat.mp3", "kick.wav", "pad.ogg", "snare.flac"]
    );
}

#[test]
fn list_excludes_non_audio_files() {
    let raw = make_audio_dir();
    let result = list_directory("/samples", &raw);
    let names: Vec<&str> = result.entries.iter().map(|e| e.name.as_str()).collect();
    assert!(!names.contains(&"readme.txt"));
    assert!(!names.contains(&"data.json"));
}

#[test]
fn list_excludes_hidden_entries() {
    let raw = vec![
        raw_file("kick.wav", 4),
        raw_file(".hidden.wav", 4),
        raw_dir(".hiddendir"),
    ];
    let result = list_directory("/samples", &raw);
    let names: Vec<&str> = result.entries.iter().map(|e| e.name.as_str()).collect();
    assert!(!names.iter().any(|n| n.starts_with('.')));
    assert_eq!(result.entries.len(), 1);
}

#[test]
fn list_empty_directory() {
    let raw: Vec<RawEntry> = Vec::new();
    let result = list_directory("/samples", &raw);
    assert!(result.entries.is_empty());
}

#[test]
fn list_dir_entry_has_correct_fields() {
    let raw = vec![raw_dir("drums")];
    let result = list_directory("/samples", &raw);
    let entry = &result.entries[0];
    assert_eq!(entry.name, "drums");
    assert!(entry.is_directory);
    assert_eq!(entry.size_bytes, 0);
    assert!(entry.extension.is_empty());
}

#[test]
fn list_file_entry_has_correct_fields() {
    let raw = vec![raw_file("kick.wav", 5)];
    let result = list_directory("/samples", &raw);
    let entry = &result.entries[0];
    assert_eq!(entry.name, "kick.wav");
    assert!(!entry.is_directory);
    assert_eq!(entry.extension, "wav");
    assert_eq!(entry.size_bytes, 5);
}

#[test]
fn list_case_insensitive_extension() {
    let raw = vec![raw_file("test.WAV", 4), raw_file("test.Mp3", 4)];
    let result = list_directory("/samples", &raw);
    assert_eq!(result.entries.len(), 2);
    assert!(result.entries.iter().all(|e| !e.is_directory));
}

#[test]
fn list_records_root() {
    let raw = make_audio_dir();
    let result = list_directory("/samples", &raw);
    assert_eq!(result.root, "/samples");
}

#[test]
fn scan_finds_supported_files() {
    let raw = make_audio_dir();
    let result = scan_directory("/samples", &raw, &supported_extensions());
    assert_eq!(result.files.len(), 4);
}

#[test]
fn scan_excludes_non_audio() {
    let raw = make_audio_dir();
    let result = scan_directory("/samples", &raw, &supported_extensions());
    let names: Vec<&str> = result.files.iter().map(|f| f.name.as_str()).collect();
    assert!(!names.contains(&"readme.txt"));
    assert!(!names.contains(&"data.json"));
}

#[test]
fn scan_excludes_directories() {
    let raw = make_audio_dir();
    let result = scan_directory("/samples", &raw, &supported_extensions());
    assert!(result.files.iter().all(|f| !f.is_directory));
}

#[test]
fn scan_sorts_alphabetically() {
    let raw = make_audio_dir();
    let result = scan_directory("/samples", &raw, &supported_extensions());
    let names: Vec<&str> = result.files.iter().map(|f| f.name.as_str()).collect();
    assert_eq!(
        names,
        vec!["hihat.mp3", "kick.wav", "pad.ogg", "snare.flac"]
    );
}

#[test]
fn scan_case_insensitive_extension() {
    let raw = vec![raw_file("test.WAV", 4), raw_file("test.Mp3", 4)];
    let result = scan_directory("/samples", &raw, &supported_extensions());
    assert_eq!(result.files.len(), 2);
}

#[test]
fn scan_empty_directory() {
    let raw: Vec<RawEntry> = Vec::new();
    let result = scan_directory("/samples", &raw, &supported_extensions());
    assert!(result.files.is_empty());
}

#[test]
fn scan_records_root() {
    let raw = make_audio_dir();
    let result = scan_directory("/samples", &raw, &supported_extensions());
    assert_eq!(result.root, "/samples");
}

#[test]
fn file_entry_has_correct_metadata() {
    let raw = vec![raw_file("test.wav", 5)];
    let result = scan_directory("/samples", &raw, &supported_extensions());
    assert_eq!(result.files.len(), 1);
    let entry = &result.files[0];
    assert_eq!(entry.name, "test.wav");
    assert_eq!(entry.extension, "wav");
    assert_eq!(entry.size_bytes, 5);
    assert!(!entry.is_directory);
}

#[test]
fn scan_with_custom_extensions() {
    let raw = vec![raw_file("a.wav", 4), raw_file("b.mp3", 4)];
    let exts = vec!["wav".to_string()];
    let result = scan_directory("/samples", &raw, &exts);
    assert_eq!(result.files.len(), 1);
    assert_eq!(result.files[0].extension, "wav");
}

#[test]
fn scan_keeps_hidden_files() {
    let raw = vec![raw_file(".hidden.wav", 4), raw_file("kick.wav", 4)];
    let result = scan_directory("/samples", &raw, &supported_extensions());
    assert_eq!(result.files.len(), 2);
}

#[test]
fn supported_extensions_are_the_audio_ones() {
    let exts = supported_extensions();
    let as_str: Vec<&str> = exts.iter().map(|e| e.as_str()).collect();
    assert_eq!(as_str, vec!["wav", "flac", "mp3", "ogg"]);
}

#[test]
fn extension_needs_a_dot_after_the_first_character() {
    let raw = vec![
        raw_file("noext", 4),
        raw_file(".wav", 4),
        raw_file("archive.tar.ogg", 4),
    ];
    let result = scan_directory("/samples", &raw, &supported_extensions());
    // only the double-extension file has a usable audio extension
    assert_eq!(result.files.len(), 1);
    assert_eq!(result.files[0].name, "archive.tar.ogg");
    assert_eq!(result.files[0].extension, "ogg");
}
