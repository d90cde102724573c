use std::path::Path;
use video_transcoder::paths::{
    file_name, file_stem, input_file_path, join_path, FilePaths, PathError, OUTPUT_DIR,
    S3_MOUNT_POINT,
};

const SAMPLES: &[&str] = &[
    "", "/", "//", ".", "..", "./", "a", "a/", "a//", "a/.", "a/./", "a/..", "/a", "/a/b.c",
    "foo.txt", "foo.tar.gz", ".bashrc", ".a.b", "a.", "...", "./a", "a/./b", "/.", "x/.hidden",
    "dir.d/file", "é/ü.mp4", "a b/c d.e",
];

#[test]
fn join_agrees_with_std() {
    for base in ["", "/", "/home/x", "/home/x/", "rel"] {
        for p in SAMPLES {
            let expected = Path::new(base).join(p);
            assert_eq!(join_path(base, p), expected.to_str().unwrap(), "{:?} {:?}", base, p);
        }
    }
}

#[test]
fn file_name_agrees_with_std() {
    for p in SAMPLES {
        let expected = Path::new(p).file_name().map(|s| s.to_str().unwrap());
        assert_eq!(file_name(p), expected, "{:?}", p);
    }
}

#[test]
fn file_stem_agrees_with_std() {
    for p in SAMPLES {
        let expected = Path::new(p).file_stem().map(|s| s.to_str().unwrap());
        assert_eq!(file_stem(p), expected, "{:?}", p);
    }
}

#[test]
fn file_name_and_stem_examples() {
    assert_eq!(file_name("foo.txt/."), Some("foo.txt"));
    assert_eq!(file_name("foo.txt/.//"), Some("foo.txt"));
    assert_eq!(file_name("foo.txt/.."), None);
    assert_eq!(file_name("/"), None);
    assert_eq!(file_stem("foo.rs"), Some("foo"));
    assert_eq!(file_stem("foo.tar.gz"), Some("foo.tar"));
    assert_eq!(file_stem(".bashrc"), Some(".bashrc"));
}

#[test]
fn input_file_path_under_mount() {
    assert_eq!(input_file_path("abc.mp4"), format!("{}/abc.mp4", S3_MOUNT_POINT));
    assert_eq!(input_file_path("videos/abc.mp4"), format!("{}/videos/abc.mp4", S3_MOUNT_POINT));
    // an absolute key replaces the mount point, as Path::join does
    assert_eq!(input_file_path("/etc/passwd"), "/etc/passwd");
}

#[test]
fn file_paths_for_uploaded_video() {
    let input = input_file_path("93f2b0b08fsdf8e9b0fsdf8bb.mp4");
    let paths = FilePaths::for_input(&input).unwrap();
    assert_eq!(paths.input_file, "/home/rushikesh/s3_drive/93f2b0b08fsdf8e9b0fsdf8bb.mp4");
    assert_eq!(paths.file_name_without_ext, "93f2b0b08fsdf8e9b0fsdf8bb");
    assert_eq!(paths.output_dir, "/home/rushikesh/s3_drive/processed/93f2b0b08fsdf8e9b0fsdf8bb");
    assert_eq!(paths.output_dir, format!("{}/{}", OUTPUT_DIR, paths.file_name_without_ext));
}

#[test]
fn file_paths_of_empty_key_use_mount_directory_name() {
    // joining an empty key leaves a trailing separator, whose file name is the mount directory
    let input = input_file_path("");
    assert_eq!(input, "/home/rushikesh/s3_drive/");
    let paths = FilePaths::for_input(&input).unwrap();
    assert_eq!(paths.file_name_without_ext, "s3_drive");
}

#[test]
fn file_paths_without_file_name() {
    assert_eq!(FilePaths::for_input("/").unwrap_err(), PathError::NoFileStem);
    assert_eq!(FilePaths::for_input("/a/..").unwrap_err(), PathError::NoFileStem);
    assert_eq!(input_file_path(".."), "/home/rushikesh/s3_drive/..");
    assert_eq!(
        FilePaths::for_input(&input_file_path("..")).unwrap_err(),
        PathError::NoFileStem
    );
}

#[test]
fn joined_plain_name_is_file_name() {
    for base in ["", "/", "/srv/media", "rel/dir/", "a/.."] {
        for name in ["clip.mp4", ".hidden", "noext", "a.b.c", "x."] {
            let joined = join_path(base, name);
            assert_eq!(file_name(&joined), Some(name));
            assert_eq!(file_stem(&joined), file_stem(name));
        }
    }
}
