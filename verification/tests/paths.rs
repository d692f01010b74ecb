use remcp::paths::{normalize_path, part_path_of, resume_offset, split_host_path};

#[test]
fn test_normalize_path_windows_absolute() {
    let input_path = "/Users/gabri/OneDrive/Área de Trabalho/odo/remcp_project/target/debug";
    let expected_path = r"C:\Users\gabri\OneDrive\Área de Trabalho\odo\remcp_project\target\debug";

    let normalized_path = normalize_path(input_path, true);
    assert_eq!(normalized_path, expected_path);
}

#[test]
fn normalize_path_off_windows_is_identity() {
    assert_eq!(normalize_path("/srv/files/a.txt", false), "/srv/files/a.txt");
    assert_eq!(normalize_path("rel/path", false), "rel/path");
}

#[test]
fn normalize_path_windows_relative() {
    assert_eq!(normalize_path("rel/path", true), r"rel\path");
}

#[test]
fn endpoint_split() {
    let p = split_host_path("127.0.0.1:/srv/up.txt", "local.txt", false);
    assert_eq!(p.remote_host, "127.0.0.1");
    assert_eq!(p.remote_path, "/srv/up.txt");
    assert_eq!(p.local_path, "local.txt");

    // without a colon, the remote path degenerates to ":"
    let p = split_host_path("justahost", "l", false);
    assert_eq!(p.remote_host, "justahost");
    assert_eq!(p.remote_path, ":");

    // only the first colon splits
    let p = split_host_path("h:a:b", "l", false);
    assert_eq!(p.remote_host, "h");
    assert_eq!(p.remote_path, "a:b");
}

#[test]
fn marker_path_is_deterministic() {
    assert_eq!(part_path_of("dir/file.txt"), "dir/file.part");
    assert_eq!(part_path_of("file.txt"), "file.part");
    assert_eq!(part_path_of("file"), "file.part");
    assert_eq!(part_path_of("archive.tar.gz"), "archive.tar.part");
    assert_eq!(part_path_of(".bashrc"), ".bashrc.part");
    assert_eq!(part_path_of("dir.v2/name"), "dir.v2/name.part");
    assert_eq!(part_path_of(r"win\style.txt"), r"win\style.part");
    // calling it twice finds the same marker
    assert_eq!(part_path_of("a/b.bin"), part_path_of("a/b.bin"));
}

#[test]
fn resume_offset_is_marker_length() {
    assert_eq!(resume_offset(Some(1024)), 1024);
    assert_eq!(resume_offset(None), 0);
    // with no new data the offset never moves
    assert_eq!(resume_offset(Some(77)), resume_offset(Some(77)));
}
