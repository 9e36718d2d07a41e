use nicocast_v2::logger::split_log_path;

#[test]
fn split_absolute_path() {
    let (dir, file) = split_log_path("/var/log/miracast_rs.log");
    assert_eq!(dir, "/var/log");
    assert_eq!(file, "miracast_rs.log");
}

#[test]
fn split_relative_path() {
    let (dir, file) = split_log_path("logs/app.log");
    assert_eq!(dir, "logs");
    assert_eq!(file, "app.log");
}

#[test]
fn split_filename_only() {
    let (dir, file) = split_log_path("app.log");
    assert_eq!(dir, ".");
    assert_eq!(file, "app.log");
}

#[test]
fn split_edge_cases() {
    assert_eq!(split_log_path(""), (".", ""));
    assert_eq!(split_log_path("/app.log"), ("/", "app.log"));
    assert_eq!(split_log_path("/"), ("/", ""));
    assert_eq!(split_log_path("logs/"), ("logs", ""));
    assert_eq!(split_log_path("//x"), ("/", "x"));
    assert_eq!(split_log_path("größe/ä/ü.log"), ("größe/ä", "ü.log"));
}
