use mig_gpu_mon::library::lib_search_paths;

const BUILTIN: [&str; 11] = [
    "libnvidia-ml.so.1",
    "libnvidia-ml.so",
    "/usr/lib/x86_64-linux-gnu/libnvidia-ml.so.1",
    "/usr/lib64/libnvidia-ml.so.1",
    "/usr/lib/aarch64-linux-gnu/libnvidia-ml.so.1",
    "/usr/local/nvidia/lib64/libnvidia-ml.so.1",
    "/usr/local/nvidia/lib/libnvidia-ml.so.1",
    "/run/nvidia/driver/usr/lib/x86_64-linux-gnu/libnvidia-ml.so.1",
    "/run/nvidia/driver/usr/lib64/libnvidia-ml.so.1",
    "/usr/local/cuda/lib64/stubs/libnvidia-ml.so",
    "/usr/lib/wsl/lib/libnvidia-ml.so.1",
];

#[test]
fn builtin_paths_alone() {
    assert_eq!(lib_search_paths(None, None), BUILTIN.to_vec());
}

#[test]
fn user_path_first_then_ld_dirs_then_builtins() {
    let got = lib_search_paths(Some("/opt/nv/libnvidia-ml.so.1"), Some("/a::/b:/a:"));
    let mut want = vec![
        "/opt/nv/libnvidia-ml.so.1".to_string(),
        "/a/libnvidia-ml.so.1".to_string(),
        "/b/libnvidia-ml.so.1".to_string(),
    ];
    want.extend(BUILTIN.iter().map(|s| s.to_string()));
    assert_eq!(got, want);
}

#[test]
fn duplicates_of_builtins_are_skipped() {
    let got = lib_search_paths(Some("/usr/lib64/libnvidia-ml.so.1"), Some("/usr/lib64"));
    assert_eq!(got.len(), BUILTIN.len());
    assert_eq!(got[0], "/usr/lib64/libnvidia-ml.so.1");
    let got = lib_search_paths(None, Some(""));
    assert_eq!(got, BUILTIN.to_vec());
}

#[test]
fn non_ascii_directories_are_kept() {
    let got = lib_search_paths(None, Some("/opt/é"));
    assert_eq!(got[0], "/opt/é/libnvidia-ml.so.1");
}
