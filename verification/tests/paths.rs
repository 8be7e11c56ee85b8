use supervisor::args::CommandLineArguments;
use supervisor::args::PathError;
use supervisor::args::has_extension;
use supervisor::args::split_executable_path;
use supervisor::config::Config;

fn arguments(path: &str) -> CommandLineArguments {
    CommandLineArguments {
        path: path.to_string(),
        watch_files: false,
        only_non_zero_exit: false,
        restart_delay: 1000,
        recheck_delay: 500,
        force_restart_delay: 0,
    }
}

#[test]
fn split_separates_directory_and_executable_name() {
    let resolved = split_executable_path(&b"/opt/app/run.exe".to_vec()).unwrap();
    assert_eq!(resolved.directory, b"/opt/app".to_vec());
    assert_eq!(resolved.file_name, b"run.exe".to_vec());
}

#[test]
fn split_keeps_the_root_as_directory() {
    let resolved = split_executable_path(&b"/run.exe".to_vec()).unwrap();
    assert_eq!(resolved.directory, b"/".to_vec());
    assert_eq!(resolved.file_name, b"run.exe".to_vec());
}

#[test]
fn split_rejects_a_name_without_extension() {
    let r = split_executable_path(&b"/opt/app/run".to_vec());
    assert!(matches!(r, Err(PathError::NoExecutableName)));
}

#[test]
fn split_rejects_a_hidden_file_as_executable() {
    // A leading dot alone is not a file extension.
    let r = split_executable_path(&b"/home/user/.bashrc".to_vec());
    assert!(matches!(r, Err(PathError::NoExecutableName)));
}

#[test]
fn split_rejects_a_path_without_separator() {
    let r = split_executable_path(&b"run.exe".to_vec());
    assert!(matches!(r, Err(PathError::NoParentDirectory)));
}

#[test]
fn extension_detection() {
    assert!(has_extension(&b"run.exe".to_vec()));
    assert!(has_extension(&b"archive.tar.gz".to_vec()));
    assert!(has_extension(&b"a.".to_vec()));
    assert!(has_extension(&b".config.toml".to_vec()));
    assert!(!has_extension(&b"run".to_vec()));
    assert!(!has_extension(&b".bashrc".to_vec()));
    assert!(!has_extension(&b".".to_vec()));
    assert!(!has_extension(&b"".to_vec()));
}

#[test]
fn from_arguments_builds_a_stopped_config() {
    let args = arguments("./my-app/run.exe");
    let config = Config::from_arguments(&b"/home/user/my-app/run.exe".to_vec(), &args).unwrap();
    assert!(!config.has_process());
    assert_eq!(config.directory(), b"/home/user/my-app".to_vec());
    assert_eq!(config.full_path(), b"/home/user/my-app/run.exe".to_vec());
}

#[test]
fn from_arguments_rejects_an_invalid_path_before_anything_starts() {
    let args = arguments("./my-app/run");
    let r = Config::from_arguments(&b"/home/user/my-app/run".to_vec(), &args);
    assert!(matches!(r, Err(PathError::NoExecutableName)));
}
