use recision::config::{config_dir_or_error, config_file_path_in};
use recision::{
    deactivate, get_config_dir, get_config_file_path, Config, ConfigDirProvider,
    DefaultConfigDirProvider,
};

struct FixedConfigDirProvider {
    dir: Option<String>,
}

impl ConfigDirProvider for FixedConfigDirProvider {
    fn get_config_dir(&self) -> Option<String> {
        self.dir.clone()
    }
}

fn get_test_config_dir_provider() -> FixedConfigDirProvider {
    FixedConfigDirProvider { dir: Some("/tmp".to_string()) }
}

#[test]
fn test_get_real_config_dir() {
    get_config_dir(&DefaultConfigDirProvider {}).unwrap();
}

#[test]
fn test_get_mock_config_dir() {
    let provider = get_test_config_dir_provider();
    get_config_dir(&provider).unwrap();
}

#[test]
fn test_fail_get_config_dir() {
    let provider = FixedConfigDirProvider { dir: None };

    let result = get_config_dir(&provider);

    assert!(result.is_err());
}

#[test]
fn test_get_config_file_path() {
    let provider = get_test_config_dir_provider();
    let path = get_config_file_path(&provider);
    assert!(path.is_ok());
}

#[test]
fn config_file_lies_in_its_own_directory() {
    assert_eq!(config_file_path_in("/home/u/.config"), "/home/u/.config/recision/config.toml");
    assert_eq!(config_file_path_in("/home/u/.config/"), "/home/u/.config/recision/config.toml");
    let provider = FixedConfigDirProvider { dir: Some("/etc".to_string()) };
    assert_eq!(get_config_file_path(&provider).unwrap(), "/etc/recision/config.toml");
}

#[test]
fn missing_config_dir_is_an_error() {
    let e = config_dir_or_error(None).unwrap_err();
    assert_eq!(e.message, "can't locate config directory");
    assert_eq!(config_dir_or_error(Some("/x".to_string())).unwrap(), "/x");
}

#[test]
fn workspace_path_must_exist() {
    let mut config = Config::new();
    let e = config.set_workspace(Some("/no/such/file".to_string()), false).unwrap_err();
    assert_eq!(e.message, "workspace directory '/no/such/file' does not exist");
    assert_eq!(config.get_workspace(), &None);
    config.set_workspace(Some("/w.toml".to_string()), true).unwrap();
    assert_eq!(config.get_workspace(), &Some("/w.toml".to_string()));
}

#[test]
fn deactivating_forgets_the_workspace() {
    let mut config = Config::from_values(Some("/w.toml".to_string()), Some(2));
    deactivate(&mut config);
    assert_eq!(config.get_workspace(), &None);
    assert_eq!(config.get_active_priority_set(), Some(2));
}
