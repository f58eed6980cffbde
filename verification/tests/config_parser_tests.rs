use nxfutil::config_parser::ConfigParser;

const CONFIG: &str = "process.executor = 'azurebatch'\n\
azure {\n\
  storage { accountName = secrets.azure_storage_accountName\n\
            accountKey = secrets.azure_storage_accountKey }\n\
  batch { accountName = exParams.azure_batch_accountName\n\
          accountKey = secrets.azure_storage_accountKey }\n\
}\n";

#[test]
fn find_secrets_lists_each_secret_once_in_order() {
    let found = ConfigParser::find_secrets(CONFIG).unwrap();
    assert_eq!(found, vec!["azure_storage_accountName".to_string(), "azure_storage_accountKey".to_string()]);
}

#[test]
fn find_extended_params_lists_ex_params() {
    let found = ConfigParser::find_extended_params(CONFIG).unwrap();
    assert_eq!(found, vec!["azure_batch_accountName".to_string()]);
}

#[test]
fn find_secrets_in_config_without_secrets_is_empty() {
    assert_eq!(ConfigParser::find_secrets("params.foo = 1\n").unwrap(), Vec::<String>::new());
}

#[test]
fn find_in_string_returns_every_match() {
    let found = ConfigParser::find_in_string("a1 b22 c333", "[0-9]+").unwrap();
    assert_eq!(found, vec!["1".to_string(), "22".to_string(), "333".to_string()]);
}

#[test]
fn find_in_file_rejects_invalid_pattern() {
    assert!(ConfigParser::find_in_file("abc", "foo(bar").is_none());
}

#[test]
fn keyval_match_without_dot_is_no_reference() {
    // `.` in the pattern matches any character, so this match is no `secrets.NAME` reference.
    assert_eq!(
        ConfigParser::find_unique_val_from_keyval_pattern("secretsXfoo", "secrets.[a-z]*").unwrap(),
        Vec::<String>::new()
    );
}

#[test]
fn find_secrets_passes_over_prose_in_comments() {
    let text = "// secrets are read from Key Vault\nx = secrets.KEY\n";
    assert_eq!(ConfigParser::find_secrets(text).unwrap(), vec!["KEY".to_string()]);
}

#[test]
fn keyval_pattern_that_does_not_compile_has_no_result() {
    assert!(ConfigParser::find_unique_val_from_keyval_pattern("secrets.a", "secrets.(").is_none());
}

#[test]
fn key_of_match_takes_second_field() {
    assert_eq!(ConfigParser::key_of_match("secrets.foo_bar"), "foo_bar");
    assert_eq!(ConfigParser::key_of_match("a.b.c"), "b");
    assert_eq!(ConfigParser::key_of_match("secrets."), "");
}

#[test]
fn unique_keys_of_drops_repeats() {
    let ms = vec!["s.a".to_string(), "s.b".to_string(), "s.a".to_string(), "x.b".to_string()];
    assert_eq!(ConfigParser::unique_keys_of(&ms), vec!["a".to_string(), "b".to_string()]);
}

#[test]
fn keyvault_secret_name_replaces_underscores() {
    assert_eq!(ConfigParser::keyvault_secret_name("azure_storage_accountName"), "azure-storage-accountName");
    assert_eq!(ConfigParser::keyvault_secret_name("plain"), "plain");
}

#[test]
fn secrets_set_args_are_nextflow_secrets_set() {
    assert_eq!(
        ConfigParser::secrets_set_args("name", "value"),
        vec!["secrets".to_string(), "set".to_string(), "name".to_string(), "value".to_string()]
    );
}

#[test]
fn substitute_extended_param_replaces_every_placeholder() {
    let text = "a = exParams.key\nb = exParams.key\nc = exParams.other\n";
    assert_eq!(
        ConfigParser::substitute_extended_param(text, "key", "'v'"),
        "a = 'v'\nb = 'v'\nc = exParams.other\n"
    );
}

#[test]
fn substitute_extended_params_applies_in_order() {
    let text = "x = exParams.a; y = exParams.b";
    let names = vec!["a".to_string(), "b".to_string()];
    let values = vec!["1".to_string(), "2".to_string()];
    assert_eq!(ConfigParser::substitute_extended_params(text, &names, &values), "x = 1; y = 2");
}

#[test]
fn substitute_without_placeholder_keeps_text() {
    let text = "nothing to do here";
    assert_eq!(ConfigParser::substitute_extended_param(text, "key", "v"), text);
}

#[test]
fn substitute_keeps_a_longer_name_whole() {
    let text = "a = exParams.key\nb = exParams.key_two\n";
    let names = vec!["key".to_string(), "key_two".to_string()];
    let values = vec!["V1".to_string(), "V2".to_string()];
    assert_eq!(ConfigParser::substitute_extended_params(text, &names, &values), "a = V1\nb = V2\n");
}

#[test]
fn substitute_one_name_leaves_longer_name_alone() {
    let text = "a = exParams.key\nb = exParams.key_two\n";
    assert_eq!(ConfigParser::substitute_extended_param(text, "key", "V1"), "a = V1\nb = exParams.key_two\n");
}

#[test]
fn substitute_reference_at_end_of_text() {
    assert_eq!(ConfigParser::substitute_extended_param("x=exParams.k", "k", "7"), "x=7");
}

#[test]
fn unique_vals_of_passes_over_matches_without_dot() {
    let ms = vec![
        "secrets are".to_string(),
        "secrets.KEY".to_string(),
        "secretsXfoo".to_string(),
        "secrets.KEY".to_string(),
        "secrets.other".to_string(),
    ];
    assert_eq!(ConfigParser::unique_vals_of(&ms), vec!["KEY".to_string(), "other".to_string()]);
}

#[test]
fn unique_vals_of_no_matches_is_empty() {
    assert_eq!(ConfigParser::unique_vals_of(&Vec::new()), Vec::<String>::new());
}
